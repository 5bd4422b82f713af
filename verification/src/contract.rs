use vstd::prelude::*;
use crate::address::Address;
use crate::error::Error;
use crate::key::DataKey;
use crate::ledger::Ledger;
use crate::model::{caracteres, check_nombre, MAX_NOMBRE, TTL_WINDOW};

verus! {

/// The greeting contract: five operations on a ledger.
///
/// Each operation runs to completion on the ledger it is handed. One that
/// fails leaves the ledger exactly as it found it, journal included.
///
/// The identities given to `hello` and `reset_contador` are compared, never
/// authenticated: any caller may name any identity. Whoever needs more must
/// prove the identity before the call.
pub struct HelloContract;

impl HelloContract {
    /// Assigns the admin, once. Where an admin already exists the call fails
    /// with `NoInicializado`; otherwise it stores the admin, sets the counter
    /// to zero and extends the instance window.
    pub fn initialize(ledger: &mut Ledger, admin: Address) -> (result: Result<(), Error>)
        ensures
            final(ledger)@ == old(ledger)@.initialize(admin@).0,
            result == old(ledger)@.initialize(admin@).1,
    {
        if ledger.has(&DataKey::Admin) {
            return Err(Error::NoInicializado);
        }
        ledger.set_admin(admin);
        ledger.set_contador(0);
        ledger.extend_instance_ttl(TTL_WINDOW, TTL_WINDOW);
        Ok(())
    }

    /// The length of a text in characters.
    pub fn caracteres(texto: &Vec<u8>) -> (n: usize)
        ensures
            n == caracteres(texto@),
    {
        let mut n: usize = 0;
        let mut i: usize = 0;
        while i < texto.len()
            invariant
                i <= texto@.len(),
                n <= i,
                n == caracteres(texto@.take(i as int)),
            decreases texto@.len() - i,
        {
            let byte = texto[i];
            assert(texto@.take(i + 1).drop_last() == texto@.take(i as int));
            if byte < 0x80 || byte > 0xBF {
                n += 1;
            }
            i += 1;
        }
        assert(texto@.take(i as int) == texto@);
        n
    }

    /// Tells whether `hello` accepts a name, and why not if it does not:
    /// `NombreVacio` for a name without a character, else `NombreMuyLargo`
    /// for one of more than `MAX_NOMBRE` characters.
    pub fn check_nombre(nombre: &Vec<u8>) -> (result: Result<(), Error>)
        ensures
            result == check_nombre(nombre@),
    {
        let n = Self::caracteres(nombre);
        if n == 0 {
            Err(Error::NombreVacio)
        } else if n > MAX_NOMBRE {
            Err(Error::NombreMuyLargo)
        } else {
            Ok(())
        }
    }

    /// Records a greeting from a user. A name without a character fails
    /// with `NombreVacio`, one of more than `MAX_NOMBRE` characters with
    /// `NombreMuyLargo`. Otherwise the counter, read as zero where it was
    /// never written, goes up by one, the name becomes the user's last
    /// greeting, the window of that entry and the instance window are
    /// extended, and the fixed greeting token comes back.
    ///
    /// The counter must have room for an accepted greeting.
    pub fn hello(ledger: &mut Ledger, usuario: Address, nombre: Vec<u8>) -> (result: Result<
        &'static str,
        Error,
    >)
        requires
            check_nombre(nombre@) is Ok ==> old(ledger)@.get_contador() < u32::MAX,
        ensures
            final(ledger)@ == old(ledger)@.hello(usuario@, nombre@).0,
            match result {
                Ok(token) => old(ledger)@.hello(usuario@, nombre@).1 == Ok::<Seq<char>, Error>(
                    token@,
                ),
                Err(e) => old(ledger)@.hello(usuario@, nombre@).1 == Err::<Seq<char>, Error>(e),
            },
    {
        Self::check_nombre(&nombre)?;
        let contador = Self::get_contador(ledger);
        ledger.set_contador(contador + 1);
        ledger.set_ultimo_saludo(usuario.clone(), nombre);
        ledger.extend_persistent_ttl(DataKey::UltimoSaludo(usuario), TTL_WINDOW, TTL_WINDOW);
        ledger.extend_instance_ttl(TTL_WINDOW, TTL_WINDOW);
        Ok("Hola")
    }

    /// The greeting counter; zero while it has never been written.
    pub fn get_contador(ledger: &Ledger) -> (contador: u32)
        ensures
            contador == ledger@.get_contador(),
    {
        match ledger.contador() {
            Some(n) => n,
            None => 0,
        }
    }

    /// The last accepted greeting of a user, or `None` for a user who has
    /// none.
    pub fn get_ultimo_saludo(ledger: &Ledger, usuario: Address) -> (texto: Option<Vec<u8>>)
        ensures
            match texto {
                Some(t) => ledger@.get_ultimo_saludo(usuario@) == Some(t@),
                None => ledger@.get_ultimo_saludo(usuario@) is None,
            },
    {
        match ledger.ultimo_saludo(&usuario) {
            Some(guardado) => {
                let texto = guardado.clone();
                assert(texto@ =~= guardado@);
                Some(texto)
            },
            None => None,
        }
    }

    /// Sets the counter back to zero, for the admin only. Without an admin
    /// the call fails with `NoInicializado`; for a caller other than the
    /// admin, with `NoAutorizado`. Otherwise it stores zero and extends the
    /// instance window.
    pub fn reset_contador(ledger: &mut Ledger, caller: Address) -> (result: Result<(), Error>)
        ensures
            final(ledger)@ == old(ledger)@.reset_contador(caller@).0,
            result == old(ledger)@.reset_contador(caller@).1,
    {
        let autorizado = match ledger.admin() {
            None => {
                return Err(Error::NoInicializado);
            },
            Some(admin) => caller == *admin,
        };
        if !autorizado {
            return Err(Error::NoAutorizado);
        }
        ledger.set_contador(0);
        ledger.extend_instance_ttl(TTL_WINDOW, TTL_WINDOW);
        Ok(())
    }
}

} // verus!
