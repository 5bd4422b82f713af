use vstd::prelude::*;
use crate::address::Address;
use crate::key::{DataKey, Key};
use crate::model::{Op, State};

verus! {

/// One request to the durable store, as the ledger records it for whoever
/// carries the requests out.
#[derive(Debug, PartialEq, Eq)]
pub enum Operation {
    /// Write the admin identity into instance storage.
    SetAdmin(Address),
    /// Write the greeting counter into instance storage.
    SetContador(u32),
    /// Write a user's last greeting into persistent storage.
    SetUltimoSaludo(Address, Vec<u8>),
    /// Extend the window shared by all instance entries.
    ExtendInstance { threshold: u32, extend_to: u32 },
    /// Extend the window of one persistent entry.
    ExtendPersistent { key: DataKey, threshold: u32, extend_to: u32 },
}

impl View for Operation {
    type V = Op;

    open spec fn view(&self) -> Op {
        match self {
            Operation::SetAdmin(admin) => Op::SetAdmin(admin@),
            Operation::SetContador(n) => Op::SetContador(*n),
            Operation::SetUltimoSaludo(usuario, texto) => Op::SetUltimoSaludo(usuario@, texto@),
            Operation::ExtendInstance { threshold, extend_to } => Op::ExtendInstance(
                *threshold,
                *extend_to,
            ),
            Operation::ExtendPersistent { key, threshold, extend_to } => Op::ExtendPersistent(
                key@,
                *threshold,
                *extend_to,
            ),
        }
    }
}

/// The requests that a list of operations stands for, in the same order.
pub open spec fn requests(ops: Seq<Operation>) -> Seq<Op> {
    ops.map_values(|op: Operation| op@)
}

/// The last greeting of one user.
#[derive(Debug)]
struct Saludo {
    usuario: Address,
    texto: Vec<u8>,
}

/// What a list of greeting entries holds for each user: where a user occurs
/// more than once, the entry nearest the end counts.
spec fn greetings(entries: Seq<Saludo>) -> Map<Seq<u8>, Seq<u8>>
    decreases entries.len(),
{
    if entries.len() == 0 {
        Map::empty()
    } else {
        greetings(entries.drop_last()).insert(entries.last().usuario@, entries.last().texto@)
    }
}

/// A user without an entry has no greeting.
proof fn lemma_greetings_absent(entries: Seq<Saludo>, usuario: Seq<u8>)
    requires
        forall|j: int| 0 <= j < entries.len() ==> entries[j].usuario@ != usuario,
    ensures
        !greetings(entries).contains_key(usuario),
    decreases entries.len(),
{
    if entries.len() > 0 {
        lemma_greetings_absent(entries.drop_last(), usuario);
    }
}

/// The entry of a user that no later entry overrides holds that user's
/// greeting.
proof fn lemma_greetings_found(entries: Seq<Saludo>, i: int, usuario: Seq<u8>)
    requires
        0 <= i < entries.len(),
        entries[i].usuario@ == usuario,
        forall|j: int| i < j < entries.len() ==> entries[j].usuario@ != usuario,
    ensures
        greetings(entries).contains_key(usuario),
        greetings(entries)[usuario] == entries[i].texto@,
    decreases entries.len(),
{
    if i < entries.len() - 1 {
        lemma_greetings_found(entries.drop_last(), i, usuario);
    }
}

/// Replacing the entry of a user that no later entry overrides acts as an
/// insertion into what the entries hold.
proof fn lemma_greetings_replace(entries: Seq<Saludo>, i: int, nuevo: Saludo)
    requires
        0 <= i < entries.len(),
        entries[i].usuario@ == nuevo.usuario@,
        forall|j: int| i < j < entries.len() ==> entries[j].usuario@ != nuevo.usuario@,
    ensures
        greetings(entries.update(i, nuevo)) == greetings(entries).insert(
            nuevo.usuario@,
            nuevo.texto@,
        ),
    decreases entries.len(),
{
    let updated = entries.update(i, nuevo);
    if i == entries.len() - 1 {
        assert(updated.drop_last() == entries.drop_last());
        assert(greetings(updated) =~= greetings(entries).insert(nuevo.usuario@, nuevo.texto@));
    } else {
        lemma_greetings_replace(entries.drop_last(), i, nuevo);
        assert(updated.drop_last() == entries.drop_last().update(i, nuevo));
        assert(greetings(updated) =~= greetings(entries).insert(nuevo.usuario@, nuevo.texto@));
    }
}

/// An in-memory ledger: the entries of the durable store, and a journal of
/// the requests made to it.
///
/// Instance storage holds the admin and the greeting counter, which share one
/// time-to-live window. Persistent storage holds one greeting per user, each
/// with a window of its own. Writes take effect here at once and are
/// journalled, oldest first; extensions are journalled only, since the
/// windows themselves belong to the host.
#[derive(Debug)]
pub struct Ledger {
    admin: Option<Address>,
    contador: Option<u32>,
    saludos: Vec<Saludo>,
    journal: Vec<Operation>,
}

impl View for Ledger {
    type V = State;

    closed spec fn view(&self) -> State {
        State {
            admin: match self.admin {
                Some(admin) => Some(admin@),
                None => None,
            },
            contador: self.contador,
            saludos: greetings(self.saludos@),
            journal: requests(self.journal@),
        }
    }
}

impl Ledger {
    /// A ledger that holds nothing and has been asked nothing.
    pub fn new() -> (ledger: Ledger)
        ensures
            ledger@ == State::empty(),
    {
        let ledger = Ledger {
            admin: None,
            contador: None,
            saludos: Vec::new(),
            journal: Vec::new(),
        };
        assert(ledger@.journal =~= Seq::empty());
        ledger
    }

    /// A ledger that holds the given instance entries, as read back from the
    /// durable store, with no greetings and an empty journal.
    pub fn restore(admin: Option<Address>, contador: Option<u32>) -> (ledger: Ledger)
        ensures
            ledger@.admin == (match admin {
                Some(a) => Some(a@),
                None => None,
            }),
            ledger@.contador == contador,
            ledger@.saludos == Map::<Seq<u8>, Seq<u8>>::empty(),
            ledger@.journal == Seq::<Op>::empty(),
    {
        let ledger = Ledger { admin, contador, saludos: Vec::new(), journal: Vec::new() };
        assert(ledger@.journal =~= Seq::empty());
        ledger
    }

    /// Puts a greeting read back from the durable store into the ledger. The
    /// journal stays as it is: nothing new is asked of the store.
    pub fn load_saludo(&mut self, usuario: Address, texto: Vec<u8>)
        ensures
            final(self)@ == (State {
                saludos: old(self)@.saludos.insert(usuario@, texto@),
                ..old(self)@
            }),
    {
        let found = self.find(&usuario);
        let nuevo = Saludo { usuario, texto };
        match found {
            Some(i) => {
                proof {
                    lemma_greetings_replace(self.saludos@, i as int, nuevo);
                }
                self.saludos.set(i, nuevo);
            },
            None => {
                self.saludos.push(nuevo);
                assert(self.saludos@.drop_last() == old(self).saludos@);
            },
        }
    }

    /// Whether the ledger holds an entry under the key.
    pub fn has(&self, key: &DataKey) -> (b: bool)
        ensures
            b == self@.has(key@),
    {
        match key {
            DataKey::Admin => self.admin.is_some(),
            DataKey::ContadorSaludos => self.contador.is_some(),
            DataKey::UltimoSaludo(usuario) => self.ultimo_saludo(usuario).is_some(),
        }
    }

    /// The admin identity, if one has been assigned.
    pub fn admin(&self) -> (admin: Option<&Address>)
        ensures
            match admin {
                Some(a) => self@.admin == Some(a@),
                None => self@.admin is None,
            },
    {
        self.admin.as_ref()
    }

    /// The greeting counter, if it has ever been written.
    pub fn contador(&self) -> (contador: Option<u32>)
        ensures
            contador == self@.contador,
    {
        self.contador
    }

    /// The last greeting of a user, if the user has one.
    pub fn ultimo_saludo(&self, usuario: &Address) -> (texto: Option<&Vec<u8>>)
        ensures
            match texto {
                Some(t) => self@.get_ultimo_saludo(usuario@) == Some(t@),
                None => self@.get_ultimo_saludo(usuario@) is None,
            },
    {
        match self.find(usuario) {
            Some(i) => {
                proof {
                    lemma_greetings_found(self.saludos@, i as int, usuario@);
                }
                Some(&self.saludos[i].texto)
            },
            None => {
                proof {
                    lemma_greetings_absent(self.saludos@, usuario@);
                }
                None
            },
        }
    }

    /// The journal: every request made to the store and not yet taken,
    /// oldest first.
    pub fn journal(&self) -> (ops: &Vec<Operation>)
        ensures
            requests(ops@) == self@.journal,
    {
        &self.journal
    }

    /// Hands the journal over, for the requests to be carried out against the
    /// durable store, and leaves an empty journal behind. What the ledger
    /// holds is untouched.
    pub fn take_journal(&mut self) -> (ops: Vec<Operation>)
        ensures
            requests(ops@) == old(self)@.journal,
            final(self)@ == (State { journal: Seq::empty(), ..old(self)@ }),
    {
        let mut ops: Vec<Operation> = Vec::new();
        std::mem::swap(&mut ops, &mut self.journal);
        assert(requests(self.journal@) =~= Seq::empty());
        ops
    }

    /// Writes the admin identity into instance storage.
    pub(crate) fn set_admin(&mut self, admin: Address)
        ensures
            final(self)@ == (State { admin: Some(admin@), ..old(self)@ }).request(
                Op::SetAdmin(admin@),
            ),
    {
        self.record(Operation::SetAdmin(admin.clone()));
        self.admin = Some(admin);
    }

    /// Writes the greeting counter into instance storage.
    pub(crate) fn set_contador(&mut self, contador: u32)
        ensures
            final(self)@ == (State { contador: Some(contador), ..old(self)@ }).request(
                Op::SetContador(contador),
            ),
    {
        self.record(Operation::SetContador(contador));
        self.contador = Some(contador);
    }

    /// Writes a user's last greeting into persistent storage.
    pub(crate) fn set_ultimo_saludo(&mut self, usuario: Address, texto: Vec<u8>)
        ensures
            final(self)@ == (State {
                saludos: old(self)@.saludos.insert(usuario@, texto@),
                ..old(self)@
            }).request(Op::SetUltimoSaludo(usuario@, texto@)),
    {
        let copia = texto.clone();
        assert(copia@ =~= texto@);
        self.record(Operation::SetUltimoSaludo(usuario.clone(), copia));
        self.load_saludo(usuario, texto);
    }

    /// Asks for the window shared by all instance entries to be extended.
    pub(crate) fn extend_instance_ttl(&mut self, threshold: u32, extend_to: u32)
        ensures
            final(self)@ == old(self)@.request(Op::ExtendInstance(threshold, extend_to)),
    {
        self.record(Operation::ExtendInstance { threshold, extend_to });
    }

    /// Asks for the window of one persistent entry to be extended.
    pub(crate) fn extend_persistent_ttl(&mut self, key: DataKey, threshold: u32, extend_to: u32)
        ensures
            final(self)@ == old(self)@.request(Op::ExtendPersistent(key@, threshold, extend_to)),
    {
        self.record(Operation::ExtendPersistent { key, threshold, extend_to });
    }

    /// Appends one request to the journal.
    fn record(&mut self, op: Operation)
        ensures
            final(self)@ == old(self)@.request(op@),
    {
        self.journal.push(op);
        assert(requests(self.journal@) =~= requests(old(self).journal@).push(op@));
    }

    /// The place of the entry that counts for a user: the last one of that
    /// user, if there is any.
    fn find(&self, usuario: &Address) -> (found: Option<usize>)
        ensures
            match found {
                Some(i) => {
                    &&& i < self.saludos@.len()
                    &&& self.saludos@[i as int].usuario@ == usuario@
                    &&& forall|j: int|
                        i < j < self.saludos@.len() ==> self.saludos@[j].usuario@ != usuario@
                },
                None => forall|j: int|
                    0 <= j < self.saludos@.len() ==> self.saludos@[j].usuario@ != usuario@,
            },
    {
        let mut i: usize = self.saludos.len();
        while i > 0
            invariant
                i <= self.saludos@.len(),
                forall|j: int| i <= j < self.saludos@.len() ==> self.saludos@[j].usuario@ != usuario@,
            decreases i,
        {
            i -= 1;
            if self.saludos[i].usuario == *usuario {
                return Some(i);
            }
        }
        None
    }
}

} // verus!
