use vstd::prelude::*;
use crate::address::Address;

verus! {

/// The keys under which the ledger keeps its entries.
#[derive(Debug, PartialEq, Eq)]
pub enum DataKey {
    /// The identity allowed to reset the counter. Instance storage.
    Admin,
    /// The number of greetings accepted since the last reset. Instance storage.
    ContadorSaludos,
    /// The last greeting text accepted from the given user. Persistent storage.
    UltimoSaludo(Address),
}

/// A key as a plain value: the user of a per-user key is given by its bytes.
pub enum Key {
    /// The key of the admin identity.
    Admin,
    /// The key of the greeting counter.
    ContadorSaludos,
    /// The key of the last greeting of the user with these bytes.
    UltimoSaludo(Seq<u8>),
}

impl View for DataKey {
    type V = Key;

    open spec fn view(&self) -> Key {
        match self {
            DataKey::Admin => Key::Admin,
            DataKey::ContadorSaludos => Key::ContadorSaludos,
            DataKey::UltimoSaludo(usuario) => Key::UltimoSaludo(usuario@),
        }
    }
}

impl Clone for DataKey {
    fn clone(&self) -> (k: DataKey)
        ensures
            k@ == self@,
    {
        match self {
            DataKey::Admin => DataKey::Admin,
            DataKey::ContadorSaludos => DataKey::ContadorSaludos,
            DataKey::UltimoSaludo(usuario) => DataKey::UltimoSaludo(usuario.clone()),
        }
    }
}

} // verus!
