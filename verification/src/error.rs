use vstd::prelude::*;

verus! {

/// The ways an operation on the greeting ledger can fail.
#[derive(Copy, Clone, Debug, PartialEq, Eq, Structural)]
pub enum Error {
    /// The supplied name has zero length.
    NombreVacio,
    /// The supplied name is longer than the allowed maximum.
    NombreMuyLargo,
    /// The caller is not the stored admin.
    NoAutorizado,
    /// The operation needs a prior initialization, or initialization was
    /// attempted a second time.
    NoInicializado,
}

impl Error {
    /// The stable numeric identifier of an error kind.
    pub open spec fn spec_code(self) -> u32 {
        match self {
            Error::NombreVacio => 1,
            Error::NombreMuyLargo => 2,
            Error::NoAutorizado => 3,
            Error::NoInicializado => 4,
        }
    }

    /// The stable numeric identifier that callers see for this error kind.
    #[verifier::when_used_as_spec(spec_code)]
    pub fn code(self) -> (c: u32)
        ensures
            c == self.spec_code(),
    {
        match self {
            Error::NombreVacio => 1,
            Error::NombreMuyLargo => 2,
            Error::NoAutorizado => 3,
            Error::NoInicializado => 4,
        }
    }
}

} // verus!
