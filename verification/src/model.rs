use vstd::prelude::*;
use crate::error::Error;
use crate::key::Key;

verus! {

/// The time-to-live window, in ledger units, that every extension asks for:
/// both the threshold below which a window is refreshed and the window it is
/// refreshed to.
pub const TTL_WINDOW: u32 = 17280;

/// The longest name that a greeting accepts, in characters.
pub const MAX_NOMBRE: usize = 32;

/// One request to the durable store, as a plain value.
pub enum Op {
    /// Write the admin identity into instance storage.
    SetAdmin(Seq<u8>),
    /// Write the greeting counter into instance storage.
    SetContador(u32),
    /// Write a user's last greeting into persistent storage.
    SetUltimoSaludo(Seq<u8>, Seq<u8>),
    /// Extend the window shared by all instance entries: the threshold, then
    /// the window to extend to.
    ExtendInstance(u32, u32),
    /// Extend the window of one persistent entry: its key, the threshold,
    /// then the window to extend to.
    ExtendPersistent(Key, u32, u32),
}

/// The state of the contract: what the durable store holds, and the requests
/// made to it so far, oldest first.
#[verifier::ext_equal]
pub struct State {
    /// The admin identity; present once the contract has been initialized.
    pub admin: Option<Seq<u8>>,
    /// The greeting counter, if it has ever been written.
    pub contador: Option<u32>,
    /// The last accepted greeting of each user who has one.
    pub saludos: Map<Seq<u8>, Seq<u8>>,
    /// The requests made to the store, in the order they were made.
    pub journal: Seq<Op>,
}

/// The token that an accepted greeting answers with.
pub open spec fn greeting() -> Seq<char> {
    "Hola"@
}

/// Whether a byte of a text begins a character. A text is held as the bytes
/// of its UTF-8 form, in which every character begins with one byte outside
/// `0x80..=0xBF` and goes on with bytes inside it.
pub open spec fn begins_character(byte: u8) -> bool {
    byte < 0x80 || byte > 0xBF
}

/// The length of a text in characters: the number of its bytes that begin
/// one. For text in ASCII this is the number of bytes; a letter that takes
/// two bytes or more counts once.
pub open spec fn caracteres(texto: Seq<u8>) -> nat
    decreases texto.len(),
{
    if texto.len() == 0 {
        0
    } else if begins_character(texto.last()) {
        caracteres(texto.drop_last()) + 1
    } else {
        caracteres(texto.drop_last())
    }
}

/// Why a name is refused, if it is: a name without a character is empty, and
/// one of more than `MAX_NOMBRE` characters is too long.
pub open spec fn check_nombre(nombre: Seq<u8>) -> Result<(), Error> {
    if caracteres(nombre) == 0 {
        Err(Error::NombreVacio)
    } else if caracteres(nombre) > MAX_NOMBRE {
        Err(Error::NombreMuyLargo)
    } else {
        Ok(())
    }
}

/// A text has at most as many characters as bytes, and a text without bytes
/// has none.
pub proof fn lemma_caracteres_bounds(texto: Seq<u8>)
    ensures
        caracteres(texto) <= texto.len(),
        texto.len() == 0 ==> caracteres(texto) == 0,
    decreases texto.len(),
{
    if texto.len() > 0 {
        lemma_caracteres_bounds(texto.drop_last());
    }
}

impl State {
    /// The state before anything has happened: nothing stored, nothing
    /// requested.
    pub open spec fn empty() -> State {
        State { admin: None, contador: None, saludos: Map::empty(), journal: Seq::empty() }
    }

    /// Whether the admin has been assigned.
    pub open spec fn initialized(self) -> bool {
        self.admin is Some
    }

    /// Whether the store holds an entry under the key.
    pub open spec fn has(self, key: Key) -> bool {
        match key {
            Key::Admin => self.admin is Some,
            Key::ContadorSaludos => self.contador is Some,
            Key::UltimoSaludo(usuario) => self.saludos.contains_key(usuario),
        }
    }

    /// The greeting counter, read leniently: zero while it has never been
    /// written.
    pub open spec fn get_contador(self) -> u32 {
        match self.contador {
            Some(n) => n,
            None => 0,
        }
    }

    /// The last accepted greeting of a user, or nothing for a user without
    /// one.
    pub open spec fn get_ultimo_saludo(self, usuario: Seq<u8>) -> Option<Seq<u8>> {
        if self.saludos.contains_key(usuario) {
            Some(self.saludos[usuario])
        } else {
            None
        }
    }

    /// This state after one more request to the store.
    pub open spec fn request(self, op: Op) -> State {
        State { journal: self.journal.push(op), ..self }
    }

    /// Assigning the admin. Refused once an admin exists; otherwise the admin
    /// is stored, the counter starts at zero, and the instance window is
    /// extended.
    pub open spec fn initialize(self, admin: Seq<u8>) -> (State, Result<(), Error>) {
        if self.admin is Some {
            (self, Err(Error::NoInicializado))
        } else {
            (
                State {
                    admin: Some(admin),
                    contador: Some(0),
                    saludos: self.saludos,
                    journal: self.journal.push(Op::SetAdmin(admin)).push(Op::SetContador(0)).push(
                        Op::ExtendInstance(TTL_WINDOW, TTL_WINDOW),
                    ),
                },
                Ok(()),
            )
        }
    }

    /// Recording a greeting. A refused name changes nothing. An accepted one
    /// raises the counter by one, becomes the user's last greeting, and
    /// extends first the window of that user's entry, then the instance
    /// window. The counter is taken to have room for one more: at its
    /// maximum, what it becomes is left open.
    pub open spec fn hello(self, usuario: Seq<u8>, nombre: Seq<u8>) -> (
        State,
        Result<Seq<char>, Error>,
    ) {
        match check_nombre(nombre) {
            Err(e) => (self, Err(e)),
            Ok(_) => {
                let siguiente = (self.get_contador() + 1) as u32;
                (
                    State {
                        admin: self.admin,
                        contador: Some(siguiente),
                        saludos: self.saludos.insert(usuario, nombre),
                        journal: self.journal.push(Op::SetContador(siguiente)).push(
                            Op::SetUltimoSaludo(usuario, nombre),
                        ).push(
                            Op::ExtendPersistent(
                                Key::UltimoSaludo(usuario),
                                TTL_WINDOW,
                                TTL_WINDOW,
                            ),
                        ).push(Op::ExtendInstance(TTL_WINDOW, TTL_WINDOW)),
                    },
                    Ok(greeting()),
                )
            },
        }
    }

    /// Resetting the counter. Refused while there is no admin, and to anyone
    /// but the admin; otherwise the counter returns to zero and the instance
    /// window is extended.
    pub open spec fn reset_contador(self, caller: Seq<u8>) -> (State, Result<(), Error>) {
        match self.admin {
            None => (self, Err(Error::NoInicializado)),
            Some(admin) => if caller != admin {
                (self, Err(Error::NoAutorizado))
            } else {
                (
                    State {
                        admin: self.admin,
                        contador: Some(0),
                        saludos: self.saludos,
                        journal: self.journal.push(Op::SetContador(0)).push(
                            Op::ExtendInstance(TTL_WINDOW, TTL_WINDOW),
                        ),
                    },
                    Ok(()),
                )
            },
        }
    }
}

/// One call of an operation of the contract, with its arguments as plain
/// values.
pub enum Call {
    /// `initialize`, with the identity to make admin.
    Initialize(Seq<u8>),
    /// `hello`, with the user and the name.
    Hello(Seq<u8>, Seq<u8>),
    /// `get_contador`.
    GetContador,
    /// `get_ultimo_saludo`, with the user asked about.
    GetUltimoSaludo(Seq<u8>),
    /// `reset_contador`, with the caller.
    ResetContador(Seq<u8>),
}

/// What a call answers.
pub enum Reply {
    /// The call succeeded and has nothing to report.
    Done,
    /// A greeting was accepted: the greeting token.
    Greeting(Seq<char>),
    /// The greeting counter.
    Contador(u32),
    /// A user's last greeting, if the user has one.
    UltimoSaludo(Option<Seq<u8>>),
    /// The call was refused.
    Failed(Error),
}

impl Call {
    /// Whether the call only reads.
    pub open spec fn is_read(self) -> bool {
        self is GetContador || self is GetUltimoSaludo
    }

    /// Whether the call is a greeting from the given user with a name that
    /// is accepted.
    pub open spec fn greets(self, usuario: Seq<u8>) -> bool {
        match self {
            Call::Hello(u, nombre) => u == usuario && check_nombre(nombre) is Ok,
            _ => false,
        }
    }
}

impl State {
    /// One call: the state it leaves and what it answers.
    pub open spec fn step(self, call: Call) -> (State, Reply) {
        match call {
            Call::Initialize(admin) => match self.initialize(admin) {
                (next, Ok(_)) => (next, Reply::Done),
                (next, Err(e)) => (next, Reply::Failed(e)),
            },
            Call::Hello(usuario, nombre) => match self.hello(usuario, nombre) {
                (next, Ok(token)) => (next, Reply::Greeting(token)),
                (next, Err(e)) => (next, Reply::Failed(e)),
            },
            Call::GetContador => (self, Reply::Contador(self.get_contador())),
            Call::GetUltimoSaludo(usuario) => (
                self,
                Reply::UltimoSaludo(self.get_ultimo_saludo(usuario)),
            ),
            Call::ResetContador(caller) => match self.reset_contador(caller) {
                (next, Ok(_)) => (next, Reply::Done),
                (next, Err(e)) => (next, Reply::Failed(e)),
            },
        }
    }

    /// The state after a run of calls, made one after another.
    pub open spec fn run(self, calls: Seq<Call>) -> State
        decreases calls.len(),
    {
        if calls.len() == 0 {
            self
        } else {
            self.run(calls.drop_last()).step(calls.last()).0
        }
    }

    /// Whether a call made in this state sets the counter to zero: an
    /// `initialize` or a `reset_contador` that succeeds.
    pub open spec fn zeroes(self, call: Call) -> bool {
        match call {
            Call::Initialize(_) => !self.initialized(),
            Call::ResetContador(caller) => self.admin == Some(caller),
            _ => false,
        }
    }

    /// The number of greetings that a run accepted after it last set the
    /// counter to zero. Where the run never did, they are counted on from
    /// what the counter read when the run began.
    pub open spec fn greetings_counted(self, calls: Seq<Call>) -> nat
        decreases calls.len(),
    {
        if calls.len() == 0 {
            self.get_contador() as nat
        } else if self.run(calls.drop_last()).zeroes(calls.last()) {
            0
        } else if calls.last() matches Call::Hello(_, nombre) && check_nombre(nombre) is Ok {
            self.greetings_counted(calls.drop_last()) + 1
        } else {
            self.greetings_counted(calls.drop_last())
        }
    }

    /// The requests that a call adds to the journal, oldest first.
    pub open spec fn requested(self, call: Call) -> Seq<Op> {
        self.step(call).0.journal.skip(self.journal.len() as int)
    }

    /// What the store holds once it has carried out one request: a write
    /// puts its value under its key, an extension changes no entry. The
    /// journal is not part of the store and stays as it is.
    pub open spec fn carry_out(self, op: Op) -> State {
        match op {
            Op::SetAdmin(admin) => State { admin: Some(admin), ..self },
            Op::SetContador(n) => State { contador: Some(n), ..self },
            Op::SetUltimoSaludo(usuario, texto) => State {
                saludos: self.saludos.insert(usuario, texto),
                ..self
            },
            Op::ExtendInstance(_, _) => self,
            Op::ExtendPersistent(_, _, _) => self,
        }
    }

    /// What the store holds once it has carried out a list of requests, one
    /// after another.
    pub open spec fn carry_out_all(self, ops: Seq<Op>) -> State
        decreases ops.len(),
    {
        if ops.len() == 0 {
            self
        } else {
            self.carry_out_all(ops.drop_last()).carry_out(ops.last())
        }
    }

    /// Whether two states hold the same entries, whatever their journals.
    pub open spec fn same_entries(self, other: State) -> bool {
        &&& self.admin == other.admin
        &&& self.contador == other.contador
        &&& self.saludos == other.saludos
    }

    /// Whether every stored greeting is a name that `hello` accepts, and the
    /// counter exists wherever the admin does.
    pub open spec fn consistent(self) -> bool {
        &&& forall|usuario: Seq<u8>| #[trigger]
            self.saludos.contains_key(usuario) ==> check_nombre(self.saludos[usuario]) is Ok
        &&& self.admin is Some ==> self.contador is Some
    }
}

} // verus!
