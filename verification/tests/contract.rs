use hello_world::{Address, Error, HelloContract, Ledger};

fn address(id: &str) -> Address {
    Address::new(id.as_bytes().to_vec())
}

fn text(s: &str) -> Vec<u8> {
    s.as_bytes().to_vec()
}

/// Unwraps the answer of a call the way a caller that cannot handle a
/// refusal does: by stopping with the error's code.
fn invoke<T>(result: Result<T, Error>) -> T {
    match result {
        Ok(value) => value,
        Err(e) => panic!("HostError: Error(Contract, #{})", e.code()),
    }
}

#[test]
fn test_initialize() {
    let mut ledger = Ledger::new();

    let admin = address("GADMIN");
    invoke(HelloContract::initialize(&mut ledger, admin));

    assert_eq!(HelloContract::get_contador(&ledger), 0);
}

#[test]
#[should_panic(expected = "Error(Contract, #1)")]
fn test_nombre_vacio() {
    let mut ledger = Ledger::new();

    let admin = address("GADMIN");
    invoke(HelloContract::initialize(&mut ledger, admin));

    let usuario = address("GUSUARIO");
    invoke(HelloContract::hello(&mut ledger, usuario, text("")));
}

#[test]
#[should_panic(expected = "Error(Contract, #4)")]
fn test_no_reinicializar() {
    let mut ledger = Ledger::new();

    let admin = address("GADMIN");
    invoke(HelloContract::initialize(&mut ledger, admin.clone()));

    invoke(HelloContract::initialize(&mut ledger, admin));
}

#[test]
fn test_hello_exitoso() {
    let mut ledger = Ledger::new();

    let admin = address("GADMIN");
    invoke(HelloContract::initialize(&mut ledger, admin));

    let usuario = address("GUSUARIO");
    let nombre = text("Tiburón");

    invoke(HelloContract::hello(&mut ledger, usuario.clone(), nombre.clone()));
    assert_eq!(HelloContract::get_contador(&ledger), 1);
    assert_eq!(
        HelloContract::get_ultimo_saludo(&ledger, usuario.clone()),
        Some(nombre.clone())
    );

    invoke(HelloContract::hello(&mut ledger, usuario, nombre));
    assert_eq!(HelloContract::get_contador(&ledger), 2);
}

#[test]
fn test_reset_solo_admin() {
    let mut ledger = Ledger::new();

    let admin = address("GADMIN");
    invoke(HelloContract::initialize(&mut ledger, admin.clone()));

    let usuario = address("GUSUARIO");
    let nombre = text("Tiburón");

    invoke(HelloContract::hello(&mut ledger, usuario, nombre));
    assert_eq!(HelloContract::get_contador(&ledger), 1);

    invoke(HelloContract::reset_contador(&mut ledger, admin));
    assert_eq!(HelloContract::get_contador(&ledger), 0);
}

#[test]
#[should_panic(expected = "Error(Contract, #3)")]
fn test_reset_no_autorizado() {
    let mut ledger = Ledger::new();

    let admin = address("GADMIN");
    invoke(HelloContract::initialize(&mut ledger, admin));

    let usuario = address("GUSUARIO");
    invoke(HelloContract::reset_contador(&mut ledger, usuario));
}
