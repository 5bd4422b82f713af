use hello_world::{Address, DataKey, Error, HelloContract, Ledger, Operation, TTL_WINDOW};

fn address(id: &str) -> Address {
    Address::new(id.as_bytes().to_vec())
}

fn text(s: &str) -> Vec<u8> {
    s.as_bytes().to_vec()
}

#[test]
fn a_new_ledger_holds_nothing() {
    let ledger = Ledger::new();
    assert_eq!(ledger.admin(), None);
    assert_eq!(ledger.contador(), None);
    assert_eq!(ledger.ultimo_saludo(&address("U")), None);
    assert!(!ledger.has(&DataKey::Admin));
    assert!(!ledger.has(&DataKey::ContadorSaludos));
    assert!(!ledger.has(&DataKey::UltimoSaludo(address("U"))));
    assert!(ledger.journal().is_empty());
}

#[test]
fn has_tells_which_entries_exist() {
    let mut ledger = Ledger::new();
    assert_eq!(HelloContract::hello(&mut ledger, address("U"), text("Ana")), Ok("Hola"));
    assert!(!ledger.has(&DataKey::Admin));
    assert!(ledger.has(&DataKey::ContadorSaludos));
    assert!(ledger.has(&DataKey::UltimoSaludo(address("U"))));
    assert!(!ledger.has(&DataKey::UltimoSaludo(address("V"))));

    assert_eq!(HelloContract::initialize(&mut ledger, address("A")), Ok(()));
    assert!(ledger.has(&DataKey::Admin));
}

#[test]
fn the_window_is_17280_ledgers() {
    assert_eq!(TTL_WINDOW, 17280);
}

#[test]
fn initialize_journals_three_requests() {
    let mut ledger = Ledger::new();
    assert_eq!(HelloContract::initialize(&mut ledger, address("A")), Ok(()));
    assert_eq!(
        ledger.journal(),
        &vec![
            Operation::SetAdmin(address("A")),
            Operation::SetContador(0),
            Operation::ExtendInstance { threshold: 17280, extend_to: 17280 },
        ]
    );
}

#[test]
fn hello_journals_its_writes_then_both_extensions() {
    let mut ledger = Ledger::restore(Some(address("A")), Some(41));
    assert_eq!(HelloContract::hello(&mut ledger, address("U"), text("Tiburón")), Ok("Hola"));
    assert_eq!(
        ledger.journal(),
        &vec![
            Operation::SetContador(42),
            Operation::SetUltimoSaludo(address("U"), text("Tiburón")),
            Operation::ExtendPersistent {
                key: DataKey::UltimoSaludo(address("U")),
                threshold: 17280,
                extend_to: 17280,
            },
            Operation::ExtendInstance { threshold: 17280, extend_to: 17280 },
        ]
    );
}

#[test]
fn reset_journals_the_write_and_the_extension() {
    let mut ledger = Ledger::restore(Some(address("A")), Some(9));
    assert_eq!(HelloContract::reset_contador(&mut ledger, address("A")), Ok(()));
    assert_eq!(
        ledger.journal(),
        &vec![
            Operation::SetContador(0),
            Operation::ExtendInstance { threshold: 17280, extend_to: 17280 },
        ]
    );
}

#[test]
fn a_refused_call_journals_nothing() {
    let mut ledger = Ledger::restore(Some(address("A")), Some(9));
    assert_eq!(
        HelloContract::initialize(&mut ledger, address("B")),
        Err(Error::NoInicializado)
    );
    assert_eq!(
        HelloContract::hello(&mut ledger, address("U"), Vec::new()),
        Err(Error::NombreVacio)
    );
    assert_eq!(
        HelloContract::hello(&mut ledger, address("U"), vec![0u8; 33]),
        Err(Error::NombreMuyLargo)
    );
    assert_eq!(
        HelloContract::reset_contador(&mut ledger, address("B")),
        Err(Error::NoAutorizado)
    );
    assert!(ledger.journal().is_empty());
    assert_eq!(ledger.admin(), Some(&address("A")));
    assert_eq!(ledger.contador(), Some(9));
}

#[test]
fn restore_holds_what_it_is_given() {
    let ledger = Ledger::restore(Some(address("A")), None);
    assert_eq!(ledger.admin(), Some(&address("A")));
    assert_eq!(ledger.contador(), None);
    assert_eq!(HelloContract::get_contador(&ledger), 0);
    assert!(ledger.journal().is_empty());

    let ledger = Ledger::restore(None, Some(7));
    assert_eq!(ledger.admin(), None);
    assert_eq!(HelloContract::get_contador(&ledger), 7);
    assert_eq!(ledger.ultimo_saludo(&address("U")), None);
}

#[test]
fn load_saludo_stores_without_journalling() {
    let mut ledger = Ledger::new();
    ledger.load_saludo(address("U"), text("uno"));
    ledger.load_saludo(address("V"), text("otro"));
    ledger.load_saludo(address("U"), text("dos"));
    assert_eq!(ledger.ultimo_saludo(&address("U")), Some(&text("dos")));
    assert_eq!(ledger.ultimo_saludo(&address("V")), Some(&text("otro")));
    assert_eq!(ledger.ultimo_saludo(&address("W")), None);
    assert_eq!(HelloContract::get_ultimo_saludo(&ledger, address("U")), Some(text("dos")));
    assert!(ledger.journal().is_empty());
}

#[test]
fn take_journal_hands_the_requests_over_and_keeps_the_entries() {
    let mut ledger = Ledger::new();
    assert_eq!(HelloContract::initialize(&mut ledger, address("A")), Ok(()));
    assert_eq!(HelloContract::hello(&mut ledger, address("U"), text("Ana")), Ok("Hola"));

    let taken = ledger.take_journal();
    assert_eq!(taken.len(), 7);
    assert_eq!(taken[0], Operation::SetAdmin(address("A")));
    assert_eq!(taken[3], Operation::SetContador(1));
    assert!(ledger.journal().is_empty());
    assert!(ledger.take_journal().is_empty());

    assert_eq!(ledger.admin(), Some(&address("A")));
    assert_eq!(HelloContract::get_contador(&ledger), 1);
    assert_eq!(HelloContract::get_ultimo_saludo(&ledger, address("U")), Some(text("Ana")));

    assert_eq!(HelloContract::reset_contador(&mut ledger, address("A")), Ok(()));
    assert_eq!(ledger.journal().len(), 2);
}

#[test]
fn identities_are_equal_exactly_when_their_bytes_are() {
    let a = Address::new(vec![1, 2, 3]);
    assert_eq!(a.as_bytes(), &vec![1u8, 2, 3]);
    assert_eq!(a.clone(), a);
    assert_eq!(a, Address::new(vec![1, 2, 3]));
    assert_ne!(a, Address::new(vec![1, 2]));
    assert_ne!(a, Address::new(vec![1, 2, 4]));
    assert_ne!(a, Address::new(Vec::new()));
    assert_eq!(Address::new(Vec::new()), Address::new(Vec::new()));
}

#[test]
fn keys_are_cloned_whole() {
    let key = DataKey::UltimoSaludo(address("U"));
    assert_eq!(key.clone(), key);
    assert_eq!(DataKey::Admin.clone(), DataKey::Admin);
    assert_eq!(DataKey::ContadorSaludos.clone(), DataKey::ContadorSaludos);
    assert_ne!(key, DataKey::UltimoSaludo(address("V")));
    assert_ne!(DataKey::Admin, DataKey::ContadorSaludos);
}
