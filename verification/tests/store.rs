use secret_santa::data::{Currency, Error, Participant, SecretSanta};
use secret_santa::store::Store;

fn roster_member(name: &str) -> Participant {
    Participant {
        name: name.to_string(),
        email: format!("{}@example.com", name.to_lowercase()),
        extra_details: String::new(),
        id: None,
        gift_to: None,
    }
}

fn plain_game(names: &[&str]) -> SecretSanta {
    SecretSanta {
        name: "Game night".to_string(),
        admin_name: "Olu".to_string(),
        admin_email: "olu@example.com".to_string(),
        gift_date: 1_700_000_000,
        max_price: Currency { amount: 100, currency: "EUR".to_string() },
        msg_notes: String::new(),
        participants: names.iter().map(|n| roster_member(n)).collect(),
    }
}

#[test]
fn missing_game_reads_are_not_found() {
    let store = Store::new();
    assert!(matches!(store.get_game(1), Err(Error::NotFound)));
    assert!(matches!(store.get_game(0), Err(Error::NotFound)));
    assert!(matches!(store.get_game(-3), Err(Error::NotFound)));
    assert_eq!(store.game_begun(1), Err(Error::NotFound));
    assert!(matches!(store.get_participant_ids(1), Err(Error::NotFound)));
}

#[test]
fn created_games_get_sequential_identifiers() {
    let mut store = Store::new();
    let first = store.create_game(&plain_game(&["Ana", "Bo"])).unwrap();
    let second = store.create_game(&plain_game(&["Cy", "Di", "Ed"])).unwrap();
    assert_eq!(first, 1);
    assert_eq!(second, 2);
    assert_eq!(store.get_participant_ids(1).unwrap(), vec![1, 2]);
    assert_eq!(store.get_participant_ids(2).unwrap(), vec![3, 4, 5]);
}

#[test]
fn assign_and_begin_is_gated_and_atomic() {
    let mut store = Store::new();
    let gid = store.create_game(&plain_game(&["Ana", "Bo"])).unwrap();
    let mapping = vec![(1i64, 2i64), (2, 1)];

    assert!(matches!(store.assign_and_begin(9, &mapping), Err(Error::NotFound)));

    store.inject_write_faults(1);
    assert!(matches!(store.assign_and_begin(gid, &mapping), Err(Error::StorageFailure)));
    assert_eq!(store.game_begun(gid), Ok(false));
    for p in &store.get_game(gid).unwrap().participants {
        assert_eq!(p.gift_to, None);
    }

    assert!(store.assign_and_begin(gid, &mapping).is_ok());
    assert_eq!(store.game_begun(gid), Ok(true));
    let game = store.get_game(gid).unwrap();
    assert_eq!(game.participants[0].gift_to, Some(2));
    assert_eq!(game.participants[1].gift_to, Some(1));

    assert!(matches!(store.assign_and_begin(gid, &mapping), Err(Error::AlreadyBegun)));
}
