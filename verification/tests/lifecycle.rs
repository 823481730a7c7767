use std::collections::HashMap;

use secret_santa::data::{
    BeginRequest, Currency, CreateRequest, Error, Participant, SecretSanta,
};
use secret_santa::email::Mailer;
use secret_santa::lifecycle::{begin, create};
use secret_santa::store::Store;

fn participant(name: &str, email: &str, notes: &str) -> Participant {
    Participant {
        name: name.to_string(),
        email: email.to_string(),
        extra_details: notes.to_string(),
        id: None,
        gift_to: None,
    }
}

fn game_with(names: &[&str]) -> SecretSanta {
    SecretSanta {
        name: "Navidad".to_string(),
        admin_name: "Dana".to_string(),
        admin_email: "dana@example.com".to_string(),
        gift_date: 1_735_084_800,
        max_price: Currency { amount: 2000, currency: "USD".to_string() },
        msg_notes: "Wrap it well".to_string(),
        participants: names.iter().map(|n| {
            participant(n, &format!("{}@example.com", n.to_lowercase()), "no peanuts")
        }).collect(),
    }
}

fn mailer() -> Mailer {
    Mailer::new("user".to_string(), "pass".to_string(), "campaign".to_string())
}

fn assignments(store: &Store, game_id: i64) -> HashMap<i64, i64> {
    let game = store.get_game(game_id).unwrap();
    let mut m = HashMap::new();
    for p in &game.participants {
        if let Some(to) = p.gift_to {
            m.insert(p.id.unwrap(), to);
        }
    }
    m
}

#[test]
fn create_with_tiny_roster_is_rejected() {
    let mut store = Store::new();
    let m = mailer();
    for names in [&[][..], &["Solo"][..]] {
        let req = CreateRequest { secret_santa: game_with(names) };
        let r = create(&mut store, &m, &req);
        assert!(matches!(r, Err(Error::InvalidInput)));
        assert_eq!(store.games.len(), 0, "an invalid request must persist nothing");
    }
}

#[test]
fn create_then_get_game_is_unstarted() {
    let mut store = Store::new();
    let m = mailer();
    let req = CreateRequest { secret_santa: game_with(&["Ana", "Bo", "Cy"]) };
    let (resp, welcome) = create(&mut store, &m, &req).unwrap();
    assert_eq!(resp.game_id, 1);
    let game = store.get_game(1).unwrap();
    assert_eq!(game.name, "Navidad");
    assert_eq!(game.admin_email, "dana@example.com");
    assert_eq!(game.participants.len(), 3);
    for (i, p) in game.participants.iter().enumerate() {
        assert_eq!(p.id, Some(1 + i as i64));
        assert_eq!(p.gift_to, None, "nobody is assigned before the begin transition");
    }
    assert_eq!(store.game_begun(1), Ok(false));
    assert_eq!(welcome.messages[0].to[0].email, "dana@example.com");
    assert!(welcome.messages[0].text_part.contains("your game ID is 1."));
}

#[test]
fn create_under_storage_fault_persists_nothing() {
    let mut store = Store::new();
    let m = mailer();
    store.inject_write_faults(1);
    let req = CreateRequest { secret_santa: game_with(&["Ana", "Bo"]) };
    let r = create(&mut store, &m, &req);
    assert!(matches!(r, Err(Error::StorageFailure)));
    assert_eq!(store.games.len(), 0);
    let again = create(&mut store, &m, &req);
    assert!(again.is_ok(), "the fault is consumed; the next attempt commits");
}

#[test]
fn begin_on_missing_game_is_not_found() {
    let mut store = Store::new();
    let m = mailer();
    let r = begin(&mut store, &m, &BeginRequest { game_id: 7 });
    assert!(matches!(r, Err(Error::NotFound)));
}

#[test]
fn begin_three_yields_full_cycle_and_begin_twice_is_rejected() {
    let mut store = Store::new();
    let m = mailer();
    let req = CreateRequest { secret_santa: game_with(&["Ana", "Bo", "Cy"]) };
    let (resp, _) = create(&mut store, &m, &req).unwrap();
    let (done, emails) = begin(&mut store, &m, &BeginRequest { game_id: resp.game_id }).unwrap();
    assert!(done.ok);
    assert_eq!(emails.len(), 3);
    assert_eq!(store.game_begun(resp.game_id), Ok(true));

    let first = assignments(&store, resp.game_id);
    assert_eq!(first.len(), 3);
    for (gifter, giftee) in &first {
        assert_ne!(gifter, giftee);
    }
    let start = 1i64;
    let mut current = start;
    let mut steps = 0usize;
    loop {
        current = first[&current];
        steps += 1;
        if current == start {
            break;
        }
        assert!(steps <= 3, "assignment walk did not close");
    }
    assert_eq!(steps, 3, "the three assignments must form one 3-cycle");

    let second = begin(&mut store, &m, &BeginRequest { game_id: resp.game_id });
    assert!(matches!(second, Err(Error::AlreadyBegun)));
    assert_eq!(
        assignments(&store, resp.game_id),
        first,
        "a rejected second begin must not reshuffle"
    );
    assert_eq!(store.game_begun(resp.game_id), Ok(true));
}

#[test]
fn begin_two_yields_mutual_swap() {
    for _ in 0..16 {
        let mut store = Store::new();
        let m = mailer();
        let req = CreateRequest { secret_santa: game_with(&["Ana", "Bo"]) };
        let (resp, _) = create(&mut store, &m, &req).unwrap();
        begin(&mut store, &m, &BeginRequest { game_id: resp.game_id }).unwrap();
        let pairs = assignments(&store, resp.game_id);
        assert_eq!(pairs[&1], 2);
        assert_eq!(pairs[&2], 1);
    }
}

#[test]
fn storage_fault_during_begin_leaves_game_unstarted() {
    let mut store = Store::new();
    let m = mailer();
    let req = CreateRequest { secret_santa: game_with(&["Ana", "Bo", "Cy"]) };
    let (resp, _) = create(&mut store, &m, &req).unwrap();
    store.inject_write_faults(1);
    let r = begin(&mut store, &m, &BeginRequest { game_id: resp.game_id });
    assert!(matches!(r, Err(Error::StorageFailure)));
    assert_eq!(store.game_begun(resp.game_id), Ok(false));
    let game = store.get_game(resp.game_id).unwrap();
    for p in &game.participants {
        assert_eq!(p.gift_to, None, "a failed commit must leave no partial assignment");
    }
    let retry = begin(&mut store, &m, &BeginRequest { game_id: resp.game_id });
    assert!(retry.is_ok(), "the fault is consumed; the next attempt commits");
}

#[test]
fn begin_notifies_every_gifter_of_their_recipient() {
    let mut store = Store::new();
    let m = mailer();
    let req = CreateRequest { secret_santa: game_with(&["Ana", "Bo"]) };
    let (resp, _) = create(&mut store, &m, &req).unwrap();
    let (_, emails) = begin(&mut store, &m, &BeginRequest { game_id: resp.game_id }).unwrap();
    assert_eq!(emails.len(), 2);
    let pairs = assignments(&store, resp.game_id);
    let game = store.get_game(resp.game_id).unwrap();
    let by_id: HashMap<i64, &Participant> =
        game.participants.iter().map(|p| (p.id.unwrap(), p)).collect();
    for req in &emails {
        assert_eq!(req.messages.len(), 1);
        let msg = &req.messages[0];
        let gifter = game
            .participants
            .iter()
            .find(|p| p.email == msg.to[0].email)
            .expect("each message goes to a participant");
        let giftee = by_id[&pairs[&gifter.id.unwrap()]];
        assert!(msg.text_part.contains(&format!(
            "regalo a {} (email: {})",
            giftee.name, giftee.email
        )));
    }
}
