use secret_santa::data::{check_create, check_email, Currency, Participant, SecretSanta};
use secret_santa::email::{date_text, i64_text, Mailer};

fn participant(name: &str, email: &str, notes: &str) -> Participant {
    Participant {
        name: name.to_string(),
        email: email.to_string(),
        extra_details: notes.to_string(),
        id: None,
        gift_to: None,
    }
}

fn sample_game(names: &[&str]) -> SecretSanta {
    SecretSanta {
        name: "Office party".to_string(),
        admin_name: "Dana".to_string(),
        admin_email: "dana@example.com".to_string(),
        gift_date: 1_735_084_800,
        max_price: Currency { amount: 2500, currency: "GBP".to_string() },
        msg_notes: "Be kind".to_string(),
        participants: names.iter().map(|n| {
            participant(n, &format!("{}@example.com", n.to_lowercase()), "likes tea")
        }).collect(),
    }
}

#[test]
fn decimal_rendering_exact() {
    assert_eq!(i64_text(0), "0");
    assert_eq!(i64_text(9), "9");
    assert_eq!(i64_text(10), "10");
    assert_eq!(i64_text(1234567890), "1234567890");
    assert_eq!(i64_text(-1), "-1");
    assert_eq!(i64_text(-987), "-987");
    assert_eq!(i64_text(i64::MAX), "9223372036854775807");
    assert_eq!(i64_text(i64::MIN), "-9223372036854775808");
}

#[test]
fn email_syntax_check() {
    assert!(check_email(&"a@b".to_string()));
    assert!(check_email(&"dana@example.com".to_string()));
    assert!(!check_email(&"plainaddress".to_string()));
    assert!(!check_email(&"@nobody".to_string()));
    assert!(!check_email(&"nobody@".to_string()));
    assert!(!check_email(&"".to_string()));
}

#[test]
fn create_validation() {
    assert!(check_create(&sample_game(&["Ana", "Bo"])));
    assert!(!check_create(&sample_game(&["Ana"])));
    assert!(!check_create(&sample_game(&[])));
    let mut negative = sample_game(&["Ana", "Bo"]);
    negative.max_price.amount = -1;
    assert!(!check_create(&negative));
    let mut bad_admin = sample_game(&["Ana", "Bo"]);
    bad_admin.admin_email = "not-an-address".to_string();
    assert!(!check_create(&bad_admin));
    let mut bad_participant = sample_game(&["Ana", "Bo"]);
    bad_participant.participants[1].email = "broken".to_string();
    assert!(!check_create(&bad_participant));
    let mut bad_date = sample_game(&["Ana", "Bo"]);
    bad_date.gift_date = -5;
    assert!(!check_create(&bad_date));
}

#[test]
fn date_rendering_matches_calendar() {
    let ts: i64 = 1_735_084_800;
    let expected = chrono::DateTime::<chrono::Utc>::from_timestamp(ts, 0)
        .unwrap()
        .date_naive()
        .to_string();
    assert_eq!(date_text(ts), expected);
    assert_eq!(date_text(0), "1970-01-01");
}

#[test]
fn admin_message_contents() {
    let mailer = Mailer::new("user".to_string(), "pass".to_string(), "campaign".to_string());
    let req = mailer.send_admin_email(41, "dana@example.com");
    assert_eq!(req.messages.len(), 1);
    let m = &req.messages[0];
    assert_eq!(m.subject, "Welcome to this Secret Santa");
    assert_eq!(m.from.email, "secretsanta@rdelfin.com");
    assert_eq!(m.to.len(), 1);
    assert_eq!(m.to[0].email, "dana@example.com");
    assert_eq!(m.custom_id, "campaign");
    assert!(m.text_part.contains("your game ID is 41."));
    assert!(m.html_part.contains("your game ID is <b>41<b>"));
}

#[test]
fn begin_message_contents() {
    let mailer = Mailer::new("user".to_string(), "pass".to_string(), "campaign".to_string());
    let mut gifter = participant("Ana", "ana@example.com", "likes tea");
    let mut giftee = participant("Bo", "bo@example.com", "collects stamps");
    gifter.id = Some(1);
    giftee.id = Some(2);
    let price = Currency { amount: 2500, currency: "GBP".to_string() };
    let ts: i64 = 1_735_084_800;
    let req = mailer.send_begin_email(&gifter, &giftee, ts, &price, "Be kind", "Dana");
    assert_eq!(req.messages.len(), 1);
    let m = &req.messages[0];
    assert_eq!(m.to[0].email, "ana@example.com");
    assert_eq!(m.subject, "Bienvenido/a a este Secret Santa!");
    assert!(m.text_part.starts_with("Bienvenido Ana a este Secret Santa creado por Dana!"));
    assert!(m.text_part.contains("regalo a Bo (email: bo@example.com)"));
    assert!(m.text_part.contains("collects stamps"));
    assert!(m.text_part.contains("Be kind"));
    let date = chrono::DateTime::<chrono::Utc>::from_timestamp(ts, 0)
        .unwrap()
        .date_naive()
        .to_string();
    assert!(m.text_part.contains(&format!("como {}.", date)));
    assert!(m.html_part.contains("<p>Bienvenido Ana a este Secret Santa creado por Dana!"));
    assert!(m.html_part.contains("<p>collects stamps</p>"));
}
