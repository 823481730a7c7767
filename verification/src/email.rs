use vstd::prelude::*;
use vstd::string::StringExecFns;
use crate::data::{Currency, Participant, MAX_GIFT_DATE};

verus! {

/// The decimal digit character for `d` (0 through 9).
pub open spec fn digit_char(d: nat) -> char {
    ((48 + d) as u8) as char
}

/// The decimal digits of a non-negative number, most significant first.
pub open spec fn dec_digits(n: nat) -> Seq<char>
    decreases n,
{
    if n < 10 {
        seq![digit_char(n)]
    } else {
        dec_digits(n / 10).push(digit_char(n % 10))
    }
}

/// The decimal rendering of an integer, with a leading minus sign where
/// it is negative.
pub open spec fn dec_str(v: int) -> Seq<char> {
    if v < 0 {
        seq!['-'] + dec_digits((-v) as nat)
    } else {
        dec_digits(v as nat)
    }
}

/// Relies on std's `String::push`: it appends the given character to
/// the end of the string.
#[verifier::external_body]
fn push_char(s: &mut String, c: char)
    ensures
        final(s)@ == old(s)@ + seq![c],
{
    s.push(c);
}

fn push_u64_digits(n: u64, out: &mut String)
    ensures
        final(out)@ == old(out)@ + dec_digits(n as nat),
    decreases n,
{
    if n < 10 {
        let c = ((48 + n as u8) as char);
        push_char(out, c);
        proof {
            assert(c == digit_char(n as nat));
            assert(out@ =~= old(out)@ + dec_digits(n as nat));
        }
    } else {
        push_u64_digits(n / 10, out);
        let c = ((48 + (n % 10) as u8) as char);
        push_char(out, c);
        proof {
            assert(c == digit_char((n % 10) as nat));
            assert(out@ =~= old(out)@ + dec_digits(n as nat));
        }
    }
}

/// Renders an integer in decimal, exactly as `dec_str` states.
pub fn i64_text(v: i64) -> (s: String)
    ensures
        s@ == dec_str(v as int),
{
    let mut out = String::new();
    if v < 0 {
        push_char(&mut out, '-');
        let m: u64 = ((-(v + 1)) as u64) + 1;
        push_u64_digits(m, &mut out);
        proof {
            assert(m as nat == (-(v as int)) as nat);
            assert(out@ =~= dec_str(v as int));
        }
    } else {
        push_u64_digits(v as u64, &mut out);
        proof {
            assert(out@ =~= dec_str(v as int));
        }
    }
    out
}

/// The calendar date (year, month and day) that a unix timestamp falls
/// on: a function of the timestamp alone, computed by the calendar
/// library.
pub uninterp spec fn date_text_of(ts: int) -> Seq<char>;

/// Relies on chrono's `DateTime::from_timestamp` and the display of
/// `NaiveDate`: the calendar date of a unix timestamp, which depends on
/// the timestamp alone. Timestamps through the year 9999 are inside
/// chrono's representable range.
#[verifier::external_body]
pub fn date_text(ts: i64) -> (r: String)
    requires
        0 <= ts <= MAX_GIFT_DATE,
    ensures
        r@ == date_text_of(ts as int),
{
    let dt = chrono::DateTime::<chrono::Utc>::from_timestamp(ts, 0).unwrap();
    dt.date_naive().to_string()
}

/// One address line of a message: a display name and the address itself.
#[derive(Debug)]
pub struct EmailAddress {
    pub name: String,
    pub email: String,
}

/// One message: envelope addresses, a subject, a plain-text body and an
/// HTML body, and the delivery campaign identifier.
#[derive(Debug)]
pub struct Email {
    pub from: EmailAddress,
    pub to: Vec<EmailAddress>,
    pub subject: String,
    pub text_part: String,
    pub html_part: String,
    pub custom_id: String,
}

/// The batch a delivery call sends: a list of messages.
#[derive(Debug)]
pub struct SendRequest {
    pub messages: Vec<Email>,
}

/// Composes the messages the game sends. The credentials ride along for
/// the transport that will deliver the composed requests.
#[derive(Debug)]
pub struct Mailer {
    pub user: String,
    pub password: String,
    pub custom_id: String,
}

/// The plain-text body of the message that tells the organizer the new
/// game's identifier.
pub open spec fn welcome_text(game_id: int) -> Seq<char> {
    "Welcome to rdelfin's Secret Santa Service! This email is to let
                you know that your game ID is "@ + dec_str(game_id)
        + ". Please save this email since the
                ID is the only thing that will let you check details about your
                game in the future."@
}

/// The HTML body of the message that tells the organizer the new game's
/// identifier.
pub open spec fn welcome_html(game_id: int) -> Seq<char> {
    "<noscript><p>Welcome to rdelfin's Secret Santa Service! This email is to let
                you know that your game ID is <b>"@ + dec_str(game_id)
        + "<b>.</p> <p>Please save this email since the
                ID is the only thing that will let you check details about your
                game in the future.</p></noscript>"@
}

/// The plain-text body of the message that tells a gifter who they must
/// gift, with the recipient's notes, the event date and the organizer's
/// shared notes.
pub open spec fn begin_text(
    name: Seq<char>,
    admin: Seq<char>,
    giftee_name: Seq<char>,
    giftee_email: Seq<char>,
    giftee_notes: Seq<char>,
    admin_notes: Seq<char>,
    due: Seq<char>,
) -> Seq<char> {
    "Bienvenido "@ + name + " a este Secret Santa creado por "@ + admin
        + "! En este
                correo vas a encontrar toda la información para esta navidad y a quien
                le vas a dar un regalo, entonces presta atención y guardalo para
                referencia a futuro.

                Tú le vas a dar un regalo a "@ + giftee_name + " (email: "@ + giftee_email
        + "). La
                persona que creó este Secret Santa te dejó estas notas sobre la persona
                a la que le vas a dar un regalo:

                "@ + giftee_notes
        + "

                Ahora que ya sabes el secreto, siguen los detalles. "@ + admin
        + " puso la
                fecha para el intercambio como "@ + due + ". "@ + admin
        + " también les dejó este
                mensaje a todos los participantes:

                "@ + admin_notes
        + "

                Disfruten y ¡feliz navidad!"@
}

/// The HTML body of the message that tells a gifter who they must gift.
pub open spec fn begin_html(
    name: Seq<char>,
    admin: Seq<char>,
    giftee_name: Seq<char>,
    giftee_email: Seq<char>,
    giftee_notes: Seq<char>,
    admin_notes: Seq<char>,
    due: Seq<char>,
) -> Seq<char> {
    "<noscript>
                <p>Bienvenido "@ + name + " a este Secret Santa creado por "@ + admin
        + "! En este
                correo vas a encontrar toda la información para esta navidad y a quien
                le vas a dar un regalo, entonces presta atención y guardalo para
                referencia a futuro.</p>
                <p>Tú le vas a dar un regalo a "@ + giftee_name + " (email: "@ + giftee_email
        + "). La
                persona que creó este Secret Santa te dejó estas notas sobre la persona
                a la que le vas a dar un regalo:</p>
                <p>"@ + giftee_notes
        + "</p>
                <p>Ahora que ya sabes el secreto, siguen los detalles. "@ + admin
        + " puso la
                fecha para el intercambio como "@ + due + ". "@ + admin
        + " también les dejó este
                mensaje a todos los participantes:</p>
                <p>"@ + admin_notes
        + "</p>
                <p>Disfruten y ¡feliz navidad!</p>
                </noscript>"@
}

/// `m` is a single message from the service address to `to`, with this
/// subject, carrying the mailer's campaign identifier.
pub open spec fn addressed(m: Email, mailer: Mailer, to: Seq<char>, subject: Seq<char>) -> bool {
    &&& m.from.name@ == "Secret Santa"@
    &&& m.from.email@ == "secretsanta@rdelfin.com"@
    &&& m.to@.len() == 1
    &&& m.to@[0].name@ == to
    &&& m.to@[0].email@ == to
    &&& m.subject@ == subject
    &&& m.custom_id@ == mailer.custom_id@
}

impl Mailer {
    pub fn new(user: String, password: String, custom_id: String) -> (m: Mailer)
        ensures
            m.user == user,
            m.password == password,
            m.custom_id == custom_id,
    {
        Mailer { user, password, custom_id }
    }

    /// Wraps one message, addressed from the service to `to`, into a
    /// request for the transport.
    fn send_email(&self, to: &str, subject: &str, text: String, html: String) -> (req: SendRequest)
        ensures
            req.messages@.len() == 1,
            addressed(req.messages@[0], *self, to@, subject@),
            req.messages@[0].text_part == text,
            req.messages@[0].html_part == html,
    {
        let mut to_list: Vec<EmailAddress> = Vec::new();
        to_list.push(EmailAddress { name: String::from_str(to), email: String::from_str(to) });
        let message = Email {
            from: EmailAddress {
                name: String::from_str("Secret Santa"),
                email: String::from_str("secretsanta@rdelfin.com"),
            },
            to: to_list,
            subject: String::from_str(subject),
            text_part: text,
            html_part: html,
            custom_id: self.custom_id.clone(),
        };
        let mut messages: Vec<Email> = Vec::new();
        messages.push(message);
        SendRequest { messages }
    }

    /// Composes the message that hands the organizer the new game's
    /// identifier — their only handle to manage the game later.
    pub fn send_admin_email(&self, game_id: i64, admin_email: &str) -> (req: SendRequest)
        ensures
            req.messages@.len() == 1,
            addressed(req.messages@[0], *self, admin_email@, "Welcome to this Secret Santa"@),
            req.messages@[0].text_part@ == welcome_text(game_id as int),
            req.messages@[0].html_part@ == welcome_html(game_id as int),
    {
        let id_text = i64_text(game_id);
        let mut text = String::from_str(
            "Welcome to rdelfin's Secret Santa Service! This email is to let
                you know that your game ID is ",
        );
        text.append(id_text.as_str());
        text.append(
            ". Please save this email since the
                ID is the only thing that will let you check details about your
                game in the future.",
        );
        let mut html = String::from_str(
            "<noscript><p>Welcome to rdelfin's Secret Santa Service! This email is to let
                you know that your game ID is <b>",
        );
        html.append(id_text.as_str());
        html.append(
            "<b>.</p> <p>Please save this email since the
                ID is the only thing that will let you check details about your
                game in the future.</p></noscript>",
        );
        proof {
            assert(text@ =~= welcome_text(game_id as int));
            assert(html@ =~= welcome_html(game_id as int));
        }
        self.send_email(admin_email, "Welcome to this Secret Santa", text, html)
    }

    /// Composes the message that tells `gifter` they must gift `giftee`,
    /// with the recipient's notes, the event date and the organizer's
    /// shared notes. The spending limit rides along unused, as the
    /// message template never mentions it.
    pub fn send_begin_email(
        &self,
        gifter: &Participant,
        giftee: &Participant,
        gift_date: i64,
        _max_price: &Currency,
        game_notes: &str,
        admin_name: &str,
    ) -> (req: SendRequest)
        requires
            0 <= gift_date <= MAX_GIFT_DATE,
        ensures
            req.messages@.len() == 1,
            addressed(
                req.messages@[0],
                *self,
                gifter.email@,
                "Bienvenido/a a este Secret Santa!"@,
            ),
            req.messages@[0].text_part@ == begin_text(
                gifter.name@,
                admin_name@,
                giftee.name@,
                giftee.email@,
                giftee.extra_details@,
                game_notes@,
                date_text_of(gift_date as int),
            ),
            req.messages@[0].html_part@ == begin_html(
                gifter.name@,
                admin_name@,
                giftee.name@,
                giftee.email@,
                giftee.extra_details@,
                game_notes@,
                date_text_of(gift_date as int),
            ),
    {
        let due = date_text(gift_date);
        let mut text = String::from_str("Bienvenido ");
        text.append(gifter.name.as_str());
        text.append(" a este Secret Santa creado por ");
        text.append(admin_name);
        text.append(
            "! En este
                correo vas a encontrar toda la información para esta navidad y a quien
                le vas a dar un regalo, entonces presta atención y guardalo para
                referencia a futuro.

                Tú le vas a dar un regalo a ",
        );
        text.append(giftee.name.as_str());
        text.append(" (email: ");
        text.append(giftee.email.as_str());
        text.append(
            "). La
                persona que creó este Secret Santa te dejó estas notas sobre la persona
                a la que le vas a dar un regalo:

                ",
        );
        text.append(giftee.extra_details.as_str());
        text.append(
            "

                Ahora que ya sabes el secreto, siguen los detalles. ",
        );
        text.append(admin_name);
        text.append(
            " puso la
                fecha para el intercambio como ",
        );
        text.append(due.as_str());
        text.append(". ");
        text.append(admin_name);
        text.append(
            " también les dejó este
                mensaje a todos los participantes:

                ",
        );
        text.append(game_notes);
        text.append(
            "

                Disfruten y ¡feliz navidad!",
        );
        let mut html = String::from_str(
            "<noscript>
                <p>Bienvenido ",
        );
        html.append(gifter.name.as_str());
        html.append(" a este Secret Santa creado por ");
        html.append(admin_name);
        html.append(
            "! En este
                correo vas a encontrar toda la información para esta navidad y a quien
                le vas a dar un regalo, entonces presta atención y guardalo para
                referencia a futuro.</p>
                <p>Tú le vas a dar un regalo a ",
        );
        html.append(giftee.name.as_str());
        html.append(" (email: ");
        html.append(giftee.email.as_str());
        html.append(
            "). La
                persona que creó este Secret Santa te dejó estas notas sobre la persona
                a la que le vas a dar un regalo:</p>
                <p>",
        );
        html.append(giftee.extra_details.as_str());
        html.append(
            "</p>
                <p>Ahora que ya sabes el secreto, siguen los detalles. ",
        );
        html.append(admin_name);
        html.append(
            " puso la
                fecha para el intercambio como ",
        );
        html.append(due.as_str());
        html.append(". ");
        html.append(admin_name);
        html.append(
            " también les dejó este
                mensaje a todos los participantes:</p>
                <p>",
        );
        html.append(game_notes);
        html.append(
            "</p>
                <p>Disfruten y ¡feliz navidad!</p>
                </noscript>",
        );
        proof {
            assert(text@ =~= begin_text(
                gifter.name@,
                admin_name@,
                giftee.name@,
                giftee.email@,
                giftee.extra_details@,
                game_notes@,
                date_text_of(gift_date as int),
            ));
            assert(html@ =~= begin_html(
                gifter.name@,
                admin_name@,
                giftee.name@,
                giftee.email@,
                giftee.extra_details@,
                game_notes@,
                date_text_of(gift_date as int),
            ));
        }
        self.send_email(
            gifter.email.as_str(),
            "Bienvenido/a a este Secret Santa!",
            text,
            html,
        )
    }
}

} // verus!
