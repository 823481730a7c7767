use vstd::prelude::*;

verus! {

/// The outcomes an operation of this library can fail with.
///
/// `InvalidInput`: a malformed request (too few participants, a negative
/// spending limit, or a malformed contact address); nothing is persisted.
/// `NotFound`: the referenced game does not exist in the store.
/// `AlreadyBegun`: the game has already been through its begin transition.
/// `StorageFailure`: the store could not durably commit; no partial state
/// is left behind.
/// `NotificationFailure`: a message could not be delivered; this never
/// unwinds a committed transition.
#[derive(Clone, Copy, Debug, PartialEq, Eq, Structural)]
pub enum Error {
    InvalidInput,
    NotFound,
    AlreadyBegun,
    StorageFailure,
    NotificationFailure,
}

/// One person in a game. `id` is assigned by the store on creation and is
/// `None` before persistence; `gift_to` is the identifier of the participant
/// this one must gift, unset until the game's begin transition.
#[derive(Debug, Clone)]
pub struct Participant {
    pub name: String,
    pub email: String,
    pub extra_details: String,
    pub id: Option<i64>,
    pub gift_to: Option<i64>,
}

/// A spending limit: an amount in minor units (for example cents) together
/// with a currency code.
#[derive(Debug, Clone)]
pub struct Currency {
    pub amount: i64,
    pub currency: String,
}

/// One gift-exchange game: organizer fields, event parameters and the
/// participant roster. `gift_date` is a unix timestamp in seconds.
#[derive(Debug, Clone)]
pub struct SecretSanta {
    pub name: String,
    pub admin_name: String,
    pub admin_email: String,
    pub gift_date: i64,
    pub max_price: Currency,
    pub msg_notes: String,
    pub participants: Vec<Participant>,
}

#[derive(Debug, Clone)]
pub struct CreateRequest {
    pub secret_santa: SecretSanta,
}

#[derive(Debug, Clone)]
pub struct CreateResponse {
    pub game_id: i64,
}

#[derive(Debug, Clone)]
pub struct BeginRequest {
    pub game_id: i64,
}

#[derive(Debug, Clone)]
pub struct BeginResponse {
    pub ok: bool,
}

/// The last unix second of the year 9999: event dates beyond it (or
/// before the epoch) are out of range for the calendar rendering and are
/// rejected at creation.
pub const MAX_GIFT_DATE: i64 = 253402300799;

/// A contact address is syntactically acceptable when some `'@'` has at
/// least one character on each side of it.
pub open spec fn valid_email(s: Seq<char>) -> bool {
    exists|i: int| 0 < i < s.len() - 1 && s[i] == '@'
}

/// Checks the address syntax: an `'@'` strictly inside the string.
pub fn check_email(s: &String) -> (r: bool)
    ensures
        r == valid_email(s@),
{
    let char_len = s.as_str().unicode_len();
    let mut i: usize = 0;
    let mut found: bool = false;
    while i < char_len
        invariant
            0 <= i <= char_len,
            char_len == s@.len(),
            found == exists|j: int| 0 < j < i && j < s@.len() - 1 && s@[j] == '@',
        decreases char_len - i,
    {
        if i > 0 && i + 1 < char_len && s.as_str().get_char(i) == '@' {
            found = true;
        }
        i = i + 1;
    }
    found
}

/// A creation request is acceptable when the roster has at least two
/// participants, the spending limit is non-negative, the event date is
/// in calendar range, and the organizer's and every participant's
/// contact address is syntactically acceptable.
pub open spec fn valid_create(g: SecretSanta) -> bool {
    &&& g.participants@.len() >= 2
    &&& g.max_price.amount >= 0
    &&& 0 <= g.gift_date <= MAX_GIFT_DATE
    &&& valid_email(g.admin_email@)
    &&& forall|i: int|
        0 <= i < g.participants@.len() ==> valid_email(g.participants@[i].email@)
}

/// Validates a creation request, exactly as `valid_create` states.
pub fn check_create(g: &SecretSanta) -> (r: bool)
    ensures
        r == valid_create(*g),
{
    if g.participants.len() < 2 {
        return false;
    }
    if g.max_price.amount < 0 {
        return false;
    }
    if g.gift_date < 0 || g.gift_date > MAX_GIFT_DATE {
        return false;
    }
    if !check_email(&g.admin_email) {
        return false;
    }
    let n = g.participants.len();
    let mut i: usize = 0;
    while i < n
        invariant
            0 <= i <= n,
            n == g.participants@.len(),
            forall|j: int| 0 <= j < i ==> valid_email(g.participants@[j].email@),
        decreases n - i,
    {
        if !check_email(&g.participants[i].email) {
            return false;
        }
        i = i + 1;
    }
    true
}

} // verus!
