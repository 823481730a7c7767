use vstd::prelude::*;
use crate::data::{
    check_create, valid_create, BeginRequest, BeginResponse, CreateRequest, CreateResponse, Error,
    Participant,
};
use crate::email::{addressed, begin_html, begin_text, date_text_of, welcome_html, welcome_text, Mailer, SendRequest};
use crate::engine::{assign, derangement_over, gifters, recipients, rotation_result};
use crate::store::{persisted_as, pid_seq, same_game_meta, unpersisted_roster, updated_participant, Store};

verus! {

/// The first participant of `ps` carrying identifier `pid`, if any.
fn find_by_id<'a>(ps: &'a Vec<Participant>, pid: i64) -> (r: Option<&'a Participant>)
    ensures
        r is Some <==> exists|j: int| 0 <= j < ps@.len() && (#[trigger] ps@[j]).id == Some(pid),
        r matches Some(p) ==> exists|j: int|
            0 <= j < ps@.len() && (#[trigger] ps@[j]).id == Some(pid) && *p == ps@[j],
{
    let n = ps.len();
    let mut i: usize = 0;
    while i < n
        invariant
            0 <= i <= n,
            n == ps@.len(),
            forall|j: int| 0 <= j < i ==> (#[trigger] ps@[j]).id != Some(pid),
        decreases n - i,
    {
        match ps[i].id {
            Some(found) => {
                if found == pid {
                    return Some(&ps[i]);
                }
            },
            None => {},
        }
        i = i + 1;
    }
    None
}

/// `req` notifies the pair: it is the message telling the participant
/// carrying the pair's gifter identifier that they must gift the one
/// carrying its recipient identifier.
pub open spec fn pair_notified(
    pair: (i64, i64),
    req: SendRequest,
    mailer: Mailer,
    ps: Seq<Participant>,
    gift_date: i64,
    msg_notes: Seq<char>,
    admin_name: Seq<char>,
) -> bool {
    exists|gi: int, ri: int|
        {
            &&& 0 <= gi < ps.len()
            &&& 0 <= ri < ps.len()
            &&& (#[trigger] ps[gi]).id == Some(pair.0)
            &&& (#[trigger] ps[ri]).id == Some(pair.1)
            &&& begin_message_for(req, mailer, ps, gi, ri, gift_date, msg_notes, admin_name)
        }
}

/// The whole effect of a successful begin transition on one game, for
/// some list of pairs: the pairs are a derangement from the
/// rotate-after-shuffle construction, every participant's recipient is
/// the one the pairs give, and pair by pair a message tells the gifter
/// whom they must gift.
pub open spec fn begun_with_pairs(
    pairs: Seq<(i64, i64)>,
    ps_old: Seq<Participant>,
    ps_new: Seq<Participant>,
    emails: Seq<SendRequest>,
    mailer: Mailer,
    gift_date: i64,
    msg_notes: Seq<char>,
    admin_name: Seq<char>,
) -> bool {
    &&& derangement_over(pairs, pid_seq(ps_old))
    &&& rotation_result(pairs, pid_seq(ps_old))
    &&& forall|j: int|
        0 <= j < ps_old.len() ==> updated_participant(ps_old[j], #[trigger] ps_new[j], pairs)
    &&& emails.len() == ps_old.len()
    &&& forall|l: int|
        0 <= l < pairs.len() ==> pair_notified(
            #[trigger] pairs[l],
            emails[l],
            mailer,
            ps_old,
            gift_date,
            msg_notes,
            admin_name,
        )
}

/// A successful begin transition assigned recipients and composed the
/// notifications from one and the same derangement.
pub open spec fn begun_from(
    ps_old: Seq<Participant>,
    ps_new: Seq<Participant>,
    emails: Seq<SendRequest>,
    mailer: Mailer,
    gift_date: i64,
    msg_notes: Seq<char>,
    admin_name: Seq<char>,
) -> bool {
    exists|pairs: Seq<(i64, i64)>|
        begun_with_pairs(pairs, ps_old, ps_new, emails, mailer, gift_date, msg_notes, admin_name)
}

/// `req` is the message that tells the gifter at position `gi` of the
/// roster that they must gift the participant at position `ri`.
pub open spec fn begin_message_for(
    req: SendRequest,
    mailer: Mailer,
    ps: Seq<Participant>,
    gi: int,
    ri: int,
    gift_date: i64,
    msg_notes: Seq<char>,
    admin_name: Seq<char>,
) -> bool {
    &&& req.messages@.len() == 1
    &&& addressed(req.messages@[0], mailer, ps[gi].email@, "Bienvenido/a a este Secret Santa!"@)
    &&& req.messages@[0].text_part@ == begin_text(
        ps[gi].name@,
        admin_name,
        ps[ri].name@,
        ps[ri].email@,
        ps[ri].extra_details@,
        msg_notes,
        date_text_of(gift_date as int),
    )
    &&& req.messages@[0].html_part@ == begin_html(
        ps[gi].name@,
        admin_name,
        ps[ri].name@,
        ps[ri].email@,
        ps[ri].extra_details@,
        msg_notes,
        date_text_of(gift_date as int),
    )
}

/// The creation transition: validates the request, persists the game
/// and its whole roster as one atomic unit, and composes the message
/// that hands the organizer the new game's identifier. A malformed
/// request fails with `InvalidInput` before anything is persisted; a
/// write fault fails with `StorageFailure` and leaves no partial state.
pub fn create(store: &mut Store, mailer: &Mailer, req: &CreateRequest) -> (r: Result<
    (CreateResponse, SendRequest),
    Error,
>)
    requires
        old(store).wf(),
        unpersisted_roster(req.secret_santa),
        old(store).next_participant_id + req.secret_santa.participants@.len() <= i64::MAX,
        old(store).games@.len() < i64::MAX,
    ensures
        final(store).wf(),
        r is Ok <==> valid_create(req.secret_santa) && old(store).pending_faults == 0,
        !valid_create(req.secret_santa) ==> r == Err::<(CreateResponse, SendRequest), Error>(
            Error::InvalidInput,
        ) && *final(store) == *old(store),
        valid_create(req.secret_santa) && old(store).pending_faults > 0 ==> r == Err::<
            (CreateResponse, SendRequest),
            Error,
        >(Error::StorageFailure) && final(store).games == old(store).games
            && final(store).next_participant_id == old(store).next_participant_id
            && final(store).pending_faults == old(store).pending_faults - 1,
        r matches Ok(out) ==> {
            &&& out.0.game_id == old(store).games@.len() + 1
            &&& final(store).games@.len() == old(store).games@.len() + 1
            &&& forall|i: int|
                0 <= i < old(store).games@.len() ==> final(store).games@[i] == old(
                    store,
                ).games@[i]
            &&& persisted_as(
                req.secret_santa,
                old(store).next_participant_id as int,
                final(store).games@.last(),
            )
            &&& out.1.messages@.len() == 1
            &&& addressed(
                out.1.messages@[0],
                *mailer,
                req.secret_santa.admin_email@,
                "Welcome to this Secret Santa"@,
            )
            &&& out.1.messages@[0].text_part@ == welcome_text(old(store).games@.len() as int + 1)
            &&& out.1.messages@[0].html_part@ == welcome_html(old(store).games@.len() as int + 1)
        },
{
    if !check_create(&req.secret_santa) {
        return Err(Error::InvalidInput);
    }
    let game_id = match store.create_game(&req.secret_santa) {
        Ok(gid) => gid,
        Err(e) => {
            return Err(e);
        },
    };
    let welcome = mailer.send_admin_email(game_id, req.secret_santa.admin_email.as_str());
    Ok((CreateResponse { game_id }, welcome))
}

/// The begin transition: loads the roster, derives a derangement with
/// the assignment engine, commits it together with the begun flag as
/// one atomic conditional update, and composes one message per pair
/// telling each gifter whom they must gift. A missing game fails with
/// `NotFound`; a game that has already begun is rejected with
/// `AlreadyBegun` and nothing is reshuffled; a write fault fails with
/// `StorageFailure` and leaves the game unmodified, its roster still
/// unassigned. The composed messages are handed back for a best-effort
/// transport — delivery is no part of the transition itself.
pub fn begin(store: &mut Store, mailer: &Mailer, req: &BeginRequest) -> (r: Result<
    (BeginResponse, Vec<SendRequest>),
    Error,
>)
    requires
        old(store).wf(),
    ensures
        final(store).wf(),
        r is Ok <==> old(store).has_game(req.game_id) && !old(store).game_at(req.game_id).begun
            && old(store).pending_faults == 0,
        !old(store).has_game(req.game_id) ==> r == Err::<(BeginResponse, Vec<SendRequest>), Error>(
            Error::NotFound,
        ) && *final(store) == *old(store),
        old(store).has_game(req.game_id) && old(store).game_at(req.game_id).begun ==> r == Err::<
            (BeginResponse, Vec<SendRequest>),
            Error,
        >(Error::AlreadyBegun) && *final(store) == *old(store),
        old(store).has_game(req.game_id) && !old(store).game_at(req.game_id).begun && old(
            store,
        ).pending_faults > 0 ==> r == Err::<(BeginResponse, Vec<SendRequest>), Error>(
            Error::StorageFailure,
        ) && final(store).games == old(store).games
            && final(store).next_participant_id == old(store).next_participant_id
            && final(store).pending_faults == old(store).pending_faults - 1,
        r matches Ok(out) ==> {
            let ps_old = old(store).game_at(req.game_id).game.participants@;
            let game_old = old(store).game_at(req.game_id).game;
            &&& out.0.ok == true
            &&& final(store).games@.len() == old(store).games@.len()
            &&& forall|i: int|
                0 <= i < old(store).games@.len() && i != req.game_id - 1
                    ==> final(store).games@[i] == old(store).games@[i]
            &&& final(store).game_at(req.game_id).begun
            &&& same_game_meta(final(store).game_at(req.game_id).game, game_old)
            &&& final(store).game_at(req.game_id).game.participants@.len() == ps_old.len()
            &&& begun_from(
                ps_old,
                final(store).game_at(req.game_id).game.participants@,
                out.1@,
                *mailer,
                game_old.gift_date,
                game_old.msg_notes@,
                game_old.admin_name@,
            )
        },
{
    let begun = match store.game_begun(req.game_id) {
        Ok(b) => b,
        Err(e) => {
            return Err(e);
        },
    };
    if begun {
        return Err(Error::AlreadyBegun);
    }
    let ids = match store.get_participant_ids(req.game_id) {
        Ok(v) => v,
        Err(e) => {
            return Err(e);
        },
    };
    proof {
        assert(old(store).game_at(req.game_id).wf());
    }
    let pairs = assign(&ids);
    let game = match store.get_game(req.game_id) {
        Ok(g) => g,
        Err(e) => {
            return Err(e);
        },
    };
    let ghost ps_view = game.participants@;
    let n = pairs.len();
    let mut emails: Vec<SendRequest> = Vec::new();
    let mut l: usize = 0;
    while l < n
        invariant
            0 <= l <= n,
            n == pairs@.len(),
            store.wf(),
            store.has_game(req.game_id),
            ps_view == store.game_at(req.game_id).game.participants@,
            *game == store.game_at(req.game_id).game,
            derangement_over(pairs@, pid_seq(ps_view)),
            forall|j: int| 0 <= j < ps_view.len() ==> (#[trigger] ps_view[j]).id is Some,
            0 <= game.gift_date <= crate::data::MAX_GIFT_DATE,
            emails@.len() == l,
            forall|w: int|
                0 <= w < l ==> pair_notified(
                    #[trigger] pairs@[w],
                    emails@[w],
                    *mailer,
                    ps_view,
                    game.gift_date,
                    game.msg_notes@,
                    game.admin_name@,
                ),
        decreases n - l,
    {
        proof {
            broadcast use vstd::seq_lib::to_multiset_contains;

            let pids = pid_seq(ps_view);
            assert(gifters(pairs@)[l as int] == pairs@[l as int].0);
            assert(gifters(pairs@).contains(pairs@[l as int].0));
            assert(gifters(pairs@).to_multiset().count(pairs@[l as int].0) > 0);
            assert(pids.to_multiset().count(pairs@[l as int].0) > 0);
            assert(pids.contains(pairs@[l as int].0));
            let gj = choose|gj: int| 0 <= gj < pids.len() && pids[gj] == pairs@[l as int].0;
            assert(ps_view[gj].id == Some(pairs@[l as int].0));
            assert(recipients(pairs@)[l as int] == pairs@[l as int].1);
            assert(recipients(pairs@).contains(pairs@[l as int].1));
            assert(recipients(pairs@).to_multiset().count(pairs@[l as int].1) > 0);
            assert(pids.to_multiset().count(pairs@[l as int].1) > 0);
            assert(pids.contains(pairs@[l as int].1));
            let rj = choose|rj: int| 0 <= rj < pids.len() && pids[rj] == pairs@[l as int].1;
            assert(ps_view[rj].id == Some(pairs@[l as int].1));
        }
        let gifter = find_by_id(&game.participants, pairs[l].0).unwrap();
        let giftee = find_by_id(&game.participants, pairs[l].1).unwrap();
        let message = mailer.send_begin_email(
            gifter,
            giftee,
            game.gift_date,
            &game.max_price,
            game.msg_notes.as_str(),
            game.admin_name.as_str(),
        );
        emails.push(message);
        l = l + 1;
    }
    match store.assign_and_begin(req.game_id, &pairs) {
        Ok(_) => {
            proof {
                let ps_old = old(store).game_at(req.game_id).game.participants@;
                assert(ps_old == ps_view);
                assert(begun_with_pairs(
                    pairs@,
                    ps_old,
                    store.game_at(req.game_id).game.participants@,
                    emails@,
                    *mailer,
                    old(store).game_at(req.game_id).game.gift_date,
                    old(store).game_at(req.game_id).game.msg_notes@,
                    old(store).game_at(req.game_id).game.admin_name@,
                ));
            }
            Ok((BeginResponse { ok: true }, emails))
        },
        Err(e) => Err(e),
    }
}

} // verus!
