use vstd::prelude::*;
use crate::data::{Error, Participant, SecretSanta};
use crate::engine::{derangement_over, find_recipient, gifters, pair_map};

verus! {

/// One game as the store holds it: the aggregate plus its begin flag.
pub struct StoredGame {
    pub game: SecretSanta,
    pub begun: bool,
}

/// The identifier of each participant, in roster order.
pub open spec fn pid_seq(ps: Seq<Participant>) -> Seq<i64> {
    ps.map_values(|p: Participant| p.id.unwrap())
}

/// Every participant's assignment is the one some fixed list of pairs
/// gives for their identifier.
pub open spec fn assigned_by(ps: Seq<Participant>, pairs: Seq<(i64, i64)>) -> bool {
    forall|j: int|
        0 <= j < ps.len() ==> (#[trigger] ps[j]).gift_to == Some(
            pair_map(pairs)[ps[j].id.unwrap()],
        )
}

impl StoredGame {
    /// The invariant of a persisted game: a roster of at least two
    /// participants with distinct assigned identifiers; before the begin
    /// transition nobody has a recipient, after it the recipients are
    /// exactly what some derangement of the roster gives.
    pub open spec fn wf(self) -> bool {
        let ps = self.game.participants@;
        &&& ps.len() >= 2
        &&& 0 <= self.game.gift_date <= crate::data::MAX_GIFT_DATE
        &&& forall|i: int| 0 <= i < ps.len() ==> (#[trigger] ps[i]).id is Some
        &&& pid_seq(ps).no_duplicates()
        &&& if self.begun {
            exists|pairs: Seq<(i64, i64)>|
                derangement_over(pairs, pid_seq(ps)) && assigned_by(ps, pairs)
        } else {
            forall|i: int| 0 <= i < ps.len() ==> (#[trigger] ps[i]).gift_to is None
        }
    }
}

/// An in-memory game store: the durable record of games, an identifier
/// counter for participants, and a count of injected write faults with
/// which tests exercise the storage-failure paths.
pub struct Store {
    pub games: Vec<StoredGame>,
    pub next_participant_id: i64,
    pub pending_faults: u64,
}

/// A roster as it stands before persistence: nobody has an identifier
/// or a recipient yet.
pub open spec fn unpersisted_roster(g: SecretSanta) -> bool {
    forall|i: int|
        0 <= i < g.participants@.len() ==> (#[trigger] g.participants@[i]).id is None
            && g.participants@[i].gift_to is None
}

/// A creation request the store can persist: a roster of at least two,
/// none of it persisted yet.
pub open spec fn fresh_game(g: SecretSanta) -> bool {
    &&& g.participants@.len() >= 2
    &&& unpersisted_roster(g)
}

/// `dst` is `src` as the store persists it from identifier `base` on:
/// the same fields, the roster in order with identifiers `base`,
/// `base + 1`, ..., nobody assigned, the game not begun.
pub open spec fn persisted_as(src: SecretSanta, base: int, dst: StoredGame) -> bool {
    &&& !dst.begun
    &&& dst.game.name@ == src.name@
    &&& dst.game.admin_name@ == src.admin_name@
    &&& dst.game.admin_email@ == src.admin_email@
    &&& dst.game.gift_date == src.gift_date
    &&& dst.game.max_price.amount == src.max_price.amount
    &&& dst.game.max_price.currency@ == src.max_price.currency@
    &&& dst.game.msg_notes@ == src.msg_notes@
    &&& dst.game.participants@.len() == src.participants@.len()
    &&& forall|i: int|
        0 <= i < src.participants@.len() ==> {
            let p = #[trigger] dst.game.participants@[i];
            &&& p.name@ == src.participants@[i].name@
            &&& p.email@ == src.participants@[i].email@
            &&& p.extra_details@ == src.participants@[i].extra_details@
            &&& p.id == Some((base + i) as i64)
            &&& p.gift_to is None
        }
}

/// `a` and `b` agree on everything but the roster.
pub open spec fn same_game_meta(a: SecretSanta, b: SecretSanta) -> bool {
    &&& a.name == b.name
    &&& a.admin_name == b.admin_name
    &&& a.admin_email == b.admin_email
    &&& a.gift_date == b.gift_date
    &&& a.max_price == b.max_price
    &&& a.msg_notes == b.msg_notes
}

/// `p_new` is `p_old` with exactly the recipient filled in from `pairs`.
pub open spec fn updated_participant(
    p_old: Participant,
    p_new: Participant,
    pairs: Seq<(i64, i64)>,
) -> bool {
    &&& p_new.name == p_old.name
    &&& p_new.email == p_old.email
    &&& p_new.extra_details == p_old.extra_details
    &&& p_new.id == p_old.id
    &&& p_new.gift_to == Some(pair_map(pairs)[p_old.id.unwrap()])
}

impl Store {
    /// Every game on record satisfies its invariant, and the identifier
    /// counter stays ahead of zero.
    pub open spec fn wf(self) -> bool {
        &&& self.next_participant_id >= 1
        &&& forall|i: int| 0 <= i < self.games@.len() ==> (#[trigger] self.games@[i]).wf()
    }

    /// The store has a game under this identifier.
    pub open spec fn has_game(self, game_id: i64) -> bool {
        1 <= game_id <= self.games@.len()
    }

    /// The game on record under `game_id`.
    pub open spec fn game_at(self, game_id: i64) -> StoredGame {
        self.games@[game_id - 1]
    }

    /// An empty store.
    pub fn new() -> (s: Store)
        ensures
            s.wf(),
            s.games@.len() == 0,
            s.next_participant_id == 1,
            s.pending_faults == 0,
    {
        Store { games: Vec::new(), next_participant_id: 1, pending_faults: 0 }
    }

    /// Arms the next `n` write attempts to fail with `StorageFailure`,
    /// to exercise the failure paths; reads are never affected.
    pub fn inject_write_faults(&mut self, n: u64)
        ensures
            final(self).games == old(self).games,
            final(self).next_participant_id == old(self).next_participant_id,
            final(self).pending_faults == n,
    {
        self.pending_faults = n;
    }

    /// Persists one game with its whole roster as a single atomic unit:
    /// either the game and every participant are on record afterward,
    /// with fresh identifiers assigned, or the store is exactly as it
    /// was and `StorageFailure` comes back.
    pub fn create_game(&mut self, game: &SecretSanta) -> (r: Result<i64, Error>)
        requires
            old(self).wf(),
            fresh_game(*game),
            0 <= game.gift_date <= crate::data::MAX_GIFT_DATE,
            old(self).next_participant_id + game.participants@.len() <= i64::MAX,
            old(self).games@.len() < i64::MAX,
        ensures
            final(self).wf(),
            r is Ok <==> old(self).pending_faults == 0,
            r is Err ==> r == Err::<i64, Error>(Error::StorageFailure) && final(self).games
                == old(self).games && final(self).next_participant_id == old(
                self,
            ).next_participant_id && final(self).pending_faults == old(self).pending_faults - 1,
            r is Ok ==> {
                &&& r == Ok::<i64, Error>((old(self).games@.len() + 1) as i64)
                &&& final(self).games@.len() == old(self).games@.len() + 1
                &&& forall|i: int|
                    0 <= i < old(self).games@.len() ==> final(self).games@[i] == old(
                        self,
                    ).games@[i]
                &&& persisted_as(
                    *game,
                    old(self).next_participant_id as int,
                    final(self).games@.last(),
                )
                &&& final(self).next_participant_id == old(self).next_participant_id
                    + game.participants@.len()
                &&& final(self).pending_faults == 0
            },
    {
        if self.pending_faults > 0 {
            self.pending_faults = self.pending_faults - 1;
            return Err(Error::StorageFailure);
        }
        let base = self.next_participant_id;
        let n = game.participants.len();
        let mut roster: Vec<Participant> = Vec::new();
        let mut i: usize = 0;
        while i < n
            invariant
                0 <= i <= n,
                n == game.participants@.len(),
                1 <= base,
                base + n <= i64::MAX,
                roster@.len() == i,
                forall|j: int|
                    0 <= j < i ==> {
                        let p = #[trigger] roster@[j];
                        &&& p.name@ == game.participants@[j].name@
                        &&& p.email@ == game.participants@[j].email@
                        &&& p.extra_details@ == game.participants@[j].extra_details@
                        &&& p.id == Some((base + j) as i64)
                        &&& p.gift_to is None
                    },
            decreases n - i,
        {
            let src = &game.participants[i];
            roster.push(
                Participant {
                    name: src.name.clone(),
                    email: src.email.clone(),
                    extra_details: src.extra_details.clone(),
                    id: Some(base + i as i64),
                    gift_to: None,
                },
            );
            i = i + 1;
        }
        let stored = StoredGame {
            game: SecretSanta {
                name: game.name.clone(),
                admin_name: game.admin_name.clone(),
                admin_email: game.admin_email.clone(),
                gift_date: game.gift_date,
                max_price: crate::data::Currency {
                    amount: game.max_price.amount,
                    currency: game.max_price.currency.clone(),
                },
                msg_notes: game.msg_notes.clone(),
                participants: roster,
            },
            begun: false,
        };
        proof {
            assert forall|a: int, b: int|
                0 <= a < b < pid_seq(stored.game.participants@).len() implies pid_seq(
                stored.game.participants@,
            )[a] != pid_seq(stored.game.participants@)[b] by {
                assert(stored.game.participants@[a].id == Some((base + a) as i64));
                assert(stored.game.participants@[b].id == Some((base + b) as i64));
            }
            assert(stored.wf());
        }
        self.games.push(stored);
        self.next_participant_id = base + n as i64;
        Ok(self.games.len() as i64)
    }

    /// Reads the full aggregate of one game; `NotFound` exactly when no
    /// game is on record under the identifier.
    pub fn get_game(&self, game_id: i64) -> (r: Result<&SecretSanta, Error>)
        ensures
            r is Ok <==> self.has_game(game_id),
            r matches Ok(g) ==> *g == self.game_at(game_id).game,
            r is Err ==> r == Err::<&SecretSanta, Error>(Error::NotFound),
    {
        if game_id < 1 || game_id as u64 > self.games.len() as u64 {
            return Err(Error::NotFound);
        }
        let idx = (game_id - 1) as usize;
        Ok(&self.games[idx].game)
    }

    /// Whether a game has been through its begin transition; `NotFound`
    /// exactly when no game is on record under the identifier.
    pub fn game_begun(&self, game_id: i64) -> (r: Result<bool, Error>)
        ensures
            r is Ok <==> self.has_game(game_id),
            r matches Ok(b) ==> b == self.game_at(game_id).begun,
            r is Err ==> r == Err::<bool, Error>(Error::NotFound),
    {
        if game_id < 1 || game_id as u64 > self.games.len() as u64 {
            return Err(Error::NotFound);
        }
        let idx = (game_id - 1) as usize;
        Ok(self.games[idx].begun)
    }

    /// The identifiers of one game's roster, in roster order; `NotFound`
    /// exactly when no game is on record under the identifier.
    pub fn get_participant_ids(&self, game_id: i64) -> (r: Result<Vec<i64>, Error>)
        requires
            self.wf(),
        ensures
            r is Ok <==> self.has_game(game_id),
            r matches Ok(ids) ==> ids@ == pid_seq(self.game_at(game_id).game.participants@),
            r is Err ==> r == Err::<Vec<i64>, Error>(Error::NotFound),
    {
        if game_id < 1 || game_id as u64 > self.games.len() as u64 {
            return Err(Error::NotFound);
        }
        let idx = (game_id - 1) as usize;
        let ps = &self.games[idx].game.participants;
        let n = ps.len();
        let mut ids: Vec<i64> = Vec::new();
        let mut i: usize = 0;
        while i < n
            invariant
                0 <= i <= n,
                n == ps@.len(),
                forall|j: int| 0 <= j < n ==> (#[trigger] ps@[j]).id is Some,
                ids@.len() == i,
                forall|j: int| 0 <= j < i ==> ids@[j] == ps@[j].id.unwrap(),
            decreases n - i,
        {
            ids.push(ps[i].id.unwrap());
            i = i + 1;
        }
        proof {
            assert(ids@ =~= pid_seq(self.game_at(game_id).game.participants@));
        }
        Ok(ids)
    }

    /// Commits one game's assignment together with its begin flag as a
    /// single atomic conditional update, gated on the game not having
    /// begun: it succeeds exactly where the game exists, has not begun,
    /// and no write fault is pending, and any failure leaves the store
    /// exactly as it was — a begun game is rejected with `AlreadyBegun`,
    /// so a second begin can never reshuffle, and a write fault leaves
    /// no partial assignment behind.
    pub fn assign_and_begin(&mut self, game_id: i64, mapping: &Vec<(i64, i64)>) -> (r: Result<
        (),
        Error,
    >)
        requires
            old(self).wf(),
            old(self).has_game(game_id) ==> derangement_over(
                mapping@,
                pid_seq(old(self).game_at(game_id).game.participants@),
            ),
        ensures
            final(self).wf(),
            r is Ok <==> old(self).has_game(game_id) && !old(self).game_at(game_id).begun && old(
                self,
            ).pending_faults == 0,
            !old(self).has_game(game_id) ==> r == Err::<(), Error>(Error::NotFound) && *final(self)
                == *old(self),
            old(self).has_game(game_id) && old(self).game_at(game_id).begun ==> r == Err::<
                (),
                Error,
            >(Error::AlreadyBegun) && *final(self) == *old(self),
            old(self).has_game(game_id) && !old(self).game_at(game_id).begun
                && old(self).pending_faults > 0 ==> r == Err::<(), Error>(Error::StorageFailure)
                && final(self).games == old(self).games
                && final(self).next_participant_id == old(self).next_participant_id
                && final(self).pending_faults == old(self).pending_faults - 1,
            r is Ok ==> {
                &&& final(self).games@.len() == old(self).games@.len()
                &&& forall|i: int|
                    0 <= i < old(self).games@.len() && i != game_id - 1 ==> final(self).games@[i]
                        == old(self).games@[i]
                &&& final(self).game_at(game_id).begun
                &&& same_game_meta(
                    final(self).game_at(game_id).game,
                    old(self).game_at(game_id).game,
                )
                &&& final(self).game_at(game_id).game.participants@.len() == old(self).game_at(
                    game_id,
                ).game.participants@.len()
                &&& forall|j: int|
                    0 <= j < old(self).game_at(game_id).game.participants@.len()
                        ==> updated_participant(
                        old(self).game_at(game_id).game.participants@[j],
                        final(self).game_at(game_id).game.participants@[j],
                        mapping@,
                    )
                &&& final(self).next_participant_id == old(self).next_participant_id
                &&& final(self).pending_faults == 0
            },
    {
        if game_id < 1 || game_id as u64 > self.games.len() as u64 {
            return Err(Error::NotFound);
        }
        let idx = (game_id - 1) as usize;
        if self.games[idx].begun {
            return Err(Error::AlreadyBegun);
        }
        if self.pending_faults > 0 {
            self.pending_faults = self.pending_faults - 1;
            return Err(Error::StorageFailure);
        }
        let n = self.games[idx].game.participants.len();
        let mut j: usize = 0;
        while j < n
            invariant
                0 <= j <= n,
                0 <= idx < self.games@.len(),
                idx == game_id - 1,
                old(self).wf(),
                old(self).has_game(game_id),
                derangement_over(
                    mapping@,
                    pid_seq(old(self).games@[idx as int].game.participants@),
                ),
                self.games@.len() == old(self).games@.len(),
                n == old(self).games@[idx as int].game.participants@.len(),
                self.games@[idx as int].game.participants@.len() == n,
                forall|i: int|
                    0 <= i < self.games@.len() && i != idx ==> self.games@[i] == old(
                        self,
                    ).games@[i],
                self.games@[idx as int].begun == false,
                same_game_meta(
                    self.games@[idx as int].game,
                    old(self).games@[idx as int].game,
                ),
                forall|w: int|
                    0 <= w < j ==> updated_participant(
                        old(self).games@[idx as int].game.participants@[w],
                        self.games@[idx as int].game.participants@[w],
                        mapping@,
                    ),
                forall|w: int|
                    j <= w < n ==> self.games@[idx as int].game.participants@[w] == old(
                        self,
                    ).games@[idx as int].game.participants@[w],
                self.next_participant_id == old(self).next_participant_id,
                self.pending_faults == 0,
            decreases n - j,
        {
            proof {
                assert(old(self).games@[idx as int].wf());
                assert(old(self).games@[idx as int].game.participants@[j as int].id is Some);
            }
            let pid = self.games[idx].game.participants[j].id.unwrap();
            let r = find_recipient(mapping, pid);
            proof {
                broadcast use vstd::seq_lib::to_multiset_contains;

                let pids = pid_seq(old(self).games@[idx as int].game.participants@);
                assert(pids[j as int] == pid);
                assert(pids.contains(pid));
                assert(pids.to_multiset().count(pid) > 0);
                assert(gifters(mapping@).to_multiset().count(pid) > 0);
                assert(gifters(mapping@).contains(pid));
            }
            let giftee = r.unwrap();
            self.games[idx].game.participants[j].gift_to = Some(giftee);
            j = j + 1;
        }
        self.games[idx].begun = true;
        proof {
            let ps_new = self.games@[idx as int].game.participants@;
            let ps_old = old(self).games@[idx as int].game.participants@;
            assert(pid_seq(ps_new) =~= pid_seq(ps_old));
            assert forall|i: int| 0 <= i < ps_new.len() implies (#[trigger] ps_new[i]).id
                is Some by {
                assert(old(self).games@[idx as int].wf());
                assert(ps_old[i].id is Some);
            }
            assert(derangement_over(mapping@, pid_seq(ps_new)));
            assert(assigned_by(ps_new, mapping@));
            assert(self.games@[idx as int].wf());
            assert forall|i: int| 0 <= i < self.games@.len() implies (
            #[trigger] self.games@[i]).wf() by {
                if i != idx {
                    assert(self.games@[i] == old(self).games@[i]);
                    assert(old(self).games@[i].wf());
                }
            }
        }
        Ok(())
    }
}

} // verus!
