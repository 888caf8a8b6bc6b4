//! The ledger: the open matches, the admin, the blacklist and the owner,
//! kept in one storage.
//!
//! A `Ledger` is described by five projections: `games`, `admin`,
//! `blacklist`, `owner` and `version`. Every operation states what it does
//! to each.

use crate::error::ContractError;
use crate::game::{
    get_result, move_of_code, outcome, result_of_code, Game, GameMove, GameResult, GameView,
};
use crate::storage::{
    admin_get, admin_set, admin_slot, byte_len, game_load, game_remove, game_rows,
    game_rows_all, game_rows_of_host, game_save, hooks_add, hooks_of, hooks_query, hooks_remove,
    hooks_slot, host_fits, lists_all, lists_host, opt_text, owner_load, owner_save, owner_slot,
    pair_lt, storage_new, storage_sound, text_lt, texts, version_get, version_set, version_slot,
    Pair, Row, MAX_HOST_BYTES,
};
use cosmwasm_std::MemoryStorage;
use vstd::prelude::*;

verus! {

/// The store of open matches together with the admin, the blacklist and the
/// owner.
pub struct Ledger {
    storage: MemoryStorage,
}

/// What is recorded of the one who set a ledger up.
#[derive(Clone, Debug, PartialEq)]
pub struct State {
    pub owner: String,
}

/// The move that an optional code stands for.
pub open spec fn opt_move(code: Option<u8>) -> Option<GameMove> {
    match code {
        Some(c) => move_of_code(c),
        None => None,
    }
}

/// The result that an optional code stands for.
pub open spec fn opt_result(code: Option<u8>) -> Option<GameResult> {
    match code {
        Some(c) => result_of_code(c),
        None => None,
    }
}

/// The match that a row stored under a pair stands for.
pub open spec fn row_game(k: Pair, row: Row) -> GameView {
    GameView {
        host: k.0,
        opponent: k.1,
        host_move: match move_of_code(row.0) {
            Some(m) => m,
            None => GameMove::Rock,
        },
        opp_move: opt_move(row.1),
        result: opt_result(row.2),
    }
}

/// The row of a match that awaits its opponent: the host's move is a known
/// code, and nothing else is recorded.
pub open spec fn row_open(row: Row) -> bool {
    move_of_code(row.0) is Some && row.1 is None && row.2 is None
}

/// `v` lists the matches of `host` in `games`: every entry is a stored match
/// of `host`, every stored match of `host` is an entry, and the opponents
/// ascend by their bytes.
pub open spec fn lists_host_games(
    games: Map<Pair, GameView>,
    host: Seq<char>,
    v: Seq<Game>,
) -> bool {
    &&& forall|i: int|
        0 <= i < v.len() ==> {
            &&& (#[trigger] v[i])@.host == host
            &&& games.contains_key((host, v[i]@.opponent))
            &&& games[(host, v[i]@.opponent)] == v[i]@
        }
    &&& forall|o: Seq<char>| #[trigger]
        games.contains_key((host, o)) ==> exists|i: int|
            0 <= i < v.len() && (#[trigger] v[i])@.opponent == o
    &&& forall|i: int, j: int|
        0 <= i < j < v.len() ==> text_lt((#[trigger] v[i])@.opponent, (#[trigger] v[j])@.opponent)
}

/// `v` lists the matches against `opponent` in `games`: every entry is a
/// stored match against `opponent`, every stored match against `opponent`
/// is an entry, and the keys ascend in the store's order.
pub open spec fn lists_opponent_games(
    games: Map<Pair, GameView>,
    opponent: Seq<char>,
    v: Seq<Game>,
) -> bool {
    &&& forall|i: int|
        0 <= i < v.len() ==> {
            &&& (#[trigger] v[i])@.opponent == opponent
            &&& games.contains_key((v[i]@.host, opponent))
            &&& games[(v[i]@.host, opponent)] == v[i]@
        }
    &&& forall|h: Seq<char>| #[trigger]
        games.contains_key((h, opponent)) ==> exists|i: int|
            0 <= i < v.len() && (#[trigger] v[i])@.host == h
    &&& forall|i: int, j: int|
        0 <= i < j < v.len() ==> pair_lt(
            ((#[trigger] v[i])@.host, opponent),
            ((#[trigger] v[j])@.host, opponent),
        )
}

/// Builds the open match that a row stored under a pair stands for.
fn game_of_row(host: String, opponent: String, row: Row) -> (g: Option<Game>)
    ensures
        move_of_code(row.0) is Some ==> (g matches Some(game) && game@ == row_game(
            (host@, opponent@),
            row,
        )),
{
    let host_move = match GameMove::from_code(row.0) {
        Some(m) => m,
        None => {
            return None;
        },
    };
    let opp_move = match row.1 {
        Some(c) => GameMove::from_code(c),
        None => None,
    };
    let result = match row.2 {
        Some(c) => GameResult::from_code(c),
        None => None,
    };
    Some(Game { host, opponent, host_move, opp_move, result })
}

impl Ledger {
    /// The invariant of a ledger: its storage reads back, every stored
    /// match awaits its opponent under a host that the store can key, and
    /// the blacklist names nobody twice.
    pub closed spec fn wf(self) -> bool {
        &&& storage_sound(self.storage)
        &&& forall|k: Pair| #[trigger]
            game_rows(self.storage).contains_key(k) ==> row_open(game_rows(self.storage)[k])
                && byte_len(k.0) <= MAX_HOST_BYTES
        &&& hooks_of(self.storage).no_duplicates()
    }

    /// The stored matches, by (host, opponent).
    pub closed spec fn games(self) -> Map<Pair, GameView> {
        Map::new(
            |k: Pair| game_rows(self.storage).contains_key(k),
            |k: Pair| row_game(k, game_rows(self.storage)[k]),
        )
    }

    /// The admin, if there is one.
    pub closed spec fn admin(self) -> Option<Seq<char>> {
        match admin_slot(self.storage) {
            Some(admin) => admin,
            None => None,
        }
    }

    /// The identities that may not start a match.
    pub closed spec fn blacklist(self) -> Set<Seq<char>> {
        hooks_of(self.storage).to_set()
    }

    /// The identity that set the ledger up, once it has been set up.
    pub closed spec fn owner(self) -> Option<Seq<char>> {
        owner_slot(self.storage)
    }

    /// The contract's name and version, once they have been recorded.
    pub closed spec fn version(self) -> Option<(Seq<char>, Seq<char>)> {
        version_slot(self.storage)
    }

    /// Whether `actor` is the admin.
    pub open spec fn has_admin(self, actor: Seq<char>) -> bool {
        self.admin() == Some(actor)
    }

    /// Everything but the stored matches is the same in `self` and `other`.
    pub open spec fn same_control(self, other: Ledger) -> bool {
        &&& self.admin() == other.admin()
        &&& self.blacklist() == other.blacklist()
        &&& self.owner() == other.owner()
        &&& self.version() == other.version()
    }

    /// Everything but the admin is the same in `self` and `other`.
    pub open spec fn same_but_admin(self, other: Ledger) -> bool {
        &&& self.games() == other.games()
        &&& self.blacklist() == other.blacklist()
        &&& self.owner() == other.owner()
        &&& self.version() == other.version()
    }

    /// Everything but the blacklist is the same in `self` and `other`.
    pub open spec fn same_but_blacklist(self, other: Ledger) -> bool {
        &&& self.games() == other.games()
        &&& self.admin() == other.admin()
        &&& self.owner() == other.owner()
        &&& self.version() == other.version()
    }

    /// What `get` answers: the match stored under the pair, or that there is
    /// none.
    pub open spec fn get_post(
        self,
        host: Seq<char>,
        opponent: Seq<char>,
        r: Result<Game, ContractError>,
    ) -> bool {
        &&& self.games().contains_key((host, opponent)) ==> (r matches Ok(game) && game@
            == self.games()[(host, opponent)])
        &&& !self.games().contains_key((host, opponent)) ==> r matches Err(
            ContractError::GameNotFound {},
        )
    }

    /// What `start` does to the ledger `self`, leaving `after`. A blacklisted
    /// host is turned down, then a host that the store cannot key; either
    /// way nothing changes. Otherwise the fresh match is stored under the
    /// pair, in place of any match that was there.
    pub open spec fn start_post(
        self,
        after: Ledger,
        host: Seq<char>,
        opponent: Seq<char>,
        host_move: GameMove,
        r: Result<(), ContractError>,
    ) -> bool {
        &&& after.same_control(self)
        &&& self.blacklist().contains(host) ==> {
            &&& r matches Err(ContractError::BlacklistedAddress { addr })
            &&& addr@ == host
            &&& after == self
        }
        &&& !self.blacklist().contains(host) && byte_len(host) > MAX_HOST_BYTES ==> {
            &&& r matches Err(ContractError::NotValidAddres {})
            &&& after == self
        }
        &&& !self.blacklist().contains(host) && byte_len(host) <= MAX_HOST_BYTES ==> {
            &&& r is Ok
            &&& after.games() == self.games().insert(
                (host, opponent),
                GameView::started(host, opponent, host_move),
            )
        }
    }

    /// What `respond` does to the ledger `self`, leaving `after`. Where a
    /// match is stored under the pair it is settled by the two moves and
    /// taken out of the store; where none is, nothing changes.
    pub open spec fn respond_post(
        self,
        after: Ledger,
        host: Seq<char>,
        opponent: Seq<char>,
        opp_move: GameMove,
        r: Result<GameResult, ContractError>,
    ) -> bool {
        &&& after.same_control(self)
        &&& self.games().contains_key((host, opponent)) ==> {
            &&& r matches Ok(result)
            &&& result == outcome(self.games()[(host, opponent)].host_move, opp_move)
            &&& after.games() == self.games().remove((host, opponent))
        }
        &&& !self.games().contains_key((host, opponent)) ==> {
            &&& r matches Err(ContractError::GameNotFound {})
            &&& after == self
        }
    }

    /// An admin-only request of `actor` is turned down, and changes nothing,
    /// unless `actor` is the admin.
    pub open spec fn turned_down_unless_admin<T>(
        self,
        after: Ledger,
        actor: Seq<char>,
        r: Result<T, ContractError>,
    ) -> bool {
        self.admin() != Some(actor) ==> {
            &&& r matches Err(ContractError::Unauthorized {})
            &&& after == self
        }
    }

    /// What `transfer_admin` does to the ledger `self`, leaving `after`.
    pub open spec fn transfer_admin_post(
        self,
        after: Ledger,
        new_admin: Option<Seq<char>>,
        actor: Seq<char>,
        r: Result<(), ContractError>,
    ) -> bool {
        &&& self.turned_down_unless_admin(after, actor, r)
        &&& self.admin() == Some(actor) ==> {
            &&& r is Ok
            &&& after.admin() == new_admin
            &&& after.same_but_admin(self)
        }
    }

    /// What `add_to_blacklist` does to the ledger `self`, leaving `after`.
    pub open spec fn add_to_blacklist_post(
        self,
        after: Ledger,
        target: Seq<char>,
        actor: Seq<char>,
        r: Result<(), ContractError>,
    ) -> bool {
        &&& self.turned_down_unless_admin(after, actor, r)
        &&& self.admin() == Some(actor) ==> {
            &&& r is Ok
            &&& after.blacklist() == self.blacklist().insert(target)
            &&& after.same_but_blacklist(self)
        }
    }

    /// What `remove_from_blacklist` does to the ledger `self`, leaving
    /// `after`.
    pub open spec fn remove_from_blacklist_post(
        self,
        after: Ledger,
        target: Seq<char>,
        actor: Seq<char>,
        r: Result<(), ContractError>,
    ) -> bool {
        &&& self.turned_down_unless_admin(after, actor, r)
        &&& self.admin() == Some(actor) ==> {
            &&& r is Ok
            &&& after.blacklist() == self.blacklist().remove(target)
            &&& after.same_but_blacklist(self)
        }
    }

    /// Every match in the store of a ledger awaits its opponent, and names
    /// the host and the opponent that it is stored under.
    pub proof fn stored_matches_are_open(self)
        requires
            self.wf(),
        ensures
            forall|k: Pair| #[trigger]
                self.games().contains_key(k) ==> {
                    &&& self.games()[k].open()
                    &&& self.games()[k].host == k.0
                    &&& self.games()[k].opponent == k.1
                    &&& byte_len(k.0) <= MAX_HOST_BYTES
                },
    {
    }

    /// A ledger with no match, no admin, nobody blacklisted, no owner and
    /// no version.
    pub fn new() -> (l: Ledger)
        ensures
            l.wf(),
            l.games() == Map::<Pair, GameView>::empty(),
            l.admin() is None,
            l.blacklist() == Set::<Seq<char>>::empty(),
            l.owner() is None,
            l.version() is None,
    {
        let l = Ledger { storage: storage_new() };
        assert(l.games() =~= Map::<Pair, GameView>::empty());
        assert(l.blacklist() =~= Set::<Seq<char>>::empty());
        l
    }

    /// Stores a fresh match of `host` against `opponent`, replacing any match
    /// already stored under that pair, and returns it. A host too long for
    /// the store to key is turned down.
    pub fn create(&mut self, host: &str, opponent: &str, host_move: GameMove) -> (r: Result<
        Game,
        ContractError,
    >)
        requires
            old(self).wf(),
        ensures
            final(self).wf(),
            final(self).same_control(*old(self)),
            byte_len(host@) <= MAX_HOST_BYTES ==> {
                &&& r matches Ok(game)
                &&& game@ == GameView::started(host@, opponent@, host_move)
                &&& final(self).games() == old(self).games().insert((host@, opponent@), game@)
            },
            byte_len(host@) > MAX_HOST_BYTES ==> {
                &&& r matches Err(ContractError::NotValidAddres {})
                &&& *final(self) == *old(self)
            },
    {
        if !host_fits(host) {
            return Err(ContractError::NotValidAddres {});
        }
        let row: Row = (host_move.code(), None, None);
        if let Err(e) = game_save(&mut self.storage, host, opponent, &row) {
            return Err(ContractError::Std(e));
        }
        let game = Game {
            host: host.to_owned(),
            opponent: opponent.to_owned(),
            host_move,
            opp_move: None,
            result: None,
        };
        assert(final(self).games() =~= old(self).games().insert((host@, opponent@), game@));
        Ok(game)
    }

    /// The match stored under (`host`, `opponent`).
    pub fn get(&self, host: &str, opponent: &str) -> (r: Result<Game, ContractError>)
        requires
            self.wf(),
        ensures
            self.get_post(host@, opponent@, r),
    {
        if !host_fits(host) {
            return Err(ContractError::GameNotFound {});
        }
        match game_load(&self.storage, host, opponent) {
            Ok(row) => match game_of_row(host.to_owned(), opponent.to_owned(), row) {
                Some(game) => Ok(game),
                None => Err(ContractError::GameNotFound {}),
            },
            Err(_) => Err(ContractError::GameNotFound {}),
        }
    }

    /// Records the opponent's move and the result on the match stored under
    /// (`host`, `opponent`), takes the match out of the store, and returns
    /// it as recorded. Without such a match nothing changes.
    pub fn complete_and_remove(
        &mut self,
        host: &str,
        opponent: &str,
        opp_move: GameMove,
        result: GameResult,
    ) -> (r: Result<Game, ContractError>)
        requires
            old(self).wf(),
        ensures
            final(self).wf(),
            final(self).same_control(*old(self)),
            old(self).games().contains_key((host@, opponent@)) ==> {
                &&& r matches Ok(game)
                &&& game@ == old(self).games()[(host@, opponent@)].completed(opp_move, result)
                &&& final(self).games() == old(self).games().remove((host@, opponent@))
            },
            !old(self).games().contains_key((host@, opponent@)) ==> {
                &&& r matches Err(ContractError::GameNotFound {})
                &&& *final(self) == *old(self)
            },
    {
        if !host_fits(host) {
            return Err(ContractError::GameNotFound {});
        }
        let row = match game_load(&self.storage, host, opponent) {
            Ok(row) => row,
            Err(_) => {
                return Err(ContractError::GameNotFound {});
            },
        };
        let host_move = match GameMove::from_code(row.0) {
            Some(m) => m,
            None => {
                return Err(ContractError::GameNotFound {});
            },
        };
        let done: Row = (row.0, Some(opp_move.code()), Some(result.code()));
        if let Err(e) = game_save(&mut self.storage, host, opponent, &done) {
            return Err(ContractError::Std(e));
        }
        game_remove(&mut self.storage, host, opponent);
        let game = Game {
            host: host.to_owned(),
            opponent: opponent.to_owned(),
            host_move,
            opp_move: Some(opp_move),
            result: Some(result),
        };
        assert(game_rows(final(self).storage) =~= game_rows(old(self).storage).remove(
            (host@, opponent@),
        ));
        assert(final(self).games() =~= old(self).games().remove((host@, opponent@)));
        Ok(game)
    }

    /// The matches that `host` has open, by ascending opponent.
    pub fn scan_by_host(&self, host: &str) -> (v: Vec<Game>)
        requires
            self.wf(),
        ensures
            lists_host_games(self.games(), host@, v@),
    {
        let mut out: Vec<Game> = Vec::new();
        if !host_fits(host) {
            return out;
        }
        let rows = match game_rows_of_host(&self.storage, host) {
            Ok(rows) => rows,
            Err(_) => {
                return out;
            },
        };
        let mut i: usize = 0;
        while i < rows.len()
            invariant
                self.wf(),
                0 <= i <= rows.len(),
                out.len() == i,
                lists_host(game_rows(self.storage), host@, rows@),
                forall|j: int|
                    0 <= j < i ==> (#[trigger] out[j])@ == row_game(
                        (host@, rows[j].0@),
                        rows[j].1,
                    ),
            decreases rows.len() - i,
        {
            let opponent = rows[i].0.clone();
            let row = rows[i].1;
            assert(game_rows(self.storage).contains_key((host@, rows[i as int].0@)));
            match game_of_row(host.to_owned(), opponent, row) {
                Some(game) => {
                    out.push(game);
                },
                None => {
                    assert(false);
                },
            }
            i += 1;
        }
        proof {
            let games = self.games();
            assert forall|o: Seq<char>| #[trigger]
                games.contains_key((host@, o)) implies exists|j: int|
                0 <= j < out.len() && (#[trigger] out[j])@.opponent == o by {
                assert(game_rows(self.storage).contains_key((host@, o)));
                let j = choose|j: int| 0 <= j < rows.len() && (#[trigger] rows[j]).0@ == o;
                assert(out[j]@.opponent == o);
            }
        }
        out
    }

    /// The open matches in which `opponent` is the one invited, in the
    /// order of the store's keys. Every stored match is looked at.
    pub fn scan_by_opponent(&self, opponent: &str) -> (v: Vec<Game>)
        requires
            self.wf(),
        ensures
            lists_opponent_games(self.games(), opponent@, v@),
    {
        let mut out: Vec<Game> = Vec::new();
        let wanted = opponent.to_owned();
        let rows = match game_rows_all(&self.storage) {
            Ok(rows) => rows,
            Err(_) => {
                return out;
            },
        };
        let ghost mut from: Seq<int> = Seq::empty();
        let mut i: usize = 0;
        while i < rows.len()
            invariant
                self.wf(),
                wanted@ == opponent@,
                0 <= i <= rows.len(),
                lists_all(game_rows(self.storage), rows@),
                from.len() == out.len(),
                forall|j: int|
                    0 <= j < out.len() ==> {
                        &&& 0 <= (#[trigger] from[j]) < i
                        &&& rows[from[j]].1@ == opponent@
                        &&& out[j]@ == row_game(
                            (rows[from[j]].0@, rows[from[j]].1@),
                            rows[from[j]].2,
                        )
                    },
                forall|j: int, k: int| 0 <= j < k < out.len() ==> from[j] < from[k],
                forall|n: int|
                    0 <= n < i && (#[trigger] rows[n]).1@ == opponent@ ==> exists|j: int|
                        0 <= j < out.len() && #[trigger] from[j] == n,
            decreases rows.len() - i,
        {
            let ghost seen = from;
            if rows[i].1 == wanted {
                let host = rows[i].0.clone();
                let row = rows[i].2;
                assert(game_rows(self.storage).contains_key(
                    (rows[i as int].0@, rows[i as int].1@),
                ));
                match game_of_row(host, rows[i].1.clone(), row) {
                    Some(game) => {
                        out.push(game);
                        proof {
                            from = from.push(i as int);
                        }
                    },
                    None => {
                        assert(false);
                    },
                }
            }
            proof {
                assert forall|n: int|
                    0 <= n < i + 1 && (#[trigger] rows[n]).1@ == opponent@ implies exists|j: int|
                    0 <= j < out.len() && #[trigger] from[j] == n by {
                    if n < i {
                        let j = choose|j: int| 0 <= j < seen.len() && #[trigger] seen[j] == n;
                        assert(from[j] == n);
                    } else {
                        assert(from[out.len() - 1] == n);
                    }
                }
            }
            i += 1;
        }
        proof {
            let games = self.games();
            assert forall|h: Seq<char>| #[trigger]
                games.contains_key((h, opponent@)) implies exists|j: int|
                0 <= j < out.len() && (#[trigger] out[j])@.host == h by {
                let k = (h, opponent@);
                assert(game_rows(self.storage).contains_key(k));
                let n = choose|n: int|
                    0 <= n < rows.len() && (#[trigger] rows[n]).0@ == k.0 && rows[n].1@ == k.1;
                let j = choose|j: int| 0 <= j < out.len() && #[trigger] from[j] == n;
                assert(out[j]@.host == h);
            }
            assert forall|j: int| 0 <= j < out.len() implies {
                &&& (#[trigger] out[j])@.opponent == opponent@
                &&& games.contains_key((out[j]@.host, opponent@))
                &&& games[(out[j]@.host, opponent@)] == out[j]@
            } by {
                let n = from[j];
                assert(game_rows(self.storage).contains_key((rows[n].0@, rows[n].1@)));
            }
            assert forall|j: int, k: int| 0 <= j < k < out.len() implies pair_lt(
                ((#[trigger] out[j])@.host, opponent@),
                ((#[trigger] out[k])@.host, opponent@),
            ) by {
                assert(from[j] < from[k]);
                assert(pair_lt(
                    (rows[from[j]].0@, rows[from[j]].1@),
                    (rows[from[k]].0@, rows[from[k]].1@),
                ));
            }
        }
        out
    }

    /// Whether `actor` may start a match: anyone who is not blacklisted.
    pub fn can_start_match(&self, actor: &str) -> (allowed: bool)
        requires
            self.wf(),
        ensures
            allowed == !self.blacklist().contains(actor@),
    {
        let hooks = match hooks_query(&self.storage) {
            Ok(hooks) => hooks,
            Err(_) => {
                return true;
            },
        };
        let who = actor.to_owned();
        let mut i: usize = 0;
        while i < hooks.len()
            invariant
                0 <= i <= hooks.len(),
                who@ == actor@,
                texts(hooks@) == hooks_of(self.storage),
                forall|j: int| 0 <= j < i ==> (#[trigger] hooks[j])@ != actor@,
            decreases hooks.len() - i,
        {
            if hooks[i] == who {
                assert(texts(hooks@)[i as int] == actor@);
                return false;
            }
            i += 1;
        }
        proof {
            let l = hooks_of(self.storage);
            assert forall|j: int| 0 <= j < l.len() implies l[j] != actor@ by {
                assert(texts(hooks@)[j] == hooks[j]@);
            }
        }
        true
    }

    /// Whether `actor` is the admin. Nobody is while there is no admin.
    pub fn is_admin(&self, actor: &str) -> (yes: bool)
        requires
            self.wf(),
        ensures
            yes == self.has_admin(actor@),
    {
        match admin_get(&self.storage) {
            Ok(Some(admin)) => admin == actor.to_owned(),
            Ok(None) => false,
            Err(_) => false,
        }
    }

    /// The admin, if there is one.
    pub fn query_admin(&self) -> (admin: Option<String>)
        requires
            self.wf(),
        ensures
            opt_text(admin) == self.admin(),
    {
        match admin_get(&self.storage) {
            Ok(admin) => admin,
            Err(_) => None,
        }
    }

    /// What was recorded when the ledger was set up. A ledger that was never
    /// set up has no such record, and the storage says so.
    pub fn state(&self) -> (r: Result<State, ContractError>)
        requires
            self.wf(),
        ensures
            self.owner() is Some ==> (r matches Ok(state) && Some(state.owner@) == self.owner()),
            self.owner() is None ==> r matches Err(ContractError::Std(_)),
    {
        match owner_load(&self.storage) {
            Ok(owner) => Ok(State { owner }),
            Err(e) => Err(ContractError::Std(e)),
        }
    }

    /// The contract's name and version, once they have been recorded.
    pub fn contract_version(&self) -> (v: Option<(String, String)>)
        requires
            self.wf(),
        ensures
            v is Some <==> self.version() is Some,
            v matches Some(v) ==> self.version() == Some((v.0@, v.1@)),
    {
        match version_get(&self.storage) {
            Ok(v) => Some(v),
            Err(_) => None,
        }
    }

    /// Records the contract's name and version. Nothing else changes.
    pub fn set_version(&mut self, name: &str, version: &str) -> (r: Result<(), ContractError>)
        requires
            old(self).wf(),
        ensures
            r is Ok,
            final(self).wf(),
            final(self).version() == Some((name@, version@)),
            final(self).games() == old(self).games(),
            final(self).admin() == old(self).admin(),
            final(self).blacklist() == old(self).blacklist(),
            final(self).owner() == old(self).owner(),
    {
        match version_set(&mut self.storage, name, version) {
            Ok(()) => Ok(()),
            Err(e) => Err(ContractError::Std(e)),
        }
    }

    /// Sets the ledger up: `owner` becomes its owner and `admin` its admin,
    /// with no check on who asks. Matches, blacklist and version stay as
    /// they are.
    pub fn set_up(&mut self, owner: &str, admin: Option<String>) -> (r: Result<(), ContractError>)
        requires
            old(self).wf(),
        ensures
            r is Ok,
            final(self).wf(),
            final(self).owner() == Some(owner@),
            final(self).admin() == opt_text(admin),
            final(self).games() == old(self).games(),
            final(self).blacklist() == old(self).blacklist(),
            final(self).version() == old(self).version(),
    {
        if let Err(e) = owner_save(&mut self.storage, owner) {
            return Err(ContractError::Std(e));
        }
        if let Err(e) = admin_set(&mut self.storage, admin) {
            return Err(ContractError::Std(e));
        }
        Ok(())
    }

    /// Hands adminship to `new_admin`, or to nobody, if `actor` is the
    /// admin. Anyone else is turned down, and nothing changes.
    pub fn transfer_admin(&mut self, new_admin: Option<String>, actor: &str) -> (r: Result<
        (),
        ContractError,
    >)
        requires
            old(self).wf(),
        ensures
            final(self).wf(),
            old(self).transfer_admin_post(*final(self), opt_text(new_admin), actor@, r),
    {
        if !self.is_admin(actor) {
            return Err(ContractError::Unauthorized {});
        }
        if let Err(e) = admin_set(&mut self.storage, new_admin) {
            return Err(ContractError::Std(e));
        }
        Ok(())
    }

    /// Puts `target` on the blacklist, if `actor` is the admin; a target
    /// already on it stays on it. Anyone else is turned down, and nothing
    /// changes.
    pub fn add_to_blacklist(&mut self, target: &str, actor: &str) -> (r: Result<
        (),
        ContractError,
    >)
        requires
            old(self).wf(),
        ensures
            final(self).wf(),
            old(self).add_to_blacklist_post(*final(self), target@, actor@, r),
    {
        if !self.is_admin(actor) {
            return Err(ContractError::Unauthorized {});
        }
        if !self.can_start_match(target) {
            assert(old(self).blacklist().insert(target@) =~= old(self).blacklist());
            return Ok(());
        }
        proof {
            hooks_of(self.storage).lemma_push_to_set_commute(target@);
        }
        if let Err(e) = hooks_add(&mut self.storage, target) {
            return Err(ContractError::Hook(e));
        }
        Ok(())
    }

    /// Takes `target` off the blacklist, if `actor` is the admin; a target
    /// that is not on it stays off it. Anyone else is turned down, and
    /// nothing changes.
    pub fn remove_from_blacklist(&mut self, target: &str, actor: &str) -> (r: Result<
        (),
        ContractError,
    >)
        requires
            old(self).wf(),
        ensures
            final(self).wf(),
            old(self).remove_from_blacklist_post(*final(self), target@, actor@, r),
    {
        if !self.is_admin(actor) {
            return Err(ContractError::Unauthorized {});
        }
        if self.can_start_match(target) {
            assert(old(self).blacklist().remove(target@) =~= old(self).blacklist());
            return Ok(());
        }
        if let Err(e) = hooks_remove(&mut self.storage, target) {
            return Err(ContractError::Hook(e));
        }
        proof {
            let before = hooks_of(old(self).storage);
            let i = choose|i: int|
                {
                    &&& 0 <= i < before.len()
                    &&& before[i] == target@
                    &&& forall|j: int| 0 <= j < i ==> before[j] != target@
                    &&& hooks_slot(self.storage) == Some(#[trigger] before.remove(i))
                };
            lemma_remove_from_set(before, i);
        }
        Ok(())
    }

    /// Starts a match of `host` against `opponent`. A blacklisted host is
    /// turned down, and nothing changes. Nothing asks that the two differ.
    pub fn start(&mut self, host: &str, opponent: &str, host_move: GameMove) -> (r: Result<
        (),
        ContractError,
    >)
        requires
            old(self).wf(),
        ensures
            final(self).wf(),
            old(self).start_post(*final(self), host@, opponent@, host_move, r),
    {
        if !self.can_start_match(host) {
            return Err(ContractError::BlacklistedAddress { addr: host.to_owned() });
        }
        match self.create(host, opponent, host_move) {
            Ok(_) => Ok(()),
            Err(e) => Err(e),
        }
    }

    /// Answers the match that `host` started against `opponent` with
    /// `opp_move`: settles it, takes it out of the store and returns the
    /// result. Without such a match nothing changes.
    pub fn respond(&mut self, host: &str, opponent: &str, opp_move: GameMove) -> (r: Result<
        GameResult,
        ContractError,
    >)
        requires
            old(self).wf(),
        ensures
            final(self).wf(),
            old(self).respond_post(*final(self), host@, opponent@, opp_move, r),
    {
        let mut game = match self.get(host, opponent) {
            Ok(game) => game,
            Err(_) => {
                return Err(ContractError::GameNotFound {});
            },
        };
        game.opp_move = Some(opp_move);
        let result = match get_result(game) {
            Ok(result) => result,
            Err(e) => {
                return Err(e);
            },
        };
        match self.complete_and_remove(host, opponent, opp_move, result) {
            Ok(_) => Ok(result),
            Err(e) => Err(e),
        }
    }
}

/// Taking one entry out of a list without repeats takes its value out of the
/// list's set, and leaves a list without repeats.
proof fn lemma_remove_from_set(l: Seq<Seq<char>>, i: int)
    requires
        l.no_duplicates(),
        0 <= i < l.len(),
    ensures
        l.remove(i).no_duplicates(),
        l.remove(i).to_set() == l.to_set().remove(l[i]),
{
    let r = l.remove(i);
    assert forall|a: int, b: int| 0 <= a < r.len() && 0 <= b < r.len() && a != b implies r[a]
        != r[b] by {
        let a2 = if a < i { a } else { a + 1 };
        let b2 = if b < i { b } else { b + 1 };
        assert(r[a] == l[a2] && r[b] == l[b2]);
    }
    assert forall|x: Seq<char>| r.to_set().contains(x) <==> l.to_set().remove(l[i]).contains(
        x,
    ) by {
        if r.contains(x) {
            let a = choose|a: int| 0 <= a < r.len() && r[a] == x;
            let a2 = if a < i { a } else { a + 1 };
            assert(l[a2] == x);
        }
        if l.contains(x) && x != l[i] {
            let b = choose|b: int| 0 <= b < l.len() && l[b] == x;
            let b2 = if b < i { b } else { b - 1 };
            assert(r[b2] == x);
        }
    }
    assert(r.to_set() =~= l.to_set().remove(l[i]));
}

} // verus!
