//! What holds of the ledger whatever is asked of it, proved from the
//! contracts of its operations.

use crate::contract::execute_post;
use crate::error::ContractError;
use crate::game::{outcome, Game, GameMove, GameResult, GameView};
use crate::ledger::{lists_host_games, lists_opponent_games, Ledger};
use crate::msg::{ExecuteMsg, Response};
use crate::storage::{bytes_lt, pair_lt, text_lt, Pair};
use vstd::utf8::encode_utf8;
use vstd::prelude::*;

verus! {

/// Two equal moves tie.
pub proof fn same_moves_tie(m: GameMove)
    ensures
        outcome(m, m) == GameResult::Tie,
{
}

/// The host wins a pair of moves exactly when the opponent wins the pair
/// with the moves exchanged; and a pair ties exactly when the exchanged pair
/// does.
pub proof fn outcome_antisymmetric(a: GameMove, b: GameMove)
    ensures
        outcome(a, b) == GameResult::HostWins <==> outcome(b, a) == GameResult::OpponentWins,
        outcome(a, b) == GameResult::OpponentWins <==> outcome(b, a) == GameResult::HostWins,
        outcome(a, b) == GameResult::Tie <==> outcome(b, a) == GameResult::Tie,
        outcome(a, b) == GameResult::Tie <==> a == b,
{
}

/// The opponent's move and the result come and go together: a match that
/// awaits its opponent has neither, a completed match has both, and so has
/// every match that the ledger stores or hands out on completion.
pub proof fn moves_and_results_are_paired(
    ledger: Ledger,
    k: Pair,
    opp_move: GameMove,
    result: GameResult,
)
    requires
        ledger.wf(),
        ledger.games().contains_key(k),
    ensures
        ledger.games()[k].paired(),
        ledger.games()[k].completed(opp_move, result).paired(),
        !ledger.games()[k].completed(opp_move, result).open(),
{
    ledger.stored_matches_are_open();
}

/// A blacklisted host cannot start a match: the request fails with
/// `BlacklistedAddress`, naming the host, and the ledger is as before.
pub proof fn blacklisted_start_changes_nothing(
    before: Ledger,
    after: Ledger,
    host: Seq<char>,
    opponent: Seq<char>,
    host_move: GameMove,
    started: Result<(), ContractError>,
)
    requires
        before.start_post(after, host, opponent, host_move, started),
        before.blacklist().contains(host),
    ensures
        started matches Err(ContractError::BlacklistedAddress { addr }) && addr@ == host,
        after == before,
        after.games() == before.games(),
{
}

/// A match that was started can be got, and awaits its opponent: it holds
/// the host's move, no move of the opponent and no result.
pub proof fn started_match_is_open(
    before: Ledger,
    after: Ledger,
    host: Seq<char>,
    opponent: Seq<char>,
    host_move: GameMove,
    started: Result<(), ContractError>,
    got: Result<Game, ContractError>,
)
    requires
        before.start_post(after, host, opponent, host_move, started),
        started is Ok,
        after.get_post(host, opponent, got),
    ensures
        got matches Ok(game) && game@ == GameView::started(host, opponent, host_move),
        got matches Ok(game) && game.opp_move is None && game.result is None,
{
}

/// Answering a started match settles it by the two moves and removes it:
/// getting it afterwards fails with `GameNotFound`.
pub proof fn answered_match_is_settled_and_gone(
    before: Ledger,
    open: Ledger,
    after: Ledger,
    host: Seq<char>,
    opponent: Seq<char>,
    host_move: GameMove,
    opp_move: GameMove,
    started: Result<(), ContractError>,
    answered: Result<GameResult, ContractError>,
    got: Result<Game, ContractError>,
)
    requires
        before.start_post(open, host, opponent, host_move, started),
        started is Ok,
        open.respond_post(after, host, opponent, opp_move, answered),
        after.get_post(host, opponent, got),
    ensures
        answered == Ok::<GameResult, ContractError>(outcome(host_move, opp_move)),
        !after.games().contains_key((host, opponent)),
        got matches Err(ContractError::GameNotFound {}),
        after.games() == before.games().remove((host, opponent)),
{
    assert(after.games() =~= before.games().remove((host, opponent)));
}

/// Answering where no match is stored fails with `GameNotFound` and leaves
/// the ledger as it was.
pub proof fn respond_without_match_fails(
    before: Ledger,
    after: Ledger,
    host: Seq<char>,
    opponent: Seq<char>,
    opp_move: GameMove,
    answered: Result<GameResult, ContractError>,
)
    requires
        before.respond_post(after, host, opponent, opp_move, answered),
        !before.games().contains_key((host, opponent)),
    ensures
        answered matches Err(ContractError::GameNotFound {}),
        after == before,
{
}

/// A match cannot be answered twice: the second answer finds no match.
pub proof fn second_answer_fails(
    before: Ledger,
    once: Ledger,
    twice: Ledger,
    host: Seq<char>,
    opponent: Seq<char>,
    first_move: GameMove,
    second_move: GameMove,
    first: Result<GameResult, ContractError>,
    second: Result<GameResult, ContractError>,
)
    requires
        before.respond_post(once, host, opponent, first_move, first),
        once.respond_post(twice, host, opponent, second_move, second),
    ensures
        second matches Err(ContractError::GameNotFound {}),
        twice == once,
{
}

/// No byte string comes before itself.
pub proof fn bytes_lt_irreflexive(a: Seq<u8>)
    ensures
        !bytes_lt(a, a),
{
}

/// Of two byte strings at most one comes before the other.
pub proof fn bytes_lt_asymmetric(a: Seq<u8>, b: Seq<u8>)
    ensures
        !(bytes_lt(a, b) && bytes_lt(b, a)),
{
    if bytes_lt(a, b) && bytes_lt(b, a) {
        let k = choose|k: int|
            0 <= k <= a.len() && k < b.len() && #[trigger] a.subrange(0, k) == b.subrange(0, k)
                && (k == a.len() || a[k] < b[k]);
        let m = choose|m: int|
            0 <= m <= b.len() && m < a.len() && #[trigger] b.subrange(0, m) == a.subrange(0, m)
                && (m == b.len() || b[m] < a[m]);
        if k < m {
            assert(a.subrange(0, m)[k] == a[k]);
            assert(b.subrange(0, m)[k] == b[k]);
        } else if m < k {
            assert(a.subrange(0, k)[m] == a[m]);
            assert(b.subrange(0, k)[m] == b[m]);
        }
    }
}

/// Of two pairs at most one comes before the other in the store's order,
/// and no pair comes before itself.
pub proof fn pair_lt_asymmetric(a: Pair, b: Pair)
    ensures
        !(pair_lt(a, b) && pair_lt(b, a)),
        !pair_lt(a, a),
{
    bytes_lt_asymmetric(encode_utf8(a.0), encode_utf8(b.0));
    bytes_lt_asymmetric(encode_utf8(a.1), encode_utf8(b.1));
    bytes_lt_irreflexive(encode_utf8(a.0));
    bytes_lt_irreflexive(encode_utf8(a.1));
    bytes_lt_irreflexive(encode_utf8(b.0));
}

/// Two sequences that ascend strictly in one order and hold the same values
/// are the same sequence.
proof fn lemma_ascending_agree<K>(a: Seq<K>, b: Seq<K>, lt: spec_fn(K, K) -> bool, n: int)
    requires
        forall|x: K| !#[trigger] lt(x, x),
        forall|x: K, y: K| !(#[trigger] lt(x, y) && #[trigger] lt(y, x)),
        forall|i: int, j: int| 0 <= i < j < a.len() ==> lt(#[trigger] a[i], #[trigger] a[j]),
        forall|i: int, j: int| 0 <= i < j < b.len() ==> lt(#[trigger] b[i], #[trigger] b[j]),
        forall|i: int| 0 <= i < a.len() ==> b.contains(#[trigger] a[i]),
        forall|j: int| 0 <= j < b.len() ==> a.contains(#[trigger] b[j]),
        0 <= n <= a.len(),
        n <= b.len(),
    ensures
        forall|i: int| 0 <= i < n ==> a[i] == b[i],
    decreases n,
{
    if n > 0 {
        lemma_ascending_agree(a, b, lt, n - 1);
        let i = n - 1;
        if a[i] != b[i] {
            assert(b.contains(a[i]));
            let j = choose|j: int| 0 <= j < b.len() && b[j] == a[i];
            if j < i {
                assert(lt(a[j], a[i]));
            }
            assert(lt(b[i], b[j]));
            assert(a.contains(b[i]));
            let k = choose|k: int| 0 <= k < a.len() && a[k] == b[i];
            if k < i {
                assert(lt(b[k], b[i]));
            }
            assert(lt(a[i], a[k]));
        }
    }
}

/// Two sequences that ascend strictly in one order and hold the same values
/// have the same length.
proof fn lemma_ascending_same_len<K>(a: Seq<K>, b: Seq<K>, lt: spec_fn(K, K) -> bool)
    requires
        forall|x: K| !#[trigger] lt(x, x),
        forall|x: K, y: K| !(#[trigger] lt(x, y) && #[trigger] lt(y, x)),
        forall|i: int, j: int| 0 <= i < j < a.len() ==> lt(#[trigger] a[i], #[trigger] a[j]),
        forall|i: int, j: int| 0 <= i < j < b.len() ==> lt(#[trigger] b[i], #[trigger] b[j]),
        forall|i: int| 0 <= i < a.len() ==> b.contains(#[trigger] a[i]),
        forall|j: int| 0 <= j < b.len() ==> a.contains(#[trigger] b[j]),
    ensures
        a.len() == b.len(),
{
    if a.len() > b.len() {
        lemma_ascending_agree(a, b, lt, b.len() as int);
        let m = b.len() as int;
        assert(b.contains(a[m]));
        let j = choose|j: int| 0 <= j < b.len() && b[j] == a[m];
        assert(lt(a[j], a[m]));
    } else if b.len() > a.len() {
        lemma_ascending_agree(a, b, lt, a.len() as int);
        let m = a.len() as int;
        assert(a.contains(b[m]));
        let j = choose|j: int| 0 <= j < a.len() && a[j] == b[m];
        assert(lt(b[j], b[m]));
    }
}

/// The scan by a host is determined by the store: any two listings of a
/// host's matches hold the same matches in the same order.
pub proof fn host_listing_is_unique(
    games: Map<Pair, GameView>,
    host: Seq<char>,
    v: Seq<Game>,
    w: Seq<Game>,
)
    requires
        lists_host_games(games, host, v),
        lists_host_games(games, host, w),
    ensures
        v.len() == w.len(),
        forall|i: int| 0 <= i < v.len() ==> (#[trigger] v[i])@ == w[i]@,
{
    let a = v.map_values(|g: Game| g@.opponent);
    let b = w.map_values(|g: Game| g@.opponent);
    let lt = |x: Seq<char>, y: Seq<char>| text_lt(x, y);
    assert forall|x: Seq<char>| !#[trigger] lt(x, x) by {
        bytes_lt_irreflexive(encode_utf8(x));
    }
    assert forall|x: Seq<char>, y: Seq<char>| !(#[trigger] lt(x, y) && #[trigger] lt(y, x)) by {
        bytes_lt_asymmetric(encode_utf8(x), encode_utf8(y));
    }
    assert forall|i: int, j: int| 0 <= i < j < a.len() implies lt(
        #[trigger] a[i],
        #[trigger] a[j],
    ) by {
        assert(text_lt(v[i]@.opponent, v[j]@.opponent));
    }
    assert forall|i: int, j: int| 0 <= i < j < b.len() implies lt(
        #[trigger] b[i],
        #[trigger] b[j],
    ) by {
        assert(text_lt(w[i]@.opponent, w[j]@.opponent));
    }
    assert forall|i: int| 0 <= i < a.len() implies b.contains(#[trigger] a[i]) by {
        assert(games.contains_key((host, v[i]@.opponent)));
        let j = choose|j: int| 0 <= j < w.len() && (#[trigger] w[j])@.opponent == v[i]@.opponent;
        assert(b[j] == a[i]);
    }
    assert forall|j: int| 0 <= j < b.len() implies a.contains(#[trigger] b[j]) by {
        assert(games.contains_key((host, w[j]@.opponent)));
        let i = choose|i: int| 0 <= i < v.len() && (#[trigger] v[i])@.opponent == w[j]@.opponent;
        assert(a[i] == b[j]);
    }
    lemma_ascending_same_len(a, b, lt);
    lemma_ascending_agree(a, b, lt, a.len() as int);
    assert forall|i: int| 0 <= i < v.len() implies (#[trigger] v[i])@ == w[i]@ by {
        assert(a[i] == b[i]);
        assert(v[i]@ == games[(host, v[i]@.opponent)]);
        assert(w[i]@ == games[(host, w[i]@.opponent)]);
    }
}

/// The scan by an opponent is determined by the store: any two listings of
/// the matches against an opponent hold the same matches in the same order.
pub proof fn opponent_listing_is_unique(
    games: Map<Pair, GameView>,
    opponent: Seq<char>,
    v: Seq<Game>,
    w: Seq<Game>,
)
    requires
        lists_opponent_games(games, opponent, v),
        lists_opponent_games(games, opponent, w),
    ensures
        v.len() == w.len(),
        forall|i: int| 0 <= i < v.len() ==> (#[trigger] v[i])@ == w[i]@,
{
    let a = v.map_values(|g: Game| g@.host);
    let b = w.map_values(|g: Game| g@.host);
    let lt = |x: Seq<char>, y: Seq<char>| pair_lt((x, opponent), (y, opponent));
    assert forall|x: Seq<char>| !#[trigger] lt(x, x) by {
        pair_lt_asymmetric((x, opponent), (x, opponent));
    }
    assert forall|x: Seq<char>, y: Seq<char>| !(#[trigger] lt(x, y) && #[trigger] lt(y, x)) by {
        pair_lt_asymmetric((x, opponent), (y, opponent));
    }
    assert forall|i: int, j: int| 0 <= i < j < a.len() implies lt(
        #[trigger] a[i],
        #[trigger] a[j],
    ) by {
        assert(pair_lt((v[i]@.host, opponent), (v[j]@.host, opponent)));
    }
    assert forall|i: int, j: int| 0 <= i < j < b.len() implies lt(
        #[trigger] b[i],
        #[trigger] b[j],
    ) by {
        assert(pair_lt((w[i]@.host, opponent), (w[j]@.host, opponent)));
    }
    assert forall|i: int| 0 <= i < a.len() implies b.contains(#[trigger] a[i]) by {
        assert(games.contains_key((v[i]@.host, opponent)));
        let j = choose|j: int| 0 <= j < w.len() && (#[trigger] w[j])@.host == v[i]@.host;
        assert(b[j] == a[i]);
    }
    assert forall|j: int| 0 <= j < b.len() implies a.contains(#[trigger] b[j]) by {
        assert(games.contains_key((w[j]@.host, opponent)));
        let i = choose|i: int| 0 <= i < v.len() && (#[trigger] v[i])@.host == w[j]@.host;
        assert(a[i] == b[j]);
    }
    lemma_ascending_same_len(a, b, lt);
    lemma_ascending_agree(a, b, lt, a.len() as int);
    assert forall|i: int| 0 <= i < v.len() implies (#[trigger] v[i])@ == w[i]@ by {
        assert(a[i] == b[i]);
        assert(v[i]@ == games[(v[i]@.host, opponent)]);
        assert(w[i]@ == games[(w[i]@.host, opponent)]);
    }
}

/// After a host with no open match has started one against each of two
/// different opponents, the scan by that host lists exactly these two, the
/// one whose opponent comes first in byte order first.
pub proof fn two_starts_scan_by_host(
    before: Ledger,
    one: Ledger,
    both: Ledger,
    host: Seq<char>,
    first_opponent: Seq<char>,
    second_opponent: Seq<char>,
    first_move: GameMove,
    second_move: GameMove,
    first: Result<(), ContractError>,
    second: Result<(), ContractError>,
    listed: Seq<Game>,
)
    requires
        forall|o: Seq<char>| !before.games().contains_key((host, o)),
        first_opponent != second_opponent,
        before.start_post(one, host, first_opponent, first_move, first),
        first is Ok,
        one.start_post(both, host, second_opponent, second_move, second),
        second is Ok,
        lists_host_games(both.games(), host, listed),
    ensures
        listed.len() == 2,
        text_lt(listed[0]@.opponent, listed[1]@.opponent),
        listed[0]@.open() && listed[1]@.open(),
        listed[0]@.opponent == first_opponent ==> {
            &&& listed[0]@ == GameView::started(host, first_opponent, first_move)
            &&& listed[1]@ == GameView::started(host, second_opponent, second_move)
        },
        listed[0]@.opponent != first_opponent ==> {
            &&& listed[0]@ == GameView::started(host, second_opponent, second_move)
            &&& listed[1]@ == GameView::started(host, first_opponent, first_move)
        },
{
    let games = both.games();
    assert(games.contains_key((host, first_opponent)));
    assert(games.contains_key((host, second_opponent)));
    let i = choose|i: int|
        0 <= i < listed.len() && (#[trigger] listed[i])@.opponent == first_opponent;
    let j = choose|j: int|
        0 <= j < listed.len() && (#[trigger] listed[j])@.opponent == second_opponent;
    assert(i != j);
    bytes_lt_irreflexive(encode_utf8(first_opponent));
    bytes_lt_irreflexive(encode_utf8(second_opponent));
    assert forall|n: int| 0 <= n < listed.len() implies (#[trigger] listed[n])@.opponent
        == first_opponent || listed[n]@.opponent == second_opponent by {
        assert(games.contains_key((host, listed[n]@.opponent)));
    }
    if listed.len() >= 3 {
        assert(text_lt(listed[0]@.opponent, listed[1]@.opponent));
        assert(text_lt(listed[1]@.opponent, listed[2]@.opponent));
        assert(text_lt(listed[0]@.opponent, listed[2]@.opponent));
        assert(false);
    }
    assert(listed.len() == 2);
    assert(text_lt(listed[0]@.opponent, listed[1]@.opponent));
}

/// Matches that two hosts have started against one opponent are both in the
/// scan by that opponent, whichever host they are stored under.
pub proof fn scan_by_opponent_spans_hosts(
    before: Ledger,
    one: Ledger,
    both: Ledger,
    first_host: Seq<char>,
    second_host: Seq<char>,
    opponent: Seq<char>,
    first_move: GameMove,
    second_move: GameMove,
    first: Result<(), ContractError>,
    second: Result<(), ContractError>,
    listed: Seq<Game>,
)
    requires
        first_host != second_host,
        before.start_post(one, first_host, opponent, first_move, first),
        first is Ok,
        one.start_post(both, second_host, opponent, second_move, second),
        second is Ok,
        lists_opponent_games(both.games(), opponent, listed),
    ensures
        exists|i: int, j: int|
            {
                &&& 0 <= i < listed.len()
                &&& 0 <= j < listed.len()
                &&& i != j
                &&& (#[trigger] listed[i])@ == GameView::started(first_host, opponent, first_move)
                &&& (#[trigger] listed[j])@ == GameView::started(
                    second_host,
                    opponent,
                    second_move,
                )
            },
{
    let games = both.games();
    assert(games.contains_key((first_host, opponent)));
    assert(games.contains_key((second_host, opponent)));
    let i = choose|i: int| 0 <= i < listed.len() && (#[trigger] listed[i])@.host == first_host;
    let j = choose|j: int| 0 <= j < listed.len() && (#[trigger] listed[j])@.host == second_host;
    assert(listed[i]@ == games[(first_host, opponent)]);
    assert(listed[j]@ == games[(second_host, opponent)]);
}

/// Adminship changes hands only at the admin's request. From anyone else
/// the request fails with `Unauthorized` and the ledger is as before; from
/// the admin it succeeds, and from then on the admin is the one named.
pub proof fn admin_transfer_is_guarded(
    before: Ledger,
    after: Ledger,
    new_admin: Option<Seq<char>>,
    actor: Seq<char>,
    r: Result<(), ContractError>,
)
    requires
        before.transfer_admin_post(after, new_admin, actor, r),
    ensures
        !before.has_admin(actor) ==> {
            &&& r matches Err(ContractError::Unauthorized {})
            &&& after == before
            &&& after.admin() == before.admin()
        },
        before.has_admin(actor) ==> {
            &&& r is Ok
            &&& forall|who: Seq<char>| after.has_admin(who) <==> new_admin == Some(who)
        },
{
}

/// While there is no admin, nobody is the admin, and every admin-only
/// request fails with `Unauthorized` and changes nothing.
pub proof fn without_admin_nobody_is_authorized(
    before: Ledger,
    after: Ledger,
    target: Seq<char>,
    actor: Seq<char>,
    r: Result<(), ContractError>,
)
    requires
        before.admin() is None,
        before.add_to_blacklist_post(after, target, actor, r)
            || before.remove_from_blacklist_post(after, target, actor, r)
            || before.transfer_admin_post(after, Some(target), actor, r),
    ensures
        !before.has_admin(actor),
        r matches Err(ContractError::Unauthorized {}),
        after == before,
{
}

/// A request either takes effect or fails and changes nothing: whatever the
/// request and whoever sends it, a failure leaves the ledger as it was.
pub proof fn failed_request_changes_nothing(
    before: Ledger,
    after: Ledger,
    sender: Seq<char>,
    msg: ExecuteMsg,
    r: Result<Response, ContractError>,
)
    requires
        execute_post(before, after, sender, msg, r),
        r is Err,
    ensures
        after == before,
{
}

/// Blacklisting is idempotent: a second addition of an identity, or a
/// second removal, succeeds and leaves the blacklist as the first left it.
pub proof fn blacklisting_twice_is_once(
    before: Ledger,
    once: Ledger,
    twice: Ledger,
    target: Seq<char>,
    actor: Seq<char>,
    first: Result<(), ContractError>,
    second: Result<(), ContractError>,
)
    requires
        before.has_admin(actor),
        before.add_to_blacklist_post(once, target, actor, first) && once.add_to_blacklist_post(
            twice,
            target,
            actor,
            second,
        ) || before.remove_from_blacklist_post(once, target, actor, first)
            && once.remove_from_blacklist_post(twice, target, actor, second),
    ensures
        first is Ok,
        second is Ok,
        twice.blacklist() == once.blacklist(),
{
    assert(twice.blacklist() =~= once.blacklist());
}

/// A blacklist entry made after a match was started leaves the match as it
/// is: it can still be answered.
pub proof fn blacklist_spares_open_matches(
    before: Ledger,
    listed: Ledger,
    after: Ledger,
    host: Seq<char>,
    opponent: Seq<char>,
    actor: Seq<char>,
    opp_move: GameMove,
    added: Result<(), ContractError>,
    answered: Result<GameResult, ContractError>,
)
    requires
        before.games().contains_key((host, opponent)),
        before.add_to_blacklist_post(listed, host, actor, added),
        listed.respond_post(after, host, opponent, opp_move, answered),
    ensures
        answered == Ok::<GameResult, ContractError>(
            outcome(before.games()[(host, opponent)].host_move, opp_move),
        ),
{
}

} // verus!
