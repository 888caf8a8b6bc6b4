//! The key-value store beneath the ledger, and everything that is taken on
//! trust about it.
//!
//! The ledger keeps its records in a `cosmwasm_std::MemoryStorage`, through
//! the typed map of `cw-storage-plus`, the admin and hook controllers of
//! `cw-controllers` and the version record of `cw2`. None of that code is
//! verified here. Each function below makes one outside call and states
//! what that call does, in terms of a few named projections of the storage;
//! the rest of the crate is proved from these statements alone.

use cosmwasm_std::testing::{MockApi, MockQuerier};
use cosmwasm_std::{
    Addr, Deps, DepsMut, Empty, MemoryStorage, Order, QuerierWrapper, StdError,
};
use cw_controllers::{Admin, HookError, Hooks};
use vstd::prelude::*;
use vstd::utf8::encode_utf8;

verus! {

/// The in-memory key-value store of `cosmwasm_std`; opaque to the verifier.
#[verifier::external_type_specification]
#[verifier::external_body]
pub struct ExMemoryStorage(MemoryStorage);

/// The error of `cosmwasm_std` calls; carried through, never inspected.
#[verifier::external_type_specification]
#[verifier::external_body]
pub struct ExStdError(StdError);

/// The error of `cw_controllers::Hooks`; carried through, never inspected.
#[verifier::external_type_specification]
#[verifier::external_body]
pub struct ExHookError(HookError);

/// A stored match, as the storage holds it: the code of the host's move, and
/// the codes of the opponent's move and of the result once they exist.
pub type Row = (u8, Option<u8>, Option<u8>);

/// A (host, opponent) pair, the key of the game table.
pub type Pair = (Seq<char>, Seq<char>);

/// The game table that a storage holds: for each pair with a readable record
/// under the table's prefix, the row stored there.
pub uninterp spec fn game_rows(s: MemoryStorage) -> Map<Pair, Row>;

/// The admin record of a storage: `None` while nothing readable is stored,
/// else the admin that was set, which may itself be absent.
pub uninterp spec fn admin_slot(s: MemoryStorage) -> Option<Option<Seq<char>>>;

/// The hook list of a storage, in stored order: `None` while nothing
/// readable is stored.
pub uninterp spec fn hooks_slot(s: MemoryStorage) -> Option<Seq<Seq<char>>>;

/// The owner record of a storage: `None` while nothing readable is stored.
pub uninterp spec fn owner_slot(s: MemoryStorage) -> Option<Seq<char>>;

/// The version record of a storage, as the contract's name and its version:
/// `None` while nothing readable is stored.
pub uninterp spec fn version_slot(s: MemoryStorage) -> Option<(Seq<char>, Seq<char>)>;

/// Whether every record of a storage reads back: each record under the game
/// table's prefix has a key that splits into a host and an opponent, both
/// UTF-8, and a value that parses as a row; and the admin, hook, owner and
/// version records, where present, parse as what they are.
pub uninterp spec fn storage_sound(s: MemoryStorage) -> bool;

/// The longest host, in bytes of UTF-8, that the game table can key: the
/// table prefixes the host with its length in two bytes.
pub const MAX_HOST_BYTES: usize = 0xFFFF;

/// The number of bytes that a text takes in UTF-8.
pub open spec fn byte_len(text: Seq<char>) -> nat {
    encode_utf8(text).len()
}

/// The order of byte strings in the storage: at the first place where two
/// differ the smaller byte decides, and a proper prefix comes first.
pub open spec fn bytes_lt(a: Seq<u8>, b: Seq<u8>) -> bool {
    exists|k: int|
        0 <= k <= a.len() && k < b.len() && #[trigger] a.subrange(0, k) == b.subrange(0, k) && (k
            == a.len() || a[k] < b[k])
}

/// The order of texts by their bytes in UTF-8.
pub open spec fn text_lt(a: Seq<char>, b: Seq<char>) -> bool {
    bytes_lt(encode_utf8(a), encode_utf8(b))
}

/// The order in which the game table walks its keys. A key is stored as the
/// host's length, the host and the opponent, so a shorter host comes first;
/// among hosts of one length their bytes decide, then the opponent's.
pub open spec fn pair_lt(a: Pair, b: Pair) -> bool {
    ||| byte_len(a.0) < byte_len(b.0)
    ||| byte_len(a.0) == byte_len(b.0) && text_lt(a.0, b.0)
    ||| a.0 == b.0 && text_lt(a.1, b.1)
}

/// What a storage holds apart from its game table is the same in both, and
/// the second reads back if the first does.
pub open spec fn beside_games_same(before: MemoryStorage, after: MemoryStorage) -> bool {
    &&& admin_slot(after) == admin_slot(before)
    &&& hooks_slot(after) == hooks_slot(before)
    &&& owner_slot(after) == owner_slot(before)
    &&& version_slot(after) == version_slot(before)
    &&& storage_sound(before) ==> storage_sound(after)
}

/// What a storage holds apart from its admin record is the same in both, and
/// the second reads back if the first does.
pub open spec fn beside_admin_same(before: MemoryStorage, after: MemoryStorage) -> bool {
    &&& game_rows(after) == game_rows(before)
    &&& hooks_slot(after) == hooks_slot(before)
    &&& owner_slot(after) == owner_slot(before)
    &&& version_slot(after) == version_slot(before)
    &&& storage_sound(before) ==> storage_sound(after)
}

/// What a storage holds apart from its hook list is the same in both, and
/// the second reads back if the first does.
pub open spec fn beside_hooks_same(before: MemoryStorage, after: MemoryStorage) -> bool {
    &&& game_rows(after) == game_rows(before)
    &&& admin_slot(after) == admin_slot(before)
    &&& owner_slot(after) == owner_slot(before)
    &&& version_slot(after) == version_slot(before)
    &&& storage_sound(before) ==> storage_sound(after)
}

/// What a storage holds apart from its owner record is the same in both, and
/// the second reads back if the first does.
pub open spec fn beside_owner_same(before: MemoryStorage, after: MemoryStorage) -> bool {
    &&& game_rows(after) == game_rows(before)
    &&& admin_slot(after) == admin_slot(before)
    &&& hooks_slot(after) == hooks_slot(before)
    &&& version_slot(after) == version_slot(before)
    &&& storage_sound(before) ==> storage_sound(after)
}

/// What a storage holds apart from its version record is the same in both,
/// and the second reads back if the first does.
pub open spec fn beside_version_same(before: MemoryStorage, after: MemoryStorage) -> bool {
    &&& game_rows(after) == game_rows(before)
    &&& admin_slot(after) == admin_slot(before)
    &&& hooks_slot(after) == hooks_slot(before)
    &&& owner_slot(after) == owner_slot(before)
    &&& storage_sound(before) ==> storage_sound(after)
}

/// The empty game table.
pub open spec fn no_rows() -> Map<Pair, Row> {
    Map::empty()
}

/// The view of an optional text.
pub open spec fn opt_text(t: Option<String>) -> Option<Seq<char>> {
    match t {
        Some(t) => Some(t@),
        None => None,
    }
}

/// The hook list of a storage, empty while none is stored.
pub open spec fn hooks_of(s: MemoryStorage) -> Seq<Seq<char>> {
    match hooks_slot(s) {
        Some(l) => l,
        None => Seq::empty(),
    }
}

/// The texts of a vector of strings.
pub open spec fn texts(v: Seq<String>) -> Seq<Seq<char>> {
    v.map_values(|t: String| t@)
}

/// `v` lists the rows that `rows` holds for `host`: every entry of `v` is a
/// row of the table, every row of the table under `host` is an entry, and
/// the opponents ascend by their bytes.
pub open spec fn lists_host(
    rows: Map<Pair, Row>,
    host: Seq<char>,
    v: Seq<(String, Row)>,
) -> bool {
    &&& forall|i: int|
        0 <= i < v.len() ==> rows.contains_key((host, (#[trigger] v[i]).0@)) && rows[(
            host,
            v[i].0@,
        )] == v[i].1
    &&& forall|o: Seq<char>| #[trigger]
        rows.contains_key((host, o)) ==> exists|i: int|
            0 <= i < v.len() && (#[trigger] v[i]).0@ == o
    &&& forall|i: int, j: int|
        0 <= i < j < v.len() ==> text_lt((#[trigger] v[i]).0@, (#[trigger] v[j]).0@)
}

/// `v` lists all the rows that `rows` holds: every entry of `v` is a row of
/// the table, every row of the table is an entry, and the keys ascend in the
/// table's order.
pub open spec fn lists_all(rows: Map<Pair, Row>, v: Seq<(String, String, Row)>) -> bool {
    &&& forall|i: int|
        0 <= i < v.len() ==> rows.contains_key(((#[trigger] v[i]).0@, v[i].1@)) && rows[(
            v[i].0@,
            v[i].1@,
        )] == v[i].2
    &&& forall|k: Pair| #[trigger]
        rows.contains_key(k) ==> exists|i: int|
            0 <= i < v.len() && (#[trigger] v[i]).0@ == k.0 && v[i].1@ == k.1
    &&& forall|i: int, j: int|
        0 <= i < j < v.len() ==> pair_lt(
            ((#[trigger] v[i]).0@, v[i].1@),
            ((#[trigger] v[j]).0@, v[j].1@),
        )
}

/// A fresh storage, from `MemoryStorage::new`: it holds no record at all.
#[verifier::external_body]
pub(crate) fn storage_new() -> (s: MemoryStorage)
    ensures
        storage_sound(s),
        game_rows(s) == no_rows(),
        admin_slot(s) is None,
        hooks_slot(s) is None,
        owner_slot(s) is None,
        version_slot(s) is None,
{
    MemoryStorage::new()
}

/// Saves a row, through `cw_storage_plus::Map::save`. The call succeeds;
/// afterwards the table holds the row under the pair, and nothing else in
/// the storage has changed. The outside call panics on a host too long to
/// key.
#[verifier::external_body]
pub(crate) fn game_save(s: &mut MemoryStorage, host: &str, opponent: &str, row: &Row) -> (r:
    Result<(), StdError>)
    requires
        byte_len(host@) <= MAX_HOST_BYTES,
    ensures
        r is Ok,
        game_rows(*final(s)) == game_rows(*old(s)).insert((host@, opponent@), *row),
        beside_games_same(*old(s), *final(s)),
{
    cw_storage_plus::Map::<(&Addr, &Addr), Row>::new("games").save(
        s,
        (&Addr::unchecked(host), &Addr::unchecked(opponent)),
        row,
    )
}

/// Loads a row, through `cw_storage_plus::Map::load`. The call succeeds
/// exactly when the table holds a row under the pair, and returns that row.
#[verifier::external_body]
pub(crate) fn game_load(s: &MemoryStorage, host: &str, opponent: &str) -> (r: Result<
    Row,
    StdError,
>)
    requires
        byte_len(host@) <= MAX_HOST_BYTES,
    ensures
        r is Ok <==> game_rows(*s).contains_key((host@, opponent@)),
        r matches Ok(row) ==> row == game_rows(*s)[(host@, opponent@)],
{
    cw_storage_plus::Map::<(&Addr, &Addr), Row>::new("games").load(
        s,
        (&Addr::unchecked(host), &Addr::unchecked(opponent)),
    )
}

/// Removes a row, through `cw_storage_plus::Map::remove`: afterwards the
/// table holds nothing under the pair, and nothing else has changed.
#[verifier::external_body]
pub(crate) fn game_remove(s: &mut MemoryStorage, host: &str, opponent: &str)
    requires
        byte_len(host@) <= MAX_HOST_BYTES,
    ensures
        game_rows(*final(s)) == game_rows(*old(s)).remove((host@, opponent@)),
        beside_games_same(*old(s), *final(s)),
{
    cw_storage_plus::Map::<(&Addr, &Addr), Row>::new("games").remove(
        s,
        (&Addr::unchecked(host), &Addr::unchecked(opponent)),
    )
}

/// The rows of one host, through `cw_storage_plus::Map::prefix` and
/// `Prefix::range` in ascending order, collected. On a storage that reads
/// back the call succeeds and lists the host's rows, each with its
/// opponent, in the order of the opponents' bytes.
#[verifier::external_body]
pub(crate) fn game_rows_of_host(s: &MemoryStorage, host: &str) -> (r: Result<
    Vec<(String, Row)>,
    StdError,
>)
    requires
        storage_sound(*s),
        byte_len(host@) <= MAX_HOST_BYTES,
    ensures
        r is Ok,
        r matches Ok(v) ==> lists_host(game_rows(*s), host@, v@),
{
    cw_storage_plus::Map::<(&Addr, &Addr), Row>::new("games")
        .prefix(&Addr::unchecked(host))
        .range(s, None, None, Order::Ascending)
        .map(|item| item.map(|(opponent, row)| (opponent.into_string(), row)))
        .collect()
}

/// All rows, through `cw_storage_plus::Map::range` in ascending order,
/// collected. On a storage that reads back the call succeeds and lists
/// every row with its host and opponent, in the table's key order.
#[verifier::external_body]
pub(crate) fn game_rows_all(s: &MemoryStorage) -> (r: Result<Vec<(String, String, Row)>, StdError>)
    requires
        storage_sound(*s),
    ensures
        r is Ok,
        r matches Ok(v) ==> lists_all(game_rows(*s), v@),
{
    cw_storage_plus::Map::<(&Addr, &Addr), Row>::new("games")
        .range(s, None, None, Order::Ascending)
        .map(|item| item.map(|((h, o), row)| (h.into_string(), o.into_string(), row)))
        .collect()
}

/// Sets the admin, through `cw_controllers::Admin::set`, which checks
/// nothing. The call succeeds; afterwards the admin record holds `admin`,
/// and nothing else has changed.
#[verifier::external_body]
pub(crate) fn admin_set(s: &mut MemoryStorage, admin: Option<String>) -> (r: Result<(), StdError>)
    ensures
        r is Ok,
        admin_slot(*final(s)) == Some(opt_text(admin)),
        beside_admin_same(*old(s), *final(s)),
{
    Admin::new("admin").set(
        DepsMut {
            storage: s,
            api: &MockApi::default(),
            querier: QuerierWrapper::<Empty>::new(&MockQuerier::default()),
        },
        admin.map(Addr::unchecked),
    )
}

/// Reads the admin, through `cw_controllers::Admin::get`. The call succeeds
/// exactly when an admin record is stored, and returns what it holds.
#[verifier::external_body]
pub(crate) fn admin_get(s: &MemoryStorage) -> (r: Result<Option<String>, StdError>)
    ensures
        r is Ok <==> admin_slot(*s) is Some,
        r matches Ok(admin) ==> admin_slot(*s) == Some(opt_text(admin)),
{
    Admin::new("admin").get(
        Deps {
            storage: s,
            api: &MockApi::default(),
            querier: QuerierWrapper::<Empty>::new(&MockQuerier::default()),
        },
    ).map(|admin| admin.map(String::from))
}

/// Reads the hook list, through `cw_controllers::Hooks::query_hooks`. On a
/// storage that reads back the call succeeds and returns the stored list,
/// or an empty one while none is stored.
#[verifier::external_body]
pub(crate) fn hooks_query(s: &MemoryStorage) -> (r: Result<Vec<String>, StdError>)
    requires
        storage_sound(*s),
    ensures
        r is Ok,
        r matches Ok(v) ==> texts(v@) == hooks_of(*s),
{
    Hooks::new("hooks").query_hooks(
        Deps {
            storage: s,
            api: &MockApi::default(),
            querier: QuerierWrapper::<Empty>::new(&MockQuerier::default()),
        },
    ).map(|response| response.hooks)
}

/// Adds a hook, through `cw_controllers::Hooks::add_hook`. On a storage
/// that reads back the call succeeds exactly when the list does not hold
/// `addr` yet, and then appends it; when it fails the hook list is as
/// before. Nothing else changes either way.
#[verifier::external_body]
pub(crate) fn hooks_add(s: &mut MemoryStorage, addr: &str) -> (r: Result<(), HookError>)
    requires
        storage_sound(*old(s)),
    ensures
        r is Ok <==> !hooks_of(*old(s)).contains(addr@),
        r is Ok ==> hooks_slot(*final(s)) == Some(hooks_of(*old(s)).push(addr@)),
        r is Err ==> hooks_slot(*final(s)) == hooks_slot(*old(s)),
        beside_hooks_same(*old(s), *final(s)),
{
    Hooks::new("hooks").add_hook(s, Addr::unchecked(addr))
}

/// Removes a hook, through `cw_controllers::Hooks::remove_hook`. On a
/// storage that reads back the call succeeds exactly when the list holds
/// `addr`, and then takes out its first occurrence; when it fails the hook
/// list is as before. Nothing else changes either way.
#[verifier::external_body]
pub(crate) fn hooks_remove(s: &mut MemoryStorage, addr: &str) -> (r: Result<(), HookError>)
    requires
        storage_sound(*old(s)),
    ensures
        r is Ok <==> hooks_of(*old(s)).contains(addr@),
        r is Ok ==> exists|i: int|
            {
                &&& 0 <= i < hooks_of(*old(s)).len()
                &&& hooks_of(*old(s))[i] == addr@
                &&& forall|j: int| 0 <= j < i ==> hooks_of(*old(s))[j] != addr@
                &&& hooks_slot(*final(s)) == Some(#[trigger] hooks_of(*old(s)).remove(i))
            },
        r is Err ==> hooks_slot(*final(s)) == hooks_slot(*old(s)),
        beside_hooks_same(*old(s), *final(s)),
{
    Hooks::new("hooks").remove_hook(s, Addr::unchecked(addr))
}

/// Saves the owner, through `cw_storage_plus::Item::save`. The call
/// succeeds; afterwards the owner record holds `owner`, and nothing else has
/// changed.
#[verifier::external_body]
pub(crate) fn owner_save(s: &mut MemoryStorage, owner: &str) -> (r: Result<(), StdError>)
    ensures
        r is Ok,
        owner_slot(*final(s)) == Some(owner@),
        beside_owner_same(*old(s), *final(s)),
{
    cw_storage_plus::Item::<Addr>::new("state").save(s, &Addr::unchecked(owner))
}

/// Loads the owner, through `cw_storage_plus::Item::load`. The call
/// succeeds exactly when an owner record is stored, and returns it.
#[verifier::external_body]
pub(crate) fn owner_load(s: &MemoryStorage) -> (r: Result<String, StdError>)
    ensures
        r is Ok <==> owner_slot(*s) is Some,
        r matches Ok(owner) ==> owner_slot(*s) == Some(owner@),
{
    cw_storage_plus::Item::<Addr>::new("state").load(s).map(|owner| owner.into_string())
}

/// Records the contract's name and version, through
/// `cw2::set_contract_version`. The call succeeds; afterwards the version
/// record holds the two, and nothing else has changed.
#[verifier::external_body]
pub(crate) fn version_set(s: &mut MemoryStorage, name: &str, version: &str) -> (r: Result<
    (),
    StdError,
>)
    ensures
        r is Ok,
        version_slot(*final(s)) == Some((name@, version@)),
        beside_version_same(*old(s), *final(s)),
{
    cw2::set_contract_version(s, name, version)
}

/// Reads the contract's name and version, through
/// `cw2::get_contract_version`. The call succeeds exactly when a version
/// record is stored, and returns what it holds.
#[verifier::external_body]
pub(crate) fn version_get(s: &MemoryStorage) -> (r: Result<(String, String), StdError>)
    ensures
        r is Ok <==> version_slot(*s) is Some,
        r matches Ok(v) ==> version_slot(*s) == Some((v.0@, v.1@)),
{
    cw2::get_contract_version(s).map(|v| (v.contract, v.version))
}

/// Whether the game table can key `host`.
pub fn host_fits(host: &str) -> (fits: bool)
    ensures
        fits == (byte_len(host@) <= MAX_HOST_BYTES),
{
    host.as_bytes().len() <= MAX_HOST_BYTES
}

} // verus!
