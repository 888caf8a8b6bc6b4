//! The handlers: one for setting a ledger up, one for each request that
//! changes it, and one for each query.

use crate::error::ContractError;
use crate::game::{outcome, result_tag, Game, GameMove, GameView};
use crate::ledger::{lists_host_games, lists_opponent_games, Ledger};
use crate::msg::{
    AdminResponse, ExecuteMsg, InstantiateMsg, QueryMsg, QueryResponse, Response,
};
use crate::storage::{byte_len, opt_text, MAX_HOST_BYTES};
use vstd::prelude::*;

verus! {

/// The name under which the contract records its version.
pub const CONTRACT_NAME: &'static str = "crates.io:rock-paper-scissors";

/// The version that the contract records.
pub const CONTRACT_VERSION: &'static str = "0.1.0";

/// Sets the ledger up for `sender`, who becomes its owner, with the admin
/// that the message names, if it names one, and records the contract's name
/// and version.
pub fn instantiate(ledger: &mut Ledger, sender: &str, msg: InstantiateMsg) -> (r: Result<
    Response,
    ContractError,
>)
    requires
        old(ledger).wf(),
    ensures
        final(ledger).wf(),
        r matches Ok(response) && response.logs(
            seq![("method"@, "instantiate"@), ("owner"@, sender@)],
        ),
        final(ledger).owner() == Some(sender@),
        final(ledger).admin() == opt_text(msg.admin_address),
        final(ledger).version() == Some((CONTRACT_NAME@, CONTRACT_VERSION@)),
        final(ledger).games() == old(ledger).games(),
        final(ledger).blacklist() == old(ledger).blacklist(),
{
    if let Err(e) = ledger.set_version(CONTRACT_NAME, CONTRACT_VERSION) {
        return Err(e);
    }
    match ledger.set_up(sender, msg.admin_address) {
        Ok(()) => {
            let response = Response::new().add_attribute("method", "instantiate").add_attribute(
                "owner",
                sender,
            );
            assert(response.log() =~= seq![("method"@, "instantiate"@), ("owner"@, sender@)]);
            Ok(response)
        },
        Err(e) => Err(e),
    }
}

/// What starting a game does: the outcome `r` and the ledger `after`, given
/// the ledger `before`.
pub open spec fn start_game_post(
    before: Ledger,
    after: Ledger,
    sender: Seq<char>,
    opponent: Seq<char>,
    first_move: GameMove,
    r: Result<Response, ContractError>,
) -> bool {
    &&& after.same_control(before)
    &&& before.blacklist().contains(sender) ==> {
        &&& r matches Err(ContractError::BlacklistedAddress { addr })
        &&& addr@ == sender
        &&& after == before
    }
    &&& !before.blacklist().contains(sender) && byte_len(sender) > MAX_HOST_BYTES ==> {
        &&& r matches Err(ContractError::NotValidAddres {})
        &&& after == before
    }
    &&& !before.blacklist().contains(sender) && byte_len(sender) <= MAX_HOST_BYTES ==> {
        &&& r matches Ok(response)
        &&& response.logs(seq![("method"@, "execute_start_game"@)])
        &&& after.games() == before.games().insert(
            (sender, opponent),
            GameView::started(sender, opponent, first_move),
        )
    }
}

/// Starts a game of `sender`, the host, against `opponent`.
pub fn execute_start_game(
    ledger: &mut Ledger,
    sender: &str,
    opponent: String,
    first_move: GameMove,
) -> (r: Result<Response, ContractError>)
    requires
        old(ledger).wf(),
    ensures
        final(ledger).wf(),
        start_game_post(*old(ledger), *final(ledger), sender@, opponent@, first_move, r),
{
    match ledger.start(sender, opponent.as_str(), first_move) {
        Ok(()) => Ok(Response::new().add_attribute("method", "execute_start_game")),
        Err(e) => Err(e),
    }
}

/// What answering a game does: the outcome `r` and the ledger `after`,
/// given the ledger `before`.
pub open spec fn respond_post(
    before: Ledger,
    after: Ledger,
    sender: Seq<char>,
    host: Seq<char>,
    second_move: GameMove,
    r: Result<Response, ContractError>,
) -> bool {
    &&& after.same_control(before)
    &&& before.games().contains_key((host, sender)) ==> {
        &&& r matches Ok(response)
        &&& response.logs(
            seq![
                ("method"@, "execute_respond"@),
                (
                    "result"@,
                    result_tag(outcome(before.games()[(host, sender)].host_move, second_move)),
                ),
            ],
        )
        &&& after.games() == before.games().remove((host, sender))
    }
    &&& !before.games().contains_key((host, sender)) ==> {
        &&& r matches Err(ContractError::GameNotFound {})
        &&& after == before
    }
}

/// Answers the game that `host` started against `sender`, and reports how
/// it ended.
pub fn execute_respond(
    ledger: &mut Ledger,
    sender: &str,
    host: String,
    second_move: GameMove,
) -> (r: Result<Response, ContractError>)
    requires
        old(ledger).wf(),
    ensures
        final(ledger).wf(),
        respond_post(*old(ledger), *final(ledger), sender@, host@, second_move, r),
{
    match ledger.respond(host.as_str(), sender, second_move) {
        Ok(result) => {
            let tag = result.tag();
            let response = Response::new().add_attribute("method", "execute_respond").add_attribute(
                "result",
                tag.as_str(),
            );
            assert(response.log() =~= seq![("method"@, "execute_respond"@), ("result"@, tag@)]);
            Ok(response)
        },
        Err(e) => Err(e),
    }
}

/// What handing over adminship does.
pub open spec fn update_admin_post(
    before: Ledger,
    after: Ledger,
    sender: Seq<char>,
    admin_address: Seq<char>,
    r: Result<Response, ContractError>,
) -> bool {
    &&& before.turned_down_unless_admin(after, sender, r)
    &&& before.admin() == Some(sender) ==> {
        &&& r matches Ok(response)
        &&& response.logs(
            seq![("action"@, "update_admin"@), ("admin"@, admin_address), ("sender"@, sender)],
        )
        &&& after.admin() == Some(admin_address)
        &&& after.same_but_admin(before)
    }
}

/// What blacklisting an identity does.
pub open spec fn add_hook_post(
    before: Ledger,
    after: Ledger,
    sender: Seq<char>,
    addr: Seq<char>,
    r: Result<Response, ContractError>,
) -> bool {
    &&& before.turned_down_unless_admin(after, sender, r)
    &&& before.admin() == Some(sender) ==> {
        &&& r matches Ok(response)
        &&& response.logs(seq![("action"@, "add_hook"@), ("hook"@, addr), ("sender"@, sender)])
        &&& after.blacklist() == before.blacklist().insert(addr)
        &&& after.same_but_blacklist(before)
    }
}

/// What taking an identity off the blacklist does.
pub open spec fn remove_hook_post(
    before: Ledger,
    after: Ledger,
    sender: Seq<char>,
    addr: Seq<char>,
    r: Result<Response, ContractError>,
) -> bool {
    &&& before.turned_down_unless_admin(after, sender, r)
    &&& before.admin() == Some(sender) ==> {
        &&& r matches Ok(response)
        &&& response.logs(
            seq![("action"@, "remove_hook"@), ("hook"@, addr), ("sender"@, sender)],
        )
        &&& after.blacklist() == before.blacklist().remove(addr)
        &&& after.same_but_blacklist(before)
    }
}

/// What each request does.
pub open spec fn execute_post(
    before: Ledger,
    after: Ledger,
    sender: Seq<char>,
    msg: ExecuteMsg,
    r: Result<Response, ContractError>,
) -> bool {
    match msg {
        ExecuteMsg::StartGame { opponent, first_move } => start_game_post(
            before,
            after,
            sender,
            opponent@,
            first_move,
            r,
        ),
        ExecuteMsg::Respond { host, second_move } => respond_post(
            before,
            after,
            sender,
            host@,
            second_move,
            r,
        ),
        ExecuteMsg::UpdateAdmin { admin_address } => update_admin_post(
            before,
            after,
            sender,
            admin_address@,
            r,
        ),
        ExecuteMsg::AddHook { addr } => add_hook_post(before, after, sender, addr@, r),
        ExecuteMsg::RemoveHook { addr } => remove_hook_post(before, after, sender, addr@, r),
    }
}

/// Handles a request of `sender`.
pub fn execute(ledger: &mut Ledger, sender: &str, msg: ExecuteMsg) -> (r: Result<
    Response,
    ContractError,
>)
    requires
        old(ledger).wf(),
    ensures
        final(ledger).wf(),
        execute_post(*old(ledger), *final(ledger), sender@, msg, r),
{
    match msg {
        ExecuteMsg::StartGame { opponent, first_move } => execute_start_game(
            ledger,
            sender,
            opponent,
            first_move,
        ),
        ExecuteMsg::Respond { host, second_move } => execute_respond(
            ledger,
            sender,
            host,
            second_move,
        ),
        ExecuteMsg::UpdateAdmin { admin_address } => {
            let logged = admin_address.clone();
            match ledger.transfer_admin(Some(admin_address), sender) {
                Ok(()) => {
                    let response = Response::new().add_attribute(
                        "action",
                        "update_admin",
                    ).add_attribute("admin", logged.as_str()).add_attribute("sender", sender);
                    assert(response.log() =~= seq![
                        ("action"@, "update_admin"@),
                        ("admin"@, logged@),
                        ("sender"@, sender@),
                    ]);
                    Ok(response)
                },
                Err(e) => Err(e),
            }
        },
        ExecuteMsg::AddHook { addr } => match ledger.add_to_blacklist(addr.as_str(), sender) {
            Ok(()) => {
                let response = Response::new().add_attribute("action", "add_hook").add_attribute(
                    "hook",
                    addr.as_str(),
                ).add_attribute("sender", sender);
                assert(response.log() =~= seq![
                    ("action"@, "add_hook"@),
                    ("hook"@, addr@),
                    ("sender"@, sender@),
                ]);
                Ok(response)
            },
            Err(e) => Err(e),
        },
        ExecuteMsg::RemoveHook { addr } => match ledger.remove_from_blacklist(
            addr.as_str(),
            sender,
        ) {
            Ok(()) => {
                let response = Response::new().add_attribute(
                    "action",
                    "remove_hook",
                ).add_attribute("hook", addr.as_str()).add_attribute("sender", sender);
                assert(response.log() =~= seq![
                    ("action"@, "remove_hook"@),
                    ("hook"@, addr@),
                    ("sender"@, sender@),
                ]);
                Ok(response)
            },
            Err(e) => Err(e),
        },
    }
}

/// What each query answers.
pub open spec fn query_post(
    ledger: Ledger,
    msg: QueryMsg,
    r: Result<QueryResponse, ContractError>,
) -> bool {
    match msg {
        QueryMsg::GetOwner {} => {
            &&& ledger.owner() is Some ==> (r matches Ok(QueryResponse::Owner(owner)) && Some(
                owner@,
            ) == ledger.owner())
            &&& ledger.owner() is None ==> r matches Err(ContractError::Std(_))
        },
        QueryMsg::GetGameByHost { host } => {
            r matches Ok(QueryResponse::Games(games)) && lists_host_games(
                ledger.games(),
                host@,
                games@,
            )
        },
        QueryMsg::GetGameByOpponent { opponent } => {
            r matches Ok(QueryResponse::Games(games)) && lists_opponent_games(
                ledger.games(),
                opponent@,
                games@,
            )
        },
        QueryMsg::GetAdmin {} => {
            r matches Ok(QueryResponse::Admin(response)) && opt_text(response.admin)
                == ledger.admin()
        },
    }
}

/// Answers a query.
pub fn query(ledger: &Ledger, msg: QueryMsg) -> (r: Result<QueryResponse, ContractError>)
    requires
        ledger.wf(),
    ensures
        query_post(*ledger, msg, r),
{
    match msg {
        QueryMsg::GetOwner {} => match get_owner(ledger) {
            Ok(owner) => Ok(QueryResponse::Owner(owner)),
            Err(e) => Err(e),
        },
        QueryMsg::GetGameByHost { host } => match get_game_by_host(ledger, host) {
            Ok(games) => Ok(QueryResponse::Games(games)),
            Err(e) => Err(e),
        },
        QueryMsg::GetGameByOpponent { opponent } => match get_game_by_opponent(ledger, opponent) {
            Ok(games) => Ok(QueryResponse::Games(games)),
            Err(e) => Err(e),
        },
        QueryMsg::GetAdmin {} => Ok(
            QueryResponse::Admin(AdminResponse { admin: ledger.query_admin() }),
        ),
    }
}

/// The owner of the ledger. A ledger that was never set up has none.
pub fn get_owner(ledger: &Ledger) -> (r: Result<String, ContractError>)
    requires
        ledger.wf(),
    ensures
        ledger.owner() is Some ==> (r matches Ok(owner) && Some(owner@) == ledger.owner()),
        ledger.owner() is None ==> r matches Err(ContractError::Std(_)),
{
    match ledger.state() {
        Ok(state) => Ok(state.owner),
        Err(e) => Err(e),
    }
}

/// The open games of `host`, by ascending opponent.
pub fn get_game_by_host(ledger: &Ledger, host: String) -> (r: Result<Vec<Game>, ContractError>)
    requires
        ledger.wf(),
    ensures
        r matches Ok(games) && lists_host_games(ledger.games(), host@, games@),
{
    Ok(ledger.scan_by_host(host.as_str()))
}

/// The open games against `opponent`, in the order of the store's keys.
pub fn get_game_by_opponent(ledger: &Ledger, opponent: String) -> (r: Result<
    Vec<Game>,
    ContractError,
>)
    requires
        ledger.wf(),
    ensures
        r matches Ok(games) && lists_opponent_games(ledger.games(), opponent@, games@),
{
    Ok(ledger.scan_by_opponent(opponent.as_str()))
}

} // verus!
