//! The requests that the ledger takes and the answers that it gives.

use crate::game::{Game, GameMove};
use vstd::prelude::*;

verus! {

/// Sets a ledger up, with an admin or without one.
#[derive(Clone, Debug, PartialEq)]
pub struct InstantiateMsg {
    pub admin_address: Option<String>,
}

/// A request that may change the ledger. The one who sends it is the host of
/// a started game, the opponent of an answered one, and the one whose
/// adminship is checked.
#[derive(Clone, Debug, PartialEq)]
pub enum ExecuteMsg {
    StartGame { opponent: String, first_move: GameMove },
    Respond { host: String, second_move: GameMove },
    UpdateAdmin { admin_address: String },
    AddHook { addr: String },
    RemoveHook { addr: String },
}

/// A request that only reads the ledger.
#[derive(Clone, Debug, PartialEq)]
pub enum QueryMsg {
    GetOwner {},
    GetGameByHost { host: String },
    GetGameByOpponent { opponent: String },
    GetAdmin {},
}

/// One entry of the log that a handled request leaves.
#[derive(Clone, Debug, PartialEq)]
pub struct Attribute {
    pub key: String,
    pub value: String,
}

/// What a handled request leaves behind: messages to send on, of which this
/// ledger has none, and log entries.
#[derive(Clone, Debug, PartialEq)]
pub struct Response {
    pub messages: Vec<String>,
    pub attributes: Vec<Attribute>,
}

/// The answer to `QueryMsg::GetAdmin`.
#[derive(Clone, Debug, PartialEq)]
pub struct AdminResponse {
    pub admin: Option<String>,
}

/// The answer to a query, one variant for each form of answer.
#[derive(Clone, Debug, PartialEq)]
pub enum QueryResponse {
    Owner(String),
    Games(Vec<Game>),
    Admin(AdminResponse),
}

/// A log as a mathematical value: its keys and values in order.
pub type Log = Seq<(Seq<char>, Seq<char>)>;

impl Response {
    /// The log entries, in order.
    pub open spec fn log(self) -> Log {
        self.attributes@.map_values(|a: Attribute| (a.key@, a.value@))
    }

    /// The response sends no message and logs exactly `log`.
    pub open spec fn logs(self, log: Log) -> bool {
        self.messages@.len() == 0 && self.log() == log
    }

    /// A response that sends no message and logs nothing.
    pub fn new() -> (r: Response)
        ensures
            r.logs(Seq::empty()),
    {
        let r = Response { messages: Vec::new(), attributes: Vec::new() };
        assert(r.log() =~= Seq::empty());
        r
    }

    /// The response with one more log entry at the end.
    pub fn add_attribute(self, key: &str, value: &str) -> (r: Response)
        ensures
            r.messages == self.messages,
            r.log() == self.log().push((key@, value@)),
    {
        let mut r = self;
        r.attributes.push(Attribute { key: key.to_owned(), value: value.to_owned() });
        assert(r.log() =~= self.log().push((key@, value@)));
        r
    }
}

} // verus!
