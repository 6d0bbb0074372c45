//! Telling apart what reaches the indexer: who sent a message, which timer
//! fired, what a terminal command or a request of the front end asks for.

use vstd::prelude::*;
use vstd::string::*;
use vstd::slice::*;
use crate::db::{
    get_all, get_all_sql, get_by_category, get_by_category_sql, like_escaped, search_provider,
    search_sql, SqlValueView, Statement,
};
use crate::text::str_eq;

verus! {

/// Who sent a request.
#[derive(Clone, Copy, Debug, PartialEq, Eq, Structural)]
pub enum Sender {
    /// The terminal: a debug command.
    Terminal,
    /// The HTTP server: a request of the front end.
    HttpServer,
    /// Any other process: a client.
    Client,
}

pub open spec fn sender_of(package: Seq<char>, process: Seq<char>) -> Sender {
    if package == "terminal:sys"@ {
        Sender::Terminal
    } else if process == "http-server:distro:sys"@ {
        Sender::HttpServer
    } else {
        Sender::Client
    }
}

/// Tells the sender of a request by its package and its process.
pub fn request_sender(package: &str, process: &str) -> (r: Sender)
    ensures
        r == sender_of(package@, process@),
{
    if str_eq(package, "terminal:sys") {
        Sender::Terminal
    } else if str_eq(process, "http-server:distro:sys") {
        Sender::HttpServer
    } else {
        Sender::Client
    }
}

/// What a response is about.
#[derive(Clone, Copy, Debug, PartialEq, Eq, Structural)]
pub enum Reply {
    /// A timer fired; the checkpoint timer where `is_checkpoint`.
    Timer { is_checkpoint: bool },
    /// The chain's messenger has something.
    Eth,
    Other,
}

pub open spec fn option_context(context: Option<Vec<u8>>) -> Option<Seq<u8>> {
    match context {
        Some(c) => Some(c@),
        None => None,
    }
}

pub open spec fn reply_of(process: Seq<char>, context: Option<Seq<u8>>) -> Reply {
    if process == "timer:distro:sys"@ {
        Reply::Timer { is_checkpoint: context == Some("checkpoint".spec_bytes()) }
    } else if process == "eth:distro:sys"@ {
        Reply::Eth
    } else {
        Reply::Other
    }
}

/// The context that a request for the checkpoint timer carries, and by which
/// its firing is told from the retry timer's.
pub fn checkpoint_context() -> (r: Vec<u8>)
    ensures
        r@ == "checkpoint".spec_bytes(),
{
    slice_to_vec("checkpoint".as_bytes())
}

fn same_bytes(a: &[u8], b: &[u8]) -> (r: bool)
    ensures
        r == (a@ == b@),
{
    if a.len() != b.len() {
        return false;
    }
    let mut i: usize = 0;
    while i < a.len()
        invariant
            i <= a@.len(),
            a@.len() == b@.len(),
            forall|k: int| 0 <= k < i ==> a@[k] == b@[k],
        decreases a@.len() - i,
    {
        if a[i] != b[i] {
            assert(a@[i as int] != b@[i as int]);
            return false;
        }
        i = i + 1;
    }
    assert(a@ =~= b@);
    true
}

/// Tells what a response is about by the process that sent it and the
/// context that the request carried.
pub fn response_kind(process: &str, context: &Option<Vec<u8>>) -> (r: Reply)
    ensures
        r == reply_of(process@, option_context(*context)),
{
    if str_eq(process, "timer:distro:sys") {
        let is_checkpoint = match context {
            Some(c) => same_bytes(c.as_slice(), "checkpoint".as_bytes()),
            None => false,
        };
        Reply::Timer { is_checkpoint }
    } else if str_eq(process, "eth:distro:sys") {
        Reply::Eth
    } else {
        Reply::Other
    }
}

/// A debug command of the terminal.
#[derive(Clone, Copy, Debug, PartialEq, Eq, Structural)]
pub enum Command {
    /// Show the directory.
    State,
    /// Check the store's schema, and write it where it is missing.
    Db,
    /// Start over from a fresh directory and an empty store.
    Reset,
    Unknown,
}

pub open spec fn command_of(text: Seq<char>) -> Command {
    if text == "state"@ {
        Command::State
    } else if text == "db"@ {
        Command::Db
    } else if text == "reset"@ {
        Command::Reset
    } else {
        Command::Unknown
    }
}

/// Reads a debug command.
pub fn terminal_command(text: &str) -> (r: Command)
    ensures
        r == command_of(text@),
{
    if str_eq(text, "state") {
        Command::State
    } else if str_eq(text, "db") {
        Command::Db
    } else if str_eq(text, "reset") {
        Command::Reset
    } else {
        Command::Unknown
    }
}

/// What to do about a request of the front end, by its method.
#[derive(Clone, Copy, Debug, PartialEq, Eq, Structural)]
pub enum Method {
    Get,
    Post,
    /// Answered with "method not allowed".
    NotAllowed,
}

pub open spec fn method_of(name: Seq<char>) -> Method {
    if name == "GET"@ {
        Method::Get
    } else if name == "POST"@ {
        Method::Post
    } else {
        Method::NotAllowed
    }
}

pub fn request_method(name: &str) -> (r: Method)
    ensures
        r == method_of(name@),
{
    if str_eq(name, "GET") {
        Method::Get
    } else if str_eq(name, "POST") {
        Method::Post
    } else {
        Method::NotAllowed
    }
}

/// A path of the API.
#[derive(Clone, Copy, Debug, PartialEq, Eq, Structural)]
pub enum Route {
    Mcp,
    State,
    All,
    Category,
    Search,
    Unknown,
}

pub open spec fn route_of(path: Seq<char>) -> Route {
    if path == "/mcp"@ {
        Route::Mcp
    } else if path == "/state"@ {
        Route::State
    } else if path == "/all"@ {
        Route::All
    } else if path == "/cat"@ {
        Route::Category
    } else if path == "/search"@ {
        Route::Search
    } else {
        Route::Unknown
    }
}

/// Reads a path below the API's prefix.
pub fn route(path: &str) -> (r: Route)
    ensures
        r == route_of(path@),
{
    if str_eq(path, "/mcp") {
        Route::Mcp
    } else if str_eq(path, "/state") {
        Route::State
    } else if str_eq(path, "/all") {
        Route::All
    } else if str_eq(path, "/cat") {
        Route::Category
    } else if str_eq(path, "/search") {
        Route::Search
    } else {
        Route::Unknown
    }
}

/// The answer to a `GET` of the front end.
pub enum GetPlan {
    /// Open the event stream.
    EventStream,
    /// Send the providers of the directory.
    Providers,
    /// Send the rows that the query finds.
    Query(Statement),
    /// The request lacks its parameter: an internal error.
    MissingParameter,
    /// No such path.
    NotFound,
}

/// What a query is to be, where an answer is one.
pub open spec fn asks(plan: GetPlan, sql: Seq<char>, params: Seq<SqlValueView>) -> bool {
    plan matches GetPlan::Query(s) && s@.sql == sql && s@.params == params
}

/// Answers a `GET` by its path. `category` and `query` are the request's
/// parameters `cat` and `q`; each is needed by one path only.
pub fn route_get(path: &str, category: Option<String>, query: Option<String>) -> (r: GetPlan)
    ensures
        match route_of(path@) {
            Route::Mcp => r is EventStream,
            Route::State => r is Providers,
            Route::All => asks(r, get_all_sql(), Seq::empty()),
            Route::Category => match category {
                Some(c) => asks(r, get_by_category_sql(), seq![SqlValueView::Text(c@)]),
                None => r is MissingParameter,
            },
            Route::Search => match query {
                Some(q) => asks(r, search_sql(), seq![SqlValueView::Text(like_escaped(q@))]),
                None => r is MissingParameter,
            },
            Route::Unknown => r is NotFound,
        },
{
    match route(path) {
        Route::Mcp => GetPlan::EventStream,
        Route::State => GetPlan::Providers,
        Route::All => GetPlan::Query(get_all()),
        Route::Category => match category {
            Some(c) => GetPlan::Query(get_by_category(c)),
            None => GetPlan::MissingParameter,
        },
        Route::Search => match query {
            Some(q) => GetPlan::Query(search_provider(q)),
            None => GetPlan::MissingParameter,
        },
        Route::Unknown => GetPlan::NotFound,
    }
}

} // verus!
