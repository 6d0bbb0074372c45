//! The provider's side: the keys it keeps and the calls it makes for its
//! clients.

use vstd::prelude::*;
use vstd::string::*;
use crate::string_map::StringMap;
use crate::text::str_eq;

verus! {

/// A client of the provider.
pub struct User {
    pub wallet: String,
    pub tx_hash: String,
    pub api_key: String,
}

/// The keys of the outside APIs, by name, and the clients, by wallet.
pub struct State {
    pub out_keys: StringMap<String>,
    pub in_keys: StringMap<User>,
}

impl State {
    /// No keys and no clients.
    pub fn new() -> (r: State)
        ensures
            r.out_keys@ == Map::<Seq<char>, String>::empty(),
            r.in_keys@ == Map::<Seq<char>, User>::empty(),
    {
        State { out_keys: StringMap::new(), in_keys: StringMap::new() }
    }

    /// What was saved where there is something, nothing otherwise.
    pub fn load(saved: Option<State>) -> (r: State)
        ensures
            match saved {
                Some(s) => r == s,
                None => r.out_keys@ == Map::<Seq<char>, String>::empty() && r.in_keys@ == Map::<
                    Seq<char>,
                    User,
                >::empty(),
            },
    {
        match saved {
            Some(s) => s,
            None => State::new(),
        }
    }
}

/// Whether a message comes from the terminal of the provider's own node:
/// such a message is a command, any other is a request of a client.
pub fn from_own_terminal(source_node: &str, our_node: &str, package: &str) -> (r: bool)
    ensures
        r == (source_node@ == our_node@ && package@ == "terminal:sys"@),
{
    str_eq(source_node, our_node) && str_eq(package, "terminal:sys")
}

/// What a message to the provider is.
#[derive(Clone, Copy, Debug, PartialEq, Eq, Structural)]
pub enum MessageKind {
    /// A response, which the provider never expects: an error.
    UnexpectedResponse,
    /// A command from the terminal of the provider's own node.
    Terminal,
    /// A request of a client.
    Client,
}

pub open spec fn message_kind_of(
    is_request: bool,
    source_node: Seq<char>,
    our_node: Seq<char>,
    package: Seq<char>,
) -> MessageKind {
    if !is_request {
        MessageKind::UnexpectedResponse
    } else if source_node == our_node && package == "terminal:sys"@ {
        MessageKind::Terminal
    } else {
        MessageKind::Client
    }
}

/// Tells what a message to the provider is.
pub fn message_kind(is_request: bool, source_node: &str, our_node: &str, package: &str) -> (r:
    MessageKind)
    ensures
        r == message_kind_of(is_request, source_node@, our_node@, package@),
{
    if !is_request {
        MessageKind::UnexpectedResponse
    } else if from_own_terminal(source_node, our_node, package) {
        MessageKind::Terminal
    } else {
        MessageKind::Client
    }
}

/// A change to the list of clients.
pub enum ApiKeyHandling {
    /// Add the client, or replace the one with its wallet.
    Put(User),
    /// Remove the client with this wallet.
    Del(String),
}

/// Changes the list of clients. The keys of the outside APIs stay.
pub fn handle_api_request(req: ApiKeyHandling, state: &mut State)
    ensures
        final(state).out_keys == old(state).out_keys,
        match req {
            ApiKeyHandling::Put(user) => final(state).in_keys@ == old(state).in_keys@.insert(
                user.wallet@,
                user,
            ),
            ApiKeyHandling::Del(wallet) => final(state).in_keys@ == old(state).in_keys@.remove(
                wallet@,
            ),
        },
{
    match req {
        ApiKeyHandling::Put(user) => {
            let wallet = user.wallet.clone();
            state.in_keys.insert(wallet, user);
        },
        ApiKeyHandling::Del(wallet) => {
            let _ = state.in_keys.remove(wallet.as_str());
        },
    }
}

/// A command of the terminal.
pub enum Command {
    /// Show the keys and the clients.
    Show,
    /// Keep `key` for the API named `name`.
    AddKey { name: String, key: String },
    /// Forget the key of the API named `name`.
    DelKey { name: String },
    /// Forget everything, and save that.
    Reset,
    /// No command: nothing happens.
    Unknown,
}

/// The view of [`Command`] that contracts speak of.
pub enum CommandView {
    Show,
    AddKey { name: Seq<char>, key: Seq<char> },
    DelKey { name: Seq<char> },
    Reset,
    Unknown,
}

impl View for Command {
    type V = CommandView;

    open spec fn view(&self) -> CommandView {
        match *self {
            Command::Show => CommandView::Show,
            Command::AddKey { name, key } => CommandView::AddKey { name: name@, key: key@ },
            Command::DelKey { name } => CommandView::DelKey { name: name@ },
            Command::Reset => CommandView::Reset,
            Command::Unknown => CommandView::Unknown,
        }
    }
}

/// A command that lacks a word it needs.
#[derive(Clone, Copy, Debug, PartialEq, Eq, Structural)]
pub struct BadCommand;

impl BadCommand {
    pub fn message(&self) -> (r: String)
        ensures
            r@ == "bad command"@,
    {
        "bad command".to_owned()
    }
}

/// The command that the words of a line make: the first word names it, the
/// next one or two are what it needs; further words are not looked at.
pub open spec fn command_of(words: Seq<Seq<char>>) -> Result<CommandView, BadCommand> {
    if words.len() == 0 {
        Err(BadCommand)
    } else if words[0] == "state"@ {
        Ok(CommandView::Show)
    } else if words[0] == "add-key"@ {
        if words.len() < 3 {
            Err(BadCommand)
        } else {
            Ok(CommandView::AddKey { name: words[1], key: words[2] })
        }
    } else if words[0] == "del-key"@ {
        if words.len() < 2 {
            Err(BadCommand)
        } else {
            Ok(CommandView::DelKey { name: words[1] })
        }
    } else if words[0] == "reset"@ {
        Ok(CommandView::Reset)
    } else {
        Ok(CommandView::Unknown)
    }
}

pub open spec fn words_view(words: Seq<String>) -> Seq<Seq<char>> {
    words.map_values(|w: String| w@)
}

pub open spec fn command_result(r: Result<Command, BadCommand>) -> Result<CommandView, BadCommand> {
    match r {
        Ok(c) => Ok(c@),
        Err(e) => Err(e),
    }
}

/// Reads a command from the words of a line.
pub fn terminal_command(words: &Vec<String>) -> (r: Result<Command, BadCommand>)
    ensures
        command_result(r) == command_of(words_view(words@)),
{
    if words.len() == 0 {
        return Err(BadCommand);
    }
    let first = words[0].as_str();
    if str_eq(first, "state") {
        Ok(Command::Show)
    } else if str_eq(first, "add-key") {
        if words.len() < 3 {
            Err(BadCommand)
        } else {
            Ok(Command::AddKey { name: words[1].clone(), key: words[2].clone() })
        }
    } else if str_eq(first, "del-key") {
        if words.len() < 2 {
            Err(BadCommand)
        } else {
            Ok(Command::DelKey { name: words[1].clone() })
        }
    } else if str_eq(first, "reset") {
        Ok(Command::Reset)
    } else {
        Ok(Command::Unknown)
    }
}

/// Carries out a command on the keys. What comes back says whether the keys
/// are to be saved.
pub fn handle_terminal(command: Command, state: &mut State) -> (save: bool)
    ensures
        match command {
            Command::AddKey { name, key } => {
                &&& final(state).out_keys@ == old(state).out_keys@.insert(name@, key)
                &&& final(state).in_keys == old(state).in_keys
                &&& !save
            },
            Command::DelKey { name } => {
                &&& final(state).out_keys@ == old(state).out_keys@.remove(name@)
                &&& final(state).in_keys == old(state).in_keys
                &&& !save
            },
            Command::Reset => {
                &&& final(state).out_keys@ == Map::<Seq<char>, String>::empty()
                &&& final(state).in_keys@ == Map::<Seq<char>, User>::empty()
                &&& save
            },
            _ => *final(state) == *old(state) && !save,
        },
{
    match command {
        Command::AddKey { name, key } => {
            state.out_keys.insert(name, key);
            false
        },
        Command::DelKey { name } => {
            let _ = state.out_keys.remove(name.as_str());
            false
        },
        Command::Reset => {
            *state = State::new();
            true
        },
        _ => false,
    }
}

/// An argument of a call, as far as the provider reads it.
pub enum ArgValue {
    Text(String),
    /// A number, as it is written.
    Number(String),
    /// An object: each field with its text, where it is text.
    Object(StringMap<Option<String>>),
    /// Anything else.
    Other,
}

/// The view of [`ArgValue`] that contracts speak of.
pub enum ArgValueView {
    Text(Seq<char>),
    Number(Seq<char>),
    Object(Map<Seq<char>, Option<Seq<char>>>),
    Other,
}

pub open spec fn field_text(field: Option<String>) -> Option<Seq<char>> {
    match field {
        Some(t) => Some(t@),
        None => None,
    }
}

impl View for ArgValue {
    type V = ArgValueView;

    open spec fn view(&self) -> ArgValueView {
        match *self {
            ArgValue::Text(t) => ArgValueView::Text(t@),
            ArgValue::Number(n) => ArgValueView::Number(n@),
            ArgValue::Object(fields) => ArgValueView::Object(
                fields@.map_values(|f: Option<String>| field_text(f)),
            ),
            ArgValue::Other => ArgValueView::Other,
        }
    }
}

pub open spec fn arguments_view(arguments: Map<Seq<char>, ArgValue>) -> Map<
    Seq<char>,
    ArgValueView,
> {
    arguments.map_values(|a: ArgValue| a@)
}

pub open spec fn keys_view(keys: Map<Seq<char>, String>) -> Map<Seq<char>, Seq<char>> {
    keys.map_values(|k: String| k@)
}

/// What the provider does for a client.
pub enum Call {
    /// Fetch `url` with these headers, and answer with what comes back.
    Http { url: String, headers: Vec<(String, String)> },
    /// Answer with the names of the pictures.
    ListPictures,
    /// Answer with the picture in `file`.
    Picture { file: String },
    /// No provider of that name: no answer.
    Nothing,
}

/// The view of [`Call`] that contracts speak of.
pub enum CallView {
    Http { url: Seq<char>, headers: Seq<(Seq<char>, Seq<char>)> },
    ListPictures,
    Picture { file: Seq<char> },
    Nothing,
}

pub open spec fn headers_view(headers: Seq<(String, String)>) -> Seq<(Seq<char>, Seq<char>)> {
    headers.map_values(|h: (String, String)| (h.0@, h.1@))
}

impl View for Call {
    type V = CallView;

    open spec fn view(&self) -> CallView {
        match *self {
            Call::Http { url, headers } => CallView::Http {
                url: url@,
                headers: headers_view(headers@),
            },
            Call::ListPictures => CallView::ListPictures,
            Call::Picture { file } => CallView::Picture { file: file@ },
            Call::Nothing => CallView::Nothing,
        }
    }
}

/// Why a call cannot be made.
#[derive(Clone, Copy, Debug, PartialEq, Eq, Structural)]
pub enum CallError {
    /// The provider has no key for the outside API.
    NoApiKey,
    /// An argument is missing or of the wrong kind.
    BadArguments,
    /// The weather query is not text.
    BadQuery,
    /// The stock symbol is not text.
    BadSymbol,
}

pub open spec fn call_error_text(e: CallError) -> Seq<char> {
    match e {
        CallError::NoApiKey => "no outgoing API KEY"@,
        CallError::BadArguments => "bad arguments sent"@,
        CallError::BadQuery => "bad query argument sent"@,
        CallError::BadSymbol => "bad symbol argument sent"@,
    }
}

impl CallError {
    /// The reason, in words.
    pub fn message(&self) -> (r: String)
        ensures
            r@ == call_error_text(*self),
    {
        match self {
            CallError::NoApiKey => "no outgoing API KEY".to_owned(),
            CallError::BadArguments => "bad arguments sent".to_owned(),
            CallError::BadQuery => "bad query argument sent".to_owned(),
            CallError::BadSymbol => "bad symbol argument sent".to_owned(),
        }
    }
}

pub open spec fn weather_url(key: Seq<char>, query: Seq<char>) -> Seq<char> {
    "https://api.weatherapi.com/v1/current.json?key="@ + key + "&q="@ + query
}

pub open spec fn finnhub_url(symbol: Seq<char>, key: Seq<char>) -> Seq<char> {
    "https://finnhub.io/api/v1/quote?symbol="@ + symbol + "&token="@ + key
}

pub open spec fn dune_url(contract: Seq<char>, chain: Seq<char>) -> Seq<char> {
    "https://api.dune.com/api/echo/beta/tokens/evm/"@ + contract + "?chain_ids="@ + chain
}

/// The header that every call carries.
pub open spec fn json_header() -> (Seq<char>, Seq<char>) {
    ("Content-type"@, "application/json"@)
}

/// A call with the JSON header alone.
pub open spec fn plain_call(url: Seq<char>) -> CallView {
    CallView::Http { url, headers: seq![json_header()] }
}

/// The weather service: its key, then the query, which has to be text.
pub open spec fn weather_call(
    arguments: Map<Seq<char>, ArgValueView>,
    keys: Map<Seq<char>, Seq<char>>,
) -> Result<CallView, CallError> {
    if !keys.dom().contains("WEATHER_API_KEY"@) {
        Err(CallError::NoApiKey)
    } else if !arguments.dom().contains("query"@) {
        Err(CallError::BadArguments)
    } else {
        match arguments["query"@] {
            ArgValueView::Text(query) => Ok(plain_call(weather_url(keys["WEATHER_API_KEY"@], query))),
            _ => Err(CallError::BadQuery),
        }
    }
}

/// The stock quotes: their key, then the symbol, which has to be text.
pub open spec fn finnhub_call(
    arguments: Map<Seq<char>, ArgValueView>,
    keys: Map<Seq<char>, Seq<char>>,
) -> Result<CallView, CallError> {
    if !keys.dom().contains("FINNHUB_API_KEY"@) {
        Err(CallError::NoApiKey)
    } else if !arguments.dom().contains("symbol"@) {
        Err(CallError::BadArguments)
    } else {
        match arguments["symbol"@] {
            ArgValueView::Text(symbol) => Ok(
                plain_call(finnhub_url(symbol, keys["FINNHUB_API_KEY"@])),
            ),
            _ => Err(CallError::BadSymbol),
        }
    }
}

/// The text of a chain's number, given as a number or as text.
pub open spec fn chain_text(value: ArgValueView) -> Option<Seq<char>> {
    match value {
        ArgValueView::Number(n) => Some(n),
        ArgValueView::Text(t) => Some(t),
        _ => None,
    }
}

/// The token data: its key, which travels in a header, then the contract,
/// as text, and the chain.
pub open spec fn dune_call(
    arguments: Map<Seq<char>, ArgValueView>,
    keys: Map<Seq<char>, Seq<char>>,
) -> Result<CallView, CallError> {
    if !keys.dom().contains("DUNE_API_KEY"@) {
        Err(CallError::NoApiKey)
    } else if !arguments.dom().contains("contract"@) {
        Err(CallError::BadArguments)
    } else {
        match arguments["contract"@] {
            ArgValueView::Text(contract) => {
                if !arguments.dom().contains("chainId"@) {
                    Err(CallError::BadArguments)
                } else {
                    match chain_text(arguments["chainId"@]) {
                        Some(chain) => Ok(
                            CallView::Http {
                                url: dune_url(contract, chain),
                                headers: seq![
                                    json_header(),
                                    ("X-Dune-Api-Key"@, keys["DUNE_API_KEY"@]),
                                ],
                            },
                        ),
                        None => Err(CallError::BadArguments),
                    }
                }
            },
            _ => Err(CallError::BadArguments),
        }
    }
}

/// The pictures: the query is the text `list`, or an object whose field
/// `file` names a picture.
pub open spec fn pictures_call(arguments: Map<Seq<char>, ArgValueView>) -> Result<
    CallView,
    CallError,
> {
    if !arguments.dom().contains("query"@) {
        Err(CallError::BadArguments)
    } else {
        match arguments["query"@] {
            ArgValueView::Text(t) => if t == "list"@ {
                Ok(CallView::ListPictures)
            } else {
                Err(CallError::BadArguments)
            },
            ArgValueView::Object(fields) => if fields.dom().contains("file"@) {
                match fields["file"@] {
                    Some(file) => Ok(CallView::Picture { file }),
                    None => Err(CallError::BadArguments),
                }
            } else {
                Err(CallError::BadArguments)
            },
            _ => Err(CallError::BadArguments),
        }
    }
}

/// The call that a request for the provider named `name` comes to.
pub open spec fn call_of(
    name: Seq<char>,
    arguments: Map<Seq<char>, ArgValueView>,
    keys: Map<Seq<char>, Seq<char>>,
) -> Result<CallView, CallError> {
    if name == "WeatherAPI.com"@ {
        weather_call(arguments, keys)
    } else if name == "Finnhub API"@ {
        finnhub_call(arguments, keys)
    } else if name == "dune"@ {
        dune_call(arguments, keys)
    } else if name == "Catpics"@ {
        pictures_call(arguments)
    } else {
        Ok(CallView::Nothing)
    }
}

pub open spec fn call_result(r: Result<Call, CallError>) -> Result<CallView, CallError> {
    match r {
        Ok(c) => Ok(c@),
        Err(e) => Err(e),
    }
}

fn json_headers() -> (r: Vec<(String, String)>)
    ensures
        headers_view(r@) == seq![json_header()],
{
    let mut headers: Vec<(String, String)> = Vec::new();
    headers.push(("Content-type".to_owned(), "application/json".to_owned()));
    assert(headers_view(headers@) =~= seq![json_header()]);
    headers
}

fn weather(arguments: &StringMap<ArgValue>, state: &State) -> (r: Result<Call, CallError>)
    ensures
        call_result(r) == weather_call(arguments_view(arguments@), keys_view(state.out_keys@)),
{
    let key = match state.out_keys.get("WEATHER_API_KEY") {
        Some(k) => k,
        None => {
            return Err(CallError::NoApiKey);
        },
    };
    match arguments.get("query") {
        None => Err(CallError::BadArguments),
        Some(ArgValue::Text(query)) => {
            let mut url = "https://api.weatherapi.com/v1/current.json?key=".to_owned();
            url.append(key.as_str());
            url.append("&q=");
            url.append(query.as_str());
            Ok(Call::Http { url, headers: json_headers() })
        },
        Some(_) => Err(CallError::BadQuery),
    }
}

fn finnhub(arguments: &StringMap<ArgValue>, state: &State) -> (r: Result<Call, CallError>)
    ensures
        call_result(r) == finnhub_call(arguments_view(arguments@), keys_view(state.out_keys@)),
{
    let key = match state.out_keys.get("FINNHUB_API_KEY") {
        Some(k) => k,
        None => {
            return Err(CallError::NoApiKey);
        },
    };
    match arguments.get("symbol") {
        None => Err(CallError::BadArguments),
        Some(ArgValue::Text(symbol)) => {
            let mut url = "https://finnhub.io/api/v1/quote?symbol=".to_owned();
            url.append(symbol.as_str());
            url.append("&token=");
            url.append(key.as_str());
            Ok(Call::Http { url, headers: json_headers() })
        },
        Some(_) => Err(CallError::BadSymbol),
    }
}

fn dune(arguments: &StringMap<ArgValue>, state: &State) -> (r: Result<Call, CallError>)
    ensures
        call_result(r) == dune_call(arguments_view(arguments@), keys_view(state.out_keys@)),
{
    let key = match state.out_keys.get("DUNE_API_KEY") {
        Some(k) => k,
        None => {
            return Err(CallError::NoApiKey);
        },
    };
    let contract = match arguments.get("contract") {
        Some(ArgValue::Text(contract)) => contract,
        _ => {
            return Err(CallError::BadArguments);
        },
    };
    let chain = match arguments.get("chainId") {
        Some(ArgValue::Number(n)) => n,
        Some(ArgValue::Text(t)) => t,
        _ => {
            return Err(CallError::BadArguments);
        },
    };
    let mut url = "https://api.dune.com/api/echo/beta/tokens/evm/".to_owned();
    url.append(contract.as_str());
    url.append("?chain_ids=");
    url.append(chain.as_str());
    let mut headers: Vec<(String, String)> = Vec::new();
    headers.push(("Content-type".to_owned(), "application/json".to_owned()));
    headers.push(("X-Dune-Api-Key".to_owned(), key.clone()));
    assert(headers_view(headers@) =~= seq![
        json_header(),
        ("X-Dune-Api-Key"@, keys_view(state.out_keys@)["DUNE_API_KEY"@]),
    ]);
    Ok(Call::Http { url, headers })
}

fn pictures(arguments: &StringMap<ArgValue>) -> (r: Result<Call, CallError>)
    ensures
        call_result(r) == pictures_call(arguments_view(arguments@)),
{
    match arguments.get("query") {
        Some(ArgValue::Text(t)) => {
            if str_eq(t.as_str(), "list") {
                Ok(Call::ListPictures)
            } else {
                Err(CallError::BadArguments)
            }
        },
        Some(ArgValue::Object(fields)) => match fields.get("file") {
            Some(Some(file)) => Ok(Call::Picture { file: file.clone() }),
            _ => Err(CallError::BadArguments),
        },
        _ => Err(CallError::BadArguments),
    }
}

/// Works out the call that a request for the provider named `provider_name`
/// comes to, with the keys that the provider keeps.
pub fn handle_mcp_request(provider_name: &str, arguments: &StringMap<ArgValue>, state: &State) -> (r:
    Result<Call, CallError>)
    ensures
        call_result(r) == call_of(
            provider_name@,
            arguments_view(arguments@),
            keys_view(state.out_keys@),
        ),
{
    if str_eq(provider_name, "WeatherAPI.com") {
        weather(arguments, state)
    } else if str_eq(provider_name, "Finnhub API") {
        finnhub(arguments, state)
    } else if str_eq(provider_name, "dune") {
        dune(arguments, state)
    } else if str_eq(provider_name, "Catpics") {
        pictures(arguments)
    } else {
        Ok(Call::Nothing)
    }
}

} // verus!
