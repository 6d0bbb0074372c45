//! The in-memory directory: root, categories, providers and their facts.

use vstd::prelude::*;
use vstd::string::*;
use crate::helpers::make_timestamp_secs;
use crate::string_map::StringMap;
use crate::text::texts;

verus! {

/// Delay before pending events are tried again, in milliseconds.
pub const DELAY_MS: u64 = 5_000;

/// Period of the checkpoint timer, in milliseconds.
pub const CHECKPOINT_MS: u64 = 300_000;

/// Seconds to wait before asking the chain again for logs that it did not
/// give. There is no bound on how often.
pub const FETCH_RETRY_SECS: u64 = 5;

/// A pending event is given up when the retries made on it reach this.
pub const MAX_PENDING_ATTEMPTS: u8 = 3;

/// Requests that the front end can make.
#[derive(Clone, Copy, Debug, PartialEq, Eq, Structural)]
pub enum FrontendRequest {
    Get,
    Other,
}

/// A named directory entry under a category.
pub struct Provider {
    /// Name of the category that the provider was registered under.
    pub category: String,
    /// The provider's own label.
    pub name: String,
    /// The provider's identity.
    pub hash: String,
    /// Every decoded value seen for each annotation label, oldest first.
    pub facts: StringMap<Vec<String>>,
}

/// The view of [`Provider`] that contracts speak of.
#[verifier::ext_equal]
pub struct ProviderView {
    pub category: Seq<char>,
    pub name: Seq<char>,
    pub hash: Seq<char>,
    pub facts: Map<Seq<char>, Seq<Seq<char>>>,
}

pub open spec fn facts_view(facts: Map<Seq<char>, Vec<String>>) -> Map<Seq<char>, Seq<Seq<char>>> {
    facts.map_values(|v: Vec<String>| texts(v@))
}

impl View for Provider {
    type V = ProviderView;

    open spec fn view(&self) -> ProviderView {
        ProviderView {
            category: self.category@,
            name: self.name@,
            hash: self.hash@,
            facts: facts_view(self.facts@),
        }
    }
}

/// Where on which chain the registry lives, and where its history starts.
pub struct ChainConfig {
    pub chain_id: u64,
    pub contract_address: String,
    /// Block from which a fresh directory starts reading.
    pub first_block: u64,
    /// Identity of the registry's own root node.
    pub root_hash: String,
}

/// The directory and the read cursor.
pub struct State {
    /// The chain being indexed.
    pub chain_id: u64,
    /// The registry contract.
    pub contract_address: String,
    /// Identity under which categories are registered, once known.
    pub root_hash: Option<String>,
    /// Category identity to category name.
    pub categories: StringMap<String>,
    /// Provider identity to provider.
    pub providers: StringMap<Provider>,
    /// Name to identity of well-known nodes.
    pub names: StringMap<String>,
    /// Highest block seen so far; never moves back.
    pub last_checkpoint_block: u64,
    /// When this directory was started, in seconds since the Unix epoch.
    pub logging_started: u64,
}

/// The view of [`State`] that contracts speak of.
#[verifier::ext_equal]
pub struct StateView {
    pub chain_id: u64,
    pub contract_address: Seq<char>,
    pub root_hash: Option<Seq<char>>,
    pub categories: Map<Seq<char>, Seq<char>>,
    pub providers: Map<Seq<char>, ProviderView>,
    pub names: Map<Seq<char>, Seq<char>>,
    pub last_checkpoint_block: u64,
    pub logging_started: u64,
}

pub open spec fn option_text(s: Option<String>) -> Option<Seq<char>> {
    match s {
        Some(t) => Some(t@),
        None => None,
    }
}

pub open spec fn names_view(m: Map<Seq<char>, String>) -> Map<Seq<char>, Seq<char>> {
    m.map_values(|s: String| s@)
}

pub open spec fn providers_view(m: Map<Seq<char>, Provider>) -> Map<Seq<char>, ProviderView> {
    m.map_values(|p: Provider| p@)
}

impl View for State {
    type V = StateView;

    open spec fn view(&self) -> StateView {
        StateView {
            chain_id: self.chain_id,
            contract_address: self.contract_address@,
            root_hash: option_text(self.root_hash),
            categories: names_view(self.categories@),
            providers: providers_view(self.providers@),
            names: names_view(self.names@),
            last_checkpoint_block: self.last_checkpoint_block,
            logging_started: self.logging_started,
        }
    }
}

/// The directory before any event: no root, no category, no provider, the
/// cursor on the configured first block.
pub open spec fn fresh_state(config: ChainConfig, started: u64) -> StateView {
    StateView {
        chain_id: config.chain_id,
        contract_address: config.contract_address@,
        root_hash: None,
        categories: Map::empty(),
        providers: Map::empty(),
        names: Map::empty().insert(Seq::<char>::empty(), config.root_hash@),
        last_checkpoint_block: config.first_block,
        logging_started: started,
    }
}

/// The clock's reading in whole seconds since the Unix epoch, as
/// `make_timestamp_secs` takes it; `None` on a clock that stands before it.
pub fn get_now() -> Option<u64> {
    make_timestamp_secs()
}

impl State {
    /// A fresh directory, started at `started`, in seconds since the Unix
    /// epoch.
    pub fn new(config: &ChainConfig, started: u64) -> (r: State)
        ensures
            r@ == fresh_state(*config, started),
    {
        let mut names: StringMap<String> = StringMap::new();
        names.insert(String::new(), config.root_hash.clone());
        let r = State {
            chain_id: config.chain_id,
            contract_address: config.contract_address.clone(),
            root_hash: None,
            categories: StringMap::new(),
            providers: StringMap::new(),
            names,
            last_checkpoint_block: config.first_block,
            logging_started: started,
        };
        assert(r@.categories =~= Map::empty());
        assert(r@.providers =~= Map::empty());
        assert(r@.names =~= Map::empty().insert(Seq::<char>::empty(), config.root_hash@));
        r
    }

    /// The saved directory where there is one, otherwise a fresh one started
    /// at `started`.
    pub fn load(saved: Option<State>, config: &ChainConfig, started: u64) -> (r: State)
        ensures
            match saved {
                Some(s) => r == s,
                None => r@ == fresh_state(*config, started),
            },
    {
        match saved {
            Some(s) => s,
            None => State::new(config, started),
        }
    }
}

} // verus!
