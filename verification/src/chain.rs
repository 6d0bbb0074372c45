//! Applying registry events to the directory.

use vstd::prelude::*;
use vstd::string::*;
use vstd::utf8::*;
use crate::abi::{keccak256, keccak256_of};
use crate::events::{
    clone_log, decode_log, event_of, mint_signature, note_signature, option_event, topics_view,
    Event, EventView, Log, LogView,
};
use crate::helpers::{datakey_of, decode_datakey};
use crate::string_map::StringMap;
use crate::structs::{
    fresh_state, ChainConfig, Provider, ProviderView, State, StateView, CHECKPOINT_MS, DELAY_MS,
    FETCH_RETRY_SECS, MAX_PENDING_ATTEMPTS,
};
use crate::text::{str_eq, texts};

verus! {

/// How the application of one event ended.
#[derive(Clone, Copy, Debug, PartialEq, Eq, Structural)]
pub enum Outcome {
    /// The directory took the event.
    Applied,
    /// What the event depends on is not in the directory yet.
    Pending,
    /// The event could not be decoded; it is dropped.
    Malformed,
    /// Not an event that the directory follows.
    Ignored,
    /// The relational store has no column for the event's label; it is
    /// dropped.
    PersistenceError,
}

/// A change that the relational store is asked to make.
pub enum DbWrite {
    /// Add the category unless its name or its identity is taken.
    InsertCategory { hash: String, name: String },
    /// Add the provider under the category whose identity is `parent_hash`,
    /// unless its identity or name is taken.
    InsertProvider { parent_hash: String, hash: String, name: String },
    /// Overwrite column `key` of the provider with identity `hash`.
    SetFact { key: String, value: String, hash: String },
}

/// The view of [`DbWrite`] that contracts speak of.
pub enum DbWriteView {
    InsertCategory { hash: Seq<char>, name: Seq<char> },
    InsertProvider { parent_hash: Seq<char>, hash: Seq<char>, name: Seq<char> },
    SetFact { key: Seq<char>, value: Seq<char>, hash: Seq<char> },
}

impl View for DbWrite {
    type V = DbWriteView;

    open spec fn view(&self) -> DbWriteView {
        match *self {
            DbWrite::InsertCategory { hash, name } => DbWriteView::InsertCategory {
                hash: hash@,
                name: name@,
            },
            DbWrite::InsertProvider { parent_hash, hash, name } => DbWriteView::InsertProvider {
                parent_hash: parent_hash@,
                hash: hash@,
                name: name@,
            },
            DbWrite::SetFact { key, value, hash } => DbWriteView::SetFact {
                key: key@,
                value: value@,
                hash: hash@,
            },
        }
    }
}

pub open spec fn option_write(w: Option<DbWrite>) -> Option<DbWriteView> {
    match w {
        Some(x) => Some(x@),
        None => None,
    }
}

/// What applying an event came to, and what the store is to be told.
pub struct Step {
    pub outcome: Outcome,
    pub write: Option<DbWrite>,
}

/// A directory after an event, with the outcome and the store's part.
#[verifier::ext_equal]
pub struct Transition {
    pub state: StateView,
    pub outcome: Outcome,
    pub write: Option<DbWriteView>,
}

/// The label whose registration names the root of the directory.
pub open spec fn root_label() -> Seq<char> {
    "hpn-testing-beta"@
}

/// The store's column for a label: the label without its first character,
/// with `-` turned into `_`.
pub open spec fn column_key(label: Seq<char>) -> Seq<char> {
    Seq::new(
        if label.len() > 0 {
            (label.len() - 1) as nat
        } else {
            0
        },
        |i: int|
            if label[i + 1] == '-' {
                '_'
            } else {
                label[i + 1]
            },
    )
}

/// The columns that the store's schema provides for facts.
pub open spec fn provisioned(key: Seq<char>) -> bool {
    key == "provider_name"@ || key == "site"@ || key == "description"@
}

pub open spec fn unchanged(s: StateView, outcome: Outcome) -> Transition {
    Transition { state: s, outcome, write: None }
}

/// A registration: the root label names the root; a child of the root is a
/// category; a child of a category is a provider; anything else waits.
pub open spec fn mint_step(
    s: StateView,
    parent_hash: Seq<char>,
    child_hash: Seq<char>,
    label: Seq<char>,
) -> Transition {
    if label == root_label() {
        Transition {
            state: StateView { root_hash: Some(child_hash), ..s },
            outcome: Outcome::Applied,
            write: None,
        }
    } else if s.root_hash == Some(parent_hash) {
        Transition {
            state: StateView { categories: s.categories.insert(child_hash, label), ..s },
            outcome: Outcome::Applied,
            write: Some(DbWriteView::InsertCategory { hash: child_hash, name: label }),
        }
    } else if s.categories.dom().contains(parent_hash) {
        Transition {
            state: StateView {
                providers: s.providers.insert(
                    child_hash,
                    ProviderView {
                        category: s.categories[parent_hash],
                        name: label,
                        hash: child_hash,
                        facts: Map::empty(),
                    },
                ),
                ..s
            },
            outcome: Outcome::Applied,
            write: Some(
                DbWriteView::InsertProvider { parent_hash, hash: child_hash, name: label },
            ),
        }
    } else {
        unchanged(s, Outcome::Pending)
    }
}

/// The values recorded so far under `label`, oldest first.
pub open spec fn history(p: ProviderView, label: Seq<char>) -> Seq<Seq<char>> {
    if p.facts.dom().contains(label) {
        p.facts[label]
    } else {
        Seq::empty()
    }
}

/// An annotation: its payload must decode; its provider must be known; its
/// column must exist. Then the value joins the provider's history under the
/// label, and the store is told to overwrite the column.
pub open spec fn note_step(
    s: StateView,
    parent_hash: Seq<char>,
    label: Seq<char>,
    payload: Seq<char>,
) -> Transition {
    match datakey_of(encode_utf8(payload)) {
        Err(_) => unchanged(s, Outcome::Malformed),
        Ok(value) => {
            if !s.providers.dom().contains(parent_hash) {
                unchanged(s, Outcome::Pending)
            } else if !provisioned(column_key(label)) {
                unchanged(s, Outcome::PersistenceError)
            } else {
                let p = s.providers[parent_hash];
                Transition {
                    state: StateView {
                        providers: s.providers.insert(
                            parent_hash,
                            ProviderView {
                                facts: p.facts.insert(label, history(p, label).push(value)),
                                ..p
                            },
                        ),
                        ..s
                    },
                    outcome: Outcome::Applied,
                    write: Some(
                        DbWriteView::SetFact {
                            key: column_key(label),
                            value,
                            hash: parent_hash,
                        },
                    ),
                }
            }
        },
    }
}

/// Whether `key` is the store's column for `label`.
fn is_column(label: &str, key: &str) -> (r: bool)
    ensures
        r == (column_key(label@) == key@),
{
    let n = label.unicode_len();
    let m = key.unicode_len();
    if n == 0 {
        assert(column_key(label@).len() == 0);
        assert(m == 0 ==> column_key(label@) =~= key@);
        return m == 0;
    }
    if n - 1 != m {
        return false;
    }
    let mut i: usize = 0;
    while i < m
        invariant
            i <= m,
            n == label@.len(),
            m == key@.len(),
            n == m + 1,
            forall|k: int| 0 <= k < i ==> column_key(label@)[k] == key@[k],
        decreases m - i,
    {
        let c = label.get_char(i + 1);
        let expected = if c == '-' {
            '_'
        } else {
            c
        };
        if expected != key.get_char(i) {
            assert(column_key(label@)[i as int] != key@[i as int]);
            return false;
        }
        i = i + 1;
    }
    assert(column_key(label@) =~= key@);
    true
}

/// The name of the store's column for `label`, where the schema has one.
fn column_for(label: &str) -> (r: Option<String>)
    ensures
        r is Some <==> provisioned(column_key(label@)),
        r matches Some(key) ==> key@ == column_key(label@),
{
    if is_column(label, "provider_name") {
        Some("provider_name".to_owned())
    } else if is_column(label, "site") {
        Some("site".to_owned())
    } else if is_column(label, "description") {
        Some("description".to_owned())
    } else {
        None
    }
}

/// Applies a registration of `child_hash` under `parent_hash` with the label
/// `name`.
pub fn add_mint(state: &mut State, parent_hash: &str, child_hash: String, name: String) -> (step:
    Step)
    ensures
        final(state)@ == mint_step(old(state)@, parent_hash@, child_hash@, name@).state,
        step.outcome == mint_step(old(state)@, parent_hash@, child_hash@, name@).outcome,
        option_write(step.write) == mint_step(old(state)@, parent_hash@, child_hash@, name@).write,
{
    let ghost before = state@;
    if str_eq(name.as_str(), "hpn-testing-beta") {
        state.root_hash = Some(child_hash);
        assert(state@ =~= mint_step(before, parent_hash@, child_hash@, name@).state);
        return Step { outcome: Outcome::Applied, write: None };
    }
    let under_root = match &state.root_hash {
        Some(root) => str_eq(root.as_str(), parent_hash),
        None => false,
    };
    if under_root {
        state.categories.insert(child_hash.clone(), name.clone());
        assert(state@.categories =~= before.categories.insert(child_hash@, name@));
        assert(state@ =~= mint_step(before, parent_hash@, child_hash@, name@).state);
        return Step {
            outcome: Outcome::Applied,
            write: Some(DbWrite::InsertCategory { hash: child_hash, name }),
        };
    }
    let category = match state.categories.get(parent_hash) {
        Some(c) => Some(c.clone()),
        None => None,
    };
    match category {
        Some(category) => {
            let provider = Provider {
                category,
                name: name.clone(),
                hash: child_hash.clone(),
                facts: StringMap::new(),
            };
            assert(provider@.facts =~= Map::empty());
            assert(provider@ =~= mint_step(
                before,
                parent_hash@,
                child_hash@,
                name@,
            ).state.providers[child_hash@]);
            state.providers.insert(child_hash.clone(), provider);
            assert(state@.providers =~= before.providers.insert(child_hash@, provider@));
            assert(state@ =~= mint_step(before, parent_hash@, child_hash@, name@).state);
            Step {
                outcome: Outcome::Applied,
                write: Some(
                    DbWrite::InsertProvider {
                        parent_hash: parent_hash.to_owned(),
                        hash: child_hash,
                        name,
                    },
                ),
            }
        },
        None => {
            assert(state@ =~= before);
            Step { outcome: Outcome::Pending, write: None }
        },
    }
}

/// Applies an annotation of `parent_hash` under `note_label`, whose value is
/// given as hex text.
pub fn add_note(state: &mut State, parent_hash: &str, note_label: String, data: &str) -> (step:
    Step)
    ensures
        final(state)@ == note_step(old(state)@, parent_hash@, note_label@, data@).state,
        step.outcome == note_step(old(state)@, parent_hash@, note_label@, data@).outcome,
        option_write(step.write) == note_step(old(state)@, parent_hash@, note_label@, data@).write,
{
    let ghost before = state@;
    let ghost old_providers = state.providers@;
    let value = match decode_datakey(data) {
        Ok(v) => v,
        Err(_) => {
            return Step { outcome: Outcome::Malformed, write: None };
        },
    };
    if !state.providers.contains_key(parent_hash) {
        return Step { outcome: Outcome::Pending, write: None };
    }
    let key = match column_for(note_label.as_str()) {
        Some(k) => k,
        None => {
            return Step { outcome: Outcome::PersistenceError, write: None };
        },
    };
    let mut provider = state.providers.remove(parent_hash).unwrap();
    let ghost p = provider@;
    let ghost old_facts = provider.facts@;
    let mut values = match provider.facts.remove(note_label.as_str()) {
        Some(h) => h,
        None => Vec::new(),
    };
    assert(texts(values@) =~= history(p, note_label@));
    let ghost old_values = values@;
    values.push(value.clone());
    assert(texts(values@) =~= texts(old_values).push(value@));
    provider.facts.insert(note_label, values);
    assert(provider@.facts =~= p.facts.insert(note_label@, history(p, note_label@).push(value@)));
    state.providers.insert(parent_hash.to_owned(), provider);
    assert(state@.providers =~= before.providers.insert(parent_hash@, provider@));
    assert(state@ =~= note_step(before, parent_hash@, note_label@, data@).state);
    Step {
        outcome: Outcome::Applied,
        write: Some(DbWrite::SetFact { key, value, hash: parent_hash.to_owned() }),
    }
}

/// Events that wait for what they depend on, each with the number of
/// retries made on it.
pub type PendingLogs = Vec<(Log, u8)>;

pub open spec fn queue_view(queue: Seq<(Log, u8)>) -> Seq<(LogView, u8)> {
    queue.map_values(|e: (Log, u8)| (e.0@, e.1))
}

/// The read cursor after a log from `block`: it moves forward to the block,
/// never back.
pub open spec fn advance(cursor: u64, block: Option<u64>) -> u64 {
    match block {
        Some(b) => if b > cursor {
            b
        } else {
            cursor
        },
        None => cursor,
    }
}

/// One event against the directory. The cursor moves whatever the outcome.
pub open spec fn event_step(
    s: StateView,
    event: Option<EventView>,
    block: Option<u64>,
) -> Transition {
    let moved = StateView { last_checkpoint_block: advance(s.last_checkpoint_block, block), ..s };
    match event {
        None => unchanged(moved, Outcome::Malformed),
        Some(EventView::Unrecognized) => unchanged(moved, Outcome::Ignored),
        Some(EventView::Mint { parent_hash, child_hash, label }) => mint_step(
            moved,
            parent_hash,
            child_hash,
            label,
        ),
        Some(EventView::Note { parent_hash, label, payload }) => note_step(
            moved,
            parent_hash,
            label,
            payload,
        ),
    }
}

/// One log against the directory.
pub open spec fn log_step(s: StateView, log: LogView) -> Transition {
    event_step(s, event_of(log), log.block_number)
}

/// An event stays in the queue while it waits and the retries made on it,
/// `retries`, are below the ceiling.
pub open spec fn keeps_waiting(outcome: Outcome, retries: u8) -> bool {
    outcome == Outcome::Pending && retries < MAX_PENDING_ATTEMPTS
}

/// Applies a decoded event, or records that a log could not be decoded, and
/// moves the cursor to `block_number`.
pub fn handle_event(state: &mut State, event: Option<Event>, block_number: Option<u64>) -> (step:
    Step)
    ensures
        final(state)@ == event_step(old(state)@, option_event(event), block_number).state,
        step.outcome == event_step(old(state)@, option_event(event), block_number).outcome,
        option_write(step.write) == event_step(
            old(state)@,
            option_event(event),
            block_number,
        ).write,
{
    let ghost before = state@;
    match block_number {
        Some(b) => {
            if b > state.last_checkpoint_block {
                state.last_checkpoint_block = b;
            }
        },
        None => {},
    }
    assert(state@ =~= StateView {
        last_checkpoint_block: advance(before.last_checkpoint_block, block_number),
        ..before
    });
    match event {
        None => Step { outcome: Outcome::Malformed, write: None },
        Some(Event::Unrecognized) => Step { outcome: Outcome::Ignored, write: None },
        Some(Event::Mint { parent_hash, child_hash, label }) => add_mint(
            state,
            parent_hash.as_str(),
            child_hash,
            label,
        ),
        Some(Event::Note { parent_hash, label, payload }) => add_note(
            state,
            parent_hash.as_str(),
            label,
            payload.as_str(),
        ),
    }
}

/// Decodes a log and applies it. `attempt` is the number of retries made on
/// the log, this one counted: 0 for a log that arrives. An event that has to
/// wait joins the queue with that number, unless it has reached the ceiling.
pub fn handle_log(state: &mut State, pending: &mut PendingLogs, log: &Log, attempt: u8) -> (step:
    Step)
    ensures
        final(state)@ == log_step(old(state)@, log@).state,
        step.outcome == log_step(old(state)@, log@).outcome,
        option_write(step.write) == log_step(old(state)@, log@).write,
        queue_view(final(pending)@) == if keeps_waiting(step.outcome, attempt) {
            queue_view(old(pending)@).push((log@, attempt))
        } else {
            queue_view(old(pending)@)
        },
{
    let event = decode_log(log);
    let step = handle_event(state, event, log.block_number);
    match step.outcome {
        Outcome::Pending => {
            if attempt < MAX_PENDING_ATTEMPTS {
                let ghost before = pending@;
                pending.push((clone_log(log), attempt));
                assert(queue_view(pending@) =~= queue_view(before).push((log@, attempt)));
            }
        },
        _ => {},
    }
    step
}

/// The directory, the queue and the store's writes in the course of a run of
/// logs.
#[verifier::ext_equal]
pub struct Run {
    pub state: StateView,
    pub pending: Seq<(LogView, u8)>,
    pub writes: Seq<DbWriteView>,
}

/// The run made of a directory, a queue and a list of writes.
pub open spec fn run_of(state: State, pending: Seq<(Log, u8)>, writes: Seq<DbWrite>) -> Run {
    Run { state: state@, pending: queue_view(pending), writes: writes_view(writes) }
}

/// A run that starts from a directory and a queue, with nothing written yet.
pub open spec fn run_from(state: State, pending: Seq<(Log, u8)>) -> Run {
    Run { state: state@, pending: queue_view(pending), writes: Seq::empty() }
}

pub open spec fn writes_view(writes: Seq<DbWrite>) -> Seq<DbWriteView> {
    writes.map_values(|w: DbWrite| w@)
}

/// A run after one more log, submitted as retry number `attempt`.
pub open spec fn submit(r: Run, log: LogView, attempt: u8) -> Run {
    let t = log_step(r.state, log);
    Run {
        state: t.state,
        pending: if keeps_waiting(t.outcome, attempt) {
            r.pending.push((log, attempt))
        } else {
            r.pending
        },
        writes: match t.write {
            Some(w) => r.writes.push(w),
            None => r.writes,
        },
    }
}

/// A run after each entry of `queue` has had its turn, in order: an entry at
/// the ceiling is dropped unseen, any other is submitted once more, which
/// counts as one more retry.
pub open spec fn retry_all(r: Run, queue: Seq<(LogView, u8)>) -> Run
    decreases queue.len(),
{
    if queue.len() == 0 {
        r
    } else {
        let earlier = retry_all(r, queue.drop_last());
        let entry = queue.last();
        if entry.1 >= MAX_PENDING_ATTEMPTS {
            earlier
        } else {
            submit(earlier, entry.0, (entry.1 + 1) as u8)
        }
    }
}

/// A run after each of `logs` has been submitted for the first time, in
/// order.
pub open spec fn feed_all(r: Run, logs: Seq<LogView>) -> Run
    decreases logs.len(),
{
    if logs.len() == 0 {
        r
    } else {
        submit(feed_all(r, logs.drop_last()), logs.last(), 0)
    }
}

pub open spec fn logs_view(logs: Seq<Log>) -> Seq<LogView> {
    logs.map_values(|l: Log| l@)
}

/// Submits one log within a run, and collects what the store is to be told.
fn submit_log(
    state: &mut State,
    pending: &mut PendingLogs,
    writes: &mut Vec<DbWrite>,
    log: &Log,
    attempt: u8,
)
    ensures
        run_of(*final(state), final(pending)@, final(writes)@) == submit(
            run_of(*old(state), old(pending)@, old(writes)@),
            log@,
            attempt,
        ),
{
    let ghost before = writes@;
    let step = handle_log(state, pending, log, attempt);
    match step.write {
        Some(w) => {
            writes.push(w);
            assert(writes_view(writes@) =~= writes_view(before).push(w@));
        },
        None => {},
    }
}

/// Gives every pending event one more attempt. What comes back is what the
/// store is to be told, in order; the queue then holds the events that still
/// wait, their retries counted. An event whose retries reach the ceiling is
/// dropped.
pub fn handle_pending(state: &mut State, pending: &mut PendingLogs) -> (writes: Vec<DbWrite>)
    ensures
        run_of(*final(state), final(pending)@, writes@) == retry_all(
            run_from(*old(state), Seq::empty()),
            queue_view(old(pending)@),
        ),
{
    let ghost start = run_from(*state, Seq::empty());
    let mut queue: PendingLogs = Vec::new();
    core::mem::swap(pending, &mut queue);
    let mut writes: Vec<DbWrite> = Vec::new();
    assert(queue_view(pending@) =~= Seq::empty());
    assert(writes_view(writes@) =~= Seq::empty());
    assert(queue_view(Seq::<(Log, u8)>::empty()) =~= Seq::empty());
    let mut i: usize = 0;
    while i < queue.len()
        invariant
            i <= queue@.len(),
            run_of(*state, pending@, writes@) == retry_all(
                start,
                queue_view(queue@).take(i as int),
            ),
        decreases queue@.len() - i,
    {
        let ghost done = queue_view(queue@).take(i as int);
        let ghost next = queue_view(queue@).take(i + 1);
        assert(next.drop_last() =~= done);
        assert(next.last() == (queue@[i as int].0@, queue@[i as int].1));
        if queue[i].1 < MAX_PENDING_ATTEMPTS {
            submit_log(state, pending, &mut writes, &queue[i].0, queue[i].1 + 1);
        }
        i = i + 1;
    }
    assert(queue_view(queue@).take(i as int) =~= queue_view(queue@));
    writes
}

/// Submits freshly fetched logs, in the order given. What comes back is what
/// the store is to be told, in order.
pub fn process_logs(state: &mut State, pending: &mut PendingLogs, logs: &Vec<Log>) -> (writes: Vec<
    DbWrite,
>)
    ensures
        run_of(*final(state), final(pending)@, writes@) == feed_all(
            run_from(*old(state), old(pending)@),
            logs_view(logs@),
        ),
{
    let ghost start = run_from(*state, pending@);
    let mut writes: Vec<DbWrite> = Vec::new();
    assert(writes_view(writes@) =~= Seq::empty());
    let mut i: usize = 0;
    while i < logs.len()
        invariant
            i <= logs@.len(),
            run_of(*state, pending@, writes@) == feed_all(start, logs_view(logs@).take(i as int)),
        decreases logs@.len() - i,
    {
        let ghost done = logs_view(logs@).take(i as int);
        let ghost next = logs_view(logs@).take(i + 1);
        assert(next.drop_last() =~= done);
        assert(next.last() == logs@[i as int]@);
        submit_log(state, pending, &mut writes, &logs[i], 0);
        i = i + 1;
    }
    assert(logs_view(logs@).take(i as int) =~= logs_view(logs@));
    writes
}

/// Which logs to ask the chain for: those of one event of one contract, from
/// a block up to the latest.
pub struct Filter {
    pub address: String,
    pub from_block: u64,
    /// Signature of the event.
    pub event: String,
    /// Where not empty, the values that the event's third indexed argument
    /// may take.
    pub topic3: Vec<[u8; 32]>,
}

/// The view of [`Filter`] that contracts speak of.
#[verifier::ext_equal]
pub struct FilterView {
    pub address: Seq<char>,
    pub from_block: u64,
    pub event: Seq<char>,
    pub topic3: Seq<Seq<u8>>,
}

impl View for Filter {
    type V = FilterView;

    open spec fn view(&self) -> FilterView {
        FilterView {
            address: self.address@,
            from_block: self.from_block,
            event: self.event@,
            topic3: topics_view(self.topic3@),
        }
    }
}

/// Registrations, from the cursor on.
pub open spec fn mint_filter(s: StateView) -> FilterView {
    FilterView {
        address: s.contract_address,
        from_block: s.last_checkpoint_block,
        event: mint_signature(),
        topic3: Seq::empty(),
    }
}

/// The hash by which an annotation's label is indexed.
pub open spec fn label_hash(label: Seq<char>) -> Seq<u8> {
    keccak256_of(encode_utf8(label))
}

/// Annotations under one of the three labels that the directory keeps, from
/// the cursor on.
pub open spec fn note_filter(s: StateView) -> FilterView {
    FilterView {
        address: s.contract_address,
        from_block: s.last_checkpoint_block,
        event: note_signature(),
        topic3: seq![
            label_hash("~site"@),
            label_hash("~description"@),
            label_hash("~provider-name"@),
        ],
    }
}

fn make_mint_filter(state: &State) -> (r: Filter)
    ensures
        r@ == mint_filter(state@),
{
    let r = Filter {
        address: state.contract_address.clone(),
        from_block: state.last_checkpoint_block,
        event: "Mint(bytes32,bytes32,bytes,bytes)".to_owned(),
        topic3: Vec::new(),
    };
    assert(r@.topic3 =~= Seq::empty());
    r
}

fn make_note_filter(state: &State) -> (r: Filter)
    ensures
        r@ == note_filter(state@),
{
    let mut topic3: Vec<[u8; 32]> = Vec::new();
    topic3.push(keccak256("~site".as_bytes()));
    topic3.push(keccak256("~description".as_bytes()));
    topic3.push(keccak256("~provider-name".as_bytes()));
    let r = Filter {
        address: state.contract_address.clone(),
        from_block: state.last_checkpoint_block,
        event: "Note(bytes32,bytes32,bytes,bytes,bytes)".to_owned(),
        topic3,
    };
    assert(r@.topic3 =~= note_filter(state@).topic3);
    r
}

/// The two subscriptions of the directory: registrations and annotations,
/// both from the cursor on.
pub fn make_filters(state: &State) -> (r: (Filter, Filter))
    ensures
        r.0@ == mint_filter(state@),
        r.1@ == note_filter(state@),
{
    (make_mint_filter(state), make_note_filter(state))
}

/// What the caller is to do for the directory.
pub enum Action {
    /// Subscribe to live logs under `id`.
    Subscribe { id: u64, filter: Filter },
    /// Fire a timer once after `delay_ms`; `checkpoint` tells the checkpoint
    /// timer from the retry timer.
    SetTimer { delay_ms: u64, checkpoint: bool },
    /// Fetch the logs of the past, again and again until the chain answers,
    /// and hand them over.
    Fetch { filter: Filter },
}

/// The view of [`Action`] that contracts speak of.
pub enum ActionView {
    Subscribe { id: u64, filter: FilterView },
    SetTimer { delay_ms: u64, checkpoint: bool },
    Fetch { filter: FilterView },
}

impl View for Action {
    type V = ActionView;

    open spec fn view(&self) -> ActionView {
        match *self {
            Action::Subscribe { id, filter } => ActionView::Subscribe { id, filter: filter@ },
            Action::SetTimer { delay_ms, checkpoint } => ActionView::SetTimer {
                delay_ms,
                checkpoint,
            },
            Action::Fetch { filter } => ActionView::Fetch { filter: filter@ },
        }
    }
}

pub open spec fn actions_view(actions: Seq<Action>) -> Seq<ActionView> {
    actions.map_values(|a: Action| a@)
}

/// Subscription of the registrations.
pub const MINT_SUBSCRIPTION: u64 = 1;

/// Subscription of the annotations.
pub const NOTE_SUBSCRIPTION: u64 = 2;

/// How ingestion starts: both subscriptions, both timers, then the past of
/// each filter, registrations first.
pub open spec fn start_plan(s: StateView) -> Seq<ActionView> {
    seq![
        ActionView::Subscribe { id: MINT_SUBSCRIPTION, filter: mint_filter(s) },
        ActionView::Subscribe { id: NOTE_SUBSCRIPTION, filter: note_filter(s) },
        ActionView::SetTimer { delay_ms: DELAY_MS, checkpoint: false },
        ActionView::SetTimer { delay_ms: CHECKPOINT_MS, checkpoint: true },
        ActionView::Fetch { filter: mint_filter(s) },
        ActionView::Fetch { filter: note_filter(s) },
    ]
}

/// What to do, in order, to start ingestion from the cursor. The queue of
/// pending events starts empty.
pub fn start_fetch(state: &State) -> (r: (Vec<Action>, PendingLogs))
    ensures
        actions_view(r.0@) == start_plan(state@),
        r.1@.len() == 0,
{
    let mut actions: Vec<Action> = Vec::new();
    actions.push(Action::Subscribe { id: MINT_SUBSCRIPTION, filter: make_mint_filter(state) });
    actions.push(Action::Subscribe { id: NOTE_SUBSCRIPTION, filter: make_note_filter(state) });
    actions.push(Action::SetTimer { delay_ms: DELAY_MS, checkpoint: false });
    actions.push(Action::SetTimer { delay_ms: CHECKPOINT_MS, checkpoint: true });
    actions.push(Action::Fetch { filter: make_mint_filter(state) });
    actions.push(Action::Fetch { filter: make_note_filter(state) });
    assert(actions_view(actions@) =~= start_plan(state@));
    (actions, Vec::new())
}

/// What follows a request for the logs of the past.
#[derive(Clone, Copy, Debug, PartialEq, Eq, Structural)]
pub enum FetchNext {
    /// The chain answered: hand its logs to `process_logs`.
    Feed,
    /// The chain did not answer: wait `secs` seconds and ask again.
    RetryAfter { secs: u64 },
}

/// Decides what follows a request for the logs of the past. A request that
/// the chain did not answer is made again after a fixed delay, however often
/// that has happened before.
pub fn after_fetch(answered: bool) -> (r: FetchNext)
    ensures
        answered ==> r is Feed,
        !answered ==> r == (FetchNext::RetryAfter { secs: FETCH_RETRY_SECS }),
{
    if answered {
        FetchNext::Feed
    } else {
        FetchNext::RetryAfter { secs: FETCH_RETRY_SECS }
    }
}

/// Starts over: a fresh directory for `config`, started at `started`, with
/// what is to be done to start ingestion from its first block, and an empty
/// queue.
pub fn reset(config: &ChainConfig, started: u64) -> (r: (State, Vec<Action>, PendingLogs))
    ensures
        r.0@ == fresh_state(*config, started),
        actions_view(r.1@) == start_plan(r.0@),
        r.2@.len() == 0,
{
    let state = State::new(config, started);
    let (actions, pending) = start_fetch(&state);
    (state, actions, pending)
}

/// What the chain's messenger delivers.
pub enum EthMessage {
    /// A live log.
    Log(Log),
    /// The subscription `id` broke.
    SubscriptionError { id: u64 },
    /// Anything else.
    Other,
}

/// The answer to a message of the chain's messenger.
pub enum EthAction {
    /// A log was applied. The retry timer is to be set where `retry`: the
    /// log is the first to wait.
    Processed { step: Step, retry: bool },
    /// The subscription is to be made again, from the cursor on.
    Resubscribe { id: u64, filter: Filter },
    Nothing,
}

/// Handles a message of the chain's messenger: a log is applied as a first
/// attempt; a broken subscription of the directory is made again with its
/// filter rebuilt from the cursor; anything else changes nothing.
pub fn handle_eth_message(state: &mut State, pending: &mut PendingLogs, message: &EthMessage) -> (r:
    EthAction)
    ensures
        match *message {
            EthMessage::Log(log) => {
                &&& r matches EthAction::Processed { step, retry }
                &&& retry == (old(pending)@.len() == 0 && final(pending)@.len() > 0)
                &&& final(state)@ == log_step(old(state)@, log@).state
                &&& step.outcome == log_step(old(state)@, log@).outcome
                &&& option_write(step.write) == log_step(old(state)@, log@).write
                &&& queue_view(final(pending)@) == if keeps_waiting(step.outcome, 0) {
                    queue_view(old(pending)@).push((log@, 0u8))
                } else {
                    queue_view(old(pending)@)
                }
            },
            EthMessage::SubscriptionError { id } => {
                &&& *final(state) == *old(state)
                &&& *final(pending) == *old(pending)
                &&& if id == MINT_SUBSCRIPTION {
                    r matches EthAction::Resubscribe { id: again, filter } && again == id
                        && filter@ == mint_filter(old(state)@)
                } else if id == NOTE_SUBSCRIPTION {
                    r matches EthAction::Resubscribe { id: again, filter } && again == id
                        && filter@ == note_filter(old(state)@)
                } else {
                    r is Nothing
                }
            },
            EthMessage::Other => {
                &&& *final(state) == *old(state)
                &&& *final(pending) == *old(pending)
                &&& r is Nothing
            },
        },
{
    match message {
        EthMessage::Log(log) => {
            let idle = pending.len() == 0;
            let step = handle_log(state, pending, log, 0);
            EthAction::Processed { step, retry: idle && pending.len() > 0 }
        },
        EthMessage::SubscriptionError { id } => {
            if *id == MINT_SUBSCRIPTION {
                EthAction::Resubscribe { id: *id, filter: make_mint_filter(state) }
            } else if *id == NOTE_SUBSCRIPTION {
                EthAction::Resubscribe { id: *id, filter: make_note_filter(state) }
            } else {
                EthAction::Nothing
            }
        },
        EthMessage::Other => EthAction::Nothing,
    }
}

/// What a timer's firing asks of the caller.
pub struct TimerActions {
    /// Save the directory as it now is.
    pub save: bool,
    /// Set the checkpoint timer again.
    pub rearm_checkpoint: bool,
    /// Set the retry timer: events still wait.
    pub retry: bool,
    /// What the store is to be told, in order.
    pub writes: Vec<DbWrite>,
}

/// The directory with its cursor moved to the chain's head, where the head
/// is known.
pub open spec fn at_head(s: StateView, head: Option<u64>) -> StateView {
    StateView { last_checkpoint_block: advance(s.last_checkpoint_block, head), ..s }
}

/// Handles a timer's firing. `head` is the chain's latest block, where the
/// chain answered. The cursor moves to the head; every pending event gets one
/// more attempt. A checkpoint timer is always set again, and the directory is
/// saved if the head is known; the retry timer is set again while events
/// wait.
pub fn handle_timer(
    state: &mut State,
    pending: &mut PendingLogs,
    head: Option<u64>,
    is_checkpoint: bool,
) -> (r: TimerActions)
    ensures
        r.save == (is_checkpoint && head is Some),
        r.rearm_checkpoint == is_checkpoint,
        r.retry == (final(pending)@.len() > 0),
        retry_all(
            (Run { state: at_head(old(state)@, head), pending: Seq::empty(), writes: Seq::empty() }),
            queue_view(old(pending)@),
        ) == run_of(*final(state), final(pending)@, r.writes@),
{
    let ghost before = state@;
    match head {
        Some(b) => {
            if b > state.last_checkpoint_block {
                state.last_checkpoint_block = b;
            }
        },
        None => {},
    }
    assert(state@ =~= at_head(before, head));
    assert(queue_view(Seq::<(Log, u8)>::empty()) =~= Seq::empty());
    let writes = handle_pending(state, pending);
    TimerActions {
        save: is_checkpoint && head.is_some(),
        rearm_checkpoint: is_checkpoint,
        retry: pending.len() > 0,
        writes,
    }
}

} // verus!
