//! What holds of the directory whatever the events.

use vstd::prelude::*;
use vstd::utf8::*;
use crate::chain::{
    advance, at_head, column_key, event_step, feed_all, history, log_step, mint_step, note_step,
    provisioned, retry_all, root_label, submit, DbWriteView, Outcome, Run, Transition,
};
use crate::events::{event_of, EventView, LogView};
use crate::helpers::{
    all_hex, all_printable, datakey_of, hex_bytes, strip_hex_prefix, DecodeError,
};
use crate::store::{after_step, lemma_later_fact_stands, lemma_write_idempotent, Tables};
use crate::structs::{ProviderView, StateView, MAX_PENDING_ATTEMPTS};

verus! {

/// An event is an applied annotation where it is an annotation that the
/// directory takes: such an event adds to a history each time.
pub open spec fn is_applied_note(
    s: StateView,
    event: Option<EventView>,
    block: Option<u64>,
) -> bool {
    event matches Some(EventView::Note { .. }) && event_step(s, event, block).outcome
        == Outcome::Applied
}

/// Applying an event a second time ends as the first time did and asks the
/// same of the store; and it leaves the directory as it was after the first
/// time, unless the event is an annotation that was applied.
pub proof fn lemma_event_idempotent(s: StateView, event: Option<EventView>, block: Option<u64>)
    ensures
        event_step(event_step(s, event, block).state, event, block).outcome == event_step(
            s,
            event,
            block,
        ).outcome,
        event_step(event_step(s, event, block).state, event, block).write == event_step(
            s,
            event,
            block,
        ).write,
        !is_applied_note(s, event, block) ==> event_step(
            event_step(s, event, block).state,
            event,
            block,
        ).state == event_step(s, event, block).state,
{
    let once = event_step(s, event, block);
    let twice = event_step(once.state, event, block);
    match event {
        Some(EventView::Mint { parent_hash, child_hash, label }) => {
            if label == root_label() {
            } else if s.root_hash == Some(parent_hash) {
                assert(twice.state.categories =~= once.state.categories);
            } else if s.categories.dom().contains(parent_hash) {
                assert(twice.state.providers =~= once.state.providers);
            }
            assert(twice.state =~= once.state);
        },
        Some(EventView::Note { parent_hash, label, payload }) => {},
        _ => {},
    }
}

/// Applying an event twice leaves the store's tables as applying it once.
pub proof fn lemma_rows_idempotent(
    s: StateView,
    t: Tables,
    event: Option<EventView>,
    block: Option<u64>,
)
    ensures
        after_step(
            after_step(t, event_step(s, event, block).write),
            event_step(event_step(s, event, block).state, event, block).write,
        ) == after_step(t, event_step(s, event, block).write),
{
    lemma_event_idempotent(s, event, block);
    match event_step(s, event, block).write {
        Some(w) => {
            lemma_write_idempotent(t, w);
        },
        None => {},
    }
}

/// A registration under the root label sets the root to its child, whatever
/// the root was, and touches neither categories nor providers nor the store.
pub proof fn lemma_root_precedence(s: StateView, parent_hash: Seq<char>, child_hash: Seq<char>)
    ensures
        mint_step(s, parent_hash, child_hash, root_label()).outcome == Outcome::Applied,
        mint_step(s, parent_hash, child_hash, root_label()).write is None,
        mint_step(s, parent_hash, child_hash, root_label()).state == (StateView {
            root_hash: Some(child_hash),
            ..s
        }),
{
}

/// Of two registrations under the root label, the later names the root.
pub proof fn lemma_last_root_wins(
    s: StateView,
    first_parent: Seq<char>,
    first_child: Seq<char>,
    second_parent: Seq<char>,
    second_child: Seq<char>,
)
    ensures
        mint_step(
            mint_step(s, first_parent, first_child, root_label()).state,
            second_parent,
            second_child,
            root_label(),
        ).state == (StateView { root_hash: Some(second_child), ..s }),
{
}

/// Two annotations of one provider under one label, both applied, stand in
/// its history in the order of their arrival, after what was there; and the
/// store is told to overwrite the column with each value in turn, so that
/// its tables end with the later one.
pub proof fn lemma_facts_accumulate(
    s: StateView,
    t: Tables,
    parent_hash: Seq<char>,
    label: Seq<char>,
    first: Seq<char>,
    second: Seq<char>,
)
    requires
        s.providers.dom().contains(parent_hash),
        provisioned(column_key(label)),
        datakey_of(encode_utf8(first)) is Ok,
        datakey_of(encode_utf8(second)) is Ok,
    ensures
        ({
            let one = note_step(s, parent_hash, label, first);
            let two = note_step(one.state, parent_hash, label, second);
            let a = datakey_of(encode_utf8(first))->Ok_0;
            let b = datakey_of(encode_utf8(second))->Ok_0;
            &&& one.outcome == Outcome::Applied
            &&& two.outcome == Outcome::Applied
            &&& two.state.providers.dom().contains(parent_hash)
            &&& history(two.state.providers[parent_hash], label) == history(
                s.providers[parent_hash],
                label,
            ).push(a).push(b)
            &&& two.write == Some(
                DbWriteView::SetFact { key: column_key(label), value: b, hash: parent_hash },
            )
            &&& t.providers.dom().contains(parent_hash) ==> after_step(
                after_step(t, one.write),
                two.write,
            ).providers[parent_hash].facts[column_key(label)] == b
        }),
{
    let a = datakey_of(encode_utf8(first))->Ok_0;
    let b = datakey_of(encode_utf8(second))->Ok_0;
    if t.providers.dom().contains(parent_hash) {
        lemma_later_fact_stands(t, column_key(label), parent_hash, a, b);
    }
}

/// A payload with an odd number of hex digits, with a character that is no
/// hex digit, with bytes that are not UTF-8, or with a character that does
/// not print, is rejected, each for its own reason.
pub proof fn lemma_malformed_payloads(raw: Seq<u8>)
    ensures
        strip_hex_prefix(raw).len() % 2 != 0 ==> datakey_of(raw) == Err::<Seq<char>, DecodeError>(
            DecodeError::OddLength,
        ),
        strip_hex_prefix(raw).len() % 2 == 0 && !all_hex(strip_hex_prefix(raw)) ==> datakey_of(raw)
            == Err::<Seq<char>, DecodeError>(DecodeError::InvalidHexDigit),
        strip_hex_prefix(raw).len() % 2 == 0 && all_hex(strip_hex_prefix(raw)) && !valid_utf8(
            hex_bytes(strip_hex_prefix(raw)),
        ) ==> datakey_of(raw) == Err::<Seq<char>, DecodeError>(DecodeError::InvalidUtf8),
        strip_hex_prefix(raw).len() % 2 == 0 && all_hex(strip_hex_prefix(raw)) && valid_utf8(
            hex_bytes(strip_hex_prefix(raw)),
        ) && !all_printable(hex_bytes(strip_hex_prefix(raw))) ==> datakey_of(raw) == Err::<
            Seq<char>,
            DecodeError,
        >(DecodeError::NonPrintable),
{
}

/// An annotation whose payload does not decode changes nothing in the
/// directory and asks nothing of the store.
pub proof fn lemma_malformed_note_changes_nothing(
    s: StateView,
    parent_hash: Seq<char>,
    label: Seq<char>,
    payload: Seq<char>,
)
    requires
        datakey_of(encode_utf8(payload)) is Err,
    ensures
        note_step(s, parent_hash, label, payload) == (Transition {
            state: s,
            outcome: Outcome::Malformed,
            write: None,
        }),
{
}

/// A log that cannot be read, or whose payload does not decode, never joins
/// the queue, whatever the attempt, and asks nothing of the store. Of the
/// directory it moves the cursor and nothing else; where it names no block
/// beyond the cursor, it changes nothing at all.
pub proof fn lemma_malformed_never_queued(r: Run, log: LogView, attempt: u8)
    requires
        log_step(r.state, log).outcome == Outcome::Malformed,
    ensures
        submit(r, log, attempt).pending == r.pending,
        submit(r, log, attempt).writes == r.writes,
        submit(r, log, attempt).state == at_head(r.state, log.block_number),
        advance(r.state.last_checkpoint_block, log.block_number) == r.state.last_checkpoint_block
            ==> submit(r, log, attempt) == r,
{
    let moved = at_head(r.state, log.block_number);
    match event_of(log) {
        Some(EventView::Mint { parent_hash, child_hash, label }) => {},
        Some(EventView::Note { parent_hash, label, payload }) => {},
        _ => {},
    }
    assert(submit(r, log, attempt).state =~= moved);
    if advance(r.state.last_checkpoint_block, log.block_number) == r.state.last_checkpoint_block {
        assert(moved =~= r.state);
    }
}

/// No event moves the cursor back.
pub proof fn lemma_step_keeps_cursor(s: StateView, event: Option<EventView>, block: Option<u64>)
    ensures
        event_step(s, event, block).state.last_checkpoint_block >= s.last_checkpoint_block,
        event_step(s, event, block).state.last_checkpoint_block == advance(
            s.last_checkpoint_block,
            block,
        ),
{
}

/// No first submission of logs moves the cursor back.
pub proof fn lemma_feed_keeps_cursor(r: Run, logs: Seq<LogView>)
    ensures
        feed_all(r, logs).state.last_checkpoint_block >= r.state.last_checkpoint_block,
    decreases logs.len(),
{
    if logs.len() > 0 {
        lemma_feed_keeps_cursor(r, logs.drop_last());
        lemma_step_keeps_cursor(
            feed_all(r, logs.drop_last()).state,
            event_of(logs.last()),
            logs.last().block_number,
        );
    }
}

/// No round of retries moves the cursor back.
pub proof fn lemma_retry_keeps_cursor(r: Run, queue: Seq<(LogView, u8)>)
    ensures
        retry_all(r, queue).state.last_checkpoint_block >= r.state.last_checkpoint_block,
    decreases queue.len(),
{
    if queue.len() > 0 {
        lemma_retry_keeps_cursor(r, queue.drop_last());
        lemma_step_keeps_cursor(
            retry_all(r, queue.drop_last()).state,
            event_of(queue.last().0),
            queue.last().0.block_number,
        );
    }
}

/// No timer's firing moves the cursor back, whatever the chain's head.
pub proof fn lemma_timer_keeps_cursor(s: StateView, head: Option<u64>, queue: Seq<(LogView, u8)>)
    ensures
        retry_all(
            Run { state: at_head(s, head), pending: Seq::empty(), writes: Seq::empty() },
            queue,
        ).state.last_checkpoint_block >= s.last_checkpoint_block,
{
    lemma_retry_keeps_cursor(
        Run { state: at_head(s, head), pending: Seq::empty(), writes: Seq::empty() },
        queue,
    );
}

/// After a round of retries every entry of the queue has fewer attempts
/// behind it than the ceiling.
pub proof fn lemma_queue_below_ceiling(r: Run, queue: Seq<(LogView, u8)>)
    requires
        forall|i: int|
            0 <= i < r.pending.len() ==> (#[trigger] r.pending[i]).1 < MAX_PENDING_ATTEMPTS,
    ensures
        forall|i: int|
            0 <= i < retry_all(r, queue).pending.len() ==> (#[trigger] retry_all(
                r,
                queue,
            ).pending[i]).1 < MAX_PENDING_ATTEMPTS,
    decreases queue.len(),
{
    if queue.len() > 0 {
        lemma_queue_below_ceiling(r, queue.drop_last());
    }
}

/// A run that starts from a directory with nothing waiting.
pub open spec fn fresh_run(s: StateView) -> Run {
    Run { state: s, pending: Seq::empty(), writes: Seq::empty() }
}

/// A run after one round of retries over all that waits.
pub open spec fn tick(r: Run) -> Run {
    retry_all(Run { state: r.state, pending: Seq::empty(), writes: r.writes }, r.pending)
}

/// A category's registration `category` and, under that category, a
/// provider's registration `provider`, in a directory that knows the root
/// and not yet the category.
pub open spec fn out_of_order(
    s: StateView,
    category: LogView,
    provider: LogView,
    root: Seq<char>,
    x: Seq<char>,
    y: Seq<char>,
    category_name: Seq<char>,
    provider_name: Seq<char>,
) -> bool {
    &&& s.root_hash == Some(root)
    &&& x != root
    &&& !s.categories.dom().contains(x)
    &&& category_name != root_label()
    &&& provider_name != root_label()
    &&& event_of(category) == Some(
        EventView::Mint { parent_hash: root, child_hash: x, label: category_name },
    )
    &&& event_of(provider) == Some(
        EventView::Mint { parent_hash: x, child_hash: y, label: provider_name },
    )
}

/// A run after `n` rounds of retries.
pub open spec fn ticks(r: Run, n: nat) -> Run
    decreases n,
{
    if n == 0 {
        r
    } else {
        tick(ticks(r, (n - 1) as nat))
    }
}

/// A registration whose parent is neither the root nor a category.
pub open spec fn waits_for_parent(s: StateView, log: LogView, parent_hash: Seq<char>) -> bool {
    &&& event_of(log) matches Some(EventView::Mint { parent_hash: p, label, .. })
    &&& p == parent_hash
    &&& label != root_label()
    &&& s.root_hash != Some(parent_hash)
    &&& !s.categories.dom().contains(parent_hash)
}

proof fn lemma_tick_one(r: Run, log: LogView, retries: u8)
    requires
        r.pending == seq![(log, retries)],
    ensures
        tick(r) == if retries >= MAX_PENDING_ATTEMPTS {
            Run { state: r.state, pending: Seq::empty(), writes: r.writes }
        } else {
            submit(
                Run { state: r.state, pending: Seq::empty(), writes: r.writes },
                log,
                (retries + 1) as u8,
            )
        },
{
    let start = Run { state: r.state, pending: Seq::<(LogView, u8)>::empty(), writes: r.writes };
    assert(r.pending.drop_last() =~= Seq::<(LogView, u8)>::empty());
    assert(retry_all(start, r.pending.drop_last()) == start);
    assert(r.pending.last() == (log, retries));
}

/// While its parent is missing, a registration that waits alone goes through
/// the rounds of retries with one more retry counted each time, and is gone
/// after the round in which the count reaches the ceiling. The rounds change
/// nothing else in the directory but the cursor.
pub proof fn lemma_idle_rounds(r: Run, log: LogView, parent_hash: Seq<char>, n: nat)
    requires
        r.pending == seq![(log, 0u8)],
        waits_for_parent(r.state, log, parent_hash),
        n <= MAX_PENDING_ATTEMPTS,
    ensures
        ticks(r, n).pending == if n < MAX_PENDING_ATTEMPTS {
            seq![(log, n as u8)]
        } else {
            Seq::empty()
        },
        ticks(r, n).state.root_hash == r.state.root_hash,
        ticks(r, n).state.categories == r.state.categories,
        ticks(r, n).state.providers == r.state.providers,
        ticks(r, n).writes == r.writes,
    decreases n,
{
    if n > 0 {
        let before = ticks(r, (n - 1) as nat);
        lemma_idle_rounds(r, log, parent_hash, (n - 1) as nat);
        lemma_tick_one(before, log, (n - 1) as u8);
        let start = Run {
            state: before.state,
            pending: Seq::<(LogView, u8)>::empty(),
            writes: before.writes,
        };
        assert(log_step(before.state, log).outcome == Outcome::Pending);
        let after = submit(start, log, n as u8);
        assert(ticks(r, n) == after);
        if n < MAX_PENDING_ATTEMPTS {
            assert(after.pending =~= seq![(log, n as u8)]);
        } else {
            assert(after.pending =~= Seq::empty());
        }
    }
}

/// A provider's registration that arrives before its category's waits, and
/// joins the directory in the first round of retries after the category has
/// arrived, as long as fewer rounds than the ceiling went by in between. So
/// both are there after at most as many rounds as the ceiling, and then
/// nothing waits.
pub proof fn lemma_out_of_order_recovers(
    s: StateView,
    category: LogView,
    provider: LogView,
    root: Seq<char>,
    x: Seq<char>,
    y: Seq<char>,
    category_name: Seq<char>,
    provider_name: Seq<char>,
    rounds_between: nat,
)
    requires
        out_of_order(s, category, provider, root, x, y, category_name, provider_name),
        rounds_between < MAX_PENDING_ATTEMPTS,
    ensures
        ({
            let waiting = submit(fresh_run(s), provider, 0);
            let end = tick(submit(ticks(waiting, rounds_between), category, 0));
            &&& waiting.pending == seq![(provider, 0u8)]
            &&& end.pending.len() == 0
            &&& end.state.categories.dom().contains(x)
            &&& end.state.categories[x] == category_name
            &&& end.state.providers.dom().contains(y)
            &&& end.state.providers[y] == (ProviderView {
                category: category_name,
                name: provider_name,
                hash: y,
                facts: Map::empty(),
            })
        }),
{
    let waiting = submit(fresh_run(s), provider, 0);
    assert(log_step(s, provider).outcome == Outcome::Pending);
    assert(waiting.pending =~= seq![(provider, 0u8)]);
    lemma_idle_rounds(waiting, provider, x, rounds_between);
    let between = ticks(waiting, rounds_between);
    let arrived = submit(between, category, 0);
    assert(log_step(between.state, category).outcome == Outcome::Applied);
    assert(arrived.pending == between.pending);
    assert(arrived.state.categories.dom().contains(x));
    lemma_tick_one(arrived, provider, rounds_between as u8);
    let end = tick(arrived);
    assert(log_step(arrived.state, provider).outcome == Outcome::Applied);
    assert(end.pending =~= Seq::empty());
}

/// A provider's registration whose category has not arrived after as many
/// rounds of retries as the ceiling is given up: the queue is empty, and
/// when the category arrives later the provider does not join the directory.
pub proof fn lemma_gives_up_at_ceiling(
    s: StateView,
    category: LogView,
    provider: LogView,
    root: Seq<char>,
    x: Seq<char>,
    y: Seq<char>,
    category_name: Seq<char>,
    provider_name: Seq<char>,
)
    requires
        out_of_order(s, category, provider, root, x, y, category_name, provider_name),
    ensures
        ({
            let waited = ticks(submit(fresh_run(s), provider, 0), MAX_PENDING_ATTEMPTS as nat);
            let end = tick(submit(waited, category, 0));
            &&& waited.pending.len() == 0
            &&& waited.state.providers == s.providers
            &&& end.pending.len() == 0
            &&& end.state.categories.dom().contains(x)
            &&& end.state.providers == s.providers
        }),
{
    let waiting = submit(fresh_run(s), provider, 0);
    assert(log_step(s, provider).outcome == Outcome::Pending);
    assert(waiting.pending =~= seq![(provider, 0u8)]);
    lemma_idle_rounds(waiting, provider, x, MAX_PENDING_ATTEMPTS as nat);
    let waited = ticks(waiting, MAX_PENDING_ATTEMPTS as nat);
    let arrived = submit(waited, category, 0);
    assert(log_step(waited.state, category).outcome == Outcome::Applied);
    assert(arrived.pending =~= Seq::empty());
    let end = tick(arrived);
    assert(end == (Run { state: arrived.state, pending: Seq::empty(), writes: arrived.writes }));
}

/// An entry of a queue after a round of retries comes from an entry of the
/// queue before it: the same log, with one more retry counted.
pub open spec fn comes_from(entry: (LogView, u8), queue: Seq<(LogView, u8)>) -> bool {
    exists|j: int|
        0 <= j < queue.len() && (#[trigger] queue[j]).0 == entry.0 && queue[j].1 + 1 == entry.1
}

/// A round of retries keeps what the run's queue held, in place, and adds
/// nothing but entries of the retried queue, each with one more retry
/// counted.
pub proof fn lemma_retry_entries(r: Run, queue: Seq<(LogView, u8)>)
    ensures
        retry_all(r, queue).pending.len() >= r.pending.len(),
        forall|i: int|
            0 <= i < r.pending.len() ==> #[trigger] retry_all(r, queue).pending[i] == r.pending[i],
        forall|i: int|
            r.pending.len() <= i < retry_all(r, queue).pending.len() ==> comes_from(
                #[trigger] retry_all(r, queue).pending[i],
                queue,
            ),
    decreases queue.len(),
{
    if queue.len() > 0 {
        let shorter = queue.drop_last();
        let earlier = retry_all(r, shorter);
        let after = retry_all(r, queue);
        lemma_retry_entries(r, shorter);
        assert forall|i: int| r.pending.len() <= i < after.pending.len() implies comes_from(
            #[trigger] after.pending[i],
            queue,
        ) by {
            if i < earlier.pending.len() {
                assert(after.pending[i] == earlier.pending[i]);
                assert(comes_from(earlier.pending[i], shorter));
                let j = choose|j: int|
                    0 <= j < shorter.len() && (#[trigger] shorter[j]).0 == earlier.pending[i].0
                        && shorter[j].1 + 1 == earlier.pending[i].1;
                assert(queue[j] == shorter[j]);
            } else {
                let j = queue.len() - 1;
                assert(queue[j].0 == after.pending[i].0);
            }
        }
    }
}

/// A step that ends with the event waiting changes nothing in the directory
/// but the cursor, and asks nothing of the store.
pub proof fn lemma_pending_changes_nothing(s: StateView, log: LogView)
    requires
        log_step(s, log).outcome == Outcome::Pending,
    ensures
        log_step(s, log).state == at_head(s, log.block_number),
        log_step(s, log).write is None,
{
    match event_of(log) {
        Some(EventView::Mint { parent_hash, child_hash, label }) => {},
        Some(EventView::Note { parent_hash, label, payload }) => {},
        _ => {},
    }
    assert(log_step(s, log).state =~= at_head(s, log.block_number));
}

/// A log whose every entry in the queue has all its retries but one behind
/// it is not in the queue after the next round, whatever else waits and
/// whatever the round does: this retry is its last.
pub proof fn lemma_last_retry(r: Run, log: LogView)
    requires
        forall|j: int|
            0 <= j < r.pending.len() && (#[trigger] r.pending[j]).0 == log ==> r.pending[j].1 + 1
                >= MAX_PENDING_ATTEMPTS,
    ensures
        forall|i: int| 0 <= i < tick(r).pending.len() ==> (#[trigger] tick(r).pending[i]).0 != log,
{
    let start = Run { state: r.state, pending: Seq::<(LogView, u8)>::empty(), writes: r.writes };
    lemma_retry_entries(start, r.pending);
    lemma_queue_below_ceiling(start, r.pending);
    assert forall|i: int| 0 <= i < tick(r).pending.len() implies (#[trigger] tick(
        r,
    ).pending[i]).0 != log by {
        assert(comes_from(tick(r).pending[i], r.pending));
    }
}

/// After `n` rounds of retries every entry of the queue has at least `n`
/// retries behind it, and, once a round has run, fewer than the ceiling.
pub proof fn lemma_rounds_count(r: Run, n: nat)
    ensures
        forall|i: int| 0 <= i < ticks(r, n).pending.len() ==> (#[trigger] ticks(r, n).pending[i]).1 >= n,
        n > 0 ==> forall|i: int|
            0 <= i < ticks(r, n).pending.len() ==> (#[trigger] ticks(r, n).pending[i]).1
                < MAX_PENDING_ATTEMPTS,
    decreases n,
{
    if n > 0 {
        let before = ticks(r, (n - 1) as nat);
        lemma_rounds_count(r, (n - 1) as nat);
        let start = Run {
            state: before.state,
            pending: Seq::<(LogView, u8)>::empty(),
            writes: before.writes,
        };
        lemma_retry_entries(start, before.pending);
        lemma_queue_below_ceiling(start, before.pending);
        assert forall|i: int| 0 <= i < ticks(r, n).pending.len() implies (#[trigger] ticks(
            r,
            n,
        ).pending[i]).1 >= n by {
            assert(comes_from(ticks(r, n).pending[i], before.pending));
        }
    }
}

/// Whatever waits, and whatever the rounds of retries do to the directory,
/// nothing waits any more after as many rounds as the ceiling: every event
/// has by then been applied or given up, and no later round can apply an
/// event that was given up.
pub proof fn lemma_rounds_empty_the_queue(r: Run, n: nat)
    requires
        n >= MAX_PENDING_ATTEMPTS,
    ensures
        ticks(r, n).pending.len() == 0,
        tick(ticks(r, n)).state == ticks(r, n).state,
        tick(ticks(r, n)).writes == ticks(r, n).writes,
{
    lemma_rounds_count(r, n);
    if ticks(r, n).pending.len() > 0 {
        assert(ticks(r, n).pending[0].1 >= n);
    }
    assert(ticks(r, n).pending =~= Seq::empty());
}

/// Nothing joins the directory before what it depends on: a registration
/// adds a category only under the root, and a provider only under a known
/// category, whose name it takes; an annotation adds no provider, and leaves
/// every other provider as it was.
pub proof fn lemma_dependencies_first(
    s: StateView,
    parent_hash: Seq<char>,
    child_hash: Seq<char>,
    label: Seq<char>,
    payload: Seq<char>,
)
    ensures
        mint_step(s, parent_hash, child_hash, label).state.categories != s.categories ==> label
            != root_label() && s.root_hash == Some(parent_hash),
        mint_step(s, parent_hash, child_hash, label).state.providers != s.providers ==> {
            &&& s.categories.dom().contains(parent_hash)
            &&& mint_step(s, parent_hash, child_hash, label).state.providers[child_hash].category
                == s.categories[parent_hash]
        },
        note_step(s, parent_hash, label, payload).state.providers.dom() == s.providers.dom(),
        note_step(s, parent_hash, label, payload).state.categories == s.categories,
        note_step(s, parent_hash, label, payload).state.root_hash == s.root_hash,
        forall|other: Seq<char>|
            other != parent_hash && s.providers.dom().contains(other) ==> note_step(
                s,
                parent_hash,
                label,
                payload,
            ).state.providers[other] == s.providers[other],
{
    let after = note_step(s, parent_hash, label, payload).state;
    assert(after.providers.dom() =~= s.providers.dom());
}

} // verus!
