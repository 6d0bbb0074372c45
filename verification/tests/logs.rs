use alloy_primitives::{keccak256, Bytes};
use alloy_sol_types::SolValue;
use hpn_indexer::chain::{
    after_fetch, handle_eth_message, handle_log, handle_pending, handle_timer, make_filters,
    process_logs, reset, start_fetch, Action, DbWrite, EthAction, EthMessage, FetchNext, Outcome,
    PendingLogs, MINT_SUBSCRIPTION, NOTE_SUBSCRIPTION,
};
use hpn_indexer::events::{decode_log, Event, Log};
use hpn_indexer::structs::{
    ChainConfig, State, CHECKPOINT_MS, DELAY_MS, FETCH_RETRY_SECS, MAX_PENDING_ATTEMPTS,
};

const MINT: &str = "Mint(bytes32,bytes32,bytes,bytes)";
const NOTE: &str = "Note(bytes32,bytes32,bytes,bytes,bytes)";

const STARTED: u64 = 1_700_000_000;

fn config() -> ChainConfig {
    ChainConfig {
        chain_id: 8453,
        contract_address: "0x000000000044C6B8Cb4d8f0F889a3E47664EAeda".to_string(),
        first_block: 100,
        root_hash: "0x0000000000000000000000000000000000000000000000000000000000000000".to_string(),
    }
}

fn id(n: u8) -> [u8; 32] {
    [n; 32]
}

fn id_text(n: u8) -> String {
    let mut out = String::from("0x");
    for _ in 0..32 {
        out.push_str(&format!("{:02x}", n));
    }
    out
}

fn mint_log(parent: u8, child: u8, label: &str, block: Option<u64>) -> Log {
    let data = (Bytes::from(label.as_bytes().to_vec()),).abi_encode_sequence();
    Log {
        topics: vec![keccak256(MINT).0, id(parent), id(child), keccak256(label).0],
        data,
        block_number: block,
    }
}

fn note_log(parent: u8, label: &str, value: &[u8], block: Option<u64>) -> Log {
    let data =
        (Bytes::from(label.as_bytes().to_vec()), Bytes::from(value.to_vec())).abi_encode_sequence();
    Log {
        topics: vec![keccak256(NOTE).0, id(parent), id(0xee), keccak256(label).0],
        data,
        block_number: block,
    }
}

const ROOT: u8 = 0x0a;
const CATEGORY: u8 = 0x0b;
const PROVIDER: u8 = 0x0c;

fn root_log() -> Log {
    mint_log(0, ROOT, "hpn-testing-beta", Some(101))
}

fn category_log() -> Log {
    mint_log(ROOT, CATEGORY, "weather", Some(102))
}

fn provider_log() -> Log {
    mint_log(CATEGORY, PROVIDER, "WeatherAPI.com", Some(103))
}

#[test]
fn decodes_a_registration() {
    match decode_log(&provider_log()) {
        Some(Event::Mint { parent_hash, child_hash, label }) => {
            assert_eq!(parent_hash, id_text(CATEGORY));
            assert_eq!(child_hash, id_text(PROVIDER));
            assert_eq!(label, "WeatherAPI.com");
        }
        _ => panic!("expected a registration"),
    }
}

#[test]
fn decodes_an_annotation_with_its_value_as_hex_text() {
    match decode_log(&note_log(PROVIDER, "~site", b"hi", None)) {
        Some(Event::Note { parent_hash, label, payload }) => {
            assert_eq!(parent_hash, id_text(PROVIDER));
            assert_eq!(label, "~site");
            assert_eq!(payload, "0x6869");
        }
        _ => panic!("expected an annotation"),
    }
}

#[test]
fn other_events_are_unrecognized() {
    let mut log = provider_log();
    log.topics[0] = keccak256("Fact(bytes32,bytes32,bytes,bytes,bytes)").0;
    assert!(matches!(decode_log(&log), Some(Event::Unrecognized)));
    let plain = Log { topics: vec![], data: vec![], block_number: None };
    assert!(matches!(decode_log(&plain), Some(Event::Unrecognized)));
    let unhashed = Log { topics: vec![id(1)], data: vec![1, 2, 3], block_number: None };
    assert!(matches!(decode_log(&unhashed), Some(Event::Unrecognized)));
}

#[test]
fn registration_with_bad_shape_is_not_decoded() {
    let mut short = provider_log();
    short.topics.pop();
    assert!(decode_log(&short).is_none());
    let mut cut = provider_log();
    cut.data.truncate(40);
    assert!(decode_log(&cut).is_none());
    let mut empty = provider_log();
    empty.data.clear();
    assert!(decode_log(&empty).is_none());
    let mut not_text = provider_log();
    not_text.data = (Bytes::from(vec![0xffu8, 0xfe]),).abi_encode_sequence();
    assert!(decode_log(&not_text).is_none());
    let mut wrong = note_log(PROVIDER, "~site", b"hi", None);
    wrong.data = (Bytes::from(b"~site".to_vec()),).abi_encode_sequence();
    assert!(decode_log(&wrong).is_none());
}

#[test]
fn worked_example_from_logs() {
    let mut state = State::new(&config(), STARTED);
    let mut pending: PendingLogs = Vec::new();
    let logs = vec![
        root_log(),
        category_log(),
        provider_log(),
        note_log(PROVIDER, "~description", b"a weather service", Some(104)),
    ];
    let writes = process_logs(&mut state, &mut pending, &logs);
    assert!(pending.is_empty());
    assert_eq!(state.root_hash, Some(id_text(ROOT)));
    assert_eq!(state.categories.len(), 1);
    assert_eq!(state.categories.get(&id_text(CATEGORY)), Some(&"weather".to_string()));
    assert_eq!(state.providers.len(), 1);
    let provider = state.providers.get(&id_text(PROVIDER)).unwrap();
    assert_eq!(provider.category, "weather");
    assert_eq!(provider.name, "WeatherAPI.com");
    assert_eq!(provider.hash, id_text(PROVIDER));
    assert_eq!(
        provider.facts.get("~description"),
        Some(&vec!["a weather service".to_string()])
    );
    assert_eq!(state.last_checkpoint_block, 104);
    assert_eq!(writes.len(), 3);
    assert!(matches!(&writes[0], DbWrite::InsertCategory { hash, name }
        if *hash == id_text(CATEGORY) && name == "weather"));
    assert!(matches!(&writes[1], DbWrite::InsertProvider { parent_hash, hash, name }
        if *parent_hash == id_text(CATEGORY) && *hash == id_text(PROVIDER)
            && name == "WeatherAPI.com"));
    assert!(matches!(&writes[2], DbWrite::SetFact { key, value, hash }
        if key == "description" && value == "a weather service" && *hash == id_text(PROVIDER)));
}

#[test]
fn reversed_delivery_recovers_on_the_next_round() {
    let mut state = State::new(&config(), STARTED);
    let mut pending: PendingLogs = Vec::new();
    handle_log(&mut state, &mut pending, &root_log(), 0);
    let early = handle_log(&mut state, &mut pending, &provider_log(), 0);
    assert_eq!(early.outcome, Outcome::Pending);
    assert_eq!(pending.len(), 1);
    assert_eq!(pending[0].1, 0);
    let late = handle_log(&mut state, &mut pending, &category_log(), 0);
    assert_eq!(late.outcome, Outcome::Applied);
    assert!(state.providers.is_empty());
    let writes = handle_pending(&mut state, &mut pending);
    assert!(pending.is_empty());
    assert_eq!(writes.len(), 1);
    assert!(state.categories.contains_key(&id_text(CATEGORY)));
    let provider = state.providers.get(&id_text(PROVIDER)).unwrap();
    assert_eq!(provider.category, "weather");
    assert_eq!(provider.name, "WeatherAPI.com");
}

#[test]
fn reversed_delivery_recovers_after_one_idle_round() {
    let mut state = State::new(&config(), STARTED);
    let mut pending: PendingLogs = Vec::new();
    handle_log(&mut state, &mut pending, &root_log(), 0);
    handle_log(&mut state, &mut pending, &provider_log(), 0);
    handle_pending(&mut state, &mut pending);
    assert_eq!(pending.len(), 1);
    assert_eq!(pending[0].1, 1);
    handle_log(&mut state, &mut pending, &category_log(), 0);
    handle_pending(&mut state, &mut pending);
    assert!(pending.is_empty());
    assert!(state.providers.contains_key(&id_text(PROVIDER)));
}

#[test]
fn reversed_delivery_recovers_in_the_third_round() {
    let mut state = State::new(&config(), STARTED);
    let mut pending: PendingLogs = Vec::new();
    handle_log(&mut state, &mut pending, &root_log(), 0);
    handle_log(&mut state, &mut pending, &provider_log(), 0);
    handle_pending(&mut state, &mut pending);
    handle_pending(&mut state, &mut pending);
    assert_eq!(pending.len(), 1);
    assert_eq!(pending[0].1, 2);
    handle_log(&mut state, &mut pending, &category_log(), 0);
    let writes = handle_pending(&mut state, &mut pending);
    assert_eq!(writes.len(), 1);
    assert!(pending.is_empty());
    assert!(state.categories.contains_key(&id_text(CATEGORY)));
    assert!(state.providers.contains_key(&id_text(PROVIDER)));
}

#[test]
fn event_is_given_up_at_the_ceiling() {
    assert_eq!(MAX_PENDING_ATTEMPTS, 3);
    let mut state = State::new(&config(), STARTED);
    let mut pending: PendingLogs = Vec::new();
    handle_log(&mut state, &mut pending, &root_log(), 0);
    handle_log(&mut state, &mut pending, &provider_log(), 0);
    handle_pending(&mut state, &mut pending);
    assert_eq!(pending.len(), 1);
    handle_pending(&mut state, &mut pending);
    assert_eq!(pending.len(), 1);
    handle_pending(&mut state, &mut pending);
    assert!(pending.is_empty());
    handle_pending(&mut state, &mut pending);
    assert!(pending.is_empty());
    handle_log(&mut state, &mut pending, &category_log(), 0);
    handle_pending(&mut state, &mut pending);
    assert!(state.categories.contains_key(&id_text(CATEGORY)));
    assert!(state.providers.is_empty());
    assert!(pending.is_empty());
}

#[test]
fn entry_at_the_ceiling_is_dropped_unseen() {
    let mut state = State::new(&config(), STARTED);
    let mut pending: PendingLogs = vec![(root_log(), 3), (mint_log(0, 0x0d, "hpn-testing-beta", Some(500)), 2)];
    let writes = handle_pending(&mut state, &mut pending);
    assert!(writes.is_empty());
    assert!(pending.is_empty());
    assert_eq!(state.root_hash, Some(id_text(0x0d)));
    assert_eq!(state.last_checkpoint_block, 500);
}

#[test]
fn last_attempt_is_not_queued() {
    let mut state = State::new(&config(), STARTED);
    let mut pending: PendingLogs = Vec::new();
    let step = handle_log(&mut state, &mut pending, &provider_log(), 3);
    assert_eq!(step.outcome, Outcome::Pending);
    assert!(pending.is_empty());
    let step = handle_log(&mut state, &mut pending, &provider_log(), 255);
    assert_eq!(step.outcome, Outcome::Pending);
    assert!(pending.is_empty());
    handle_log(&mut state, &mut pending, &provider_log(), 2);
    assert_eq!(pending.len(), 1);
    assert_eq!(pending[0].1, 2);
}

#[test]
fn malformed_logs_are_never_queued() {
    let mut state = State::new(&config(), STARTED);
    let mut pending: PendingLogs = Vec::new();
    process_logs(&mut state, &mut pending, &vec![root_log(), category_log(), provider_log()]);
    let before = state.providers.get(&id_text(PROVIDER)).unwrap().facts.len();
    let odd = {
        let mut log = note_log(PROVIDER, "~site", b"x", Some(200));
        log.data.pop();
        log
    };
    let cases = vec![
        note_log(PROVIDER, "~site", &[0xff], Some(201)),
        note_log(PROVIDER, "~site", &[0x0a], Some(202)),
        note_log(0x77, "~site", &[0x00], Some(203)),
        odd,
    ];
    for log in &cases {
        let step = handle_log(&mut state, &mut pending, log, 0);
        assert_eq!(step.outcome, Outcome::Malformed);
        assert!(step.write.is_none());
        assert!(pending.is_empty());
    }
    assert_eq!(state.providers.get(&id_text(PROVIDER)).unwrap().facts.len(), before);
    assert_eq!(state.categories.len(), 1);
    assert_eq!(state.providers.len(), 1);
    assert_eq!(state.last_checkpoint_block, 203);
}

#[test]
fn cursor_follows_blocks_and_never_moves_back() {
    let mut state = State::new(&config(), STARTED);
    let mut pending: PendingLogs = Vec::new();
    handle_log(&mut state, &mut pending, &mint_log(0, ROOT, "hpn-testing-beta", Some(150)), 0);
    assert_eq!(state.last_checkpoint_block, 150);
    handle_log(&mut state, &mut pending, &mint_log(ROOT, CATEGORY, "weather", Some(120)), 0);
    assert_eq!(state.last_checkpoint_block, 150);
    handle_log(&mut state, &mut pending, &mint_log(ROOT, 0x0d, "finance", None), 0);
    assert_eq!(state.last_checkpoint_block, 150);
    handle_log(&mut state, &mut pending, &mint_log(0x55, 0x56, "waits", Some(180)), 0);
    assert_eq!(state.last_checkpoint_block, 180);
    handle_timer(&mut state, &mut pending, Some(170), false);
    assert_eq!(state.last_checkpoint_block, 180);
    handle_timer(&mut state, &mut pending, None, true);
    assert_eq!(state.last_checkpoint_block, 180);
    handle_timer(&mut state, &mut pending, Some(u64::MAX), true);
    assert_eq!(state.last_checkpoint_block, u64::MAX);
}

#[test]
fn unrecognized_event_is_ignored_but_moves_the_cursor() {
    let mut state = State::new(&config(), STARTED);
    let mut pending: PendingLogs = Vec::new();
    let log = Log { topics: vec![id(9)], data: vec![], block_number: Some(300) };
    let step = handle_log(&mut state, &mut pending, &log, 0);
    assert_eq!(step.outcome, Outcome::Ignored);
    assert!(pending.is_empty());
    assert_eq!(state.last_checkpoint_block, 300);
}

#[test]
fn same_log_twice_is_the_log_once_for_registrations() {
    let mut state = State::new(&config(), STARTED);
    let mut pending: PendingLogs = Vec::new();
    let logs = vec![root_log(), category_log(), provider_log()];
    process_logs(&mut state, &mut pending, &logs);
    let again = process_logs(&mut state, &mut pending, &logs);
    assert_eq!(again.len(), 2);
    assert_eq!(state.root_hash, Some(id_text(ROOT)));
    assert_eq!(state.categories.len(), 1);
    assert_eq!(state.providers.len(), 1);
    assert_eq!(state.last_checkpoint_block, 103);
    assert!(pending.is_empty());
}

#[test]
fn checkpoint_timer_saves_only_with_a_known_head() {
    let mut state = State::new(&config(), STARTED);
    let mut pending: PendingLogs = Vec::new();
    let known = handle_timer(&mut state, &mut pending, Some(900), true);
    assert!(known.save);
    assert!(known.rearm_checkpoint);
    assert!(!known.retry);
    assert_eq!(state.last_checkpoint_block, 900);
    let unknown = handle_timer(&mut state, &mut pending, None, true);
    assert!(!unknown.save);
    assert!(unknown.rearm_checkpoint);
    assert_eq!(state.last_checkpoint_block, 900);
}

#[test]
fn retry_timer_is_set_again_while_events_wait() {
    let mut state = State::new(&config(), STARTED);
    let mut pending: PendingLogs = Vec::new();
    handle_log(&mut state, &mut pending, &provider_log(), 0);
    let first = handle_timer(&mut state, &mut pending, Some(110), false);
    assert!(!first.save);
    assert!(!first.rearm_checkpoint);
    assert!(first.retry);
    let second = handle_timer(&mut state, &mut pending, Some(111), false);
    assert!(second.retry);
    let third = handle_timer(&mut state, &mut pending, Some(112), false);
    assert!(!third.retry);
    assert!(pending.is_empty());
}

#[test]
fn filters_start_at_the_cursor() {
    let mut state = State::new(&config(), STARTED);
    state.last_checkpoint_block = 777;
    let (mints, notes) = make_filters(&state);
    assert_eq!(mints.address, state.contract_address);
    assert_eq!(mints.from_block, 777);
    assert_eq!(mints.event, MINT);
    assert!(mints.topic3.is_empty());
    assert_eq!(notes.address, state.contract_address);
    assert_eq!(notes.from_block, 777);
    assert_eq!(notes.event, NOTE);
    assert_eq!(
        notes.topic3,
        vec![keccak256("~site").0, keccak256("~description").0, keccak256("~provider-name").0]
    );
}

#[test]
fn label_hashes_are_keccak_digests() {
    let state = State::new(&config(), STARTED);
    let (_, notes) = make_filters(&state);
    let mut expected = String::from("0x");
    for b in notes.topic3[0] {
        expected.push_str(&format!("{:02x}", b));
    }
    assert_eq!(expected, keccak256(b"~site").to_string());
    assert_ne!(notes.topic3[0].to_vec(), b"~site".to_vec());
    assert_ne!(notes.topic3[0], notes.topic3[1]);
}

#[test]
fn start_plan_is_in_order() {
    let state = State::new(&config(), STARTED);
    let (actions, pending) = start_fetch(&state);
    assert!(pending.is_empty());
    assert_eq!(actions.len(), 6);
    assert!(matches!(&actions[0], Action::Subscribe { id, filter }
        if *id == MINT_SUBSCRIPTION && filter.event == MINT && filter.from_block == 100));
    assert!(matches!(&actions[1], Action::Subscribe { id, filter }
        if *id == NOTE_SUBSCRIPTION && filter.event == NOTE && filter.topic3.len() == 3));
    assert!(matches!(&actions[2], Action::SetTimer { delay_ms, checkpoint }
        if *delay_ms == DELAY_MS && !*checkpoint));
    assert!(matches!(&actions[3], Action::SetTimer { delay_ms, checkpoint }
        if *delay_ms == CHECKPOINT_MS && *checkpoint));
    assert!(matches!(&actions[4], Action::Fetch { filter } if filter.event == MINT));
    assert!(matches!(&actions[5], Action::Fetch { filter } if filter.event == NOTE));
    assert_eq!(DELAY_MS, 5_000);
    assert_eq!(CHECKPOINT_MS, 300_000);
    assert_eq!(FETCH_RETRY_SECS, 5);
}

#[test]
fn live_log_is_a_first_attempt() {
    let mut state = State::new(&config(), STARTED);
    let mut pending: PendingLogs = Vec::new();
    let action = handle_eth_message(&mut state, &mut pending, &EthMessage::Log(provider_log()));
    assert!(matches!(action, EthAction::Processed { step, retry }
        if step.outcome == Outcome::Pending && retry));
    assert_eq!(pending.len(), 1);
    assert_eq!(pending[0].1, 0);
    let second = handle_eth_message(&mut state, &mut pending, &EthMessage::Log(provider_log()));
    assert!(matches!(second, EthAction::Processed { step, retry }
        if step.outcome == Outcome::Pending && !retry));
    assert_eq!(pending.len(), 2);
    let third = handle_eth_message(&mut state, &mut Vec::new(), &EthMessage::Log(root_log()));
    assert!(matches!(third, EthAction::Processed { step, retry }
        if step.outcome == Outcome::Applied && !retry));
    assert_eq!(pending[1].1, 0);
    assert_eq!(state.last_checkpoint_block, 103);
}

#[test]
fn broken_subscription_is_made_again_from_the_cursor() {
    let mut state = State::new(&config(), STARTED);
    let mut pending: PendingLogs = Vec::new();
    state.last_checkpoint_block = 4242;
    let mints =
        handle_eth_message(&mut state, &mut pending, &EthMessage::SubscriptionError { id: 1 });
    assert!(matches!(mints, EthAction::Resubscribe { id, filter }
        if id == 1 && filter.event == MINT && filter.from_block == 4242));
    let notes =
        handle_eth_message(&mut state, &mut pending, &EthMessage::SubscriptionError { id: 2 });
    assert!(matches!(notes, EthAction::Resubscribe { id, filter }
        if id == 2 && filter.event == NOTE && filter.from_block == 4242 && filter.topic3.len() == 3));
    let other =
        handle_eth_message(&mut state, &mut pending, &EthMessage::SubscriptionError { id: 3 });
    assert!(matches!(other, EthAction::Nothing));
    let noise = handle_eth_message(&mut state, &mut pending, &EthMessage::Other);
    assert!(matches!(noise, EthAction::Nothing));
    assert_eq!(state.last_checkpoint_block, 4242);
    assert!(pending.is_empty());
}

#[test]
fn reset_starts_over_from_the_first_block() {
    let (state, actions, pending) = reset(&config(), STARTED);
    assert_eq!(state.logging_started, STARTED);
    assert!(state.root_hash.is_none());
    assert!(state.categories.is_empty() && state.providers.is_empty());
    assert_eq!(state.last_checkpoint_block, 100);
    assert!(pending.is_empty());
    assert_eq!(actions.len(), 6);
    assert!(matches!(&actions[4], Action::Fetch { filter }
        if filter.event == MINT && filter.from_block == 100));
}

#[test]
fn hostile_data_is_turned_down() {
    let mut word_32 = vec![0u8; 32];
    word_32[31] = 0x20;
    let mut huge_length = word_32.clone();
    huge_length.extend_from_slice(&[0xff; 32]);
    let mut far_offset = vec![0xffu8; 32];
    far_offset.extend_from_slice(&[0u8; 64]);
    let mut unpadded = word_32.clone();
    let mut three = vec![0u8; 32];
    three[31] = 3;
    unpadded.extend_from_slice(&three);
    unpadded.extend_from_slice(b"abc");
    let mut dirty_padding = word_32.clone();
    dirty_padding.extend_from_slice(&three);
    let mut padded = b"abc".to_vec();
    padded.extend_from_slice(&[1u8; 29]);
    dirty_padding.extend_from_slice(&padded);
    let mut near_max = word_32.clone();
    near_max.extend_from_slice(&[0u8; 24]);
    near_max.extend_from_slice(&[0xff; 8]);
    let cases =
        [vec![0xff; 64], vec![0u8; 31], huge_length, far_offset, unpadded, dirty_padding, near_max];
    for data in cases {
        let mut log = provider_log();
        log.data = data.clone();
        assert!(decode_log(&log).is_none());
        let mut log = note_log(PROVIDER, "~site", b"x", None);
        log.data = data;
        assert!(decode_log(&log).is_none());
    }
}

#[test]
fn unanswered_fetch_is_made_again_after_five_seconds() {
    assert_eq!(after_fetch(true), FetchNext::Feed);
    assert_eq!(after_fetch(false), FetchNext::RetryAfter { secs: 5 });
    assert_eq!(after_fetch(false), FetchNext::RetryAfter { secs: FETCH_RETRY_SECS });
}

#[test]
fn queue_is_empty_after_three_rounds_whatever_waits() {
    let mut state = State::new(&config(), STARTED);
    let mut pending: PendingLogs = Vec::new();
    let waiting = vec![
        provider_log(),
        note_log(PROVIDER, "~site", b"https://one.example", Some(105)),
        mint_log(0x31, 0x32, "lost", Some(106)),
        provider_log(),
    ];
    process_logs(&mut state, &mut pending, &waiting);
    assert_eq!(pending.len(), 4);
    handle_pending(&mut state, &mut pending);
    assert!(pending.iter().all(|e| e.1 == 1));
    handle_log(&mut state, &mut pending, &mint_log(0x41, 0x42, "late", Some(107)), 0);
    handle_pending(&mut state, &mut pending);
    assert_eq!(pending.len(), 5);
    assert_eq!(pending.iter().filter(|e| e.1 == 2).count(), 4);
    handle_pending(&mut state, &mut pending);
    assert_eq!(pending.len(), 1);
    assert_eq!(pending[0].1, 2);
    handle_pending(&mut state, &mut pending);
    assert!(pending.is_empty());
    process_logs(&mut state, &mut pending, &vec![root_log(), category_log()]);
    handle_pending(&mut state, &mut pending);
    assert!(state.providers.is_empty());
    assert!(pending.is_empty());
}
