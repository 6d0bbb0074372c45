//! Registry events: the logs that the chain delivers, and what they say.

use vstd::prelude::*;
use vstd::string::*;
use vstd::utf8::*;
use vstd::slice::*;
use vstd::array::*;
use crate::abi::{
    abi_bytes_of, abi_bytes_pair_of, abi_decode_bytes, abi_decode_bytes_pair, keccak256,
    keccak256_of, option_bytes, option_bytes_pair,
};
use crate::helpers::{encode_hex, hex_text, string_from_utf8};

verus! {

/// A registry event, decoded.
pub enum Event {
    /// `child_hash` was registered under `parent_hash` with `label`.
    Mint { parent_hash: String, child_hash: String, label: String },
    /// `payload`, as hex text, was attached to `parent_hash` under `label`.
    Note { parent_hash: String, label: String, payload: String },
    /// Any other event.
    Unrecognized,
}

/// The view of [`Event`] that contracts speak of.
pub enum EventView {
    Mint { parent_hash: Seq<char>, child_hash: Seq<char>, label: Seq<char> },
    Note { parent_hash: Seq<char>, label: Seq<char>, payload: Seq<char> },
    Unrecognized,
}

impl View for Event {
    type V = EventView;

    open spec fn view(&self) -> EventView {
        match *self {
            Event::Mint { parent_hash, child_hash, label } => EventView::Mint {
                parent_hash: parent_hash@,
                child_hash: child_hash@,
                label: label@,
            },
            Event::Note { parent_hash, label, payload } => EventView::Note {
                parent_hash: parent_hash@,
                label: label@,
                payload: payload@,
            },
            Event::Unrecognized => EventView::Unrecognized,
        }
    }
}

/// An event as the chain delivers it.
pub struct Log {
    /// The event's signature hash, then its indexed arguments.
    pub topics: Vec<[u8; 32]>,
    /// The ABI encoding of the arguments that are not indexed.
    pub data: Vec<u8>,
    /// The block that holds the event, where the source says.
    pub block_number: Option<u64>,
}

/// The view of [`Log`] that contracts speak of.
#[verifier::ext_equal]
pub struct LogView {
    pub topics: Seq<Seq<u8>>,
    pub data: Seq<u8>,
    pub block_number: Option<u64>,
}

pub open spec fn topics_view(topics: Seq<[u8; 32]>) -> Seq<Seq<u8>> {
    topics.map_values(|t: [u8; 32]| t@)
}

impl View for Log {
    type V = LogView;

    open spec fn view(&self) -> LogView {
        LogView {
            topics: topics_view(self.topics@),
            data: self.data@,
            block_number: self.block_number,
        }
    }
}

/// Signature of the registration event.
pub open spec fn mint_signature() -> Seq<char> {
    "Mint(bytes32,bytes32,bytes,bytes)"@
}

/// Signature of the annotation event.
pub open spec fn note_signature() -> Seq<char> {
    "Note(bytes32,bytes32,bytes,bytes,bytes)"@
}

/// The first topic of every event with signature `signature`.
pub open spec fn signature_hash(signature: Seq<char>) -> Seq<u8> {
    keccak256_of(encode_utf8(signature))
}

/// What a log claims to be, by its first topic.
#[derive(Clone, Copy, Debug, PartialEq, Eq, Structural)]
pub enum Kind {
    Mint,
    Note,
    Other,
}

/// The kind of a log with these topics, given the signature hashes of the
/// registration and of the annotation.
pub open spec fn kind_of(topics: Seq<Seq<u8>>, mint_hash: Seq<u8>, note_hash: Seq<u8>) -> Kind {
    if topics.len() == 0 {
        Kind::Other
    } else if topics[0] == mint_hash {
        Kind::Mint
    } else if topics[0] == note_hash {
        Kind::Note
    } else {
        Kind::Other
    }
}

/// A registration carries its parent and its child as topics; `label` is
/// what its data decoded to, and has to be UTF-8.
pub open spec fn mint_from(topics: Seq<Seq<u8>>, label: Option<Seq<u8>>) -> Option<EventView> {
    if topics.len() < 4 {
        None
    } else {
        match label {
            Some(text) => if valid_utf8(text) {
                Some(
                    EventView::Mint {
                        parent_hash: hex_text(topics[1]),
                        child_hash: hex_text(topics[2]),
                        label: decode_utf8(text),
                    },
                )
            } else {
                None
            },
            None => None,
        }
    }
}

/// An annotation carries its parent as a topic; `parts` is what its data
/// decoded to: the label, which has to be UTF-8, and the value, which is
/// handed on as hex text.
pub open spec fn note_from(topics: Seq<Seq<u8>>, parts: Option<(Seq<u8>, Seq<u8>)>) -> Option<
    EventView,
> {
    if topics.len() < 4 {
        None
    } else {
        match parts {
            Some(pair) => if valid_utf8(pair.0) {
                Some(
                    EventView::Note {
                        parent_hash: hex_text(topics[1]),
                        label: decode_utf8(pair.0),
                        payload: hex_text(pair.1),
                    },
                )
            } else {
                None
            },
            None => None,
        }
    }
}

/// The event that a log holds; `None` where it claims to be a registration
/// or an annotation and cannot be read as one.
pub open spec fn event_of(log: LogView) -> Option<EventView> {
    match kind_of(
        log.topics,
        signature_hash(mint_signature()),
        signature_hash(note_signature()),
    ) {
        Kind::Mint => mint_from(log.topics, abi_bytes_of(log.data)),
        Kind::Note => note_from(log.topics, abi_bytes_pair_of(log.data)),
        Kind::Other => Some(EventView::Unrecognized),
    }
}

pub open spec fn option_event(e: Option<Event>) -> Option<EventView> {
    match e {
        Some(x) => Some(x@),
        None => None,
    }
}

fn same_hash(a: &[u8; 32], b: &[u8; 32]) -> (r: bool)
    ensures
        r == (a@ == b@),
{
    let mut i: usize = 0;
    while i < 32
        invariant
            i <= 32,
            forall|k: int| 0 <= k < i ==> a@[k] == b@[k],
        decreases 32 - i,
    {
        if a[i] != b[i] {
            assert(a@[i as int] != b@[i as int]);
            return false;
        }
        i = i + 1;
    }
    assert(a@ =~= b@);
    true
}

/// Tells what a log claims to be, given the two signature hashes.
pub fn log_kind(topics: &Vec<[u8; 32]>, mint_hash: &[u8; 32], note_hash: &[u8; 32]) -> (r: Kind)
    ensures
        r == kind_of(topics_view(topics@), mint_hash@, note_hash@),
{
    if topics.len() == 0 {
        Kind::Other
    } else if same_hash(&topics[0], mint_hash) {
        Kind::Mint
    } else if same_hash(&topics[0], note_hash) {
        Kind::Note
    } else {
        Kind::Other
    }
}

/// The registration with these topics and this decoded label.
pub fn mint_event(topics: &Vec<[u8; 32]>, label: Option<Vec<u8>>) -> (r: Option<Event>)
    ensures
        option_event(r) == mint_from(topics_view(topics@), option_bytes(label)),
{
    if topics.len() < 4 {
        return None;
    }
    let label = match label {
        Some(bytes) => match string_from_utf8(bytes) {
            Some(text) => text,
            None => {
                return None;
            },
        },
        None => {
            return None;
        },
    };
    Some(
        Event::Mint {
            parent_hash: encode_hex(topics[1].as_slice()),
            child_hash: encode_hex(topics[2].as_slice()),
            label,
        },
    )
}

/// The annotation with these topics and this decoded label and value.
pub fn note_event(topics: &Vec<[u8; 32]>, parts: Option<(Vec<u8>, Vec<u8>)>) -> (r: Option<Event>)
    ensures
        option_event(r) == note_from(topics_view(topics@), option_bytes_pair(parts)),
{
    if topics.len() < 4 {
        return None;
    }
    let (label_bytes, value) = match parts {
        Some(pair) => pair,
        None => {
            return None;
        },
    };
    let label = match string_from_utf8(label_bytes) {
        Some(text) => text,
        None => {
            return None;
        },
    };
    Some(
        Event::Note {
            parent_hash: encode_hex(topics[1].as_slice()),
            label,
            payload: encode_hex(value.as_slice()),
        },
    )
}

/// Reads the event that a log holds.
pub fn decode_log(log: &Log) -> (r: Option<Event>)
    ensures
        option_event(r) == event_of(log@),
{
    let mint_hash = keccak256("Mint(bytes32,bytes32,bytes,bytes)".as_bytes());
    let note_hash = keccak256("Note(bytes32,bytes32,bytes,bytes,bytes)".as_bytes());
    match log_kind(&log.topics, &mint_hash, &note_hash) {
        Kind::Mint => mint_event(&log.topics, abi_decode_bytes(log.data.as_slice())),
        Kind::Note => note_event(&log.topics, abi_decode_bytes_pair(log.data.as_slice())),
        Kind::Other => Some(Event::Unrecognized),
    }
}

/// A copy of a log.
pub fn clone_log(log: &Log) -> (r: Log)
    ensures
        r@ == log@,
{
    let mut topics: Vec<[u8; 32]> = Vec::new();
    let mut i: usize = 0;
    while i < log.topics.len()
        invariant
            i <= log.topics@.len(),
            topics@.len() == i,
            forall|k: int| 0 <= k < i ==> topics@[k] == log.topics@[k],
        decreases log.topics@.len() - i,
    {
        topics.push(log.topics[i]);
        i = i + 1;
    }
    assert(topics@ =~= log.topics@);
    let data = slice_to_vec(log.data.as_slice());
    Log { topics, data, block_number: log.block_number }
}

} // verus!
