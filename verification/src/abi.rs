//! Hashing, and the ABI encoding of the data that events carry.

use vstd::prelude::*;
use vstd::slice::*;

verus! {

/// The Keccak-256 digest of a byte string.
pub uninterp spec fn keccak256_of(bytes: Seq<u8>) -> Seq<u8>;

/// `alloy_primitives::keccak256`: the 32-byte Keccak-256 digest of `bytes`.
#[verifier::external_body]
pub(crate) fn keccak256(bytes: &[u8]) -> (r: [u8; 32])
    ensures
        r@ == keccak256_of(bytes@),
{
    alloy_primitives::keccak256(bytes).0
}

/// The number that bytes spell, the first byte counting most.
pub open spec fn be_value(bytes: Seq<u8>) -> nat
    decreases bytes.len(),
{
    if bytes.len() == 0 {
        0
    } else {
        be_value(bytes.drop_last()) * 256 + bytes.last() as nat
    }
}

/// The number in the 32-byte word that starts at `at`.
pub open spec fn word_at(data: Seq<u8>, at: int) -> nat {
    be_value(data.subrange(at, at + 32))
}

/// The zero bytes that follow `len` bytes of content, up to the next
/// multiple of 32.
pub open spec fn padding(len: nat) -> nat {
    ((32 - len % 32) % 32) as nat
}

/// Whether the bytes from `from` up to `to` are all zero.
pub open spec fn zeros(data: Seq<u8>, from: int, to: int) -> bool {
    forall|i: int| from <= i < to ==> #[trigger] data[i] == 0
}

/// A `bytes` value laid out at `at`: a word with its length, its content,
/// and zeros up to the next multiple of 32. Gives the content and the place
/// where the layout ends; `None` where the data holds no such layout there.
pub open spec fn tail_at(data: Seq<u8>, at: int) -> Option<(Seq<u8>, int)> {
    if at < 0 || at + 32 > data.len() {
        None
    } else {
        let len = word_at(data, at);
        let end = at + 32 + len + padding(len);
        if end > data.len() || !zeros(data, at + 32 + len, end) {
            None
        } else {
            Some((data.subrange(at + 32, at + 32 + len), end))
        }
    }
}

/// The byte string that `data` is the ABI encoding of, as a sequence of one
/// `bytes` value: the word 32, then the value laid out, and nothing more.
/// `None` where `data` is no such encoding.
pub open spec fn abi_bytes_of(data: Seq<u8>) -> Option<Seq<u8>> {
    if data.len() < 32 || word_at(data, 0) != 32 {
        None
    } else {
        match tail_at(data, 32) {
            Some(first) => if first.1 == data.len() {
                Some(first.0)
            } else {
                None
            },
            None => None,
        }
    }
}

/// The two byte strings that `data` is the ABI encoding of, as a sequence of
/// two `bytes` values: the word 64, a word with the place of the second
/// value, then the first value laid out, then the second, and nothing more.
/// `None` where `data` is no such encoding.
pub open spec fn abi_bytes_pair_of(data: Seq<u8>) -> Option<(Seq<u8>, Seq<u8>)> {
    if data.len() < 64 || word_at(data, 0) != 64 {
        None
    } else {
        match tail_at(data, 64) {
            Some(first) => if word_at(data, 32) != first.1 {
                None
            } else {
                match tail_at(data, first.1) {
                    Some(second) => if second.1 == data.len() {
                        Some((first.0, second.0))
                    } else {
                        None
                    },
                    None => None,
                }
            },
            None => None,
        }
    }
}

pub open spec fn option_bytes(v: Option<Vec<u8>>) -> Option<Seq<u8>> {
    match v {
        Some(b) => Some(b@),
        None => None,
    }
}

pub open spec fn option_bytes_pair(v: Option<(Vec<u8>, Vec<u8>)>) -> Option<(Seq<u8>, Seq<u8>)> {
    match v {
        Some(p) => Some((p.0@, p.1@)),
        None => None,
    }
}

pub open spec fn option_tail(v: Option<(Vec<u8>, usize)>) -> Option<(Seq<u8>, int)> {
    match v {
        Some(t) => Some((t.0@, t.1 as int)),
        None => None,
    }
}

/// The first bytes of a byte string spell no more than all of it.
pub proof fn lemma_be_value_prefix(bytes: Seq<u8>, k: int)
    requires
        0 <= k <= bytes.len(),
    ensures
        be_value(bytes.take(k)) <= be_value(bytes),
    decreases bytes.len(),
{
    if k == bytes.len() {
        assert(bytes.take(k) =~= bytes);
    } else {
        lemma_be_value_prefix(bytes.drop_last(), k);
        assert(bytes.drop_last().take(k) =~= bytes.take(k));
    }
}

/// Reads the word at `at`, if its number is no more than `limit`.
fn read_word(data: &[u8], at: usize, limit: usize) -> (r: Option<usize>)
    requires
        at + 32 <= data@.len(),
    ensures
        r == if word_at(data@, at as int) <= limit {
            Some(word_at(data@, at as int) as usize)
        } else {
            None
        },
{
    let ghost word = data@.subrange(at as int, at + 32);
    let size = data.len();
    let mut acc: usize = 0;
    let mut i: usize = 0;
    assert(word.take(0) =~= Seq::<u8>::empty());
    while i < 32
        invariant
            i <= 32,
            size == data@.len(),
            at + 32 <= size,
            word == data@.subrange(at as int, at + 32),
            acc <= limit,
            acc == be_value(word.take(i as int)),
        decreases 32 - i,
    {
        let byte = data[at + i];
        let next: u128 = (acc as u128) * 256 + (byte as u128);
        proof {
            let longer = word.take(i + 1);
            assert(longer.drop_last() =~= word.take(i as int));
            assert(longer.last() == byte);
            assert(be_value(longer) == next);
            lemma_be_value_prefix(word, i + 1);
        }
        if next > limit as u128 {
            return None;
        }
        acc = next as usize;
        i = i + 1;
    }
    assert(word.take(32) =~= word);
    Some(acc)
}

/// Reads the `bytes` value laid out at `at`.
fn read_tail(data: &[u8], at: usize) -> (r: Option<(Vec<u8>, usize)>)
    requires
        at <= data@.len(),
    ensures
        option_tail(r) == tail_at(data@, at as int),
{
    if data.len() - at < 32 {
        return None;
    }
    let limit = data.len() - at - 32;
    let len = match read_word(data, at, limit) {
        Some(len) => len,
        None => {
            return None;
        },
    };
    let rest = len % 32;
    let pad: usize = if rest == 0 {
        0
    } else {
        32 - rest
    };
    assert(pad == padding(len as nat));
    if pad > limit - len {
        return None;
    }
    let start = at + 32 + len;
    let end = start + pad;
    let mut i: usize = start;
    while i < end
        invariant
            start <= i <= end,
            end <= data@.len(),
            at + 32 <= data@.len(),
            len == word_at(data@, at as int),
            start == at + 32 + len,
            end == start + padding(len as nat),
            zeros(data@, start as int, i as int),
        decreases end - i,
    {
        if data[i] != 0 {
            assert(!zeros(data@, start as int, end as int)) by {
                assert(data@[i as int] != 0);
            }
            return None;
        }
        i = i + 1;
    }
    let content = slice_to_vec(slice_subrange(data, at + 32, start));
    Some((content, end))
}

/// Decodes the ABI encoding of a sequence of one `bytes` value.
pub fn abi_decode_bytes(data: &[u8]) -> (r: Option<Vec<u8>>)
    ensures
        option_bytes(r) == abi_bytes_of(data@),
{
    if data.len() < 32 {
        return None;
    }
    match read_word(data, 0, 32) {
        Some(32) => {},
        _ => {
            return None;
        },
    }
    match read_tail(data, 32) {
        Some((content, end)) => {
            if end == data.len() {
                Some(content)
            } else {
                None
            }
        },
        None => None,
    }
}

/// Decodes the ABI encoding of a sequence of two `bytes` values.
pub fn abi_decode_bytes_pair(data: &[u8]) -> (r: Option<(Vec<u8>, Vec<u8>)>)
    ensures
        option_bytes_pair(r) == abi_bytes_pair_of(data@),
{
    if data.len() < 64 {
        return None;
    }
    match read_word(data, 0, 64) {
        Some(64) => {},
        _ => {
            return None;
        },
    }
    let (first, middle) = match read_tail(data, 64) {
        Some(tail) => tail,
        None => {
            return None;
        },
    };
    match read_word(data, 32, middle) {
        Some(place) => {
            if place != middle {
                return None;
            }
        },
        None => {
            return None;
        },
    }
    match read_tail(data, middle) {
        Some((second, end)) => {
            if end == data.len() {
                Some((first, second))
            } else {
                None
            }
        },
        None => None,
    }
}

} // verus!
