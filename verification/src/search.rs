//! What a search returns, and what one probe of the packed search reports.

use vstd::prelude::*;

verus! {

/// The number of haystack bytes in one window of the packed search.
pub const WINDOW: usize = 16;

/// Whether no byte of `haystack` is one of the bytes of `needle`.
pub open spec fn no_match(haystack: Seq<u8>, needle: Seq<u8>) -> bool {
    forall|j: int| 0 <= j < haystack.len() ==> !needle.contains(#[trigger] haystack[j])
}

/// Whether `found` is the answer to a search of `haystack` for the bytes of
/// `needle`: the least index that holds a needle byte, or nothing where no
/// index holds one.
pub open spec fn first_match(haystack: Seq<u8>, needle: Seq<u8>, found: Option<usize>) -> bool {
    match found {
        Some(i) => {
            &&& i < haystack.len()
            &&& needle.contains(haystack[i as int])
            &&& forall|j: int| 0 <= j < i ==> !needle.contains(#[trigger] haystack[j])
        },
        None => no_match(haystack, needle),
    }
}

/// Whether `found` is the answer of a scan of `haystack` with `predicate`:
/// the least index whose byte the predicate accepts, every byte before it
/// refused, or nothing where it refuses every byte.
pub open spec fn first_accepted<F: Fn(u8) -> bool>(
    predicate: F,
    haystack: Seq<u8>,
    found: Option<usize>,
) -> bool {
    match found {
        Some(i) => {
            &&& i < haystack.len()
            &&& call_ensures(predicate, (haystack[i as int],), true)
            &&& forall|j: int|
                0 <= j < i ==> call_ensures(predicate, (#[trigger] haystack[j],), false)
        },
        None => forall|j: int|
            0 <= j < haystack.len() ==> call_ensures(predicate, (#[trigger] haystack[j],), false),
    }
}

/// Whether `predicate` answers for exactly the bytes of `needle`: whatever
/// it returns for a byte says whether the byte is a needle byte.
pub open spec fn answers_for<F: Fn(u8) -> bool>(predicate: F, needle: Seq<u8>) -> bool {
    forall|byte: u8, answer: bool| #[trigger]
        call_ensures(predicate, (byte,), answer) ==> answer == needle.contains(byte)
}

/// The number of bytes that a probe looks at when it is asked for `len`
/// bytes from `offset` on in a buffer of `total` bytes: a probe saturates at
/// the width of a window and never reads past the end of the buffer.
pub open spec fn window_len(total: nat, offset: nat, len: nat) -> nat {
    let wanted = if len < WINDOW { len } else { WINDOW as nat };
    if offset >= total {
        0
    } else if total - offset < wanted {
        (total - offset) as nat
    } else {
        wanted
    }
}

/// Whether `index` is what a probe reports of the window of `width` bytes
/// that starts at `offset`: the place in the window of its first needle
/// byte, or 16 where the window holds none.
pub open spec fn window_index(
    haystack: Seq<u8>,
    needle: Seq<u8>,
    offset: int,
    width: int,
    index: u32,
) -> bool {
    if index < WINDOW {
        &&& index < width
        &&& needle.contains(haystack[offset + index])
        &&& forall|j: int| offset <= j < offset + index ==> !needle.contains(#[trigger] haystack[j])
    } else {
        &&& index == WINDOW
        &&& forall|j: int| offset <= j < offset + width ==> !needle.contains(#[trigger] haystack[j])
    }
}

/// Whether bit `i` of `mask` is set.
pub open spec fn bit(mask: u64, i: u64) -> bool {
    (mask >> i) & 1 == 1
}

/// Whether `mask` is the membership mask of the first `width` bytes of
/// `block`: bit `i` is set exactly where byte `i` is one of these and a
/// needle byte.
pub open spec fn window_mask(block: Seq<u8>, needle: Seq<u8>, width: int, mask: u64) -> bool {
    forall|i: u64|
        i < 64 ==> (#[trigger] bit(mask, i) <==> i < width && needle.contains(block[i as int]))
}

/// No bit of the empty mask is set.
pub proof fn lemma_bit_of_zero(i: u64)
    by (bit_vector)
    requires
        i < 64,
    ensures
        !bit(0, i),
{
}

/// Setting bit `i` of a mask changes bit `i` and no other.
pub proof fn lemma_bit_after_set(mask: u64, i: u64, j: u64)
    by (bit_vector)
    requires
        i < 64,
        j < 64,
    ensures
        bit(mask | (1u64 << i), j) == (bit(mask, j) || j == i),
{
}

/// A search has one answer.
pub proof fn lemma_first_match_unique(
    haystack: Seq<u8>,
    needle: Seq<u8>,
    one: Option<usize>,
    other: Option<usize>,
)
    requires
        first_match(haystack, needle, one),
        first_match(haystack, needle, other),
    ensures
        one == other,
{
}

} // verus!
