//! The needle set and its two search paths.

use vstd::prelude::*;
use vstd::std_specs::bits::axiom_u64_trailing_zeros;
use crate::lanes::{lane_of, lemma_shift_in, read_lane, MAX_BYTES};
use crate::search::{
    answers_for, bit, first_accepted, first_match, lemma_bit_after_set, lemma_bit_of_zero,
    no_match, window_index, window_len, window_mask, WINDOW,
};

verus! {

/// A set of up to sixteen bytes to search for, packed into a 128-bit shift
/// register of byte lanes.
#[derive(Copy, Clone, Debug)]
pub struct Bytes {
    needle_lo: u64,
    needle_hi: u64,
    count: u8,
}

/// A needle set together with a scalar predicate that is to answer for the
/// same set.
#[derive(Copy, Clone, Debug)]
pub struct BytesWithFallback<F> {
    inner: Bytes,
    fallback: F,
}

impl View for Bytes {
    type V = Seq<u8>;

    /// The needle bytes in use, oldest first: the byte pushed last is the
    /// last element and sits in lane 0.
    open spec fn view(&self) -> Seq<u8> {
        Seq::new(self.active(), |k: int| self.lane(self.active() - 1 - k))
    }
}

impl Bytes {
    /// The low word, as contracts see it; written `low()` there.
    pub closed spec fn spec_low(&self) -> u64 {
        self.needle_lo
    }

    /// The high word, as contracts see it; written `high()` there.
    pub closed spec fn spec_high(&self) -> u64 {
        self.needle_hi
    }

    /// The stored count, as contracts see it; written `count()` there.
    pub closed spec fn spec_count(&self) -> u8 {
        self.count
    }

    /// The set that `from_words` makes, as contracts see it; written
    /// `from_words(..)` there.
    pub closed spec fn spec_from_words(lo: u64, hi: u64, count: usize) -> Bytes {
        Bytes { needle_lo: lo, needle_hi: hi, count: (count % 256) as u8 }
    }

    /// The byte in lane `k` of the register, for `k` from 0 to 15.
    pub open spec fn lane(&self, k: int) -> u8 {
        lane_of(self.low(), self.high(), k as u64)
    }

    /// The number of lanes that a search looks at: the stored count,
    /// saturated at the width of the register.
    pub open spec fn active(&self) -> nat {
        if self.count() < MAX_BYTES {
            self.count() as nat
        } else {
            MAX_BYTES as nat
        }
    }

    /// The empty needle set.
    pub fn new() -> (needle: Bytes)
        ensures
            needle.low() == 0,
            needle.high() == 0,
            needle.count() == 0,
            needle@ == Seq::<u8>::empty(),
    {
        Bytes::from_words(0, 0, 0)
    }

    /// A needle set made of the packed words `lo` and `hi`, of which the
    /// lowest `count` lanes are in use. The count is stored in eight bits
    /// and not held against the width of the register: a search saturates.
    #[verifier::when_used_as_spec(spec_from_words)]
    pub fn from_words(lo: u64, hi: u64, count: usize) -> (needle: Bytes)
        ensures
            needle == Bytes::from_words(lo, hi, count),
            needle.low() == lo,
            needle.high() == hi,
            needle.count() == count % 256,
    {
        assert(count as u8 == count % 256) by (bit_vector);
        Bytes { needle_lo: lo, needle_hi: hi, count: #[verifier::truncate] (count as u8) }
    }

    /// Adds `byte` to the set: every lane moves up by one, the top byte of
    /// the low word going over into the high word, and `byte` takes lane 0.
    pub fn push(&mut self, byte: u8)
        requires
            old(self).count() < MAX_BYTES,
        ensures
            final(self).count() == old(self).count() + 1,
            final(self).low() == (old(self).low() << 8) | (byte as u64),
            final(self).high() == (old(self).high() << 8) | (old(self).low() >> 56),
            final(self)@ == old(self)@.push(byte),
    {
        let lo: u64 = self.needle_lo;
        let hi: u64 = self.needle_hi;
        self.needle_hi = (hi << 8) | (lo >> 56);
        self.needle_lo = (lo << 8) | (byte as u64);
        self.count = self.count + 1;
        proof {
            let grown = self@;
            let wanted = old(self)@.push(byte);
            assert forall|k: int| 0 <= k < grown.len() implies grown[k] == wanted[k] by {
                lemma_shift_in(lo, hi, byte, (self.active() - 1 - k) as u64);
            }
            assert(grown =~= wanted);
        }
    }

    /// Pairs the set with a scalar predicate, which is to accept exactly
    /// the bytes of the set. Nothing holds the predicate to that.
    pub fn with_fallback<F>(self, fallback: F) -> (searcher: BytesWithFallback<F>) where
        F: Fn(u8) -> bool,

        ensures
            searcher.needle() == self,
            searcher.predicate() == fallback,
    {
        BytesWithFallback { inner: self, fallback: fallback }
    }

    /// Whether `byte` is one of the needle bytes in use.
    pub fn matches(&self, byte: u8) -> (found: bool)
        ensures
            found == self@.contains(byte),
    {
        let active: u8 = if self.count < MAX_BYTES {
            self.count
        } else {
            MAX_BYTES
        };
        let mut k: u8 = 0;
        while k < active
            invariant
                k <= active,
                active == self.active(),
                forall|j: int| 0 <= j < k ==> self.lane(j) != byte,
            decreases active - k,
        {
            if read_lane(self.needle_lo, self.needle_hi, k) == byte {
                assert(self@[self.active() - 1 - k] == byte);
                return true;
            }
            k = k + 1;
        }
        proof {
            assert forall|i: int| 0 <= i < self@.len() implies self@[i] != byte by {
                assert(self.lane(self.active() - 1 - i) != byte);
            }
        }
        false
    }

    /// Probes the first window of a search. Of the block, `offset + len`
    /// bytes count, saturated at the width of a window; the result is their
    /// membership mask, bit `i` standing for byte `i` of the block.
    pub fn initial(&self, block: &[u8], offset: usize, len: usize) -> (mask: u64)
        ensures
            window_mask(
                block@,
                self@,
                window_len(block@.len(), 0, (offset + len) as nat) as int,
                mask,
            ),
    {
        let total: usize = block.len();
        let wanted: usize = match offset.checked_add(len) {
            Some(sum) => sum,
            None => WINDOW,
        };
        let mut width: usize = if wanted < WINDOW {
            wanted
        } else {
            WINDOW
        };
        if total < width {
            width = total;
        }
        let mut mask: u64 = 0;
        let mut i: usize = 0;
        proof {
            assert forall|j: u64| j < 64 implies !bit(0, j) by {
                lemma_bit_of_zero(j);
            }
        }
        while i < width
            invariant
                i <= width <= WINDOW,
                width <= block@.len(),
                window_mask(block@, self@, i as int, mask),
            decreases width - i,
        {
            if self.matches(block[i]) {
                let ghost before = mask;
                mask = mask | (1u64 << (i as u64));
                proof {
                    assert forall|j: u64| j < 64 implies (bit(mask, j) <==> bit(before, j) || j
                        == i) by {
                        lemma_bit_after_set(before, i as u64, j);
                    }
                }
            }
            i = i + 1;
        }
        mask
    }

    /// Probes one window of a search: up to `len` bytes of the haystack
    /// from `offset` on, saturated at the width of a window. The result is
    /// the place in the window of its first needle byte, or 16 where it
    /// holds none.
    pub fn body(&self, haystack: &[u8], offset: usize, len: usize) -> (index: u32)
        ensures
            window_index(
                haystack@,
                self@,
                offset as int,
                window_len(haystack@.len(), offset as nat, len as nat) as int,
                index,
            ),
    {
        let total: usize = haystack.len();
        if offset >= total {
            return 16;
        }
        let mut width: usize = if len < WINDOW {
            len
        } else {
            WINDOW
        };
        if total - offset < width {
            width = total - offset;
        }
        let mut i: usize = 0;
        while i < width
            invariant
                i <= width <= WINDOW,
                total == haystack@.len(),
                offset + width <= total,
                width == window_len(haystack@.len(), offset as nat, len as nat),
                forall|j: int| offset <= j < offset + i ==> !self@.contains(#[trigger] haystack@[j]),
            decreases width - i,
        {
            if self.matches(haystack[offset + i]) {
                return i as u32;
            }
            i = i + 1;
        }
        16
    }

    /// Finds the first index of a byte of the set. The haystack is taken
    /// in windows of sixteen bytes: the first through its membership mask,
    /// the others through the place of their first needle byte.
    pub fn position(self, haystack: &[u8]) -> (found: Option<usize>)
        ensures
            first_match(haystack@, self@, found),
            found is None <==> no_match(haystack@, self@),
            haystack@.len() == 0 ==> found is None,
            self@.len() == 0 ==> found is None,
    {
        let total: usize = haystack.len();
        let mask: u64 = self.initial(haystack, 0, total);
        let ghost width = window_len(total as nat, 0, total as nat);
        if mask != 0 {
            proof {
                axiom_u64_trailing_zeros(mask);
            }
            let first: u32 = mask.trailing_zeros();
            proof {
                assert(bit(mask, first as u64));
                assert forall|j: int| 0 <= j < first implies !self@.contains(
                    #[trigger] haystack@[j],
                ) by {
                    assert(!bit(mask, j as u64));
                }
            }
            return Some(first as usize);
        }
        proof {
            assert forall|j: int| 0 <= j < width implies !self@.contains(#[trigger] haystack@[j]) by {
                lemma_bit_of_zero(j as u64);
                assert(!bit(mask, j as u64));
            }
        }
        let mut offset: usize = WINDOW;
        while offset < total
            invariant
                total == haystack@.len(),
                WINDOW <= offset,
                forall|j: int|
                    0 <= j < offset && j < total ==> !self@.contains(#[trigger] haystack@[j]),
            decreases total - offset,
        {
            let index: u32 = self.body(haystack, offset, total - offset);
            if index < 16 {
                return Some(offset + index as usize);
            }
            if total - offset <= WINDOW {
                return None;
            }
            offset = offset + WINDOW;
        }
        None
    }

    /// The low word of the register: lanes 0 to 7.
    #[verifier::when_used_as_spec(spec_low)]
    pub fn low(&self) -> (word: u64)
        ensures
            word == self.low(),
    {
        self.needle_lo
    }

    /// The high word of the register: lanes 8 to 15.
    #[verifier::when_used_as_spec(spec_high)]
    pub fn high(&self) -> (word: u64)
        ensures
            word == self.high(),
    {
        self.needle_hi
    }

    /// The stored number of lanes in use.
    #[verifier::when_used_as_spec(spec_count)]
    pub fn count(&self) -> (count: u8)
        ensures
            count == self.count(),
    {
        self.count
    }

    /// A count above the width of the register saturates: the set holds
    /// the same bytes as the set of the same words with a count of sixteen,
    /// and every search has the same answer for both. This is said of the
    /// count as it is stored, in eight bits.
    pub proof fn lemma_count_saturates(lo: u64, hi: u64, count: usize)
        requires
            count > MAX_BYTES,
            count % 256 >= MAX_BYTES,
        ensures
            Bytes::from_words(lo, hi, count)@ == Bytes::from_words(lo, hi, 16)@,
            forall|haystack: Seq<u8>, found: Option<usize>|
                first_match(haystack, Bytes::from_words(lo, hi, count)@, found) == first_match(
                    haystack,
                    #[trigger] Bytes::from_words(lo, hi, 16)@,
                    found,
                ),
    {
        assert(Bytes::from_words(lo, hi, count)@ =~= Bytes::from_words(lo, hi, 16)@);
    }
}

impl<F: Fn(u8) -> bool> BytesWithFallback<F> {
    /// The needle set, as contracts see it; written `needle()` there.
    pub closed spec fn spec_needle(&self) -> Bytes {
        self.inner
    }

    /// The scalar predicate.
    pub closed spec fn predicate(&self) -> F {
        self.fallback
    }

    /// Whether the predicate can be asked about every byte.
    pub open spec fn total(&self) -> bool {
        forall|byte: u8| call_requires(self.predicate(), (byte,))
    }

    /// Whether the predicate answers for exactly the bytes of the needle
    /// set.
    pub open spec fn exact(&self) -> bool {
        answers_for(self.predicate(), self.needle()@)
    }

    /// Finds the first index of a byte that the predicate accepts, byte by
    /// byte. Where the predicate is exact, this is the first index of a byte
    /// of the needle set.
    pub fn position(&self, haystack: &[u8]) -> (found: Option<usize>)
        requires
            self.total(),
        ensures
            first_accepted(self.predicate(), haystack@, found),
            haystack@.len() == 0 ==> found is None,
            self.exact() ==> first_match(haystack@, self.needle()@, found),
            self.exact() ==> (found is None <==> no_match(haystack@, self.needle()@)),
            self.exact() && self.needle()@.len() == 0 ==> found is None,
    {
        let mut i: usize = 0;
        while i < haystack.len()
            invariant
                i <= haystack@.len(),
                self.total(),
                forall|j: int|
                    0 <= j < i ==> call_ensures(self.fallback, (#[trigger] haystack@[j],), false),
            decreases haystack@.len() - i,
        {
            assert(call_requires(self.predicate(), (haystack@[i as int],)));
            if (self.fallback)(haystack[i]) {
                return Some(i);
            }
            i = i + 1;
        }
        None
    }

    /// Asks the predicate about each of the 256 bytes and holds its answer
    /// against the needle set. A search never does this by itself.
    pub fn fallback_agrees(&self) -> (agreed: bool)
        requires
            self.total(),
        ensures
            self.exact() ==> agreed,
            agreed ==> forall|byte: u8| #[trigger]
                call_ensures(self.predicate(), (byte,), self.needle()@.contains(byte)),
    {
        let mut byte: u8 = 0;
        loop
            invariant
                self.total(),
                forall|earlier: u8|
                    earlier < byte ==> #[trigger] call_ensures(
                        self.fallback,
                        (earlier,),
                        self.inner@.contains(earlier),
                    ),
            decreases 255 - byte,
        {
            assert(call_requires(self.predicate(), (byte,)));
            let answer: bool = (self.fallback)(byte);
            if answer != self.inner.matches(byte) {
                return false;
            }
            if byte == 255 {
                return true;
            }
            byte = byte + 1;
        }
    }

    /// The needle set.
    #[verifier::when_used_as_spec(spec_needle)]
    pub fn needle(&self) -> (needle: Bytes)
        ensures
            needle == self.needle(),
    {
        self.inner
    }

    /// The two paths agree: where the predicate answers for exactly the
    /// bytes of the needle set, the answer of the packed search of the set
    /// and the answer of the scan with the predicate are the same.
    pub proof fn lemma_paths_agree(self, haystack: Seq<u8>, packed: Option<usize>, scanned: Option<usize>)
        requires
            self.exact(),
            first_match(haystack, self.needle()@, packed),
            first_accepted(self.predicate(), haystack, scanned),
        ensures
            packed == scanned,
    {
    }
}

} // verus!
