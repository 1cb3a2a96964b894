//! Techmino's piece randomizer: a seeded xorshift64* generator that deals the
//! seven pieces in shuffled bags of seven.
use vstd::prelude::*;
use crate::PieceType;

verus! {

use vstd::utf8::encode_utf8;
use vstd::wrapping::u64_specs::{wrapping_add, wrapping_mul, wrapping_shl, wrapping_shr};

/// The generator's state after seeding with `seed` (a zero seed is replaced
/// by a fixed constant first).
pub open spec fn seeded_state(seed: u64) -> u64 {
    let k0: u64 = if seed == 0 { 0x0139408D_CBBF7A44u64 } else { seed };
    let k1 = wrapping_add(!k0, wrapping_shl(k0, 21));
    let k2 = k1 ^ wrapping_shr(k1, 24);
    let k3 = wrapping_mul(k2, 265);
    let k4 = k3 ^ wrapping_shr(k3, 14);
    let k5 = wrapping_mul(k4, 21);
    let k6 = k5 ^ wrapping_shr(k5, 28);
    wrapping_add(k6, wrapping_shl(k6, 31))
}

/// The xorshift step from one state to the next.
pub open spec fn next_state(s: u64) -> u64 {
    let s1 = s ^ wrapping_shr(s, 12);
    let s2 = s1 ^ wrapping_shl(s1, 25);
    s2 ^ wrapping_shr(s2, 27)
}

/// The number that the generator puts out from the state it has moved to.
pub open spec fn output_of(s: u64) -> u64 {
    wrapping_mul(s, 2685821657736338717u64)
}

/// `p` rounded to a multiple of `u`, to nearest, ties to the even multiple.
pub open spec fn round_half_even(p: int, u: int) -> int {
    let q = p / u;
    let r = p % u;
    if 2 * r > u || (2 * r == u && q % 2 == 1) {
        (q + 1) * u
    } else {
        q * u
    }
}

/// `p` (below 2^55) as an IEEE double keeps it: 53 significant bits, rounded
/// to nearest with ties to even.
pub open spec fn double_rounded(p: int) -> int {
    if p < 0x20_0000_0000_0000 {
        p
    } else if p < 0x40_0000_0000_0000 {
        round_half_even(p, 2)
    } else {
        round_half_even(p, 4)
    }
}

/// The bag position that an output `r` picks in a bag of `len` pieces: the
/// generator's double `(r >> 12) / 2^52`, in [0, 1), times `len` in double
/// arithmetic, truncated.
pub open spec fn pick_index(r: u64, len: nat) -> int {
    double_rounded((r / 4096) * len) / 0x10_0000_0000_0000
}

/// A fresh bag, in the order it is filled.
pub open spec fn full_bag() -> Seq<i32> {
    seq![7i32, 6, 5, 4, 3, 2, 1]
}

/// One deal from generator state `s` and bag `bag`: the piece number dealt,
/// the next state and the bag left. An empty bag is refilled first.
pub open spec fn deal(s: u64, bag: Seq<i32>) -> (i32, u64, Seq<i32>) {
    let b = if bag.len() == 0 { full_bag() } else { bag };
    let s2 = next_state(s);
    let idx = pick_index(output_of(s2), b.len());
    (b[idx], s2, b.remove(idx))
}

/// The state and bag after `n` deals.
pub open spec fn after_deals(s: u64, bag: Seq<i32>, n: nat) -> (u64, Seq<i32>)
    decreases n,
{
    if n == 0 {
        (s, bag)
    } else {
        let prev = after_deals(s, bag, (n - 1) as nat);
        let d = deal(prev.0, prev.1);
        (d.1, d.2)
    }
}

/// The piece number of deal `k` (counted from 0).
pub open spec fn dealt(s: u64, bag: Seq<i32>, k: nat) -> i32 {
    let st = after_deals(s, bag, k);
    deal(st.0, st.1).0
}

/// The piece that a piece number stands for (1 is `Z` ... 7 is `I`).
pub open spec fn piece_of_number(v: i32) -> PieceType {
    if 1 <= v <= 7 {
        PieceType::spec_from_index(v as u8)
    } else {
        PieceType::Empty
    }
}

/// The first `count` pieces dealt for a seed.
pub open spec fn piece_sequence(seed: u64, count: nat) -> Seq<PieceType> {
    Seq::new(count, |k: int| piece_of_number(dealt(seeded_state(seed), Seq::empty(), k as nat)))
}

/// The value of a string of decimal digits.
pub open spec fn decimal_value(d: Seq<u8>) -> int
    decreases d.len(),
{
    if d.len() == 0 {
        0
    } else {
        decimal_value(d.drop_last()) * 10 + (d.last() - 48)
    }
}

/// Whether every byte is an ASCII digit.
pub open spec fn all_digits(d: Seq<u8>) -> bool {
    forall|i: int| 0 <= i < d.len() ==> 48 <= #[trigger] d[i] <= 57
}

/// What `u32::from_str` gives for these bytes: an optional `+`, then one or
/// more decimal digits whose value fits in a `u32`.
pub open spec fn parse_decimal_u32(b: Seq<u8>) -> Option<u32> {
    let d = if b.len() > 0 && b[0] == 43 { b.drop_first() } else { b };
    if d.len() > 0 && all_digits(d) && decimal_value(d) <= u32::MAX {
        Some(decimal_value(d) as u32)
    } else {
        None
    }
}

/// The numeric seed that a seed string stands for, if any.
pub open spec fn seed_of(s: Seq<char>) -> Option<u32> {
    parse_decimal_u32(encode_utf8(s))
}

proof fn lemma_decimal_value_bounds(d: Seq<u8>)
    requires
        all_digits(d),
    ensures
        decimal_value(d) >= 0,
    decreases d.len(),
{
    if d.len() > 0 {
        assert(all_digits(d.drop_last()));
        lemma_decimal_value_bounds(d.drop_last());
    }
}

/// Reads a seed the way `str::parse::<u32>` does.
pub fn parse_seed(seed: &str) -> (r: Option<u32>)
    ensures
        r == seed_of(seed@),
{
    let b = seed.as_bytes();
    let n = b.len();
    let mut start: usize = 0;
    if n > 0 && b[0] == 43u8 {
        start = 1;
    }
    let ghost d = if b@.len() > 0 && b@[0] == 43 { b@.drop_first() } else { b@ };
    assert(seed_of(seed@) == parse_decimal_u32(b@));
    assert(d =~= b@.subrange(start as int, n as int));
    if start == n {
        return None;
    }
    let mut acc: u64 = 0;
    let mut i: usize = start;
    while i < n
        invariant
            start <= i <= n,
            n == b@.len(),
            d =~= b@.subrange(start as int, n as int),
            d == (if b@.len() > 0 && b@[0] == 43 { b@.drop_first() } else { b@ }),
            seed_of(seed@) == parse_decimal_u32(b@),
            all_digits(b@.subrange(start as int, i as int)),
            acc == decimal_value(b@.subrange(start as int, i as int)),
            acc <= u32::MAX,
        decreases n - i,
    {
        let c = b[i];
        assert(b@.subrange(start as int, i + 1 as int).drop_last() =~= b@.subrange(start as int, i as int));
        if c < 48u8 || c > 57u8 {
            assert(d[i - start] == c);
            assert(!all_digits(d));
            proof {
                lemma_parse_none_when_not_digits(b@, d);
            }
            return None;
        }
        proof {
            lemma_decimal_value_bounds(b@.subrange(start as int, i as int));
        }
        acc = acc * 10 + (c - 48u8) as u64;
        assert(all_digits(b@.subrange(start as int, i + 1 as int)));
        if acc > 0xFFFF_FFFFu64 {
            proof {
                if all_digits(d) {
                    lemma_decimal_prefix_bound(d, (i + 1 - start) as nat);
                    assert(d.subrange(0, i + 1 - start) =~= b@.subrange(start as int, i + 1 as int));
                }
                assert(parse_decimal_u32(b@) is None);
            }
            return None;
        }
        i = i + 1;
    }
    assert(d =~= b@.subrange(start as int, i as int));
    Some(acc as u32)
}

proof fn lemma_parse_none_when_not_digits(b: Seq<u8>, d: Seq<u8>)
    requires
        d == (if b.len() > 0 && b[0] == 43 { b.drop_first() } else { b }),
        !all_digits(d),
    ensures
        parse_decimal_u32(b) is None,
{
}

/// A prefix of a digit string never has a larger value than the string.
proof fn lemma_decimal_prefix_bound(d: Seq<u8>, k: nat)
    requires
        all_digits(d),
        k <= d.len(),
    ensures
        decimal_value(d.subrange(0, k as int)) <= decimal_value(d),
    decreases d.len(),
{
    if k == d.len() {
        assert(d.subrange(0, k as int) =~= d);
    } else {
        assert(all_digits(d.drop_last()));
        lemma_decimal_prefix_bound(d.drop_last(), k);
        assert(d.drop_last().subrange(0, k as int) =~= d.subrange(0, k as int));
        lemma_decimal_value_bounds(d.drop_last());
    }
}

/// A seeded xorshift64* generator.
pub struct XorShift64Star {
    state: u64,
}

impl View for XorShift64Star {
    type V = u64;

    /// The generator's state.
    closed spec fn view(&self) -> u64 {
        self.state
    }
}

impl XorShift64Star {
    /// A generator seeded with `seed`.
    pub fn new(seed: u64) -> (g: Self)
        ensures
            g@ == seeded_state(seed),
    {
        let mut key = if seed == 0 {
            0x0139408D_CBBF7A44u64
        } else {
            seed
        };
        key = (!key).wrapping_add(key.wrapping_shl(21));
        key ^= key.wrapping_shr(24);
        key = key.wrapping_mul(265);
        key ^= key.wrapping_shr(14);
        key = key.wrapping_mul(21);
        key ^= key.wrapping_shr(28);
        key = key.wrapping_add(key.wrapping_shl(31));
        XorShift64Star { state: key }
    }

    /// Moves to the next state and returns its output.
    pub fn next_u64(&mut self) -> (r: u64)
        ensures
            final(self)@ == next_state(old(self)@),
            r == output_of(final(self)@),
    {
        self.state ^= self.state.wrapping_shr(12);
        self.state ^= self.state.wrapping_shl(25);
        self.state ^= self.state.wrapping_shr(27);
        self.state.wrapping_mul(2685821657736338717u64)
    }
}

/// Whether the bag holds distinct piece numbers from 1 to 7.
pub open spec fn bag_wf(bag: Seq<i32>) -> bool {
    &&& bag.len() <= 7
    &&& forall|i: int| 0 <= i < bag.len() ==> 1 <= #[trigger] bag[i] <= 7
    &&& forall|i: int, j: int| 0 <= i < j < bag.len() ==> bag[i] != bag[j]
}

/// The index that `pick_index` gives stays in the bag.
proof fn lemma_pick_index_in_range(r: u64, len: nat)
    requires
        1 <= len <= 7,
    ensures
        0 <= pick_index(r, len) < len,
{
    let m = r / 4096;
    assert(m < 0x10_0000_0000_0000);
    let p = m * len;
    assert(0 <= p <= 0x10_0000_0000_0000 * len - len) by (nonlinear_arith)
        requires
            0 <= m < 0x10_0000_0000_0000,
            1 <= len <= 7,
            p == m * len,
    ;
    let t = len * 0x10_0000_0000_0000;
    assert(double_rounded(p) < t) by {
        if p < 0x20_0000_0000_0000 {
        } else if p < 0x40_0000_0000_0000 {
            assert(len >= 2);
            assert(t % 2 == 0);
        } else {
            assert(len >= 4);
            assert(t % 4 == 0);
        }
    }
    assert(double_rounded(p) >= 0);
}

/// What holds after `n` deals from an empty bag: the bag is well formed, its
/// size follows `n` modulo 7, and the deals of the current bag are distinct
/// piece numbers that the bag no longer holds.
proof fn lemma_bag_invariant(s0: u64, n: nat)
    ensures
        bag_wf(after_deals(s0, Seq::empty(), n).1),
        after_deals(s0, Seq::empty(), n).1.len() == (if n % 7 == 0 { 0 } else { 7 - n % 7 }),
        forall|t: nat| 7 * (n / 7) <= t < n ==> {
            &&& 1 <= #[trigger] dealt(s0, Seq::empty(), t) <= 7
            &&& !after_deals(s0, Seq::empty(), n).1.contains(dealt(s0, Seq::empty(), t))
        },
        forall|t1: nat, t2: nat|
            7 * (n / 7) <= t1 < t2 < n ==> #[trigger] dealt(s0, Seq::empty(), t1) != #[trigger] dealt(
                s0,
                Seq::empty(),
                t2,
            ),
    decreases n,
{
    if n > 0 {
        let m = (n - 1) as nat;
        lemma_bag_invariant(s0, m);
        let st = after_deals(s0, Seq::empty(), m);
        let b = if st.1.len() == 0 { full_bag() } else { st.1 };
        assert(bag_wf(b)) by {
            if st.1.len() == 0 {
                assert(full_bag().len() == 7);
            }
        }
        assert(b.len() == 7 - m % 7);
        let s2 = next_state(st.0);
        let idx = pick_index(output_of(s2), b.len());
        lemma_pick_index_in_range(output_of(s2), b.len());
        let nb = b.remove(idx);
        assert(after_deals(s0, Seq::empty(), n) == (s2, nb));
        assert(dealt(s0, Seq::empty(), m) == b[idx]);
        assert(bag_wf(nb)) by {
            assert forall|i: int, j: int| 0 <= i < j < nb.len() implies nb[i] != nb[j] by {
                if j < idx {
                } else if i < idx {
                    assert(nb[j] == b[j + 1]);
                } else {
                    assert(nb[i] == b[i + 1]);
                    assert(nb[j] == b[j + 1]);
                }
            }
            assert forall|i: int| 0 <= i < nb.len() implies 1 <= #[trigger] nb[i] <= 7 by {
                if i >= idx {
                    assert(nb[i] == b[i + 1]);
                }
            }
        }
        assert(!nb.contains(b[idx])) by {
            if nb.contains(b[idx]) {
                let i = choose|i: int| 0 <= i < nb.len() && nb[i] == b[idx];
                if i < idx {
                    assert(b[i] == b[idx]);
                } else {
                    assert(b[i + 1] == b[idx]);
                }
            }
        }
        if n % 7 != 0 {
            assert(7 * (n / 7) == 7 * (m / 7));
            assert forall|t: nat| 7 * (n / 7) <= t < m implies !nb.contains(
                #[trigger] dealt(s0, Seq::empty(), t),
            ) by {
                if nb.contains(dealt(s0, Seq::empty(), t)) {
                    let i = choose|i: int| 0 <= i < nb.len() && nb[i] == dealt(s0, Seq::empty(), t);
                    if m % 7 == 0 {
                        assert(false);
                    } else if i < idx {
                        assert(st.1.contains(nb[i])) by {
                            assert(st.1[i] == nb[i]);
                        }
                    } else {
                        assert(st.1.contains(nb[i])) by {
                            assert(st.1[i + 1] == nb[i]);
                        }
                    }
                }
            }
            assert forall|t1: nat, t2: nat| 7 * (n / 7) <= t1 < t2 < n implies #[trigger] dealt(
                s0,
                Seq::empty(),
                t1,
            ) != #[trigger] dealt(s0, Seq::empty(), t2) by {
                if t2 == m {
                    if m % 7 != 0 {
                        assert(st.1.contains(b[idx]));
                    }
                }
            }
        }
    }
}

/// Techmino deals in bags of seven: for every seed, the deals numbered `7k`
/// to `7k + 6` are seven distinct piece numbers from 1 to 7, so each piece
/// comes exactly once in each bag.
pub proof fn lemma_deals_come_in_bags(seed: u64, k: nat, i: nat, j: nat)
    requires
        7 * k <= i < j < 7 * k + 7,
    ensures
        1 <= dealt(seeded_state(seed), Seq::empty(), i) <= 7,
        dealt(seeded_state(seed), Seq::empty(), i) != dealt(seeded_state(seed), Seq::empty(), j),
{
    let n = 7 * k + 7;
    lemma_bag_invariant(seeded_state(seed), (n - 1) as nat);
    assert(7 * (((n - 1) as nat) / 7) == 7 * k);
    if j < n - 1 {
    } else {
        lemma_bag_invariant(seeded_state(seed), n as nat);
        lemma_bag_invariant(seeded_state(seed), (n - 1) as nat);
        // the last deal of the bag leaves it empty and differs from the others
        let st = after_deals(seeded_state(seed), Seq::empty(), (n - 1) as nat);
        assert(st.1.len() == 1);
        assert(dealt(seeded_state(seed), Seq::empty(), j) == st.1[0]) by {
            let s2 = next_state(st.0);
            lemma_pick_index_in_range(output_of(s2), 1);
        }
        assert(st.1.contains(st.1[0]));
    }
}

/// Every deal is a piece number from 1 to 7.
proof fn lemma_dealt_in_range(seed: u64, i: nat)
    ensures
        1 <= dealt(seeded_state(seed), Seq::empty(), i) <= 7,
{
    let k = i / 7;
    if i % 7 == 6 {
        lemma_deals_come_in_bags(seed, k, (i - 1) as nat, i);
        lemma_bag_invariant(seeded_state(seed), i);
        assert(7 * (i / 7) <= (i - 1) as nat);
        let st = after_deals(seeded_state(seed), Seq::empty(), i);
        let s2 = next_state(st.0);
        lemma_pick_index_in_range(output_of(s2), st.1.len());
    } else {
        lemma_bag_invariant(seeded_state(seed), i + 1);
    }
}

/// Distinct piece numbers from 1 to 7 stand for distinct real pieces.
proof fn lemma_piece_of_number_injective(a: i32, b: i32)
    requires
        1 <= a <= 7,
        1 <= b <= 7,
    ensures
        piece_of_number(a) != PieceType::Empty,
        a != b ==> piece_of_number(a) != piece_of_number(b),
{
}

/// Every piece that a seed deals is a real piece, and the pieces of each bag
/// of seven (positions `7k` to `7k + 6`) are distinct.
pub proof fn lemma_piece_sequence_bags(seed: u64, count: nat)
    ensures
        forall|i: int| 0 <= i < count ==> #[trigger] piece_sequence(seed, count)[i] != PieceType::Empty,
        forall|i: int, j: int|
            0 <= i < j < count && i / 7 == j / 7 ==> #[trigger] piece_sequence(seed, count)[i]
                != #[trigger] piece_sequence(seed, count)[j],
{
    let s0 = seeded_state(seed);
    assert forall|i: int| 0 <= i < count implies #[trigger] piece_sequence(seed, count)[i] != PieceType::Empty by {
        lemma_dealt_in_range(seed, i as nat);
        lemma_piece_of_number_injective(dealt(s0, Seq::empty(), i as nat), dealt(s0, Seq::empty(), i as nat));
    }
    assert forall|i: int, j: int|
        0 <= i < j < count && i / 7 == j / 7 implies #[trigger] piece_sequence(seed, count)[i]
            != #[trigger] piece_sequence(seed, count)[j] by {
        let k = (i / 7) as nat;
        lemma_deals_come_in_bags(seed, k, i as nat, j as nat);
        lemma_dealt_in_range(seed, i as nat);
        lemma_dealt_in_range(seed, j as nat);
        lemma_piece_of_number_injective(dealt(s0, Seq::empty(), i as nat), dealt(s0, Seq::empty(), j as nat));
    }
}

/// Deals pieces from a seeded generator, seven at a time in shuffled bags.
pub struct ShuffleSequence {
    rng: XorShift64Star,
    bag: Vec<i32>,
    rev_seq: [i32; 7],
}

impl View for ShuffleSequence {
    type V = (u64, Seq<i32>);

    /// The generator state and the pieces left in the current bag.
    closed spec fn view(&self) -> (u64, Seq<i32>) {
        (self.rng@, self.bag@)
    }
}

impl ShuffleSequence {
    /// The sequence's fields agree with one another.
    pub closed spec fn wf(&self) -> bool {
        &&& self.rev_seq@ == full_bag()
        &&& bag_wf(self.bag@)
    }

    /// A sequence seeded with `seed`, with an empty bag.
    pub fn new(seed: u64) -> (s: Self)
        ensures
            s.wf(),
            s@ == (seeded_state(seed), Seq::<i32>::empty()),
    {
        let rev_seq: [i32; 7] = [7, 6, 5, 4, 3, 2, 1];
        assert(rev_seq@ =~= full_bag());
        ShuffleSequence { rng: XorShift64Star::new(seed), bag: Vec::new(), rev_seq }
    }

    fn refill_bag(&mut self)
        requires
            old(self).wf(),
        ensures
            final(self).wf(),
            final(self).bag@ == full_bag(),
            final(self).rng == old(self).rng,
    {
        self.bag.clear();
        self.bag.extend_from_slice(&self.rev_seq);
        assert(self.bag@ =~= full_bag());
    }

    /// Deals the next piece number; the result is never `None`.
    pub fn next(&mut self) -> (r: Option<i32>)
        requires
            old(self).wf(),
        ensures
            final(self).wf(),
            r == Some(deal(old(self)@.0, old(self)@.1).0),
            final(self)@ == (deal(old(self)@.0, old(self)@.1).1, deal(old(self)@.0, old(self)@.1).2),
    {
        if self.bag.len() == 0 {
            self.refill_bag();
        }
        let r = self.rng.next_u64();
        let len = self.bag.len();
        proof {
            lemma_pick_index_in_range(r, len as nat);
        }
        let idx = pick(r, len);
        let v = self.bag.remove(idx);
        proof {
            assert forall|i: int, j: int| 0 <= i < j < self.bag@.len() implies self.bag@[i] != self.bag@[j] by {
                let ob = old(self).bag@;
            }
        }
        Some(v)
    }
}

/// `pick_index` computed in integers.
fn pick(r: u64, len: usize) -> (idx: usize)
    requires
        1 <= len <= 7,
    ensures
        idx == pick_index(r, len as nat),
{
    let m = r / 4096;
    assert(m * len < 0x80_0000_0000_0000) by (nonlinear_arith)
        requires
            m == r / 4096,
            r <= u64::MAX,
            1 <= len <= 7,
    ;
    let p = m * (len as u64);
    let rounded = if p < 0x20_0000_0000_0000u64 {
        p
    } else if p < 0x40_0000_0000_0000u64 {
        round_even_exec(p, 2)
    } else {
        round_even_exec(p, 4)
    };
    proof {
        lemma_pick_index_in_range(r, len as nat);
    }
    (rounded / 0x10_0000_0000_0000u64) as usize
}

fn round_even_exec(p: u64, u: u64) -> (r: u64)
    requires
        u == 2 || u == 4,
        p < 0x80_0000_0000_0000,
    ensures
        r == round_half_even(p as int, u as int),
{
    let q = p / u;
    let rem = p % u;
    if 2 * rem > u || (2 * rem == u && q % 2 == 1) {
        (q + 1) * u
    } else {
        q * u
    }
}

/// The first `count` pieces that Techmino deals for a decimal seed.
pub fn generate_piece_sequence(seed: &str, count: usize) -> (seq: Vec<PieceType>)
    requires
        seed_of(seed@) is Some,
    ensures
        seq@ == piece_sequence(seed_of(seed@)->0 as u64, count as nat),
{
    let seed_val = match parse_seed(seed) {
        Some(v) => v as u64,
        None => 0,
    };
    let mut rng = ShuffleSequence::new(seed_val);
    let mut seq: Vec<PieceType> = Vec::with_capacity(count);
    let ghost s0 = seeded_state(seed_val);
    let mut k: usize = 0;
    while k < count
        invariant
            k <= count,
            rng.wf(),
            rng@ == after_deals(s0, Seq::empty(), k as nat),
            seq@.len() == k,
            forall|j: int| 0 <= j < k ==> seq@[j] == #[trigger] piece_of_number(dealt(s0, Seq::empty(), j as nat)),
        decreases count - k,
    {
        let idx = match rng.next() {
            Some(v) => v,
            None => 0,
        };
        let p = if idx == 1 {
            PieceType::Z
        } else if idx == 2 {
            PieceType::S
        } else if idx == 3 {
            PieceType::J
        } else if idx == 4 {
            PieceType::L
        } else if idx == 5 {
            PieceType::T
        } else if idx == 6 {
            PieceType::O
        } else if idx == 7 {
            PieceType::I
        } else {
            PieceType::Empty
        };
        seq.push(p);
        k = k + 1;
    }
    assert(seq@ =~= piece_sequence(seed_val, count as nat));
    seq
}

} // verus!
