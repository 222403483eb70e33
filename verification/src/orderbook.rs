//! Fixed-layout L2 order-book snapshot.
//!
//! A snapshot account stores, per market, one section per supported
//! significant-figure variant; each section holds a header and two sides
//! of thirty levels at fixed offsets.  Prices are quantized to the
//! configured number of significant figures by round-half-up;
//! significant-figure zero means no quantization.

use vstd::prelude::*;

use crate::error::ProgramError;

verus! {

/// Snapshot layout version.
pub const ORDERBOOK_SNAPSHOT_VERSION: u8 = 3;

/// Number of levels stored per side.
pub const ORDERBOOK_LEVELS_PER_SIDE: usize = 30;

/// Number of significant-figure variants stored.
pub const ORDERBOOK_SIGFIG_COUNT: usize = 5;

/// Size of the snapshot-wide header in bytes.
pub const ORDERBOOK_HEADER_SIZE: usize = 16;

/// Size of one significant-figure section header in bytes.
pub const ORDERBOOK_SIGFIG_HEADER_SIZE: usize = 24;

/// Size of one level record in bytes: price, size, and order count.
pub const ORDERBOOK_LEVEL_SIZE: usize = 18;

/// Size of one side's level array in bytes.
pub const ORDERBOOK_SIDE_SECTION_SIZE: usize = ORDERBOOK_LEVEL_SIZE * ORDERBOOK_LEVELS_PER_SIDE;

/// Size of one significant-figure section in bytes.
pub const ORDERBOOK_SIGFIG_SECTION_SIZE: usize = ORDERBOOK_SIGFIG_HEADER_SIZE
    + ORDERBOOK_SIDE_SECTION_SIZE * 2;

/// Total snapshot size in bytes.
pub const ORDERBOOK_SNAPSHOT_SIZE: usize = ORDERBOOK_HEADER_SIZE + ORDERBOOK_SIGFIG_SECTION_SIZE
    * ORDERBOOK_SIGFIG_COUNT;

/// The concrete values of the layout sizes.
proof fn lemma_layout_sizes()
    ensures
        ORDERBOOK_SIDE_SECTION_SIZE == 540,
        ORDERBOOK_SIGFIG_SECTION_SIZE == 1104,
        ORDERBOOK_SNAPSHOT_SIZE == 5536,
{
    assert(ORDERBOOK_LEVEL_SIZE == 18);
    assert(ORDERBOOK_LEVELS_PER_SIDE == 30);
    assert(ORDERBOOK_SIDE_SECTION_SIZE == 540);
    assert(ORDERBOOK_SIGFIG_HEADER_SIZE == 24);
    assert(ORDERBOOK_SIGFIG_SECTION_SIZE == 1104);
    assert(ORDERBOOK_HEADER_SIZE == 16);
    assert(ORDERBOOK_SIGFIG_COUNT == 5);
    assert(ORDERBOOK_SNAPSHOT_SIZE == 5536);
}

/// Which side of the book a section describes.
#[derive(Debug, Clone, Copy, PartialEq, Eq, Structural)]
pub enum OrderBookSide {
    Bid,
    Ask,
}

/// One aggregated price level.
#[derive(Debug, Clone, Copy, PartialEq, Eq, Structural)]
pub struct OrderBookLevel {
    pub price: i64,
    pub size: u64,
    pub order_count: u16,
}

/// The index of `sigfigs` among the stored variants `0, 2, 3, 4, 5`, or
/// `None` for an unsupported count.
pub open spec fn spec_sigfig_index(sigfigs: u8) -> Option<usize> {
    if sigfigs == 0 {
        Some(0usize)
    } else if sigfigs == 2 {
        Some(1usize)
    } else if sigfigs == 3 {
        Some(2usize)
    } else if sigfigs == 4 {
        Some(3usize)
    } else if sigfigs == 5 {
        Some(4usize)
    } else {
        None
    }
}

/// Map a significant-figure count to its section index.
pub fn sigfig_index(sigfigs: u8) -> (r: Option<usize>)
    ensures
        r == spec_sigfig_index(sigfigs),
{
    if sigfigs == 0 {
        Some(0)
    } else if sigfigs == 2 {
        Some(1)
    } else if sigfigs == 3 {
        Some(2)
    } else if sigfigs == 4 {
        Some(3)
    } else if sigfigs == 5 {
        Some(4)
    } else {
        None
    }
}

/// Map a significant-figure count to its section index, or fail with
/// `InvalidArgument` for an unsupported count.
pub fn assert_valid_sigfig(sigfigs: u8) -> (r: Result<usize, ProgramError>)
    ensures
        match r {
            Ok(i) => spec_sigfig_index(sigfigs) == Some(i),
            Err(e) => e == ProgramError::InvalidArgument && spec_sigfig_index(sigfigs) is None,
        },
{
    match sigfig_index(sigfigs) {
        Some(i) => Ok(i),
        None => Err(ProgramError::InvalidArgument),
    }
}

/// Byte offset of the section for variant `idx`.
pub fn sigfig_section_offset(idx: usize) -> (r: usize)
    requires
        idx < ORDERBOOK_SIGFIG_COUNT,
    ensures
        r == ORDERBOOK_HEADER_SIZE + idx * ORDERBOOK_SIGFIG_SECTION_SIZE,
{
    proof {
        lemma_layout_sizes();
    }
    ORDERBOOK_HEADER_SIZE + idx * ORDERBOOK_SIGFIG_SECTION_SIZE
}

/// Byte offset of the section header for variant `idx`.
pub fn sigfig_header_offset(idx: usize) -> (r: usize)
    requires
        idx < ORDERBOOK_SIGFIG_COUNT,
    ensures
        r == ORDERBOOK_HEADER_SIZE + idx * ORDERBOOK_SIGFIG_SECTION_SIZE,
{
    sigfig_section_offset(idx)
}

/// Byte offset of the bid side for variant `idx`.
pub fn bids_offset(idx: usize) -> (r: usize)
    requires
        idx < ORDERBOOK_SIGFIG_COUNT,
    ensures
        r == ORDERBOOK_HEADER_SIZE + idx * ORDERBOOK_SIGFIG_SECTION_SIZE
            + ORDERBOOK_SIGFIG_HEADER_SIZE,
{
    proof {
        lemma_layout_sizes();
    }
    sigfig_section_offset(idx) + ORDERBOOK_SIGFIG_HEADER_SIZE
}

/// Byte offset of the ask side for variant `idx`.
pub fn asks_offset(idx: usize) -> (r: usize)
    requires
        idx < ORDERBOOK_SIGFIG_COUNT,
    ensures
        r == ORDERBOOK_HEADER_SIZE + idx * ORDERBOOK_SIGFIG_SECTION_SIZE
            + ORDERBOOK_SIGFIG_HEADER_SIZE + ORDERBOOK_SIDE_SECTION_SIZE,
{
    proof {
        lemma_layout_sizes();
    }
    bids_offset(idx) + ORDERBOOK_SIDE_SECTION_SIZE
}

/// Byte offset of level `level` within a side starting at `base`.
pub fn level_offset(base: usize, level: usize) -> (r: usize)
    requires
        base <= ORDERBOOK_SNAPSHOT_SIZE,
        level < ORDERBOOK_LEVELS_PER_SIDE,
    ensures
        r == base + level * ORDERBOOK_LEVEL_SIZE,
{
    proof {
        lemma_layout_sizes();
        assert(ORDERBOOK_LEVEL_SIZE == 18);
        assert(ORDERBOOK_LEVELS_PER_SIDE == 30);
    }
    base + level * ORDERBOOK_LEVEL_SIZE
}

/// Powers of ten.
pub open spec fn spec_pow10(n: nat) -> int
    decreases n,
{
    if n == 0 {
        1
    } else {
        10 * spec_pow10((n - 1) as nat)
    }
}

/// How many factors of ten can be stripped from `v`, up to `cap`.
pub open spec fn spec_strip_count(v: int, cap: nat) -> nat
    decreases cap,
{
    if cap == 0 || v % 10 != 0 {
        0
    } else {
        1 + spec_strip_count(v / 10, (cap - 1) as nat)
    }
}

/// Number of decimal digits of a positive value; zero for nonpositive.
pub open spec fn spec_num_digits(v: int) -> nat
    decreases (if v > 0 {
        v
    } else {
        0
    }),
{
    if v <= 0 {
        0
    } else {
        1 + spec_num_digits(v / 10)
    }
}

/// The price scale keeps six decimal places; only that many trailing
/// zeros are stripped before counting significant digits.
pub const PRICE_SCALE_DECIMALS: u32 = 6;

/// The quantized price: strip up to six trailing zero digits, and when
/// more significant digits remain than requested, round half-up at the
/// excess digits.  A nonpositive price, a significant-figure count
/// outside the stored variant set, or `i64` overflow yields `None`;
/// a significant-figure count of zero means no quantization.
pub open spec fn spec_quantize(price: i64, sigfigs: u8) -> Option<i64> {
    if price <= 0 {
        None
    } else if spec_sigfig_index(sigfigs) is None {
        None
    } else if sigfigs == 0 {
        Some(price)
    } else {
        let sc = spec_strip_count(price as int, 6);
        let v = (price as int) / spec_pow10(sc);
        let digits = spec_num_digits(v);
        if digits <= sigfigs {
            Some(price)
        } else {
            let factor = spec_pow10((digits - sigfigs) as nat);
            let base = v / factor;
            let rem = v % factor;
            let rounded = if rem >= factor / 2 {
                base + 1
            } else {
                base
            };
            let result = rounded * factor * spec_pow10(sc);
            if result > i64::MAX {
                None
            } else {
                Some(result as i64)
            }
        }
    }
}

/// The nineteenth power of ten, written out.
proof fn lemma_pow10_19()
    ensures
        spec_pow10(19) == 10_000_000_000_000_000_000,
{
    assert(spec_pow10(0) == 1);
    assert(spec_pow10(1) == 10);
    assert(spec_pow10(2) == 100);
    assert(spec_pow10(3) == 1_000);
    assert(spec_pow10(4) == 10_000);
    assert(spec_pow10(5) == 100_000);
    assert(spec_pow10(6) == 1_000_000);
    assert(spec_pow10(7) == 10_000_000);
    assert(spec_pow10(8) == 100_000_000);
    assert(spec_pow10(9) == 1_000_000_000);
    assert(spec_pow10(10) == 10_000_000_000);
    assert(spec_pow10(11) == 100_000_000_000);
    assert(spec_pow10(12) == 1_000_000_000_000);
    assert(spec_pow10(13) == 10_000_000_000_000);
    assert(spec_pow10(14) == 100_000_000_000_000);
    assert(spec_pow10(15) == 1_000_000_000_000_000);
    assert(spec_pow10(16) == 10_000_000_000_000_000);
    assert(spec_pow10(17) == 100_000_000_000_000_000);
    assert(spec_pow10(18) == 1_000_000_000_000_000_000);
    assert(spec_pow10(19) == 10_000_000_000_000_000_000);
}

/// `spec_pow10` is positive and monotone in small steps.
proof fn lemma_pow10_pos(n: nat)
    ensures
        spec_pow10(n) >= 1,
    decreases n,
{
    if n > 0 {
        lemma_pow10_pos((n - 1) as nat);
    }
}

/// A positive value with `d` digits lies below `10^d`.
proof fn lemma_digits_bound(v: int)
    requires
        v >= 0,
    ensures
        v < spec_pow10(spec_num_digits(v)),
    decreases v,
{
    if v > 0 {
        lemma_digits_bound(v / 10);
        let d = spec_num_digits(v / 10);
        assert(v / 10 < spec_pow10(d));
        assert(v < 10 * spec_pow10(d)) by (nonlinear_arith)
            requires
                v / 10 < spec_pow10(d) && v >= 0 && v / 10 == v / 10,
        ;
    }
}

/// Quantize `price` to `sigfigs` significant figures by round-half-up.
pub fn quantize_price_to_sigfigs(price: i64, sigfigs: u8) -> (r: Option<i64>)
    ensures
        r == spec_quantize(price, sigfigs),
{
    if price <= 0 {
        return None;
    }
    match sigfig_index(sigfigs) {
        Some(_) => {},
        None => { return None },
    }
    if sigfigs == 0 {
        return Some(price);
    }
    let required = sigfigs;
    let mut value: i128 = price as i128;
    let mut removed_scale: u32 = 0;
    proof {
        lemma_pow10_pos(0);
    }
    while removed_scale < PRICE_SCALE_DECIMALS && value % 10 == 0
        invariant
            1 <= value <= price,
            0 <= removed_scale <= 6,
            spec_pow10(removed_scale as nat) >= 1,
            value == (price as int) / spec_pow10(removed_scale as nat),
            spec_strip_count(price as int, 6) == removed_scale + spec_strip_count(
                value as int,
                (6 - removed_scale) as nat,
            ),
            price > 0,
        decreases 6 - removed_scale,
    {
        proof {
            vstd::arithmetic::div_mod::lemma_div_denominator(
                price as int,
                spec_pow10(removed_scale as nat),
                10,
            );
            assert(spec_pow10((removed_scale + 1) as nat) == spec_pow10(removed_scale as nat) * 10)
                by (nonlinear_arith)
                requires
                    spec_pow10((removed_scale + 1) as nat) == 10 * spec_pow10(removed_scale as nat),
            ;
            vstd::arithmetic::div_mod::lemma_div_pos_is_pos(value as int, 10);
            assert(value / 10 >= 1) by {
                assert(value % 10 == 0);
                assert(value >= 1);
                if value / 10 == 0 {
                    assert(value == 10 * (value / 10) + value % 10) by {
                        vstd::arithmetic::div_mod::lemma_fundamental_div_mod(value as int, 10);
                    };
                }
            };
        }
        value = value / 10;
        removed_scale = removed_scale + 1;
    }
    let ghost sc = spec_strip_count(price as int, 6);
    proof {
        assert(spec_strip_count(value as int, (6 - removed_scale) as nat) == 0);
        assert(sc == removed_scale);
    }
    proof {
        lemma_pow10_19();
        lemma_num_digits_bound(value as int, 19);
    }
    let mut tmp: i128 = value;
    let mut digits: u32 = 0;
    while tmp > 0
        invariant
            0 <= tmp <= value,
            value <= i64::MAX,
            spec_num_digits(value as int) == digits + spec_num_digits(tmp as int),
            spec_num_digits(value as int) <= 19,
        decreases tmp,
    {
        proof {
            vstd::arithmetic::div_mod::lemma_div_nonincreasing(tmp as int, 10);
            vstd::arithmetic::div_mod::lemma_div_is_strictly_smaller(tmp as int, 10);
            vstd::arithmetic::div_mod::lemma_div_pos_is_pos(tmp as int, 10);
            lemma_num_digits_nonneg(tmp as int);
            lemma_num_digits_nonneg((tmp as int) / 10);
        }
        tmp = tmp / 10;
        digits = digits + 1;
    }
    proof {
        assert(spec_num_digits(value as int) == digits);
    }
    if digits <= required as u32 {
        return Some(price);
    }
    let power = digits - required as u32;
    let mut factor: i128 = 1;
    let mut e: u32 = 0;
    proof {
        lemma_digits_bound(value as int);
        lemma_pow10_monotone(power as nat, 19);
        lemma_pow10_19();
    }
    while e < power
        invariant
            0 <= e <= power,
            power <= digits <= 19,
            factor == spec_pow10(e as nat),
            spec_pow10(power as nat) <= 10_000_000_000_000_000_000,
        decreases power - e,
    {
        proof {
            lemma_pow10_monotone((e + 1) as nat, power as nat);
        }
        factor = factor * 10;
        e = e + 1;
    }
    proof {
        assert(1 <= factor <= 10_000_000_000_000_000_000);
    }
    let base = value / factor;
    let remainder = value % factor;
    let half = factor / 2;
    let mut rounded = base;
    if remainder >= half {
        proof {
            lemma_pow10_pos(power as nat);
            vstd::arithmetic::div_mod::lemma_div_nonincreasing(value as int, factor as int);
            vstd::arithmetic::div_mod::lemma_div_pos_is_pos(value as int, factor as int);
        }
        rounded = rounded + 1;
    }
    proof {
        lemma_pow10_pos(power as nat);
        vstd::arithmetic::div_mod::lemma_div_nonincreasing(value as int, factor as int);
        vstd::arithmetic::div_mod::lemma_div_pos_is_pos(value as int, factor as int);
        assert((value / factor) * factor <= value) by {
            vstd::arithmetic::div_mod::lemma_fundamental_div_mod(value as int, factor as int);
            vstd::arithmetic::div_mod::lemma_remainder_lower(value as int, factor as int);
        };
        assert(rounded * factor <= (value + factor)) by (nonlinear_arith)
            requires
                rounded <= value / factor + 1 && factor >= 1 && value >= 0 && value / factor
                    <= value && (value / factor) * factor <= value,
        ;
        assert(rounded * factor >= 0) by (nonlinear_arith)
            requires
                rounded >= 0 && factor >= 1,
        ;
    }
    let mut result: i128 = rounded * factor;
    proof {
        lemma_pow10_pos(removed_scale as nat);
        lemma_pow10_small(removed_scale as nat);
        assert(result * spec_pow10(removed_scale as nat) <= (value + factor) * spec_pow10(
            removed_scale as nat,
        )) by (nonlinear_arith)
            requires
                result <= value + factor && spec_pow10(removed_scale as nat) >= 1 && result >= 0,
        ;
        assert((value + factor) * spec_pow10(removed_scale as nat) < 0x8000_0000_0000_0000_0000_0000_0000_0000)
            by (nonlinear_arith)
            requires
                0 <= value <= i64::MAX && 1 <= factor <= 10_000_000_000_000_000_000 && 1
                    <= spec_pow10(removed_scale as nat) <= 1_000_000,
        ;
    }
    if removed_scale > 0 {
        let mut f2: i128 = 1;
        let mut e2: u32 = 0;
        while e2 < removed_scale
            invariant
                0 <= e2 <= removed_scale <= 6,
                f2 == spec_pow10(e2 as nat),
                1 <= f2 <= 1_000_000,
            decreases removed_scale - e2,
        {
            proof {
                lemma_pow10_small((e2 + 1) as nat);
            }
            f2 = f2 * 10;
            e2 = e2 + 1;
        }
        proof {
            assert(result * f2 < 0x8000_0000_0000_0000_0000_0000_0000_0000) by (nonlinear_arith)
                requires
                    0 <= result && result * spec_pow10(removed_scale as nat)
                        < 0x8000_0000_0000_0000_0000_0000_0000_0000 && f2 == spec_pow10(
                        removed_scale as nat,
                    ) && f2 >= 1,
            ;
        }
        result = result * f2;
    }
    if result < i64::MIN as i128 || result > i64::MAX as i128 {
        return None;
    }
    Some(result as i64)
}

/// Powers of ten are positive and monotone.
proof fn lemma_pow10_monotone(a: nat, b: nat)
    requires
        a <= b,
    ensures
        1 <= spec_pow10(a) <= spec_pow10(b),
    decreases b,
{
    lemma_pow10_pos(a);
    if a < b {
        lemma_pow10_monotone(a, (b - 1) as nat);
        lemma_pow10_pos((b - 1) as nat);
        assert(spec_pow10(b) == 10 * spec_pow10((b - 1) as nat));
    }
}

/// The digit count is nonnegative and zero only at zero.
proof fn lemma_num_digits_nonneg(v: int)
    ensures
        spec_num_digits(v) >= 0,
        v > 0 ==> spec_num_digits(v) >= 1,
{
}

/// A value below `10^d` has at most `d` digits.
proof fn lemma_num_digits_bound(v: int, d: nat)
    requires
        0 <= v < spec_pow10(d),
    ensures
        spec_num_digits(v) <= d,
    decreases d,
{
    if v > 0 {
        if d == 0 {
            assert(spec_pow10(0) == 1);
        } else {
            assert(spec_pow10(d) == 10 * spec_pow10((d - 1) as nat));
            assert(v / 10 < spec_pow10((d - 1) as nat)) by (nonlinear_arith)
                requires
                    v < 10 * spec_pow10((d - 1) as nat) && v >= 0 && spec_pow10((d - 1) as nat)
                        >= 0,
            ;
            lemma_num_digits_bound(v / 10, (d - 1) as nat);
        }
    }
}

/// Powers of ten up to the price scale stay small.
proof fn lemma_pow10_small(n: nat)
    requires
        n <= 6,
    ensures
        1 <= spec_pow10(n) <= 1_000_000,
{
    lemma_pow10_monotone(n, 6);
    assert(spec_pow10(0) == 1);
    assert(spec_pow10(1) == 10);
    assert(spec_pow10(2) == 100);
    assert(spec_pow10(3) == 1_000);
    assert(spec_pow10(4) == 10_000);
    assert(spec_pow10(5) == 100_000);
    assert(spec_pow10(6) == 1_000_000);
}

/// Zero the side section starting at `base_offset`.
pub fn zero_fill_side(data: &mut Vec<u8>, base_offset: usize)
    requires
        base_offset + ORDERBOOK_SIDE_SECTION_SIZE <= old(data)@.len(),
    ensures
        final(data)@.len() == old(data)@.len(),
        forall|i: int|
            base_offset <= i < base_offset + ORDERBOOK_SIDE_SECTION_SIZE ==> final(data)@[i] == 0,
        forall|i: int|
            0 <= i < old(data)@.len() && !(base_offset <= i < base_offset
                + ORDERBOOK_SIDE_SECTION_SIZE) ==> final(data)@[i] == old(data)@[i],
{
    proof {
        lemma_layout_sizes();
    }
    let total = data.len();
    proof {
        assert(base_offset + ORDERBOOK_SIDE_SECTION_SIZE <= total);
    }
    zero_fill_range(data, base_offset, base_offset + ORDERBOOK_SIDE_SECTION_SIZE)
}

/// Zero the whole section of variant `idx`.
pub fn zero_fill_sigfig(data: &mut Vec<u8>, idx: usize)
    requires
        idx < ORDERBOOK_SIGFIG_COUNT,
        ORDERBOOK_SNAPSHOT_SIZE <= old(data)@.len(),
    ensures
        final(data)@.len() == old(data)@.len(),
        ({
            let start = ORDERBOOK_HEADER_SIZE + idx * ORDERBOOK_SIGFIG_SECTION_SIZE;
            &&& forall|i: int|
                start <= i < start + ORDERBOOK_SIGFIG_SECTION_SIZE ==> final(data)@[i] == 0
            &&& forall|i: int|
                0 <= i < old(data)@.len() && !(start <= i < start + ORDERBOOK_SIGFIG_SECTION_SIZE)
                    ==> final(data)@[i] == old(data)@[i]
        }),
{
    proof {
        lemma_layout_sizes();
    }
    let total = data.len();
    let start = sigfig_header_offset(idx);
    proof {
        assert(start + ORDERBOOK_SIGFIG_SECTION_SIZE <= total);
    }
    zero_fill_range(data, start, start + ORDERBOOK_SIGFIG_SECTION_SIZE)
}

/// Zero the bytes of `data` in `start..end`.
fn zero_fill_range(data: &mut Vec<u8>, start: usize, end: usize)
    requires
        start <= end <= old(data)@.len(),
    ensures
        final(data)@.len() == old(data)@.len(),
        forall|i: int| start <= i < end ==> final(data)@[i] == 0,
        forall|i: int|
            0 <= i < old(data)@.len() && !(start <= i < end) ==> final(data)@[i] == old(data)@[i],
{
    let mut i = start;
    while i < end
        invariant
            start <= i <= end <= data@.len(),
            data@.len() == old(data)@.len(),
            forall|j: int| start <= j < i ==> data@[j] == 0,
            forall|j: int| 0 <= j < data@.len() && !(start <= j < i) ==> data@[j] == old(data)@[j],
        decreases end - i,
    {
        *vstd::std_specs::vec::vec_index_mut(data, i) = 0;
        i = i + 1;
    }
}

} // verus!
