//! Integer sample arithmetic. A sample is an `i32`; a gain is a fixed-point
//! amplitude in which `UNITY_GAIN` leaves a sample as it is.
use vstd::prelude::*;

verus! {

/// The gain that leaves a sample unchanged.
pub const UNITY_GAIN: u32 = 65536;

/// `x` held within the range of a sample.
pub open spec fn clamp_sample(x: int) -> int {
    if x > i32::MAX {
        i32::MAX as int
    } else if x < i32::MIN {
        i32::MIN as int
    } else {
        x
    }
}

/// `s` scaled by `gain / UNITY_GAIN`, rounded towards zero and held within
/// the range of a sample.
pub open spec fn scaled(s: int, gain: nat) -> int {
    if s >= 0 {
        clamp_sample(s * gain / UNITY_GAIN as int)
    } else {
        clamp_sample(-((-s) * gain / UNITY_GAIN as int))
    }
}

/// `s` scaled by the gain `num / den` (in units of `UNITY_GAIN`), rounded
/// towards zero once, and held within the range of a sample.
pub open spec fn scaled_frac(s: int, num: nat, den: nat) -> int {
    if s >= 0 {
        clamp_sample(s * num / (den * UNITY_GAIN as int))
    } else {
        clamp_sample(-((-s) * num / (den * UNITY_GAIN as int)))
    }
}

/// Scales a sample by the gain `num / den`, in units of `UNITY_GAIN`.
pub fn scale_frac(s: i32, num: u128, den: u128) -> (r: i32)
    requires
        0 < den < 0x1_0000_0000_0000_0000u128,
        num <= den * 0x1_0000_0000u128,
    ensures
        r as int == scaled_frac(s as int, num as nat, den as nat),
{
    let m: u128 = if s >= 0 { s as u128 } else { (-(s as i64)) as u128 };
    assert(m * num <= 0x8000_0000u128 * (0x1_0000_0000_0000_0000u128 * 0x1_0000_0000u128)) by (nonlinear_arith)
        requires m <= 0x8000_0000u128, num <= den * 0x1_0000_0000u128, den < 0x1_0000_0000_0000_0000u128;
    assert(den * 65536 <= 0x1_0000_0000_0000_0000u128 * 65536) by (nonlinear_arith)
        requires den < 0x1_0000_0000_0000_0000u128;
    let q: u128 = m * num / (den * (UNITY_GAIN as u128));
    if s >= 0 {
        if q > i32::MAX as u128 { i32::MAX } else { q as i32 }
    } else {
        if q > 0x8000_0000u128 { i32::MIN } else { (-(q as i64)) as i32 }
    }
}

/// The sum of two samples, held within the range of a sample.
pub open spec fn mixed(a: int, b: int) -> int {
    clamp_sample(a + b)
}

/// Scales a sample by a gain.
pub fn scale(s: i32, gain: u32) -> (r: i32)
    ensures
        r as int == scaled(s as int, gain as nat),
{
    let m: u64 = if s >= 0 { s as u64 } else { (-(s as i64)) as u64 };
    assert(m * gain <= 0x8000_0000u64 * 0xffff_ffffu64) by (nonlinear_arith)
        requires m <= 0x8000_0000u64, gain <= 0xffff_ffffu64;
    let q: u64 = m * (gain as u64) / (UNITY_GAIN as u64);
    if s >= 0 {
        if q > i32::MAX as u64 { i32::MAX } else { q as i32 }
    } else {
        if q > 0x8000_0000u64 { i32::MIN } else { (-(q as i64)) as i32 }
    }
}

/// Adds two samples, saturating at the range of a sample.
pub fn mix(a: i32, b: i32) -> (r: i32)
    ensures
        r as int == mixed(a as int, b as int),
{
    let x = a as i64 + b as i64;
    if x > i32::MAX as i64 {
        i32::MAX
    } else if x < i32::MIN as i64 {
        i32::MIN
    } else {
        x as i32
    }
}

/// Scales every sample of `block` by `gain`.
pub fn scale_block(block: &mut Vec<i32>, gain: u32)
    ensures
        final(block)@.len() == old(block)@.len(),
        forall|i: int| 0 <= i < old(block)@.len()
            ==> final(block)@[i] as int == scaled(old(block)@[i] as int, gain as nat),
{
    let n = block.len();
    let mut i: usize = 0;
    while i < n
        invariant
            n == old(block)@.len(),
            block@.len() == n,
            i <= n,
            forall|j: int| 0 <= j < i ==> block@[j] as int == scaled(old(block)@[j] as int, gain as nat),
            forall|j: int| i <= j < n ==> block@[j] == old(block)@[j],
        decreases n - i,
    {
        let v = scale(block[i], gain);
        block.set(i, v);
        i = i + 1;
    }
}

/// Adds `source`, scaled by `gain`, into `target`, sample by sample.
pub fn send_into(target: &mut Vec<i32>, source: &Vec<i32>, gain: u32)
    requires
        old(target)@.len() == source@.len(),
    ensures
        final(target)@.len() == old(target)@.len(),
        forall|i: int| 0 <= i < source@.len()
            ==> final(target)@[i] as int == mixed(old(target)@[i] as int, scaled(source@[i] as int, gain as nat)),
{
    let n = source.len();
    let mut i: usize = 0;
    while i < n
        invariant
            n == source@.len(),
            target@.len() == n,
            i <= n,
            forall|j: int| 0 <= j < i
                ==> target@[j] as int == mixed(old(target)@[j] as int, scaled(source@[j] as int, gain as nat)),
            forall|j: int| i <= j < n ==> target@[j] == old(target)@[j],
        decreases n - i,
    {
        let v = mix(target[i], scale(source[i], gain));
        target.set(i, v);
        i = i + 1;
    }
}

} // verus!
