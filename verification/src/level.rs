//! Levels of signed 16-bit little-endian PCM: samples, peaks, root mean squares, percentiles.

use vstd::prelude::*;
use vstd::relations::*;
use vstd::seq_lib::*;

verus! {

/// The whole samples in `bytes` bytes.
pub open spec fn sample_count(bytes: nat) -> nat {
    bytes / 2
}

/// Sample `i`: two bytes, the low one first, in two's complement.
pub open spec fn sample(pcm: Seq<u8>, i: int) -> int {
    let raw = pcm[2 * i] as int + 256 * pcm[2 * i + 1] as int;
    if raw >= 32_768 {
        raw - 65_536
    } else {
        raw
    }
}

/// How far sample `i` is from zero.
pub open spec fn magnitude(pcm: Seq<u8>, i: int) -> nat {
    let value = sample(pcm, i);
    if value < 0 {
        (-value) as nat
    } else {
        value as nat
    }
}

pub open spec fn max_nat(a: nat, b: nat) -> nat {
    if a >= b {
        a
    } else {
        b
    }
}

pub open spec fn min_nat(a: nat, b: nat) -> nat {
    if a <= b {
        a
    } else {
        b
    }
}

/// The largest magnitude among the first `n` samples.
pub open spec fn peak_of(pcm: Seq<u8>, n: nat) -> nat
    decreases n,
{
    if n == 0 {
        0
    } else {
        max_nat(peak_of(pcm, (n - 1) as nat), magnitude(pcm, n - 1))
    }
}

/// The sum of the squares of the first `n` samples.
pub open spec fn energy(pcm: Seq<u8>, n: nat) -> nat
    decreases n,
{
    if n == 0 {
        0
    } else {
        energy(pcm, (n - 1) as nat) + magnitude(pcm, n - 1) * magnitude(pcm, n - 1)
    }
}

/// `root` is the whole part of the square root of `value`.
pub open spec fn is_root(value: nat, root: nat) -> bool {
    root * root <= value && value < (root + 1) * (root + 1)
}

/// The whole part of the square root of `value`.
pub open spec fn root_of(value: nat) -> nat {
    choose|root: nat| is_root(value, root)
}

proof fn lemma_root_unique(value: nat, a: nat, b: nat)
    requires
        is_root(value, a),
        is_root(value, b),
    ensures
        a == b,
{
    if a < b {
        assert((a + 1) * (a + 1) <= b * b) by (nonlinear_arith)
            requires
                a + 1 <= b,
        ;
    } else if b < a {
        assert((b + 1) * (b + 1) <= a * a) by (nonlinear_arith)
            requires
                b + 1 <= a,
        ;
    }
}

/// The whole part of half the sum of two numbers.
fn midpoint(a: u64, b: u64) -> (r: u64)
    ensures
        r == (a + b) / 2,
{
    a / 2 + b / 2 + (a % 2 + b % 2) / 2
}

proof fn lemma_newton_step(value: int, estimate: int, quotient: int, next: int)
    requires
        estimate > 0,
        quotient == value / estimate,
        value >= 0,
        next == (estimate + quotient) / 2,
    ensures
        value < (next + 1) * (next + 1),
        next >= estimate ==> estimate * estimate <= value,
{
    assert(value == estimate * quotient + value % estimate) by (nonlinear_arith)
        requires
            estimate > 0,
            quotient == value / estimate,
    ;
    assert(0 <= value % estimate < estimate) by (nonlinear_arith)
        requires
            estimate > 0,
    ;
    let b = quotient + 1;
    assert(value < estimate * b) by (nonlinear_arith)
        requires
            value < estimate * quotient + estimate,
            b == quotient + 1,
    ;
    assert(4 * (estimate * b) <= (estimate + b) * (estimate + b)) by {
        assert((estimate - b) * (estimate - b) >= 0) by (nonlinear_arith);
        assert((estimate + b) * (estimate + b) == 4 * (estimate * b) + (estimate - b) * (estimate
            - b)) by (nonlinear_arith);
    }
    assert((estimate + b) * (estimate + b) <= (2 * (next + 1)) * (2 * (next + 1)))
        by (nonlinear_arith)
        requires
            0 <= estimate + b <= 2 * (next + 1),
    ;
    assert((2 * (next + 1)) * (2 * (next + 1)) == 4 * ((next + 1) * (next + 1)))
        by (nonlinear_arith);
    if next >= estimate {
        assert(quotient >= estimate);
        assert(estimate * estimate <= estimate * quotient) by (nonlinear_arith)
            requires
                quotient >= estimate,
                estimate > 0,
        ;
    }
}

/// The whole part of the square root of `value`.
pub fn integer_sqrt(value: u64) -> (root: u64)
    ensures
        is_root(value as nat, root as nat),
        root == root_of(value as nat),
{
    if value < 2 {
        proof {
            assert(is_root(value as nat, value as nat)) by (nonlinear_arith)
                requires
                    value < 2,
            ;
            lemma_root_unique(value as nat, value as nat, root_of(value as nat));
        }
        return value;
    }
    let mut estimate: u64 = value;
    let mut next: u64 = midpoint(estimate, value / estimate);
    proof {
        assert(value < (value + 1) * (value + 1)) by (nonlinear_arith)
            requires
                value >= 2,
        ;
        lemma_newton_step(
            value as int,
            estimate as int,
            (value / estimate) as int,
            next as int,
        );
    }
    while next < estimate
        invariant
            value >= 2,
            estimate >= 1,
            value < (estimate + 1) * (estimate + 1),
            next == (estimate + value / estimate) / 2,
            value < (next + 1) * (next + 1),
            next >= estimate ==> estimate * estimate <= value,
        decreases estimate,
    {
        proof {
            if next == 0 {
                assert(estimate <= 1);
                assert(value / 1 == value);
                assert(false);
            }
        }
        estimate = next;
        next = midpoint(estimate, value / estimate);
        proof {
            lemma_newton_step(
                value as int,
                estimate as int,
                (value / estimate) as int,
                next as int,
            );
        }
    }
    proof {
        lemma_root_unique(value as nat, estimate as nat, root_of(value as nat));
    }
    estimate
}

/// The magnitude of the sample in the bytes `low` and `high`.
fn magnitude_of(low: u8, high: u8) -> (r: u16)
    ensures
        r <= 32_768,
        forall|pcm: Seq<u8>, i: int|
            pcm[2 * i] == low && pcm[2 * i + 1] == high ==> #[trigger] magnitude(pcm, i) == r,
{
    let raw: u32 = low as u32 + 256 * high as u32;
    if raw >= 32_768 {
        (65_536 - raw) as u16
    } else {
        raw as u16
    }
}

/// The root mean square of the whole samples of a frame, 0 where there is none.
pub open spec fn rms_of(frame: Seq<u8>) -> nat {
    let n = sample_count(frame.len());
    if n == 0 {
        0
    } else {
        let root = root_of(min_nat(energy(frame, n), u64::MAX as nat) / n);
        if root <= u16::MAX {
            root
        } else {
            0
        }
    }
}

/// A running level of the samples that were seen so far.
pub struct FrameSum {
    pub energy: u64,
    pub samples: u64,
    pub peak: u16,
    pub clipped: u64,
}

/// The samples among the first `n` whose magnitude is at least `limit`.
pub open spec fn clipped_of(pcm: Seq<u8>, n: nat, limit: nat) -> nat
    decreases n,
{
    if n == 0 {
        0
    } else {
        clipped_of(pcm, (n - 1) as nat, limit) + (if magnitude(pcm, n - 1) >= limit {
            1nat
        } else {
            0nat
        })
    }
}

pub proof fn lemma_clipped_bound(pcm: Seq<u8>, n: nat, limit: nat)
    ensures
        clipped_of(pcm, n, limit) <= n,
    decreases n,
{
    if n > 0 {
        lemma_clipped_bound(pcm, (n - 1) as nat, limit);
    }
}

/// Sums up the samples of a frame and counts those of magnitude `limit` or more.
pub fn sum_frame(frame: &[u8], limit: u16) -> (sum: FrameSum)
    ensures
        sum.samples == sample_count(frame@.len()),
        sum.energy == min_nat(energy(frame@, sample_count(frame@.len())), u64::MAX as nat),
        sum.peak == peak_of(frame@, sample_count(frame@.len())),
        sum.clipped == clipped_of(frame@, sample_count(frame@.len()), limit as nat),
{
    let mut total: u64 = 0;
    let mut peak: u16 = 0;
    let mut clipped: u64 = 0;
    let count: usize = frame.len() / 2;
    for i in 0..count
        invariant
            count == frame@.len() / 2,
            frame@.len() <= usize::MAX,
            total == min_nat(energy(frame@, i as nat), u64::MAX as nat),
            peak == peak_of(frame@, i as nat),
            clipped == clipped_of(frame@, i as nat, limit as nat),
            clipped <= i,
    {
        let value: u16 = magnitude_of(frame[2 * i], frame[2 * i + 1]);
        assert(magnitude(frame@, i as int) == value);
        if value > peak {
            peak = value;
        }
        if value >= limit {
            clipped = clipped + 1;
        }
        let wide: u64 = value as u64;
        assert(0 <= wide * wide <= 32_768 * 32_768) by (nonlinear_arith)
            requires
                0 <= wide <= 32_768,
        ;
        total = total.saturating_add(wide * wide);
    }
    FrameSum { energy: total, samples: count as u64, peak, clipped }
}

/// The root mean square and the peak of a frame; an odd byte at its end is left out.
pub fn frame_level(frame: &[u8]) -> (r: (u16, u16))
    ensures
        r.0 == rms_of(frame@),
        r.1 == peak_of(frame@, sample_count(frame@.len())),
{
    let sum = sum_frame(frame, u16::MAX);
    (root_mean_square(sum.energy, sum.samples), sum.peak)
}

/// The root of `energy` over `samples`, or 0 where there are no samples or it has no 16 bits.
pub fn root_mean_square(energy: u64, samples: u64) -> (r: u16)
    ensures
        samples == 0 ==> r == 0,
        samples > 0 ==> r == (if root_of((energy / samples) as nat) <= u16::MAX {
            root_of((energy / samples) as nat)
        } else {
            0
        }),
{
    if samples == 0 {
        0
    } else {
        let root: u64 = integer_sqrt(energy / samples);
        if root <= 65_535 {
            root as u16
        } else {
            0
        }
    }
}

/// The order of levels from the lowest up.
pub open spec fn level_order() -> spec_fn(u16, u16) -> bool {
    |a: u16, b: u16| a <= b
}

/// `levels` from the lowest up.
pub open spec fn sorted_levels(levels: Seq<u16>) -> Seq<u16> {
    levels.sort_by(level_order())
}

/// Sorts levels from the lowest up.
pub fn sort_levels(levels: &[u16]) -> (sorted: Vec<u16>)
    ensures
        sorted@ == sorted_levels(levels@),
        sorted@.len() == levels@.len(),
{
    let mut sorted: Vec<u16> = Vec::new();
    let ghost order = level_order();
    assert(sorted@ =~= levels@.take(0));
    for i in 0..levels.len()
        invariant
            order == level_order(),
            sorted@.len() == i,
            sorted@.to_multiset() == levels@.take(i as int).to_multiset(),
            sorted_by(sorted@, order),
    {
        let level: u16 = levels[i];
        let mut at: usize = sorted.len();
        while at > 0 && sorted[at - 1] > level
            invariant
                at <= sorted@.len(),
                forall|j: int| at <= j < sorted@.len() ==> sorted@[j] > level,
            decreases at,
        {
            at = at - 1;
        }
        let ghost before = sorted@;
        sorted.insert(at, level);
        proof {
            to_multiset_insert(before, at as int, level);
            to_multiset_build(levels@.take(i as int), level);
            assert(levels@.take(i + 1) =~= levels@.take(i as int).push(level));
            assert(sorted@ == before.insert(at as int, level));
            assert forall|a: int, b: int| 0 <= a < b < sorted@.len() implies #[trigger] order(
                sorted@[a],
                sorted@[b],
            ) by {
                let p = if a < at {
                    a
                } else {
                    a - 1
                };
                let q = if b < at {
                    b
                } else {
                    b - 1
                };
                if a != at && b != at {
                    assert(order(before[p], before[q]));
                } else if b == at && a < at - 1 {
                    assert(order(before[a], before[at - 1]));
                }
            }
        }
    }
    proof {
        assert(levels@.take(levels@.len() as int) =~= levels@);
        levels@.lemma_sort_by_ensures(order);
        lemma_sorted_unique(sorted@, sorted_levels(levels@), order);
    }
    sorted
}

/// Where the value at `percent` percent stands among `n` sorted ones.
pub open spec fn percentile_index(n: nat, percent: nat) -> nat {
    if n == 0 {
        0
    } else {
        min_nat(((n - 1) * percent) as nat, usize::MAX as nat) / 100
    }
}

/// The level below which `percent` percent of `levels` lie.
pub open spec fn percentile_of(levels: Seq<u16>, percent: nat) -> u16 {
    sorted_levels(levels)[percentile_index(levels.len(), percent) as int]
}

/// The level below which `percent` percent of `levels` lie.
pub fn percentile(levels: &[u16], percent: usize) -> (r: u16)
    requires
        levels@.len() > 0,
        percent <= 100,
    ensures
        r == percentile_of(levels@, percent as nat),
{
    let sorted = sort_levels(levels);
    let last: usize = sorted.len() - 1;
    let scaled: usize = match last.checked_mul(percent) {
        Some(product) => product,
        None => usize::MAX,
    };
    proof {
        assert(last * percent <= last * 100) by (nonlinear_arith)
            requires
                percent <= 100,
                last >= 0,
        ;
        assert(scaled / 100 <= last);
    }
    sorted[scaled / 100]
}

/// The peak is the largest magnitude of the samples: none is above it, and one has it.
pub proof fn law_peak_is_the_largest(pcm: Seq<u8>, n: nat)
    ensures
        forall|i: int| 0 <= i < n ==> #[trigger] magnitude(pcm, i) <= peak_of(pcm, n),
        n > 0 ==> exists|i: int| 0 <= i < n && #[trigger] magnitude(pcm, i) == peak_of(pcm, n),
        n == 0 ==> peak_of(pcm, n) == 0,
    decreases n,
{
    if n > 0 {
        law_peak_is_the_largest(pcm, (n - 1) as nat);
        assert(magnitude(pcm, n - 1) <= peak_of(pcm, n));
        if n > 1 && peak_of(pcm, n) == peak_of(pcm, (n - 1) as nat) {
            let i = choose|i: int|
                0 <= i < n - 1 && #[trigger] magnitude(pcm, i) == peak_of(pcm, (n - 1) as nat);
            assert(magnitude(pcm, i) == peak_of(pcm, n));
        } else {
            assert(magnitude(pcm, n - 1) == peak_of(pcm, n));
        }
    }
}

/// A sample is its two bytes in two's complement, the low one first, and its magnitude is its
/// distance from zero.
pub proof fn law_samples_are_signed(pcm: Seq<u8>, i: int)
    ensures
        pcm[2 * i + 1] < 128 ==> sample(pcm, i) == pcm[2 * i + 1] * 256 + pcm[2 * i],
        pcm[2 * i + 1] >= 128 ==> sample(pcm, i) == (pcm[2 * i + 1] - 256) * 256 + pcm[2 * i],
        sample(pcm, i) >= 0 ==> magnitude(pcm, i) == sample(pcm, i),
        sample(pcm, i) < 0 ==> magnitude(pcm, i) == -sample(pcm, i),
        magnitude(pcm, i) <= 32_768,
{
}

proof fn lemma_energy_between(pcm: Seq<u8>, n: nat, low: nat, high: nat)
    requires
        forall|i: int| 0 <= i < n ==> low <= #[trigger] magnitude(pcm, i) <= high,
    ensures
        n * (low * low) <= energy(pcm, n) <= n * (high * high),
    decreases n,
{
    if n > 0 {
        lemma_energy_between(pcm, (n - 1) as nat, low, high);
        let m = magnitude(pcm, n - 1);
        assert(low * low <= m * m <= high * high) by (nonlinear_arith)
            requires
                low <= m <= high,
        ;
        assert((n - 1) * (low * low) + low * low == n * (low * low)) by (nonlinear_arith);
        assert((n - 1) * (high * high) + high * high == n * (high * high)) by (nonlinear_arith);
    } else {
        assert(0 * (low * low) == 0 && 0 * (high * high) == 0);
    }
}

proof fn lemma_root_exists(value: nat) -> (root: nat)
    ensures
        is_root(value, root),
    decreases value,
{
    if value == 0 {
        assert(0nat * 0nat == 0 && (0nat + 1) * (0nat + 1) == 1) by (nonlinear_arith);
        0
    } else {
        let before = lemma_root_exists((value - 1) as nat);
        if value < (before + 1) * (before + 1) {
            before
        } else {
            let next = before + 1;
            assert(next * next <= value);
            assert(value < (next + 1) * (next + 1)) by (nonlinear_arith)
                requires
                    value - 1 < (before + 1) * (before + 1),
                    next == before + 1,
            ;
            next
        }
    }
}

/// The root mean square of a frame lies between the smallest and the largest magnitude of its
/// samples; so a frame of one magnitude has that level. Its square is the mean of the squares,
/// rounded down.
pub proof fn law_level_lies_among_the_samples(frame: Seq<u8>, low: nat, high: nat)
    requires
        2 <= frame.len() <= 0x2_0000_0000,
        forall|i: int|
            0 <= i < frame.len() / 2 ==> low <= #[trigger] magnitude(frame, i) <= high,
        high <= 32_768,
    ensures
        low <= rms_of(frame) <= high,
        rms_of(frame) * rms_of(frame) * (frame.len() / 2) <= energy(frame, frame.len() / 2),
        energy(frame, frame.len() / 2) < (rms_of(frame) + 1) * (rms_of(frame) + 1) * (frame.len()
            / 2),
{
    let n = frame.len() / 2;
    lemma_energy_between(frame, n, low, high);
    let e = energy(frame, n);
    assert(high * high <= 32_768 * 32_768) by (nonlinear_arith)
        requires
            0 <= high <= 32_768,
    ;
    assert(n * (high * high) <= 0x1_0000_0000 * (32_768 * 32_768)) by (nonlinear_arith)
        requires
            0 <= n <= 0x1_0000_0000,
            0 <= high * high <= 32_768 * 32_768,
    ;
    assert(e <= u64::MAX);
    let mean = e / n;
    assert(low * low <= mean) by (nonlinear_arith)
        requires
            n > 0,
            n * (low * low) <= e,
            mean == e / n,
    ;
    assert(mean <= high * high) by (nonlinear_arith)
        requires
            n > 0,
            e <= n * (high * high),
            mean == e / n,
    ;
    let some = lemma_root_exists(mean);
    let root = root_of(mean);
    assert(is_root(mean, root));
    if root > high {
        assert((high + 1) * (high + 1) <= root * root) by (nonlinear_arith)
            requires
                high + 1 <= root,
        ;
        assert(high * high < (high + 1) * (high + 1)) by (nonlinear_arith)
            requires
                high >= 0,
        ;
    }
    if root < low {
        assert((root + 1) * (root + 1) <= low * low) by (nonlinear_arith)
            requires
                root + 1 <= low,
        ;
    }
    assert(rms_of(frame) == root);
    assert(root * root * n <= e) by (nonlinear_arith)
        requires
            root * root <= mean,
            mean == e / n,
            n > 0,
    ;
    assert(e < (root + 1) * (root + 1) * n) by (nonlinear_arith)
        requires
            mean + 1 <= (root + 1) * (root + 1),
            mean == e / n,
            n > 0,
    ;
}

/// Energies add up, and that of one sample is the square of its magnitude.
pub proof fn law_energy_adds_up(pcm: Seq<u8>, n: nat)
    ensures
        energy(pcm, 0) == 0,
        energy(pcm, n + 1) == energy(pcm, n) + magnitude(pcm, n as int) * magnitude(
            pcm,
            n as int,
        ),
{
}

/// The samples that count as clipped are those that reach the limit.
pub proof fn law_clipped_samples_reach_the_limit(pcm: Seq<u8>, n: nat, limit: nat)
    ensures
        clipped_of(pcm, n + 1, limit) - clipped_of(pcm, n, limit) == (if magnitude(pcm, n as int)
            >= limit {
            1int
        } else {
            0
        }),
        clipped_of(pcm, 0, limit) == 0,
        clipped_of(pcm, n, limit) == 0 <==> peak_of(pcm, n) < limit || n == 0,
        clipped_of(pcm, n, limit) <= n,
    decreases n,
{
    lemma_clipped_bound(pcm, n, limit);
    if n > 0 {
        law_clipped_samples_reach_the_limit(pcm, (n - 1) as nat, limit);
    }
}

/// A percentile is one of the levels: with the levels from the lowest up, it is the one that stands
/// `percent` percent of the way from the first to the last.
pub proof fn law_percentile_is_a_level(levels: Seq<u16>, percent: nat)
    requires
        0 < levels.len() <= 0x100_0000,
        percent <= 100,
    ensures
        levels.contains(percentile_of(levels, percent)),
        ({
            let sorted = sorted_levels(levels);
            &&& sorted.len() == levels.len()
            &&& sorted.to_multiset() == levels.to_multiset()
            &&& forall|i: int, j: int|
                0 <= i <= j < sorted.len() ==> #[trigger] sorted[i] <= #[trigger] sorted[j]
            &&& percentile_of(levels, percent) == sorted[(levels.len() - 1) * percent / 100]
        }),
        forall|i: int|
            0 <= i < levels.len() ==> percentile_of(levels, 0) <= #[trigger] levels[i]
                <= percentile_of(levels, 100),
{
    let order = level_order();
    levels.lemma_sort_by_ensures(order);
    let sorted = sorted_levels(levels);
    to_multiset_len(levels);
    to_multiset_len(sorted);
    assert(sorted.len() == levels.len());
    assert forall|i: int, j: int| 0 <= i <= j < sorted.len() implies #[trigger] sorted[i]
        <= #[trigger] sorted[j] by {
        if i < j {
            assert(order(sorted[i], sorted[j]));
        }
    }
    let n = levels.len();
    assert((n - 1) * percent <= 0x100_0000 * 100) by (nonlinear_arith)
        requires
            0 < n <= 0x100_0000,
            percent <= 100,
    ;
    let at = (n - 1) * percent / 100;
    assert(0 <= at <= n - 1) by (nonlinear_arith)
        requires
            at == (n - 1) * percent / 100,
            0 < n,
            percent <= 100,
    ;
    assert(levels.to_multiset().count(sorted[at]) > 0) by {
        to_multiset_contains(sorted, sorted[at]);
        assert(sorted.contains(sorted[at]));
    }
    to_multiset_contains(levels, sorted[at]);
    assert forall|i: int| 0 <= i < levels.len() implies percentile_of(levels, 0)
        <= #[trigger] levels[i] <= percentile_of(levels, 100) by {
        to_multiset_contains(levels, levels[i]);
        assert(levels.contains(levels[i]));
        to_multiset_contains(sorted, levels[i]);
        let k = choose|k: int| 0 <= k < sorted.len() && sorted[k] == levels[i];
        assert((n - 1) * 0 / 100 == 0);
        assert((n - 1) * 100 / 100 == n - 1);
        assert(sorted[0] <= sorted[k] <= sorted[n - 1]);
    }
}

} // verus!
