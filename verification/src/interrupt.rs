//! Signal-aligned averaging and the per-burst decision core run on each DMA
//! completion.

use vstd::prelude::*;
use vstd::arithmetic::div_mod::lemma_div_multiples_vanish;

use crate::buffer::{Buffers, HistoryModel};
use crate::components::StatusLedStates;

verus! {

/// Number of raw ADC samples in one DMA burst (2 ms at 200 kS/s).
pub const BURST_SIZE: usize = 4000;

/// Number of samples in each of the four interleaved streams of a burst.
pub const STREAM_LEN: usize = 1000;

/// Panic message raised by the shell when a DMA completion arrives with an
/// empty transfer cell.
pub const NO_TRANSFER_MSG: &'static str =
    "No ADC transfer in progress! Unable to collect latest readings";

/// Sum of the first `k` samples of interleaved stream `s`: the samples at
/// indices `s`, `s + 4`, `s + 8`, and so on.
pub open spec fn stream_sum(burst: Seq<u8>, s: int, k: nat) -> int
    decreases k,
{
    if k == 0 {
        0
    } else {
        stream_sum(burst, s, (k - 1) as nat) + burst[s + 4 * (k - 1)]
    }
}

/// The full partial sum of stream `s` over a whole burst.
pub open spec fn partial_sum_spec(burst: Seq<u8>, s: int) -> int {
    stream_sum(burst, s, STREAM_LEN as nat)
}

/// The four partial sums of a burst, as the machine words the averager
/// takes.
pub open spec fn spec_partial_sums(burst: Seq<u8>) -> Seq<i32> {
    Seq::new(4, |s: int| partial_sum_spec(burst, s) as i32)
}

/// The lowest index holding the maximum of the four partial sums.
pub open spec fn first_high_idx(ps: Seq<i32>) -> int {
    if ps[0] >= ps[1] && ps[0] >= ps[2] && ps[0] >= ps[3] {
        0
    } else if ps[1] >= ps[2] && ps[1] >= ps[3] {
        1
    } else if ps[2] >= ps[3] {
        2
    } else {
        3
    }
}

/// The lowest index, other than the first choice, holding the maximum of
/// the remaining three partial sums.
pub open spec fn second_high_idx(ps: Seq<i32>) -> int {
    let first = first_high_idx(ps);
    if first == 0 {
        if ps[1] >= ps[2] && ps[1] >= ps[3] {
            1
        } else if ps[2] >= ps[3] {
            2
        } else {
            3
        }
    } else if first == 1 {
        if ps[0] >= ps[2] && ps[0] >= ps[3] {
            0
        } else if ps[2] >= ps[3] {
            2
        } else {
            3
        }
    } else if first == 2 {
        if ps[0] >= ps[1] && ps[0] >= ps[3] {
            0
        } else if ps[1] >= ps[3] {
            1
        } else {
            3
        }
    } else {
        if ps[0] >= ps[1] && ps[0] >= ps[2] {
            0
        } else if ps[1] >= ps[2] {
            1
        } else {
            2
        }
    }
}

/// Mean of the 2000 samples behind the two highest partial sums.
pub open spec fn avg_high_spec(ps: Seq<i32>) -> int {
    (ps[first_high_idx(ps)] + ps[second_high_idx(ps)]) / 2000
}

/// Sum of the two partial sums that were not chosen.
pub open spec fn low_sum_spec(ps: Seq<i32>) -> int {
    ps[0] + ps[1] + ps[2] + ps[3] - ps[first_high_idx(ps)] - ps[second_high_idx(ps)]
}

/// Mean of the 2000 samples behind the two lowest partial sums.
pub open spec fn avg_low_spec(ps: Seq<i32>) -> int {
    low_sum_spec(ps) / 2000
}

/// The amplitude estimate: the high mean less the low mean, clamped into a
/// byte; anything outside `[0, 255]` collapses to 255 as a defensive
/// choice.
pub open spec fn delta_spec(high: int, low: int) -> int {
    if 0 <= high - low <= 255 {
        high - low
    } else {
        255
    }
}

/// The single-byte amplitude a whole burst reduces to.
pub open spec fn burst_amplitude(burst: Seq<u8>) -> int {
    delta_spec(
        avg_high_spec(spec_partial_sums(burst)),
        avg_low_spec(spec_partial_sums(burst)),
    )
}

/// Calculates proper averages aligned with signal timing.
#[derive(Copy, Clone, Debug, PartialEq, Eq, Structural)]
pub struct AlignedAverages {
    /// The average voltage from the "higher" 2000 measurements.
    avg_high: i32,
    /// The average voltage from the "lower" 2000 measurements.
    avg_low: i32,
}

impl AlignedAverages {
    /// The high mean this value carries.
    pub closed spec fn spec_avg_high(&self) -> int {
        self.avg_high as int
    }

    /// The low mean this value carries.
    pub closed spec fn spec_avg_low(&self) -> int {
        self.avg_low as int
    }

    /// Takes the partial sums of the samples to calculate the high and low
    /// averages for contact detection.
    ///
    /// Sorting would require an allocator, so two linear scans identify the
    /// two highest partial sums, ties falling to the lower index; the other
    /// two sums form the low side. Each partial sum is a sum of 1000 byte
    /// samples and so lies in `[0, 255000]`.
    pub fn align_signal_timing(partial_sums: &[i32; 4]) -> (r: Self)
        requires
            forall|i: int| 0 <= i < 4 ==> 0 <= #[trigger] partial_sums@[i] <= 255000,
        ensures
            r.spec_avg_high() == avg_high_spec(partial_sums@),
            r.spec_avg_low() == avg_low_spec(partial_sums@),
            0 <= r.spec_avg_low() <= r.spec_avg_high() <= 255,
    {
        let ps0 = partial_sums[0];
        let ps1 = partial_sums[1];
        let ps2 = partial_sums[2];
        let ps3 = partial_sums[3];
        let first: usize = if ps0 >= ps1 && ps0 >= ps2 && ps0 >= ps3 {
            0
        } else if ps1 >= ps2 && ps1 >= ps3 {
            1
        } else if ps2 >= ps3 {
            2
        } else {
            3
        };
        let second: usize = if first == 0 {
            if ps1 >= ps2 && ps1 >= ps3 {
                1
            } else if ps2 >= ps3 {
                2
            } else {
                3
            }
        } else if first == 1 {
            if ps0 >= ps2 && ps0 >= ps3 {
                0
            } else if ps2 >= ps3 {
                2
            } else {
                3
            }
        } else if first == 2 {
            if ps0 >= ps1 && ps0 >= ps3 {
                0
            } else if ps1 >= ps3 {
                1
            } else {
                3
            }
        } else {
            if ps0 >= ps1 && ps0 >= ps2 {
                0
            } else if ps1 >= ps2 {
                1
            } else {
                2
            }
        };
        assert(first == first_high_idx(partial_sums@));
        assert(second == second_high_idx(partial_sums@));
        let high_total: u32 = (partial_sums[first] + partial_sums[second]) as u32;
        let avg_high: i32 = (high_total / 2000) as i32;
        let low_total: u32 = (((ps0 + ps1) + (ps2 + ps3)) - partial_sums[first]
            - partial_sums[second]) as u32;
        let avg_low: i32 = (low_total / 2000) as i32;
        assert(avg_low <= avg_high) by {
            assert(low_sum_spec(partial_sums@) <= partial_sums@[first_high_idx(partial_sums@)]
                + partial_sums@[second_high_idx(partial_sums@)]);
        }
        AlignedAverages { avg_low, avg_high }
    }

    /// Calculates the average range of the sample interval, clamped into a
    /// byte.
    pub fn get_delta(&self) -> (r: u8)
        ensures
            r == delta_spec(self.spec_avg_high(), self.spec_avg_low()),
    {
        match self.avg_high.checked_sub(self.avg_low) {
            Some(delta) => {
                if 0 <= delta && delta <= 255 {
                    delta as u8
                } else {
                    255
                }
            },
            None => 255,
        }
    }
}

/// Any stream sum of `k` byte samples lies in `[0, 255 k]`.
proof fn lemma_stream_sum_bounds(burst: Seq<u8>, s: int, k: nat)
    ensures
        0 <= stream_sum(burst, s, k) <= 255 * k,
    decreases k,
{
    if k > 0 {
        lemma_stream_sum_bounds(burst, s, (k - 1) as nat);
        assert(255 * k == 255 * (k - 1) + 255) by (nonlinear_arith);
    }
}

/// Compute the four interleaved partial sums of a burst: stream `s` holds
/// the samples at indices congruent to `s` modulo 4.
pub fn compute_partial_sums(burst: &[u8]) -> (r: [i32; 4])
    requires
        burst@.len() == BURST_SIZE,
    ensures
        forall|s: int| 0 <= s < 4 ==> #[trigger] r@[s] == partial_sum_spec(burst@, s),
        forall|s: int| 0 <= s < 4 ==> 0 <= #[trigger] r@[s] <= 255000,
{
    let mut sum0: i32 = 0;
    let mut sum1: i32 = 0;
    let mut sum2: i32 = 0;
    let mut sum3: i32 = 0;
    let mut k: usize = 0;
    while k < STREAM_LEN
        invariant
            k <= STREAM_LEN,
            burst@.len() == BURST_SIZE,
            sum0 == stream_sum(burst@, 0, k as nat),
            sum1 == stream_sum(burst@, 1, k as nat),
            sum2 == stream_sum(burst@, 2, k as nat),
            sum3 == stream_sum(burst@, 3, k as nat),
        decreases STREAM_LEN - k,
    {
        proof {
            lemma_stream_sum_bounds(burst@, 0, k as nat);
            lemma_stream_sum_bounds(burst@, 1, k as nat);
            lemma_stream_sum_bounds(burst@, 2, k as nat);
            lemma_stream_sum_bounds(burst@, 3, k as nat);
        }
        sum0 = sum0 + burst[4 * k] as i32;
        sum1 = sum1 + burst[4 * k + 1] as i32;
        sum2 = sum2 + burst[4 * k + 2] as i32;
        sum3 = sum3 + burst[4 * k + 3] as i32;
        k = k + 1;
    }
    proof {
        lemma_stream_sum_bounds(burst@, 0, STREAM_LEN as nat);
        lemma_stream_sum_bounds(burst@, 1, STREAM_LEN as nat);
        lemma_stream_sum_bounds(burst@, 2, STREAM_LEN as nat);
        lemma_stream_sum_bounds(burst@, 3, STREAM_LEN as nat);
    }
    [sum0, sum1, sum2, sum3]
}

/// Reduce one whole burst to its single-byte amplitude estimate.
pub fn compute_amplitude(burst: &[u8]) -> (r: u8)
    requires
        burst@.len() == BURST_SIZE,
    ensures
        r == burst_amplitude(burst@),
{
    let sums = compute_partial_sums(burst);
    proof {
        lemma_stream_sum_bounds(burst@, 0, STREAM_LEN as nat);
        lemma_stream_sum_bounds(burst@, 1, STREAM_LEN as nat);
        lemma_stream_sum_bounds(burst@, 2, STREAM_LEN as nat);
        lemma_stream_sum_bounds(burst@, 3, STREAM_LEN as nat);
        assert(sums@ =~= spec_partial_sums(burst@));
    }
    let avgs = AlignedAverages::align_signal_timing(&sums);
    avgs.get_delta()
}

/// Stream `s` of a burst holds `v` in every position.
pub open spec fn stream_is(burst: Seq<u8>, s: int, v: u8) -> bool {
    forall|j: int| 0 <= j < STREAM_LEN ==> #[trigger] burst[s + 4 * j] == v
}

/// A stream holding one value in every position sums to that value times
/// the stream length.
proof fn lemma_stream_constant(burst: Seq<u8>, s: int, k: nat, v: u8)
    requires
        0 <= s < 4,
        burst.len() == BURST_SIZE,
        k <= STREAM_LEN,
        stream_is(burst, s, v),
    ensures
        stream_sum(burst, s, k) == k * v,
    decreases k,
{
    if k > 0 {
        lemma_stream_constant(burst, s, (k - 1) as nat, v);
        assert(burst[s + 4 * (k - 1)] == v);
        assert(stream_sum(burst, s, k) == stream_sum(burst, s, (k - 1) as nat) + burst[s + 4 * (k
            - 1)]);
        assert(k * v == (k - 1) * v + v) by (nonlinear_arith);
    } else {
        assert(k * v == 0) by (nonlinear_arith)
            requires
                k == 0,
        ;
    }
}

/// For any constant burst the amplitude estimate is zero: all four partial
/// sums are equal, so the high and low means coincide.
pub proof fn lemma_constant_burst_zero(burst: Seq<u8>, c: u8)
    requires
        burst.len() == BURST_SIZE,
        forall|i: int| 0 <= i < burst.len() ==> #[trigger] burst[i] == c,
    ensures
        burst_amplitude(burst) == 0,
{
    assert forall|s: int| 0 <= s < 4 implies partial_sum_spec(burst, s) == 1000 * c by {
        assert forall|j: int| 0 <= j < STREAM_LEN implies #[trigger] burst[s + 4 * j] == c by {
            assert(0 <= s + 4 * j < burst.len());
        }
        assert(stream_is(burst, s, c));
        lemma_stream_constant(burst, s, STREAM_LEN as nat, c);
    }
    let ps = spec_partial_sums(burst);
    assert(ps[0] == 1000 * c && ps[1] == 1000 * c && ps[2] == 1000 * c && ps[3] == 1000 * c);
    lemma_div_multiples_vanish(c as int, 2000);
    assert(ps[first_high_idx(ps)] + ps[second_high_idx(ps)] == 2000 * c);
    assert(low_sum_spec(ps) == 2000 * c);
}

/// If two of the interleaved streams hold exactly `high` in every position
/// and the other two hold `low`, with `high` at least `low`, then the
/// amplitude estimate is exactly their difference — whichever two stream
/// positions are the high ones.
pub proof fn lemma_two_level_burst(burst: Seq<u8>, hi_a: int, hi_b: int, high: u8, low: u8)
    requires
        burst.len() == BURST_SIZE,
        0 <= hi_a < hi_b < 4,
        high >= low,
        stream_is(burst, hi_a, high),
        stream_is(burst, hi_b, high),
        forall|s: int|
            0 <= s < 4 && s != hi_a && s != hi_b ==> #[trigger] stream_is(burst, s, low),
    ensures
        burst_amplitude(burst) == high - low,
{
    assert forall|s: int| 0 <= s < 4 implies partial_sum_spec(burst, s) == (if s == hi_a || s
        == hi_b {
        1000 * (high as int)
    } else {
        1000 * (low as int)
    }) by {
        if s == hi_a || s == hi_b {
            lemma_stream_constant(burst, s, STREAM_LEN as nat, high);
        } else {
            assert(stream_is(burst, s, low));
            lemma_stream_constant(burst, s, STREAM_LEN as nat, low);
        }
    }
    let ps = spec_partial_sums(burst);
    assert(ps[first_high_idx(ps)] + ps[second_high_idx(ps)] == 2000 * (high as int));
    assert(low_sum_spec(ps) == 2000 * (low as int));
    lemma_div_multiples_vanish(high as int, 2000);
    lemma_div_multiples_vanish(low as int, 2000);
}

/// Tie-break: when all four partial sums are equal the scans choose the
/// first two stream positions, and the amplitude estimate is zero.
pub proof fn lemma_tie_break(ps: Seq<i32>)
    requires
        ps.len() == 4,
        ps[0] == ps[1],
        ps[1] == ps[2],
        ps[2] == ps[3],
    ensures
        first_high_idx(ps) == 0,
        second_high_idx(ps) == 1,
        delta_spec(avg_high_spec(ps), avg_low_spec(ps)) == 0,
{
}

/// The amplitude estimate of any burst lies in `[0, 255]`.
pub proof fn lemma_amplitude_in_byte_range(burst: Seq<u8>)
    ensures
        0 <= burst_amplitude(burst) <= 255,
{
}

/// What one burst asked of the supervisor, as decided by the acquisition
/// interrupt's core.
#[derive(Copy, Clone, Debug, PartialEq, Eq, Structural)]
pub enum DetectionUpdate {
    /// A contact was confirmed; `index` is the global sample index for the
    /// detection message.
    Contact {
        /// Global index of the confirming sample.
        index: usize,
    },
    /// The end of the current contact was confirmed.
    EndOfContact,
    /// The sample counter would have overflowed: a hard error.
    CounterOverflow,
    /// Nothing to report.
    Quiet,
}

/// The whole per-burst step over the model: insert the burst's amplitude,
/// then run the sub-machine the current mode selects. Detection runs only
/// in the normal and alert modes; error and disabled leave the history
/// growing but idle.
pub open spec fn process_step(
    m: HistoryModel,
    mode: StatusLedStates,
    burst: Seq<u8>,
) -> (HistoryModel, DetectionUpdate) {
    let (inserted, overflow) = m.insert_step(burst_amplitude(burst) as u8);
    if overflow {
        (inserted, DetectionUpdate::CounterOverflow)
    } else {
        match mode {
            StatusLedStates::Normal => {
                let (checked, contact) = inserted.contact_step();
                if contact {
                    (checked, DetectionUpdate::Contact { index: (inserted.head - 1) as usize })
                } else {
                    (checked, DetectionUpdate::Quiet)
                }
            },
            StatusLedStates::Alert => {
                let (checked, cleared) = inserted.end_contact_step();
                if cleared {
                    (checked, DetectionUpdate::EndOfContact)
                } else {
                    (checked, DetectionUpdate::Quiet)
                }
            },
            StatusLedStates::Error | StatusLedStates::Disabled => (
                inserted,
                DetectionUpdate::Quiet,
            ),
        }
    }
}

/// The acquisition interrupt's decision core: reduce the completed burst to
/// an amplitude, insert it, and run the detection machine chosen by the
/// current mode. The shell performs the returned update — a supervisor
/// transition, or an error on counter overflow — outside the history's
/// critical section, then rearms the transfer.
pub fn process_burst(buffers: &mut Buffers, mode: StatusLedStates, burst: &[u8]) -> (update:
    DetectionUpdate)
    requires
        old(buffers).wf(),
        burst@.len() == BURST_SIZE,
    ensures
        final(buffers).wf(),
        final(buffers)@ == process_step(old(buffers)@, mode, burst@).0,
        update == process_step(old(buffers)@, mode, burst@).1,
{
    let amplitude = compute_amplitude(burst);
    let overflow = buffers.insert(amplitude);
    if overflow {
        return DetectionUpdate::CounterOverflow;
    }
    match mode {
        StatusLedStates::Normal => {
            if buffers.detect_contact() {
                DetectionUpdate::Contact { index: buffers.detection_idx() }
            } else {
                DetectionUpdate::Quiet
            }
        },
        StatusLedStates::Alert => {
            if buffers.detect_end_contact() {
                DetectionUpdate::EndOfContact
            } else {
                DetectionUpdate::Quiet
            }
        },
        StatusLedStates::Error | StatusLedStates::Disabled => DetectionUpdate::Quiet,
    }
}

/// A burst step reports the counter overflow exactly when the head stands
/// at the machine's maximum, whatever the mode and the burst. The first
/// such report drives the supervisor into the error state, which pauses
/// the pipeline, so no later burst arrives to repeat it.
pub proof fn lemma_overflow_is_hard_error(
    m: HistoryModel,
    mode: StatusLedStates,
    burst: Seq<u8>,
)
    ensures
        (process_step(m, mode, burst).1 == DetectionUpdate::CounterOverflow) <==> m.head
            == usize::MAX,
{
}

/// The mode the periodic disable-switch sampler requests for a switch
/// level: a high switch disables the system, a low one restores normal
/// operation.
pub fn switch_mode_request(switch_high: bool) -> (r: StatusLedStates)
    ensures
        r == (if switch_high {
            StatusLedStates::Disabled
        } else {
            StatusLedStates::Normal
        }),
{
    if switch_high {
        StatusLedStates::Disabled
    } else {
        StatusLedStates::Normal
    }
}

} // verus!
