//! Sample counting, the long-term amplitude history, and the two-stage
//! contact / end-of-contact detection machine.

use vstd::prelude::*;
use vstd::arithmetic::div_mod::{
    lemma_add_mod_noop, lemma_fundamental_div_mod_converse_mod, lemma_mod_division_less_than_divisor,
    lemma_small_mod, lemma_sub_mod_noop, lemma_sub_mod_noop_right,
};

verus! {

/// Number of amplitude estimates held in the long-term ring: 90 s of history
/// at one estimate every 2 ms. Kept a multiple of 250 so that whole tracing
/// windows fit exactly.
pub const LONGTERM_SIZE: usize = 45000;

/// Most recent detection events kept, most recent first.
pub const MAX_EVENTS: usize = 10;

/// Minimum absolute amplitude step that arms the contact check. A step of 2
/// on the 8-bit scale was chosen from experimental data and accounts for
/// signal drift.
pub const INIT_TRIGGER_DELTA: u8 = 2;

/// Minimum amplitude recovery, relative to the last detection event, that
/// arms the end-of-contact check.
pub const INIT_RESTORE_DELTA: u8 = 2;

/// Minimum number of samples spent in alert (300 ms at 2 ms per sample)
/// before end-of-contact may be reported, so the operator always sees the
/// alert light.
pub const MIN_ALERT_SAMPLES: usize = 150;

/// Panic message raised by the shell if the history cell is empty.
pub const NO_BUFFER_PANIC_MSG: &'static str =
    "Buffers have not been initialized or are not currently available in mutex";

/// Monotonic counter giving the position of averaged samples since boot.
#[derive(Copy, Clone, Debug, PartialEq, Eq, Structural)]
pub struct SampleCounter(usize);

impl View for SampleCounter {
    type V = nat;

    closed spec fn view(&self) -> nat {
        self.0 as nat
    }
}

impl Default for SampleCounter {
    /// A counter that has seen no samples yet.
    fn default() -> (r: Self)
        ensures
            r@ == 0,
    {
        SampleCounter(0)
    }
}

impl SampleCounter {
    /// A counter standing at `value`.
    pub fn new(value: usize) -> (r: Self)
        ensures
            r@ == value,
    {
        SampleCounter(value)
    }

    /// Get the current counter value.
    pub fn get_counter(&self) -> (r: usize)
        ensures
            r == self@,
    {
        self.0
    }

    /// Advance the counter by one. The counter never wraps: at the machine's
    /// maximum it stays put and reports the overflow, which callers must
    /// route to the supervisor as a hard error.
    pub fn increment(&mut self) -> (overflow: bool)
        ensures
            overflow == (old(self)@ == usize::MAX),
            !overflow ==> final(self)@ == old(self)@ + 1,
            overflow ==> final(self)@ == old(self)@,
    {
        match self.0.checked_add(1) {
            Some(new_counter) => {
                self.0 = new_counter;
                false
            },
            None => true,
        }
    }

    /// Add with defined wrapping: the result is `(value + rhs) mod limit`,
    /// and so always lands in `[0, limit)`. Used to map a counter into an
    /// index of the long-term ring.
    pub fn wrapping_counter_add(&self, rhs: usize, limit: usize) -> (r: usize)
        requires
            0 < limit,
            rhs < limit,
        ensures
            r == (self@ + rhs) % (limit as int),
            r < limit,
    {
        let wrapped: usize = self.0 % limit;
        proof {
            lemma_add_mod_noop(self@ as int, rhs as int, limit as int);
            lemma_small_mod(rhs as nat, limit as nat);
            if wrapped + rhs < limit {
                lemma_small_mod((wrapped + rhs) as nat, limit as nat);
            } else {
                lemma_fundamental_div_mod_converse_mod(
                    wrapped + rhs,
                    limit as int,
                    1,
                    wrapped + rhs - limit,
                );
            }
        }
        if wrapped >= limit - rhs {
            rhs - (limit - wrapped)
        } else {
            wrapped + rhs
        }
    }

    /// Subtract with defined wrapping: the result is `(value - rhs) mod
    /// limit`, taken non-negative, and so always lands in `[0, limit)`.
    pub fn wrapping_counter_sub(&self, rhs: usize, limit: usize) -> (r: usize)
        requires
            0 < limit,
            rhs < limit,
        ensures
            r == (self@ - rhs) % (limit as int),
            r < limit,
    {
        let wrapped: usize = self.0 % limit;
        proof {
            lemma_sub_mod_noop(self@ as int, rhs as int, limit as int);
            lemma_small_mod(rhs as nat, limit as nat);
            if wrapped >= rhs {
                lemma_small_mod((wrapped - rhs) as nat, limit as nat);
            } else {
                lemma_fundamental_div_mod_converse_mod(
                    wrapped - rhs,
                    limit as int,
                    -1,
                    wrapped - rhs + limit,
                );
            }
        }
        if wrapped >= rhs {
            wrapped - rhs
        } else {
            (limit - rhs) + wrapped
        }
    }
}

/// Index of a detection event, combined with the amplitude seen then.
pub type DetectionEvent = (SampleCounter, u8);

/// Absolute gap between two amplitudes.
pub open spec fn amp_gap(a: u8, b: u8) -> int {
    if a >= b {
        a - b
    } else {
        b - a
    }
}

/// A new event entering the front of the list; the oldest entry falls off
/// once the list is full.
pub open spec fn push_event(events: Seq<(nat, u8)>, event: (nat, u8)) -> Seq<(nat, u8)> {
    if events.len() < MAX_EVENTS {
        seq![event] + events
    } else {
        (seq![event] + events).take(MAX_EVENTS as int)
    }
}

/// Mathematical model of the sample history and detection state.
pub ghost struct HistoryModel {
    /// Ring contents; `longterm[head % LONGTERM_SIZE]` is the most recent
    /// amplitude.
    pub longterm: Seq<u8>,
    /// Number of amplitudes inserted since boot.
    pub head: nat,
    /// Recent detection events as (counter, amplitude), most recent first.
    pub events: Seq<(nat, u8)>,
    /// Whether the machine awaits a second, confirming sample.
    pub awaiting: bool,
}

impl HistoryModel {
    /// Well-formedness: full-size ring, bounded event list, counters within
    /// machine range, and no event newer than the head.
    pub open spec fn wf(self) -> bool {
        &&& self.longterm.len() == LONGTERM_SIZE
        &&& self.events.len() <= MAX_EVENTS
        &&& self.head <= usize::MAX
        &&& forall|i: int|
            0 <= i < self.events.len() ==> (#[trigger] self.events[i]).0 <= self.head
    }

    /// Ring index of the most recent insertion.
    pub open spec fn wrapped(self) -> int {
        self.head as int % (LONGTERM_SIZE as int)
    }

    /// The amplitude inserted `back` insertions ago (0 is the most recent).
    pub open spec fn sample_back(self, back: int) -> u8 {
        self.longterm[(self.head - back) % (LONGTERM_SIZE as int)]
    }

    /// One insertion: the slot after the current head is overwritten, then
    /// the head advances; at the machine's maximum count the head stays put
    /// and the overflow is reported instead.
    pub open spec fn insert_step(self, sample: u8) -> (HistoryModel, bool) {
        let written = HistoryModel {
            longterm: self.longterm.update(
                (self.head as int + 1) % (LONGTERM_SIZE as int),
                sample,
            ),
            ..self
        };
        if self.head == usize::MAX {
            (written, true)
        } else {
            (HistoryModel { head: self.head + 1, ..written }, false)
        }
    }

    /// One run of the contact sub-machine. Armed, it latches on a step of at
    /// least [`INIT_TRIGGER_DELTA`]; pending, it always clears the latch and
    /// confirms contact when the sample two back still differs from the
    /// newest one, recording the event.
    pub open spec fn contact_step(self) -> (HistoryModel, bool) {
        if !self.awaiting {
            if amp_gap(self.sample_back(1), self.sample_back(0)) >= INIT_TRIGGER_DELTA {
                (HistoryModel { awaiting: true, ..self }, false)
            } else {
                (self, false)
            }
        } else {
            let validated = HistoryModel { awaiting: false, ..self };
            if amp_gap(self.sample_back(2), self.sample_back(0)) >= 1 {
                (
                    HistoryModel {
                        events: push_event(self.events, (self.head, self.sample_back(0))),
                        ..validated
                    },
                    true,
                )
            } else {
                (validated, false)
            }
        }
    }

    /// One run of the end-of-contact sub-machine. Without a recorded event
    /// nothing happens; after [`MIN_ALERT_SAMPLES`] the clear is forced; in
    /// between, a recovery of [`INIT_RESTORE_DELTA`] arms the latch and the
    /// next sample validates it.
    pub open spec fn end_contact_step(self) -> (HistoryModel, bool) {
        if self.events.len() == 0 {
            (self, false)
        } else {
            let last = self.events[0];
            let elapsed = (self.head - last.0) % (LONGTERM_SIZE as int);
            if elapsed >= MIN_ALERT_SAMPLES {
                (HistoryModel { awaiting: false, ..self }, true)
            } else if !self.awaiting {
                if amp_gap(self.sample_back(0), last.1) >= INIT_RESTORE_DELTA {
                    (HistoryModel { awaiting: true, ..self }, false)
                } else {
                    (self, false)
                }
            } else {
                let validated = HistoryModel { awaiting: false, ..self };
                if amp_gap(self.sample_back(0), last.1) >= 1 {
                    (validated, true)
                } else {
                    (validated, false)
                }
            }
        }
    }
}

/// Various buffers used for managing signal samples.
pub struct Buffers {
    /// Records samples for long-term and adaptive detection.
    longterm_buffer: Vec<u8>,
    /// Counter for the most recent sample added.
    current_sample: SampleCounter,
    /// Up to [`MAX_EVENTS`] recent detection events, most recent first.
    detection_events: Vec<DetectionEvent>,
    /// A potential detection or clear has been recorded and the machine is
    /// awaiting a second sample.
    await_confirm: bool,
}

impl View for Buffers {
    type V = HistoryModel;

    closed spec fn view(&self) -> HistoryModel {
        HistoryModel {
            longterm: self.longterm_buffer@,
            head: self.current_sample@,
            events: self.detection_events@.map_values(|e: DetectionEvent| (e.0@, e.1)),
            awaiting: self.await_confirm,
        }
    }
}

impl Buffers {
    /// The buffers are well formed whenever their model is.
    pub open spec fn wf(&self) -> bool {
        self@.wf()
    }

    /// A fresh history: an all-zero ring, no insertions, no events.
    pub fn init() -> (r: Buffers)
        ensures
            r.wf(),
            r@.head == 0,
            r@.longterm =~= Seq::new(LONGTERM_SIZE as nat, |i: int| 0u8),
            r@.events =~= Seq::<(nat, u8)>::empty(),
            !r@.awaiting,
    {
        Buffers {
            longterm_buffer: vec![0u8; LONGTERM_SIZE],
            current_sample: SampleCounter::default(),
            detection_events: Vec::new(),
            await_confirm: false,
        }
    }

    /// The head counter wrapped to [`LONGTERM_SIZE`]: the ring index of the
    /// most recent insertion.
    pub fn current_wrapped(&self) -> (r: SampleCounter)
        ensures
            r@ == self@.wrapped(),
    {
        SampleCounter::new(self.current_sample.get_counter() % LONGTERM_SIZE)
    }

    /// Insert a new sample at the head. Reports whether the head counter
    /// would have overflowed; the caller must route that to the supervisor.
    pub fn insert(&mut self, sample: u8) -> (overflow: bool)
        requires
            old(self).wf(),
        ensures
            final(self).wf(),
            final(self)@ == old(self)@.insert_step(sample).0,
            overflow == old(self)@.insert_step(sample).1,
    {
        proof {
            lemma_add_mod_noop(self@.head as int, 1, LONGTERM_SIZE as int);
            lemma_small_mod(1nat, LONGTERM_SIZE as nat);
        }
        let new_head = self.current_wrapped().wrapping_counter_add(1, LONGTERM_SIZE);
        self.longterm_buffer.set(new_head, sample);
        self.current_sample.increment()
    }

    /// Analyze the most recent data to determine if a contact event has
    /// occurred, updating the record of recent detection events on a
    /// confirmed contact.
    pub fn detect_contact(&mut self) -> (contact: bool)
        requires
            old(self).wf(),
        ensures
            final(self).wf(),
            final(self)@ == old(self)@.contact_step().0,
            contact == old(self)@.contact_step().1,
    {
        let newest = self.longterm_buffer[self.current_wrapped().get_counter()];
        if !self.await_confirm {
            // First contact check: a large enough step arms the machine.
            let prev_idx = self.current_sample.wrapping_counter_sub(1, LONGTERM_SIZE);
            let prev = self.longterm_buffer[prev_idx];
            if amplitude_gap(prev, newest) >= INIT_TRIGGER_DELTA {
                self.await_confirm = true;
            }
            false
        } else {
            // Validation check: the latch always clears here.
            self.await_confirm = false;
            let prev_idx = self.current_sample.wrapping_counter_sub(2, LONGTERM_SIZE);
            let prev_high = self.longterm_buffer[prev_idx];
            if amplitude_gap(prev_high, newest) >= 1 {
                self.add_detection_event();
                true
            } else {
                false
            }
        }
    }

    /// Analyze the most recent data and contact events to determine when
    /// contact ends. A clear is forced once [`MIN_ALERT_SAMPLES`] samples
    /// have passed since the last detection, so the alert stays visible for
    /// at least that long but never longer without cause.
    pub fn detect_end_contact(&mut self) -> (cleared: bool)
        requires
            old(self).wf(),
        ensures
            final(self).wf(),
            final(self)@ == old(self)@.end_contact_step().0,
            cleared == old(self)@.end_contact_step().1,
    {
        if self.detection_events.len() == 0 {
            // End-of-contact asked before any detection was recorded: the
            // shell logs a warning; nothing changes here.
            return false;
        }
        let last = self.detection_events[0];
        proof {
            lemma_sub_mod_noop_right(
                self@.head as int,
                last.0@ as int,
                LONGTERM_SIZE as int,
            );
            lemma_small_mod((last.0@ % (LONGTERM_SIZE as nat)) as nat, LONGTERM_SIZE as nat);
        }
        let last_wrapped = last.0.get_counter() % LONGTERM_SIZE;
        let elapsed = self.current_sample.wrapping_counter_sub(last_wrapped, LONGTERM_SIZE);
        if elapsed >= MIN_ALERT_SAMPLES {
            self.await_confirm = false;
            true
        } else if !self.await_confirm {
            // First clear check: a large enough recovery arms the machine.
            let newest = self.longterm_buffer[self.current_wrapped().get_counter()];
            if amplitude_gap(newest, last.1) >= INIT_RESTORE_DELTA {
                self.await_confirm = true;
            }
            false
        } else {
            // Validation clear check.
            self.await_confirm = false;
            let newest = self.longterm_buffer[self.current_wrapped().get_counter()];
            amplitude_gap(newest, last.1) >= 1
        }
    }

    /// Shortcut to the global index of the most recent insertion.
    pub fn detection_idx(&self) -> (r: usize)
        requires
            self@.head >= 1,
        ensures
            r == self@.head - 1,
    {
        self.current_sample.get_counter() - 1
    }

    /// Add an entry for a just-confirmed contact: the current counter paired
    /// with the newest amplitude enters the front of the event list.
    pub fn add_detection_event(&mut self)
        requires
            old(self).wf(),
        ensures
            final(self).wf(),
            final(self)@ == (HistoryModel {
                events: push_event(
                    old(self)@.events,
                    (old(self)@.head, old(self)@.sample_back(0)),
                ),
                ..old(self)@
            }),
    {
        let amplitude = self.longterm_buffer[self.current_wrapped().get_counter()];
        if self.detection_events.len() == MAX_EVENTS {
            self.detection_events.pop();
        }
        self.detection_events.insert(0, (self.current_sample, amplitude));
        proof {
            assert(self@.events =~= push_event(
                old(self)@.events,
                (old(self)@.head, old(self)@.sample_back(0)),
            ));
        }
    }

    /// Whether the detection machine awaits a confirming sample.
    pub fn awaiting_confirmation(&self) -> (r: bool)
        ensures
            r == self@.awaiting,
    {
        self.await_confirm
    }

    /// How many detection events are currently recorded.
    pub fn event_count(&self) -> (r: usize)
        ensures
            r == self@.events.len(),
    {
        self.detection_events.len()
    }

    /// The most recent detection event, if any has been recorded.
    pub fn latest_event(&self) -> (r: Option<DetectionEvent>)
        ensures
            (r is Some) == (self@.events.len() > 0),
            r matches Some(e) ==> e.0@ == self@.events[0].0 && e.1 == self@.events[0].1,
    {
        if self.detection_events.len() == 0 {
            None
        } else {
            Some(self.detection_events[0])
        }
    }

    /// The amplitude stored at a given ring index.
    pub fn amplitude_at(&self, index: usize) -> (r: u8)
        requires
            self.wf(),
            index < LONGTERM_SIZE,
        ensures
            r == self@.longterm[index as int],
    {
        self.longterm_buffer[index]
    }
}

/// Absolute gap between two amplitudes, as executable code.
fn amplitude_gap(a: u8, b: u8) -> (r: u8)
    ensures
        r == amp_gap(a, b),
{
    if a >= b {
        a - b
    } else {
        b - a
    }
}

/// The character for a single decimal digit.
pub open spec fn digit_char(d: nat) -> char {
    if d == 0 {
        '0'
    } else if d == 1 {
        '1'
    } else if d == 2 {
        '2'
    } else if d == 3 {
        '3'
    } else if d == 4 {
        '4'
    } else if d == 5 {
        '5'
    } else if d == 6 {
        '6'
    } else if d == 7 {
        '7'
    } else if d == 8 {
        '8'
    } else {
        '9'
    }
}

/// The decimal digits of `n`, most significant first, no leading zeros.
pub open spec fn decimal_digits(n: nat) -> Seq<char>
    decreases n,
{
    if n < 10 {
        seq![digit_char(n)]
    } else {
        decimal_digits(n / 10) + seq![digit_char(n % 10)]
    }
}

/// The stable text announcing a detection on global sample `n`.
pub open spec fn detection_msg_text(n: nat) -> Seq<char> {
    "contact detected on sample "@ + decimal_digits(n) + "! Adding to detection events"@
}

/// The single-character string for a decimal digit.
fn digit_str(d: u8) -> (r: &'static str)
    requires
        d < 10,
    ensures
        r@ =~= seq![digit_char(d as nat)],
{
    proof {
        reveal_strlit("0");
        reveal_strlit("1");
        reveal_strlit("2");
        reveal_strlit("3");
        reveal_strlit("4");
        reveal_strlit("5");
        reveal_strlit("6");
        reveal_strlit("7");
        reveal_strlit("8");
        reveal_strlit("9");
    }
    match d {
        0 => "0",
        1 => "1",
        2 => "2",
        3 => "3",
        4 => "4",
        5 => "5",
        6 => "6",
        7 => "7",
        8 => "8",
        _ => "9",
    }
}

/// The collected low-order digits, read back most significant first.
spec fn digit_chars_rev(ds: Seq<u8>) -> Seq<char> {
    ds.reverse().map_values(|d: u8| digit_char(d as nat))
}

/// Render a counter value in decimal.
fn decimal_string(n: usize) -> (r: String)
    ensures
        r@ == decimal_digits(n as nat),
{
    let mut digits: Vec<u8> = Vec::new();
    let mut rem: usize = n;
    while rem >= 10
        invariant
            decimal_digits(n as nat) =~= decimal_digits(rem as nat) + digit_chars_rev(digits@),
            forall|i: int| 0 <= i < digits@.len() ==> #[trigger] digits@[i] < 10,
        decreases rem,
    {
        let ghost old_rem = rem as nat;
        let ghost old_digits = digits@;
        let digit: u8 = (rem % 10) as u8;
        digits.push(digit);
        rem = rem / 10;
        proof {
            assert(digit_chars_rev(old_digits.push(digit)) =~= seq![digit_char(digit as nat)]
                + digit_chars_rev(old_digits));
            assert(decimal_digits(old_rem) =~= decimal_digits(old_rem / 10) + seq![
                digit_char(old_rem % 10),
            ]);
        }
    }
    let mut text: String = digit_str(rem as u8).to_owned();
    let mut remaining: usize = digits.len();
    while remaining > 0
        invariant
            remaining <= digits@.len(),
            forall|i: int| 0 <= i < digits@.len() ==> #[trigger] digits@[i] < 10,
            text@ =~= seq![digit_char(rem as nat)] + digit_chars_rev(digits@).take(
                digits@.len() - remaining,
            ),
            rem < 10,
            decimal_digits(n as nat) =~= decimal_digits(rem as nat) + digit_chars_rev(digits@),
        decreases remaining,
    {
        let ghost done = digits@.len() - remaining;
        text.append(digit_str(digits[remaining - 1]));
        remaining = remaining - 1;
        proof {
            assert(digit_chars_rev(digits@)[done] == digit_char(
                digits@[remaining as int] as nat,
            ));
            assert(digit_chars_rev(digits@).take(done + 1) =~= digit_chars_rev(
                digits@,
            ).take(done) + seq![digit_char(digits@[remaining as int] as nat)]);
        }
    }
    proof {
        assert(digit_chars_rev(digits@).take(digits@.len() as int) =~= digit_chars_rev(digits@));
    }
    text
}

/// Two ring positions a step of less than a full revolution apart are
/// distinct.
proof fn lemma_ring_step_distinct(h: nat, k: nat)
    requires
        0 < k < LONGTERM_SIZE,
    ensures
        (h + k) as int % (LONGTERM_SIZE as int) != h as int % (LONGTERM_SIZE as int),
{
    let li = LONGTERM_SIZE as int;
    lemma_add_mod_noop(h as int, k as int, li);
    lemma_small_mod(k, LONGTERM_SIZE as nat);
    lemma_mod_division_less_than_divisor(h as int, li);
    let v = h as int % li;
    if v + k < li {
        lemma_small_mod((v + k) as nat, LONGTERM_SIZE as nat);
    } else {
        lemma_fundamental_div_mod_converse_mod(v + k, li, 1, v + k - li);
    }
}

/// The head counter never decreases across an insertion, and an insertion
/// reports overflow exactly when the counter stands at the machine's
/// maximum.
pub proof fn lemma_head_monotonic(m: HistoryModel, sample: u8)
    ensures
        m.insert_step(sample).0.head >= m.head,
        m.insert_step(sample).1 <==> m.head == usize::MAX,
{
}

/// Each step of the machine keeps the history well formed; in particular
/// the event list never exceeds [`MAX_EVENTS`] entries and stays ordered
/// most recent first behind a head that only grows.
pub proof fn lemma_wf_preserved(m: HistoryModel, sample: u8)
    requires
        m.wf(),
    ensures
        m.insert_step(sample).0.wf(),
        m.contact_step().0.wf(),
        m.end_contact_step().0.wf(),
        m.contact_step().0.events.len() <= MAX_EVENTS,
{
}

/// The detection sub-machines only read the ring: neither the contact nor
/// the end-of-contact step touches the stored amplitudes or the head; only
/// an insertion writes them.
pub proof fn lemma_detection_reads_only(m: HistoryModel)
    ensures
        m.contact_step().0.longterm == m.longterm,
        m.contact_step().0.head == m.head,
        m.end_contact_step().0.longterm == m.longterm,
        m.end_contact_step().0.head == m.head,
        m.end_contact_step().0.events == m.events,
{
}

/// No single-sample change ever produces a contact: from the armed state,
/// one insertion followed by one check reports nothing, however large the
/// step.
pub proof fn lemma_no_single_sample_contact(m: HistoryModel, sample: u8)
    requires
        !m.awaiting,
    ensures
        !m.insert_step(sample).0.contact_step().1,
{
}

/// Two successive step samples, the second a full trigger step above the
/// first, followed by any validation sample still differing from the first,
/// produce exactly one confirmed contact — none on the arming sample, one
/// on the validating sample — recorded at the then-current head counter
/// with the validating amplitude.
pub proof fn lemma_two_step_contact(m: HistoryModel, x: u8, y: u8)
    requires
        m.wf(),
        !m.awaiting,
        m.sample_back(0) == x,
        x + INIT_TRIGGER_DELTA <= u8::MAX,
        m.head + 2 <= usize::MAX,
        amp_gap(x, y) >= 1,
    ensures
        ({
            let (m1, over1) = m.insert_step((x + INIT_TRIGGER_DELTA) as u8);
            let (m1b, contact1) = m1.contact_step();
            let (m2, over2) = m1b.insert_step(y);
            let (m2b, contact2) = m2.contact_step();
            &&& !over1 && !contact1 && m1b.awaiting
            &&& !over2 && contact2
            &&& m2b.events.len() > 0
            &&& m2b.events[0].0 == m.head + 2
            &&& m2b.events[0].1 == y
        }),
{
    let li = LONGTERM_SIZE as int;
    let h = m.head as int;
    lemma_mod_division_less_than_divisor(h, li);
    lemma_mod_division_less_than_divisor(h + 1, li);
    lemma_mod_division_less_than_divisor(h + 2, li);
    lemma_ring_step_distinct(m.head, 1);
    lemma_ring_step_distinct(m.head, 2);
    lemma_ring_step_distinct(m.head + 1, 1);
    let (m1, over1) = m.insert_step((x + INIT_TRIGGER_DELTA) as u8);
    assert(m1.sample_back(0) == x + INIT_TRIGGER_DELTA);
    assert(m1.sample_back(1) == x);
    let (m1b, contact1) = m1.contact_step();
    let (m2, over2) = m1b.insert_step(y);
    assert(m2.sample_back(0) == y);
    assert(m2.sample_back(2) == x);
}

/// Running the end-of-contact machine over a run of inserted samples,
/// stopping at the first reported clear: does some step report one?
pub open spec fn clears_within(m: HistoryModel, samples: Seq<u8>) -> bool
    decreases samples.len(),
{
    if samples.len() <= 0 {
        false
    } else {
        let (m2, cleared) = m.insert_step(samples[0]).0.end_contact_step();
        cleared || clears_within(m2, samples.skip(1))
    }
}

/// Helper for the forced clear: once enough of the alert dwell has already
/// elapsed that the remaining samples reach [`MIN_ALERT_SAMPLES`], some step
/// reports a clear.
proof fn lemma_clear_progress(m: HistoryModel, samples: Seq<u8>)
    requires
        m.wf(),
        m.events.len() > 0,
        samples.len() > 0,
        (m.head - m.events[0].0) + samples.len() >= MIN_ALERT_SAMPLES,
        (m.head - m.events[0].0) + samples.len() < LONGTERM_SIZE,
        m.head + samples.len() <= usize::MAX,
    ensures
        clears_within(m, samples),
    decreases samples.len(),
{
    let (m1, over) = m.insert_step(samples[0]);
    let (m2, cleared) = m1.end_contact_step();
    let gone = m1.head - m1.events[0].0;
    lemma_small_mod(gone as nat, LONGTERM_SIZE as nat);
    if gone < MIN_ALERT_SAMPLES && !cleared {
        lemma_clear_progress(m2, samples.skip(1));
    }
}

/// Starting immediately after a contact event — the newest event recorded
/// at the current head — any run of [`MIN_ALERT_SAMPLES`] inserted samples
/// forces a clear: some step of the run reports one, whatever the samples
/// hold. The run is read as the supervisor does, stopping at the first
/// clear, so the clear is also reported only once.
pub proof fn lemma_forced_clear(m: HistoryModel, samples: Seq<u8>)
    requires
        m.wf(),
        m.events.len() > 0,
        m.events[0].0 == m.head,
        samples.len() == MIN_ALERT_SAMPLES,
        m.head + MIN_ALERT_SAMPLES <= usize::MAX,
    ensures
        clears_within(m, samples),
{
    lemma_clear_progress(m, samples);
}

/// Newtype carrying the counter index of a successful detection, used to
/// format the operator-facing trace message.
pub struct DetectionMsg(SampleCounter);

impl View for DetectionMsg {
    type V = nat;

    closed spec fn view(&self) -> nat {
        self.0@
    }
}

impl DetectionMsg {
    /// A message for the detection that the newest sample just confirmed.
    pub fn create(buffer: &Buffers) -> (r: Self)
        requires
            buffer@.head >= 1,
        ensures
            r@ == buffer@.head - 1,
    {
        DetectionMsg(SampleCounter::new(buffer.detection_idx()))
    }

    /// The stable text of this message:
    /// `contact detected on sample {N}! Adding to detection events`.
    pub fn message(&self) -> (r: String)
        ensures
            r@ == detection_msg_text(self@),
    {
        let mut text: String = "contact detected on sample ".to_owned();
        let digits = decimal_string(self.0.get_counter());
        text.append(digits.as_str());
        text.append("! Adding to detection events");
        text
    }
}

} // verus!
