use vstd::prelude::*;

verus! {

/// Highest safe average temperature, in hundredths of a degree Celsius (60.00 °C).
pub const MAX_TEMPERATURE: i32 = 6000;

/// Number of samples the rolling average covers unless told otherwise.
pub const DEFAULT_CAPACITY: usize = 10;

/// Whether the overheat alarm should fire.
#[derive(Clone, Copy, Debug, PartialEq, Eq, Structural)]
pub enum AlarmDecision {
    Trigger,
    NoTrigger,
}

/// The samples a monitor holds: the most recent ones, oldest first, at most `capacity`.
pub struct History {
    pub capacity: nat,
    pub window: Seq<i32>,
}

/// A monitor of the given capacity that has seen no sample.
pub open spec fn empty_history(capacity: nat) -> History {
    History { capacity, window: Seq::empty() }
}

/// The history after one more sample: it is appended, and the oldest one drops out once
/// all slots are taken.
pub open spec fn record_spec(h: History, sample: i32) -> History {
    if h.window.len() < h.capacity {
        History { window: h.window.push(sample), ..h }
    } else {
        History { window: h.window.push(sample).drop_first(), ..h }
    }
}

/// The history after the samples, in order.
pub open spec fn record_all(h: History, samples: Seq<i32>) -> History
    decreases samples.len(),
{
    if samples.len() == 0 {
        h
    } else {
        record_spec(record_all(h, samples.drop_last()), samples.last())
    }
}

/// All slots have been written since construction.
pub open spec fn ready_spec(h: History) -> bool {
    h.window.len() == h.capacity
}

/// Sum of the samples, as an unbounded integer.
pub open spec fn sum_of(s: Seq<i32>) -> int
    decreases s.len(),
{
    if s.len() == 0 {
        0
    } else {
        sum_of(s.drop_last()) + s.last()
    }
}

/// Mean of the window, rounded down to a whole hundredth of a degree.
pub open spec fn average_spec(h: History) -> int {
    sum_of(h.window) / (h.capacity as int)
}

/// Trigger exactly when the history is complete, its average reaches the limit, and
/// nobody is attending the grill.
pub open spec fn alarm_spec(h: History, presence: bool) -> AlarmDecision {
    if ready_spec(h) && average_spec(h) >= MAX_TEMPERATURE && !presence {
        AlarmDecision::Trigger
    } else {
        AlarmDecision::NoTrigger
    }
}

/// Position `j` places after `start` in a ring of `cap` slots, for `start, j < cap`.
pub open spec fn ring_index(start: int, j: int, cap: int) -> int {
    if start + j < cap {
        start + j
    } else {
        start + j - cap
    }
}

/// Rolling record of grill surface temperatures, in hundredths of a degree Celsius, over a
/// fixed number of slots.
pub struct Grill {
    slots: Vec<i32>,
    next: usize,
    filled: usize,
    window: Ghost<Seq<i32>>,
}

impl View for Grill {
    type V = History;

    closed spec fn view(&self) -> History {
        History { capacity: self.slots@.len(), window: self.window@ }
    }
}

impl Grill {
    /// Slot of the oldest sample.
    closed spec fn oldest(&self) -> int {
        if self.filled < self.slots@.len() {
            0
        } else {
            self.next as int
        }
    }

    /// The ring holds the window: `filled` samples from the oldest slot on, the next write
    /// goes right after the newest.
    pub closed spec fn wf(&self) -> bool {
        let cap = self.slots@.len() as int;
        &&& cap > 0
        &&& self.next < cap
        &&& self.filled <= cap
        &&& self.window@.len() == self.filled
        &&& self.filled < cap ==> self.next == self.filled
        &&& forall|j: int|
            0 <= j < self.filled ==> #[trigger] self.window@[j] == self.slots@[ring_index(
                self.oldest(),
                j,
                cap,
            )]
    }

    /// A monitor over `capacity` samples with none recorded yet.
    pub fn with_capacity(capacity: usize) -> (r: Grill)
        requires
            capacity > 0,
        ensures
            r.wf(),
            r@ == empty_history(capacity as nat),
    {
        let mut slots: Vec<i32> = Vec::new();
        let mut i: usize = 0;
        while i < capacity
            invariant
                i <= capacity,
                slots@.len() == i,
            decreases capacity - i,
        {
            slots.push(0);
            i = i + 1;
        }
        Grill { slots, next: 0, filled: 0, window: Ghost(Seq::empty()) }
    }

    /// A monitor over the default number of samples with none recorded yet.
    pub fn new() -> (r: Grill)
        ensures
            r.wf(),
            r@ == empty_history(DEFAULT_CAPACITY as nat),
    {
        Grill::with_capacity(DEFAULT_CAPACITY)
    }

    /// How many samples the average covers.
    pub fn capacity(&self) -> (r: usize)
        requires
            self.wf(),
        ensures
            r == self@.capacity,
    {
        self.slots.len()
    }

    /// Adds a sample, overwriting the oldest one once all slots are taken.
    pub fn record(&mut self, sample: i32)
        requires
            old(self).wf(),
        ensures
            final(self).wf(),
            final(self)@ == record_spec(old(self)@, sample),
    {
        let cap = self.slots.len();
        let ghost old_window = self.window@;
        let ghost old_oldest = self.oldest();
        let ghost old_slots = self.slots@;
        let pos = self.next;
        self.slots.set(pos, sample);
        self.next = if pos + 1 == cap {
            0
        } else {
            pos + 1
        };
        if self.filled < cap {
            self.filled = self.filled + 1;
            self.window = Ghost(old_window.push(sample));
            assert forall|j: int| 0 <= j < self.filled implies #[trigger] self.window@[j]
                == self.slots@[ring_index(self.oldest(), j, cap as int)] by {
                if j < old_window.len() {
                    assert(old_window[j] == old_slots[ring_index(old_oldest, j, cap as int)]);
                }
            }
        } else {
            self.window = Ghost(old_window.push(sample).drop_first());
            assert forall|j: int| 0 <= j < self.filled implies #[trigger] self.window@[j]
                == self.slots@[ring_index(self.oldest(), j, cap as int)] by {
                if j + 1 < cap {
                    assert(old_window[j + 1] == old_slots[ring_index(
                        old_oldest,
                        j + 1,
                        cap as int,
                    )]);
                }
            }
        }
    }

    /// All slots have been written at least once since construction.
    pub fn is_ready(&self) -> (r: bool)
        requires
            self.wf(),
        ensures
            r == ready_spec(self@),
    {
        self.filled == self.slots.len()
    }

    /// Sum of the window, taken oldest first.
    fn window_sum(&self) -> (r: i128)
        requires
            self.wf(),
            ready_spec(self@),
        ensures
            r == sum_of(self@.window),
            r >= self@.capacity * (i32::MIN as int),
            r <= self@.capacity * (i32::MAX as int),
    {
        let cap = self.slots.len();
        let mut total: i128 = 0;
        let mut j: usize = 0;
        while j < cap
            invariant
                self.wf(),
                cap == self.slots@.len(),
                self.filled == cap,
                j <= cap,
                total == sum_of(self.window@.subrange(0, j as int)),
                total >= j * (i32::MIN as int),
                total <= j * (i32::MAX as int),
            decreases cap - j,
        {
            let idx = if j < cap - self.next {
                self.next + j
            } else {
                j - (cap - self.next)
            };
            assert(self.window@[j as int] == self.slots@[idx as int]);
            assert(self.window@.subrange(0, j + 1).drop_last() =~= self.window@.subrange(
                0,
                j as int,
            ));
            total = total + self.slots[idx] as i128;
            j = j + 1;
        }
        assert(self.window@.subrange(0, cap as int) =~= self.window@);
        total
    }

    /// Mean of the recorded window, rounded down to a whole hundredth of a degree. Only
    /// defined once every slot has been written.
    pub fn average_temperature(&self) -> (r: i32)
        requires
            self.wf(),
            ready_spec(self@),
        ensures
            r == average_spec(self@),
    {
        let total = self.window_sum();
        let cap = self.slots.len();
        proof {
            lemma_floor_mean_bounds(total as int, cap as int);
        }
        if total >= 0 {
            let q = (total as u128) / (cap as u128);
            q as i32
        } else {
            let q = ((-total) as u128 + (cap as u128) - 1) / (cap as u128);
            proof {
                lemma_floor_neg(total as int, cap as int, q as int);
            }
            (-(q as i128)) as i32
        }
    }

    /// Whether the average has reached the safety limit; only defined once every slot has
    /// been written.
    pub fn grill_too_hot(&self) -> (r: bool)
        requires
            self.wf(),
            ready_spec(self@),
        ensures
            r == (average_spec(self@) >= MAX_TEMPERATURE),
    {
        self.average_temperature() >= MAX_TEMPERATURE
    }

    /// Trigger when the history is complete, its average reaches the limit and nobody is
    /// present; presence always suppresses the alarm.
    pub fn should_alarm(&self, presence: bool) -> (r: AlarmDecision)
        requires
            self.wf(),
        ensures
            r == alarm_spec(self@, presence),
    {
        if self.is_ready() && self.grill_too_hot() && !presence {
            AlarmDecision::Trigger
        } else {
            AlarmDecision::NoTrigger
        }
    }
}

proof fn lemma_floor_mean_bounds(total: int, cap: int)
    requires
        cap > 0,
        total >= cap * (i32::MIN as int),
        total <= cap * (i32::MAX as int),
    ensures
        i32::MIN <= total / cap <= i32::MAX,
{
    assert(i32::MIN <= total / cap <= i32::MAX) by (nonlinear_arith)
        requires
            cap > 0,
            total >= cap * (i32::MIN as int),
            total <= cap * (i32::MAX as int),
    ;
}

proof fn lemma_floor_neg(total: int, cap: int, q: int)
    requires
        cap > 0,
        total < 0,
        q == (-total + cap - 1) / cap,
    ensures
        -q == total / cap,
{
    assert(-q == total / cap) by (nonlinear_arith)
        requires
            cap > 0,
            total < 0,
            q == (-total + cap - 1) / cap,
    ;
}

/// From construction, the window holds the most recent `capacity` samples in the order
/// they came (all of them while fewer came); the monitor is ready exactly once `capacity`
/// samples have been recorded, and its average is then the mean of the most recent ones.
pub proof fn lemma_history_after_records(capacity: nat, samples: Seq<i32>)
    requires
        capacity > 0,
    ensures
        record_all(empty_history(capacity), samples).capacity == capacity,
        record_all(empty_history(capacity), samples).window == if samples.len() <= capacity {
            samples
        } else {
            samples.subrange(samples.len() - capacity, samples.len() as int)
        },
        ready_spec(record_all(empty_history(capacity), samples)) <==> samples.len() >= capacity,
        samples.len() >= capacity ==> average_spec(record_all(empty_history(capacity), samples))
            == sum_of(samples.subrange(samples.len() - capacity, samples.len() as int))
            / (capacity as int),
    decreases samples.len(),
{
    let n = samples.len() as int;
    let h = record_all(empty_history(capacity), samples);
    if n > 0 {
        let prev = samples.drop_last();
        lemma_history_after_records(capacity, prev);
        if n <= capacity {
            assert(h.window =~= samples);
        } else {
            assert(h.window =~= samples.subrange(n - capacity, n));
        }
    }
    if n >= capacity {
        assert(samples.subrange(n - capacity, n) =~= h.window);
    }
}

/// Once ready, a monitor stays ready whatever it records next.
pub proof fn lemma_ready_stays_ready(h: History, sample: i32)
    requires
        ready_spec(h),
    ensures
        ready_spec(record_spec(h, sample)),
{
}

/// With a complete history, an average at or above the limit raises the alarm when
/// nobody is present; presence always suppresses it, and so does an average below the
/// limit.
pub proof fn lemma_alarm_gating(h: History)
    requires
        ready_spec(h),
    ensures
        average_spec(h) >= MAX_TEMPERATURE ==> alarm_spec(h, false) == AlarmDecision::Trigger,
        alarm_spec(h, true) == AlarmDecision::NoTrigger,
        average_spec(h) < MAX_TEMPERATURE ==> alarm_spec(h, false) == AlarmDecision::NoTrigger,
{
}

} // verus!
