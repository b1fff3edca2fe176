use vstd::prelude::*;

use core::time::Duration;
use hdrhistogram::Histogram;
use std::time::SystemTime;

use crate::text::{
    after_first, all_digits, chars_of, copy_range, decimal, decimal_round_trip, find_char,
    is_space, lemma_first_of_none, lemma_first_of_unique, lemma_trim_end_space_then_solid,
    parse_u64, parse_unsigned, push_decimal, string_from_chars, trim_end, trim_end_bound,
};

verus! {

/// A latency histogram (`hdrhistogram::Histogram<u64>`), held opaque: Verus cannot read the
/// outside type's declaration, so it is known only through the names and wrappers below.
#[verifier::external_body]
pub struct LatencyHistogram {
    pub inner: Histogram<u64>,
}

#[verifier::external_type_specification]
#[verifier::external_body]
pub struct ExSystemTime(SystemTime);

/// How many samples a histogram has counted (`Histogram::len`).
pub uninterp spec fn recorded_count(h: LatencyHistogram) -> u64;

/// The bounds a histogram was made with: the lowest discernible value, the highest
/// trackable value and the significant decimal digits (`Histogram::low`, `high`, `sigfig`).
pub uninterp spec fn histogram_bounds(h: LatencyHistogram) -> (u64, u64, u8);

/// The per-bucket sample counts of a histogram (its `counts` field, in index order).
pub uninterp spec fn bucket_counts(h: LatencyHistogram) -> Seq<u64>;

/// The bucket that a histogram counts value `v` in (its private `index_for`).
pub uninterp spec fn bucket_of(h: LatencyHistogram, v: u64) -> int;

/// The highest value a histogram tracks.
pub open spec fn trackable_max(h: LatencyHistogram) -> u64 {
    histogram_bounds(h).1
}

/// A count plus one, stopping at `u64::MAX`.
pub open spec fn sat_inc(c: u64) -> u64 {
    if c < u64::MAX {
        (c + 1) as u64
    } else {
        c
    }
}

/// The counts after one more sample in bucket `i`.
pub open spec fn bump(counts: Seq<u64>, i: int) -> Seq<u64> {
    counts.update(i, sat_inc(counts[i]))
}

/// The counts after recording `samples` in order, each in its bucket under `h`'s layout.
pub open spec fn counts_after(counts: Seq<u64>, h: LatencyHistogram, samples: Seq<u64>) -> Seq<
    u64,
>
    decreases samples.len(),
{
    if samples.len() == 0 {
        counts
    } else {
        bump(counts_after(counts, h, samples.drop_last()), bucket_of(h, samples.last()))
    }
}

/// The largest latency the load driver keeps, in microseconds (one hour).
pub const LATENCY_CAP_MICROS: u64 = 3_600_000_000;

/// The largest latency the lock-across-await benchmark keeps, in microseconds (one minute).
pub const BENCH_CAP_MICROS: u64 = 60_000_000;

/// A reader hands its samples over once it holds this many.
pub const FLUSH_AT: usize = 8;

/// `Histogram::<u64>::new_with_bounds(1, high, 3)`. Its source accepts these bounds whenever
/// `high >= 2`, keeps them as given, and starts with every bucket count and the total at 0.
#[verifier::external_body]
fn histogram_up_to(high: u64) -> (r: Option<LatencyHistogram>)
    ensures
        high >= 2 ==> r is Some,
        r matches Some(h) ==> recorded_count(h) == 0 && histogram_bounds(h) == (1u64, high, 3u8)
            && forall|i: int| 0 <= i < bucket_counts(h).len() ==> #[trigger] bucket_counts(h)[i]
            == 0,
{
    match Histogram::<u64>::new_with_bounds(1, high, 3) {
        Ok(h) => Some(LatencyHistogram { inner: h }),
        Err(_) => None,
    }
}

/// `Histogram::record`. Its source fails only for a value above the highest trackable
/// value, and then changes nothing; a success adds one to the total (saturating). A value
/// within range lands in a bucket of the histogram, whose count goes up by one (saturating),
/// and neither the bounds nor the layout of buckets change.
#[verifier::external_body]
fn record_value(h: &mut LatencyHistogram, v: u64) -> (ok: bool)
    ensures
        v <= trackable_max(*old(h)) ==> {
            &&& ok
            &&& histogram_bounds(*final(h)) == histogram_bounds(*old(h))
            &&& 0 <= bucket_of(*old(h), v) < bucket_counts(*old(h)).len()
            &&& bucket_counts(*final(h)) == bump(bucket_counts(*old(h)), bucket_of(*old(h), v))
            &&& forall|x: u64| #[trigger] bucket_of(*final(h), x) == bucket_of(*old(h), x)
        },
        ok ==> recorded_count(*final(h)) as nat == count_after(recorded_count(*old(h)) as nat, 1),
        !ok ==> *final(h) == *old(h),
{
    match h.inner.record(v) {
        Ok(()) => true,
        Err(_) => false,
    }
}

/// `SystemTime::now`. Nothing is stated of the reading.
#[verifier::external_body]
fn clock_now() -> SystemTime {
    SystemTime::now()
}

/// `SystemTime::duration_since(UNIX_EPOCH)`: `None` when the reading is before the epoch.
/// Nothing is stated of the duration.
#[verifier::external_body]
fn since_epoch(t: &SystemTime) -> Option<Duration> {
    match t.duration_since(std::time::UNIX_EPOCH) {
        Ok(d) => Some(d),
        Err(_) => None,
    }
}

/// `Duration::as_micros`. Nothing is stated of the count.
#[verifier::external_body]
fn whole_micros(d: &Duration) -> u128 {
    d.as_micros()
}

/// The microseconds reported for a clock reading of `reading` whole microseconds since the
/// Unix epoch (`None`: before the epoch): the count cut to its low 64 bits, or 0.
pub open spec fn micros_value(reading: Option<u128>) -> u64 {
    match reading {
        Some(x) => (x % 0x1_0000_0000_0000_0000) as u64,
        None => 0,
    }
}

/// The microseconds to report for a clock reading: see `micros_value`.
pub fn micros_from(reading: Option<u128>) -> (m: u64)
    ensures
        m == micros_value(reading),
{
    match reading {
        Some(x) => {
            let low = x % 0x1_0000_0000_0000_0000;
            assert(low < 0x1_0000_0000_0000_0000);
            low as u64
        },
        None => 0,
    }
}

/// Microseconds since the Unix epoch, cut to 64 bits; 0 if the clock reads before the epoch.
/// Nothing is stated of the value: it is the clock's reading, put through `micros_from`.
pub fn now_micros() -> u64 {
    let reading = match since_epoch(&clock_now()) {
        Some(d) => Some(whole_micros(&d)),
        None => None,
    };
    micros_from(reading)
}

/// The text of a probe: `<client>:<seq>:<send micros>` and a newline.
pub open spec fn probe_text(client: nat, seq: nat, micros: nat) -> Seq<char> {
    decimal(client) + seq![':'] + decimal(seq) + seq![':'] + decimal(micros) + seq!['\n']
}

/// The send time that a received probe line carries: trailing white space is cut, the part
/// after the second `:` is read as a decimal `u64`.
pub open spec fn sent_micros(line: Seq<char>) -> Option<nat> {
    match after_first(trim_end(line), ':') {
        Some(r1) => match after_first(r1, ':') {
            Some(r2) => parse_unsigned(r2, u64::MAX as nat),
            None => None,
        },
        None => None,
    }
}

/// `l` cut to at most `cap`.
pub open spec fn capped(l: nat, cap: nat) -> nat {
    if l <= cap {
        l
    } else {
        cap
    }
}

/// The latency of a probe sent at `send` and received at `recv`, in microseconds: no less
/// than 0 and no more than `cap`.
pub open spec fn clamped_latency(recv: nat, send: nat, cap: nat) -> nat {
    capped(
        if recv >= send {
            (recv - send) as nat
        } else {
            0
        },
        cap,
    )
}

/// The probe that client `client` sends as its `seq`-th message at time `micros`.
pub fn probe_message(client: u32, seq: u32, micros: u64) -> (s: String)
    ensures
        s@ == probe_text(client as nat, seq as nat, micros as nat),
{
    let mut v: Vec<char> = Vec::new();
    push_decimal(client as u64, &mut v);
    v.push(':');
    push_decimal(seq as u64, &mut v);
    v.push(':');
    push_decimal(micros, &mut v);
    v.push('\n');
    assert(v@ =~= probe_text(client as nat, seq as nat, micros as nat));
    string_from_chars(&v)
}

/// Reads the send time out of a received probe line.
pub fn probe_sent_micros(line: &str) -> (r: Option<u64>)
    ensures
        match r {
            Some(m) => sent_micros(line@) == Some(m as nat),
            None => sent_micros(line@) is None,
        },
{
    let v = chars_of(line);
    let e = trim_end_bound(&v);
    let ghost t = trim_end(line@);
    let k1 = find_char(&v, 0, e, ':');
    if k1 == e {
        proof {
            assert forall|j: int| 0 <= j < t.len() implies t[j] != ':' by {
                assert(t[j] == v@[j]);
            }
            lemma_first_of_none(t, ':');
        }
        return None;
    }
    let ghost r1 = t.subrange(k1 + 1, t.len() as int);
    proof {
        assert forall|j: int| 0 <= j < k1 implies t[j] != ':' by {
            assert(t[j] == v@[j]);
        }
        lemma_first_of_unique(t, ':', k1 as int);
        assert(after_first(t, ':') == Some(r1));
    }
    let k2 = find_char(&v, k1 + 1, e, ':');
    if k2 == e {
        proof {
            assert forall|j: int| 0 <= j < r1.len() implies r1[j] != ':' by {
                assert(r1[j] == v@[j + k1 + 1]);
            }
            lemma_first_of_none(r1, ':');
        }
        return None;
    }
    proof {
        let i = k2 - k1 - 1;
        assert forall|j: int| 0 <= j < i implies r1[j] != ':' by {
            assert(r1[j] == v@[j + k1 + 1]);
        }
        assert(r1[i] == v@[k2 as int]);
        lemma_first_of_unique(r1, ':', i);
        assert(r1.subrange(i + 1, r1.len() as int) == v@.subrange(k2 + 1, e as int));
    }
    let field = copy_range(&v, k2 + 1, e);
    parse_u64(&field)
}

/// The latency of a probe sent at `send_us` and received at `recv_us`, in microseconds, cut
/// to at most `cap`.
pub fn latency_sample(recv_us: u64, send_us: u64, cap: u64) -> (l: u64)
    ensures
        l as nat == clamped_latency(recv_us as nat, send_us as nat, cap as nat),
{
    let d = recv_us.saturating_sub(send_us);
    if d <= cap {
        d
    } else {
        cap
    }
}

proof fn lemma_decimal_no_colon(n: nat)
    ensures
        forall|j: int| 0 <= j < decimal(n).len() ==> decimal(n)[j] != ':',
        decimal(n).len() > 0,
        !is_space(decimal(n).last()),
{
    crate::text::lemma_decimal_digits(n);
    let d = decimal(n);
    assert(all_digits(d));
    assert forall|j: int| 0 <= j < d.len() implies d[j] != ':' by {
        assert(crate::text::is_digit(d[j]));
    }
    assert(crate::text::is_digit(d[d.len() - 1]));
}

/// A probe read back gives the time it was sent at.
pub proof fn probe_round_trip(client: nat, seq: nat, micros: nat)
    requires
        micros <= u64::MAX,
    ensures
        sent_micros(probe_text(client, seq, micros)) == Some(micros),
{
    lemma_decimal_no_colon(client);
    lemma_decimal_no_colon(seq);
    lemma_decimal_no_colon(micros);
    let a = decimal(client);
    let b = decimal(seq);
    let c = decimal(micros);
    let body = a + seq![':'] + b + seq![':'] + c;
    assert(probe_text(client, seq, micros) == body.push('\n'));
    assert(body.last() == c.last());
    lemma_trim_end_space_then_solid(body, '\n');
    let k1 = a.len() as int;
    assert forall|j: int| 0 <= j < k1 implies body[j] != ':' by {
        assert(body[j] == a[j]);
    }
    lemma_first_of_unique(body, ':', k1);
    let r1 = body.subrange(k1 + 1, body.len() as int);
    assert(r1 =~= b + seq![':'] + c);
    let k2 = b.len() as int;
    assert forall|j: int| 0 <= j < k2 implies r1[j] != ':' by {
        assert(r1[j] == b[j]);
    }
    lemma_first_of_unique(r1, ':', k2);
    assert(r1.subrange(k2 + 1, r1.len() as int) =~= c);
    decimal_round_trip(micros, u64::MAX as nat);
}

/// A histogram for latencies of up to `high` microseconds, with bounds (1, `high`) and three
/// significant digits, and no samples yet.
pub fn new_latency_histogram(high: u64) -> (h: LatencyHistogram)
    requires
        high >= 2,
    ensures
        recorded_count(h) == 0,
        histogram_bounds(h) == (1u64, high, 3u8),
        forall|i: int| 0 <= i < bucket_counts(h).len() ==> #[trigger] bucket_counts(h)[i] == 0,
{
    match histogram_up_to(high) {
        Some(h) => h,
        None => vstd::pervasive::unreached(),
    }
}

/// Latency samples that a task holds before handing them to a shared histogram; every
/// sample is cut to the batch's cap.
pub struct LatencyBatch {
    samples: Vec<u64>,
    cap: u64,
}

impl View for LatencyBatch {
    /// The samples held, in the order they came, and the cap.
    type V = (Seq<u64>, u64);

    closed spec fn view(&self) -> (Seq<u64>, u64) {
        (self.samples@, self.cap)
    }
}

/// The count after `n` more samples, as the histogram keeps it (it stops at `u64::MAX`).
pub open spec fn count_after(count: nat, n: nat) -> nat {
    if count + n <= u64::MAX {
        count + n
    } else {
        u64::MAX as nat
    }
}

/// What a reader does with a line it received.
pub enum Observation {
    /// Not a probe: the line is skipped.
    NotProbe,
    /// A probe received before the measurement window: not counted.
    BeforeWindow,
    /// A probe counted and its latency batched; `flush_due` says the batch is now to be
    /// handed over.
    Counted { flush_due: bool },
}

impl LatencyBatch {
    #[verifier::type_invariant]
    spec fn within_cap(self) -> bool {
        forall|i: int| 0 <= i < self.samples@.len() ==> self.samples@[i] <= self.cap
    }

    /// A batch with no samples whose samples are cut to at most `cap`.
    pub fn new(cap: u64) -> (b: LatencyBatch)
        ensures
            b@ == (Seq::<u64>::empty(), cap),
    {
        LatencyBatch { samples: Vec::new(), cap }
    }

    /// The number of samples held.
    pub fn len(&self) -> (n: usize)
        ensures
            n == self@.0.len(),
    {
        self.samples.len()
    }

    fn push_capped(&mut self, l: u64) -> (due: bool)
        requires
            l <= old(self)@.1,
        ensures
            final(self)@ == (old(self)@.0.push(l), old(self)@.1),
            due == (final(self)@.0.len() >= FLUSH_AT),
    {
        proof {
            use_type_invariant(&*self);
        }
        let mut samples: Vec<u64> = Vec::new();
        std::mem::swap(&mut samples, &mut self.samples);
        samples.push(l);
        self.samples = samples;
        self.samples.len() >= FLUSH_AT
    }

    /// Adds the latency of a probe sent at `send_us` and received at `recv_us`; says whether
    /// the batch is now due to be handed over.
    pub fn add(&mut self, recv_us: u64, send_us: u64) -> (due: bool)
        ensures
            final(self)@ == (
                old(self)@.0.push(
                    clamped_latency(recv_us as nat, send_us as nat, old(self)@.1 as nat) as u64,
                ),
                old(self)@.1,
            ),
            due == (final(self)@.0.len() >= FLUSH_AT),
    {
        let l = latency_sample(recv_us, send_us, self.cap);
        self.push_capped(l)
    }

    /// Adds a measured latency of `l` microseconds, cut to the cap; says whether the batch is
    /// now due to be handed over.
    pub fn add_elapsed(&mut self, l: u64) -> (due: bool)
        ensures
            final(self)@ == (old(self)@.0.push(capped(l as nat, old(self)@.1 as nat) as u64), old(
                self,
            )@.1),
            due == (final(self)@.0.len() >= FLUSH_AT),
    {
        let c = if l <= self.cap {
            l
        } else {
            self.cap
        };
        self.push_capped(c)
    }

    /// Takes in a line a reader received at `recv_us`: a line that is not a probe is skipped;
    /// a probe inside the measurement window is counted and its latency batched; one before
    /// the window is left out.
    pub fn observe(&mut self, line: &str, recv_us: u64, in_window: bool) -> (o: Observation)
        ensures
            match sent_micros(line@) {
                None => o is NotProbe && final(self)@ == old(self)@,
                Some(send) => if in_window {
                    &&& final(self)@ == (
                        old(self)@.0.push(
                            clamped_latency(recv_us as nat, send, old(self)@.1 as nat) as u64,
                        ),
                        old(self)@.1,
                    )
                    &&& o == Observation::Counted {
                        flush_due: final(self)@.0.len() >= FLUSH_AT,
                    }
                } else {
                    o is BeforeWindow && final(self)@ == old(self)@
                },
            },
    {
        match probe_sent_micros(line) {
            None => Observation::NotProbe,
            Some(send_us) => {
                if in_window {
                    let due = self.add(recv_us, send_us);
                    Observation::Counted { flush_due: due }
                } else {
                    Observation::BeforeWindow
                }
            },
        }
    }

    /// Records every sample held into `h`, in order, and empties the batch: each sample's
    /// bucket count goes up by one and the total by the number of samples (both stopping at
    /// `u64::MAX`); the bounds and the layout of buckets stay.
    pub fn flush_into(&mut self, h: &mut LatencyHistogram)
        requires
            trackable_max(*old(h)) >= old(self)@.1,
        ensures
            final(self)@ == (Seq::<u64>::empty(), old(self)@.1),
            histogram_bounds(*final(h)) == histogram_bounds(*old(h)),
            forall|x: u64| #[trigger] bucket_of(*final(h), x) == bucket_of(*old(h), x),
            bucket_counts(*final(h)) == counts_after(
                bucket_counts(*old(h)),
                *old(h),
                old(self)@.0,
            ),
            recorded_count(*final(h)) as nat == count_after(
                recorded_count(*old(h)) as nat,
                old(self)@.0.len(),
            ),
    {
        proof {
            use_type_invariant(&*self);
        }
        let mut samples: Vec<u64> = Vec::new();
        std::mem::swap(&mut samples, &mut self.samples);
        let cap = self.cap;
        let ghost start = recorded_count(*h) as nat;
        let ghost h0 = *h;
        let mut i: usize = 0;
        while i < samples.len()
            invariant
                i <= samples@.len(),
                samples@ == old(self)@.0,
                cap == old(self)@.1,
                h0 == *old(h),
                forall|j: int| 0 <= j < samples@.len() ==> samples@[j] <= cap,
                histogram_bounds(*h) == histogram_bounds(h0),
                forall|x: u64| #[trigger] bucket_of(*h, x) == bucket_of(h0, x),
                trackable_max(h0) >= cap,
                start == recorded_count(h0) as nat,
                recorded_count(*h) as nat == count_after(start, i as nat),
                bucket_counts(*h) == counts_after(
                    bucket_counts(h0),
                    h0,
                    samples@.take(i as int),
                ),
            decreases samples@.len() - i,
        {
            let ghost before = *h;
            let v = samples[i];
            let _ = record_value(h, v);
            proof {
                let t = samples@.take(i + 1);
                assert(t.drop_last() == samples@.take(i as int));
                assert(t.last() == v);
                assert(bucket_of(before, v) == bucket_of(h0, v));
            }
            i = i + 1;
        }
        assert(samples@.take(samples@.len() as int) == samples@);
    }
}

/// Which of `n` subscribers are slow: the first `slow_count`.
pub fn slow_flags(n: usize, slow_count: usize) -> (v: Vec<bool>)
    ensures
        v@.len() == n,
        forall|i: int| 0 <= i < n ==> v@[i] == (i < slow_count),
{
    let mut v: Vec<bool> = Vec::new();
    let mut i: usize = 0;
    while i < n
        invariant
            i <= n,
            v@.len() == i,
            forall|j: int| 0 <= j < i ==> v@[j] == (j < slow_count),
        decreases n - i,
    {
        v.push(i < slow_count);
        i = i + 1;
    }
    v
}

} // verus!
