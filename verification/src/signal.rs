use std::collections::VecDeque;
use vstd::prelude::*;

verus! {

/// Number of bytes in one distance record of a datagram; the last byte of
/// each record is its coarse time of flight.
pub const DISTANCE_RECORD_SIZE: usize = 5;

/// Number of distances the live waveform keeps.
pub const WAVEFORM_CAPACITY: usize = 512;

/// Number of bars in the distance histogram.
pub const HISTOGRAM_BIN_COUNT: usize = 20;

/// The histogram bar of a time of flight.  Its distance is `tof * 0.375`
/// (that is `3 * tof / 8`) and the bars are 5 wide, so the bar is
/// `floor(3 * tof / 40)`; for a `u8` this is always below 20.
pub open spec fn spec_bin_index(tof: u8) -> int {
    (3 * tof as int) / 40
}

/// The times of flight of a datagram: the last byte of each complete
/// five-byte record, in order (an incomplete tail is ignored).
pub open spec fn record_tofs(bytes: Seq<u8>) -> Seq<u8> {
    Seq::new(
        bytes.len() / (DISTANCE_RECORD_SIZE as nat),
        |i: int| bytes[DISTANCE_RECORD_SIZE * i + 4],
    )
}

/// The waveform after a history of times of flight: the latest (at most
/// 512) of them, each with its position in the history.
pub open spec fn waveform_of(history: Seq<u8>) -> Seq<(u64, u8)> {
    let n = if history.len() > WAVEFORM_CAPACITY {
        WAVEFORM_CAPACITY as int
    } else {
        history.len() as int
    };
    let start = history.len() - n;
    Seq::new(n as nat, |k: int| ((start + k) as u64, history[start + k]))
}

/// The histogram after a history of times of flight: bar `b` counts the
/// records whose bar is `b`.
pub open spec fn histogram_of(history: Seq<u8>) -> Seq<u64>
    decreases history.len(),
{
    if history.len() == 0 {
        Seq::new(HISTOGRAM_BIN_COUNT as nat, |b: int| 0u64)
    } else {
        let prev = histogram_of(history.drop_last());
        let b = spec_bin_index(history.last());
        prev.update(b, (prev[b] + 1) as u64)
    }
}

/// The sum of a sequence of counts.
pub open spec fn seq_sum(s: Seq<u64>) -> int
    decreases s.len(),
{
    if s.len() == 0 {
        0
    } else {
        seq_sum(s.drop_last()) + s.last()
    }
}

/// Live statistics of the measured distances: the latest distances for the
/// waveform, a running count, and the histogram.
pub struct SignalStats {
    waveform: VecDeque<(u64, u8)>,
    counter: u64,
    histogram: Vec<u64>,
    history: Ghost<Seq<u8>>,
}

impl SignalStats {
    /// Every time of flight recorded so far, in order.
    pub closed spec fn history(&self) -> Seq<u8> {
        self.history@
    }

    /// The statistics are those of their history.
    pub closed spec fn wf(&self) -> bool {
        &&& self.history@.len() <= u64::MAX
        &&& self.counter as int == self.history@.len()
        &&& self.waveform@ == waveform_of(self.history@)
        &&& self.histogram@ == histogram_of(self.history@)
    }

    /// Empty statistics.
    pub fn new() -> (r: SignalStats)
        ensures
            r.wf(),
            r.history() == Seq::<u8>::empty(),
    {
        let mut histogram: Vec<u64> = Vec::new();
        let mut b: usize = 0;
        while b < HISTOGRAM_BIN_COUNT
            invariant
                b <= HISTOGRAM_BIN_COUNT,
                histogram@ == Seq::new(b as nat, |i: int| 0u64),
            decreases HISTOGRAM_BIN_COUNT - b,
        {
            histogram.push(0);
            b = b + 1;
        }
        let r = SignalStats {
            waveform: VecDeque::new(),
            counter: 0,
            histogram,
            history: Ghost(Seq::empty()),
        };
        assert(r.waveform@ =~= waveform_of(Seq::<u8>::empty()));
        assert(r.histogram@ =~= histogram_of(Seq::<u8>::empty()));
        r
    }

    /// Number of records seen so far.
    pub fn counter(&self) -> (r: u64)
        requires
            self.wf(),
        ensures
            r == self.history().len(),
    {
        self.counter
    }

    /// The latest distances with their positions in the history.
    pub fn waveform(&self) -> (r: &VecDeque<(u64, u8)>)
        requires
            self.wf(),
        ensures
            r@ == waveform_of(self.history()),
    {
        &self.waveform
    }

    /// The counts of the histogram's bars.
    pub fn histogram(&self) -> (r: &Vec<u64>)
        requires
            self.wf(),
        ensures
            r@ == histogram_of(self.history()),
    {
        &self.histogram
    }

    fn record_one(&mut self, tof: u8)
        requires
            old(self).wf(),
            old(self).history().len() < u64::MAX,
        ensures
            final(self).wf(),
            final(self).history() == old(self).history().push(tof),
    {
        let ghost h0 = self.history@;
        let ghost h1 = h0.push(tof);
        proof {
            lemma_histogram_shape(h0);
            lemma_histogram_bounded(h0, spec_bin_index(tof));
        }
        let b: usize = bin_index(tof);
        let c: u64 = self.histogram[b];
        self.histogram.set(b, c + 1);
        self.waveform.push_back((self.counter, tof));
        if self.waveform.len() > WAVEFORM_CAPACITY {
            self.waveform.pop_front();
        }
        self.counter = self.counter + 1;
        self.history = Ghost(h1);
        proof {
            assert(h1.drop_last() =~= h0);
            assert(self.histogram@ =~= histogram_of(h1));
            assert(self.waveform@ =~= waveform_of(h1));
        }
    }

    /// Records the distances of a datagram: the time of flight of each
    /// complete five-byte record goes into the waveform (which keeps the
    /// latest 512) and into the histogram.
    pub fn record_chunks(&mut self, bytes: &[u8])
        requires
            old(self).wf(),
            old(self).history().len() + bytes@.len() / (DISTANCE_RECORD_SIZE as nat) <= u64::MAX,
        ensures
            final(self).wf(),
            final(self).history() == old(self).history() + record_tofs(bytes@),
    {
        let ghost h0 = self.history@;
        let ghost tofs = record_tofs(bytes@);
        let mut i: usize = 0;
        let mut j: usize = 0;
        while bytes.len() - j >= DISTANCE_RECORD_SIZE
            invariant
                self.wf(),
                j == DISTANCE_RECORD_SIZE * i,
                j <= bytes@.len(),
                i <= tofs.len(),
                tofs == record_tofs(bytes@),
                h0.len() + tofs.len() <= u64::MAX,
                self.history() == h0 + tofs.subrange(0, i as int),
            decreases bytes@.len() - j,
        {
            assert(i < tofs.len()) by (nonlinear_arith)
                requires
                    j == 5 * i,
                    j + 5 <= bytes@.len(),
                    tofs.len() == bytes@.len() / 5,
            ;
            let tof: u8 = bytes[j + 4];
            assert(tof == tofs[i as int]);
            self.record_one(tof);
            assert(h0 + tofs.subrange(0, i + 1) =~= (h0 + tofs.subrange(0, i as int)).push(tof));
            i = i + 1;
            j = j + DISTANCE_RECORD_SIZE;
        }
        assert(i == tofs.len()) by (nonlinear_arith)
            requires
                j == 5 * i,
                j + 5 > bytes@.len(),
                j <= bytes@.len(),
                i <= tofs.len(),
                tofs.len() == bytes@.len() / 5,
        ;
        assert(tofs.subrange(0, i as int) =~= tofs);
    }
}

/// The histogram bar of a time of flight.
pub fn bin_index(tof: u8) -> (r: usize)
    ensures
        r == spec_bin_index(tof),
        r < HISTOGRAM_BIN_COUNT,
        40 * r <= 3 * tof < 40 * r + 40,
{
    let r: usize = (3 * (tof as usize)) / 40;
    r
}

proof fn lemma_histogram_shape(history: Seq<u8>)
    ensures
        histogram_of(history).len() == HISTOGRAM_BIN_COUNT,
    decreases history.len(),
{
    if history.len() > 0 {
        lemma_histogram_shape(history.drop_last());
    }
}

proof fn lemma_histogram_bounded(history: Seq<u8>, b: int)
    requires
        0 <= b < HISTOGRAM_BIN_COUNT,
    ensures
        histogram_of(history)[b] <= history.len(),
    decreases history.len(),
{
    if history.len() > 0 {
        lemma_histogram_shape(history.drop_last());
        lemma_histogram_bounded(history.drop_last(), b);
    }
}

proof fn lemma_sum_update(s: Seq<u64>, b: int, v: u64)
    requires
        0 <= b < s.len(),
    ensures
        seq_sum(s.update(b, v)) == seq_sum(s) - s[b] + v,
    decreases s.len(),
{
    if b < s.len() - 1 {
        lemma_sum_update(s.drop_last(), b, v);
        assert(s.update(b, v).drop_last() =~= s.drop_last().update(b, v));
    } else {
        assert(s.update(b, v).drop_last() =~= s.drop_last());
    }
}

proof fn lemma_sum_zeros(n: nat)
    ensures
        seq_sum(Seq::new(n, |b: int| 0u64)) == 0,
    decreases n,
{
    if n > 0 {
        lemma_sum_zeros((n - 1) as nat);
        assert(Seq::new(n, |b: int| 0u64).drop_last() =~= Seq::new((n - 1) as nat, |b: int| 0u64));
    }
}

/// Each record raises exactly one bar by one, the bar `b` with
/// `5 * b <= tof * 0.375 < 5 * b + 5` (that is `40 * b <= 3 * tof < 40 * b + 40`),
/// and leaves the other bars as they were; before any record every bar is 0.
pub proof fn lemma_record_raises_its_distance_bar(history: Seq<u8>, tof: u8, b: int)
    requires
        history.len() < u64::MAX,
        0 <= b < HISTOGRAM_BIN_COUNT,
    ensures
        histogram_of(Seq::empty())[b] == 0,
        histogram_of(history.push(tof)).len() == HISTOGRAM_BIN_COUNT,
        40 * b <= 3 * tof < 40 * b + 40 ==> histogram_of(history.push(tof))[b]
            == histogram_of(history)[b] + 1,
        !(40 * b <= 3 * tof < 40 * b + 40) ==> histogram_of(history.push(tof))[b]
            == histogram_of(history)[b],
{
    let h1 = history.push(tof);
    assert(h1.drop_last() =~= history);
    lemma_histogram_shape(history);
    lemma_histogram_shape(h1);
    lemma_histogram_bounded(history, b);
    let k = spec_bin_index(tof);
    assert(40 * k <= 3 * tof < 40 * k + 40);
    assert(40 * b <= 3 * tof < 40 * b + 40 <==> b == k);
}

/// Every record lands in one bar of the histogram: the bars of the
/// histogram of a history add up to the length of the history.
pub proof fn lemma_histogram_counts_every_record(history: Seq<u8>)
    requires
        history.len() <= u64::MAX,
    ensures
        seq_sum(histogram_of(history)) == history.len(),
    decreases history.len(),
{
    if history.len() == 0 {
        lemma_sum_zeros(HISTOGRAM_BIN_COUNT as nat);
    } else {
        let prev = history.drop_last();
        lemma_histogram_counts_every_record(prev);
        lemma_histogram_shape(prev);
        lemma_histogram_bounded(prev, spec_bin_index(history.last()));
        let b = spec_bin_index(history.last());
        lemma_sum_update(histogram_of(prev), b, (histogram_of(prev)[b] + 1) as u64);
    }
}

/// The waveform never holds more than 512 distances, and they are the
/// latest ones: consecutive positions that end with the last record.
pub proof fn lemma_waveform_is_latest_window(history: Seq<u8>)
    ensures
        waveform_of(history).len() <= WAVEFORM_CAPACITY,
        waveform_of(history).len() == if history.len() > WAVEFORM_CAPACITY {
            WAVEFORM_CAPACITY as int
        } else {
            history.len() as int
        },
        forall|k: int|
            0 <= k < waveform_of(history).len() ==> #[trigger] waveform_of(history)[k].1
                == history[history.len() - waveform_of(history).len() + k],
{
}

} // verus!
