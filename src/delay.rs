//! A bank of ring buffers, one per delay line, each read and written at a cursor
//! that advances modulo the line's delay time.
use vstd::arithmetic::div_mod::{lemma_mod_sub_multiples_vanish, lemma_small_mod};
use vstd::prelude::*;

verus! {

/// Capacity of every ring buffer, in samples: one second at 44.1 kHz.
pub const MAX_DELAY_LENGTH: usize = 44100;

/// Number of parallel delay lines.
pub const NUM_DELAYS: usize = 8;

/// Sample rate, in Hz, at which the base delay equals `MAX_DELAY_LENGTH`.
pub const REFERENCE_RATE_HZ: u64 = 44100;

/// Denominator of the delay ratios.
pub const RATIO_SCALE: u64 = 10000;

/// Ratio of line `i`'s delay to the base delay, over `RATIO_SCALE`.
/// The first four lines are early reflections, the last four the main reverb.
pub open spec fn ratio_spec(i: int) -> nat {
    if i == 0 {
        297
    } else if i == 1 {
        371
    } else if i == 2 {
        411
    } else if i == 3 {
        437
    } else if i == 4 {
        531
    } else if i == 5 {
        673
    } else if i == 6 {
        797
    } else {
        971
    }
}

/// Base delay for a sample rate: `MAX_DELAY_LENGTH` scaled by
/// `REFERENCE_RATE_HZ / rate`, rounded down.
pub open spec fn base_delay_spec(rate: nat) -> nat
    recommends
        rate > 0,
{
    (MAX_DELAY_LENGTH as nat * REFERENCE_RATE_HZ as nat) / rate
}

/// Delay time of line `i` at a sample rate, rounded down.
pub open spec fn delay_time_spec(rate: nat, i: int) -> nat {
    (base_delay_spec(rate) * ratio_spec(i)) / RATIO_SCALE as nat
}

/// A sample rate is supported when every line gets a delay time of at least one
/// sample and less than the buffer capacity.
pub open spec fn rate_supported(rate: nat) -> bool {
    &&& rate > 0
    &&& forall|i: int|
        0 <= i < NUM_DELAYS ==> 1 <= #[trigger] delay_time_spec(rate, i) < MAX_DELAY_LENGTH
}

/// The delay times of all lines at a sample rate.
pub open spec fn delay_times_spec(rate: nat) -> Seq<nat> {
    Seq::new(NUM_DELAYS as nat, |i: int| delay_time_spec(rate, i))
}

/// Ratio of line `i`'s delay to the base delay, over `RATIO_SCALE`.
pub fn delay_ratio(i: usize) -> (r: u64)
    requires
        i < NUM_DELAYS,
    ensures
        r == ratio_spec(i as int),
{
    match i {
        0 => 297,
        1 => 371,
        2 => 411,
        3 => 437,
        4 => 531,
        5 => 673,
        6 => 797,
        _ => 971,
    }
}

/// Base delay for a positive sample rate in Hz.
pub fn base_delay(sample_rate_hz: u32) -> (r: u64)
    requires
        sample_rate_hz > 0,
    ensures
        r == base_delay_spec(sample_rate_hz as nat),
        r <= MAX_DELAY_LENGTH * REFERENCE_RATE_HZ,
{
    let num: u64 = (MAX_DELAY_LENGTH as u64) * REFERENCE_RATE_HZ;
    assert(num / (sample_rate_hz as u64) <= num) by (nonlinear_arith)
        requires sample_rate_hz > 0, num >= 0;
    num / (sample_rate_hz as u64)
}

/// The delay time of every line at `sample_rate_hz`, or `None` where the rate
/// gives a line a delay time of zero or one that does not fit the buffers.
pub fn delay_times_for_rate(sample_rate_hz: u32) -> (r: Option<Vec<usize>>)
    ensures
        r.is_some() <==> rate_supported(sample_rate_hz as nat),
        r.is_some() ==> r.unwrap()@.map_values(|t: usize| t as nat) == delay_times_spec(
            sample_rate_hz as nat,
        ),
{
    if sample_rate_hz == 0 {
        return None;
    }
    let base = base_delay(sample_rate_hz);
    let mut times: Vec<usize> = Vec::new();
    let mut i: usize = 0;
    while i < NUM_DELAYS
        invariant
            0 <= i <= NUM_DELAYS,
            base == base_delay_spec(sample_rate_hz as nat),
            base <= MAX_DELAY_LENGTH * REFERENCE_RATE_HZ,
            times@.len() == i,
            forall|j: int| 0 <= j < i ==> #[trigger] times@[j] == delay_time_spec(sample_rate_hz as nat, j),
            forall|j: int| 0 <= j < i ==> 1 <= #[trigger] delay_time_spec(sample_rate_hz as nat, j) < MAX_DELAY_LENGTH,
        decreases NUM_DELAYS - i,
    {
        let ratio = delay_ratio(i);
        assert(base * ratio <= 1944810000u64 * 971) by (nonlinear_arith)
            requires base <= 1944810000u64, ratio <= 971;
        let t = base * ratio / RATIO_SCALE;
        assert(t == delay_time_spec(sample_rate_hz as nat, i as int));
        if t < 1 || t >= MAX_DELAY_LENGTH as u64 {
            assert(!rate_supported(sample_rate_hz as nat));
            return None;
        }
        times.push(t as usize);
        i = i + 1;
    }
    assert(times@.map_values(|t: usize| t as nat) =~= delay_times_spec(sample_rate_hz as nat));
    Some(times)
}

/// What a bank holds: the contents of each line's buffer, each line's delay
/// time, and each line's cursor.
pub ghost struct DelayBankView<T> {
    pub lines: Seq<Seq<T>>,
    pub times: Seq<nat>,
    pub cursors: Seq<nat>,
}

/// Every line has a full-capacity buffer and a cursor below its delay time,
/// which is at least one and below the capacity.
pub open spec fn bank_wf<T>(s: DelayBankView<T>) -> bool {
    &&& s.lines.len() == NUM_DELAYS
    &&& s.times.len() == NUM_DELAYS
    &&& s.cursors.len() == NUM_DELAYS
    &&& forall|l: int|
        0 <= l < NUM_DELAYS ==> {
            &&& (#[trigger] s.lines[l]).len() == MAX_DELAY_LENGTH
            &&& 0 <= s.cursors[l] < s.times[l] < MAX_DELAY_LENGTH
        }
}

/// The sample that line `l` reads at its cursor.
pub open spec fn tap<T>(s: DelayBankView<T>, l: int) -> T {
    s.lines[l][s.cursors[l] as int]
}

/// One step of line `l`: `v` is written at the cursor, which then advances
/// modulo the line's delay time. The other lines are unchanged.
pub open spec fn step<T>(s: DelayBankView<T>, l: int, v: T) -> DelayBankView<T> {
    DelayBankView {
        lines: s.lines.update(l, s.lines[l].update(s.cursors[l] as int, v)),
        times: s.times,
        cursors: s.cursors.update(l, (s.cursors[l] + 1) % s.times[l]),
    }
}

/// The steps of line `l` that write `vals`, in order.
pub open spec fn run<T>(s: DelayBankView<T>, l: int, vals: Seq<T>) -> DelayBankView<T>
    decreases vals.len(),
{
    if vals.len() == 0 {
        s
    } else {
        step(run(s, l, vals.drop_last()), l, vals.last())
    }
}

/// A bank just made at `rate`: every buffer holds `silence`, every cursor is 0,
/// and the delay times are those of the rate.
pub open spec fn fresh_bank<T>(rate: nat, silence: T) -> DelayBankView<T> {
    DelayBankView {
        lines: Seq::new(NUM_DELAYS as nat, |l: int| Seq::new(MAX_DELAY_LENGTH as nat, |k: int| silence)),
        times: delay_times_spec(rate),
        cursors: Seq::new(NUM_DELAYS as nat, |l: int| 0nat),
    }
}

/// `NUM_DELAYS` ring buffers of `MAX_DELAY_LENGTH` samples, each with its delay
/// time and cursor. The sample type is left open: the bank only stores and
/// hands back samples.
pub struct DelayBank<T> {
    buffers: Vec<Vec<T>>,
    times: Vec<usize>,
    positions: Vec<usize>,
}

impl<T> View for DelayBank<T> {
    type V = DelayBankView<T>;

    closed spec fn view(&self) -> DelayBankView<T> {
        DelayBankView {
            lines: Seq::new(self.buffers@.len(), |l: int| self.buffers@[l]@),
            times: self.times@.map_values(|t: usize| t as nat),
            cursors: self.positions@.map_values(|p: usize| p as nat),
        }
    }
}

/// A buffer of `MAX_DELAY_LENGTH` copies of `silence`.
fn silent_line<T: Copy>(silence: T) -> (r: Vec<T>)
    ensures
        r@ == Seq::new(MAX_DELAY_LENGTH as nat, |j: int| silence),
{
    let mut line: Vec<T> = Vec::new();
    let mut k: usize = 0;
    while k < MAX_DELAY_LENGTH
        invariant
            0 <= k <= MAX_DELAY_LENGTH,
            line@ == Seq::new(k as nat, |j: int| silence),
        decreases MAX_DELAY_LENGTH - k,
    {
        line.push(silence);
        k = k + 1;
        assert(line@ =~= Seq::new(k as nat, |j: int| silence));
    }
    line
}

impl<T: Copy> DelayBank<T> {
    pub open spec fn wf(&self) -> bool {
        bank_wf(self@)
    }

    /// A bank for `sample_rate_hz` with every buffer silent and every cursor at 0,
    /// or `None` where the rate is not supported.
    pub fn new(sample_rate_hz: u32, silence: T) -> (r: Option<Self>)
        ensures
            r.is_some() <==> rate_supported(sample_rate_hz as nat),
            r.is_some() ==> r.unwrap().wf(),
            r.is_some() ==> r.unwrap()@ == fresh_bank(sample_rate_hz as nat, silence),
    {
        let times = match delay_times_for_rate(sample_rate_hz) {
            Some(t) => t,
            None => return None,
        };
        let mut buffers: Vec<Vec<T>> = Vec::new();
        let mut positions: Vec<usize> = Vec::new();
        let mut l: usize = 0;
        while l < NUM_DELAYS
            invariant
                0 <= l <= NUM_DELAYS,
                buffers@.len() == l,
                positions@.len() == l,
                forall|j: int| 0 <= j < l ==> (#[trigger] buffers@[j])@ == Seq::new(MAX_DELAY_LENGTH as nat, |k: int| silence),
                forall|j: int| 0 <= j < l ==> #[trigger] positions@[j] == 0,
            decreases NUM_DELAYS - l,
        {
            buffers.push(silent_line(silence));
            positions.push(0);
            l = l + 1;
        }
        let r = DelayBank { buffers, times, positions };
        assert(r@.lines =~= fresh_bank(sample_rate_hz as nat, silence).lines);
        assert(r@.cursors =~= fresh_bank(sample_rate_hz as nat, silence).cursors);
        Some(r)
    }

    /// The sample that line `line` reads at its cursor.
    pub fn read(&self, line: usize) -> (r: T)
        requires
            self.wf(),
            line < NUM_DELAYS,
        ensures
            r == tap(self@, line as int),
    {
        assert(bank_wf(self@) && self@.lines[line as int].len() == MAX_DELAY_LENGTH);
        assert(self@.cursors[line as int] == self.positions@[line as int]);
        self.buffers[line][self.positions[line]]
    }

    /// Writes `v` at line `line`'s cursor and advances the cursor modulo the
    /// line's delay time.
    pub fn write_and_advance(&mut self, line: usize, v: T)
        requires
            old(self).wf(),
            line < NUM_DELAYS,
        ensures
            final(self).wf(),
            final(self)@ == step(old(self)@, line as int, v),
    {
        let ghost s0 = self@;
        assert(bank_wf(s0) && s0.lines[line as int].len() == MAX_DELAY_LENGTH);
        let pos = self.positions[line];
        let t = self.times[line];
        assert(pos == s0.cursors[line as int] && t == s0.times[line as int]);
        self.buffers[line][pos] = v;
        self.positions.set(line, (pos + 1) % t);
        let ghost s1 = step(s0, line as int, v);
        assert(self@.lines =~= s1.lines);
        assert(self@.times =~= s1.times);
        assert(self@.cursors =~= s1.cursors);
        assert forall|l: int| 0 <= l < NUM_DELAYS implies {
            &&& (#[trigger] s1.lines[l]).len() == MAX_DELAY_LENGTH
            &&& 0 <= s1.cursors[l] < s1.times[l] < MAX_DELAY_LENGTH
        } by {
            assert(s0.lines[l].len() == MAX_DELAY_LENGTH);
        }
    }

    /// Delay time of line `line`.
    pub fn delay_time(&self, line: usize) -> (r: usize)
        requires
            self.wf(),
            line < NUM_DELAYS,
        ensures
            r == self@.times[line as int],
    {
        self.times[line]
    }

    /// Cursor of line `line`.
    pub fn position(&self, line: usize) -> (r: usize)
        requires
            self.wf(),
            line < NUM_DELAYS,
        ensures
            r == self@.cursors[line as int],
    {
        self.positions[line]
    }
}

/// How far slot `j` lies after cursor `c` on a ring of length `t`.
pub open spec fn ring_offset(j: int, c: int, t: int) -> int {
    (j - c + t) % t
}

proof fn lemma_wrap(x: int, t: int)
    requires
        0 < t,
        0 <= x < 2 * t,
    ensures
        x % t == if x < t { x } else { x - t },
{
    if x < t {
        lemma_small_mod(x as nat, t as nat);
    } else {
        lemma_mod_sub_multiples_vanish(x, t);
        lemma_small_mod((x - t) as nat, t as nat);
    }
}

/// The slot `k` steps after cursor `c` lies at offset `k` from it.
proof fn lemma_offset_of_slot(c: int, k: int, t: int)
    requires
        0 <= c < t,
        0 <= k < t,
    ensures
        0 <= (c + k) % t < t,
        ring_offset((c + k) % t, c, t) == k,
{
    lemma_wrap(c + k, t);
    let p = (c + k) % t;
    lemma_wrap(p - c + t, t);
}

/// What `run` does to a bank, for at most one full turn of the ring.
proof fn lemma_run<T>(s: DelayBankView<T>, l: int, vals: Seq<T>)
    requires
        bank_wf(s),
        0 <= l < NUM_DELAYS,
        vals.len() <= s.times[l],
    ensures
        bank_wf(run(s, l, vals)),
        run(s, l, vals).times == s.times,
        run(s, l, vals).cursors[l] == ((s.cursors[l] + vals.len()) as int) % (s.times[l] as int),
        forall|m: int|
            0 <= m < NUM_DELAYS && m != l ==> #[trigger] run(s, l, vals).lines[m] == s.lines[m]
                && run(s, l, vals).cursors[m] == s.cursors[m],
        forall|k: int|
            0 <= k < vals.len() ==> #[trigger] run(s, l, vals).lines[l][(s.cursors[l] + k) % (
            s.times[l] as int)] == vals[k],
        forall|j: int|
            0 <= j < MAX_DELAY_LENGTH && (j >= s.times[l] || ring_offset(
                j,
                s.cursors[l] as int,
                s.times[l] as int,
            ) >= vals.len()) ==> #[trigger] run(s, l, vals).lines[l][j] == s.lines[l][j],
    decreases vals.len(),
{
    let c = s.cursors[l] as int;
    let t = s.times[l] as int;
    let n = vals.len() as int;
    assert(s.lines[l].len() == MAX_DELAY_LENGTH);
    lemma_small_mod(c as nat, t as nat);
    if n > 0 {
        let prev = vals.drop_last();
        lemma_run(s, l, prev);
        let r0 = run(s, l, prev);
        let r1 = run(s, l, vals);
        let p = (c + n - 1) % t;
        lemma_offset_of_slot(c, n - 1, t);
        assert(r1 == step(r0, l, vals[n - 1]));
        assert(r0.cursors[l] == p);
        assert(r0.lines[l].len() == MAX_DELAY_LENGTH);
        assert(r1.cursors[l] == (c + n) % t) by {
            lemma_wrap(p + 1, t);
            lemma_wrap(c + n - 1, t);
            if n < t {
                lemma_wrap(c + n, t);
            } else {
                lemma_wrap(c + n - t, t);
                lemma_mod_sub_multiples_vanish(c + n, t);
            }
        }
        assert forall|ll: int| 0 <= ll < NUM_DELAYS implies {
            &&& (#[trigger] r1.lines[ll]).len() == MAX_DELAY_LENGTH
            &&& 0 <= r1.cursors[ll] < r1.times[ll] < MAX_DELAY_LENGTH
        } by {
            assert(r0.lines[ll].len() == MAX_DELAY_LENGTH);
        }
        assert forall|k: int| 0 <= k < n implies #[trigger] r1.lines[l][(c + k) % t] == vals[k] by {
            lemma_offset_of_slot(c, k, t);
            if k < n - 1 {
                assert(prev[k] == vals[k]);
                assert(r0.lines[l][(c + k) % t] == prev[k]);
            }
        }
        assert forall|j: int|
            0 <= j < MAX_DELAY_LENGTH && (j >= t || ring_offset(j, c, t) >= n) implies #[trigger] r1.lines[l][j]
            == s.lines[l][j] by {
            assert(r0.lines[l][j] == s.lines[l][j]);
        }
    }
}

/// The echo of a write arrives after exactly the line's delay time: after
/// `vals.len()` steps of line `l`, with at most one delay time of them, the
/// cursor has moved by that many slots modulo the delay time. After fewer steps
/// than the delay time the line reads a slot that none of them wrote; after
/// exactly the delay time the cursor is back where it started and the line reads
/// the first value written.
pub proof fn lemma_echo_after_delay_time<T>(s: DelayBankView<T>, l: int, vals: Seq<T>)
    requires
        bank_wf(s),
        0 <= l < NUM_DELAYS,
        0 < vals.len() <= s.times[l],
    ensures
        bank_wf(run(s, l, vals)),
        run(s, l, vals).cursors[l] == ((s.cursors[l] + vals.len()) as int) % (s.times[l] as int),
        vals.len() < s.times[l] ==> tap(run(s, l, vals), l) == s.lines[l][((s.cursors[l]
            + vals.len()) as int) % (s.times[l] as int)],
        vals.len() == s.times[l] ==> run(s, l, vals).cursors[l] == s.cursors[l],
        vals.len() == s.times[l] ==> tap(run(s, l, vals), l) == vals[0],
{
    let c = s.cursors[l] as int;
    let t = s.times[l] as int;
    let n = vals.len() as int;
    assert(s.lines[l].len() == MAX_DELAY_LENGTH);
    lemma_run(s, l, vals);
    let r = run(s, l, vals);
    if n < t {
        lemma_offset_of_slot(c, n, t);
        assert(r.lines[l][(c + n) % t] == s.lines[l][(c + n) % t]);
    } else {
        lemma_wrap(c + t, t);
        lemma_small_mod(c as nat, t as nat);
        assert((c + 0) % t == c);
        assert(r.lines[l][(c + 0) % t] == vals[0]);
    }
}

/// Two banks made at the same sample rate with the same silence are identical,
/// delay times included.
pub proof fn lemma_same_rate_same_bank<T: Copy>(
    rate: nat,
    silence: T,
    a: DelayBank<T>,
    b: DelayBank<T>,
)
    requires
        a@ == fresh_bank(rate, silence),
        b@ == fresh_bank(rate, silence),
    ensures
        a@ == b@,
        a@.times == b@.times,
        a@.times == delay_times_spec(rate),
{
}

} // verus!
