//! The sample schedule of the two-grain pitch shifter: where each input sample
//! is written in the ring buffer, when the output is silent, where the fixed
//! delay reads, and when each grain restarts at the delay position.
//!
//! The samples themselves, the interpolation and the Hann window are the
//! caller's: this type holds positions and counters only.
use vstd::arithmetic::div_mod::{lemma_add_mod_noop, lemma_fundamental_div_mod, lemma_mod_add_multiples_vanish, lemma_mod_bound, lemma_mod_multiples_vanish, lemma_mod_self_0, lemma_small_mod};
use vstd::prelude::*;

verus! {

/// The grain length, in samples, for a sample rate and a grain length in milliseconds.
pub open spec fn grain_len(sample_rate: nat, grain_ms: nat) -> nat {
    sample_rate * grain_ms / 1000
}

/// What the shifter does with one input sample.
#[derive(Debug, Clone, Copy, PartialEq, Eq, Structural)]
pub enum SampleStep {
    /// Warm-up: the sample was stored at `write` and the output is silence.
    Silence { write: usize },
    /// Pitch ratio one: the output is the stored sample at `read`.
    Delayed { write: usize, read: usize },
    /// Both grains sound. `phase_a` and `phase_b` are the grains' positions in
    /// their cycles before this step, in half samples out of `2 * grain_size`.
    /// A grain that completes its cycle restarts at the given buffer index.
    Grains {
        write: usize,
        phase_a: usize,
        phase_b: usize,
        restart_a: Option<usize>,
        restart_b: Option<usize>,
    },
}

/// Grain A restarts on the `n`-th grain step (counting from one) when `n` is a
/// multiple of the grain length.
pub open spec fn a_restarts(n: nat, g: nat) -> bool {
    n % g == 0
}

/// Grain B restarts half a grain before grain A would: on the `n`-th grain
/// step when `n + g / 2` is a multiple of the grain length.
pub open spec fn b_restarts(n: nat, g: nat) -> bool {
    (n + g / 2) % g == 0
}

/// The sample positions of a two-grain shifter.
pub struct GrainSchedule {
    grain_size: usize,
    buffer_size: usize,
    delay: usize,
    write_pos: usize,
    samples_written: usize,
    /// Grain steps since grain A last restarted.
    since_a: usize,
    /// Grain steps since grain B last restarted.
    since_b: usize,
    /// Samples taken since construction or reset.
    steps: Ghost<nat>,
    /// Grain steps taken since construction or reset.
    grain_steps: Ghost<nat>,
}

impl GrainSchedule {
    pub closed spec fn grain_size_spec(&self) -> nat {
        self.grain_size as nat
    }

    pub closed spec fn buffer_size_spec(&self) -> nat {
        self.buffer_size as nat
    }

    pub closed spec fn delay_spec(&self) -> nat {
        self.delay as nat
    }

    /// Samples taken since construction or reset.
    pub closed spec fn steps_spec(&self) -> nat {
        self.steps@
    }

    /// Steps on which both grains sounded, since construction or reset.
    pub closed spec fn grain_steps_spec(&self) -> nat {
        self.grain_steps@
    }

    /// The ring buffer holds four grains; the delay is one grain; the write
    /// head is the delay ahead of the first sample; the grain counters follow
    /// the number of grain steps, B half a grain ahead of A.
    pub closed spec fn wf(&self) -> bool {
        &&& self.grain_size >= 1
        &&& self.buffer_size == 4 * self.grain_size
        &&& self.delay == self.grain_size
        &&& self.write_pos as nat == (self.delay as nat + self.steps@) % (self.buffer_size as nat)
        &&& self.samples_written as nat == if self.steps@ > usize::MAX {
            usize::MAX as nat
        } else {
            self.steps@
        }
        &&& self.since_a as nat == self.grain_steps@ % (self.grain_size as nat)
        &&& self.since_b as nat == (self.grain_steps@ + self.grain_size as nat / 2) % (
        self.grain_size as nat)
    }

    /// A schedule for grains of `grain_ms` milliseconds at `sample_rate`.
    pub fn new(sample_rate: u32, grain_ms: u32) -> (r: Self)
        requires
            grain_len(sample_rate as nat, grain_ms as nat) >= 1,
            4 * grain_len(sample_rate as nat, grain_ms as nat) <= usize::MAX,
        ensures
            r.wf(),
            r.grain_size_spec() == grain_len(sample_rate as nat, grain_ms as nat),
            r.buffer_size_spec() == 4 * r.grain_size_spec(),
            r.delay_spec() == r.grain_size_spec(),
            r.steps_spec() == 0,
            r.grain_steps_spec() == 0,
    {
        assert(sample_rate as u64 * grain_ms as u64 <= u64::MAX) by (nonlinear_arith)
            requires
                sample_rate <= u32::MAX,
                grain_ms <= u32::MAX,
        ;
        let product: u64 = sample_rate as u64 * grain_ms as u64;
        let g = (product / 1000) as usize;
        proof {
            lemma_small_mod(g as nat, 4 * g as nat);
            lemma_small_mod(g as nat / 2, g as nat);
            lemma_small_mod(0, g as nat);
            assert(g as nat + 0 == g as nat);
        }
        GrainSchedule {
            grain_size: g,
            buffer_size: 4 * g,
            delay: g,
            write_pos: g,
            samples_written: 0,
            since_a: 0,
            since_b: g / 2,
            steps: Ghost(0),
            grain_steps: Ghost(0),
        }
    }

    /// Back to the state right after construction.
    pub fn reset(&mut self)
        requires
            old(self).wf(),
        ensures
            final(self).wf(),
            final(self).grain_size_spec() == old(self).grain_size_spec(),
            final(self).buffer_size_spec() == old(self).buffer_size_spec(),
            final(self).delay_spec() == old(self).delay_spec(),
            final(self).steps_spec() == 0,
            final(self).grain_steps_spec() == 0,
    {
        let g = self.grain_size;
        proof {
            lemma_small_mod(g as nat, 4 * g as nat);
            lemma_small_mod(g as nat / 2, g as nat);
            lemma_small_mod(0, g as nat);
            assert(g as nat + 0 == g as nat);
        }
        self.write_pos = self.delay;
        self.samples_written = 0;
        self.since_a = 0;
        self.since_b = g / 2;
        self.steps = Ghost(0);
        self.grain_steps = Ghost(0);
    }

    /// Samples per grain.
    pub fn grain_size(&self) -> (r: usize)
        ensures
            r == self.grain_size_spec(),
    {
        self.grain_size
    }

    /// Length of the ring buffer that the caller keeps.
    pub fn buffer_size(&self) -> (r: usize)
        ensures
            r == self.buffer_size_spec(),
    {
        self.buffer_size
    }
}

/// The first `delay + grain = 2 * g` outputs are silent: step `t` (counting
/// from zero) is part of the warm-up while `t < 2 * g`.
pub open spec fn is_warm_up(t: nat, g: nat) -> bool {
    t < 2 * g
}

impl GrainSchedule {
    /// Takes one input sample. `bypass` says that the pitch ratio is one, so
    /// that the output is the input delayed and the grains stand still.
    ///
    /// With `t` samples taken before and `n` grain steps: the sample goes to
    /// `(delay + t) % buffer_size`; at pitch one the output is the slot
    /// `t % buffer_size`, written `delay` steps before; a grain that completes
    /// its cycle restarts at the delay position behind the advanced write
    /// head, `(t + 1) % buffer_size`.
    pub fn step(&mut self, bypass: bool) -> (r: SampleStep)
        requires
            old(self).wf(),
        ensures
            final(self).wf(),
            final(self).grain_size_spec() == old(self).grain_size_spec(),
            final(self).buffer_size_spec() == old(self).buffer_size_spec(),
            final(self).delay_spec() == old(self).delay_spec(),
            final(self).steps_spec() == old(self).steps_spec() + 1,
            ({
                let t = old(self).steps_spec();
                let n = old(self).grain_steps_spec();
                let g = old(self).grain_size_spec();
                let len = old(self).buffer_size_spec();
                let w = ((g + t) % len) as usize;
                let back = (t % len) as usize;
                let at = ((t + 1) % len) as usize;
                if is_warm_up(t, g) {
                    &&& r == SampleStep::Silence { write: w }
                    &&& final(self).grain_steps_spec() == n
                } else if bypass {
                    &&& r == SampleStep::Delayed { write: w, read: back }
                    &&& final(self).grain_steps_spec() == n
                } else {
                    &&& r == SampleStep::Grains {
                        write: w,
                        phase_a: (2 * (n % g)) as usize,
                        phase_b: (2 * ((n + g / 2) % g) + g % 2) as usize,
                        restart_a: if a_restarts(n + 1, g) { Some(at) } else { None },
                        restart_b: if b_restarts(n + 1, g) { Some(at) } else { None },
                    }
                    &&& final(self).grain_steps_spec() == n + 1
                }
            }),
    {
        let ghost t = self.steps@;
        let ghost n = self.grain_steps@;
        let g = self.grain_size;
        let len = self.buffer_size;
        let write = self.write_pos;
        proof {
            lemma_mod_succ((g + t) as nat, len as nat);
            lemma_trailing_position(g as int, t as int, len as int);
            lemma_trailing_position(g as int, t as int + 1, len as int);
            assert(g + t + 1 == g + (t + 1));
        }
        self.write_pos = if self.write_pos + 1 == len { 0 } else { self.write_pos + 1 };
        self.samples_written = self.samples_written.saturating_add(1);
        self.steps = Ghost(t + 1);
        if self.samples_written <= self.delay + self.grain_size {
            return SampleStep::Silence { write };
        }
        if bypass {
            let back = if write >= self.delay {
                write - self.delay
            } else {
                write + (len - self.delay)
            };
            proof {
                lemma_wrap_back(write as int, g as int, len as int);
            }
            return SampleStep::Delayed { write, read: back };
        }
        let read = if self.write_pos >= self.delay {
            self.write_pos - self.delay
        } else {
            self.write_pos + (len - self.delay)
        };
        proof {
            lemma_wrap_back(self.write_pos as int, g as int, len as int);
        }
        let phase_a = 2 * self.since_a;
        let phase_b = 2 * self.since_b + g % 2;
        proof {
            lemma_mod_succ(n, g as nat);
            lemma_mod_succ(n + g as nat / 2, g as nat);
            assert(n + 1 + g as nat / 2 == n + g as nat / 2 + 1);
        }
        let mut restart_a: Option<usize> = None;
        let mut restart_b: Option<usize> = None;
        if self.since_a + 1 == g {
            self.since_a = 0;
            restart_a = Some(read);
        } else {
            self.since_a = self.since_a + 1;
        }
        if self.since_b + 1 == g {
            self.since_b = 0;
            restart_b = Some(read);
        } else {
            self.since_b = self.since_b + 1;
        }
        self.grain_steps = Ghost(n + 1);
        SampleStep::Grains { write, phase_a, phase_b, restart_a, restart_b }
    }
}

/// A well-formed schedule has grains of at least one sample, a ring buffer of
/// four grains and a delay of one grain.
pub proof fn lemma_sizes(s: &GrainSchedule)
    requires
        s.wf(),
    ensures
        s.grain_size_spec() >= 1,
        s.buffer_size_spec() == 4 * s.grain_size_spec(),
        s.delay_spec() == s.grain_size_spec(),
{
}

/// The two grains are always half a cycle apart: in half samples out of
/// `2 * g`, the phase of grain B is that of grain A plus `g`.
pub proof fn lemma_phase_offset(n: nat, g: nat)
    requires
        g >= 1,
    ensures
        (2 * ((n + g / 2) % g) + g % 2) % (2 * g) == (2 * (n % g) + g) % (2 * g),
{
    let a = n % g;
    let h = g / 2;
    lemma_fundamental_div_mod(g as int, 2);
    lemma_mod_bound(g as int, 2);
    lemma_mod_bound(n as int, g as int);
    lemma_small_mod(h, g);
    lemma_add_mod_noop(n as int, h as int, g as int);
    assert(2 * h + g % 2 == g);
    if a + h < g {
        lemma_small_mod((a + h) as nat, g);
        assert(2 * ((n + h) % g) + g % 2 == 2 * a + g);
    } else {
        lemma_mod_add_multiples_vanish((a + h - g) as int, g as int);
        lemma_small_mod((a + h - g) as nat, g);
        assert((n + h) % g == a + h - g);
        assert(2 * ((n + h) % g) + g % 2 == 2 * a - g);
        lemma_mod_add_multiples_vanish((2 * a - g) as int, (2 * g) as int);
        assert(2 * a + g == (2 * a - g) + 2 * g);
    }
}

/// Each grain restarts exactly once every `g` grain steps: after a restart of
/// grain A (or B) on step `n`, the next one comes on step `n + g`, none between.
/// Grain B restarts `g / 2` steps before grain A does.
pub proof fn lemma_grain_restarts(n: nat, g: nat)
    requires
        g >= 1,
    ensures
        a_restarts(n, g) ==> a_restarts(n + g, g),
        a_restarts(n, g) ==> forall|k: nat| 0 < k < g ==> !#[trigger] a_restarts(n + k, g),
        b_restarts(n, g) ==> b_restarts(n + g, g),
        b_restarts(n, g) ==> forall|k: nat| 0 < k < g ==> !#[trigger] b_restarts(n + k, g),
        b_restarts(n, g) == a_restarts(n + g / 2, g),
{
    lemma_period(n, g);
    lemma_period(n + g / 2, g);
    assert forall|k: nat| 0 < k < g && a_restarts(n, g) implies !#[trigger] a_restarts(n + k, g) by {
        lemma_shift(n, k, g);
    }
    assert forall|k: nat| 0 < k < g && b_restarts(n, g) implies !#[trigger] b_restarts(n + k, g) by {
        lemma_shift(n + g / 2, k, g);
        assert(n + k + g / 2 == n + g / 2 + k);
    }
    assert(n + g + g / 2 == n + g / 2 + g);
}

/// Past a multiple of `g`, the remainder is that of the offset.
proof fn lemma_shift(n: nat, k: nat, g: nat)
    requires
        g >= 1,
        n % g == 0,
        k < g,
    ensures
        (n + k) % g == k,
{
    lemma_fundamental_div_mod(n as int, g as int);
    lemma_mod_multiples_vanish((n / g) as int, k as int, g as int);
    lemma_small_mod(k, g);
}

proof fn lemma_period(n: nat, g: nat)
    requires
        g >= 1,
    ensures
        (n + g) % g == n % g,
{
    lemma_mod_add_multiples_vanish(n as int, g as int);
}

/// Two numbers less than `m` apart, the larger first, differ modulo `m`.
proof fn lemma_mod_distinct(x: int, y: int, m: int)
    requires
        0 < x - y < m,
    ensures
        x % m != y % m,
{
    lemma_fundamental_div_mod(x, m);
    lemma_fundamental_div_mod(y, m);
    if x % m == y % m {
        let q = x / m - y / m;
        assert(x - y == m * q) by (nonlinear_arith)
            requires
                x == m * (x / m) + x % m,
                y == m * (y / m) + y % m,
                x % m == y % m,
                q == x / m - y / m,
        ;
        assert(false) by (nonlinear_arith)
            requires
                0 < m * q < m,
                m > 0,
        ;
    }
}

/// With the pitch ratio at one, step `t` past the warm-up reads the slot that
/// step `t - g` wrote, and no later step has written it since: the output is
/// the input of exactly `delay = g` samples before.
pub proof fn lemma_delayed_read(t: nat, g: nat)
    requires
        g >= 1,
        !is_warm_up(t, g),
    ensures
        (g + ((t - g) as nat)) % (4 * g) == t % (4 * g),
        forall|s: nat| t - g < s <= t ==> #[trigger] ((g + s) % (4 * g)) != t % (4 * g),
{
    assert forall|s: nat| t - g < s <= t implies #[trigger] ((g + s) % (4 * g)) != t % (4 * g) by {
        lemma_mod_distinct((g + s) as int, t as int, (4 * g) as int);
    }
}

/// One more step of a counter modulo `m`.
proof fn lemma_mod_succ(n: nat, m: nat)
    requires
        m >= 1,
    ensures
        (n + 1) % m == if n % m + 1 == m {
            0
        } else {
            n % m + 1
        },
        n % m < m,
{
    lemma_add_mod_noop(n as int, 1, m as int);
    if m == 1 {
        lemma_mod_bound(n as int, 1);
        lemma_mod_bound(n as int + 1, 1);
    } else {
        lemma_small_mod(1, m);
        lemma_mod_bound(n as int, m as int);
        if n % m + 1 == m {
            lemma_mod_self_0(m as int);
        } else {
            lemma_small_mod((n % m + 1) as nat, m);
        }
    }
    lemma_mod_bound(n as int, m as int);
}

/// The slot `d` behind the one that step `u` writes is `u % len`.
proof fn lemma_trailing_position(d: int, u: int, len: int)
    requires
        d >= 1,
        u >= 0,
        len == 4 * d,
    ensures
        (((d + u) % len) + len - d) % len == u % len,
        0 <= (d + u) % len < len,
{
    lemma_mod_bound(d + u, len);
    lemma_small_mod((len - d) as nat, len as nat);
    lemma_add_mod_noop(d + u, len - d, len);
    assert((d + u) + (len - d) == len + u);
    lemma_mod_add_multiples_vanish(u, len);
}

/// Stepping `d` slots back from `w` without leaving the ring.
proof fn lemma_wrap_back(w: int, d: int, len: int)
    requires
        0 <= w < len,
        1 <= d < len,
    ensures
        (if w >= d { w - d } else { w + (len - d) }) == (w + len - d) % len,
{
    if w >= d {
        lemma_mod_add_multiples_vanish(w - d, len);
        lemma_small_mod((w - d) as nat, len as nat);
        assert(w + len - d == len + (w - d));
    } else {
        lemma_small_mod((w + len - d) as nat, len as nat);
    }
}

} // verus!
