//! The reverberator: a predelay, a bandwidth filter and four input diffusers
//! feeding two cross-coupled tank branches, read out through a fixed set of
//! taps.

use crate::instruments::delay::{pushed, tap, Delay};
use crate::instruments::filters::{ApfView, IirView, APF, IIR};
use crate::sample::{lawful, make_one, make_zero, one, zero, Sample};
use vstd::prelude::*;
use vstd::std_specs::ops::{AddSpec, DivSpec, MulSpec, NegSpec, SubSpec};

verus! {

/// Lookback of the first input diffuser, in samples.
pub const INPUT_DIFFUSION_1_1: usize = 142;

/// Lookback of the second input diffuser.
pub const INPUT_DIFFUSION_1_2: usize = 107;

/// Lookback of the third input diffuser.
pub const INPUT_DIFFUSION_2_1: usize = 379;

/// Lookback of the fourth input diffuser.
pub const INPUT_DIFFUSION_2_2: usize = 277;

/// Nominal lookback of the modulated diffuser at the head of the first
/// branch.
pub const DECAY_DIFFUSION_1_1: usize = 672;

/// Nominal lookback of the modulated diffuser at the head of the second
/// branch.
pub const DECAY_DIFFUSION_1_2: usize = 908;

/// Lookback of the diffuser in the middle of the first branch.
pub const DECAY_DIFFUSION_2_1: usize = 1800;

/// Lookback of the diffuser in the middle of the second branch.
pub const DECAY_DIFFUSION_2_2: usize = 2656;

/// The modulation of the two modulated diffusers stays strictly below this
/// many samples in either direction.
pub const EXCURSION: usize = 16;

/// Length of the first delay of the first branch.
pub const DELAY_1: usize = 4453;

/// Length of the second delay of the first branch.
pub const DELAY_2: usize = 3720;

/// Length of the first delay of the second branch.
pub const DELAY_3: usize = 4217;

/// Length of the second delay of the second branch.
pub const DELAY_4: usize = 3163;

/// The sum of the first `n` samples of a frame, added up in order.
pub open spec fn total<T: Sample>(frame: Seq<T>, n: nat) -> T
    decreases n,
{
    if n <= 1 {
        frame[0]
    } else {
        total(frame, (n - 1) as nat).add_spec(frame[n - 1])
    }
}

/// The number `n` as a sample: one added to itself.
pub open spec fn count<T: Sample>(n: nat) -> T
    decreases n,
{
    if n <= 1 {
        one::<T>()
    } else {
        count::<T>((n - 1) as nat).add_spec(one::<T>())
    }
}

/// Every addition in `total(frame, n)` and `count(n)` is defined.
pub open spec fn total_req<T: Sample>(frame: Seq<T>, n: nat) -> bool
    decreases n,
{
    n <= 1 || {
        &&& total_req(frame, (n - 1) as nat)
        &&& total(frame, (n - 1) as nat).add_req(frame[n - 1])
        &&& count::<T>((n - 1) as nat).add_req(one::<T>())
    }
}

/// The arithmetic mean of a frame: the sum of its samples over their number.
pub open spec fn mean_of<T: Sample>(frame: Seq<T>) -> T {
    total(frame, frame.len()).div_spec(count::<T>(frame.len()))
}

/// Every operation in `mean_of(frame)` is defined.
pub open spec fn mean_req<T: Sample>(frame: Seq<T>) -> bool {
    &&& total_req(frame, frame.len())
    &&& total(frame, frame.len()).div_req(count::<T>(frame.len()))
}

/// The arithmetic mean of a frame of at least one sample.
pub fn mean<T: Sample>(xs: &[T]) -> (m: T)
    requires
        lawful::<T>(),
        xs@.len() >= 1,
        mean_req(xs@),
    ensures
        m == mean_of(xs@),
{
    let unit: T = make_one();
    let mut den = unit;
    let mut num = xs[0];
    let mut at: usize = 1;
    while at < xs.len()
        invariant
            1 <= at <= xs@.len(),
            lawful::<T>(),
            unit == one::<T>(),
            total_req(xs@, xs@.len()),
            total_req(xs@, at as nat),
            num == total(xs@, at as nat),
            den == count::<T>(at as nat),
        decreases xs@.len() - at,
    {
        proof {
            lemma_total_req_below(xs@, at as nat + 1, xs@.len());
        }
        den = den + unit;
        num = num + xs[at];
        at += 1;
    }
    num / den
}

/// If every addition of a longer sum is defined, so is every addition of a
/// shorter one.
pub proof fn lemma_total_req_below<T: Sample>(frame: Seq<T>, n: nat, m: nat)
    requires
        n <= m,
        total_req(frame, m),
    ensures
        total_req(frame, n),
    decreases m,
{
    if n < m {
        lemma_total_req_below(frame, n, (m - 1) as nat);
    }
}

/// A dry sample blended with a processed one: `(1 - wet) * dry + wet *
/// processed`.
pub open spec fn mixed<T: Sample>(wet: T, dry: T, processed: T) -> T {
    one::<T>().sub_spec(wet).mul_spec(dry).add_spec(wet.mul_spec(processed))
}

/// Every operation in `mixed(wet, dry, processed)` is defined.
pub open spec fn mix_req<T: Sample>(wet: T, dry: T, processed: T) -> bool {
    &&& one::<T>().sub_req(wet)
    &&& one::<T>().sub_spec(wet).mul_req(dry)
    &&& wet.mul_req(processed)
    &&& one::<T>().sub_spec(wet).mul_spec(dry).add_req(wet.mul_spec(processed))
}

/// Blends a dry sample with a processed one; `wet` is the share of the
/// processed sample.
pub fn mix<T: Sample>(wet: T, dry: T, processed: T) -> (out: T)
    requires
        lawful::<T>(),
        mix_req(wet, dry, processed),
    ensures
        out == mixed(wet, dry, processed),
{
    let unit: T = make_one();
    (unit - wet) * dry + wet * processed
}

/// One branch of the tank: a diffuser, a long delay, a damping filter, a
/// second diffuser and a second long delay, with the read distances of the
/// two delays.
pub struct TankView<T> {
    pub diffusion_in: ApfView<T>,
    pub delay_in: Seq<T>,
    pub lag_in: nat,
    pub damping: IirView<T>,
    pub diffusion_out: ApfView<T>,
    pub delay_out: Seq<T>,
    pub lag_out: nat,
}

impl<T: Sample> TankView<T> {
    /// The branch input `x` after the first diffuser.
    pub open spec fn diffused(self, x: T) -> T {
        self.diffusion_in.output(x)
    }

    /// ... written to the first delay and read back at its length.
    pub open spec fn delayed(self, x: T) -> T {
        tap(pushed(self.delay_in, self.diffused(x)), self.lag_in as int)
    }

    /// ... through the damping filter.
    pub open spec fn damped(self, x: T) -> T {
        self.damping.output(self.delayed(x))
    }

    /// ... scaled by the decay gain.
    pub open spec fn decayed(self, decay: T, x: T) -> T {
        decay.mul_spec(self.damped(x))
    }

    /// ... through the second diffuser.
    pub open spec fn rediffused(self, decay: T, x: T) -> T {
        self.diffusion_out.output(self.decayed(decay, x))
    }

    /// ... written to the second delay and read back at its length.
    pub open spec fn redelayed(self, decay: T, x: T) -> T {
        tap(pushed(self.delay_out, self.rediffused(decay, x)), self.lag_out as int)
    }

    /// What the branch hands to the other branch for the next step: the
    /// second delay's output, scaled by the decay gain once more.
    pub open spec fn output(self, decay: T, x: T) -> T {
        decay.mul_spec(self.redelayed(decay, x))
    }

    /// Every operation of a step of the branch on input `x` is defined.
    pub open spec fn step_req(self, decay: T, x: T) -> bool {
        &&& self.diffusion_in.tick_req(x)
        &&& self.damping.tick_req(self.delayed(x))
        &&& decay.mul_req(self.damped(x))
        &&& self.diffusion_out.tick_req(self.decayed(decay, x))
        &&& decay.mul_req(self.redelayed(decay, x))
    }

    /// The branch after a step on input `x`.
    pub open spec fn stepped(self, decay: T, x: T) -> TankView<T> {
        TankView {
            diffusion_in: self.diffusion_in.ticked(x),
            delay_in: pushed(self.delay_in, self.diffused(x)),
            lag_in: self.lag_in,
            damping: self.damping.ticked(self.delayed(x)),
            diffusion_out: self.diffusion_out.ticked(self.decayed(decay, x)),
            delay_out: pushed(self.delay_out, self.rediffused(decay, x)),
            lag_out: self.lag_out,
        }
    }
}

/// Two diffusers with the same coefficients and lookback on lines of the
/// same capacity.
pub open spec fn alike_diffusers<T>(a: ApfView<T>, b: ApfView<T>) -> bool {
    &&& a.feedforward == b.feedforward
    &&& a.feedback == b.feedback
    &&& a.delay == b.delay
    &&& a.line.len() == b.line.len()
}

/// Two filters with the same coefficients and gain and as many past
/// outputs.
pub open spec fn alike_filters<T>(a: IirView<T>, b: IirView<T>) -> bool {
    &&& a.coeffs == b.coeffs
    &&& a.gain == b.gain
    &&& a.state.len() == b.state.len()
}

/// The parameters of the reverberator.
#[derive(Debug, Clone, Copy, PartialEq, Eq)]
pub struct PlateParams<T> {
    /// Predelay in samples, at least one.
    pub predelay: usize,
    /// Gain of the bandwidth filter.
    pub bandwidth: T,
    /// Coefficient of the first two input diffusers.
    pub input_diffusion_1: T,
    /// Coefficient of the last two input diffusers.
    pub input_diffusion_2: T,
    /// Coefficient of the modulated diffusers, applied negated.
    pub decay_diffusion_1: T,
    /// Coefficient of the diffusers in the middle of the branches.
    pub decay_diffusion_2: T,
    /// Samples added to the lookback of the modulated diffusers, strictly
    /// between `-EXCURSION` and `EXCURSION`.
    pub decay_modulation: isize,
    /// Feedback coefficient of the damping filters.
    pub damping: T,
    /// Gain applied twice in each branch.
    pub decay: T,
}

impl<T: Sample> PlateParams<T> {
    /// The predelay is positive and the modulation is within its excursion.
    pub open spec fn in_range(self) -> bool {
        &&& self.predelay >= 1
        &&& -(EXCURSION as int) < self.decay_modulation < EXCURSION as int
    }

    /// The parameters are in range and the three derived coefficients can
    /// be computed.
    pub open spec fn valid(self) -> bool {
        &&& self.in_range()
        &&& one::<T>().sub_req(self.bandwidth)
        &&& self.decay_diffusion_1.neg_req()
        &&& one::<T>().sub_req(self.damping)
    }

    /// Whether the predelay is positive and the modulation is within its
    /// excursion.
    pub fn is_in_range(&self) -> (ok: bool)
        ensures
            ok == self.in_range(),
    {
        self.predelay >= 1
            && self.decay_modulation > -(EXCURSION as isize)
            && self.decay_modulation < EXCURSION as isize
    }
}

/// The state of the reverberator: every history, coefficient and length.
pub struct PlateView<T> {
    pub predelay: Seq<T>,
    pub predelay_length: nat,
    pub prefilter: IirView<T>,
    pub input_diffusion_1_1: ApfView<T>,
    pub input_diffusion_1_2: ApfView<T>,
    pub input_diffusion_2_1: ApfView<T>,
    pub input_diffusion_2_2: ApfView<T>,
    /// What the second branch handed to the first at the last step.
    pub tank_1: T,
    /// What the first branch handed to the second at the last step.
    pub tank_2: T,
    pub decay_diffusion_1_1: ApfView<T>,
    pub decay_diffusion_1_2: ApfView<T>,
    pub decay_diffusion_2_1: ApfView<T>,
    pub decay_diffusion_2_2: ApfView<T>,
    pub damping_1: IirView<T>,
    pub damping_2: IirView<T>,
    pub delay_1: Seq<T>,
    pub delay_2: Seq<T>,
    pub delay_3: Seq<T>,
    pub delay_4: Seq<T>,
    pub decay: T,
}

impl<T: Sample> PlateView<T> {
    /// Every line is long enough for the longest lookback it can be asked
    /// for, every lookback is positive and each filter has order one.
    pub open spec fn wf(self) -> bool {
        &&& self.predelay.len() >= 1
        &&& self.predelay_length >= 1
        &&& self.prefilter.wf()
        &&& self.prefilter.coeffs.len() == 1
        &&& self.damping_1.wf()
        &&& self.damping_1.coeffs.len() == 1
        &&& self.damping_2.wf()
        &&& self.damping_2.coeffs.len() == 1
        &&& self.input_diffusion_1_1.wf()
        &&& self.input_diffusion_1_2.wf()
        &&& self.input_diffusion_2_1.wf()
        &&& self.input_diffusion_2_2.wf()
        &&& self.decay_diffusion_1_1.wf()
        &&& self.decay_diffusion_1_2.wf()
        &&& self.decay_diffusion_2_1.wf()
        &&& self.decay_diffusion_2_2.wf()
        &&& self.input_diffusion_1_1.line.len() >= INPUT_DIFFUSION_1_1 + 1
        &&& self.input_diffusion_1_2.line.len() >= INPUT_DIFFUSION_1_2 + 1
        &&& self.input_diffusion_2_1.line.len() >= INPUT_DIFFUSION_2_1 + 1
        &&& self.input_diffusion_2_2.line.len() >= INPUT_DIFFUSION_2_2 + 1
        &&& self.decay_diffusion_1_1.line.len() >= DECAY_DIFFUSION_1_1 + EXCURSION + 1
        &&& self.decay_diffusion_1_2.line.len() >= DECAY_DIFFUSION_1_2 + EXCURSION + 1
        &&& self.decay_diffusion_2_1.line.len() >= DECAY_DIFFUSION_2_1 + 1
        &&& self.decay_diffusion_2_2.line.len() >= DECAY_DIFFUSION_2_2 + 1
        &&& self.delay_1.len() >= DELAY_1 + 1
        &&& self.delay_2.len() >= DELAY_2 + 1
        &&& self.delay_3.len() >= DELAY_3 + 1
        &&& self.delay_4.len() >= DELAY_4 + 1
    }

    /// The state after a parameter update: coefficients and lengths are
    /// replaced, every history and both carries stay.
    pub open spec fn configured(self, params: PlateParams<T>) -> PlateView<T> {
        let negated = params.decay_diffusion_1.neg_spec();
        PlateView {
            predelay: self.predelay,
            predelay_length: params.predelay as nat,
            prefilter: self.prefilter.configured(
                seq![one::<T>().sub_spec(params.bandwidth)],
                params.bandwidth,
            ),
            input_diffusion_1_1: self.input_diffusion_1_1.configured(
                params.input_diffusion_1,
                params.input_diffusion_1,
                INPUT_DIFFUSION_1_1 as nat,
            ),
            input_diffusion_1_2: self.input_diffusion_1_2.configured(
                params.input_diffusion_1,
                params.input_diffusion_1,
                INPUT_DIFFUSION_1_2 as nat,
            ),
            input_diffusion_2_1: self.input_diffusion_2_1.configured(
                params.input_diffusion_2,
                params.input_diffusion_2,
                INPUT_DIFFUSION_2_1 as nat,
            ),
            input_diffusion_2_2: self.input_diffusion_2_2.configured(
                params.input_diffusion_2,
                params.input_diffusion_2,
                INPUT_DIFFUSION_2_2 as nat,
            ),
            tank_1: self.tank_1,
            tank_2: self.tank_2,
            decay_diffusion_1_1: self.decay_diffusion_1_1.configured(
                negated,
                negated,
                (DECAY_DIFFUSION_1_1 + params.decay_modulation) as nat,
            ),
            decay_diffusion_1_2: self.decay_diffusion_1_2.configured(
                negated,
                negated,
                (DECAY_DIFFUSION_1_2 + params.decay_modulation) as nat,
            ),
            decay_diffusion_2_1: self.decay_diffusion_2_1.configured(
                params.decay_diffusion_2,
                params.decay_diffusion_2,
                DECAY_DIFFUSION_2_1 as nat,
            ),
            decay_diffusion_2_2: self.decay_diffusion_2_2.configured(
                params.decay_diffusion_2,
                params.decay_diffusion_2,
                DECAY_DIFFUSION_2_2 as nat,
            ),
            damping_1: self.damping_1.configured(
                seq![params.damping],
                one::<T>().sub_spec(params.damping),
            ),
            damping_2: self.damping_2.configured(
                seq![params.damping],
                one::<T>().sub_spec(params.damping),
            ),
            delay_1: self.delay_1,
            delay_2: self.delay_2,
            delay_3: self.delay_3,
            delay_4: self.delay_4,
            decay: params.decay,
        }
    }

    /// Both states have the same coefficients, gains and lookbacks, and
    /// lines of the same capacities.
    pub open spec fn configured_as(self, other: PlateView<T>) -> bool {
        &&& self.predelay_length == other.predelay_length
        &&& self.predelay.len() == other.predelay.len()
        &&& self.decay == other.decay
        &&& alike_filters(self.prefilter, other.prefilter)
        &&& alike_filters(self.damping_1, other.damping_1)
        &&& alike_filters(self.damping_2, other.damping_2)
        &&& alike_diffusers(self.input_diffusion_1_1, other.input_diffusion_1_1)
        &&& alike_diffusers(self.input_diffusion_1_2, other.input_diffusion_1_2)
        &&& alike_diffusers(self.input_diffusion_2_1, other.input_diffusion_2_1)
        &&& alike_diffusers(self.input_diffusion_2_2, other.input_diffusion_2_2)
        &&& alike_diffusers(self.decay_diffusion_1_1, other.decay_diffusion_1_1)
        &&& alike_diffusers(self.decay_diffusion_1_2, other.decay_diffusion_1_2)
        &&& alike_diffusers(self.decay_diffusion_2_1, other.decay_diffusion_2_1)
        &&& alike_diffusers(self.decay_diffusion_2_2, other.decay_diffusion_2_2)
        &&& self.delay_1.len() == other.delay_1.len()
        &&& self.delay_2.len() == other.delay_2.len()
        &&& self.delay_3.len() == other.delay_3.len()
        &&& self.delay_4.len() == other.delay_4.len()
    }

    /// The mono input `m` written to the predelay and read back at the
    /// predelay length.
    pub open spec fn predelayed(self, m: T) -> T {
        tap(pushed(self.predelay, m), self.predelay_length as int)
    }

    /// ... through the bandwidth filter.
    pub open spec fn filtered(self, m: T) -> T {
        self.prefilter.output(self.predelayed(m))
    }

    /// ... through the first input diffuser.
    pub open spec fn diffused_1(self, m: T) -> T {
        self.input_diffusion_1_1.output(self.filtered(m))
    }

    /// ... through the second input diffuser.
    pub open spec fn diffused_2(self, m: T) -> T {
        self.input_diffusion_1_2.output(self.diffused_1(m))
    }

    /// ... through the third input diffuser.
    pub open spec fn diffused_3(self, m: T) -> T {
        self.input_diffusion_2_1.output(self.diffused_2(m))
    }

    /// ... through the fourth input diffuser: what both branches receive.
    pub open spec fn diffused(self, m: T) -> T {
        self.input_diffusion_2_2.output(self.diffused_3(m))
    }

    /// The first branch of the tank.
    pub open spec fn first_tank(self) -> TankView<T> {
        TankView {
            diffusion_in: self.decay_diffusion_1_1,
            delay_in: self.delay_1,
            lag_in: DELAY_1 as nat,
            damping: self.damping_1,
            diffusion_out: self.decay_diffusion_2_1,
            delay_out: self.delay_2,
            lag_out: DELAY_2 as nat,
        }
    }

    /// The second branch of the tank.
    pub open spec fn second_tank(self) -> TankView<T> {
        TankView {
            diffusion_in: self.decay_diffusion_1_2,
            delay_in: self.delay_3,
            lag_in: DELAY_3 as nat,
            damping: self.damping_2,
            diffusion_out: self.decay_diffusion_2_2,
            delay_out: self.delay_4,
            lag_out: DELAY_4 as nat,
        }
    }

    /// What enters the first branch: the diffused input plus what the second
    /// branch handed over at the last step.
    pub open spec fn first_input(self, m: T) -> T {
        self.diffused(m).add_spec(self.tank_1)
    }

    /// What enters the second branch: the diffused input plus what the first
    /// branch handed over at the last step.
    pub open spec fn second_input(self, m: T) -> T {
        self.diffused(m).add_spec(self.tank_2)
    }

    /// Every operation of a step on the mono input `m` is defined.
    pub open spec fn step_req(self, m: T) -> bool {
        &&& self.prefilter.tick_req(self.predelayed(m))
        &&& self.input_diffusion_1_1.tick_req(self.filtered(m))
        &&& self.input_diffusion_1_2.tick_req(self.diffused_1(m))
        &&& self.input_diffusion_2_1.tick_req(self.diffused_2(m))
        &&& self.input_diffusion_2_2.tick_req(self.diffused_3(m))
        &&& self.diffused(m).add_req(self.tank_1)
        &&& self.first_tank().step_req(self.decay, self.first_input(m))
        &&& self.diffused(m).add_req(self.tank_2)
        &&& self.second_tank().step_req(self.decay, self.second_input(m))
    }

    /// The state after a step on the mono input `m`. Each branch ends by
    /// handing its output to the other one.
    pub open spec fn step(self, m: T) -> PlateView<T> {
        let first = self.first_tank().stepped(self.decay, self.first_input(m));
        let second = self.second_tank().stepped(self.decay, self.second_input(m));
        PlateView {
            predelay: pushed(self.predelay, m),
            predelay_length: self.predelay_length,
            prefilter: self.prefilter.ticked(self.predelayed(m)),
            input_diffusion_1_1: self.input_diffusion_1_1.ticked(self.filtered(m)),
            input_diffusion_1_2: self.input_diffusion_1_2.ticked(self.diffused_1(m)),
            input_diffusion_2_1: self.input_diffusion_2_1.ticked(self.diffused_2(m)),
            input_diffusion_2_2: self.input_diffusion_2_2.ticked(self.diffused_3(m)),
            tank_1: self.second_tank().output(self.decay, self.second_input(m)),
            tank_2: self.first_tank().output(self.decay, self.first_input(m)),
            decay_diffusion_1_1: first.diffusion_in,
            decay_diffusion_1_2: second.diffusion_in,
            decay_diffusion_2_1: first.diffusion_out,
            decay_diffusion_2_2: second.diffusion_out,
            damping_1: first.damping,
            damping_2: second.damping,
            delay_1: first.delay_in,
            delay_2: first.delay_out,
            delay_3: second.delay_in,
            delay_4: second.delay_out,
            decay: self.decay,
        }
    }

    /// The left output: seven taps into the delays and diffuser lines of
    /// both branches, added and subtracted in this order.
    pub open spec fn left(self) -> T {
        tap(self.delay_3, 266).add_spec(tap(self.delay_3, 2974)).sub_spec(
            tap(self.decay_diffusion_2_2.line, 1913),
        ).add_spec(tap(self.delay_4, 1996)).sub_spec(tap(self.delay_1, 1990)).sub_spec(
            tap(self.decay_diffusion_2_1.line, 187),
        ).sub_spec(tap(self.delay_2, 1066))
    }

    /// The right output, the mirror image of the left one.
    pub open spec fn right(self) -> T {
        tap(self.delay_1, 353).add_spec(tap(self.delay_1, 3627)).sub_spec(
            tap(self.decay_diffusion_2_1.line, 1228),
        ).add_spec(tap(self.delay_2, 2673)).sub_spec(tap(self.delay_3, 2111)).sub_spec(
            tap(self.decay_diffusion_2_2.line, 335),
        ).sub_spec(tap(self.delay_4, 121))
    }

    /// Every operation in `left()` is defined.
    pub open spec fn left_req(self) -> bool {
        let s1 = tap(self.delay_3, 266);
        let s2 = s1.add_spec(tap(self.delay_3, 2974));
        let s3 = s2.sub_spec(tap(self.decay_diffusion_2_2.line, 1913));
        let s4 = s3.add_spec(tap(self.delay_4, 1996));
        let s5 = s4.sub_spec(tap(self.delay_1, 1990));
        let s6 = s5.sub_spec(tap(self.decay_diffusion_2_1.line, 187));
        &&& s1.add_req(tap(self.delay_3, 2974))
        &&& s2.sub_req(tap(self.decay_diffusion_2_2.line, 1913))
        &&& s3.add_req(tap(self.delay_4, 1996))
        &&& s4.sub_req(tap(self.delay_1, 1990))
        &&& s5.sub_req(tap(self.decay_diffusion_2_1.line, 187))
        &&& s6.sub_req(tap(self.delay_2, 1066))
    }

    /// Every operation in `right()` is defined.
    pub open spec fn right_req(self) -> bool {
        let s1 = tap(self.delay_1, 353);
        let s2 = s1.add_spec(tap(self.delay_1, 3627));
        let s3 = s2.sub_spec(tap(self.decay_diffusion_2_1.line, 1228));
        let s4 = s3.add_spec(tap(self.delay_2, 2673));
        let s5 = s4.sub_spec(tap(self.delay_3, 2111));
        let s6 = s5.sub_spec(tap(self.decay_diffusion_2_2.line, 335));
        &&& s1.add_req(tap(self.delay_1, 3627))
        &&& s2.sub_req(tap(self.decay_diffusion_2_1.line, 1228))
        &&& s3.add_req(tap(self.delay_2, 2673))
        &&& s4.sub_req(tap(self.delay_3, 2111))
        &&& s5.sub_req(tap(self.decay_diffusion_2_2.line, 335))
        &&& s6.sub_req(tap(self.delay_4, 121))
    }
}

/// What can happen to a reverberator: its parameters are set, or it is fed a
/// frame.
pub enum Event<T> {
    Configure(PlateParams<T>),
    Feed(Seq<T>),
}

impl<T: Sample> PlateView<T> {
    /// The stereo pair at the taps, left first.
    pub open spec fn stereo(self) -> Seq<T> {
        seq![self.left(), self.right()]
    }

    /// The state after a step on `frame`.
    pub open spec fn fed(self, frame: Seq<T>) -> PlateView<T> {
        self.step(mean_of(frame))
    }

    /// The frame is not empty and every operation of a step on it, and of
    /// reading the taps afterwards, is defined.
    pub open spec fn feed_req(self, frame: Seq<T>) -> bool {
        &&& frame.len() >= 1
        &&& mean_req(frame)
        &&& self.step_req(mean_of(frame))
        &&& self.fed(frame).left_req()
        &&& self.fed(frame).right_req()
    }

    /// The state after one event.
    pub open spec fn apply(self, event: Event<T>) -> PlateView<T> {
        match event {
            Event::Configure(params) => self.configured(params),
            Event::Feed(frame) => self.fed(frame),
        }
    }

    /// The event can be applied: the parameters are valid, or the frame can
    /// be fed.
    pub open spec fn apply_req(self, event: Event<T>) -> bool {
        match event {
            Event::Configure(params) => params.valid(),
            Event::Feed(frame) => self.feed_req(frame),
        }
    }

    /// The state after a run of events, `events[0]` first.
    pub open spec fn replay(self, events: Seq<Event<T>>) -> PlateView<T>
        decreases events.len(),
    {
        if events.len() == 0 {
            self
        } else {
            self.replay(events.drop_last()).apply(events.last())
        }
    }

    /// Every event of the run can be applied in its turn.
    pub open spec fn replay_req(self, events: Seq<Event<T>>) -> bool
        decreases events.len(),
    {
        events.len() == 0 || {
            &&& self.replay_req(events.drop_last())
            &&& self.replay(events.drop_last()).apply_req(events.last())
        }
    }

    /// The stereo pair at the taps after each event of a run.
    pub open spec fn heard(self, events: Seq<Event<T>>) -> Seq<Seq<T>> {
        Seq::new(events.len(), |i: int| self.replay(events.take(i + 1)).stereo())
    }
}

/// What happens in one block: the parameters are set, then each position of
/// the two channels is fed as a frame of two samples.
pub open spec fn block<T: Sample>(params: PlateParams<T>, left: Seq<T>, right: Seq<T>) -> Seq<
    Event<T>,
> {
    Seq::new(
        left.len() + 1,
        |i: int|
            if i == 0 {
                Event::Configure(params)
            } else {
                Event::Feed(seq![left[i - 1], right[i - 1]])
            },
    )
}

/// Setting parameters changes no history and neither carry.
pub proof fn lemma_configured_keeps_history<T: Sample>(state: PlateView<T>, params: PlateParams<T>)
    ensures
        state.configured(params).predelay == state.predelay,
        state.configured(params).prefilter.state == state.prefilter.state,
        state.configured(params).input_diffusion_1_1.line == state.input_diffusion_1_1.line,
        state.configured(params).input_diffusion_1_2.line == state.input_diffusion_1_2.line,
        state.configured(params).input_diffusion_2_1.line == state.input_diffusion_2_1.line,
        state.configured(params).input_diffusion_2_2.line == state.input_diffusion_2_2.line,
        state.configured(params).decay_diffusion_1_1.line == state.decay_diffusion_1_1.line,
        state.configured(params).decay_diffusion_1_2.line == state.decay_diffusion_1_2.line,
        state.configured(params).decay_diffusion_2_1.line == state.decay_diffusion_2_1.line,
        state.configured(params).decay_diffusion_2_2.line == state.decay_diffusion_2_2.line,
        state.configured(params).damping_1.state == state.damping_1.state,
        state.configured(params).damping_2.state == state.damping_2.state,
        state.configured(params).delay_1 == state.delay_1,
        state.configured(params).delay_2 == state.delay_2,
        state.configured(params).delay_3 == state.delay_3,
        state.configured(params).delay_4 == state.delay_4,
        state.configured(params).tank_1 == state.tank_1,
        state.configured(params).tank_2 == state.tank_2,
        state.configured(params).stereo() == state.stereo(),
{
}

/// Setting the same parameters twice is setting them once.
pub proof fn lemma_configured_is_idempotent<T: Sample>(state: PlateView<T>, params: PlateParams<T>)
    ensures
        state.configured(params).configured(params) == state.configured(params),
{
}

/// Setting valid parameters keeps a well-formed state well-formed.
pub proof fn lemma_configured_wf<T: Sample>(state: PlateView<T>, params: PlateParams<T>)
    requires
        state.wf(),
        params.valid(),
    ensures
        state.configured(params).wf(),
{
}

/// A step keeps a well-formed state well-formed.
pub proof fn lemma_step_wf<T: Sample>(state: PlateView<T>, m: T)
    requires
        state.wf(),
    ensures
        state.step(m).wf(),
{
}

/// A step changes no coefficient, gain, lookback or capacity.
pub proof fn lemma_step_keeps_settings<T: Sample>(state: PlateView<T>, m: T)
    requires
        state.wf(),
    ensures
        state.step(m).configured_as(state),
{
}

/// The same events on the same state lead to the same state and the same
/// outputs: nothing but the state, the parameters and the frames enters a
/// step.
pub proof fn lemma_replay_is_deterministic<T: Sample>(
    first: PlateView<T>,
    second: PlateView<T>,
    events_1: Seq<Event<T>>,
    events_2: Seq<Event<T>>,
)
    requires
        first == second,
        events_1 == events_2,
    ensures
        first.replay(events_1) == second.replay(events_2),
        first.heard(events_1) == second.heard(events_2),
{
}

/// A run of events is the run of all but the last, then the last.
pub proof fn lemma_replay_unfolds<T: Sample>(state: PlateView<T>, events: Seq<Event<T>>, n: int)
    requires
        0 <= n < events.len(),
    ensures
        state.replay(events.take(n + 1)) == state.replay(events.take(n)).apply(events[n]),
        state.replay_req(events.take(n + 1)) == (state.replay_req(events.take(n))
            && state.replay(events.take(n)).apply_req(events[n])),
{
    assert(events.take(n + 1).drop_last() =~= events.take(n));
}

/// If a run of events can be applied, so can each of its beginnings.
pub proof fn lemma_replay_req_below<T: Sample>(state: PlateView<T>, events: Seq<Event<T>>, n: int)
    requires
        0 <= n <= events.len(),
        state.replay_req(events),
    ensures
        state.replay_req(events.take(n)),
    decreases events.len(),
{
    if n == events.len() {
        assert(events.take(n) =~= events);
    } else {
        lemma_replay_req_below(state, events.drop_last(), n);
        assert(events.drop_last().take(n) =~= events.take(n));
    }
}

/// Within a block that can be applied, the frame at position `at` can be
/// fed to the state that the events before it lead to, and feeding it gives
/// the next state and the pair heard there.
pub proof fn lemma_block_turn<T: Sample>(
    start: PlateView<T>,
    params: PlateParams<T>,
    left: Seq<T>,
    right: Seq<T>,
    at: int,
)
    requires
        0 <= at < left.len(),
        start.replay_req(block(params, left, right)),
    ensures
        ({
            let events = block(params, left, right);
            let frame = seq![left[at], right[at]];
            let before = start.replay(events.take(at + 1));
            &&& before.feed_req(frame)
            &&& start.replay(events.take(at + 2)) == before.fed(frame)
            &&& start.heard(events)[at + 1] == before.fed(frame).stereo()
        }),
{
    let events = block(params, left, right);
    lemma_replay_req_below(start, events, at + 2);
    lemma_replay_unfolds(start, events, at + 1);
}

/// The buffers a reverberator runs on, borrowed for its lifetime.
pub struct PlateBuffers<'a, T> {
    pub predelay: &'a mut [T],
    pub prefilter: &'a mut [T],
    pub input_diffusion_1_1: &'a mut [T],
    pub input_diffusion_1_2: &'a mut [T],
    pub input_diffusion_2_1: &'a mut [T],
    pub input_diffusion_2_2: &'a mut [T],
    pub decay_diffusion_1_1: &'a mut [T],
    pub decay_diffusion_1_2: &'a mut [T],
    pub decay_diffusion_2_1: &'a mut [T],
    pub decay_diffusion_2_2: &'a mut [T],
    pub dumping_1: &'a mut [T],
    pub dumping_2: &'a mut [T],
    pub delay_1: &'a mut [T],
    pub delay_2: &'a mut [T],
    pub delay_3: &'a mut [T],
    pub delay_4: &'a mut [T],
    pub tank: &'a mut [T],
}

impl<'a, T: Sample> PlateBuffers<'a, T> {
    /// Every buffer is large enough for its place in the network: one cell
    /// more than the longest lookback it serves, the excursion included for
    /// the two modulated diffusers; one cell for each filter and for the
    /// predelay; two for the carries between the branches.
    pub open spec fn adequate(self) -> bool {
        &&& self.predelay@.len() >= 1
        &&& self.prefilter@.len() >= 1
        &&& self.input_diffusion_1_1@.len() >= INPUT_DIFFUSION_1_1 + 1
        &&& self.input_diffusion_1_2@.len() >= INPUT_DIFFUSION_1_2 + 1
        &&& self.input_diffusion_2_1@.len() >= INPUT_DIFFUSION_2_1 + 1
        &&& self.input_diffusion_2_2@.len() >= INPUT_DIFFUSION_2_2 + 1
        &&& self.decay_diffusion_1_1@.len() >= DECAY_DIFFUSION_1_1 + EXCURSION + 1
        &&& self.decay_diffusion_1_2@.len() >= DECAY_DIFFUSION_1_2 + EXCURSION + 1
        &&& self.decay_diffusion_2_1@.len() >= DECAY_DIFFUSION_2_1 + 1
        &&& self.decay_diffusion_2_2@.len() >= DECAY_DIFFUSION_2_2 + 1
        &&& self.dumping_1@.len() >= 1
        &&& self.dumping_2@.len() >= 1
        &&& self.delay_1@.len() >= DELAY_1 + 1
        &&& self.delay_2@.len() >= DELAY_2 + 1
        &&& self.delay_3@.len() >= DELAY_3 + 1
        &&& self.delay_4@.len() >= DELAY_4 + 1
        &&& self.tank@.len() >= 2
    }

    /// Whether every buffer is large enough for its place in the network.
    pub fn is_adequate(&self) -> (ok: bool)
        ensures
            ok == self.adequate(),
    {
        self.predelay.len() >= 1
            && self.prefilter.len() >= 1
            && self.input_diffusion_1_1.len() > INPUT_DIFFUSION_1_1
            && self.input_diffusion_1_2.len() > INPUT_DIFFUSION_1_2
            && self.input_diffusion_2_1.len() > INPUT_DIFFUSION_2_1
            && self.input_diffusion_2_2.len() > INPUT_DIFFUSION_2_2
            && self.decay_diffusion_1_1.len() > DECAY_DIFFUSION_1_1 + EXCURSION
            && self.decay_diffusion_1_2.len() > DECAY_DIFFUSION_1_2 + EXCURSION
            && self.decay_diffusion_2_1.len() > DECAY_DIFFUSION_2_1
            && self.decay_diffusion_2_2.len() > DECAY_DIFFUSION_2_2
            && self.dumping_1.len() >= 1
            && self.dumping_2.len() >= 1
            && self.delay_1.len() > DELAY_1
            && self.delay_2.len() > DELAY_2
            && self.delay_3.len() > DELAY_3
            && self.delay_4.len() > DELAY_4
            && self.tank.len() >= 2
    }

    /// The state of a reverberator freshly built on these buffers: what the
    /// buffers hold is its history, every coefficient and the decay gain are
    /// zero and every lookback is one.
    pub open spec fn initial(self) -> PlateView<T> {
        let silent = IirView {
            coeffs: Seq::new(1, |i: int| zero::<T>()),
            gain: zero::<T>(),
            state: Seq::<T>::empty(),
        };
        let still = ApfView {
            feedforward: zero::<T>(),
            feedback: zero::<T>(),
            delay: 1,
            line: Seq::<T>::empty(),
        };
        PlateView {
            predelay: self.predelay@.reverse(),
            predelay_length: 1,
            prefilter: IirView { state: self.prefilter@, ..silent },
            input_diffusion_1_1: ApfView { line: self.input_diffusion_1_1@.reverse(), ..still },
            input_diffusion_1_2: ApfView { line: self.input_diffusion_1_2@.reverse(), ..still },
            input_diffusion_2_1: ApfView { line: self.input_diffusion_2_1@.reverse(), ..still },
            input_diffusion_2_2: ApfView { line: self.input_diffusion_2_2@.reverse(), ..still },
            tank_1: self.tank@[0],
            tank_2: self.tank@[1],
            decay_diffusion_1_1: ApfView { line: self.decay_diffusion_1_1@.reverse(), ..still },
            decay_diffusion_1_2: ApfView { line: self.decay_diffusion_1_2@.reverse(), ..still },
            decay_diffusion_2_1: ApfView { line: self.decay_diffusion_2_1@.reverse(), ..still },
            decay_diffusion_2_2: ApfView { line: self.decay_diffusion_2_2@.reverse(), ..still },
            damping_1: IirView { state: self.dumping_1@, ..silent },
            damping_2: IirView { state: self.dumping_2@, ..silent },
            delay_1: self.delay_1@.reverse(),
            delay_2: self.delay_2@.reverse(),
            delay_3: self.delay_3@.reverse(),
            delay_4: self.delay_4@.reverse(),
            decay: zero::<T>(),
        }
    }

    /// Builds a reverberator on the buffers, which must each be large enough
    /// for their place. Every coefficient and the decay gain start at zero
    /// and every lookback at one; `set_params` gives them their values.
    pub fn build(self) -> (plate: Plate<'a, T>)
        requires
            lawful::<T>(),
            self.adequate(),
        ensures
            plate.wf(),
            plate@ == self.initial(),
    {
        let plate = Plate {
            predelay: Delay::new(self.predelay),
            predelay_length: 1,
            prefilter: IIR::new(self.prefilter),
            input_diffusion_1_1: APF::new(self.input_diffusion_1_1),
            input_diffusion_1_2: APF::new(self.input_diffusion_1_2),
            input_diffusion_2_1: APF::new(self.input_diffusion_2_1),
            input_diffusion_2_2: APF::new(self.input_diffusion_2_2),
            tank: self.tank,
            decay_diffusion_1_1: APF::new(self.decay_diffusion_1_1),
            decay_diffusion_1_2: APF::new(self.decay_diffusion_1_2),
            decay_diffusion_2_1: APF::new(self.decay_diffusion_2_1),
            decay_diffusion_2_2: APF::new(self.decay_diffusion_2_2),
            damping_1: IIR::new(self.dumping_1),
            damping_2: IIR::new(self.dumping_2),
            delay_1: Delay::new(self.delay_1),
            delay_2: Delay::new(self.delay_2),
            delay_3: Delay::new(self.delay_3),
            delay_4: Delay::new(self.delay_4),
            decay: make_zero(),
        };
        plate
    }
}

/// A plate reverberator.
pub struct Plate<'a, T> {
    predelay: Delay<'a, T>,
    predelay_length: usize,
    prefilter: IIR<'a, T, 1>,
    input_diffusion_1_1: APF<'a, T>,
    input_diffusion_1_2: APF<'a, T>,
    input_diffusion_2_1: APF<'a, T>,
    input_diffusion_2_2: APF<'a, T>,
    tank: &'a mut [T],
    decay_diffusion_1_1: APF<'a, T>,
    decay_diffusion_1_2: APF<'a, T>,
    decay_diffusion_2_1: APF<'a, T>,
    decay_diffusion_2_2: APF<'a, T>,
    damping_1: IIR<'a, T, 1>,
    damping_2: IIR<'a, T, 1>,
    delay_1: Delay<'a, T>,
    delay_2: Delay<'a, T>,
    delay_3: Delay<'a, T>,
    delay_4: Delay<'a, T>,
    decay: T,
}

impl<'a, T: Sample> Plate<'a, T> {
    /// Every history, coefficient and length of the network.
    pub closed spec fn view(&self) -> PlateView<T> {
        PlateView {
            predelay: self.predelay@,
            predelay_length: self.predelay_length as nat,
            prefilter: self.prefilter@,
            input_diffusion_1_1: self.input_diffusion_1_1@,
            input_diffusion_1_2: self.input_diffusion_1_2@,
            input_diffusion_2_1: self.input_diffusion_2_1@,
            input_diffusion_2_2: self.input_diffusion_2_2@,
            tank_1: self.tank@[0],
            tank_2: self.tank@[1],
            decay_diffusion_1_1: self.decay_diffusion_1_1@,
            decay_diffusion_1_2: self.decay_diffusion_1_2@,
            decay_diffusion_2_1: self.decay_diffusion_2_1@,
            decay_diffusion_2_2: self.decay_diffusion_2_2@,
            damping_1: self.damping_1@,
            damping_2: self.damping_2@,
            delay_1: self.delay_1@,
            delay_2: self.delay_2@,
            delay_3: self.delay_3@,
            delay_4: self.delay_4@,
            decay: self.decay,
        }
    }

    /// Every part is in order and there is room for both carries.
    pub closed spec fn intact(&self) -> bool {
        &&& self.tank@.len() >= 2
        &&& self.predelay.wf()
        &&& self.prefilter.wf()
        &&& self.input_diffusion_1_1.wf()
        &&& self.input_diffusion_1_2.wf()
        &&& self.input_diffusion_2_1.wf()
        &&& self.input_diffusion_2_2.wf()
        &&& self.decay_diffusion_1_1.wf()
        &&& self.decay_diffusion_1_2.wf()
        &&& self.decay_diffusion_2_1.wf()
        &&& self.decay_diffusion_2_2.wf()
        &&& self.damping_1.wf()
        &&& self.damping_2.wf()
        &&& self.delay_1.wf()
        &&& self.delay_2.wf()
        &&& self.delay_3.wf()
        &&& self.delay_4.wf()
    }

    /// Every part is in order and every line is long enough for its place.
    pub open spec fn wf(&self) -> bool {
        &&& self.intact()
        &&& self@.wf()
    }

    /// Replaces every coefficient and length by what `params` asks for. No
    /// history is touched.
    pub fn set_params(&mut self, params: PlateParams<T>)
        requires
            old(self).wf(),
            lawful::<T>(),
            params.valid(),
        ensures
            final(self).wf(),
            final(self)@ == old(self)@.configured(params),
    {
        let unit: T = make_one();
        self.predelay_length = params.predelay;
        let spread = [unit - params.bandwidth];
        assert(spread@ =~= seq![one::<T>().sub_spec(params.bandwidth)]);
        self.prefilter.set_params(spread, params.bandwidth);

        self.input_diffusion_1_1.set_params(
            params.input_diffusion_1,
            params.input_diffusion_1,
            INPUT_DIFFUSION_1_1,
        );
        self.input_diffusion_1_2.set_params(
            params.input_diffusion_1,
            params.input_diffusion_1,
            INPUT_DIFFUSION_1_2,
        );
        self.input_diffusion_2_1.set_params(
            params.input_diffusion_2,
            params.input_diffusion_2,
            INPUT_DIFFUSION_2_1,
        );
        self.input_diffusion_2_2.set_params(
            params.input_diffusion_2,
            params.input_diffusion_2,
            INPUT_DIFFUSION_2_2,
        );

        self.decay_diffusion_1_1.set_params(
            params.decay_diffusion_1.neg(),
            params.decay_diffusion_1.neg(),
            (DECAY_DIFFUSION_1_1 as isize + params.decay_modulation) as usize,
        );
        self.decay_diffusion_1_2.set_params(
            params.decay_diffusion_1.neg(),
            params.decay_diffusion_1.neg(),
            (DECAY_DIFFUSION_1_2 as isize + params.decay_modulation) as usize,
        );
        self.decay_diffusion_2_1.set_params(
            params.decay_diffusion_2,
            params.decay_diffusion_2,
            DECAY_DIFFUSION_2_1,
        );
        self.decay_diffusion_2_2.set_params(
            params.decay_diffusion_2,
            params.decay_diffusion_2,
            DECAY_DIFFUSION_2_2,
        );

        let loss = [params.damping];
        assert(loss@ =~= seq![params.damping]);
        self.damping_1.set_params(loss, unit - params.damping);
        self.damping_2.set_params(loss, unit - params.damping);

        self.decay = params.decay;
    }

    /// One step of the network on a frame of at least one sample. The mean
    /// of the frame goes through the predelay, the bandwidth filter and the
    /// four input diffusers; each branch then takes it together with what
    /// the other branch produced at the last step.
    pub fn process(&mut self, x: &[T])
        requires
            old(self).wf(),
            lawful::<T>(),
            x@.len() >= 1,
            mean_req(x@),
            old(self)@.step_req(mean_of(x@)),
        ensures
            final(self).wf(),
            final(self)@ == old(self)@.step(mean_of(x@)),
    {
        let mut acc = mean(x);

        self.predelay.write(acc);
        acc = *self.predelay.read(self.predelay_length);

        acc = self.prefilter.tick(acc);

        acc = self.input_diffusion_1_1.tick(acc);
        acc = self.input_diffusion_1_2.tick(acc);
        acc = self.input_diffusion_2_1.tick(acc);
        acc = self.input_diffusion_2_2.tick(acc);

        let mut tank1 = acc + self.tank[0];
        tank1 = self.decay_diffusion_1_1.tick(tank1);
        self.delay_1.write(tank1);
        tank1 = *self.delay_1.read(DELAY_1);
        tank1 = self.damping_1.tick(tank1);
        tank1 = self.decay * tank1;
        tank1 = self.decay_diffusion_2_1.tick(tank1);
        self.delay_2.write(tank1);
        tank1 = *self.delay_2.read(DELAY_2);
        tank1 = self.decay * tank1;

        let mut tank2 = acc + self.tank[1];
        tank2 = self.decay_diffusion_1_2.tick(tank2);
        self.delay_3.write(tank2);
        tank2 = *self.delay_3.read(DELAY_3);
        tank2 = self.damping_2.tick(tank2);
        tank2 = self.decay * tank2;
        tank2 = self.decay_diffusion_2_2.tick(tank2);
        self.delay_4.write(tank2);
        tank2 = *self.delay_4.read(DELAY_4);
        tank2 = self.decay * tank2;

        self.tank[0] = tank2;
        self.tank[1] = tank1;
    }

    /// One step of the network, then the stereo pair read from its taps.
    pub fn process_2ch(&mut self, x: &[T]) -> (out: [T; 2])
        requires
            old(self).wf(),
            lawful::<T>(),
            old(self)@.feed_req(x@),
        ensures
            final(self).wf(),
            final(self)@ == old(self)@.fed(x@),
            out@ == final(self)@.stereo(),
    {
        self.process(x);

        let mut left_acc = *self.delay_3.read(266);
        left_acc = left_acc + *self.delay_3.read(2974);
        left_acc = left_acc - *self.decay_diffusion_2_2.sample_buffer(1913);
        left_acc = left_acc + *self.delay_4.read(1996);
        left_acc = left_acc - *self.delay_1.read(1990);
        left_acc = left_acc - *self.decay_diffusion_2_1.sample_buffer(187);
        left_acc = left_acc - *self.delay_2.read(1066);

        let mut right_acc = *self.delay_1.read(353);
        right_acc = right_acc + *self.delay_1.read(3627);
        right_acc = right_acc - *self.decay_diffusion_2_1.sample_buffer(1228);
        right_acc = right_acc + *self.delay_2.read(2673);
        right_acc = right_acc - *self.delay_3.read(2111);
        right_acc = right_acc - *self.decay_diffusion_2_2.sample_buffer(335);
        right_acc = right_acc - *self.delay_4.read(121);

        let out = [left_acc, right_acc];
        assert(out@ =~= seq![self@.left(), self@.right()]);
        out
    }

    /// Processes one block in place: sets the parameters, then feeds each
    /// position of the two channels as a frame and replaces both samples
    /// by their blend with the stereo pair that comes out, `wet` being the
    /// share of the reverberated signal.
    pub fn process_buffer(
        &mut self,
        params: PlateParams<T>,
        wet: T,
        left: &mut [T],
        right: &mut [T],
    )
        requires
            old(self).wf(),
            lawful::<T>(),
            old(left)@.len() == old(right)@.len(),
            old(self)@.replay_req(block(params, old(left)@, old(right)@)),
            forall|i: int|
                0 <= i < old(left)@.len() ==> {
                    let out = #[trigger] old(self)@.heard(
                        block(params, old(left)@, old(right)@),
                    )[i + 1];
                    &&& mix_req(wet, old(left)@[i], out[0])
                    &&& mix_req(wet, old(right)@[i], out[1])
                },
        ensures
            final(self).wf(),
            final(self)@ == old(self)@.replay(block(params, old(left)@, old(right)@)),
            final(left)@.len() == old(left)@.len(),
            final(right)@.len() == old(right)@.len(),
            forall|i: int|
                0 <= i < old(left)@.len() ==> {
                    let out = #[trigger] old(self)@.heard(
                        block(params, old(left)@, old(right)@),
                    )[i + 1];
                    &&& final(left)@[i] == mixed(wet, old(left)@[i], out[0])
                    &&& final(right)@[i] == mixed(wet, old(right)@[i], out[1])
                },
    {
        let ghost start = self@;
        let ghost dry_left = left@;
        let ghost dry_right = right@;
        let ghost events = block(params, dry_left, dry_right);
        let ghost outs = start.heard(events);
        proof {
            lemma_replay_req_below(start, events, 1);
            lemma_replay_unfolds(start, events, 0);
            assert(events.take(0) =~= Seq::<Event<T>>::empty());
        }
        self.set_params(params);
        let len = left.len();
        let mut at: usize = 0;
        while at < len
            invariant
                at <= len,
                len == dry_left.len(),
                len == dry_right.len(),
                left@.len() == len,
                right@.len() == len,
                lawful::<T>(),
                self.wf(),
                events == block(params, dry_left, dry_right),
                outs == start.heard(events),
                start.replay_req(events),
                self@ == start.replay(events.take(at + 1)),
                forall|i: int| at <= i < len ==> left@[i] == dry_left[i],
                forall|i: int| at <= i < len ==> right@[i] == dry_right[i],
                forall|i: int|
                    0 <= i < len ==> {
                        &&& mix_req(wet, dry_left[i], (#[trigger] outs[i + 1])[0])
                        &&& mix_req(wet, dry_right[i], outs[i + 1][1])
                    },
                forall|i: int|
                    0 <= i < at ==> {
                        &&& left@[i] == mixed(wet, dry_left[i], (#[trigger] outs[i + 1])[0])
                        &&& right@[i] == mixed(wet, dry_right[i], outs[i + 1][1])
                    },
            decreases len - at,
        {
            let inputs = [left[at], right[at]];
            proof {
                assert(inputs@ =~= seq![dry_left[at as int], dry_right[at as int]]);
                lemma_block_turn(start, params, dry_left, dry_right, at as int);
            }
            let plate_out = self.process_2ch(&inputs);
            left[at] = mix(wet, left[at], plate_out[0]);
            right[at] = mix(wet, right[at], plate_out[1]);
            at += 1;
        }
        assert(events.take(len + 1) =~= events);
    }

}

} // verus!
