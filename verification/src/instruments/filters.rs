//! The two filters of the reverberator: an all-pass diffuser and a recursive
//! filter of fixed order.

use crate::instruments::delay::{pushed, tap, Delay};
use crate::sample::{lawful, make_zero, zero, Sample};
use vstd::prelude::*;
use vstd::std_specs::ops::{AddSpec, MulSpec, SubSpec};

verus! {

/// What an all-pass diffuser is made of: two coefficients, a lookback
/// distance and the history of its delay line, newest sample first.
pub struct ApfView<T> {
    pub feedforward: T,
    pub feedback: T,
    pub delay: nat,
    pub line: Seq<T>,
}

impl<T: Sample> ApfView<T> {
    /// The lookback distance is positive and within the line.
    pub open spec fn wf(self) -> bool {
        1 <= self.delay <= self.line.len()
    }

    /// The delayed sample that the next step reads.
    pub open spec fn delayed(self) -> T {
        tap(self.line, self.delay as int)
    }

    /// What the next step writes into the line for input `x`: the input
    /// less the fed-back delayed sample.
    pub open spec fn inner(self, x: T) -> T {
        x.sub_spec(self.feedback.mul_spec(self.delayed()))
    }

    /// What the next step returns for input `x`.
    pub open spec fn output(self, x: T) -> T {
        self.feedforward.mul_spec(self.inner(x)).add_spec(self.delayed())
    }

    /// Every operation of the next step on input `x` is defined.
    pub open spec fn tick_req(self, x: T) -> bool {
        &&& self.feedback.mul_req(self.delayed())
        &&& x.sub_req(self.feedback.mul_spec(self.delayed()))
        &&& self.feedforward.mul_req(self.inner(x))
        &&& self.feedforward.mul_spec(self.inner(x)).add_req(self.delayed())
    }

    /// The diffuser after a step on input `x`.
    pub open spec fn ticked(self, x: T) -> ApfView<T> {
        ApfView { line: pushed(self.line, self.inner(x)), ..self }
    }

    /// The diffuser with new coefficients and lookback, its history kept.
    pub open spec fn configured(self, feedforward: T, feedback: T, delay: nat) -> ApfView<T> {
        ApfView { feedforward, feedback, delay, line: self.line }
    }
}

/// A Schroeder all-pass filter over a delay line.
#[derive(Debug, PartialEq, Eq)]
pub struct APF<'a, T> {
    delay: usize,
    a: T,
    b: T,
    delay_line: Delay<'a, T>,
}

impl<'a, T: Sample> APF<'a, T> {
    /// Coefficients, lookback and history.
    pub closed spec fn view(&self) -> ApfView<T> {
        ApfView {
            feedforward: self.a,
            feedback: self.b,
            delay: self.delay as nat,
            line: self.delay_line@,
        }
    }

    /// The delay line is in order.
    pub closed spec fn intact(&self) -> bool {
        self.delay_line.wf()
    }

    /// The delay line is in order and the lookback lies within it.
    pub open spec fn wf(&self) -> bool {
        &&& self.intact()
        &&& self@.wf()
    }

    /// A diffuser on `buffer`, which must not be empty, with both
    /// coefficients zero and lookback one. What the buffer holds becomes the
    /// history of the line.
    pub fn new(buffer: &'a mut [T]) -> (filter: APF<'a, T>)
        requires
            lawful::<T>(),
            old(buffer)@.len() > 0,
        ensures
            filter.wf(),
            filter@ == (ApfView {
                feedforward: zero::<T>(),
                feedback: zero::<T>(),
                delay: 1,
                line: old(buffer)@.reverse(),
            }),
    {
        Self::with_params(buffer, 1, make_zero(), make_zero())
    }

    /// A diffuser on `buffer` with feedforward `a`, feedback `b` and lookback
    /// `delay`. The lookback must be positive and the buffer must hold at
    /// least that many samples, which become the history of the line.
    pub fn with_params(buffer: &'a mut [T], delay: usize, a: T, b: T) -> (filter: APF<'a, T>)
        requires
            1 <= delay <= old(buffer)@.len(),
        ensures
            filter.wf(),
            filter@ == (ApfView {
                feedforward: a,
                feedback: b,
                delay: delay as nat,
                line: old(buffer)@.reverse(),
            }),
    {
        APF { delay, a, b, delay_line: Delay::new(buffer) }
    }

    /// Replaces the coefficients and the lookback; the history stays.
    pub fn set_params(&mut self, a: T, b: T, delay: usize)
        requires
            old(self).wf(),
            1 <= delay <= old(self)@.line.len(),
        ensures
            final(self).wf(),
            final(self)@ == old(self)@.configured(a, b, delay as nat),
    {
        self.a = a;
        self.b = b;
        self.delay = delay;
    }

    /// The sample at `delay` in the internal line; nothing changes. A delay
    /// beyond the capacity wraps around.
    pub fn sample_buffer(&self, delay: usize) -> (sample: &T)
        requires
            self.wf(),
            delay >= 1,
        ensures
            *sample == tap(self@.line, delay as int),
    {
        self.delay_line.read(delay)
    }

    /// One step of the filter: reads the delayed sample `z`, writes
    /// `x - feedback * z` into the line and returns
    /// `feedforward * (x - feedback * z) + z`.
    pub fn tick(&mut self, x: T) -> (y: T)
        requires
            old(self).wf(),
            lawful::<T>(),
            old(self)@.tick_req(x),
        ensures
            final(self).wf(),
            y == old(self)@.output(x),
            final(self)@ == old(self)@.ticked(x),
    {
        let z = *self.delay_line.read(self.delay);
        let x = x - self.b * z;
        let y = self.a * x + z;
        self.delay_line.write(x);
        y
    }
}

/// What a recursive filter is made of: its feedback coefficients, its
/// input gain and its past outputs, newest first.
pub struct IirView<T> {
    pub coeffs: Seq<T>,
    pub gain: T,
    pub state: Seq<T>,
}

impl<T: Sample> IirView<T> {
    /// There is at least one coefficient and a past output for each.
    pub open spec fn wf(self) -> bool {
        1 <= self.coeffs.len() <= self.state.len()
    }

    /// The sum of the first `n` products of a past output and its
    /// coefficient, added up from zero in order.
    pub open spec fn partial(self, n: nat) -> T
        decreases n,
    {
        if n == 0 {
            zero::<T>()
        } else {
            self.partial((n - 1) as nat).add_spec(
                self.state[n - 1].mul_spec(self.coeffs[n - 1]),
            )
        }
    }

    /// Every operation in `partial(n)` is defined.
    pub open spec fn partial_req(self, n: nat) -> bool
        decreases n,
    {
        n == 0 || {
            &&& self.partial_req((n - 1) as nat)
            &&& self.state[n - 1].mul_req(self.coeffs[n - 1])
            &&& self.partial((n - 1) as nat).add_req(
                self.state[n - 1].mul_spec(self.coeffs[n - 1]),
            )
        }
    }

    /// The feedback part of the next output.
    pub open spec fn feedback_sum(self) -> T {
        self.partial(self.coeffs.len())
    }

    /// What the next step returns for input `x`: the feedback sum plus the
    /// input times the gain.
    pub open spec fn output(self, x: T) -> T {
        self.feedback_sum().add_spec(x.mul_spec(self.gain))
    }

    /// Every operation of the next step on input `x` is defined.
    pub open spec fn tick_req(self, x: T) -> bool {
        &&& self.partial_req(self.coeffs.len())
        &&& x.mul_req(self.gain)
        &&& self.feedback_sum().add_req(x.mul_spec(self.gain))
    }

    /// The filter after a step on input `x`: the output joins the past
    /// outputs and the oldest leaves.
    pub open spec fn ticked(self, x: T) -> IirView<T> {
        IirView { state: pushed(self.state, self.output(x)), ..self }
    }

    /// The filter with new coefficients and gain, its past outputs kept.
    pub open spec fn configured(self, coeffs: Seq<T>, gain: T) -> IirView<T> {
        IirView { coeffs, gain, state: self.state }
    }
}

/// A recursive filter of order `ORDER` in direct form.
#[derive(Debug, PartialEq, Eq)]
pub struct IIR<'a, T, const ORDER: usize> {
    a: [T; ORDER],
    b: T,
    z: &'a mut [T],
}

impl<'a, T: Sample, const ORDER: usize> IIR<'a, T, ORDER> {
    /// Coefficients, gain and past outputs.
    pub closed spec fn view(&self) -> IirView<T> {
        IirView { coeffs: self.a@, gain: self.b, state: self.z@ }
    }

    /// The order is at least one and there is a past output for each
    /// coefficient.
    pub open spec fn wf(&self) -> bool {
        &&& self@.wf()
        &&& self@.coeffs.len() == ORDER
    }

    /// A filter on `buffer` whose coefficients and gain are all zero. The
    /// order must be at least one and the buffer must hold `ORDER` samples
    /// or more, which become the past outputs.
    pub fn new(buffer: &'a mut [T]) -> (filter: Self)
        requires
            lawful::<T>(),
            1 <= ORDER <= old(buffer)@.len(),
        ensures
            filter.wf(),
            filter@ == (IirView {
                coeffs: Seq::new(ORDER as nat, |i: int| zero::<T>()),
                gain: zero::<T>(),
                state: old(buffer)@,
            }),
    {
        let z: T = make_zero();
        let a: [T; ORDER] = [z;ORDER];
        assert(a@ =~= Seq::new(ORDER as nat, |i: int| zero::<T>()));
        Self::new_with_params(buffer, a, z)
    }

    /// A filter on `buffer` with feedback coefficients `a` and input gain
    /// `b`. The order must be at least one and the buffer must hold `ORDER`
    /// samples or more, which become the past outputs.
    pub fn new_with_params(buffer: &'a mut [T], a: [T; ORDER], b: T) -> (filter: Self)
        requires
            1 <= ORDER <= old(buffer)@.len(),
        ensures
            filter.wf(),
            filter@ == (IirView { coeffs: a@, gain: b, state: old(buffer)@ }),
    {
        Self { a, b, z: buffer }
    }

    /// Replaces the coefficients and the gain; the past outputs stay.
    pub fn set_params(&mut self, a: [T; ORDER], b: T)
        requires
            old(self).wf(),
        ensures
            final(self).wf(),
            final(self)@ == old(self)@.configured(a@, b),
    {
        self.a = a;
        self.b = b;
    }

    /// One step of the filter: returns the sum of each past output times
    /// its coefficient, plus `x` times the gain, and records it as the most
    /// recent output.
    pub fn tick(&mut self, x: T) -> (y: T)
        requires
            old(self).wf(),
            lawful::<T>(),
            old(self)@.tick_req(x),
        ensures
            final(self).wf(),
            y == old(self)@.output(x),
            final(self)@ == old(self)@.ticked(x),
    {
        let ghost before = self@;
        let mut z: T = make_zero();
        let mut iota: usize = 0;
        while iota < ORDER
            invariant
                iota <= ORDER,
                lawful::<T>(),
                self@ == before,
                before.wf(),
                before.coeffs.len() == ORDER,
                before.partial_req(ORDER as nat),
                before.partial_req(iota as nat),
                z == before.partial(iota as nat),
            decreases ORDER - iota,
        {
            proof {
                lemma_partial_req_below(before, iota as nat + 1, ORDER as nat);
            }
            z = z + self.z[iota] * self.a[iota];
            iota += 1;
        }
        let y = z + x * self.b;
        let len = self.z.len();
        let mut k: usize = len - 1;
        while k > 0
            invariant
                k < len,
                len == before.state.len(),
                self.z@.len() == len,
                self.a@ == before.coeffs,
                self.b == before.gain,
                forall|i: int| 0 <= i <= k ==> self.z@[i] == before.state[i],
                forall|i: int| k < i < len ==> self.z@[i] == before.state[i - 1],
            decreases k,
        {
            self.z[k] = self.z[k - 1];
            k -= 1;
        }
        self.z[0] = y;
        assert(self.z@ =~= pushed(before.state, y));
        y
    }
}

/// A filter of order one returns zero, plus its last output times its
/// coefficient, plus the input times its gain.
pub proof fn lemma_first_order<T: Sample>(filter: IirView<T>, x: T)
    requires
        filter.coeffs.len() == 1,
    ensures
        filter.output(x) == zero::<T>().add_spec(
            filter.state[0].mul_spec(filter.coeffs[0]),
        ).add_spec(x.mul_spec(filter.gain)),
        filter.tick_req(x) <==> {
            &&& filter.state[0].mul_req(filter.coeffs[0])
            &&& zero::<T>().add_req(filter.state[0].mul_spec(filter.coeffs[0]))
            &&& x.mul_req(filter.gain)
            &&& zero::<T>().add_spec(filter.state[0].mul_spec(filter.coeffs[0])).add_req(
                x.mul_spec(filter.gain),
            )
        },
{
    reveal_with_fuel(IirView::partial, 2);
    reveal_with_fuel(IirView::partial_req, 2);
}

/// If every operation of a longer partial sum is defined, so is every
/// operation of a shorter one.
pub proof fn lemma_partial_req_below<T: Sample>(filter: IirView<T>, n: nat, m: nat)
    requires
        n <= m,
        filter.partial_req(m),
    ensures
        filter.partial_req(n),
    decreases m,
{
    if n < m {
        lemma_partial_req_below(filter, n, (m - 1) as nat);
    }
}

} // verus!
