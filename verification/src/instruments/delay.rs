//! A delay line over a borrowed ring buffer.

use vstd::arithmetic::div_mod::{lemma_add_mod_noop, lemma_mod_bound, lemma_mod_self_0, lemma_small_mod};
use vstd::prelude::*;

verus! {

/// The buffer position that holds the sample written `delay` steps ago, in a
/// ring of `len` cells whose next write goes to `head`.
pub open spec fn slot(len: int, head: int, delay: int) -> int {
    let offset = delay % len;
    if offset <= head {
        head - offset
    } else {
        len + head - offset
    }
}

/// The contents of a ring read backwards in time: entry `i` is the sample at
/// delay `i + 1`, so entry 0 is the most recent write and the last entry is
/// the cell that the next write replaces.
pub open spec fn history<T>(cells: Seq<T>, head: int) -> Seq<T> {
    Seq::new(cells.len(), |i: int| cells[slot(cells.len() as int, head, i + 1)])
}

/// A history after one more write: the new sample in front, the oldest gone.
pub open spec fn pushed<T>(past: Seq<T>, value: T) -> Seq<T> {
    seq![value] + past.drop_last()
}

/// A history after a run of writes, `values[0]` first.
pub open spec fn pushed_all<T>(past: Seq<T>, values: Seq<T>) -> Seq<T>
    decreases values.len(),
{
    if values.len() == 0 {
        past
    } else {
        pushed(pushed_all(past, values.drop_last()), values.last())
    }
}

/// The sample that a history shows at `delay`; delays beyond the capacity
/// wrap around.
pub open spec fn tap<T>(past: Seq<T>, delay: int) -> T {
    past[(delay - 1) % (past.len() as int)]
}

/// The history of a line moved onto a buffer that held `fresh`: what fits of
/// the old history, newest first, then whatever the buffer already held in
/// the cells the old history does not reach.
pub open spec fn rehomed<T>(past: Seq<T>, fresh: Seq<T>) -> Seq<T> {
    Seq::new(
        fresh.len(),
        |i: int|
            if i < past.len() {
                past[i]
            } else {
                fresh[fresh.len() - 1 - i]
            },
    )
}

/// `slot` stays inside the ring and depends on `delay` only modulo `len`.
pub proof fn lemma_slot_in_ring(len: int, head: int, delay: int)
    requires
        0 <= head < len,
    ensures
        0 <= slot(len, head, delay) < len,
        slot(len, head, delay) == slot(len, head, delay % len),
{
    lemma_mod_bound(delay, len);
    lemma_small_mod((delay % len) as nat, len as nat);
}

/// Within one turn of the ring, `slot` walks backwards from `head - 1`.
pub proof fn lemma_slot_of_entry(len: int, head: int, i: int)
    requires
        0 <= head < len,
        0 <= i < len,
    ensures
        slot(len, head, i + 1) == if i < head {
            head - 1 - i
        } else {
            len + head - 1 - i
        },
{
    if i + 1 < len {
        lemma_small_mod((i + 1) as nat, len as nat);
    } else {
        lemma_mod_self_0(len);
    }
}

/// Reading a ring at `delay` is tapping its history at `delay`.
pub proof fn lemma_read_is_tap<T>(cells: Seq<T>, head: int, delay: int)
    requires
        0 <= head < cells.len(),
        delay >= 1,
    ensures
        cells[slot(cells.len() as int, head, delay)] == tap(history(cells, head), delay),
{
    let len = cells.len() as int;
    let i = (delay - 1) % len;
    lemma_mod_bound(delay - 1, len);
    lemma_add_mod_noop(delay - 1, 1, len);
    lemma_small_mod(i as nat, len as nat);
    if len == 1 {
        lemma_mod_bound(delay, len);
        lemma_mod_bound(i + 1, len);
    } else {
        lemma_small_mod(1, len as nat);
    }
    assert(delay % len == (i + 1) % len);
}

/// Writing `value` at `head` and advancing pushes `value` onto the history.
pub proof fn lemma_write_pushes<T>(cells: Seq<T>, head: int, value: T)
    requires
        0 <= head < cells.len(),
    ensures
        history(cells.update(head, value), (head + 1) % (cells.len() as int)) =~= pushed(
            history(cells, head),
            value,
        ),
{
    let len = cells.len() as int;
    let next = (head + 1) % len;
    if head + 1 < len {
        lemma_small_mod((head + 1) as nat, len as nat);
    } else {
        lemma_mod_self_0(len);
    }
    let after = history(cells.update(head, value), next);
    let expected = pushed(history(cells, head), value);
    assert forall|i: int| 0 <= i < len implies after[i] == expected[i] by {
        lemma_slot_of_entry(len, next, i);
        if i > 0 {
            lemma_slot_of_entry(len, head, i - 1);
        }
    }
}

/// A delay line: a ring of samples with a write position.
#[derive(Debug, PartialEq, Eq)]
pub struct Delay<'a, T> {
    head: usize,
    buffer: &'a mut [T],
}

impl<'a, T> Delay<'a, T> {
    /// The samples as they lie in the buffer.
    pub closed spec fn cells(&self) -> Seq<T> {
        self.buffer@
    }

    /// The position of the next write.
    pub closed spec fn head(&self) -> int {
        self.head as int
    }

    /// The number of samples the line holds.
    pub open spec fn capacity(&self) -> nat {
        self.cells().len()
    }

    /// The buffer is not empty and the write position lies inside it.
    pub open spec fn wf(&self) -> bool {
        0 <= self.head() < self.cells().len()
    }

    /// The samples by age: entry `i` was written `i + 1` steps ago.
    pub open spec fn view(&self) -> Seq<T> {
        history(self.cells(), self.head())
    }

    /// Starts a line on `buffer`, which must not be empty. The samples already
    /// in the buffer count as history, the last cell as the most recent.
    pub fn new(buffer: &'a mut [T]) -> (line: Delay<'a, T>)
        requires
            old(buffer)@.len() > 0,
        ensures
            line.wf(),
            line.head() == 0,
            line.cells() == old(buffer)@,
            line@ == old(buffer)@.reverse(),
    {
        proof {
            let cells = buffer@;
            assert forall|i: int| 0 <= i < cells.len() implies #[trigger] history(cells, 0)[i]
                == cells.reverse()[i] by {
                lemma_slot_of_entry(cells.len() as int, 0, i);
            }
            assert(history(cells, 0) =~= cells.reverse());
        }
        Delay { head: 0, buffer }
    }

    /// Stores `value` at the write position and advances it, overwriting the
    /// oldest sample.
    pub fn write(&mut self, value: T)
        requires
            old(self).wf(),
        ensures
            final(self).wf(),
            final(self).cells() == old(self).cells().update(old(self).head(), value),
            final(self).head() == (old(self).head() + 1) % (old(self).capacity() as int),
            final(self)@ == pushed(old(self)@, value),
    {
        proof {
            lemma_write_pushes(self.buffer@, self.head as int, value);
            lemma_mod_bound(self.head as int + 1, self.buffer@.len() as int);
        }
        self.buffer[self.head] = value;
        self.head = (self.head + 1) % self.buffer.len();
    }

    /// The sample written `delay` steps before the most recent write, where
    /// `delay == 1` is the most recent write itself. A delay beyond the
    /// capacity wraps around.
    pub fn read(&self, delay: usize) -> (sample: &T)
        requires
            self.wf(),
            delay >= 1,
        ensures
            *sample == self.cells()[slot(self.capacity() as int, self.head(), delay as int)],
            *sample == tap(self@, delay as int),
    {
        proof {
            lemma_read_is_tap(self.buffer@, self.head as int, delay as int);
        }
        &self.buffer[self.index(delay)]
    }

    /// The buffer position of the sample at `delay`.
    pub fn index(&self, delay: usize) -> (position: usize)
        requires
            self.wf(),
        ensures
            position == slot(self.capacity() as int, self.head(), delay as int),
            position < self.capacity(),
    {
        let buffer_len = self.buffer.len();
        let offset = delay % buffer_len;
        proof {
            lemma_slot_in_ring(buffer_len as int, self.head as int, delay as int);
        }
        if offset <= self.head {
            self.head - offset
        } else {
            buffer_len - (offset - self.head)
        }
    }

    /// Moves the line onto `buffer`, which must not be empty, keeping the most
    /// recent samples in order. A larger buffer keeps what it already held in
    /// the cells that the old history does not fill; a smaller one drops the
    /// oldest samples.
    pub fn resize<'b>(self, buffer: &'b mut [T]) -> (line: Delay<'b, T>)
        requires
            self.wf(),
            old(buffer)@.len() > 0,
        ensures
            line.wf(),
            line.head() == 0,
            line.capacity() == old(buffer)@.len(),
            line@ == rehomed(self@, old(buffer)@),
            line.cells() == rehomed(self@, old(buffer)@).reverse(),
    {
        let mut source = self;
        let new_len = buffer.len();
        let old_len = source.buffer.len();
        let keep = if new_len < old_len {
            new_len
        } else {
            old_len
        };
        let ghost past = source@;
        let ghost fresh = buffer@;
        let ghost old_cells = source.buffer@;
        let ghost old_head = source.head as int;
        let mut moved: usize = 0;
        while moved < keep
            invariant
                moved <= keep,
                keep <= new_len,
                keep <= old_len,
                new_len == fresh.len(),
                old_len == old_cells.len(),
                buffer@.len() == new_len,
                source.buffer@.len() == old_len,
                source.head as int == old_head,
                0 <= old_head < old_len,
                past == history(old_cells, old_head),
                forall|k: int| new_len - moved <= k < new_len ==> buffer@[k] == past[new_len - 1 - k],
                forall|k: int| 0 <= k < new_len - moved ==> buffer@[k] == fresh[k],
                forall|d: int|
                    moved < d <= old_len ==> source.buffer@[#[trigger] slot(
                        old_len as int,
                        old_head,
                        d,
                    )] == past[d - 1],
            decreases keep - moved,
        {
            let iota = moved + 1;
            let new_slot = new_len - iota;
            let old_slot = source.index(iota);
            proof {
                assert forall|d: int| iota < d <= old_len implies #[trigger] slot(
                    old_len as int,
                    old_head,
                    d,
                ) != old_slot by {
                    lemma_slot_of_entry(old_len as int, old_head, d - 1);
                    lemma_slot_of_entry(old_len as int, old_head, moved as int);
                }
            }
            core::mem::swap(&mut buffer[new_slot], &mut source.buffer[old_slot]);
            moved = iota;
        }
        proof {
            let target = rehomed(past, fresh);
            assert(buffer@ =~= target.reverse());
            assert(target.reverse().reverse() =~= target);
        }
        Delay::new(buffer)
    }

    /// The underlying buffer, in storage order.
    pub fn buffer(&self) -> (cells: &[T])
        ensures
            cells@ == self.cells(),
    {
        &*self.buffer
    }
}

impl<'a, T: Default> Delay<'a, T> {
    /// Overwrites every sample with a default value; the write position
    /// stays where it is.
    pub fn clear(&mut self)
        requires
            old(self).wf(),
        ensures
            final(self).wf(),
            final(self).head() == old(self).head(),
            final(self).capacity() == old(self).capacity(),
            forall|i: int|
                0 <= i < final(self).capacity() ==> call_ensures(
                    T::default,
                    (),
                    #[trigger] final(self).cells()[i],
                ),
    {
        let len = self.buffer.len();
        let mut at: usize = 0;
        while at < len
            invariant
                at <= len,
                len == self.buffer@.len(),
                self.head == old(self).head,
                forall|i: int| 0 <= i < at ==> call_ensures(T::default, (), #[trigger] self.buffer@[i]),
            decreases len - at,
        {
            self.buffer[at] = T::default();
            at += 1;
        }
    }
}

/// After a run of at most `capacity` writes, the sample at delay `d` is the
/// `d`-th value from the end of the run, for every `d` up to the length of
/// the run.
pub proof fn lemma_read_after_writes<T>(past: Seq<T>, values: Seq<T>, delay: int)
    requires
        past.len() > 0,
        values.len() <= past.len(),
        1 <= delay <= values.len(),
    ensures
        pushed_all(past, values).len() == past.len(),
        tap(pushed_all(past, values), delay) == values[values.len() - delay],
    decreases values.len(),
{
    lemma_pushed_all_len(past, values);
    lemma_pushed_all_len(past, values.drop_last());
    lemma_small_mod((delay - 1) as nat, past.len());
    if delay > 1 {
        lemma_read_after_writes(past, values.drop_last(), delay - 1);
        lemma_small_mod((delay - 2) as nat, past.len());
    }
}

/// Writes never change the capacity.
pub proof fn lemma_pushed_all_len<T>(past: Seq<T>, values: Seq<T>)
    requires
        past.len() > 0,
    ensures
        pushed_all(past, values).len() == past.len(),
    decreases values.len(),
{
    if values.len() > 0 {
        lemma_pushed_all_len(past, values.drop_last());
    }
}

/// A line moved onto another buffer shows, at every delay that both
/// capacities reach, the sample it showed before.
pub proof fn lemma_rehomed_keeps_recent<T>(past: Seq<T>, fresh: Seq<T>, delay: int)
    requires
        1 <= delay <= past.len(),
        delay <= fresh.len(),
    ensures
        tap(rehomed(past, fresh), delay) == tap(past, delay),
{
    lemma_small_mod((delay - 1) as nat, past.len());
    lemma_small_mod((delay - 1) as nat, fresh.len());
}

/// A delay beyond the capacity reads what the delay reduced modulo the
/// capacity reads; a multiple of the capacity reads the oldest sample.
pub proof fn lemma_read_wraps<T>(past: Seq<T>, delay: int)
    requires
        past.len() > 0,
        delay > past.len(),
    ensures
        delay % (past.len() as int) != 0 ==> tap(past, delay) == tap(
            past,
            delay % (past.len() as int),
        ),
        delay % (past.len() as int) == 0 ==> tap(past, delay) == tap(past, past.len() as int),
{
    let len = past.len() as int;
    let r = delay % len;
    lemma_mod_bound(delay, len);
    lemma_mod_bound(delay - 1, len);
    lemma_add_mod_noop(delay - 1, 1, len);
    lemma_small_mod(((delay - 1) % len) as nat, len as nat);
    if len > 1 {
        lemma_small_mod(1, len as nat);
    }
    if r != 0 {
        lemma_small_mod((r - 1) as nat, len as nat);
        assert(((delay - 1) % len + 1) % len == r);
        if (delay - 1) % len + 1 == len {
            lemma_mod_self_0(len);
        } else {
            lemma_small_mod(((delay - 1) % len + 1) as nat, len as nat);
        }
    } else {
        lemma_small_mod((len - 1) as nat, len as nat);
        if (delay - 1) % len + 1 < len {
            lemma_small_mod(((delay - 1) % len + 1) as nat, len as nat);
        }
    }
}

} // verus!
