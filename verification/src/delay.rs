//! A circular buffer is a wrapper around a vector that only supports writing
//! at the next index, starting over at index 0 when the write cursor would
//! run off the end. Reading at a distance from the cursor retrieves samples
//! that were written that many operations ago, which is the foundation of
//! delay and filter effects in audio DSP. The sample type is a type
//! parameter: the buffer and delay logic never look inside a sample, they
//! only move samples around, so the indexing invariants hold for any `Copy`
//! sample type.

use vstd::prelude::*;

verus! {

/// The single error of this library: a read asked for a history length
/// greater than the buffer's capacity, so no slot holds such a sample.
#[derive(Clone, Copy, Debug, PartialEq, Eq, Structural)]
pub enum DelayError {
    RequestedDelayExceedsCapacity,
}

/// The slot holding the sample written `length_samples` writes ago, relative
/// to `cursor`: `(cursor - length_samples) mod capacity` with true
/// mathematical (non-negative) modulo, written without `%` so that the one
/// wraparound correction is explicit.
pub open spec fn read_index(cursor: int, length_samples: int, capacity: int) -> int {
    if length_samples <= cursor {
        cursor - length_samples
    } else {
        cursor - length_samples + capacity
    }
}

/// The write cursor after one write: advanced by one, wrapping to 0 at
/// `capacity`.
pub open spec fn next_cursor(cursor: int, capacity: int) -> int {
    if cursor + 1 == capacity {
        0
    } else {
        cursor + 1
    }
}

/// `read_index` is exactly the mathematical modulo `(cursor - length_samples)
/// mod capacity`, never a sign-preserving remainder: for a negative
/// difference the result is still in `[0, capacity)`.
pub proof fn lemma_read_index_is_euclidean_mod(cursor: int, length_samples: int, capacity: int)
    requires
        0 <= cursor < capacity,
        0 <= length_samples <= capacity,
    ensures
        read_index(cursor, length_samples, capacity) == (cursor - length_samples) % capacity,
{
    if length_samples <= cursor {
        vstd::arithmetic::div_mod::lemma_fundamental_div_mod_converse_mod(
            cursor - length_samples,
            capacity,
            0,
            cursor - length_samples,
        );
    } else {
        vstd::arithmetic::div_mod::lemma_fundamental_div_mod_converse_mod(
            cursor - length_samples,
            capacity,
            -1,
            cursor - length_samples + capacity,
        );
    }
}

/// What one write does to a buffer state `(storage, cursor)`: the slot at the
/// cursor is replaced by `value` and the cursor advances, wrapping to 0.
pub open spec fn spec_write<T>(storage: Seq<T>, cursor: int, value: T) -> (Seq<T>, int) {
    (storage.update(cursor, value), next_cursor(cursor, storage.len() as int))
}

/// The buffer state after writing every sample of `values` in order,
/// starting from `(storage, cursor)`.
pub open spec fn spec_write_all<T>(storage: Seq<T>, cursor: int, values: Seq<T>) -> (Seq<T>, int)
    decreases values.len(),
{
    if values.len() == 0 {
        (storage, cursor)
    } else {
        let first = spec_write(storage, cursor, values[0]);
        spec_write_all(first.0, first.1, values.drop_first())
    }
}

/// Writing a sequence keeps the buffer well formed: the storage length never
/// changes and the cursor stays inside it.
pub proof fn lemma_write_all_well_formed<T>(storage: Seq<T>, cursor: int, values: Seq<T>)
    requires
        1 <= storage.len(),
        0 <= cursor < storage.len(),
    ensures
        spec_write_all(storage, cursor, values).0.len() == storage.len(),
        0 <= spec_write_all(storage, cursor, values).1 < storage.len(),
    decreases values.len(),
{
    if values.len() > 0 {
        let first = spec_write(storage, cursor, values[0]);
        lemma_write_all_well_formed(first.0, first.1, values.drop_first());
    }
}

/// A run of writes ending in `value` is the run without it, followed by one
/// write of `value`.
pub proof fn lemma_write_all_push<T>(storage: Seq<T>, cursor: int, values: Seq<T>, value: T)
    ensures
        spec_write_all(storage, cursor, values.push(value)) == spec_write(
            spec_write_all(storage, cursor, values).0,
            spec_write_all(storage, cursor, values).1,
            value,
        ),
    decreases values.len(),
{
    if values.len() == 0 {
        assert(values.push(value).drop_first() =~= Seq::<T>::empty());
        let after_one = spec_write(storage, cursor, value);
        assert(spec_write_all(after_one.0, after_one.1, Seq::<T>::empty()) == after_one);
    } else {
        let first = spec_write(storage, cursor, values[0]);
        assert(values.push(value).drop_first() =~= values.drop_first().push(value));
        lemma_write_all_push(first.0, first.1, values.drop_first(), value);
    }
}

/// For every sequence of writes into a well-formed buffer, a read at distance
/// `k` with `1 <= k <= min(number of writes, capacity)` finds the k-th most
/// recently written value, however often the cursor has wrapped around.
pub proof fn lemma_read_after_writes<T>(storage: Seq<T>, cursor: int, values: Seq<T>, k: int)
    requires
        1 <= storage.len(),
        0 <= cursor < storage.len(),
        1 <= k <= values.len(),
        k <= storage.len(),
    ensures
        ({
            let after = spec_write_all(storage, cursor, values);
            after.0[read_index(after.1, k, storage.len() as int)] == values[values.len() - k]
        }),
    decreases values.len(),
{
    let prev = values.drop_last();
    assert(prev.push(values.last()) =~= values);
    lemma_write_all_push(storage, cursor, prev, values.last());
    lemma_write_all_well_formed(storage, cursor, prev);
    if k > 1 {
        lemma_read_after_writes(storage, cursor, prev, k - 1);
    }
}

/// Writing exactly `capacity` values and reading at distance `capacity`
/// returns the first value written: full wraparound lands on the oldest
/// surviving sample.
pub proof fn lemma_full_wraparound<T>(storage: Seq<T>, cursor: int, values: Seq<T>)
    requires
        1 <= storage.len(),
        0 <= cursor < storage.len(),
        values.len() == storage.len(),
    ensures
        ({
            let after = spec_write_all(storage, cursor, values);
            after.0[read_index(after.1, storage.len() as int, storage.len() as int)] == values[0]
        }),
{
    lemma_read_after_writes(storage, cursor, values, storage.len() as int);
}

/// A read at distance 0 and a read at distance `capacity` address the same
/// slot: the one at the write cursor, which the next write will overwrite.
/// With at least `capacity` writes done, `lemma_read_after_writes` shows that
/// this slot holds the value written `capacity` writes ago.
pub proof fn lemma_read_zero_is_cursor_slot(cursor: int, capacity: int)
    requires
        0 <= cursor < capacity,
    ensures
        read_index(cursor, 0, capacity) == cursor,
        read_index(cursor, capacity, capacity) == cursor,
{
}

/// Reading is non-destructive and deterministic: with no intervening write,
/// every read at the same distance yields the identical value. `read` pins
/// its result to `delayed`, so any two results of reads at the same distance
/// on the same buffer are equal.
pub proof fn lemma_read_idempotent<T: Copy>(buf: CircularBuffer<T>, length_samples: int, r1: T, r2: T)
    requires
        buf.well_formed(),
        0 <= length_samples <= buf.capacity(),
        r1 == buf.delayed(length_samples),
        r2 == buf.delayed(length_samples),
    ensures
        r1 == r2,
{
}

/// Fixed-capacity ring storage with one write cursor. The cursor always
/// points at the slot that the next write will fill.
pub struct CircularBuffer<T> {
    buffer: Vec<T>,
    write_index: usize,
}

impl<T: Copy> CircularBuffer<T> {
    /// The stored samples, by slot.
    pub closed spec fn storage(&self) -> Seq<T> {
        self.buffer@
    }

    /// The write cursor: the slot the next write will fill.
    pub closed spec fn cursor(&self) -> int {
        self.write_index as int
    }

    /// The fixed number of slots, chosen at construction.
    pub open spec fn capacity(&self) -> int {
        self.storage().len() as int
    }

    /// Invariant: at least one slot, and the cursor stays inside the storage.
    pub open spec fn well_formed(&self) -> bool {
        &&& 1 <= self.capacity()
        &&& 0 <= self.cursor() < self.capacity()
    }

    /// The sample that a read at distance `length_samples` returns: the
    /// contents of the slot `length_samples` before the cursor, modulo
    /// capacity.
    pub open spec fn delayed(&self, length_samples: int) -> T {
        self.storage()[read_index(self.cursor(), length_samples, self.capacity())]
    }

    /// Allocates `buffer_size` slots, every one holding `fill` (audio use
    /// passes silence), with the cursor at 0.
    pub fn new(buffer_size: usize, fill: T) -> (buf: Self)
        requires
            1 <= buffer_size,
        ensures
            buf.well_formed(),
            buf.capacity() == buffer_size,
            buf.cursor() == 0,
            forall|i: int| 0 <= i < buffer_size ==> buf.storage()[i] == fill,
    {
        let mut buffer: Vec<T> = Vec::new();
        while buffer.len() < buffer_size
            invariant
                buffer@.len() <= buffer_size,
                forall|i: int| 0 <= i < buffer@.len() ==> buffer@[i] == fill,
            decreases buffer_size - buffer@.len(),
        {
            buffer.push(fill);
        }
        CircularBuffer { buffer, write_index: 0 }
    }

    /// Stores `value` in the slot at the cursor, then advances the cursor by
    /// one, wrapping to 0 at the end. Mutates exactly that one slot.
    pub fn write(&mut self, value: T)
        requires
            old(self).well_formed(),
        ensures
            final(self).well_formed(),
            final(self).capacity() == old(self).capacity(),
            final(self).storage() == old(self).storage().update(old(self).cursor(), value),
            final(self).cursor() == next_cursor(old(self).cursor(), old(self).capacity()),
            (final(self).storage(), final(self).cursor()) == spec_write(
                old(self).storage(),
                old(self).cursor(),
                value,
            ),
    {
        let len: usize = self.buffer.len();
        self.buffer[self.write_index] = value;
        self.write_index += 1;
        if self.write_index == len {
            self.write_index = 0;
        }
    }

    /// Returns the sample written `length_samples` writes ago — the slot at
    /// `(cursor - length_samples) mod capacity` — without moving the cursor
    /// or touching storage. A distance greater than the capacity has no
    /// history to return and fails; it never yields a stale or wrong slot.
    pub fn read(&self, length_samples: usize) -> (r: Result<T, DelayError>)
        requires
            self.well_formed(),
        ensures
            r is Ok <==> length_samples <= self.capacity(),
            length_samples <= self.capacity() ==> r == Ok::<T, DelayError>(
                self.delayed(length_samples as int),
            ),
            length_samples > self.capacity() ==> r == Err::<T, DelayError>(
                DelayError::RequestedDelayExceedsCapacity,
            ),
    {
        if length_samples > self.buffer.len() {
            return Err(DelayError::RequestedDelayExceedsCapacity);
        }
        let idx: usize = if length_samples <= self.write_index {
            self.write_index - length_samples
        } else {
            self.buffer.len() - (length_samples - self.write_index)
        };
        Ok(self.buffer[idx])
    }
}

/// A delay line that manages its own circular buffer. Delay length and
/// feedback are supplied as inputs on every tick rather than stored, which
/// leaves room to modulate or recompute parameters per tick without any
/// accessors; callers can provide parameter management of their own.
pub struct SimpleDelay<T> {
    buffer: CircularBuffer<T>,
}

impl<T: Copy> SimpleDelay<T> {
    /// The samples stored in the owned buffer, by slot.
    pub closed spec fn storage(&self) -> Seq<T> {
        self.buffer.storage()
    }

    /// The owned buffer's write cursor.
    pub closed spec fn cursor(&self) -> int {
        self.buffer.cursor()
    }

    /// The owned buffer's capacity: the maximum deliverable delay length.
    pub open spec fn capacity(&self) -> int {
        self.storage().len() as int
    }

    /// Invariant, inherited from the owned buffer.
    pub open spec fn well_formed(&self) -> bool {
        &&& 1 <= self.capacity()
        &&& 0 <= self.cursor() < self.capacity()
    }

    /// The sample a tick at distance `delay_samples` returns.
    pub open spec fn delayed(&self, delay_samples: int) -> T {
        self.storage()[read_index(self.cursor(), delay_samples, self.capacity())]
    }

    /// Wraps one buffer of `buffer_size` slots, every one holding `fill`.
    pub fn new(buffer_size: usize, fill: T) -> (d: Self)
        requires
            1 <= buffer_size,
        ensures
            d.well_formed(),
            d.capacity() == buffer_size,
            d.cursor() == 0,
            forall|i: int| 0 <= i < buffer_size ==> d.storage()[i] == fill,
    {
        SimpleDelay { buffer: CircularBuffer::new(buffer_size, fill) }
    }

    /// One per-sample step: reads the sample `delay_samples` writes back —
    /// the return value, reflecting the state strictly prior to this tick —
    /// then writes `mix(input_sample, delayed_value)` over the oldest slot
    /// and advances the cursor. `mix` is where a caller folds the delayed
    /// value back into the input (for feedback, `input + delayed * amount`).
    /// Fails exactly as the buffer read fails, leaving the state untouched,
    /// when `delay_samples` exceeds the capacity.
    pub fn tick<F: FnOnce(T, T) -> T>(
        &mut self,
        input_sample: T,
        delay_samples: usize,
        mix: F,
    ) -> (r: Result<T, DelayError>)
        requires
            old(self).well_formed(),
            forall|delayed_value: T| call_requires(mix, (input_sample, delayed_value)),
        ensures
            final(self).well_formed(),
            final(self).capacity() == old(self).capacity(),
            r is Ok <==> delay_samples <= old(self).capacity(),
            delay_samples > old(self).capacity() ==> r == Err::<T, DelayError>(
                DelayError::RequestedDelayExceedsCapacity,
            ) && *final(self) == *old(self),
            delay_samples <= old(self).capacity() ==> r == Ok::<T, DelayError>(
                old(self).delayed(delay_samples as int),
            ),
            delay_samples <= old(self).capacity() ==> exists|written: T|
                #[trigger] call_ensures(
                    mix,
                    (input_sample, old(self).delayed(delay_samples as int)),
                    written,
                ) && (final(self).storage(), final(self).cursor()) == spec_write(
                    old(self).storage(),
                    old(self).cursor(),
                    written,
                ),
    {
        let output = match self.buffer.read(delay_samples) {
            Ok(delayed_value) => delayed_value,
            Err(e) => {
                return Err(e);
            },
        };
        let mixed = mix(input_sample, output);
        self.buffer.write(mixed);
        Ok(output)
    }
}

/// A pair of named tap outputs (for example left/right or dry/wet): a plain
/// value carrier for higher-level composition, with no behavior of its own.
pub struct DelayTap<T>(pub T, pub T);

} // verus!
