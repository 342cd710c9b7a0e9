//! Byte arithmetic of the growable GPU buffers: sizes, offsets, and what a
//! buffer holds after it grows to take new data.
use vstd::prelude::*;

verus! {

/// Number of bytes that the elements of `vec` take together.
pub fn size_of_vec<T>(vec: &Vec<T>) -> (r: usize)
    requires
        vec@.len() * vstd::layout::size_of::<T>() <= usize::MAX,
    ensures
        r == vec@.len() * vstd::layout::size_of::<T>(),
{
    vec.len() * core::mem::size_of::<T>()
}

/// The byte offset of a value of type `T` placed after `len` values of type `T`.
pub fn offset_of<T>(len: usize) -> (r: usize)
    requires
        len * vstd::layout::size_of::<T>() <= usize::MAX,
    ensures
        r == len * vstd::layout::size_of::<T>(),
{
    len * core::mem::size_of::<T>()
}

/// How many values a growable buffer holds and how many bytes it has room for.
#[derive(Clone, Copy, Debug, PartialEq, Eq, Structural)]
pub struct BufferState {
    /// The number of values stored, all of one size.
    pub len: usize,
    /// The buffer's size in bytes.
    pub capacity: usize,
}

/// What pushing a value onto a buffer does.
#[derive(Clone, Copy, Debug, PartialEq, Eq, Structural)]
pub enum PushStep {
    /// The value fits: its bytes are written at `offset`, right after the
    /// stored values.
    Write { offset: usize },
    /// The value does not fit: the buffer is recreated with `new_capacity`
    /// bytes, holding the stored values followed by the new one.
    Grow { new_capacity: usize },
}

/// The state after pushing a value of `value_size` bytes, and the step that
/// does it: the value goes right after the `len` stored values; it is written
/// in place when it ends within the capacity, and otherwise the buffer grows to
/// twice its capacity plus the value's size.
pub open spec fn push_outcome(s: BufferState, value_size: nat) -> (BufferState, PushStep) {
    let offset = s.len * value_size;
    if offset + value_size <= s.capacity {
        (
            BufferState { len: (s.len + 1) as usize, capacity: s.capacity },
            PushStep::Write { offset: offset as usize },
        )
    } else {
        let grown_capacity = 2 * s.capacity + value_size;
        (
            BufferState { len: (s.len + 1) as usize, capacity: grown_capacity as usize },
            PushStep::Grow { new_capacity: grown_capacity as usize },
        )
    }
}

impl BufferState {
    /// Records the push of one value of `value_size` bytes and tells how it
    /// is done: written in place after the stored values when it fits, and by
    /// growing the buffer otherwise.
    pub fn push(&mut self, value_size: usize) -> (step: PushStep)
        requires
            old(self).len < usize::MAX,
            old(self).len * value_size + value_size <= usize::MAX,
            old(self).len * value_size + value_size > old(self).capacity ==> 2 * old(self).capacity
                + value_size <= usize::MAX,
        ensures
            (*final(self), step) == push_outcome(*old(self), value_size as nat),
            final(self).len == old(self).len + 1,
    {
        proof {
            assert(self.len * value_size <= self.len * value_size + value_size);
        }
        let offset = self.len * value_size;
        self.len = self.len + 1;
        if offset + value_size <= self.capacity {
            PushStep::Write { offset }
        } else {
            let new_capacity = 2 * self.capacity + value_size;
            self.capacity = new_capacity;
            PushStep::Grow { new_capacity }
        }
    }
}

/// `old` with `data` written over it from `offset` on.
pub open spec fn written(old: Seq<u8>, offset: nat, data: Seq<u8>) -> Seq<u8> {
    old.take(offset as int) + data + old.skip((offset + data.len()) as int)
}

/// A buffer of `new_capacity` bytes holding the first `stored` bytes of `old`,
/// then `data`, then zeros.
pub open spec fn grown(old: Seq<u8>, stored: nat, data: Seq<u8>, new_capacity: nat) -> Seq<u8> {
    old.take(stored as int) + data + Seq::new(
        (new_capacity - stored - data.len()) as nat,
        |i: int| 0u8,
    )
}

/// What a buffer holding `old`, whose first `stored` bytes are its values,
/// holds after the push step `step` of `data`.
pub open spec fn after_push(old: Seq<u8>, stored: nat, data: Seq<u8>, step: PushStep) -> Seq<u8> {
    match step {
        PushStep::Write { offset } => written(old, offset as nat, data),
        PushStep::Grow { new_capacity } => grown(old, stored, data, new_capacity as nat),
    }
}

/// The contents of a grown buffer: the first `stored` bytes of `old`, then
/// `data`, then zeros up to `new_capacity` bytes.
pub fn grown_contents(old: &[u8], stored: usize, data: &[u8], new_capacity: usize) -> (r: Vec<u8>)
    requires
        stored <= old@.len(),
        stored + data@.len() <= new_capacity,
    ensures
        r@ == grown(old@, stored as nat, data@, new_capacity as nat),
{
    let mut out = vstd::slice::slice_to_vec(old);
    out.truncate(stored);
    let ghost kept = out@;
    out.extend_from_slice(data);
    assert(out@ == kept + data@);
    let ghost filled = out@;
    out.resize(new_capacity, 0u8);
    assert(out@ == filled + Seq::new((new_capacity - stored - data@.len()) as nat, |i: int| 0u8));
    out
}

/// A push appends: after it, the buffer's values are the stored ones followed
/// at once by the pushed value, the buffer has the recorded capacity, and the
/// values still fit in it.
pub proof fn law_push_appends(before: BufferState, old: Seq<u8>, data: Seq<u8>)
    requires
        old.len() == before.capacity,
        before.len < usize::MAX,
        before.len * data.len() <= before.capacity,
        before.len * data.len() + data.len() <= usize::MAX,
        before.len * data.len() + data.len() > before.capacity ==> 2 * before.capacity + data.len()
            <= usize::MAX,
    ensures
        ({
            let (after, step) = push_outcome(before, data.len());
            let contents = after_push(old, (before.len * data.len()) as nat, data, step);
            &&& contents.len() == after.capacity
            &&& contents.take(after.len * data.len()) == old.take(before.len * data.len()) + data
            &&& after.len * data.len() <= after.capacity
        }),
{
    let n = data.len();
    let stored = (before.len * n) as nat;
    assert((before.len + 1) * n == stored + n) by (nonlinear_arith)
        requires
            stored == before.len * n,
    ;
    let (after, step) = push_outcome(before, n);
    let contents = after_push(old, stored, data, step);
    assert(after.len * n == stored + n);
    assert(contents.take((stored + n) as int) =~= old.take(stored as int) + data);
}

} // verus!
