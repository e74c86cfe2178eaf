//! A fixed-length array mirrored in a GPU buffer that is written only on
//! an explicit upload.
use vstd::prelude::*;

verus! {

/// The CPU side of a GPU-mirrored array, such as the per-instance
/// transforms of a mesh. Its length is fixed at creation; its elements
/// can be changed in place, after which the array is out of date on the
/// GPU until the owner uploads it and calls [`StagedArray::mark_uploaded`].
pub struct StagedArray<T> {
    data: Vec<T>,
    uploaded: bool,
}

impl<T> View for StagedArray<T> {
    type V = Seq<T>;

    closed spec fn view(&self) -> Seq<T> {
        self.data@
    }
}

impl<T> StagedArray<T> {
    /// Whether the GPU buffer holds the current contents.
    pub closed spec fn uploaded(&self) -> bool {
        self.uploaded
    }

    /// Whether the GPU buffer holds the current contents.
    pub fn is_uploaded(&self) -> (r: bool)
        ensures
            r == self.uploaded(),
    {
        self.uploaded
    }

    /// An array with the contents `data`, which the GPU buffer is created
    /// with.
    pub fn new(data: Vec<T>) -> (r: StagedArray<T>)
        ensures
            r@ == data@,
            r.uploaded(),
    {
        StagedArray { data, uploaded: true }
    }

    /// Number of elements.
    pub fn len(&self) -> (r: usize)
        ensures
            r == self@.len(),
    {
        self.data.len()
    }

    /// The element at `i`.
    pub fn get(&self, i: usize) -> (r: &T)
        requires
            i < self@.len(),
        ensures
            *r == self@[i as int],
    {
        &self.data[i]
    }

    /// Replaces the element at `i`; the GPU copy is then out of date.
    pub fn set(&mut self, i: usize, value: T)
        requires
            i < old(self)@.len(),
        ensures
            final(self)@ == old(self)@.update(i as int, value),
            !final(self).uploaded(),
    {
        self.data.set(i, value);
        self.uploaded = false;
    }

    /// The whole array, in order, as it is to be written to the buffer.
    pub fn as_slice(&self) -> (r: &[T])
        ensures
            r@ == self@,
    {
        self.data.as_slice()
    }

    /// Records that the current contents were written to the buffer.
    pub fn mark_uploaded(&mut self)
        ensures
            final(self)@ == old(self)@,
            final(self).uploaded(),
    {
        self.uploaded = true;
    }
}

} // verus!
