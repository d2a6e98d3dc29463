use vstd::prelude::*;

use crate::bitmap::Bitmap;
use crate::bitmap::BitmapView;

verus! {

/// The pool of bitmaps that sprites refer to by handle. It only grows: a
/// handle, once given out, names the same bitmap for as long as the store
/// lives.
#[derive(Debug)]
pub struct BitmapStore {
    bitmaps: Vec<Bitmap>,
}

impl View for BitmapStore {
    type V = Seq<BitmapView>;

    closed spec fn view(&self) -> Seq<BitmapView> {
        Seq::new(self.bitmaps@.len(), |i: int| self.bitmaps@[i]@)
    }
}

impl BitmapStore {
    /// Every bitmap in the store is well formed.
    pub open spec fn wf(&self) -> bool {
        forall|i: int| 0 <= i < self@.len() ==> (#[trigger] self@[i]).wf()
    }

    /// The empty store.
    pub fn new() -> (store: Self)
        ensures
            store.wf(),
            store@ == Seq::<BitmapView>::empty(),
    {
        let store = Self { bitmaps: Vec::new() };
        assert(store@ =~= Seq::<BitmapView>::empty());
        store
    }

    /// The number of bitmaps, which is also the next handle.
    pub fn len(&self) -> (len: usize)
        ensures
            len == self@.len(),
    {
        self.bitmaps.len()
    }

    /// Appends `bitmap` and returns its handle.
    pub fn insert(&mut self, bitmap: Bitmap) -> (handle: usize)
        requires
            old(self).wf(),
            bitmap.wf(),
        ensures
            final(self).wf(),
            final(self)@ == old(self)@.push(bitmap@),
            handle == old(self)@.len(),
    {
        self.bitmaps.push(bitmap);
        assert(self@ =~= old(self)@.push(bitmap@));
        self.bitmaps.len() - 1
    }

    /// The bitmap that `handle` names.
    pub fn get(&self, handle: usize) -> (bitmap: &Bitmap)
        requires
            self.wf(),
            handle < self@.len(),
        ensures
            bitmap@ == self@[handle as int],
            bitmap.wf(),
    {
        assert(self@[handle as int].wf());
        &self.bitmaps[handle]
    }
}

} // verus!
