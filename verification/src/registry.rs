//! The handle registry behind the create/destroy callbacks.
//!
//! The host addresses a native surface through an opaque non-zero handle.
//! The registry hands out fresh handles, keeps one surface per live
//! handle, and forgets a surface when its handle is destroyed: a
//! destroyed handle is invalid from then on, and is never handed out
//! again.

use vstd::prelude::*;
use crate::surface::{spec_window_size, NativeSurface};

verus! {

/// The live surfaces, each under the handle it was created with.
pub struct SurfaceRegistry {
    next: u64,
    entries: Vec<(u64, NativeSurface)>,
}

/// `post` is `pre` with only the entry at `i` changed.
pub open spec fn same_entries_except(
    pre: Seq<(u64, NativeSurface)>,
    post: Seq<(u64, NativeSurface)>,
    i: int,
) -> bool {
    &&& post.len() == pre.len()
    &&& forall|j: int| 0 <= j < pre.len() && j != i ==> post[j] == pre[j]
}

impl SurfaceRegistry {
    /// The live entries, in order of creation.
    pub closed spec fn entries_view(self) -> Seq<(u64, NativeSurface)> {
        self.entries@
    }

    /// The handle the next creation will return.
    pub closed spec fn next_handle(self) -> u64 {
        self.next
    }

    /// Whether `h` is a live handle.
    pub open spec fn contains_handle(self, h: u64) -> bool {
        exists|i: int|
            0 <= i < self.entries_view().len() && (#[trigger] self.entries_view()[i]).0 == h
    }

    /// Handles are non-zero, below the next one to be handed out, and
    /// strictly increasing in creation order (so no two entries share one).
    pub closed spec fn wf(self) -> bool {
        &&& 1 <= self.next
        &&& forall|i: int|
            0 <= i < self.entries@.len() ==> 0 < (#[trigger] self.entries@[i]).0 < self.next
        &&& forall|i: int, j: int|
            0 <= i < j < self.entries@.len() ==> (#[trigger] self.entries@[i]).0
                < (#[trigger] self.entries@[j]).0
    }

    /// Distinct live entries carry distinct handles.
    proof fn lemma_keys_distinct(self, i: int, j: int)
        requires
            self.wf(),
            0 <= i < self.entries_view().len(),
            0 <= j < self.entries_view().len(),
            i != j,
        ensures
            self.entries_view()[i].0 != self.entries_view()[j].0,
    {
        if i < j {
            assert(self.entries@[i].0 < self.entries@[j].0);
        } else {
            assert(self.entries@[j].0 < self.entries@[i].0);
        }
    }

    /// An empty registry; the first handle handed out is 1.
    pub fn new() -> (r: Self)
        ensures
            r.wf(),
            r.entries_view() == Seq::<(u64, NativeSurface)>::empty(),
            r.next_handle() == 1u64,
    {
        SurfaceRegistry { next: 1, entries: Vec::new() }
    }

    /// How many surfaces are live.
    pub fn handle_count(&self) -> (n: usize)
        ensures
            n == self.entries_view().len(),
    {
        self.entries.len()
    }

    /// The position of the entry for `h`, if `h` is live.
    fn find_index(&self, h: u64) -> (r: Option<usize>)
        ensures
            match r {
                Option::Some(i) => i < self.entries_view().len() && self.entries_view()[
                    i as int
                ].0 == h,
                Option::None => !self.contains_handle(h),
            },
    {
        let n = self.entries.len();
        let mut k: usize = 0;
        while k < n
            invariant
                n == self.entries@.len(),
                k <= n,
                forall|j: int| 0 <= j < k ==> (#[trigger] self.entries@[j]).0 != h,
            decreases n - k,
        {
            if self.entries[k].0 == h {
                return Some(k);
            }
            k = k + 1;
        }
        None
    }

    /// Whether `h` is a live handle, observably.
    pub fn contains(&self, h: u64) -> (b: bool)
        ensures
            b == self.contains_handle(h),
    {
        self.find_index(h).is_some()
    }

    /// Creates a fresh surface and returns its handle: non-zero, never
    /// live before, and live afterwards. All other surfaces are left
    /// untouched. Returns `None` only when the handle space is exhausted,
    /// and then changes nothing.
    pub fn create(&mut self) -> (r: Option<u64>)
        requires
            old(self).wf(),
        ensures
            final(self).wf(),
            (r is None) <==> old(self).next_handle() == u64::MAX,
            r is None ==> *final(self) == *old(self),
            match r {
                Option::None => true,
                Option::Some(h) => {
                    &&& h == old(self).next_handle()
                    &&& h != 0
                    &&& !old(self).contains_handle(h)
                    &&& final(self).contains_handle(h)
                    &&& final(self).next_handle() == old(self).next_handle() + 1
                    &&& final(self).entries_view().len() == old(self).entries_view().len() + 1
                    &&& forall|j: int|
                        0 <= j < old(self).entries_view().len() ==> final(self).entries_view()[j]
                            == old(self).entries_view()[j]
                    &&& final(self).entries_view().last().0 == h
                    &&& !final(self).entries_view().last().1.renderer_created()
                    &&& final(self).entries_view().last().1.reported_size() is None
                    &&& forall|h2: u64|
                        h2 != h ==> final(self).contains_handle(h2) == old(self).contains_handle(h2)
                },
            },
    {
        if self.next == u64::MAX {
            return None;
        }
        let h = self.next;
        self.next = h + 1;
        self.entries.push((h, NativeSurface::new()));
        proof {
            let pre = old(self).entries_view();
            let post = self.entries_view();
            assert(!old(self).contains_handle(h)) by {
                if old(self).contains_handle(h) {
                    let i = choose|i: int|
                        0 <= i < pre.len() && (#[trigger] pre[i]).0 == h;
                    assert(pre[i].0 < h);
                }
            }
            assert forall|h2: u64| h2 != h implies final(self).contains_handle(h2) == old(self).contains_handle(h2) by {
                if old(self).contains_handle(h2) {
                    let i = choose|i: int|
                        0 <= i < pre.len() && (#[trigger] pre[i]).0 == h2;
                    assert(post[i].0 == h2);
                }
                if self.contains_handle(h2) {
                    let i = choose|i: int|
                        0 <= i < post.len() && (#[trigger] post[i]).0 == h2;
                    assert(i < pre.len());
                    assert(pre[i].0 == h2);
                }
            }
        }
        Some(h)
    }

    /// Destroys the surface under `h`, if it is live: from then on `h` is
    /// invalid, everything else is untouched, and `h` is never handed out
    /// again. Reports whether `h` was live; when it was not, nothing
    /// changes.
    pub fn destroy(&mut self, h: u64) -> (found: bool)
        requires
            old(self).wf(),
        ensures
            final(self).wf(),
            found == old(self).contains_handle(h),
            !final(self).contains_handle(h),
            final(self).next_handle() == old(self).next_handle(),
            forall|h2: u64|
                h2 != h ==> final(self).contains_handle(h2) == old(self).contains_handle(h2),
            !found ==> *final(self) == *old(self),
            found ==> exists|i: int|
                0 <= i < old(self).entries_view().len() && (#[trigger] old(self).entries_view()[i]).0 == h && final(self).entries_view() == old(self).entries_view().remove(i),
    {
        match self.find_index(h) {
            None => false,
            Some(i) => {
                self.entries.remove(i);
                proof {
                    let pre = old(self).entries_view();
                    let post = self.entries_view();
                    let iw = i as int;
                    assert forall|j: int| 0 <= j < post.len() implies (#[trigger] post[j]).0
                        != h by {
                        if j < iw {
                            old(self).lemma_keys_distinct(j, iw);
                        } else {
                            old(self).lemma_keys_distinct(j + 1, iw);
                        }
                    }
                    assert forall|h2: u64| h2 != h implies self.contains_handle(h2) == old(self).contains_handle(h2) by {
                        if old(self).contains_handle(h2) {
                            let j = choose|j: int|
                                0 <= j < pre.len() && (#[trigger] pre[j]).0 == h2;
                            if j < iw {
                                assert(post[j].0 == h2);
                            } else {
                                assert(pre[iw].0 == h);
                                assert(j != iw);
                                assert(post[j - 1].0 == h2);
                            }
                        }
                        if self.contains_handle(h2) {
                            let j = choose|j: int|
                                0 <= j < post.len() && (#[trigger] post[j]).0 == h2;
                            if j < iw {
                                assert(pre[j].0 == h2);
                            } else {
                                assert(pre[j + 1].0 == h2);
                            }
                        }
                    }
                }
                true
            },
        }
    }

    /// Records the raw pixel size the host reports for the surface under
    /// `h`. Reports whether `h` was live; when it was not, nothing
    /// changes.
    pub fn set_surface_size(&mut self, h: u64, width: i32, height: i32) -> (found: bool)
        requires
            old(self).wf(),
        ensures
            final(self).wf(),
            found == old(self).contains_handle(h),
            final(self).next_handle() == old(self).next_handle(),
            forall|h2: u64| final(self).contains_handle(h2) == old(self).contains_handle(h2),
            !found ==> *final(self) == *old(self),
            found ==> exists|i: int|
                {
                    &&& 0 <= i < old(self).entries_view().len()
                    &&& (#[trigger] old(self).entries_view()[i]).0 == h
                    &&& same_entries_except(
                        old(self).entries_view(),
                        final(self).entries_view(),
                        i,
                    )
                    &&& final(self).entries_view()[i].0 == h
                    &&& final(self).entries_view()[i].1.reported_size() == Some((width, height))
                    &&& final(self).entries_view()[i].1.renderer_created() == old(self).entries_view()[i].1.renderer_created()
                },
    {
        match self.find_index(h) {
            None => false,
            Some(i) => {
                let (key, mut s) = self.entries.remove(i);
                s.set_surface_size(width, height);
                self.entries.insert(i, (key, s));
                proof {
                    self.lemma_entry_replaced(*old(self), i as int, h);
                }
                true
            },
        }
    }

    /// Begins a frame on the surface under `h`: marks its render context
    /// created and says whether the caller must build it now. A context
    /// is created at most once per surface. Returns `None`, changing
    /// nothing, when `h` is not live.
    pub fn begin_frame(&mut self, h: u64) -> (r: Option<bool>)
        requires
            old(self).wf(),
        ensures
            final(self).wf(),
            (r is Some) == old(self).contains_handle(h),
            final(self).next_handle() == old(self).next_handle(),
            forall|h2: u64| final(self).contains_handle(h2) == old(self).contains_handle(h2),
            r is None ==> *final(self) == *old(self),
            match r {
                Option::None => true,
                Option::Some(created) => exists|i: int|
                    {
                        &&& 0 <= i < old(self).entries_view().len()
                        &&& (#[trigger] old(self).entries_view()[i]).0 == h
                        &&& same_entries_except(
                            old(self).entries_view(),
                            final(self).entries_view(),
                            i,
                        )
                        &&& final(self).entries_view()[i].0 == h
                        &&& final(self).entries_view()[i].1.renderer_created()
                        &&& created == !old(self).entries_view()[i].1.renderer_created()
                        &&& final(self).entries_view()[i].1.reported_size() == old(self).entries_view()[i].1.reported_size()
                        &&& old(self).entries_view()[i].1.renderer_created() ==> final(self).entries_view()[i].1 == old(self).entries_view()[i].1
                    },
            },
    {
        match self.find_index(h) {
            None => None,
            Some(i) => {
                let (key, mut s) = self.entries.remove(i);
                let created = s.begin_frame();
                self.entries.insert(i, (key, s));
                proof {
                    self.lemma_entry_replaced(*old(self), i as int, h);
                }
                Some(created)
            },
        }
    }

    /// The window size a frame on the surface under `h` paints into, or
    /// `None` when `h` is not live.
    pub fn window_size(&self, h: u64) -> (r: Option<(u32, u32)>)
        ensures
            (r is Some) == self.contains_handle(h),
            match r {
                Option::None => true,
                Option::Some(sz) => exists|i: int|
                    {
                        &&& 0 <= i < self.entries_view().len()
                        &&& (#[trigger] self.entries_view()[i]).0 == h
                        &&& sz == spec_window_size(self.entries_view()[i].1.reported_size())
                    },
            },
    {
        match self.find_index(h) {
            None => None,
            Some(i) => Some(self.entries[i].1.window_size_or_default()),
        }
    }

    /// Replacing the entry at `i` with one under the same handle keeps
    /// the registry well-formed and the set of live handles unchanged.
    proof fn lemma_entry_replaced(self, pre: Self, i: int, h: u64)
        requires
            pre.wf(),
            0 <= i < pre.entries_view().len(),
            pre.entries_view()[i].0 == h,
            self.next_handle() == pre.next_handle(),
            self.entries_view() == pre.entries_view().remove(i).insert(
                i,
                (h, self.entries_view()[i].1),
            ),
        ensures
            self.wf(),
            same_entries_except(pre.entries_view(), self.entries_view(), i),
            self.entries_view()[i].0 == h,
            forall|h2: u64| self.contains_handle(h2) == pre.contains_handle(h2),
    {
        let a = pre.entries_view();
        let b = self.entries_view();
        assert(b =~= a.update(i, (h, b[i].1)));
        assert forall|h2: u64| self.contains_handle(h2) == pre.contains_handle(h2) by {
            if pre.contains_handle(h2) {
                let j = choose|j: int| 0 <= j < a.len() && (#[trigger] a[j]).0 == h2;
                assert(b[j].0 == h2);
            }
            if self.contains_handle(h2) {
                let j = choose|j: int| 0 <= j < b.len() && (#[trigger] b[j]).0 == h2;
                assert(a[j].0 == h2);
            }
        }
    }
}

} // verus!
