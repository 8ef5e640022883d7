//! The component handle registry: which handles are live, and which one
//! the next allocation hands out.

use vstd::prelude::*;
use crate::types::{ComponentHandle, ErrorKind};

verus! {

/// How many distinct component handles exist.
pub const HANDLE_SPACE: usize = 256;

/// No identifier is left to hand out.
pub open spec fn exhausted(live: Set<ComponentHandle>) -> bool {
    forall|h: ComponentHandle| live.contains(h)
}

/// `h` is unused, and every smaller identifier is in use.
pub open spec fn is_first_free(live: Set<ComponentHandle>, h: ComponentHandle) -> bool {
    &&& !live.contains(h)
    &&& forall|g: ComponentHandle| g.0 < h.0 ==> live.contains(g)
}

/// The handle that the next allocation returns: the smallest unused one.
pub open spec fn first_free(live: Set<ComponentHandle>) -> ComponentHandle {
    choose|h: ComponentHandle| is_first_free(live, h)
}

/// At most one handle is the first free one.
pub proof fn lemma_first_free_unique(live: Set<ComponentHandle>, h: ComponentHandle)
    requires
        is_first_free(live, h),
    ensures
        first_free(live) == h,
        !exhausted(live),
{
    let c = first_free(live);
    assert(is_first_free(live, c));
    if c.0 < h.0 {
        assert(live.contains(c));
    }
    if h.0 < c.0 {
        assert(live.contains(h));
    }
}

/// Where some handle is unused, a first free one exists.
pub proof fn lemma_first_free_exists(live: Set<ComponentHandle>)
    requires
        !exhausted(live),
    ensures
        is_first_free(live, first_free(live)),
{
    let unused = choose|h: ComponentHandle| !live.contains(h);
    lemma_free_below(live, unused.0 as int);
}

/// Scanning upward from 0 to an unused identifier meets a first free one.
proof fn lemma_free_below(live: Set<ComponentHandle>, bound: int)
    requires
        0 <= bound < 256,
        !live.contains(ComponentHandle(bound as u8)),
    ensures
        exists|h: ComponentHandle| is_first_free(live, h),
    decreases bound,
{
    let candidate = ComponentHandle(bound as u8);
    if forall|g: ComponentHandle| g.0 < candidate.0 ==> live.contains(g) {
        assert(is_first_free(live, candidate));
    } else {
        let g = choose|g: ComponentHandle| g.0 < candidate.0 && !live.contains(g);
        assert(g == ComponentHandle(g.0));
        lemma_free_below(live, g.0 as int);
    }
}

/// The set of live component handles, kept as one flag per identifier.
pub struct HandleRegistry {
    slots: Vec<bool>,
}

impl View for HandleRegistry {
    type V = Set<ComponentHandle>;

    closed spec fn view(&self) -> Set<ComponentHandle> {
        Set::new(|h: ComponentHandle| self.slots@[h.0 as int])
    }
}

impl HandleRegistry {
    /// The representation invariant: one flag for each identifier.
    pub closed spec fn wf(&self) -> bool {
        self.slots@.len() == HANDLE_SPACE
    }

    /// A registry in which no handle is live.
    pub fn new() -> (registry: HandleRegistry)
        ensures
            registry.wf(),
            registry@ == Set::<ComponentHandle>::empty(),
    {
        let mut slots: Vec<bool> = Vec::new();
        let mut i: usize = 0;
        while i < HANDLE_SPACE
            invariant
                i <= HANDLE_SPACE,
                slots@.len() == i,
                forall|j: int| 0 <= j < i ==> !slots@[j],
            decreases HANDLE_SPACE - i,
        {
            slots.push(false);
            i += 1;
        }
        let registry = HandleRegistry { slots };
        assert(registry@ =~= Set::<ComponentHandle>::empty());
        registry
    }

    /// Whether `h` is live.
    pub fn contains(&self, h: ComponentHandle) -> (live: bool)
        requires
            self.wf(),
        ensures
            live == self@.contains(h),
    {
        self.slots[h.0 as usize]
    }

    /// Makes the smallest unused handle live and returns it; refuses with
    /// `ExhaustedHandleSpace` when every identifier is in use.
    pub fn allocate(&mut self) -> (result: Result<ComponentHandle, ErrorKind>)
        requires
            old(self).wf(),
        ensures
            final(self).wf(),
            match result {
                Ok(h) => {
                    &&& !exhausted(old(self)@)
                    &&& h == first_free(old(self)@)
                    &&& !old(self)@.contains(h)
                    &&& final(self)@ == old(self)@.insert(h)
                },
                Err(e) => {
                    &&& e == ErrorKind::ExhaustedHandleSpace
                    &&& exhausted(old(self)@)
                    &&& final(self)@ == old(self)@
                },
            },
    {
        let mut i: usize = 0;
        while i < HANDLE_SPACE
            invariant
                i <= HANDLE_SPACE,
                self.wf(),
                *self == *old(self),
                forall|j: int| 0 <= j < i ==> self.slots@[j],
            decreases HANDLE_SPACE - i,
        {
            if !self.slots[i] {
                let h = ComponentHandle(i as u8);
                self.slots[i] = true;
                proof {
                    assert(is_first_free(old(self)@, h));
                    lemma_first_free_unique(old(self)@, h);
                    assert(self@ =~= old(self)@.insert(h));
                }
                return Ok(h);
            }
            i += 1;
        }
        Err(ErrorKind::ExhaustedHandleSpace)
    }

    /// Ends the life of `h`; refuses with `UnknownHandle` when `h` is not live.
    pub fn release(&mut self, h: ComponentHandle) -> (result: Result<(), ErrorKind>)
        requires
            old(self).wf(),
        ensures
            final(self).wf(),
            match result {
                Ok(()) => old(self)@.contains(h) && final(self)@ == old(self)@.remove(h),
                Err(e) => {
                    &&& e == ErrorKind::UnknownHandle
                    &&& !old(self)@.contains(h)
                    &&& final(self)@ == old(self)@
                },
            },
    {
        let slot = h.0 as usize;
        if !self.slots[slot] {
            return Err(ErrorKind::UnknownHandle);
        }
        self.slots[slot] = false;
        assert(self@ =~= old(self)@.remove(h));
        Ok(())
    }

    /// Ends the life of every handle.
    pub fn clear(&mut self)
        requires
            old(self).wf(),
        ensures
            final(self).wf(),
            final(self)@ == Set::<ComponentHandle>::empty(),
    {
        let mut i: usize = 0;
        while i < HANDLE_SPACE
            invariant
                i <= HANDLE_SPACE,
                self.wf(),
                forall|j: int| 0 <= j < i ==> !self.slots@[j],
            decreases HANDLE_SPACE - i,
        {
            self.slots[i] = false;
            i += 1;
        }
        assert(self@ =~= Set::<ComponentHandle>::empty());
    }
}

} // verus!
