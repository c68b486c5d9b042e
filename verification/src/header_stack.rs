//! The section-header stack: traversal-scoped state recording the nearest
//! enclosing header text at each of the six heading levels, updated as the
//! walker crosses heading nodes.

use vstd::prelude::*;

use crate::text::copy_bytes;

verus! {

/// The lowest heading level.
pub const LOWEST_HEADER: usize = 1;

/// The highest heading level.
pub const HIGHEST_HEADER: usize = 6;

/// One reported header: its text and its level.
pub struct Header {
    pub text: Vec<u8>,
    pub level: u8,
}

impl Header {
    /// Packs a header's text and level.
    pub fn new(text: Vec<u8>, level: u8) -> (r: Header)
        ensures
            r.text@ == text@,
            r.level == level,
    {
        Header { text, level }
    }
}

/// The current enclosing header text at each level 1 to 6, or absent.
pub struct HeaderStack {
    slots: Vec<Option<Vec<u8>>>,
}

/// The abstract value of one slot.
pub open spec fn opt_text_view(o: Option<Vec<u8>>) -> Option<Seq<u8>> {
    match o {
        Some(v) => Some(v@),
        None => None,
    }
}

/// The abstract value of a whole slot vector.
pub open spec fn slots_view(slots: Seq<Option<Vec<u8>>>) -> Seq<Option<Seq<u8>>> {
    slots.map_values(|o: Option<Vec<u8>>| opt_text_view(o))
}

/// What crossing a heading at `level` does to the stack: the slot at
/// `level` takes the heading's text, every deeper slot is cleared, and
/// every shallower slot is kept — so the stack always reflects a
/// well-formed nesting path, whatever malformed input skipped.
pub open spec fn spec_cross(
    s: Seq<Option<Seq<u8>>>,
    level: int,
    text: Seq<u8>,
) -> Seq<Option<Seq<u8>>> {
    Seq::new(
        6,
        |j: int|
            if j < level - 1 {
                s[j]
            } else if j == level - 1 {
                Some(text)
            } else {
                None
            },
    )
}

impl HeaderStack {
    /// The stack's abstract value.
    pub closed spec fn view_spec(&self) -> Seq<Option<Seq<u8>>> {
        slots_view(self.slots@)
    }

    /// Six slots, always.
    pub closed spec fn wf(&self) -> bool {
        self.slots@.len() == 6
    }

    /// A fresh stack: every level absent.
    pub fn new() -> (r: HeaderStack)
        ensures
            r.wf(),
            r.view_spec().len() == 6,
            forall|j: int| 0 <= j < 6 ==> r.view_spec()[j] is None,
    {
        let mut slots: Vec<Option<Vec<u8>>> = Vec::new();
        let mut i: usize = 0;
        while i < 6
            invariant
                0 <= i <= 6,
                slots@.len() == i,
                forall|j: int| 0 <= j < i ==> slots@[j] is None,
            decreases 6 - i,
        {
            slots.push(None);
            i = i + 1;
        }
        HeaderStack { slots }
    }

    /// Clears every level, as is done between pages.
    pub fn reset(&mut self)
        requires
            old(self).wf(),
        ensures
            final(self).wf(),
            final(self).view_spec().len() == 6,
            forall|j: int| 0 <= j < 6 ==> final(self).view_spec()[j] is None,
    {
        let mut i: usize = 0;
        while i < 6
            invariant
                0 <= i <= 6,
                self.slots@.len() == 6,
                forall|j: int| 0 <= j < i ==> self.slots@[j] is None,
            decreases 6 - i,
        {
            self.slots.set(i, None);
            i = i + 1;
        }
    }

    /// The text at a level, or absent.
    pub fn get(&self, level: usize) -> (r: &Option<Vec<u8>>)
        requires
            self.wf(),
            LOWEST_HEADER <= level <= HIGHEST_HEADER,
        ensures
            (match r {
                Some(v) => self.view_spec()[level - 1] == Some(v@),
                None => self.view_spec()[level - 1] is None,
            }),
    {
        &self.slots[level - 1]
    }

    /// Crosses a heading: sets the slot at `level`, clears all deeper
    /// slots, keeps all shallower ones.
    pub fn cross(&mut self, level: u8, text: Vec<u8>)
        requires
            old(self).wf(),
            1 <= level <= 6,
        ensures
            final(self).wf(),
            final(self).view_spec() == spec_cross(old(self).view_spec(), level as int, text@),
    {
        let lvl = level as usize;
        self.slots.set(lvl - 1, Some(text));
        let mut i: usize = lvl;
        while i < 6
            invariant
                old(self).wf(),
                lvl <= i <= 6,
                1 <= lvl <= 6,
                self.slots@.len() == 6,
                forall|j: int| 0 <= j < lvl - 1 ==> self.slots@[j] == old(self).slots@[j],
                self.view_spec()[lvl - 1] == Some::<Seq<u8>>(text@),
                forall|j: int| lvl <= j < i ==> self.slots@[j] is None,
            decreases 6 - i,
        {
            self.slots.set(i, None);
            i = i + 1;
        }
        proof {
            assert(self.view_spec() =~= spec_cross(old(self).view_spec(), level as int, text@));
        }
    }

    /// A copy of the whole stack, for tagging an extracted record with the
    /// section context at the moment of extraction.
    pub fn snapshot(&self) -> (r: Vec<Option<Vec<u8>>>)
        requires
            self.wf(),
        ensures
            slots_view(r@) == self.view_spec(),
    {
        let mut r: Vec<Option<Vec<u8>>> = Vec::new();
        let mut i: usize = 0;
        while i < self.slots.len()
            invariant
                0 <= i <= self.slots@.len(),
                r@.len() == i,
                forall|j: int|
                    0 <= j < i ==> opt_text_view(#[trigger] r@[j]) == opt_text_view(
                        self.slots@[j],
                    ),
            decreases self.slots@.len() - i,
        {
            match &self.slots[i] {
                Some(v) => {
                    let c = copy_bytes(v);
                    proof {
                        assert(self.slots@[i as int] == Some(*v));
                    }
                    r.push(Some(c));
                },
                None => {
                    r.push(None);
                },
            }
            i = i + 1;
        }
        proof {
            assert(slots_view(r@) =~= self.view_spec());
        }
        r
    }
}

/// Header-stack nesting: crossing headers at levels 2, 3, 2 in sequence
/// leaves level 2 holding the latest text and every deeper level absent —
/// the second level-2 crossing clears the stale level-3 entry — while
/// level 1 keeps whatever it held before.
pub proof fn lemma_header_stack_nesting(
    s: Seq<Option<Seq<u8>>>,
    t1: Seq<u8>,
    t2: Seq<u8>,
    t3: Seq<u8>,
)
    ensures
        spec_cross(spec_cross(spec_cross(s, 2, t1), 3, t2), 2, t3)[1] == Some(t3),
        forall|j: int| 2 <= j < 6 ==> spec_cross(spec_cross(spec_cross(s, 2, t1), 3, t2), 2, t3)[j] is None,
        spec_cross(spec_cross(spec_cross(s, 2, t1), 3, t2), 2, t3)[0] == s[0],
{
}

} // verus!
