//! Header statistics and header filtering: counting every header of a dump
//! by text and level, and collecting the titles of pages that carry
//! headers outside a configured allow-list.

use vstd::prelude::*;

use crate::nodes::Node;
use crate::records::slice_to_vec_range;
use crate::text::{bytes_eq, copy_bytes, copy_bytes_slice};
use crate::walker::{check_events, event_wf, events_view, events_wf, walk, walk_list, Event, EventV};

verus! {

/// A byte trimmed from header keys: space or tab.
pub open spec fn spec_is_header_space(b: u8) -> bool {
    b == 0x20 || b == 0x09
}

/// A header key: the header text with spaces and tabs trimmed from both
/// ends.
pub open spec fn spec_trim_header(s: Seq<u8>) -> Seq<u8> {
    hdr_trim_back(hdr_trim_front(s))
}

/// The input with leading spaces and tabs removed.
pub open spec fn hdr_trim_front(s: Seq<u8>) -> Seq<u8>
    decreases s.len(),
{
    if s.len() > 0 && spec_is_header_space(s[0]) {
        hdr_trim_front(s.drop_first())
    } else {
        s
    }
}

/// The input with trailing spaces and tabs removed.
pub open spec fn hdr_trim_back(s: Seq<u8>) -> Seq<u8>
    decreases s.len(),
{
    if s.len() > 0 && spec_is_header_space(s.last()) {
        hdr_trim_back(s.drop_last())
    } else {
        s
    }
}

/// Trims spaces and tabs from both ends of a header text.
pub fn trim_header(text: &[u8]) -> (r: Vec<u8>)
    ensures
        r@ == spec_trim_header(text@),
{
    let len = text.len();
    proof {
        assert(text@.subrange(0, len as int) =~= text@);
    }
    let mut lo: usize = 0;
    while lo < len && (text[lo] == 0x20 || text[lo] == 0x09)
        invariant
            0 <= lo <= len == text@.len(),
            hdr_trim_front(text@) == hdr_trim_front(text@.subrange(lo as int, len as int)),
        decreases len - lo,
    {
        proof {
            assert(text@.subrange(lo as int, len as int).drop_first() =~= text@.subrange(
                lo + 1,
                len as int,
            ));
        }
        lo = lo + 1;
    }
    proof {
        assert(hdr_trim_front(text@) == text@.subrange(lo as int, len as int));
    }
    let mut hi: usize = len;
    while hi > lo && (text[hi - 1] == 0x20 || text[hi - 1] == 0x09)
        invariant
            0 <= lo <= hi <= len == text@.len(),
            hdr_trim_front(text@) == text@.subrange(lo as int, len as int),
            hdr_trim_back(text@.subrange(lo as int, len as int)) == hdr_trim_back(
                text@.subrange(lo as int, hi as int),
            ),
        decreases hi,
    {
        proof {
            assert(text@.subrange(lo as int, hi as int).drop_last() =~= text@.subrange(
                lo as int,
                hi - 1,
            ));
        }
        hi = hi - 1;
    }
    proof {
        assert(spec_trim_header(text@) == text@.subrange(lo as int, hi as int));
    }
    slice_to_vec_range(text, lo, hi)
}

/// How often a header was seen at each of the six levels.
pub struct HeaderCounts {
    pub counts: Vec<usize>,
}

impl HeaderCounts {
    /// Six zeroes.
    pub fn new() -> (r: HeaderCounts)
        ensures
            r.counts@ =~= zero_counts(),
    {
        let mut counts: Vec<usize> = Vec::new();
        let mut i: usize = 0;
        while i < 6
            invariant
                0 <= i <= 6,
                counts@.len() == i,
                forall|j: int| 0 <= j < i ==> counts@[j] == 0usize,
            decreases 6 - i,
        {
            counts.push(0);
            i = i + 1;
        }
        proof {
            assert(counts@ =~= zero_counts());
        }
        HeaderCounts { counts }
    }
}

/// Six zeroes.
pub open spec fn zero_counts() -> Seq<usize> {
    Seq::new(6, |j: int| 0usize)
}

/// One more header seen at `level`; the count saturates rather than wrap.
pub open spec fn bump_counts(c: Seq<usize>, level: int) -> Seq<usize> {
    c.update(
        level - 1,
        if c[level - 1] < usize::MAX {
            (c[level - 1] + 1) as usize
        } else {
            c[level - 1]
        },
    )
}

/// The statistics table: per header key, its counts by level, in order of
/// first appearance, one entry per key.
pub struct HeaderStats {
    pub header_counts: Vec<(Vec<u8>, HeaderCounts)>,
}

/// The abstract value of the statistics table.
pub open spec fn stats_view(s: Seq<(Vec<u8>, HeaderCounts)>) -> Seq<(Seq<u8>, Seq<usize>)> {
    Seq::new(s.len(), |i: int| (s[i].0@, s[i].1.counts@))
}

/// Whether some entry carries this key.
pub open spec fn stats_has_key(s: Seq<(Seq<u8>, Seq<usize>)>, k: Seq<u8>) -> bool {
    exists|i: int| 0 <= i < s.len() && s[i].0 == k
}

/// One fold step: a heading bumps its key's count at its level, creating
/// the entry at first sight; other events do not matter.
pub open spec fn stats_step(
    text: Seq<u8>,
    s: Seq<(Seq<u8>, Seq<usize>)>,
    e: EventV,
) -> Seq<(Seq<u8>, Seq<usize>)> {
    match e {
        EventV::Heading { level, text: tsp } => {
            let key = spec_trim_header(crate::records::spec_span_slice(text, tsp));
            if stats_has_key(s, key) {
                let j = choose|j: int| 0 <= j < s.len() && s[j].0 == key;
                s.update(j, (key, bump_counts(s[j].1, level as int)))
            } else {
                s.push((key, bump_counts(zero_counts(), level as int)))
            }
        },
        _ => s,
    }
}

/// The fold over the first `n` events, starting from a given table.
pub open spec fn stats_fold(
    text: Seq<u8>,
    init: Seq<(Seq<u8>, Seq<usize>)>,
    events: Seq<EventV>,
    n: int,
) -> Seq<(Seq<u8>, Seq<usize>)>
    decreases n,
{
    if n <= 0 {
        init
    } else {
        stats_step(text, stats_fold(text, init, events, n - 1), events[n - 1])
    }
}

/// Entry keys are pairwise distinct and counts rows have six slots.
pub open spec fn stats_wf(s: Seq<(Seq<u8>, Seq<usize>)>) -> bool {
    &&& forall|i: int, j: int| 0 <= i < j < s.len() ==> (#[trigger] s[i]).0 != (#[trigger] s[j]).0
    &&& forall|i: int| 0 <= i < s.len() ==> (#[trigger] s[i]).1.len() == 6
}

impl HeaderStats {
    /// Distinct keys, six count slots each.
    pub open spec fn inv(&self) -> bool {
        stats_wf(stats_view(self.header_counts@))
    }

    /// An empty table.
    pub fn new() -> (r: HeaderStats)
        ensures
            r.inv(),
            stats_view(r.header_counts@) == Seq::<(Seq<u8>, Seq<usize>)>::empty(),
    {
        let r = HeaderStats { header_counts: Vec::new() };
        proof {
            assert(stats_view(r.header_counts@) =~= Seq::<(Seq<u8>, Seq<usize>)>::empty());
        }
        r
    }

    /// Walks one page tree and counts every header in it by trimmed text
    /// and level. A tree whose spans do not fit the page text is refused
    /// and counts nothing.
    pub fn process_page(&mut self, text: &[u8], nodes: &Vec<Node>) -> (r: Result<
        (),
        &'static str,
    >)
        requires
            old(self).inv(),
        ensures
            final(self).inv(),
            crate::nodes::wf_list(nodes@, text@.len() as int) ==> r is Ok,
            (if events_wf(walk_list(nodes@), text@.len() as int) {
                r is Ok && stats_view(final(self).header_counts@) == stats_fold(
                    text@,
                    stats_view(old(self).header_counts@),
                    walk_list(nodes@),
                    walk_list(nodes@).len() as int,
                )
            } else {
                r is Err && *final(self) == *old(self)
            }),
    {
        let events = walk(nodes);
        if !check_events(&events, text.len()) {
            proof {
                if crate::nodes::wf_list(nodes@, text@.len() as int) {
                    crate::walker::lemma_walk_list_events_wf(nodes@, text@.len() as int);
                }
            }
            return Err("node span out of range of page text");
        }
        let ghost evs = events_view(events@);
        let ghost init = stats_view(self.header_counts@);
        let mut i: usize = 0;
        while i < events.len()
            invariant
                0 <= i <= events@.len(),
                evs == events_view(events@),
                events_wf(evs, text@.len() as int),
                self.inv(),
                stats_view(self.header_counts@) == stats_fold(text@, init, evs, i as int),
            decreases events@.len() - i,
        {
            proof {
                assert(evs[i as int] == events@[i as int]@);
                assert(event_wf(evs[i as int], text@.len() as int));
            }
            match &events[i] {
                Event::Heading { level, text: tsp } => {
                    let raw: Vec<u8> = match tsp {
                        Some(sp) => slice_to_vec_range(text, sp.start, sp.end),
                        None => Vec::new(),
                    };
                    proof {
                        assert(raw@ == crate::records::spec_span_slice(
                            text@,
                            evs[i as int]->Heading_text,
                        ));
                    }
                    let key = trim_header(raw.as_slice());
                    self.bump(key, *level);
                },
                _ => {},
            }
            i = i + 1;
        }
        Ok(())
    }

    /// Bumps one key's count at one level, creating the entry at first
    /// sight.
    #[verifier::loop_isolation(false)]
    fn bump(&mut self, key: Vec<u8>, level: u8)
        requires
            old(self).inv(),
            1 <= level <= 6,
        ensures
            final(self).inv(),
            stats_view(final(self).header_counts@) == stats_step_direct(
                stats_view(old(self).header_counts@),
                key@,
                level as int,
            ),
    {
        let ghost s0 = stats_view(self.header_counts@);
        let mut j: usize = 0;
        while j < self.header_counts.len()
            invariant
                self.inv(),
                self.header_counts@ == old(self).header_counts@,
                0 <= j <= self.header_counts@.len(),
                forall|m: int| 0 <= m < j ==> stats_view(self.header_counts@)[m].0 != key@,
            decreases self.header_counts@.len() - j,
        {
            if bytes_eq(self.header_counts[j].0.as_slice(), key.as_slice()) {
                proof {
                    assert(stats_has_key(s0, key@)) by {
                        assert(s0[j as int].0 == key@);
                    }
                    let m = choose|m: int| 0 <= m < s0.len() && s0[m].0 == key@;
                    assert(m == j as int);
                }
                let mut c = copy_counts(&self.header_counts[j].1);
                let lvl = (level - 1) as usize;
                let cur = c.counts[lvl];
                if cur < usize::MAX {
                    c.counts.set(lvl, cur + 1);
                }
                proof {
                    assert(c.counts@ =~= bump_counts(s0[j as int].1, level as int));
                }
                self.header_counts.set(j, (key, c));
                proof {
                    assert(stats_view(self.header_counts@) =~~= s0.update(
                        j as int,
                        (key@, bump_counts(s0[j as int].1, level as int)),
                    ));
                    assert(forall|a: int|
                        0 <= a < s0.len() && a != j ==> stats_view(self.header_counts@)[a]
                            == s0[a]);
                }
                return ;
            }
            j = j + 1;
        }
        proof {
            assert(!stats_has_key(s0, key@));
        }
        let mut c = HeaderCounts::new();
        let lvl = (level - 1) as usize;
        c.counts.set(lvl, 1);
        proof {
            assert(c.counts@ =~= bump_counts(zero_counts(), level as int));
        }
        self.header_counts.push((key, c));
        proof {
            assert(stats_view(self.header_counts@) =~~= s0.push(
                (key@, bump_counts(zero_counts(), level as int)),
            ));
            assert(forall|a: int|
                0 <= a < s0.len() ==> stats_view(self.header_counts@)[a] == s0[a]);
        }
    }
}

/// What one bump does to the table, named for [`HeaderStats::bump`].
pub open spec fn stats_step_direct(
    s: Seq<(Seq<u8>, Seq<usize>)>,
    key: Seq<u8>,
    level: int,
) -> Seq<(Seq<u8>, Seq<usize>)> {
    if stats_has_key(s, key) {
        let j = choose|j: int| 0 <= j < s.len() && s[j].0 == key;
        s.update(j, (key, bump_counts(s[j].1, level)))
    } else {
        s.push((key, bump_counts(zero_counts(), level)))
    }
}

/// A copy of a counts row.
fn copy_counts(c: &HeaderCounts) -> (r: HeaderCounts)
    ensures
        r.counts@ == c.counts@,
{
    let mut counts: Vec<usize> = Vec::new();
    let mut i: usize = 0;
    while i < c.counts.len()
        invariant
            0 <= i <= c.counts@.len(),
            counts@ =~= c.counts@.subrange(0, i as int),
        decreases c.counts@.len() - i,
    {
        counts.push(c.counts[i]);
        i = i + 1;
    }
    proof {
        assert(c.counts@.subrange(0, c.counts@.len() as int) =~= c.counts@);
    }
    HeaderCounts { counts }
}

/// The header filterer: collects, per header key outside the allow-lists,
/// the titles of the pages carrying it — level-2 headers are checked
/// against the top-level list, all others against the other list.
pub struct HeaderFilterer {
    pub top_level_headers: Vec<Vec<u8>>,
    pub other_headers: Vec<Vec<u8>>,
    pub header_to_titles: Vec<(Vec<u8>, Vec<Vec<u8>>)>,
}

/// The abstract value of the collected table.
pub open spec fn filt_view(s: Seq<(Vec<u8>, Vec<Vec<u8>>)>) -> Seq<(Seq<u8>, Seq<Seq<u8>>)> {
    Seq::new(s.len(), |i: int| (s[i].0@, s[i].1@.map_values(|t: Vec<u8>| t@)))
}

/// Whether some entry carries this key.
pub open spec fn filt_has_key(s: Seq<(Seq<u8>, Seq<Seq<u8>>)>, k: Seq<u8>) -> bool {
    exists|i: int| 0 <= i < s.len() && s[i].0 == k
}

/// Whether a title list holds this title.
pub open spec fn titles_contain(ts: Seq<Seq<u8>>, t: Seq<u8>) -> bool {
    exists|i: int| 0 <= i < ts.len() && ts[i] == t
}

/// What recording one offending header on one page does: the key's entry
/// is created at first sight, and the page title joins it once.
pub open spec fn filt_record(
    s: Seq<(Seq<u8>, Seq<Seq<u8>>)>,
    key: Seq<u8>,
    title: Seq<u8>,
) -> Seq<(Seq<u8>, Seq<Seq<u8>>)> {
    if filt_has_key(s, key) {
        let j = choose|j: int| 0 <= j < s.len() && s[j].0 == key;
        if titles_contain(s[j].1, title) {
            s
        } else {
            s.update(j, (key, s[j].1.push(title)))
        }
    } else {
        s.push((key, seq![title]))
    }
}

/// One fold step: a heading whose trimmed key is missing from the list
/// for its level records the page title under that key.
pub open spec fn filt_step(
    text: Seq<u8>,
    title: Seq<u8>,
    top: Seq<Seq<u8>>,
    other: Seq<Seq<u8>>,
    s: Seq<(Seq<u8>, Seq<Seq<u8>>)>,
    e: EventV,
) -> Seq<(Seq<u8>, Seq<Seq<u8>>)> {
    match e {
        EventV::Heading { level, text: tsp } => {
            let key = spec_trim_header(crate::records::spec_span_slice(text, tsp));
            let allow = if level == 2 {
                top
            } else {
                other
            };
            if crate::sections::names_contain(allow, key) {
                s
            } else {
                filt_record(s, key, title)
            }
        },
        _ => s,
    }
}

/// The fold over the first `n` events.
pub open spec fn filt_fold(
    text: Seq<u8>,
    title: Seq<u8>,
    top: Seq<Seq<u8>>,
    other: Seq<Seq<u8>>,
    init: Seq<(Seq<u8>, Seq<Seq<u8>>)>,
    events: Seq<EventV>,
    n: int,
) -> Seq<(Seq<u8>, Seq<Seq<u8>>)>
    decreases n,
{
    if n <= 0 {
        init
    } else {
        filt_step(
            text,
            title,
            top,
            other,
            filt_fold(text, title, top, other, init, events, n - 1),
            events[n - 1],
        )
    }
}

/// Entry keys pairwise distinct, titles within an entry pairwise distinct.
pub open spec fn filt_wf(s: Seq<(Seq<u8>, Seq<Seq<u8>>)>) -> bool {
    &&& forall|i: int, j: int| 0 <= i < j < s.len() ==> (#[trigger] s[i]).0 != (#[trigger] s[j]).0
    &&& forall|i: int, a: int, b: int|
        0 <= i < s.len() && 0 <= a < b < s[i].1.len() ==> #[trigger] s[i].1[a] != #[trigger] s[i].1[b]
}

impl HeaderFilterer {
    /// Distinct keys and titles.
    pub open spec fn inv(&self) -> bool {
        filt_wf(filt_view(self.header_to_titles@))
    }

    /// A filterer with the two allow-lists and nothing collected yet.
    pub fn new(top_level_headers: Vec<Vec<u8>>, other_headers: Vec<Vec<u8>>) -> (r: HeaderFilterer)
        ensures
            r.inv(),
            crate::sections::names_view(r.top_level_headers@) == crate::sections::names_view(
                top_level_headers@,
            ),
            crate::sections::names_view(r.other_headers@) == crate::sections::names_view(
                other_headers@,
            ),
            filt_view(r.header_to_titles@) == Seq::<(Seq<u8>, Seq<Seq<u8>>)>::empty(),
    {
        let r = HeaderFilterer { top_level_headers, other_headers, header_to_titles: Vec::new() };
        proof {
            assert(filt_view(r.header_to_titles@) =~= Seq::<(Seq<u8>, Seq<Seq<u8>>)>::empty());
        }
        r
    }

    /// Walks one page tree and records, for every header whose trimmed key
    /// is outside the allow-list for its level, the page's title under
    /// that key. A tree whose spans do not fit the page text is refused.
    pub fn process_page(&mut self, title: &[u8], text: &[u8], nodes: &Vec<Node>) -> (r: Result<
        (),
        &'static str,
    >)
        requires
            old(self).inv(),
        ensures
            final(self).inv(),
            final(self).top_level_headers == old(self).top_level_headers,
            final(self).other_headers == old(self).other_headers,
            crate::nodes::wf_list(nodes@, text@.len() as int) ==> r is Ok,
            (if events_wf(walk_list(nodes@), text@.len() as int) {
                r is Ok && filt_view(final(self).header_to_titles@) == filt_fold(
                    text@,
                    title@,
                    crate::sections::names_view(old(self).top_level_headers@),
                    crate::sections::names_view(old(self).other_headers@),
                    filt_view(old(self).header_to_titles@),
                    walk_list(nodes@),
                    walk_list(nodes@).len() as int,
                )
            } else {
                r is Err && *final(self) == *old(self)
            }),
    {
        let events = walk(nodes);
        if !check_events(&events, text.len()) {
            proof {
                if crate::nodes::wf_list(nodes@, text@.len() as int) {
                    crate::walker::lemma_walk_list_events_wf(nodes@, text@.len() as int);
                }
            }
            return Err("node span out of range of page text");
        }
        let ghost evs = events_view(events@);
        let ghost init = filt_view(self.header_to_titles@);
        let ghost top = crate::sections::names_view(self.top_level_headers@);
        let ghost other = crate::sections::names_view(self.other_headers@);
        let mut i: usize = 0;
        while i < events.len()
            invariant
                0 <= i <= events@.len(),
                evs == events_view(events@),
                events_wf(evs, text@.len() as int),
                self.inv(),
                self.top_level_headers == old(self).top_level_headers,
                self.other_headers == old(self).other_headers,
                top == crate::sections::names_view(self.top_level_headers@),
                other == crate::sections::names_view(self.other_headers@),
                filt_view(self.header_to_titles@) == filt_fold(
                    text@,
                    title@,
                    top,
                    other,
                    init,
                    evs,
                    i as int,
                ),
            decreases events@.len() - i,
        {
            proof {
                assert(evs[i as int] == events@[i as int]@);
                assert(event_wf(evs[i as int], text@.len() as int));
            }
            match &events[i] {
                Event::Heading { level, text: tsp } => {
                    let raw: Vec<u8> = match tsp {
                        Some(sp) => slice_to_vec_range(text, sp.start, sp.end),
                        None => Vec::new(),
                    };
                    proof {
                        assert(raw@ == crate::records::spec_span_slice(
                            text@,
                            evs[i as int]->Heading_text,
                        ));
                    }
                    let key = trim_header(raw.as_slice());
                    let allowed = if *level == 2 {
                        crate::sections::names_contains(&self.top_level_headers, key.as_slice())
                    } else {
                        crate::sections::names_contains(&self.other_headers, key.as_slice())
                    };
                    if !allowed {
                        self.record(key, title);
                    }
                },
                _ => {},
            }
            i = i + 1;
        }
        Ok(())
    }

    /// Records one page title under one offending header key.
    #[verifier::loop_isolation(false)]
    fn record(&mut self, key: Vec<u8>, title: &[u8])
        requires
            old(self).inv(),
        ensures
            final(self).inv(),
            final(self).top_level_headers == old(self).top_level_headers,
            final(self).other_headers == old(self).other_headers,
            filt_view(final(self).header_to_titles@) == filt_record(
                filt_view(old(self).header_to_titles@),
                key@,
                title@,
            ),
    {
        let ghost s0 = filt_view(self.header_to_titles@);
        let mut j: usize = 0;
        while j < self.header_to_titles.len()
            invariant
                self.inv(),
                self.header_to_titles@ == old(self).header_to_titles@,
                self.top_level_headers == old(self).top_level_headers,
                self.other_headers == old(self).other_headers,
                0 <= j <= self.header_to_titles@.len(),
                forall|m: int| 0 <= m < j ==> filt_view(self.header_to_titles@)[m].0 != key@,
            decreases self.header_to_titles@.len() - j,
        {
            if bytes_eq(self.header_to_titles[j].0.as_slice(), key.as_slice()) {
                proof {
                    assert(filt_has_key(s0, key@)) by {
                        assert(s0[j as int].0 == key@);
                    }
                    let m = choose|m: int| 0 <= m < s0.len() && s0[m].0 == key@;
                    assert(m == j as int);
                }
                proof {
                    assert(s0[j as int].1 == self.header_to_titles@[j as int].1@.map_values(
                        |x: Vec<u8>| x@,
                    ));
                }
                let mut t: usize = 0;
                let titles = &self.header_to_titles[j].1;
                while t < titles.len()
                    invariant
                        0 <= t <= titles@.len(),
                        titles == &self.header_to_titles@[j as int].1,
                        j < self.header_to_titles@.len(),
                        forall|m: int| 0 <= m < t ==> (#[trigger] titles@[m])@ != title@,
                    decreases titles@.len() - t,
                {
                    if bytes_eq(titles[t].as_slice(), title) {
                        proof {
                            assert(s0[j as int].1[t as int] == titles@[t as int]@);
                            assert(titles_contain(s0[j as int].1, title@)) by {
                                assert(s0[j as int].1[t as int] == title@);
                            }
                        }
                        return ;
                    }
                    t = t + 1;
                }
                proof {
                    assert(forall|m: int|
                        0 <= m < s0[j as int].1.len() ==> #[trigger] s0[j as int].1[m]
                            == titles@[m]@);
                    assert(!titles_contain(s0[j as int].1, title@));
                }
                let mut new_titles = copy_titles(&self.header_to_titles[j].1);
                new_titles.push(copy_bytes_slice(title));
                self.header_to_titles.set(j, (key, new_titles));
                proof {
                    assert(filt_view(self.header_to_titles@) =~~= s0.update(
                        j as int,
                        (key@, s0[j as int].1.push(title@)),
                    ));
                    assert(forall|a: int|
                        0 <= a < s0.len() && a != j ==> filt_view(self.header_to_titles@)[a]
                            == s0[a]);
                }
                return ;
            }
            j = j + 1;
        }
        proof {
            assert(!filt_has_key(s0, key@));
        }
        let mut ts: Vec<Vec<u8>> = Vec::new();
        ts.push(copy_bytes_slice(title));
        self.header_to_titles.push((key, ts));
        proof {
            assert(filt_view(self.header_to_titles@) =~~= s0.push((key@, seq![title@])));
            assert(forall|a: int|
                0 <= a < s0.len() ==> filt_view(self.header_to_titles@)[a] == s0[a]);
        }
    }
}

/// A copy of a title list.
fn copy_titles(ts: &Vec<Vec<u8>>) -> (r: Vec<Vec<u8>>)
    ensures
        r@.map_values(|t: Vec<u8>| t@) == ts@.map_values(|t: Vec<u8>| t@),
{
    let mut r: Vec<Vec<u8>> = Vec::new();
    let mut i: usize = 0;
    while i < ts.len()
        invariant
            0 <= i <= ts@.len(),
            r@.len() == i,
            forall|j: int| 0 <= j < i ==> (#[trigger] r@[j])@ == ts@[j]@,
        decreases ts@.len() - i,
    {
        r.push(copy_bytes(&ts[i]));
        i = i + 1;
    }
    proof {
        assert(r@.map_values(|t: Vec<u8>| t@) =~= ts@.map_values(|t: Vec<u8>| t@));
    }
    r
}

} // verus!
