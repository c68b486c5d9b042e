//! The template dumper: routes the raw source text of filtered template
//! invocations into per-template destination files, writing each page's
//! title once per file and each occurrence on its own line.

use vstd::prelude::*;

use crate::nodes::Node;
use crate::records::{slice_to_vec_range, spec_span_slice};
use crate::sink::{spec_resolve, SinkPool, TemplateMap};
use crate::text::push_all;
use crate::title::{normalize_title, spec_normalize_title};
use crate::walker::{
    check_events, event_wf, events_view, events_wf, walk, walk_list, Event, EventV,
};

verus! {

/// The marker written before a page title.
pub const CHAR_BEFORE_TITLE: u8 = 0x01;

/// The marker written before a template occurrence.
pub const CHAR_BEFORE_TEMPLATE: u8 = 0x0a;

/// The default file extension for a filter entry without an explicit path.
pub open spec fn txt_extension() -> Seq<u8> {
    seq![0x2eu8, 0x74u8, 0x78u8, 0x74u8]
}

/// What building the dumper from one filter entry does: a name that fails
/// to normalize is dropped; otherwise the entry's path (or the normalized
/// name plus `.txt`) resolves to a sink, shared when the path was seen
/// before, and the name is routed to it, a later entry overriding an
/// earlier one with the same name.
pub open spec fn build_step(
    st: (Seq<Seq<u8>>, Map<Seq<u8>, usize>),
    e: (Seq<u8>, Option<Seq<u8>>),
) -> (Seq<Seq<u8>>, Map<Seq<u8>, usize>) {
    match spec_normalize_title(e.0) {
        Ok(nm) => {
            let path = match e.1 {
                Some(p) => p,
                None => nm + txt_extension(),
            };
            let r = spec_resolve(st.0, path);
            (r.0, st.1.insert(nm, r.1 as usize))
        },
        Err(_) => st,
    }
}

/// The fold over the first `n` filter entries.
pub open spec fn build_fold(entries: Seq<(Seq<u8>, Option<Seq<u8>>)>, n: int) -> (
    Seq<Seq<u8>>,
    Map<Seq<u8>, usize>,
)
    decreases n,
{
    if n <= 0 {
        (Seq::empty(), Map::empty())
    } else {
        build_step(build_fold(entries, n - 1), entries[n - 1])
    }
}

/// The values of a filter-entry list.
pub open spec fn filter_entries_view(s: Seq<(Vec<u8>, Option<Vec<u8>>)>) -> Seq<(
    Seq<u8>,
    Option<Seq<u8>>,
)> {
    Seq::new(
        s.len(),
        |i: int|
            (
                s[i].0@,
                match s[i].1 {
                    Some(ref p) => Some(p@),
                    None => None,
                },
            ),
    )
}

/// The template dumper: which file each normalized template name goes to,
/// the pool of destination files, and which files have already seen the
/// current page's title.
pub struct TemplateDumper {
    template_to_file: TemplateMap,
    files: SinkPool,
    title_printed: Vec<bool>,
}

impl TemplateDumper {
    /// The file keys, in creation order.
    pub closed spec fn files_view(&self) -> Seq<Seq<u8>> {
        self.files.view_spec()
    }

    /// The routing of normalized template names to files.
    pub closed spec fn map_view(&self) -> Map<Seq<u8>, usize> {
        self.template_to_file.view_spec()
    }

    /// Which files have seen the current page's title.
    pub closed spec fn printed_view(&self) -> Seq<bool> {
        self.title_printed@
    }

    /// Every routed name goes to an existing file, and there is one
    /// title-printed flag per file.
    pub closed spec fn inv(&self) -> bool {
        &&& self.template_to_file.inv()
        &&& self.files.inv()
        &&& forall|k: Seq<u8>|
            self.map_view().contains_key(k) ==> #[trigger] self.map_view()[k]
                < self.files_view().len()
        &&& self.title_printed@.len() == self.files_view().len()
    }

    /// Builds the dumper from a filter list of template names with
    /// optional explicit output paths.
    #[verifier::loop_isolation(false)]
    pub fn new(template_to_file: &Vec<(Vec<u8>, Option<Vec<u8>>)>) -> (r: TemplateDumper)
        ensures
            r.inv(),
            (r.files_view(), r.map_view()) == build_fold(
                filter_entries_view(template_to_file@),
                template_to_file@.len() as int,
            ),
            forall|j: int| 0 <= j < r.printed_view().len() ==> !r.printed_view()[j],
    {
        let ghost entries = filter_entries_view(template_to_file@);
        let mut map = TemplateMap::new();
        let mut files = SinkPool::new();
        let mut i: usize = 0;
        while i < template_to_file.len()
            invariant
                0 <= i <= template_to_file@.len(),
                map.inv(),
                files.inv(),
                (files.view_spec(), map.view_spec()) == build_fold(entries, i as int),
                forall|k: Seq<u8>|
                    map.view_spec().contains_key(k) ==> #[trigger] map.view_spec()[k]
                        < files.view_spec().len(),
            decreases template_to_file@.len() - i,
        {
            let e = &template_to_file[i];
            match normalize_title(e.0.as_slice()) {
                Ok(nm) => {
                    let path: Vec<u8> = match &e.1 {
                        Some(p) => crate::text::copy_bytes(p),
                        None => {
                            let mut p = crate::text::copy_bytes(&nm);
                            p.push(0x2e);
                            p.push(0x74);
                            p.push(0x78);
                            p.push(0x74);
                            proof {
                                assert(p@ =~= nm@ + txt_extension());
                            }
                            p
                        },
                    };
                    let ghost old_files = files.view_spec();
                    let id = files.get_or_create(path.as_slice());
                    map.insert(nm, id);
                    proof {
                        assert(spec_resolve(old_files, path@).0.len() >= old_files.len());
                    }
                },
                Err(_) => {},
            }
            i = i + 1;
        }
        let n_files = files.len();
        let mut title_printed: Vec<bool> = Vec::new();
        let mut j: usize = 0;
        while j < n_files
            invariant
                0 <= j <= n_files,
                title_printed@.len() == j,
                forall|m: int| 0 <= m < j ==> !title_printed@[m],
            decreases n_files - j,
        {
            title_printed.push(false);
            j = j + 1;
        }
        proof {
            assert(entries.len() == template_to_file@.len());
        }
        TemplateDumper { template_to_file: map, files, title_printed }
    }

    /// How many destination files exist.
    pub fn file_count(&self) -> (r: usize)
        ensures
            r == self.files_view().len(),
    {
        self.files.len()
    }

    /// The key (path) of one destination file.
    pub fn file_key(&self, id: usize) -> (r: &Vec<u8>)
        requires
            id < self.files_view().len(),
        ensures
            r@ == self.files_view()[id as int],
    {
        self.files.key_at(id)
    }

    /// Walks one page tree and emits, for every template routed to a file,
    /// the chunks to append to that file: the page title once per file
    /// (marked by [`CHAR_BEFORE_TITLE`]), then each occurrence's raw
    /// source text (marked by [`CHAR_BEFORE_TEMPLATE`]), in traversal
    /// order. A tree whose spans do not fit the page text is refused.
    #[verifier::loop_isolation(false)]
    pub fn process_page(&mut self, title: &[u8], text: &[u8], nodes: &Vec<Node>) -> (r: Result<
        Vec<(usize, Vec<u8>)>,
        &'static str,
    >)
        requires
            old(self).inv(),
        ensures
            final(self).inv(),
            final(self).files_view() == old(self).files_view(),
            final(self).map_view() == old(self).map_view(),
            crate::nodes::wf_list(nodes@, text@.len() as int) ==> r is Ok,
            (if events_wf(walk_list(nodes@), text@.len() as int) {
                r matches Ok(out) && ({
                    let f = dump_fold(
                        text@,
                        title@,
                        old(self).map_view(),
                        Seq::new(old(self).printed_view().len(), |j: int| false),
                        walk_list(nodes@),
                        walk_list(nodes@).len() as int,
                    );
                    chunks_view(out@) == f.1 && final(self).printed_view() == f.0
                })
            } else {
                r is Err
            }),
    {
        let n_files = self.title_printed.len();
        let mut j: usize = 0;
        while j < n_files
            invariant
                0 <= j <= n_files == self.title_printed@.len(),
                self.template_to_file == old(self).template_to_file,
                self.files == old(self).files,
                forall|m: int| 0 <= m < j ==> !self.title_printed@[m],
        decreases n_files - j,
        {
            self.title_printed.set(j, false);
            j = j + 1;
        }
        let events = walk(nodes);
        if !check_events(&events, text.len()) {
            proof {
                if crate::nodes::wf_list(nodes@, text@.len() as int) {
                    crate::walker::lemma_walk_list_events_wf(nodes@, text@.len() as int);
                }
                assert(self.template_to_file.inv());
                assert(self.files.inv());
                assert(self.map_view() =~= old(self).map_view());
                assert(self.title_printed@.len() == self.files_view().len());
            }
            return Err("node span out of range of page text");
        }
        let ghost evs = events_view(events@);
        let ghost printed0 = self.title_printed@;
        proof {
            assert(printed0 =~= Seq::new(old(self).printed_view().len(), |j: int| false));
        }
        let mut out: Vec<(usize, Vec<u8>)> = Vec::new();
        let mut i: usize = 0;
        proof {
            assert(chunks_view(out@) =~= Seq::<(int, Seq<u8>)>::empty());
        }
        while i < events.len()
            invariant
                0 <= i <= events@.len(),
                self.template_to_file == old(self).template_to_file,
                self.files == old(self).files,
                self.title_printed@.len() == old(self).title_printed@.len(),
                (self.title_printed@, chunks_view(out@)) == dump_fold(
                    text@,
                    title@,
                    old(self).map_view(),
                    printed0,
                    evs,
                    i as int,
                ),
            decreases events@.len() - i,
        {
            let ghost st = dump_fold(text@, title@, old(self).map_view(), printed0, evs, i as int);
            proof {
                assert(evs[i as int] == events@[i as int]@);
                assert(event_wf(evs[i as int], text@.len() as int));
            }
            match &events[i] {
                Event::Template { span, name, params: _ } => {
                    let raw: Vec<u8> = match name {
                        Some(sp) => slice_to_vec_range(text, sp.start, sp.end),
                        None => Vec::new(),
                    };
                    proof {
                        assert(raw@ == spec_span_slice(text@, evs[i as int]->Template_name));
                    }
                    match normalize_title(raw.as_slice()) {
                        Ok(nm) => {
                            match self.template_to_file.get(nm.as_slice()) {
                                Some(id) => {
                                    if !self.title_printed[id] {
                                        let mut chunk: Vec<u8> = Vec::new();
                                        chunk.push(CHAR_BEFORE_TITLE);
                                        push_all(&mut chunk, title);
                                        out.push((id, chunk));
                                        self.title_printed.set(id, true);
                                        proof {
                                            assert(chunks_view(out@) =~= st.1.push(
                                                (id as int, seq![CHAR_BEFORE_TITLE] + title@),
                                            ));
                                        }
                                    }
                                    let ghost st2 = (self.title_printed@, chunks_view(out@));
                                    let mut chunk: Vec<u8> = Vec::new();
                                    chunk.push(CHAR_BEFORE_TEMPLATE);
                                    let body = slice_to_vec_range(text, span.start, span.end);
                                    push_all(&mut chunk, body.as_slice());
                                    out.push((id, chunk));
                                    proof {
                                        assert(chunks_view(out@) =~= st2.1.push(
                                            (
                                                id as int,
                                                seq![CHAR_BEFORE_TEMPLATE] + text@.subrange(
                                                    evs[i as int]->Template_span.start as int,
                                                    evs[i as int]->Template_span.end as int,
                                                ),
                                            ),
                                        ));
                                    }
                                },
                                None => {},
                            }
                        },
                        Err(_) => {},
                    }
                },
                _ => {},
            }
            i = i + 1;
        }
        Ok(out)
    }
}

/// The values of a chunk list.
pub open spec fn chunks_view(s: Seq<(usize, Vec<u8>)>) -> Seq<(int, Seq<u8>)> {
    Seq::new(s.len(), |i: int| (s[i].0 as int, s[i].1@))
}

/// What one event contributes to a page's output: a template whose
/// normalized name is routed to a file appends the page title to that file
/// at the file's first use on this page, and then the occurrence's source
/// text; anything else contributes nothing.
pub open spec fn dump_step(
    text: Seq<u8>,
    title: Seq<u8>,
    fmap: Map<Seq<u8>, usize>,
    st: (Seq<bool>, Seq<(int, Seq<u8>)>),
    e: EventV,
) -> (Seq<bool>, Seq<(int, Seq<u8>)>) {
    match e {
        EventV::Template { span, name, params: _ } => {
            match spec_normalize_title(spec_span_slice(text, name)) {
                Ok(nm) => if fmap.contains_key(nm) {
                    let id = fmap[nm] as int;
                    let st1 = if 0 <= id < st.0.len() && !st.0[id] {
                        (
                            st.0.update(id, true),
                            st.1.push((id, seq![CHAR_BEFORE_TITLE] + title)),
                        )
                    } else {
                        st
                    };
                    (
                        st1.0,
                        st1.1.push(
                            (
                                id,
                                seq![CHAR_BEFORE_TEMPLATE] + text.subrange(
                                    span.start as int,
                                    span.end as int,
                                ),
                            ),
                        ),
                    )
                } else {
                    st
                },
                Err(_) => st,
            }
        },
        _ => st,
    }
}

/// The fold over the first `n` events.
pub open spec fn dump_fold(
    text: Seq<u8>,
    title: Seq<u8>,
    fmap: Map<Seq<u8>, usize>,
    printed0: Seq<bool>,
    events: Seq<EventV>,
    n: int,
) -> (Seq<bool>, Seq<(int, Seq<u8>)>)
    decreases n,
{
    if n <= 0 {
        (printed0, Seq::empty())
    } else {
        dump_step(
            text,
            title,
            fmap,
            dump_fold(text, title, fmap, printed0, events, n - 1),
            events[n - 1],
        )
    }
}

} // verus!
