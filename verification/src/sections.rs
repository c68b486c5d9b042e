//! Section-scoped extraction: templates or comments grouped under the
//! nearest enclosing headers, and plain header collection. Entities
//! extracted between one header crossing and the next belong to the header
//! state active at extraction time; whatever has accumulated when the page
//! ends is flushed with the final header state.

use vstd::prelude::*;

use crate::header_stack::{spec_cross, slots_view, Header, HeaderStack};
use crate::nodes::Node;
use crate::records::{pairs_map, pairs_sorted, spec_params_map, spec_span_slice, Template};
use crate::text::bytes_eq;
use crate::title::{spec_normalize_title, normalize_title};
use crate::walker::{
    check_events, event_wf, events_view, events_wf, walk, walk_list, Event, EventV, Span,
};

verus! {

/// One extracted template with its source text: normalized name, resolved
/// parameter map, and the byte-exact slice of the invocation.
pub struct TemplateWithText {
    pub name: Vec<u8>,
    pub parameters: Vec<(Vec<u8>, Vec<u8>)>,
    pub text: Vec<u8>,
}

/// The mathematical value of a [`TemplateWithText`].
pub struct TemplateWithTextV {
    pub name: Seq<u8>,
    pub parameters: Map<Seq<u8>, Seq<u8>>,
    pub text: Seq<u8>,
}

impl View for TemplateWithText {
    type V = TemplateWithTextV;

    open spec fn view(&self) -> TemplateWithTextV {
        TemplateWithTextV {
            name: self.name@,
            parameters: pairs_map(self.parameters@),
            text: self.text@,
        }
    }
}

/// One batch of templates extracted under one header state.
pub struct SectionBatch {
    pub headers: Vec<Option<Vec<u8>>>,
    pub templates: Vec<TemplateWithText>,
}

/// The mathematical value of a [`SectionBatch`].
pub struct SectionBatchV {
    pub headers: Seq<Option<Seq<u8>>>,
    pub templates: Seq<TemplateWithTextV>,
}

impl View for SectionBatch {
    type V = SectionBatchV;

    open spec fn view(&self) -> SectionBatchV {
        SectionBatchV {
            headers: slots_view(self.headers@),
            templates: self.templates@.map_values(|t: TemplateWithText| t@),
        }
    }
}

/// The values of a batch list.
pub open spec fn batches_view(s: Seq<SectionBatch>) -> Seq<SectionBatchV> {
    Seq::new(s.len(), |i: int| s[i]@)
}

/// Whether a name list holds this text.
pub open spec fn names_contain(filter: Seq<Seq<u8>>, t: Seq<u8>) -> bool {
    exists|i: int| 0 <= i < filter.len() && filter[i] == t
}

/// The values of a name list.
pub open spec fn names_view(filter: Seq<Vec<u8>>) -> Seq<Seq<u8>> {
    filter.map_values(|v: Vec<u8>| v@)
}

/// Whether a name list holds this text, executably.
pub fn names_contains(filter: &Vec<Vec<u8>>, t: &[u8]) -> (r: bool)
    ensures
        r == names_contain(names_view(filter@), t@),
{
    let mut i: usize = 0;
    while i < filter.len()
        invariant
            0 <= i <= filter@.len(),
            forall|j: int| 0 <= j < i ==> names_view(filter@)[j] != t@,
        decreases filter@.len() - i,
    {
        if bytes_eq(filter[i].as_slice(), t) {
            proof {
                assert(names_view(filter@)[i as int] == t@);
            }
            return true;
        }
        i = i + 1;
    }
    false
}

/// The record a template event resolves to, when its name normalizes: the
/// normalized name, the resolved parameter map, and the invocation's
/// source text. A name that fails normalization cannot match any filter
/// key, so the occurrence resolves to nothing.
pub open spec fn spec_twt(text: Seq<u8>, e: EventV) -> Option<TemplateWithTextV>
    recommends
        e is Template,
{
    match e {
        EventV::Template { span, name, params } => match spec_normalize_title(
            spec_span_slice(text, name),
        ) {
            Ok(nm) => Some(
                TemplateWithTextV {
                    name: nm,
                    parameters: spec_params_map(text, params, params.len() as int),
                    text: text.subrange(span.start as int, span.end as int),
                },
            ),
            Err(_) => None,
        },
        _ => None,
    }
}

/// The fold state: header stack, templates of the open section, finished
/// batches.
pub struct SectionsState {
    pub stack: Seq<Option<Seq<u8>>>,
    pub current: Seq<TemplateWithTextV>,
    pub done: Seq<SectionBatchV>,
}

/// The initial fold state: no header seen, nothing accumulated.
pub open spec fn sections_init() -> SectionsState {
    SectionsState {
        stack: Seq::new(6, |j: int| None),
        current: Seq::empty(),
        done: Seq::empty(),
    }
}

/// One fold step. Crossing a header first flushes what accumulated under
/// the previous header state, then updates the stack. A template whose raw
/// name text stands in the filter joins the open section when its name
/// normalizes. Comments do not matter to this pipeline.
pub open spec fn sections_step(
    text: Seq<u8>,
    filter: Seq<Seq<u8>>,
    st: SectionsState,
    e: EventV,
) -> SectionsState {
    match e {
        EventV::Heading { level, text: tsp } => {
            let done = if st.current.len() > 0 {
                st.done.push(SectionBatchV { headers: st.stack, templates: st.current })
            } else {
                st.done
            };
            SectionsState {
                stack: spec_cross(st.stack, level as int, spec_span_slice(text, tsp)),
                current: Seq::empty(),
                done,
            }
        },
        EventV::Template { span: _, name, params: _ } => {
            if names_contain(filter, spec_span_slice(text, name)) {
                match spec_twt(text, e) {
                    Some(t) => SectionsState {
                        stack: st.stack,
                        current: st.current.push(t),
                        done: st.done,
                    },
                    None => st,
                }
            } else {
                st
            }
        },
        EventV::Comment { .. } => st,
    }
}

/// The fold over the first `n` events.
pub open spec fn sections_fold(
    text: Seq<u8>,
    filter: Seq<Seq<u8>>,
    events: Seq<EventV>,
    n: int,
) -> SectionsState
    decreases n,
{
    if n <= 0 {
        sections_init()
    } else {
        sections_step(text, filter, sections_fold(text, filter, events, n - 1), events[n - 1])
    }
}

/// What the whole pipeline yields: the fold over every event, with the
/// final flush of whatever accumulated after the last header.
pub open spec fn spec_templates_and_headers(
    text: Seq<u8>,
    filter: Seq<Seq<u8>>,
    events: Seq<EventV>,
) -> Seq<SectionBatchV> {
    let st = sections_fold(text, filter, events, events.len() as int);
    if st.current.len() > 0 {
        st.done.push(SectionBatchV { headers: st.stack, templates: st.current })
    } else {
        st.done
    }
}

/// Whether every template event carries few enough parameters to number.
pub open spec fn events_bounded(s: Seq<EventV>) -> bool {
    forall|i: int|
        0 <= i < s.len() ==> ((#[trigger] s[i]) matches EventV::Template { params, .. }
            ==> params.len() <= u32::MAX)
}

/// Checks [`events_bounded`] executably.
pub fn check_events_bounded(events: &Vec<Event>) -> (r: bool)
    ensures
        r == events_bounded(events_view(events@)),
{
    let mut i: usize = 0;
    while i < events.len()
        invariant
            0 <= i <= events@.len(),
            forall|j: int|
                0 <= j < i ==> ((#[trigger] events_view(events@)[j]) matches EventV::Template {
                    params,
                    ..
                } ==> params.len() <= u32::MAX),
        decreases events@.len() - i,
    {
        let ok = match &events[i] {
            Event::Template { span: _, name: _, params } => params.len() <= (u32::MAX as usize),
            _ => true,
        };
        proof {
            assert(events_view(events@)[i as int] == events@[i as int]@);
        }
        if !ok {
            return false;
        }
        i = i + 1;
    }
    true
}

/// Walks a page tree and groups every filtered template under the header
/// state at its extraction, flushing the last group when traversal ends.
/// A tree whose spans do not fit the page text is refused.
pub fn templates_and_headers(text: &[u8], nodes: &Vec<Node>, filter: &Vec<Vec<u8>>) -> (r: Result<
    Vec<SectionBatch>,
    &'static str,
>)
    ensures
        crate::nodes::wf_list(nodes@, text@.len() as int) && events_bounded(walk_list(nodes@))
            ==> r is Ok,
        (if events_wf(walk_list(nodes@), text@.len() as int) && events_bounded(walk_list(nodes@)) {
            r matches Ok(b) && batches_view(b@) == spec_templates_and_headers(
                text@,
                names_view(filter@),
                walk_list(nodes@),
            )
        } else {
            r is Err
        }),
{
    let events = walk(nodes);
    if !check_events(&events, text.len()) {
        proof {
            if crate::nodes::wf_list(nodes@, text@.len() as int) {
                crate::walker::lemma_walk_list_events_wf(nodes@, text@.len() as int);
            }
        }
        return Err("node span out of range of page text");
    }
    if !check_events_bounded(&events) {
        return Err("too many template parameters");
    }
    let ghost evs = events_view(events@);
    let mut stack = HeaderStack::new();
    let mut current: Vec<TemplateWithText> = Vec::new();
    let mut done: Vec<SectionBatch> = Vec::new();
    let mut i: usize = 0;
    proof {
        assert(stack.view_spec() =~= sections_init().stack);
        assert(current@.map_values(|t: TemplateWithText| t@) =~= sections_init().current);
        assert(batches_view(done@) =~= sections_init().done);
    }
    while i < events.len()
        invariant
            0 <= i <= events@.len(),
            evs == events_view(events@),
            events_wf(evs, text@.len() as int),
            events_bounded(evs),
            stack.wf(),
            stack.view_spec() == sections_fold(text@, names_view(filter@), evs, i as int).stack,
            current@.map_values(|t: TemplateWithText| t@) == sections_fold(
                text@,
                names_view(filter@),
                evs,
                i as int,
            ).current,
            batches_view(done@) == sections_fold(text@, names_view(filter@), evs, i as int).done,
        decreases events@.len() - i,
    {
        let ghost st = sections_fold(text@, names_view(filter@), evs, i as int);
        proof {
            assert(evs[i as int] == events@[i as int]@);
            assert(event_wf(evs[i as int], text@.len() as int));
        }
        match &events[i] {
            Event::Heading { level, text: tsp } => {
                if current.len() > 0 {
                    let headers = stack.snapshot();
                    let templates = current;
                    current = Vec::new();
                    let batch = SectionBatch { headers, templates };
                    done.push(batch);
                    proof {
                        assert(batches_view(done@) =~= st.done.push(
                            SectionBatchV { headers: st.stack, templates: st.current },
                        ));
                    }
                }
                let htext: Vec<u8> = match tsp {
                    Some(sp) => crate::records::slice_to_vec_range(text, sp.start, sp.end),
                    None => Vec::new(),
                };
                proof {
                    assert(htext@ == spec_span_slice(text@, evs[i as int]->Heading_text));
                }
                stack.cross(*level, htext);
                proof {
                    assert(current@.map_values(|t: TemplateWithText| t@) =~= Seq::<
                        TemplateWithTextV,
                    >::empty());
                }
            },
            Event::Template { span, name, params: _ } => {
                let raw_name: Vec<u8> = match name {
                    Some(sp) => crate::records::slice_to_vec_range(text, sp.start, sp.end),
                    None => Vec::new(),
                };
                proof {
                    assert(raw_name@ == spec_span_slice(text@, evs[i as int]->Template_name));
                }
                if names_contains(filter, raw_name.as_slice()) {
                    let rec = match Template::from_event(text, &events[i]) {
                        Ok(rec) => rec,
                        Err(_) => {
                            proof {
                                assert(false);
                            }
                            return Err("not a template");
                        },
                    };
                    match normalize_title(rec.name.as_slice()) {
                        Ok(nm) => {
                            let ttext = crate::records::slice_to_vec_range(
                                text,
                                span.start,
                                span.end,
                            );
                            let twt = TemplateWithText {
                                name: nm,
                                parameters: rec.parameters,
                                text: ttext,
                            };
                            proof {
                                assert(spec_twt(text@, evs[i as int]) == Some(twt@));
                            }
                            current.push(twt);
                            proof {
                                assert(current@.map_values(|t: TemplateWithText| t@)
                                    =~= st.current.push(
                                    spec_twt(text@, evs[i as int])->Some_0,
                                ));
                            }
                        },
                        Err(_) => {
                            proof {
                                assert(spec_twt(text@, evs[i as int]) is None);
                            }
                        },
                    }
                }
            },
            Event::Comment { .. } => {},
        }
        i = i + 1;
    }
    proof {
        assert(evs.len() == events@.len());
    }
    if current.len() > 0 {
        let headers = stack.snapshot();
        let templates = current;
        let ghost st = sections_fold(text@, names_view(filter@), evs, evs.len() as int);
        let batch = SectionBatch { headers, templates };
        done.push(batch);
        proof {
            assert(batches_view(done@) =~= st.done.push(
                SectionBatchV { headers: st.stack, templates: st.current },
            ));
        }
    }
    Ok(done)
}

/// One batch of comments extracted under one header state.
pub struct CommentBatch {
    pub headers: Vec<Option<Vec<u8>>>,
    pub comments: Vec<Vec<u8>>,
}

/// The mathematical value of a [`CommentBatch`].
pub struct CommentBatchV {
    pub headers: Seq<Option<Seq<u8>>>,
    pub comments: Seq<Seq<u8>>,
}

impl View for CommentBatch {
    type V = CommentBatchV;

    open spec fn view(&self) -> CommentBatchV {
        CommentBatchV {
            headers: slots_view(self.headers@),
            comments: self.comments@.map_values(|c: Vec<u8>| c@),
        }
    }
}

/// The values of a comment-batch list.
pub open spec fn comment_batches_view(s: Seq<CommentBatch>) -> Seq<CommentBatchV> {
    Seq::new(s.len(), |i: int| s[i]@)
}

/// The comment fold state.
pub struct CommentsState {
    pub stack: Seq<Option<Seq<u8>>>,
    pub current: Seq<Seq<u8>>,
    pub done: Seq<CommentBatchV>,
}

/// The initial comment fold state.
pub open spec fn comments_init() -> CommentsState {
    CommentsState { stack: Seq::new(6, |j: int| None), current: Seq::empty(), done: Seq::empty() }
}

/// One comment fold step: headers flush and update as for templates;
/// every comment joins the open section; templates do not matter here.
pub open spec fn comments_step(text: Seq<u8>, st: CommentsState, e: EventV) -> CommentsState {
    match e {
        EventV::Heading { level, text: tsp } => {
            let done = if st.current.len() > 0 {
                st.done.push(CommentBatchV { headers: st.stack, comments: st.current })
            } else {
                st.done
            };
            CommentsState {
                stack: spec_cross(st.stack, level as int, spec_span_slice(text, tsp)),
                current: Seq::empty(),
                done,
            }
        },
        EventV::Comment { span } => CommentsState {
            stack: st.stack,
            current: st.current.push(text.subrange(span.start as int, span.end as int)),
            done: st.done,
        },
        EventV::Template { .. } => st,
    }
}

/// The comment fold over the first `n` events.
pub open spec fn comments_fold(text: Seq<u8>, events: Seq<EventV>, n: int) -> CommentsState
    decreases n,
{
    if n <= 0 {
        comments_init()
    } else {
        comments_step(text, comments_fold(text, events, n - 1), events[n - 1])
    }
}

/// What the comment pipeline yields, final flush included.
pub open spec fn spec_comments_and_headers(text: Seq<u8>, events: Seq<EventV>) -> Seq<
    CommentBatchV,
> {
    let st = comments_fold(text, events, events.len() as int);
    if st.current.len() > 0 {
        st.done.push(CommentBatchV { headers: st.stack, comments: st.current })
    } else {
        st.done
    }
}

/// Walks a page tree and groups every comment under the header state at
/// its extraction, flushing the last group when traversal ends.
pub fn comments_and_headers(text: &[u8], nodes: &Vec<Node>) -> (r: Result<
    Vec<CommentBatch>,
    &'static str,
>)
    ensures
        crate::nodes::wf_list(nodes@, text@.len() as int) ==> r is Ok,
        (if events_wf(walk_list(nodes@), text@.len() as int) {
            r matches Ok(b) && comment_batches_view(b@) == spec_comments_and_headers(
                text@,
                walk_list(nodes@),
            )
        } else {
            r is Err
        }),
{
    let events = walk(nodes);
    if !check_events(&events, text.len()) {
        proof {
            if crate::nodes::wf_list(nodes@, text@.len() as int) {
                crate::walker::lemma_walk_list_events_wf(nodes@, text@.len() as int);
            }
        }
        return Err("node span out of range of page text");
    }
    let ghost evs = events_view(events@);
    let mut stack = HeaderStack::new();
    let mut current: Vec<Vec<u8>> = Vec::new();
    let mut done: Vec<CommentBatch> = Vec::new();
    let mut i: usize = 0;
    proof {
        assert(stack.view_spec() =~= comments_init().stack);
        assert(current@.map_values(|c: Vec<u8>| c@) =~= comments_init().current);
        assert(comment_batches_view(done@) =~= comments_init().done);
    }
    while i < events.len()
        invariant
            0 <= i <= events@.len(),
            evs == events_view(events@),
            events_wf(evs, text@.len() as int),
            stack.wf(),
            stack.view_spec() == comments_fold(text@, evs, i as int).stack,
            current@.map_values(|c: Vec<u8>| c@) == comments_fold(text@, evs, i as int).current,
            comment_batches_view(done@) == comments_fold(text@, evs, i as int).done,
        decreases events@.len() - i,
    {
        let ghost st = comments_fold(text@, evs, i as int);
        proof {
            assert(evs[i as int] == events@[i as int]@);
            assert(event_wf(evs[i as int], text@.len() as int));
        }
        match &events[i] {
            Event::Heading { level, text: tsp } => {
                if current.len() > 0 {
                    let headers = stack.snapshot();
                    let comments = current;
                    current = Vec::new();
                    done.push(CommentBatch { headers, comments });
                    proof {
                        assert(comment_batches_view(done@) =~= st.done.push(
                            CommentBatchV { headers: st.stack, comments: st.current },
                        ));
                    }
                }
                let htext: Vec<u8> = match tsp {
                    Some(sp) => crate::records::slice_to_vec_range(text, sp.start, sp.end),
                    None => Vec::new(),
                };
                proof {
                    assert(htext@ == spec_span_slice(text@, evs[i as int]->Heading_text));
                }
                stack.cross(*level, htext);
                proof {
                    assert(current@.map_values(|c: Vec<u8>| c@) =~= Seq::<Seq<u8>>::empty());
                }
            },
            Event::Comment { span } => {
                let c = crate::records::slice_to_vec_range(text, span.start, span.end);
                current.push(c);
                proof {
                    assert(current@.map_values(|c: Vec<u8>| c@) =~= st.current.push(
                        text@.subrange(
                            evs[i as int]->Comment_span.start as int,
                            evs[i as int]->Comment_span.end as int,
                        ),
                    ));
                }
            },
            Event::Template { .. } => {},
        }
        i = i + 1;
    }
    if current.len() > 0 {
        let headers = stack.snapshot();
        let comments = current;
        let ghost st = comments_fold(text@, evs, evs.len() as int);
        done.push(CommentBatch { headers, comments });
        proof {
            assert(comment_batches_view(done@) =~= st.done.push(
                CommentBatchV { headers: st.stack, comments: st.current },
            ));
        }
    }
    Ok(done)
}

/// The headers a page reports, in traversal order.
pub open spec fn spec_headers_of(text: Seq<u8>, events: Seq<EventV>, n: int) -> Seq<(Seq<u8>, u8)>
    decreases n,
{
    if n <= 0 {
        Seq::empty()
    } else {
        let rest = spec_headers_of(text, events, n - 1);
        match events[n - 1] {
            EventV::Heading { level, text: tsp } => rest.push(
                (spec_span_slice(text, tsp), level),
            ),
            _ => rest,
        }
    }
}

/// The values of a header list.
pub open spec fn headers_view(s: Seq<Header>) -> Seq<(Seq<u8>, u8)> {
    Seq::new(s.len(), |i: int| (s[i].text@, s[i].level))
}

/// Walks a page tree and reports every header with its text and level, in
/// traversal order.
pub fn collect_headers(text: &[u8], nodes: &Vec<Node>) -> (r: Result<Vec<Header>, &'static str>)
    ensures
        crate::nodes::wf_list(nodes@, text@.len() as int) ==> r is Ok,
        (if events_wf(walk_list(nodes@), text@.len() as int) {
            r matches Ok(h) && headers_view(h@) == spec_headers_of(
                text@,
                walk_list(nodes@),
                walk_list(nodes@).len() as int,
            )
        } else {
            r is Err
        }),
{
    let events = walk(nodes);
    if !check_events(&events, text.len()) {
        proof {
            if crate::nodes::wf_list(nodes@, text@.len() as int) {
                crate::walker::lemma_walk_list_events_wf(nodes@, text@.len() as int);
            }
        }
        return Err("node span out of range of page text");
    }
    let ghost evs = events_view(events@);
    let mut out: Vec<Header> = Vec::new();
    let mut i: usize = 0;
    proof {
        assert(headers_view(out@) =~= spec_headers_of(text@, evs, 0));
    }
    while i < events.len()
        invariant
            0 <= i <= events@.len(),
            evs == events_view(events@),
            events_wf(evs, text@.len() as int),
            headers_view(out@) == spec_headers_of(text@, evs, i as int),
        decreases events@.len() - i,
    {
        proof {
            assert(evs[i as int] == events@[i as int]@);
            assert(event_wf(evs[i as int], text@.len() as int));
        }
        match &events[i] {
            Event::Heading { level, text: tsp } => {
                let htext: Vec<u8> = match tsp {
                    Some(sp) => crate::records::slice_to_vec_range(text, sp.start, sp.end),
                    None => Vec::new(),
                };
                out.push(Header::new(htext, *level));
                proof {
                    assert(headers_view(out@) =~= spec_headers_of(text@, evs, i + 1));
                }
            },
            _ => {
                proof {
                    assert(headers_view(out@) =~= spec_headers_of(text@, evs, i + 1));
                }
            },
        }
        i = i + 1;
    }
    Ok(out)
}

} // verus!
