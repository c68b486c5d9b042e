//! The document-tree walker: a single recursive traversal of the node tree
//! that reports, in traversal order, every construct the pipelines care
//! about (headings, templates, comments), recursing into every node kind
//! that can contain nested markup — lists, tables (attributes, captions,
//! rows, cells), parameter defaults, link and image text, template names and
//! arguments — so that nothing nested is ever missed.

use vstd::prelude::*;

use crate::nodes::{ListItem, Node, NodeKind, Parameter, TableCaption, TableCell, TableRow};

verus! {

/// A byte span `[start, end)` into the page text.
#[derive(PartialEq, Eq, Structural, Clone, Copy, Debug)]
pub struct Span {
    pub start: usize,
    pub end: usize,
}

/// The span of a template argument: the span of its name node list (absent
/// for positional arguments) and of its value node list (absent when the
/// value list is empty, standing for the empty slice).
#[derive(PartialEq, Eq, Structural, Clone, Copy, Debug)]
pub struct ParamSpan {
    pub name: Option<Span>,
    pub value: Option<Span>,
}

/// One report from the walker, in traversal order.
pub enum Event {
    /// A heading, reported before its nested content.
    Heading { level: u8, text: Option<Span> },
    /// A template, reported after the content nested in its name and
    /// parameters (so inner templates are reported before outer ones).
    Template { span: Span, name: Option<Span>, params: Vec<ParamSpan> },
    /// A comment.
    Comment { span: Span },
}

/// The mathematical value of an [`Event`].
pub enum EventV {
    Heading { level: u8, text: Option<Span> },
    Template { span: Span, name: Option<Span>, params: Seq<ParamSpan> },
    Comment { span: Span },
}

impl View for Event {
    type V = EventV;

    open spec fn view(&self) -> EventV {
        match self {
            Event::Heading { level, text } => EventV::Heading { level: *level, text: *text },
            Event::Template { span, name, params } => EventV::Template {
                span: *span,
                name: *name,
                params: params@,
            },
            Event::Comment { span } => EventV::Comment { span: *span },
        }
    }
}

/// The values of a sequence of events.
pub open spec fn events_view(s: Seq<Event>) -> Seq<EventV> {
    Seq::new(s.len(), |i: int| s[i]@)
}

/// Appending one event appends its value.
pub proof fn lemma_events_view_push(s: Seq<Event>, e: Event)
    ensures
        events_view(s.push(e)) =~= events_view(s).push(e@),
{
}

/// The span covered by a node list: from the first node's start to the last
/// node's end; `None` for the empty list.
pub open spec fn spec_list_span(nodes: Seq<Node>) -> Option<Span> {
    if nodes.len() == 0 {
        None
    } else {
        Some(Span { start: nodes[0].start, end: nodes.last().end })
    }
}

/// Executable counterpart of [`spec_list_span`].
pub fn list_span(nodes: &Vec<Node>) -> (r: Option<Span>)
    ensures
        r == spec_list_span(nodes@),
{
    if nodes.len() == 0 {
        None
    } else {
        Some(Span { start: nodes[0].start, end: nodes[nodes.len() - 1].end })
    }
}

/// The span of a node list, with the empty run at position zero standing
/// for an empty list (whose text is the empty slice).
pub open spec fn spec_span_or_zero(nodes: Seq<Node>) -> Span {
    match spec_list_span(nodes) {
        Some(sp) => sp,
        None => Span { start: 0, end: 0 },
    }
}

/// The spans of one template parameter. A named parameter keeps a name
/// span even when its name node list is empty: its key is the empty text,
/// which is not the same as having no name at all.
pub open spec fn spec_param_span(p: Parameter) -> ParamSpan {
    ParamSpan {
        name: match p.name {
            Some(name) => Some(spec_span_or_zero(name@)),
            None => None,
        },
        value: spec_list_span(p.value@),
    }
}

/// The spans of a whole parameter list, in order.
pub open spec fn spec_param_spans(params: Seq<Parameter>) -> Seq<ParamSpan> {
    Seq::new(params.len(), |i: int| spec_param_span(params[i]))
}

/// The template event reported for a template node.
pub open spec fn spec_template_event(n: Node, name: Seq<Node>, params: Seq<Parameter>) -> EventV {
    EventV::Template {
        span: Span { start: n.start, end: n.end },
        name: spec_list_span(name),
        params: spec_param_spans(params),
    }
}

/// The events reported for a node list, in order.
pub open spec fn walk_list(nodes: Seq<Node>) -> Seq<EventV>
    decreases nodes,
{
    if nodes.len() == 0 {
        Seq::empty()
    } else {
        walk_list(nodes.drop_last()) + walk_node(nodes.last())
    }
}

/// The events reported for one node and everything nested in it. Headings
/// are reported before their content; templates after the content of their
/// name and parameters; every other container contributes only what is
/// nested in it; leaf kinds other than comments contribute nothing.
pub open spec fn walk_node(n: Node) -> Seq<EventV>
    decreases n,
{
    match n.kind {
        NodeKind::DefinitionList { items } => walk_items(items@),
        NodeKind::OrderedList { items } => walk_items(items@),
        NodeKind::UnorderedList { items } => walk_items(items@),
        NodeKind::Heading { level, nodes } => seq![
            EventV::Heading { level, text: spec_list_span(nodes@) },
        ] + walk_list(nodes@),
        NodeKind::Preformatted { nodes } => walk_list(nodes@),
        NodeKind::Tag { nodes } => walk_list(nodes@),
        NodeKind::Image { text } => walk_list(text@),
        NodeKind::Link { text } => walk_list(text@),
        NodeKind::Parameter { name, default } => (match default {
            Some(d) => walk_list(d@),
            None => Seq::empty(),
        }) + walk_list(name@),
        NodeKind::Table { attributes, captions, rows } => walk_list(attributes@) + walk_captions(
            captions@,
        ) + walk_rows(rows@),
        NodeKind::Template { name, parameters } => walk_list(name@) + walk_params(parameters@)
            + seq![spec_template_event(n, name@, parameters@)],
        NodeKind::Comment => seq![EventV::Comment { span: Span { start: n.start, end: n.end } }],
        _ => Seq::empty(),
    }
}

/// The events reported for a list of list items.
pub open spec fn walk_items(items: Seq<ListItem>) -> Seq<EventV>
    decreases items,
{
    if items.len() == 0 {
        Seq::empty()
    } else {
        walk_items(items.drop_last()) + walk_list(items.last().nodes@)
    }
}

/// The events reported for a table's captions.
pub open spec fn walk_captions(captions: Seq<TableCaption>) -> Seq<EventV>
    decreases captions,
{
    if captions.len() == 0 {
        Seq::empty()
    } else {
        walk_captions(captions.drop_last()) + walk_caption(captions.last())
    }
}

/// The events reported for one caption: its attributes (when present), then
/// its content.
pub open spec fn walk_caption(c: TableCaption) -> Seq<EventV>
    decreases c,
{
    (match c.attributes {
        Some(a) => walk_list(a@),
        None => Seq::empty(),
    }) + walk_list(c.content@)
}

/// The events reported for a table's rows.
pub open spec fn walk_rows(rows: Seq<TableRow>) -> Seq<EventV>
    decreases rows,
{
    if rows.len() == 0 {
        Seq::empty()
    } else {
        walk_rows(rows.drop_last()) + walk_row(rows.last())
    }
}

/// The events reported for one row: its attributes, then its cells.
pub open spec fn walk_row(r: TableRow) -> Seq<EventV>
    decreases r,
{
    walk_list(r.attributes@) + walk_cells(r.cells@)
}

/// The events reported for a row's cells.
pub open spec fn walk_cells(cells: Seq<TableCell>) -> Seq<EventV>
    decreases cells,
{
    if cells.len() == 0 {
        Seq::empty()
    } else {
        walk_cells(cells.drop_last()) + walk_cell(cells.last())
    }
}

/// The events reported for one cell: its attributes (when present), then
/// its content.
pub open spec fn walk_cell(c: TableCell) -> Seq<EventV>
    decreases c,
{
    (match c.attributes {
        Some(a) => walk_list(a@),
        None => Seq::empty(),
    }) + walk_list(c.content@)
}

/// The events reported for a template's parameter list.
pub open spec fn walk_params(params: Seq<Parameter>) -> Seq<EventV>
    decreases params,
{
    if params.len() == 0 {
        Seq::empty()
    } else {
        walk_params(params.drop_last()) + walk_param(params.last())
    }
}

/// The events reported for one template parameter: its name first (when
/// present), then its value.
pub open spec fn walk_param(p: Parameter) -> Seq<EventV>
    decreases p,
{
    (match p.name {
        Some(name) => walk_list(name@),
        None => Seq::empty(),
    }) + walk_list(p.value@)
}

/// Walks a whole page tree and returns every reported event, in traversal
/// order.
pub fn walk(nodes: &Vec<Node>) -> (out: Vec<Event>)
    ensures
        events_view(out@) == walk_list(nodes@),
{
    let mut out: Vec<Event> = Vec::new();
    proof {
        assert(events_view(out@) =~= Seq::<EventV>::empty());
    }
    walk_nodes(nodes, &mut out);
    out
}

/// Walks a node list and appends every reported event to `out`.
pub fn walk_nodes(nodes: &Vec<Node>, out: &mut Vec<Event>)
    ensures
        events_view(final(out)@) == events_view(old(out)@) + walk_list(nodes@),
    decreases nodes@,
{
    let ghost out0 = events_view(out@);
    let mut i: usize = 0;
    while i < nodes.len()
        invariant
            0 <= i <= nodes@.len(),
            events_view(out@) == out0 + walk_list(nodes@.subrange(0, i as int)),
        decreases nodes@.len() - i,
    {
        proof {
            assert(nodes@.subrange(0, i + 1).drop_last() =~= nodes@.subrange(0, i as int));
            assert(nodes@.subrange(0, i + 1).last() == nodes@[i as int]);
            assert(decreases_to!(nodes@ => nodes@[i as int]));
        }
        walk_one(&nodes[i], out);
        i = i + 1;
    }
    proof {
        assert(nodes@.subrange(0, nodes@.len() as int) =~= nodes@);
    }
}

/// Walks a list of list items and appends every reported event to `out`.
pub fn walk_item_list(items: &Vec<ListItem>, out: &mut Vec<Event>)
    ensures
        events_view(final(out)@) == events_view(old(out)@) + walk_items(items@),
    decreases items@,
{
    let ghost out0 = events_view(out@);
    let mut i: usize = 0;
    while i < items.len()
        invariant
            0 <= i <= items@.len(),
            events_view(out@) == out0 + walk_items(items@.subrange(0, i as int)),
        decreases items@.len() - i,
    {
        proof {
            assert(items@.subrange(0, i + 1).drop_last() =~= items@.subrange(0, i as int));
            assert(items@.subrange(0, i + 1).last() == items@[i as int]);
            assert(decreases_to!(items@ => items@[i as int]));
            assert(decreases_to!(items@[i as int] => items@[i as int].nodes));
            assert(decreases_to!(items@[i as int].nodes => items@[i as int].nodes@));
        }
        walk_nodes(&items[i].nodes, out);
        i = i + 1;
    }
    proof {
        assert(items@.subrange(0, items@.len() as int) =~= items@);
    }
}

/// Walks a table's captions and appends every reported event to `out`.
pub fn walk_caption_list(captions: &Vec<TableCaption>, out: &mut Vec<Event>)
    ensures
        events_view(final(out)@) == events_view(old(out)@) + walk_captions(captions@),
    decreases captions@,
{
    let ghost out0 = events_view(out@);
    let mut i: usize = 0;
    while i < captions.len()
        invariant
            0 <= i <= captions@.len(),
            events_view(out@) == out0 + walk_captions(captions@.subrange(0, i as int)),
        decreases captions@.len() - i,
    {
        let ghost ci = captions@[i as int];
        proof {
            assert(captions@.subrange(0, i + 1).drop_last() =~= captions@.subrange(0, i as int));
            assert(captions@.subrange(0, i + 1).last() == ci);
            assert(decreases_to!(captions@ => ci));
        }
        let c = &captions[i];
        match &c.attributes {
            Some(a) => {
                proof {
                    assert(ci.attributes == Some(*a));
                    assert(decreases_to!(ci => ci.attributes));
                    assert(decreases_to!(ci.attributes => ci.attributes->0));
                    assert(decreases_to!(ci.attributes->0 => a@));
                }
                walk_nodes(a, out);
            },
            None => {},
        }
        proof {
            assert(decreases_to!(ci => ci.content));
            assert(decreases_to!(ci.content => c.content@));
        }
        walk_nodes(&c.content, out);
        proof {
            assert(walk_captions(captions@.subrange(0, i + 1)) == walk_captions(
                captions@.subrange(0, i as int),
            ) + walk_caption(ci));
            assert(events_view(out@) =~= out0 + walk_captions(captions@.subrange(0, i + 1)));
        }
        i = i + 1;
    }
    proof {
        assert(captions@.subrange(0, captions@.len() as int) =~= captions@);
    }
}

/// Walks a table's rows and appends every reported event to `out`.
pub fn walk_row_list(rows: &Vec<TableRow>, out: &mut Vec<Event>)
    ensures
        events_view(final(out)@) == events_view(old(out)@) + walk_rows(rows@),
    decreases rows@,
{
    let ghost out0 = events_view(out@);
    let mut i: usize = 0;
    while i < rows.len()
        invariant
            0 <= i <= rows@.len(),
            events_view(out@) == out0 + walk_rows(rows@.subrange(0, i as int)),
        decreases rows@.len() - i,
    {
        let ghost ri = rows@[i as int];
        proof {
            assert(rows@.subrange(0, i + 1).drop_last() =~= rows@.subrange(0, i as int));
            assert(rows@.subrange(0, i + 1).last() == ri);
            assert(decreases_to!(rows@ => ri));
        }
        let r = &rows[i];
        proof {
            assert(decreases_to!(ri => ri.attributes));
            assert(decreases_to!(ri.attributes => r.attributes@));
        }
        walk_nodes(&r.attributes, out);
        proof {
            assert(decreases_to!(ri => ri.cells));
            assert(decreases_to!(ri.cells => r.cells@));
        }
        walk_cell_list(&r.cells, out);
        proof {
            assert(walk_rows(rows@.subrange(0, i + 1)) == walk_rows(rows@.subrange(0, i as int))
                + walk_row(ri));
            assert(events_view(out@) =~= out0 + walk_rows(rows@.subrange(0, i + 1)));
        }
        i = i + 1;
    }
    proof {
        assert(rows@.subrange(0, rows@.len() as int) =~= rows@);
    }
}

/// Walks a row's cells and appends every reported event to `out`.
pub fn walk_cell_list(cells: &Vec<TableCell>, out: &mut Vec<Event>)
    ensures
        events_view(final(out)@) == events_view(old(out)@) + walk_cells(cells@),
    decreases cells@,
{
    let ghost out0 = events_view(out@);
    let mut i: usize = 0;
    while i < cells.len()
        invariant
            0 <= i <= cells@.len(),
            events_view(out@) == out0 + walk_cells(cells@.subrange(0, i as int)),
        decreases cells@.len() - i,
    {
        let ghost ci = cells@[i as int];
        proof {
            assert(cells@.subrange(0, i + 1).drop_last() =~= cells@.subrange(0, i as int));
            assert(cells@.subrange(0, i + 1).last() == ci);
            assert(decreases_to!(cells@ => ci));
        }
        let c = &cells[i];
        match &c.attributes {
            Some(a) => {
                proof {
                    assert(ci.attributes == Some(*a));
                    assert(decreases_to!(ci => ci.attributes));
                    assert(decreases_to!(ci.attributes => ci.attributes->0));
                    assert(decreases_to!(ci.attributes->0 => a@));
                }
                walk_nodes(a, out);
            },
            None => {},
        }
        proof {
            assert(decreases_to!(ci => ci.content));
            assert(decreases_to!(ci.content => c.content@));
        }
        walk_nodes(&c.content, out);
        proof {
            assert(walk_cells(cells@.subrange(0, i + 1)) == walk_cells(cells@.subrange(0, i as int))
                + walk_cell(ci));
            assert(events_view(out@) =~= out0 + walk_cells(cells@.subrange(0, i + 1)));
        }
        i = i + 1;
    }
    proof {
        assert(cells@.subrange(0, cells@.len() as int) =~= cells@);
    }
}

/// Walks one node and appends every reported event to `out`.
pub fn walk_one(n: &Node, out: &mut Vec<Event>)
    ensures
        events_view(final(out)@) == events_view(old(out)@) + walk_node(*n),
    decreases *n,
{
    let ghost out0 = events_view(out@);
    match &n.kind {
        NodeKind::DefinitionList { items } => {
            proof {
                assert(decreases_to!(*n => n.kind));
                assert(decreases_to!(n.kind => n.kind->DefinitionList_items));
                assert(decreases_to!(n.kind->DefinitionList_items => items@));
            }
            walk_item_list(items, out);
        },
        NodeKind::OrderedList { items } => {
            proof {
                assert(decreases_to!(*n => n.kind));
                assert(decreases_to!(n.kind => n.kind->OrderedList_items));
                assert(decreases_to!(n.kind->OrderedList_items => items@));
            }
            walk_item_list(items, out);
        },
        NodeKind::UnorderedList { items } => {
            proof {
                assert(decreases_to!(*n => n.kind));
                assert(decreases_to!(n.kind => n.kind->UnorderedList_items));
                assert(decreases_to!(n.kind->UnorderedList_items => items@));
            }
            walk_item_list(items, out);
        },
        NodeKind::Heading { level, nodes } => {
            let ev = Event::Heading { level: *level, text: list_span(nodes) };
            proof {
                lemma_events_view_push(out@, ev);
            }
            out.push(ev);
            proof {
                assert(decreases_to!(*n => n.kind));
                assert(decreases_to!(n.kind => n.kind->Heading_nodes));
                assert(decreases_to!(n.kind->Heading_nodes => nodes@));
            }
            walk_nodes(nodes, out);
            proof {
                assert(events_view(out@) =~= out0 + walk_node(*n));
            }
        },
        NodeKind::Preformatted { nodes } => {
            proof {
                assert(decreases_to!(*n => n.kind));
                assert(decreases_to!(n.kind => n.kind->Preformatted_nodes));
                assert(decreases_to!(n.kind->Preformatted_nodes => nodes@));
            }
            walk_nodes(nodes, out);
        },
        NodeKind::Tag { nodes } => {
            proof {
                assert(decreases_to!(*n => n.kind));
                assert(decreases_to!(n.kind => n.kind->Tag_nodes));
                assert(decreases_to!(n.kind->Tag_nodes => nodes@));
            }
            walk_nodes(nodes, out);
        },
        NodeKind::Image { text } => {
            proof {
                assert(decreases_to!(*n => n.kind));
                assert(decreases_to!(n.kind => n.kind->Image_text));
                assert(decreases_to!(n.kind->Image_text => text@));
            }
            walk_nodes(text, out);
        },
        NodeKind::Link { text } => {
            proof {
                assert(decreases_to!(*n => n.kind));
                assert(decreases_to!(n.kind => n.kind->Link_text));
                assert(decreases_to!(n.kind->Link_text => text@));
            }
            walk_nodes(text, out);
        },
        NodeKind::Parameter { name, default } => {
            match default {
                Some(d) => {
                    proof {
                        assert(n.kind->Parameter_default == Some(*d));
                        assert(decreases_to!(*n => n.kind));
                        assert(decreases_to!(n.kind => n.kind->Parameter_default));
                        assert(decreases_to!(n.kind->Parameter_default => n.kind->Parameter_default->0));
                        assert(decreases_to!(n.kind->Parameter_default->0 => d@));
                    }
                    walk_nodes(d, out);
                },
                None => {},
            }
            proof {
                assert(decreases_to!(*n => n.kind));
                assert(decreases_to!(n.kind => n.kind->Parameter_name));
                assert(decreases_to!(n.kind->Parameter_name => name@));
            }
            walk_nodes(name, out);
            proof {
                assert(events_view(out@) =~= out0 + walk_node(*n));
            }
        },
        NodeKind::Table { attributes, captions, rows } => {
            proof {
                assert(decreases_to!(*n => n.kind));
                assert(decreases_to!(n.kind => n.kind->Table_attributes));
                assert(decreases_to!(n.kind->Table_attributes => attributes@));
            }
            walk_nodes(attributes, out);
            proof {
                assert(decreases_to!(*n => n.kind));
                assert(decreases_to!(n.kind => n.kind->Table_captions));
                assert(decreases_to!(n.kind->Table_captions => captions@));
            }
            walk_caption_list(captions, out);
            proof {
                assert(decreases_to!(*n => n.kind));
                assert(decreases_to!(n.kind => n.kind->Table_rows));
                assert(decreases_to!(n.kind->Table_rows => rows@));
            }
            walk_row_list(rows, out);
            proof {
                assert(events_view(out@) =~= out0 + walk_node(*n));
            }
        },
        NodeKind::Template { name, parameters } => {
            proof {
                assert(decreases_to!(*n => n.kind));
                assert(decreases_to!(n.kind => n.kind->Template_name));
                assert(decreases_to!(n.kind->Template_name => name@));
            }
            walk_nodes(name, out);
            let ghost after_name = events_view(out@);
            let mut params: Vec<ParamSpan> = Vec::new();
            let mut j: usize = 0;
            while j < parameters.len()
                invariant
                    n.kind == (NodeKind::Template { name: *name, parameters: *parameters }),
                    0 <= j <= parameters@.len(),
                    params@ =~= spec_param_spans(parameters@.subrange(0, j as int)),
                    events_view(out@) == after_name + walk_params(
                        parameters@.subrange(0, j as int),
                    ),
                decreases parameters@.len() - j,
            {
                let ghost pj = parameters@[j as int];
                proof {
                    assert(decreases_to!(*n => n.kind));
                    assert(decreases_to!(n.kind => n.kind->Template_parameters));
                    assert(decreases_to!(n.kind->Template_parameters => parameters@));
                    assert(decreases_to!(parameters@ => parameters@[j as int]));
                }
                let p = &parameters[j];
                let ghost before_param = events_view(out@);
                let name_span: Option<Span> = match &p.name {
                    Some(pname) => {
                        proof {
                            assert(pj.name == Some(*pname));
                            assert(decreases_to!(pj => pj.name));
                            assert(decreases_to!(pj.name => pj.name->0));
                            assert(decreases_to!(pj.name->0 => pname@));
                        }
                        walk_nodes(pname, out);
                        Some(
                            match list_span(pname) {
                                Some(sp) => sp,
                                None => Span { start: 0, end: 0 },
                            },
                        )
                    },
                    None => None,
                };
                proof {
                    assert(decreases_to!(pj => pj.value));
                    assert(decreases_to!(pj.value => p.value@));
                }
                walk_nodes(&p.value, out);
                params.push(ParamSpan { name: name_span, value: list_span(&p.value) });
                proof {
                    assert(events_view(out@) =~= before_param + walk_param(pj));
                    assert(parameters@.subrange(0, j + 1).drop_last() =~= parameters@.subrange(
                        0,
                        j as int,
                    ));
                    assert(parameters@.subrange(0, j + 1).last() == pj);
                    assert(walk_params(parameters@.subrange(0, j + 1)) == walk_params(
                        parameters@.subrange(0, j as int),
                    ) + walk_param(pj));
                    assert(spec_param_spans(parameters@.subrange(0, j + 1)) =~= spec_param_spans(
                        parameters@.subrange(0, j as int),
                    ).push(spec_param_span(pj)));
                    assert(events_view(out@) =~= after_name + walk_params(
                        parameters@.subrange(0, j + 1),
                    ));
                }
                j = j + 1;
            }
            proof {
                assert(parameters@.subrange(0, parameters@.len() as int) =~= parameters@);
            }
            let ev = Event::Template {
                span: Span { start: n.start, end: n.end },
                name: list_span(name),
                params,
            };
            proof {
                lemma_events_view_push(out@, ev);
                assert(ev@ == spec_template_event(*n, name@, parameters@));
            }
            out.push(ev);
            proof {
                assert(events_view(out@) =~= out0 + walk_node(*n));
            }
        },
        NodeKind::Comment => {
            let ev = Event::Comment { span: Span { start: n.start, end: n.end } };
            proof {
                lemma_events_view_push(out@, ev);
            }
            out.push(ev);
            proof {
                assert(events_view(out@) =~= out0 + walk_node(*n));
            }
        },
        _ => {
            proof {
                assert(events_view(out@) =~= out0 + walk_node(*n));
            }
        },
    }
}

/// Whether an event reports a template.
pub open spec fn is_template_event(e: EventV) -> bool {
    e is Template
}

/// The template predicate as a value, for filtering event sequences.
pub open spec fn template_pred() -> spec_fn(EventV) -> bool {
    |e: EventV| is_template_event(e)
}

/// The template events of a node list, collected directly from the tree in
/// traversal order, independently of the walker.
pub open spec fn templates_in_list(nodes: Seq<Node>) -> Seq<EventV>
    decreases nodes,
{
    if nodes.len() == 0 {
        Seq::empty()
    } else {
        templates_in_list(nodes.drop_last()) + templates_in_node(nodes.last())
    }
}

/// The template events of one node and everything nested in it.
pub open spec fn templates_in_node(n: Node) -> Seq<EventV>
    decreases n,
{
    match n.kind {
        NodeKind::DefinitionList { items } => templates_in_items(items@),
        NodeKind::OrderedList { items } => templates_in_items(items@),
        NodeKind::UnorderedList { items } => templates_in_items(items@),
        NodeKind::Heading { level, nodes } => templates_in_list(nodes@),
        NodeKind::Preformatted { nodes } => templates_in_list(nodes@),
        NodeKind::Tag { nodes } => templates_in_list(nodes@),
        NodeKind::Image { text } => templates_in_list(text@),
        NodeKind::Link { text } => templates_in_list(text@),
        NodeKind::Parameter { name, default } => (match default {
            Some(d) => templates_in_list(d@),
            None => Seq::empty(),
        }) + templates_in_list(name@),
        NodeKind::Table { attributes, captions, rows } => templates_in_list(attributes@)
            + templates_in_captions(captions@) + templates_in_rows(rows@),
        NodeKind::Template { name, parameters } => templates_in_list(name@) + templates_in_params(
            parameters@,
        ) + seq![spec_template_event(n, name@, parameters@)],
        _ => Seq::empty(),
    }
}

/// The template events nested in a list of list items.
pub open spec fn templates_in_items(items: Seq<ListItem>) -> Seq<EventV>
    decreases items,
{
    if items.len() == 0 {
        Seq::empty()
    } else {
        templates_in_items(items.drop_last()) + templates_in_list(items.last().nodes@)
    }
}

/// The template events nested in a table's captions.
pub open spec fn templates_in_captions(captions: Seq<TableCaption>) -> Seq<EventV>
    decreases captions,
{
    if captions.len() == 0 {
        Seq::empty()
    } else {
        templates_in_captions(captions.drop_last()) + templates_in_caption(captions.last())
    }
}

/// The template events nested in one caption.
pub open spec fn templates_in_caption(c: TableCaption) -> Seq<EventV>
    decreases c,
{
    (match c.attributes {
        Some(a) => templates_in_list(a@),
        None => Seq::empty(),
    }) + templates_in_list(c.content@)
}

/// The template events nested in a table's rows.
pub open spec fn templates_in_rows(rows: Seq<TableRow>) -> Seq<EventV>
    decreases rows,
{
    if rows.len() == 0 {
        Seq::empty()
    } else {
        templates_in_rows(rows.drop_last()) + templates_in_row(rows.last())
    }
}

/// The template events nested in one row.
pub open spec fn templates_in_row(r: TableRow) -> Seq<EventV>
    decreases r,
{
    templates_in_list(r.attributes@) + templates_in_cells(r.cells@)
}

/// The template events nested in a row's cells.
pub open spec fn templates_in_cells(cells: Seq<TableCell>) -> Seq<EventV>
    decreases cells,
{
    if cells.len() == 0 {
        Seq::empty()
    } else {
        templates_in_cells(cells.drop_last()) + templates_in_cell(cells.last())
    }
}

/// The template events nested in one cell.
pub open spec fn templates_in_cell(c: TableCell) -> Seq<EventV>
    decreases c,
{
    (match c.attributes {
        Some(a) => templates_in_list(a@),
        None => Seq::empty(),
    }) + templates_in_list(c.content@)
}

/// The template events nested in a template's parameter list.
pub open spec fn templates_in_params(params: Seq<Parameter>) -> Seq<EventV>
    decreases params,
{
    if params.len() == 0 {
        Seq::empty()
    } else {
        templates_in_params(params.drop_last()) + templates_in_param(params.last())
    }
}

/// The template events nested in one template parameter.
pub open spec fn templates_in_param(p: Parameter) -> Seq<EventV>
    decreases p,
{
    (match p.name {
        Some(name) => templates_in_list(name@),
        None => Seq::empty(),
    }) + templates_in_list(p.value@)
}

/// Filtering the empty event sequence yields nothing.
proof fn lemma_filter_empty()
    ensures
        Seq::<EventV>::empty().filter(template_pred()) == Seq::<EventV>::empty(),
{
    reveal_with_fuel(Seq::filter, 2);
    assert(Seq::<EventV>::empty().filter(template_pred()) =~= Seq::<EventV>::empty());
}

/// Filtering a single event keeps it exactly when it is a template event.
proof fn lemma_filter_single(e: EventV)
    ensures
        is_template_event(e) ==> seq![e].filter(template_pred()) == seq![e],
        !is_template_event(e) ==> seq![e].filter(template_pred()) == Seq::<EventV>::empty(),
{
    reveal_with_fuel(Seq::filter, 2);
    assert(seq![e].drop_last() =~= Seq::<EventV>::empty());
    if is_template_event(e) {
        assert(seq![e].filter(template_pred()) =~= seq![e]);
    } else {
        assert(seq![e].filter(template_pred()) =~= Seq::<EventV>::empty());
    }
}

/// Walker completeness over a node list: the template events among the
/// walker's reports are exactly the templates in the tree, in order —
/// whatever container kinds they are nested in.
pub proof fn lemma_walk_list_complete(nodes: Seq<Node>)
    ensures
        walk_list(nodes).filter(template_pred()) == templates_in_list(nodes),
    decreases nodes,
{
    if nodes.len() == 0 {
        lemma_filter_empty();
    } else {
        lemma_walk_list_complete(nodes.drop_last());
        lemma_walk_node_complete(nodes.last());
        Seq::filter_distributes_over_add(
            walk_list(nodes.drop_last()),
            walk_node(nodes.last()),
            template_pred(),
        );
    }
}

/// Walker completeness over one node.
pub proof fn lemma_walk_node_complete(n: Node)
    ensures
        walk_node(n).filter(template_pred()) == templates_in_node(n),
    decreases n,
{
    match n.kind {
        NodeKind::DefinitionList { items } => {
            lemma_walk_items_complete(items@);
        },
        NodeKind::OrderedList { items } => {
            lemma_walk_items_complete(items@);
        },
        NodeKind::UnorderedList { items } => {
            lemma_walk_items_complete(items@);
        },
        NodeKind::Heading { level, nodes } => {
            lemma_walk_list_complete(nodes@);
            lemma_filter_single(EventV::Heading { level, text: spec_list_span(nodes@) });
            Seq::filter_distributes_over_add(
                seq![EventV::Heading { level, text: spec_list_span(nodes@) }],
                walk_list(nodes@),
                template_pred(),
            );
            assert(Seq::<EventV>::empty() + walk_list(nodes@).filter(template_pred())
                =~= templates_in_node(n));
        },
        NodeKind::Preformatted { nodes } => {
            lemma_walk_list_complete(nodes@);
        },
        NodeKind::Tag { nodes } => {
            lemma_walk_list_complete(nodes@);
        },
        NodeKind::Image { text } => {
            lemma_walk_list_complete(text@);
        },
        NodeKind::Link { text } => {
            lemma_walk_list_complete(text@);
        },
        NodeKind::Parameter { name, default } => {
            let d_events = match default {
                Some(d) => walk_list(d@),
                None => Seq::empty(),
            };
            match default {
                Some(d) => {
                    lemma_walk_list_complete(d@);
                },
                None => {
                    lemma_filter_empty();
                },
            }
            lemma_walk_list_complete(name@);
            Seq::filter_distributes_over_add(d_events, walk_list(name@), template_pred());
        },
        NodeKind::Table { attributes, captions, rows } => {
            lemma_walk_list_complete(attributes@);
            lemma_walk_captions_complete(captions@);
            lemma_walk_rows_complete(rows@);
            Seq::filter_distributes_over_add(
                walk_list(attributes@) + walk_captions(captions@),
                walk_rows(rows@),
                template_pred(),
            );
            Seq::filter_distributes_over_add(
                walk_list(attributes@),
                walk_captions(captions@),
                template_pred(),
            );
        },
        NodeKind::Template { name, parameters } => {
            lemma_walk_list_complete(name@);
            lemma_walk_params_complete(parameters@);
            lemma_filter_single(spec_template_event(n, name@, parameters@));
            Seq::filter_distributes_over_add(
                walk_list(name@) + walk_params(parameters@),
                seq![spec_template_event(n, name@, parameters@)],
                template_pred(),
            );
            Seq::filter_distributes_over_add(
                walk_list(name@),
                walk_params(parameters@),
                template_pred(),
            );
        },
        NodeKind::Comment => {
            lemma_filter_single(EventV::Comment { span: Span { start: n.start, end: n.end } });
        },
        _ => {
            lemma_filter_empty();
        },
    }
}

/// Walker completeness over list items.
pub proof fn lemma_walk_items_complete(items: Seq<ListItem>)
    ensures
        walk_items(items).filter(template_pred()) == templates_in_items(items),
    decreases items,
{
    if items.len() == 0 {
        lemma_filter_empty();
    } else {
        lemma_walk_items_complete(items.drop_last());
        lemma_walk_list_complete(items.last().nodes@);
        Seq::filter_distributes_over_add(
            walk_items(items.drop_last()),
            walk_list(items.last().nodes@),
            template_pred(),
        );
    }
}

/// Walker completeness over table captions.
pub proof fn lemma_walk_captions_complete(captions: Seq<TableCaption>)
    ensures
        walk_captions(captions).filter(template_pred()) == templates_in_captions(captions),
    decreases captions,
{
    if captions.len() == 0 {
        lemma_filter_empty();
    } else {
        lemma_walk_captions_complete(captions.drop_last());
        let c = captions.last();
        match c.attributes {
            Some(a) => {
                lemma_walk_list_complete(a@);
            },
            None => {
                lemma_filter_empty();
            },
        }
        lemma_walk_list_complete(c.content@);
        let a_events = match c.attributes {
            Some(a) => walk_list(a@),
            None => Seq::empty(),
        };
        let a_templates = match c.attributes {
            Some(a) => templates_in_list(a@),
            None => Seq::empty(),
        };
        Seq::filter_distributes_over_add(a_events, walk_list(c.content@), template_pred());
        assert(walk_caption(c) == a_events + walk_list(c.content@));
        assert(templates_in_caption(c) == a_templates + templates_in_list(c.content@));
        assert(a_events.filter(template_pred()) == a_templates);
        Seq::filter_distributes_over_add(
            walk_captions(captions.drop_last()),
            walk_caption(c),
            template_pred(),
        );
        assert(walk_captions(captions) == walk_captions(captions.drop_last()) + walk_caption(c));
        assert(templates_in_captions(captions) == templates_in_captions(captions.drop_last())
            + templates_in_caption(c));
    }
}

/// Walker completeness over table rows.
pub proof fn lemma_walk_rows_complete(rows: Seq<TableRow>)
    ensures
        walk_rows(rows).filter(template_pred()) == templates_in_rows(rows),
    decreases rows,
{
    if rows.len() == 0 {
        lemma_filter_empty();
    } else {
        lemma_walk_rows_complete(rows.drop_last());
        let r = rows.last();
        lemma_walk_list_complete(r.attributes@);
        lemma_walk_cells_complete(r.cells@);
        Seq::filter_distributes_over_add(
            walk_list(r.attributes@),
            walk_cells(r.cells@),
            template_pred(),
        );
        assert(walk_row(r) == walk_list(r.attributes@) + walk_cells(r.cells@));
        assert(templates_in_row(r) == templates_in_list(r.attributes@) + templates_in_cells(
            r.cells@,
        ));
        Seq::filter_distributes_over_add(
            walk_rows(rows.drop_last()),
            walk_row(r),
            template_pred(),
        );
        assert(walk_rows(rows) == walk_rows(rows.drop_last()) + walk_row(r));
        assert(templates_in_rows(rows) == templates_in_rows(rows.drop_last()) + templates_in_row(
            r,
        ));
    }
}

/// Walker completeness over table cells.
pub proof fn lemma_walk_cells_complete(cells: Seq<TableCell>)
    ensures
        walk_cells(cells).filter(template_pred()) == templates_in_cells(cells),
    decreases cells,
{
    if cells.len() == 0 {
        lemma_filter_empty();
    } else {
        lemma_walk_cells_complete(cells.drop_last());
        let c = cells.last();
        match c.attributes {
            Some(a) => {
                lemma_walk_list_complete(a@);
            },
            None => {
                lemma_filter_empty();
            },
        }
        lemma_walk_list_complete(c.content@);
        let a_events = match c.attributes {
            Some(a) => walk_list(a@),
            None => Seq::empty(),
        };
        let a_templates = match c.attributes {
            Some(a) => templates_in_list(a@),
            None => Seq::empty(),
        };
        Seq::filter_distributes_over_add(a_events, walk_list(c.content@), template_pred());
        assert(walk_cell(c) == a_events + walk_list(c.content@));
        assert(templates_in_cell(c) == a_templates + templates_in_list(c.content@));
        assert(a_events.filter(template_pred()) == a_templates);
        Seq::filter_distributes_over_add(
            walk_cells(cells.drop_last()),
            walk_cell(c),
            template_pred(),
        );
        assert(walk_cells(cells) == walk_cells(cells.drop_last()) + walk_cell(c));
        assert(templates_in_cells(cells) == templates_in_cells(cells.drop_last())
            + templates_in_cell(c));
    }
}

/// Walker completeness over template parameters.
pub proof fn lemma_walk_params_complete(params: Seq<Parameter>)
    ensures
        walk_params(params).filter(template_pred()) == templates_in_params(params),
    decreases params,
{
    if params.len() == 0 {
        lemma_filter_empty();
    } else {
        lemma_walk_params_complete(params.drop_last());
        let p = params.last();
        match p.name {
            Some(nm) => {
                lemma_walk_list_complete(nm@);
            },
            None => {
                lemma_filter_empty();
            },
        }
        lemma_walk_list_complete(p.value@);
        let n_events = match p.name {
            Some(nm) => walk_list(nm@),
            None => Seq::empty(),
        };
        let n_templates = match p.name {
            Some(nm) => templates_in_list(nm@),
            None => Seq::empty(),
        };
        Seq::filter_distributes_over_add(n_events, walk_list(p.value@), template_pred());
        assert(walk_param(p) == n_events + walk_list(p.value@));
        assert(templates_in_param(p) == n_templates + templates_in_list(p.value@));
        assert(n_events.filter(template_pred()) == n_templates);
        Seq::filter_distributes_over_add(
            walk_params(params.drop_last()),
            walk_param(p),
            template_pred(),
        );
        assert(walk_params(params) == walk_params(params.drop_last()) + walk_param(p));
        assert(templates_in_params(params) == templates_in_params(params.drop_last())
            + templates_in_param(p));
    }
}

/// A span that lies within a page text of `len` bytes.
pub open spec fn span_wf(sp: Span, len: int) -> bool {
    sp.start <= sp.end <= len
}

/// An optional span that lies within the page text when present.
pub open spec fn opt_span_wf(sp: Option<Span>, len: int) -> bool {
    match sp {
        Some(s) => span_wf(s, len),
        None => true,
    }
}

/// Every span an event carries lies within the page text.
pub open spec fn event_wf(e: EventV, len: int) -> bool {
    match e {
        EventV::Heading { level, text } => 1 <= level <= 6 && opt_span_wf(text, len),
        EventV::Template { span, name, params } => span_wf(span, len) && opt_span_wf(name, len)
            && forall|i: int|
            0 <= i < params.len() ==> opt_span_wf((#[trigger] params[i]).name, len) && opt_span_wf(
                params[i].value,
                len,
            ),
        EventV::Comment { span } => span_wf(span, len),
    }
}

/// Every span any event carries lies within the page text.
pub open spec fn events_wf(s: Seq<EventV>, len: int) -> bool {
    forall|i: int| 0 <= i < s.len() ==> event_wf(#[trigger] s[i], len)
}

/// Concatenating event runs with in-bounds spans keeps every span in
/// bounds.
pub proof fn lemma_events_wf_concat(a: Seq<EventV>, b: Seq<EventV>, len: int)
    requires
        events_wf(a, len),
        events_wf(b, len),
    ensures
        events_wf(a + b, len),
{
    assert forall|i: int| 0 <= i < (a + b).len() implies event_wf(#[trigger] (a + b)[i], len) by {
        if i < a.len() {
            assert((a + b)[i] == a[i]);
        } else {
            assert((a + b)[i] == b[i - a.len()]);
        }
    }
}

/// A well-formed node list reports only events whose spans lie within the
/// page text.
pub proof fn lemma_walk_list_events_wf(nodes: Seq<Node>, len: int)
    requires
        crate::nodes::wf_list(nodes, len),
    ensures
        events_wf(walk_list(nodes), len),
    decreases nodes,
{
    if nodes.len() > 0 {
        crate::nodes::lemma_wf_list_alt(nodes, len);
        crate::nodes::lemma_wf_list_alt(nodes.drop_last(), len);
        assert(forall|i: int|
            0 <= i < nodes.len() - 1 ==> #[trigger] nodes.drop_last()[i] == nodes[i]);
        assert(crate::nodes::wf_list(nodes.drop_last(), len));
        lemma_walk_list_events_wf(nodes.drop_last(), len);
        lemma_walk_node_events_wf(nodes.last(), len);
        lemma_events_wf_concat(walk_list(nodes.drop_last()), walk_node(nodes.last()), len);
    }
}

/// The span of a well-formed node list is in bounds.
proof fn lemma_list_span_wf(nodes: Seq<Node>, len: int)
    requires
        crate::nodes::wf_list(nodes, len),
        len >= 0,
    ensures
        opt_span_wf(spec_list_span(nodes), len),
        span_wf(spec_span_or_zero(nodes), len),
{
    if nodes.len() > 0 {
        crate::nodes::lemma_wf_list_span(nodes, len);
    }
}

/// A well-formed node reports only events whose spans lie within the page
/// text.
pub proof fn lemma_walk_node_events_wf(n: Node, len: int)
    requires
        crate::nodes::wf_node(n, len),
    ensures
        events_wf(walk_node(n), len),
    decreases n,
{
    match n.kind {
        NodeKind::DefinitionList { items } => {
            lemma_walk_items_events_wf(items@, len);
        },
        NodeKind::OrderedList { items } => {
            lemma_walk_items_events_wf(items@, len);
        },
        NodeKind::UnorderedList { items } => {
            lemma_walk_items_events_wf(items@, len);
        },
        NodeKind::Heading { level, nodes } => {
            lemma_list_span_wf(nodes@, len);
            let ev = EventV::Heading { level, text: spec_list_span(nodes@) };
            assert(events_wf(seq![ev], len)) by {
                assert(seq![ev][0] == ev);
            }
            lemma_walk_list_events_wf(nodes@, len);
            lemma_events_wf_concat(seq![ev], walk_list(nodes@), len);
        },
        NodeKind::Preformatted { nodes } => {
            lemma_walk_list_events_wf(nodes@, len);
        },
        NodeKind::Tag { nodes } => {
            lemma_walk_list_events_wf(nodes@, len);
        },
        NodeKind::Image { text } => {
            lemma_walk_list_events_wf(text@, len);
        },
        NodeKind::Link { text } => {
            lemma_walk_list_events_wf(text@, len);
        },
        NodeKind::Parameter { name, default } => {
            let d_events = match default {
                Some(d) => walk_list(d@),
                None => Seq::empty(),
            };
            match default {
                Some(d) => {
                    lemma_walk_list_events_wf(d@, len);
                },
                None => {},
            }
            lemma_walk_list_events_wf(name@, len);
            lemma_events_wf_concat(d_events, walk_list(name@), len);
        },
        NodeKind::Table { attributes, captions, rows } => {
            lemma_walk_list_events_wf(attributes@, len);
            lemma_walk_captions_events_wf(captions@, len);
            lemma_walk_rows_events_wf(rows@, len);
            lemma_events_wf_concat(walk_list(attributes@), walk_captions(captions@), len);
            lemma_events_wf_concat(
                walk_list(attributes@) + walk_captions(captions@),
                walk_rows(rows@),
                len,
            );
        },
        NodeKind::Template { name, parameters } => {
            lemma_walk_list_events_wf(name@, len);
            lemma_walk_params_events_wf(parameters@, len);
            lemma_list_span_wf(name@, len);
            crate::nodes::lemma_wf_params_alt(parameters@, len);
            let ev = spec_template_event(n, name@, parameters@);
            assert(event_wf(ev, len)) by {
                assert forall|j: int|
                    0 <= j < spec_param_spans(parameters@).len() implies opt_span_wf(
                    (#[trigger] spec_param_spans(parameters@)[j]).name,
                    len,
                ) && opt_span_wf(spec_param_spans(parameters@)[j].value, len) by {
                    assert(crate::nodes::wf_param(parameters@[j], len));
                    match parameters@[j].name {
                        Some(nm) => {
                            lemma_list_span_wf(nm@, len);
                        },
                        None => {},
                    }
                    lemma_list_span_wf(parameters@[j].value@, len);
                }
            }
            assert(events_wf(seq![ev], len)) by {
                assert(seq![ev][0] == ev);
            }
            lemma_events_wf_concat(walk_list(name@), walk_params(parameters@), len);
            lemma_events_wf_concat(
                walk_list(name@) + walk_params(parameters@),
                seq![ev],
                len,
            );
        },
        NodeKind::Comment => {
            let ev = EventV::Comment { span: Span { start: n.start, end: n.end } };
            assert(events_wf(seq![ev], len)) by {
                assert(seq![ev][0] == ev);
            }
        },
        _ => {},
    }
}

/// Well-formed list items report only in-bounds events.
pub proof fn lemma_walk_items_events_wf(items: Seq<ListItem>, len: int)
    requires
        crate::nodes::wf_items(items, len),
    ensures
        events_wf(walk_items(items), len),
    decreases items,
{
    if items.len() > 0 {
        crate::nodes::lemma_wf_items_alt(items, len);
        crate::nodes::lemma_wf_items_alt(items.drop_last(), len);
        assert(forall|i: int|
            0 <= i < items.len() - 1 ==> #[trigger] items.drop_last()[i] == items[i]);
        assert(crate::nodes::wf_items(items.drop_last(), len));
        lemma_walk_items_events_wf(items.drop_last(), len);
        lemma_walk_list_events_wf(items.last().nodes@, len);
        lemma_events_wf_concat(walk_items(items.drop_last()), walk_list(items.last().nodes@), len);
    }
}

/// Well-formed captions report only in-bounds events.
pub proof fn lemma_walk_captions_events_wf(captions: Seq<TableCaption>, len: int)
    requires
        crate::nodes::wf_captions(captions, len),
    ensures
        events_wf(walk_captions(captions), len),
    decreases captions,
{
    if captions.len() > 0 {
        crate::nodes::lemma_wf_captions_alt(captions, len);
        crate::nodes::lemma_wf_captions_alt(captions.drop_last(), len);
        assert(forall|i: int|
            0 <= i < captions.len() - 1 ==> #[trigger] captions.drop_last()[i] == captions[i]);
        assert(crate::nodes::wf_captions(captions.drop_last(), len));
        lemma_walk_captions_events_wf(captions.drop_last(), len);
        let c = captions.last();
        let a_events = match c.attributes {
            Some(a) => walk_list(a@),
            None => Seq::empty(),
        };
        match c.attributes {
            Some(a) => {
                lemma_walk_list_events_wf(a@, len);
            },
            None => {},
        }
        lemma_walk_list_events_wf(c.content@, len);
        lemma_events_wf_concat(a_events, walk_list(c.content@), len);
        lemma_events_wf_concat(walk_captions(captions.drop_last()), walk_caption(c), len);
    }
}

/// Well-formed rows report only in-bounds events.
pub proof fn lemma_walk_rows_events_wf(rows: Seq<TableRow>, len: int)
    requires
        crate::nodes::wf_rows(rows, len),
    ensures
        events_wf(walk_rows(rows), len),
    decreases rows,
{
    if rows.len() > 0 {
        crate::nodes::lemma_wf_rows_alt(rows, len);
        crate::nodes::lemma_wf_rows_alt(rows.drop_last(), len);
        assert(forall|i: int|
            0 <= i < rows.len() - 1 ==> #[trigger] rows.drop_last()[i] == rows[i]);
        assert(crate::nodes::wf_rows(rows.drop_last(), len));
        lemma_walk_rows_events_wf(rows.drop_last(), len);
        let r = rows.last();
        lemma_walk_list_events_wf(r.attributes@, len);
        lemma_walk_cells_events_wf(r.cells@, len);
        lemma_events_wf_concat(walk_list(r.attributes@), walk_cells(r.cells@), len);
        lemma_events_wf_concat(walk_rows(rows.drop_last()), walk_row(r), len);
    }
}

/// Well-formed cells report only in-bounds events.
pub proof fn lemma_walk_cells_events_wf(cells: Seq<TableCell>, len: int)
    requires
        crate::nodes::wf_cells(cells, len),
    ensures
        events_wf(walk_cells(cells), len),
    decreases cells,
{
    if cells.len() > 0 {
        crate::nodes::lemma_wf_cells_alt(cells, len);
        crate::nodes::lemma_wf_cells_alt(cells.drop_last(), len);
        assert(forall|i: int|
            0 <= i < cells.len() - 1 ==> #[trigger] cells.drop_last()[i] == cells[i]);
        assert(crate::nodes::wf_cells(cells.drop_last(), len));
        lemma_walk_cells_events_wf(cells.drop_last(), len);
        let c = cells.last();
        let a_events = match c.attributes {
            Some(a) => walk_list(a@),
            None => Seq::empty(),
        };
        match c.attributes {
            Some(a) => {
                lemma_walk_list_events_wf(a@, len);
            },
            None => {},
        }
        lemma_walk_list_events_wf(c.content@, len);
        lemma_events_wf_concat(a_events, walk_list(c.content@), len);
        lemma_events_wf_concat(walk_cells(cells.drop_last()), walk_cell(c), len);
    }
}

/// Well-formed parameters report only in-bounds events.
pub proof fn lemma_walk_params_events_wf(params: Seq<Parameter>, len: int)
    requires
        crate::nodes::wf_params(params, len),
    ensures
        events_wf(walk_params(params), len),
    decreases params,
{
    if params.len() > 0 {
        crate::nodes::lemma_wf_params_alt(params, len);
        crate::nodes::lemma_wf_params_alt(params.drop_last(), len);
        assert(forall|i: int|
            0 <= i < params.len() - 1 ==> #[trigger] params.drop_last()[i] == params[i]);
        assert(crate::nodes::wf_params(params.drop_last(), len));
        lemma_walk_params_events_wf(params.drop_last(), len);
        let p = params.last();
        let n_events = match p.name {
            Some(nm) => walk_list(nm@),
            None => Seq::empty(),
        };
        match p.name {
            Some(nm) => {
                lemma_walk_list_events_wf(nm@, len);
            },
            None => {},
        }
        lemma_walk_list_events_wf(p.value@, len);
        lemma_events_wf_concat(n_events, walk_list(p.value@), len);
        lemma_events_wf_concat(walk_params(params.drop_last()), walk_param(p), len);
    }
}

/// Validates the spans of a template's parameters against the page
/// text's bounds.
pub fn check_param_spans(params: &Vec<ParamSpan>, len: usize) -> (r: bool)
    ensures
        r == (forall|i: int|
            0 <= i < params@.len() ==> opt_span_wf((#[trigger] params@[i]).name, len as int)
                && opt_span_wf(params@[i].value, len as int)),
{
    let mut j: usize = 0;
    while j < params.len()
        invariant
            0 <= j <= params@.len(),
            forall|m: int|
                0 <= m < j ==> opt_span_wf((#[trigger] params@[m]).name, len as int)
                    && opt_span_wf(params@[m].value, len as int),
        decreases params@.len() - j,
    {
        if !check_opt_span(&params[j].name, len) || !check_opt_span(&params[j].value, len) {
            return false;
        }
        j = j + 1;
    }
    true
}

/// Validates that every byte range the walker reported lies within the
/// page text's bounds; an out-of-range span indicates a tree that does not
/// belong to this text.
pub fn check_events(events: &Vec<Event>, len: usize) -> (r: bool)
    ensures
        r == events_wf(events_view(events@), len as int),
{
    let mut i: usize = 0;
    while i < events.len()
        invariant
            0 <= i <= events@.len(),
            forall|j: int| 0 <= j < i ==> event_wf(events_view(events@)[j], len as int),
        decreases events@.len() - i,
    {
        let ok = match &events[i] {
            Event::Heading { level, text } => 1 <= *level && *level <= 6 && check_opt_span(
                text,
                len,
            ),
            Event::Template { span, name, params } => span.start <= span.end && span.end <= len
                && check_opt_span(name, len) && check_param_spans(params, len),
            Event::Comment { span } => span.start <= span.end && span.end <= len,
        };
        proof {
            assert(events_view(events@)[i as int] == events@[i as int]@);
            assert(ok == event_wf(events@[i as int]@, len as int));
        }
        if !ok {
            return false;
        }
        i = i + 1;
    }
    true
}

/// Validates one optional span against the page text's bounds.
pub fn check_opt_span(sp: &Option<Span>, len: usize) -> (r: bool)
    ensures
        r == opt_span_wf(*sp, len as int),
{
    match sp {
        Some(s) => s.start <= s.end && s.end <= len,
        None => true,
    }
}

} // verus!
