//! The document-tree model: one tagged union for every markup construct the
//! pipelines walk, each node carrying a byte span `[start, end)` into the
//! page text so that the text of any node or contiguous node run is a direct
//! slice of the page text, never a rebuilt string.

use vstd::prelude::*;

verus! {

/// One markup construct, positioned in the page text.
pub struct Node {
    /// The byte position in the page text where the element starts.
    pub start: usize,
    /// The byte position in the page text where the element ends.
    pub end: usize,
    /// The construct-specific shape: leaf, container, or structured container.
    pub kind: NodeKind,
}

/// The shape of a node: which nested node lists (if any) it owns. Leaf kinds
/// carry nothing beyond their span; container kinds own the lists the walker
/// recurses into.
pub enum NodeKind {
    Bold,
    BoldItalic,
    Category,
    CharacterEntity,
    Comment,
    DefinitionList { items: Vec<ListItem> },
    EndTag,
    ExternalLink,
    Heading { level: u8, nodes: Vec<Node> },
    HorizontalDivider,
    Image { text: Vec<Node> },
    Italic,
    Link { text: Vec<Node> },
    MagicWord,
    OrderedList { items: Vec<ListItem> },
    ParagraphBreak,
    Parameter { name: Vec<Node>, default: Option<Vec<Node>> },
    Preformatted { nodes: Vec<Node> },
    Redirect,
    StartTag,
    Table { attributes: Vec<Node>, captions: Vec<TableCaption>, rows: Vec<TableRow> },
    Tag { nodes: Vec<Node> },
    Template { name: Vec<Node>, parameters: Vec<Parameter> },
    Text,
    UnorderedList { items: Vec<ListItem> },
}

/// One item of an ordered, unordered or definition list.
pub struct ListItem {
    pub start: usize,
    pub end: usize,
    pub nodes: Vec<Node>,
}

/// A caption of a table.
pub struct TableCaption {
    pub attributes: Option<Vec<Node>>,
    pub content: Vec<Node>,
}

/// A row of a table.
pub struct TableRow {
    pub attributes: Vec<Node>,
    pub cells: Vec<TableCell>,
}

/// A cell of a table row.
pub struct TableCell {
    pub attributes: Option<Vec<Node>>,
    pub content: Vec<Node>,
}

/// A template argument: an optional name (absent for positional arguments)
/// and a value, each a node list.
pub struct Parameter {
    pub start: usize,
    pub end: usize,
    pub name: Option<Vec<Node>>,
    pub value: Vec<Node>,
}

/// Well-formedness of one node against a page text of length `len`: the span
/// is a valid range into the text and every nested list is well-formed.
/// Heading levels run from 1 to 6.
pub open spec fn wf_node(n: Node, len: int) -> bool
    decreases n,
{
    &&& n.start <= n.end <= len
    &&& match n.kind {
        NodeKind::DefinitionList { items } => wf_items(items@, len),
        NodeKind::OrderedList { items } => wf_items(items@, len),
        NodeKind::UnorderedList { items } => wf_items(items@, len),
        NodeKind::Heading { level, nodes } => 1 <= level <= 6 && wf_list(nodes@, len),
        NodeKind::Preformatted { nodes } => wf_list(nodes@, len),
        NodeKind::Tag { nodes } => wf_list(nodes@, len),
        NodeKind::Image { text } => wf_list(text@, len),
        NodeKind::Link { text } => wf_list(text@, len),
        NodeKind::Parameter { name, default } => wf_list(name@, len) && (match default {
            Some(d) => wf_list(d@, len),
            None => true,
        }),
        NodeKind::Table { attributes, captions, rows } => wf_list(attributes@, len) && wf_captions(
            captions@,
            len,
        ) && wf_rows(rows@, len),
        NodeKind::Template { name, parameters } => wf_list(name@, len) && wf_params(
            parameters@,
            len,
        ),
        _ => true,
    }
}

/// Well-formedness of a node list: every node is well-formed and the nodes
/// stand in source order (each ends no later than the next starts), so that
/// the run from the first node's start to the last node's end is a valid
/// slice.
pub open spec fn wf_list(nodes: Seq<Node>, len: int) -> bool
    decreases nodes,
{
    if nodes.len() == 0 {
        true
    } else {
        &&& wf_node(nodes[0], len)
        &&& (nodes.len() > 1 ==> nodes[0].end <= nodes[1].start)
        &&& wf_list(nodes.drop_first(), len)
    }
}

/// Well-formedness of a list-item list: spans valid and in source order,
/// nested node lists well-formed.
pub open spec fn wf_items(items: Seq<ListItem>, len: int) -> bool
    decreases items,
{
    if items.len() == 0 {
        true
    } else {
        &&& items[0].start <= items[0].end <= len
        &&& wf_list(items[0].nodes@, len)
        &&& (items.len() > 1 ==> items[0].end <= items[1].start)
        &&& wf_items(items.drop_first(), len)
    }
}

/// Well-formedness of a table's captions.
pub open spec fn wf_captions(captions: Seq<TableCaption>, len: int) -> bool
    decreases captions,
{
    if captions.len() == 0 {
        true
    } else {
        &&& (match captions[0].attributes {
            Some(a) => wf_list(a@, len),
            None => true,
        })
        &&& wf_list(captions[0].content@, len)
        &&& wf_captions(captions.drop_first(), len)
    }
}

/// Well-formedness of a table's rows.
pub open spec fn wf_rows(rows: Seq<TableRow>, len: int) -> bool
    decreases rows,
{
    if rows.len() == 0 {
        true
    } else {
        &&& wf_list(rows[0].attributes@, len)
        &&& wf_cells(rows[0].cells@, len)
        &&& wf_rows(rows.drop_first(), len)
    }
}

/// Well-formedness of a row's cells.
pub open spec fn wf_cells(cells: Seq<TableCell>, len: int) -> bool
    decreases cells,
{
    if cells.len() == 0 {
        true
    } else {
        &&& (match cells[0].attributes {
            Some(a) => wf_list(a@, len),
            None => true,
        })
        &&& wf_list(cells[0].content@, len)
        &&& wf_cells(cells.drop_first(), len)
    }
}

/// Well-formedness of a template's parameter list.
pub open spec fn wf_params(params: Seq<Parameter>, len: int) -> bool
    decreases params,
{
    if params.len() == 0 {
        true
    } else {
        &&& wf_param(params[0], len)
        &&& wf_params(params.drop_first(), len)
    }
}

/// Well-formedness of one template parameter.
pub open spec fn wf_param(p: Parameter, len: int) -> bool
    decreases p,
{
    &&& p.start <= p.end <= len
    &&& match p.name {
        Some(name) => wf_list(name@, len),
        None => true,
    }
    &&& wf_list(p.value@, len)
}

/// A node list is well-formed exactly when each node is and each node ends
/// no later than the next begins.
pub proof fn lemma_wf_list_alt(nodes: Seq<Node>, len: int)
    ensures
        wf_list(nodes, len) <==> ((forall|i: int| 0 <= i < nodes.len() ==> wf_node(
            #[trigger] nodes[i],
            len,
        )) && (forall|i: int| 0 <= i < nodes.len() - 1 ==> (#[trigger] nodes[i]).end <= nodes[i
            + 1].start)),
    decreases nodes,
{
    if nodes.len() > 0 {
        lemma_wf_list_alt(nodes.drop_first(), len);
        assert(forall|i: int|
            0 <= i < nodes.len() - 1 ==> #[trigger] nodes.drop_first()[i] == nodes[i + 1]);
        assert(forall|i: int|
            1 <= i < nodes.len() ==> #[trigger] nodes[i] == nodes.drop_first()[i - 1]);
    }
}

/// An item list is well-formed exactly when each item is and each item ends
/// no later than the next begins.
pub proof fn lemma_wf_items_alt(items: Seq<ListItem>, len: int)
    ensures
        wf_items(items, len) <==> ((forall|i: int|
            0 <= i < items.len() ==> ((#[trigger] items[i]).start <= items[i].end <= len
                && wf_list(items[i].nodes@, len))) && (forall|i: int|
            0 <= i < items.len() - 1 ==> (#[trigger] items[i]).end <= items[i + 1].start)),
    decreases items,
{
    if items.len() > 0 {
        lemma_wf_items_alt(items.drop_first(), len);
        assert(forall|i: int|
            0 <= i < items.len() - 1 ==> #[trigger] items.drop_first()[i] == items[i + 1]);
        assert(forall|i: int|
            1 <= i < items.len() ==> #[trigger] items[i] == items.drop_first()[i - 1]);
    }
}

/// A caption list is well-formed exactly when each caption is.
pub proof fn lemma_wf_captions_alt(captions: Seq<TableCaption>, len: int)
    ensures
        wf_captions(captions, len) <==> (forall|i: int|
            0 <= i < captions.len() ==> ((match (#[trigger] captions[i]).attributes {
                Some(a) => wf_list(a@, len),
                None => true,
            }) && wf_list(captions[i].content@, len))),
    decreases captions,
{
    if captions.len() > 0 {
        lemma_wf_captions_alt(captions.drop_first(), len);
        assert(forall|i: int|
            0 <= i < captions.len() - 1 ==> #[trigger] captions.drop_first()[i] == captions[i
                + 1]);
        assert(forall|i: int|
            1 <= i < captions.len() ==> #[trigger] captions[i] == captions.drop_first()[i - 1]);
    }
}

/// A row list is well-formed exactly when each row is.
pub proof fn lemma_wf_rows_alt(rows: Seq<TableRow>, len: int)
    ensures
        wf_rows(rows, len) <==> (forall|i: int|
            0 <= i < rows.len() ==> (wf_list((#[trigger] rows[i]).attributes@, len) && wf_cells(
                rows[i].cells@,
                len,
            ))),
    decreases rows,
{
    if rows.len() > 0 {
        lemma_wf_rows_alt(rows.drop_first(), len);
        assert(forall|i: int|
            0 <= i < rows.len() - 1 ==> #[trigger] rows.drop_first()[i] == rows[i + 1]);
        assert(forall|i: int|
            1 <= i < rows.len() ==> #[trigger] rows[i] == rows.drop_first()[i - 1]);
    }
}

/// A cell list is well-formed exactly when each cell is.
pub proof fn lemma_wf_cells_alt(cells: Seq<TableCell>, len: int)
    ensures
        wf_cells(cells, len) <==> (forall|i: int|
            0 <= i < cells.len() ==> ((match (#[trigger] cells[i]).attributes {
                Some(a) => wf_list(a@, len),
                None => true,
            }) && wf_list(cells[i].content@, len))),
    decreases cells,
{
    if cells.len() > 0 {
        lemma_wf_cells_alt(cells.drop_first(), len);
        assert(forall|i: int|
            0 <= i < cells.len() - 1 ==> #[trigger] cells.drop_first()[i] == cells[i + 1]);
        assert(forall|i: int|
            1 <= i < cells.len() ==> #[trigger] cells[i] == cells.drop_first()[i - 1]);
    }
}

/// A parameter list is well-formed exactly when each parameter is.
pub proof fn lemma_wf_params_alt(params: Seq<Parameter>, len: int)
    ensures
        wf_params(params, len) <==> (forall|i: int|
            0 <= i < params.len() ==> wf_param(#[trigger] params[i], len)),
    decreases params,
{
    if params.len() > 0 {
        lemma_wf_params_alt(params.drop_first(), len);
        assert(forall|i: int|
            0 <= i < params.len() - 1 ==> #[trigger] params.drop_first()[i] == params[i + 1]);
        assert(forall|i: int|
            1 <= i < params.len() ==> #[trigger] params[i] == params.drop_first()[i - 1]);
    }
}

/// In a well-formed nonempty node list the first node starts no later than
/// the last node ends, so the run from the one to the other is a valid
/// slice of the page text.
pub proof fn lemma_wf_list_span(nodes: Seq<Node>, len: int)
    requires
        wf_list(nodes, len),
        nodes.len() > 0,
    ensures
        0 <= nodes[0].start <= nodes.last().end <= len,
    decreases nodes,
{
    assert(wf_node(nodes[0], len));
    assert(nodes[0].start <= nodes[0].end);
    if nodes.len() > 1 {
        assert(nodes.drop_first()[0] == nodes[1]);
        assert(nodes.drop_first().last() == nodes.last());
        assert(wf_list(nodes.drop_first(), len));
        lemma_wf_list_span(nodes.drop_first(), len);
    } else {
        assert(nodes.last() == nodes[0]);
        assert(nodes[0].end <= len);
    }
}

/// Checks whether a node tree is well-formed against a page text of
/// `len` bytes.
pub fn check_nodes(nodes: &Vec<Node>, len: usize) -> (r: bool)
    ensures
        r == wf_list(nodes@, len as int),
    decreases nodes@,
{
    proof {
        lemma_wf_list_alt(nodes@, len as int);
    }
    let mut i: usize = 0;
    while i < nodes.len()
        invariant
            0 <= i <= nodes@.len(),
            forall|j: int| 0 <= j < i ==> wf_node(#[trigger] nodes@[j], len as int),
            forall|j: int|
                0 <= j < i && j < nodes@.len() - 1 ==> (#[trigger] nodes@[j]).end <= nodes@[j
                    + 1].start,
        decreases nodes@.len() - i,
    {
        proof {
            assert(decreases_to!(nodes@ => nodes@[i as int]));
        }
        if !check_node(&nodes[i], len) {
            proof {
                lemma_wf_list_alt(nodes@, len as int);
            }
            return false;
        }
        if i + 1 < nodes.len() {
            if nodes[i].end > nodes[i + 1].start {
                proof {
                    lemma_wf_list_alt(nodes@, len as int);
                }
                return false;
            }
        }
        i = i + 1;
    }
    proof {
        lemma_wf_list_alt(nodes@, len as int);
    }
    true
}

/// Checks whether an item list is well-formed.
pub fn check_items(items: &Vec<ListItem>, len: usize) -> (r: bool)
    ensures
        r == wf_items(items@, len as int),
    decreases items@,
{
    proof {
        lemma_wf_items_alt(items@, len as int);
    }
    let mut i: usize = 0;
    while i < items.len()
        invariant
            0 <= i <= items@.len(),
            forall|j: int|
                0 <= j < i ==> ((#[trigger] items@[j]).start <= items@[j].end <= len && wf_list(
                    items@[j].nodes@,
                    len as int,
                )),
            forall|j: int|
                0 <= j < i && j < items@.len() - 1 ==> (#[trigger] items@[j]).end <= items@[j
                    + 1].start,
        decreases items@.len() - i,
    {
        proof {
            assert(decreases_to!(items@ => items@[i as int]));
            assert(decreases_to!(items@[i as int] => items@[i as int].nodes));
            assert(decreases_to!(items@[i as int].nodes => items@[i as int].nodes@));
        }
        let it = &items[i];
        if it.start > it.end || it.end > len || !check_nodes(&it.nodes, len) {
            proof {
                lemma_wf_items_alt(items@, len as int);
            }
            return false;
        }
        if i + 1 < items.len() {
            if items[i].end > items[i + 1].start {
                proof {
                    lemma_wf_items_alt(items@, len as int);
                }
                return false;
            }
        }
        i = i + 1;
    }
    proof {
        lemma_wf_items_alt(items@, len as int);
    }
    true
}

/// Checks whether a caption list is well-formed.
pub fn check_captions(captions: &Vec<TableCaption>, len: usize) -> (r: bool)
    ensures
        r == wf_captions(captions@, len as int),
    decreases captions@,
{
    proof {
        lemma_wf_captions_alt(captions@, len as int);
    }
    let mut i: usize = 0;
    while i < captions.len()
        invariant
            0 <= i <= captions@.len(),
            forall|j: int|
                0 <= j < i ==> ((match (#[trigger] captions@[j]).attributes {
                    Some(a) => wf_list(a@, len as int),
                    None => true,
                }) && wf_list(captions@[j].content@, len as int)),
        decreases captions@.len() - i,
    {
        let ghost ci = captions@[i as int];
        proof {
            assert(decreases_to!(captions@ => ci));
            assert(decreases_to!(ci => ci.content));
            assert(decreases_to!(ci.content => ci.content@));
        }
        let c = &captions[i];
        let attrs_ok = match &c.attributes {
            Some(a) => {
                proof {
                    assert(ci.attributes == Some(*a));
                    assert(decreases_to!(ci => ci.attributes));
                    assert(decreases_to!(ci.attributes => ci.attributes->0));
                    assert(decreases_to!(ci.attributes->0 => a@));
                }
                check_nodes(a, len)
            },
            None => true,
        };
        if !attrs_ok || !check_nodes(&c.content, len) {
            proof {
                lemma_wf_captions_alt(captions@, len as int);
            }
            return false;
        }
        i = i + 1;
    }
    proof {
        lemma_wf_captions_alt(captions@, len as int);
    }
    true
}

/// Checks whether a row list is well-formed.
pub fn check_rows(rows: &Vec<TableRow>, len: usize) -> (r: bool)
    ensures
        r == wf_rows(rows@, len as int),
    decreases rows@,
{
    proof {
        lemma_wf_rows_alt(rows@, len as int);
    }
    let mut i: usize = 0;
    while i < rows.len()
        invariant
            0 <= i <= rows@.len(),
            forall|j: int|
                0 <= j < i ==> (wf_list((#[trigger] rows@[j]).attributes@, len as int) && wf_cells(
                    rows@[j].cells@,
                    len as int,
                )),
        decreases rows@.len() - i,
    {
        let ghost ri = rows@[i as int];
        proof {
            assert(decreases_to!(rows@ => ri));
            assert(decreases_to!(ri => ri.attributes));
            assert(decreases_to!(ri.attributes => ri.attributes@));
            assert(decreases_to!(ri => ri.cells));
            assert(decreases_to!(ri.cells => ri.cells@));
        }
        let r = &rows[i];
        if !check_nodes(&r.attributes, len) || !check_cells(&r.cells, len) {
            proof {
                lemma_wf_rows_alt(rows@, len as int);
            }
            return false;
        }
        i = i + 1;
    }
    proof {
        lemma_wf_rows_alt(rows@, len as int);
    }
    true
}

/// Checks whether a cell list is well-formed.
pub fn check_cells(cells: &Vec<TableCell>, len: usize) -> (r: bool)
    ensures
        r == wf_cells(cells@, len as int),
    decreases cells@,
{
    proof {
        lemma_wf_cells_alt(cells@, len as int);
    }
    let mut i: usize = 0;
    while i < cells.len()
        invariant
            0 <= i <= cells@.len(),
            forall|j: int|
                0 <= j < i ==> ((match (#[trigger] cells@[j]).attributes {
                    Some(a) => wf_list(a@, len as int),
                    None => true,
                }) && wf_list(cells@[j].content@, len as int)),
        decreases cells@.len() - i,
    {
        let ghost ci = cells@[i as int];
        proof {
            assert(decreases_to!(cells@ => ci));
            assert(decreases_to!(ci => ci.content));
            assert(decreases_to!(ci.content => ci.content@));
        }
        let c = &cells[i];
        let attrs_ok = match &c.attributes {
            Some(a) => {
                proof {
                    assert(ci.attributes == Some(*a));
                    assert(decreases_to!(ci => ci.attributes));
                    assert(decreases_to!(ci.attributes => ci.attributes->0));
                    assert(decreases_to!(ci.attributes->0 => a@));
                }
                check_nodes(a, len)
            },
            None => true,
        };
        if !attrs_ok || !check_nodes(&c.content, len) {
            proof {
                lemma_wf_cells_alt(cells@, len as int);
            }
            return false;
        }
        i = i + 1;
    }
    proof {
        lemma_wf_cells_alt(cells@, len as int);
    }
    true
}

/// Checks whether a parameter list is well-formed.
pub fn check_params(params: &Vec<Parameter>, len: usize) -> (r: bool)
    ensures
        r == wf_params(params@, len as int),
    decreases params@,
{
    proof {
        lemma_wf_params_alt(params@, len as int);
    }
    let mut i: usize = 0;
    while i < params.len()
        invariant
            0 <= i <= params@.len(),
            forall|j: int| 0 <= j < i ==> wf_param(#[trigger] params@[j], len as int),
        decreases params@.len() - i,
    {
        let ghost pi = params@[i as int];
        proof {
            assert(decreases_to!(params@ => pi));
            assert(decreases_to!(pi => pi.value));
            assert(decreases_to!(pi.value => pi.value@));
        }
        let p = &params[i];
        if p.start > p.end || p.end > len {
            proof {
                lemma_wf_params_alt(params@, len as int);
            }
            return false;
        }
        let name_ok = match &p.name {
            Some(nm) => {
                proof {
                    assert(pi.name == Some(*nm));
                    assert(decreases_to!(pi => pi.name));
                    assert(decreases_to!(pi.name => pi.name->0));
                    assert(decreases_to!(pi.name->0 => nm@));
                }
                check_nodes(nm, len)
            },
            None => true,
        };
        if !name_ok || !check_nodes(&p.value, len) {
            proof {
                lemma_wf_params_alt(params@, len as int);
            }
            return false;
        }
        i = i + 1;
    }
    proof {
        lemma_wf_params_alt(params@, len as int);
    }
    true
}

/// Checks whether one node is well-formed.
pub fn check_node(n: &Node, len: usize) -> (r: bool)
    ensures
        r == wf_node(*n, len as int),
    decreases *n,
{
    if n.start > n.end || n.end > len {
        return false;
    }
    match &n.kind {
        NodeKind::DefinitionList { items } => {
            proof {
                assert(decreases_to!(*n => n.kind));
                assert(decreases_to!(n.kind => n.kind->DefinitionList_items));
                assert(decreases_to!(n.kind->DefinitionList_items => items@));
            }
            check_items(items, len)
        },
        NodeKind::OrderedList { items } => {
            proof {
                assert(decreases_to!(*n => n.kind));
                assert(decreases_to!(n.kind => n.kind->OrderedList_items));
                assert(decreases_to!(n.kind->OrderedList_items => items@));
            }
            check_items(items, len)
        },
        NodeKind::UnorderedList { items } => {
            proof {
                assert(decreases_to!(*n => n.kind));
                assert(decreases_to!(n.kind => n.kind->UnorderedList_items));
                assert(decreases_to!(n.kind->UnorderedList_items => items@));
            }
            check_items(items, len)
        },
        NodeKind::Heading { level, nodes } => {
            proof {
                assert(decreases_to!(*n => n.kind));
                assert(decreases_to!(n.kind => n.kind->Heading_nodes));
                assert(decreases_to!(n.kind->Heading_nodes => nodes@));
            }
            1 <= *level && *level <= 6 && check_nodes(nodes, len)
        },
        NodeKind::Preformatted { nodes } => {
            proof {
                assert(decreases_to!(*n => n.kind));
                assert(decreases_to!(n.kind => n.kind->Preformatted_nodes));
                assert(decreases_to!(n.kind->Preformatted_nodes => nodes@));
            }
            check_nodes(nodes, len)
        },
        NodeKind::Tag { nodes } => {
            proof {
                assert(decreases_to!(*n => n.kind));
                assert(decreases_to!(n.kind => n.kind->Tag_nodes));
                assert(decreases_to!(n.kind->Tag_nodes => nodes@));
            }
            check_nodes(nodes, len)
        },
        NodeKind::Image { text } => {
            proof {
                assert(decreases_to!(*n => n.kind));
                assert(decreases_to!(n.kind => n.kind->Image_text));
                assert(decreases_to!(n.kind->Image_text => text@));
            }
            check_nodes(text, len)
        },
        NodeKind::Link { text } => {
            proof {
                assert(decreases_to!(*n => n.kind));
                assert(decreases_to!(n.kind => n.kind->Link_text));
                assert(decreases_to!(n.kind->Link_text => text@));
            }
            check_nodes(text, len)
        },
        NodeKind::Parameter { name, default } => {
            let default_ok = match default {
                Some(d) => {
                    proof {
                        assert(n.kind->Parameter_default == Some(*d));
                        assert(decreases_to!(*n => n.kind));
                        assert(decreases_to!(n.kind => n.kind->Parameter_default));
                        assert(decreases_to!(n.kind->Parameter_default => n.kind->Parameter_default->0));
                        assert(decreases_to!(n.kind->Parameter_default->0 => d@));
                    }
                    check_nodes(d, len)
                },
                None => true,
            };
            proof {
                assert(decreases_to!(*n => n.kind));
                assert(decreases_to!(n.kind => n.kind->Parameter_name));
                assert(decreases_to!(n.kind->Parameter_name => name@));
            }
            default_ok && check_nodes(name, len)
        },
        NodeKind::Table { attributes, captions, rows } => {
            proof {
                assert(decreases_to!(*n => n.kind));
                assert(decreases_to!(n.kind => n.kind->Table_attributes));
                assert(decreases_to!(n.kind->Table_attributes => attributes@));
                assert(decreases_to!(n.kind => n.kind->Table_captions));
                assert(decreases_to!(n.kind->Table_captions => captions@));
                assert(decreases_to!(n.kind => n.kind->Table_rows));
                assert(decreases_to!(n.kind->Table_rows => rows@));
            }
            check_nodes(attributes, len) && check_captions(captions, len) && check_rows(rows, len)
        },
        NodeKind::Template { name, parameters } => {
            proof {
                assert(decreases_to!(*n => n.kind));
                assert(decreases_to!(n.kind => n.kind->Template_name));
                assert(decreases_to!(n.kind->Template_name => name@));
                assert(decreases_to!(n.kind => n.kind->Template_parameters));
                assert(decreases_to!(n.kind->Template_parameters => parameters@));
            }
            check_nodes(name, len) && check_params(parameters, len)
        },
        _ => true,
    }
}

/// Anything that carries a byte span into the page text.
pub trait PositionedExt {
    /// The byte position where the element starts.
    spec fn spec_start(&self) -> int;

    /// The byte position where the element ends.
    spec fn spec_end(&self) -> int;

    /// The range of byte positions in the page text where the element
    /// starts and ends.
    fn range(&self) -> (r: (usize, usize))
        ensures
            r.0 == self.spec_start(),
            r.1 == self.spec_end(),
    ;

    /// The page text for the element, by byte range.
    fn get_text_from<'a>(&self, text: &'a [u8]) -> (r: &'a [u8])
        requires
            0 <= self.spec_start() <= self.spec_end() <= text@.len(),
        ensures
            r@ == text@.subrange(self.spec_start(), self.spec_end()),
    ;
}

impl PositionedExt for Node {
    open spec fn spec_start(&self) -> int {
        self.start as int
    }

    open spec fn spec_end(&self) -> int {
        self.end as int
    }

    fn range(&self) -> (r: (usize, usize)) {
        (self.start, self.end)
    }

    fn get_text_from<'a>(&self, text: &'a [u8]) -> (r: &'a [u8]) {
        slice_range(text, self.start, self.end)
    }
}

impl PositionedExt for ListItem {
    open spec fn spec_start(&self) -> int {
        self.start as int
    }

    open spec fn spec_end(&self) -> int {
        self.end as int
    }

    fn range(&self) -> (r: (usize, usize)) {
        (self.start, self.end)
    }

    fn get_text_from<'a>(&self, text: &'a [u8]) -> (r: &'a [u8]) {
        slice_range(text, self.start, self.end)
    }
}

impl PositionedExt for Parameter {
    open spec fn spec_start(&self) -> int {
        self.start as int
    }

    open spec fn spec_end(&self) -> int {
        self.end as int
    }

    fn range(&self) -> (r: (usize, usize)) {
        (self.start, self.end)
    }

    fn get_text_from<'a>(&self, text: &'a [u8]) -> (r: &'a [u8]) {
        slice_range(text, self.start, self.end)
    }
}

/// A node run covers the range from the first element's start to the last
/// element's end; the empty run covers the empty range at position zero.
impl<P: PositionedExt> PositionedExt for Vec<P> {
    open spec fn spec_start(&self) -> int {
        if self@.len() == 0 {
            0
        } else {
            self@[0].spec_start()
        }
    }

    open spec fn spec_end(&self) -> int {
        if self@.len() == 0 {
            0
        } else {
            self@.last().spec_end()
        }
    }

    fn range(&self) -> (r: (usize, usize)) {
        if self.len() == 0 {
            (0, 0)
        } else {
            let (s, _) = self[0].range();
            let (_, e) = self[self.len() - 1].range();
            (s, e)
        }
    }

    fn get_text_from<'a>(&self, text: &'a [u8]) -> (r: &'a [u8]) {
        let (s, e) = self.range();
        slice_range(text, s, e)
    }
}

/// The sub-slice of `text` from `start` to `end`.
pub fn slice_range<'a>(text: &'a [u8], start: usize, end: usize) -> (r: &'a [u8])
    requires
        0 <= start <= end <= text@.len(),
    ensures
        r@ == text@.subrange(start as int, end as int),
{
    &text[start..end]
}

/// The page text covered by a node list: the slice from the first node's
/// start to the last node's end, or the empty slice for an empty list.
pub fn get_nodes_text<'a, P: PositionedExt>(wikitext: &'a [u8], nodes: &Vec<P>) -> (r: &'a [u8])
    requires
        nodes@.len() > 0 ==> 0 <= nodes@[0].spec_start() <= nodes@.last().spec_end()
            <= wikitext@.len(),
    ensures
        nodes@.len() == 0 ==> r@ == Seq::<u8>::empty(),
        nodes@.len() > 0 ==> r@ == wikitext@.subrange(
            nodes@[0].spec_start(),
            nodes@.last().spec_end(),
        ),
{
    if nodes.len() == 0 {
        let r = slice_range(wikitext, 0, 0);
        proof {
            assert(r@ =~= Seq::<u8>::empty());
        }
        r
    } else {
        nodes.get_text_from(wikitext)
    }
}

} // verus!
