//! The template-parameter resolver: positional and by-name lookups over the
//! ordered argument list of one template invocation, with defined
//! precedence — the last parameter in source order whose key matches wins,
//! and named parameters do not consume positional slots.

use vstd::prelude::*;

use crate::nodes::{
    get_nodes_text, lemma_wf_list_span, lemma_wf_params_alt, wf_param, wf_params, Node, NodeKind,
    Parameter,
};
use crate::text::{bytes_eq, parse_u32_digits, spec_all_digits, spec_digits_value};

verus! {

/// The effective key of one template argument: either the name node list of
/// a named argument, or the synthesized 1-based index of a positional one.
pub enum ParameterKey<'a> {
    NodeList(&'a Vec<Node>),
    Number(u32),
}

/// The source text of a parameter-name node list: the slice from the first
/// node's start to the last node's end, empty for an empty list.
pub open spec fn spec_name_text(text: Seq<u8>, nodes: Seq<Node>) -> Seq<u8> {
    if nodes.len() == 0 {
        Seq::empty()
    } else {
        text.subrange(nodes[0].start as int, nodes.last().end as int)
    }
}

/// How many of the first `i` parameters are positional (unnamed).
pub open spec fn count_unnamed(params: Seq<Parameter>, i: int) -> int
    decreases i,
{
    if i <= 0 {
        0
    } else {
        count_unnamed(params, i - 1) + if params[i - 1].name is None {
            1int
        } else {
            0int
        }
    }
}

/// The number a lookup key denotes, when it is all decimal digits.
pub open spec fn spec_key_number(key: Seq<u8>) -> Option<int> {
    if spec_all_digits(key) {
        Some(spec_digits_value(key))
    } else {
        None
    }
}

/// Whether parameter `i` answers to `key`: a named parameter answers to the
/// source text of its name; a positional parameter answers to its 1-based
/// position among the unnamed parameters, when the key is numeric.
pub open spec fn spec_param_matches(
    text: Seq<u8>,
    params: Seq<Parameter>,
    i: int,
    key: Seq<u8>,
) -> bool {
    match params[i].name {
        Some(nm) => spec_name_text(text, nm@) == key,
        None => spec_key_number(key) == Some(count_unnamed(params, i + 1)),
    }
}

/// The index of the last parameter among the first `n` that answers to
/// `key`: later parameters override earlier ones with the same key.
pub open spec fn spec_find_last(
    text: Seq<u8>,
    params: Seq<Parameter>,
    key: Seq<u8>,
    n: int,
) -> Option<int>
    decreases n,
{
    if n <= 0 {
        None
    } else if spec_param_matches(text, params, n - 1, key) {
        Some(n - 1)
    } else {
        spec_find_last(text, params, key, n - 1)
    }
}

/// Parameter precedence: the resolved parameter answers to the key and no
/// later parameter does — a named parameter overrides every earlier
/// parameter with the same effective key, positional or named — and a key
/// resolves to nothing exactly when no parameter answers to it.
pub proof fn lemma_parameter_precedence(text: Seq<u8>, params: Seq<Parameter>, key: Seq<u8>, n: int)
    ensures
        (match spec_find_last(text, params, key, n) {
            Some(i) => 0 <= i < n && spec_param_matches(text, params, i, key) && (forall|j: int|
                i < j < n ==> !spec_param_matches(text, params, j, key)),
            None => forall|j: int| 0 <= j < n ==> !spec_param_matches(text, params, j, key),
        }),
    decreases n,
{
    if n > 0 {
        lemma_parameter_precedence(text, params, key, n - 1);
    }
}

/// Resolves a lookup key against a template's parameter list: walks the
/// list once and returns the last parameter whose key matches, or `None`
/// when no parameter answers to the key.
pub fn get_parameter<'a>(
    wikitext: &[u8],
    parameters: &'a Vec<Parameter>,
    key: &[u8],
) -> (r: Option<&'a Parameter>)
    requires
        wf_params(parameters@, wikitext@.len() as int),
        spec_all_digits(key@) ==> spec_digits_value(key@) <= u32::MAX,
    ensures
        (match spec_find_last(wikitext@, parameters@, key@, parameters@.len() as int) {
            Some(i) => r matches Some(p) && *p == parameters@[i],
            None => r is None,
        }),
{
    let key_num = parse_u32_digits(key);
    let mut found: Option<usize> = None;
    let mut counter: usize = 0;
    let mut i: usize = 0;
    while i < parameters.len()
        invariant
            0 <= i <= parameters@.len(),
            wf_params(parameters@, wikitext@.len() as int),
            counter == count_unnamed(parameters@, i as int),
            counter <= i,
            (match spec_key_number(key@) {
                Some(v) => key_num matches Some(kn) && kn == v,
                None => key_num is None,
            }),
            found matches Some(f) ==> f < i,
            (match spec_find_last(wikitext@, parameters@, key@, i as int) {
                Some(j) => found matches Some(f) && f == j,
                None => found is None,
            }),
        decreases parameters@.len() - i,
    {
        proof {
            lemma_wf_params_alt(parameters@, wikitext@.len() as int);
            assert(wf_param(parameters@[i as int], wikitext@.len() as int));
        }
        let p = &parameters[i];
        let matches_here: bool = match &p.name {
            Some(nm) => {
                proof {
                    if nm@.len() > 0 {
                        lemma_wf_list_span(nm@, wikitext@.len() as int);
                    }
                }
                let t = get_nodes_text(wikitext, nm);
                bytes_eq(t, key)
            },
            None => {
                counter = counter + 1;
                match key_num {
                    Some(kn) => counter == kn as usize,
                    None => false,
                }
            },
        };
        if matches_here {
            found = Some(i);
        }
        i = i + 1;
    }
    match found {
        Some(f) => Some(&parameters[f]),
        None => None,
    }
}

/// The keys of all parameters, in source order, paired with their values:
/// positional parameters get their 1-based position among the unnamed ones,
/// named parameters their name node list.
pub fn enumerate<'a>(parameters: &'a Vec<Parameter>) -> (r: Vec<(ParameterKey<'a>, &'a Vec<Node>)>)
    requires
        parameters@.len() <= u32::MAX,
    ensures
        r@.len() == parameters@.len(),
        forall|i: int|
            0 <= i < parameters@.len() ==> (#[trigger] r@[i]).1 == &parameters@[i].value,
        forall|i: int|
            0 <= i < parameters@.len() ==> (match parameters@[i].name {
                Some(nm) => (#[trigger] r@[i]).0 matches ParameterKey::NodeList(l) && *l == nm,
                None => r@[i].0 matches ParameterKey::Number(k) && k == count_unnamed(
                    parameters@,
                    i + 1,
                ),
            }),
{
    let mut r: Vec<(ParameterKey<'a>, &'a Vec<Node>)> = Vec::new();
    let mut counter: u32 = 0;
    let mut i: usize = 0;
    while i < parameters.len()
        invariant
            0 <= i <= parameters@.len(),
            parameters@.len() <= u32::MAX,
            counter == count_unnamed(parameters@, i as int),
            counter <= i,
            r@.len() == i,
            forall|j: int| 0 <= j < i ==> (#[trigger] r@[j]).1 == &parameters@[j].value,
            forall|j: int|
                0 <= j < i ==> (match parameters@[j].name {
                    Some(nm) => (#[trigger] r@[j]).0 matches ParameterKey::NodeList(l) && *l == nm,
                    None => r@[j].0 matches ParameterKey::Number(k) && k == count_unnamed(
                        parameters@,
                        j + 1,
                    ),
                }),
        decreases parameters@.len() - i,
    {
        let p = &parameters[i];
        match &p.name {
            Some(nm) => {
                r.push((ParameterKey::NodeList(nm), &p.value));
            },
            None => {
                counter = counter + 1;
                r.push((ParameterKey::Number(counter), &p.value));
            },
        }
        i = i + 1;
    }
    r
}

/// Resolves a lookup key against a template node and returns the winning
/// parameter's value node list; a node of any other kind is refused.
pub fn get_parameter_value<'a>(
    wikitext: &[u8],
    template: &'a Node,
    key: &[u8],
) -> (r: Result<Option<&'a Vec<Node>>, &'static str>)
    requires
        (template.kind matches NodeKind::Template { parameters, .. } ==> wf_params(
            parameters@,
            wikitext@.len() as int,
        )),
        spec_all_digits(key@) ==> spec_digits_value(key@) <= u32::MAX,
    ensures
        (match template.kind {
            NodeKind::Template { name: _, parameters } => (match spec_find_last(
                wikitext@,
                parameters@,
                key@,
                parameters@.len() as int,
            ) {
                Some(i) => r matches Ok(Some(v)) && *v == parameters@[i].value,
                None => r matches Ok(o) && o is None,
            }),
            _ => r matches Err(e) && e@ == "not a template"@,
        }),
{
    match &template.kind {
        NodeKind::Template { name: _, parameters } => {
            match get_parameter(wikitext, parameters, key) {
                Some(p) => Ok(Some(&p.value)),
                None => Ok(None),
            }
        },
        _ => Err("not a template"),
    }
}

} // verus!
