//! Tests that run the library against real parser output: wiki text is
//! parsed with the markup parser and its positioned tree is carried over
//! into the library's node model.

use parse_wiki_text::{Configuration, Node as PNode};
use wiktionary_data::header_stack::Header;
use wiktionary_data::namespace::Namespace;
use wiktionary_data::nodes::{
    get_nodes_text, ListItem, Node, NodeKind, Parameter, TableCaption, TableCell, TableRow,
};
use wiktionary_data::pipeline::page_admitted;
use wiktionary_data::sections::{collect_headers, templates_and_headers};
use wiktionary_data::template_parameters::{enumerate, get_parameter, ParameterKey};

fn conv_nodes(ns: &[PNode]) -> Vec<Node> {
    ns.iter().map(conv_node).collect()
}

fn conv_opt_nodes(ns: &Option<Vec<PNode>>) -> Option<Vec<Node>> {
    ns.as_ref().map(|v| conv_nodes(v))
}

fn conv_node(n: &PNode) -> Node {
    match n {
        PNode::Bold { start, end } => leaf(*start, *end, NodeKind::Bold),
        PNode::BoldItalic { start, end } => leaf(*start, *end, NodeKind::BoldItalic),
        PNode::Category { start, end, .. } => leaf(*start, *end, NodeKind::Category),
        PNode::CharacterEntity { start, end, .. } => leaf(*start, *end, NodeKind::CharacterEntity),
        PNode::Comment { start, end } => leaf(*start, *end, NodeKind::Comment),
        PNode::DefinitionList { start, end, items } => Node {
            start: *start,
            end: *end,
            kind: NodeKind::DefinitionList {
                items: items
                    .iter()
                    .map(|it| ListItem {
                        start: it.start,
                        end: it.end,
                        nodes: conv_nodes(&it.nodes),
                    })
                    .collect(),
            },
        },
        PNode::EndTag { start, end, .. } => leaf(*start, *end, NodeKind::EndTag),
        PNode::ExternalLink { start, end, .. } => leaf(*start, *end, NodeKind::ExternalLink),
        PNode::Heading {
            start,
            end,
            level,
            nodes,
        } => Node {
            start: *start,
            end: *end,
            kind: NodeKind::Heading {
                level: *level,
                nodes: conv_nodes(nodes),
            },
        },
        PNode::HorizontalDivider { start, end } => leaf(*start, *end, NodeKind::HorizontalDivider),
        PNode::Image { start, end, text, .. } => Node {
            start: *start,
            end: *end,
            kind: NodeKind::Image { text: conv_nodes(text) },
        },
        PNode::Italic { start, end } => leaf(*start, *end, NodeKind::Italic),
        PNode::Link { start, end, text, .. } => Node {
            start: *start,
            end: *end,
            kind: NodeKind::Link { text: conv_nodes(text) },
        },
        PNode::MagicWord { start, end } => leaf(*start, *end, NodeKind::MagicWord),
        PNode::OrderedList { start, end, items } => Node {
            start: *start,
            end: *end,
            kind: NodeKind::OrderedList {
                items: items
                    .iter()
                    .map(|it| ListItem {
                        start: it.start,
                        end: it.end,
                        nodes: conv_nodes(&it.nodes),
                    })
                    .collect(),
            },
        },
        PNode::ParagraphBreak { start, end } => leaf(*start, *end, NodeKind::ParagraphBreak),
        PNode::Parameter {
            start,
            end,
            name,
            default,
        } => Node {
            start: *start,
            end: *end,
            kind: NodeKind::Parameter {
                name: conv_nodes(name),
                default: conv_opt_nodes(default),
            },
        },
        PNode::Preformatted { start, end, nodes } => Node {
            start: *start,
            end: *end,
            kind: NodeKind::Preformatted { nodes: conv_nodes(nodes) },
        },
        PNode::Redirect { start, end, .. } => leaf(*start, *end, NodeKind::Redirect),
        PNode::StartTag { start, end, .. } => leaf(*start, *end, NodeKind::StartTag),
        PNode::Table {
            start,
            end,
            attributes,
            captions,
            rows,
        } => Node {
            start: *start,
            end: *end,
            kind: NodeKind::Table {
                attributes: conv_nodes(attributes),
                captions: captions
                    .iter()
                    .map(|c| TableCaption {
                        attributes: conv_opt_nodes(&c.attributes),
                        content: conv_nodes(&c.content),
                    })
                    .collect(),
                rows: rows
                    .iter()
                    .map(|r| TableRow {
                        attributes: conv_nodes(&r.attributes),
                        cells: r
                            .cells
                            .iter()
                            .map(|c| TableCell {
                                attributes: conv_opt_nodes(&c.attributes),
                                content: conv_nodes(&c.content),
                            })
                            .collect(),
                    })
                    .collect(),
            },
        },
        PNode::Tag { start, end, nodes, .. } => Node {
            start: *start,
            end: *end,
            kind: NodeKind::Tag { nodes: conv_nodes(nodes) },
        },
        PNode::Template {
            start,
            end,
            name,
            parameters,
        } => Node {
            start: *start,
            end: *end,
            kind: NodeKind::Template {
                name: conv_nodes(name),
                parameters: parameters
                    .iter()
                    .map(|p| Parameter {
                        start: p.start,
                        end: p.end,
                        name: conv_opt_nodes(&p.name),
                        value: conv_nodes(&p.value),
                    })
                    .collect(),
            },
        },
        PNode::Text { start, end, .. } => leaf(*start, *end, NodeKind::Text),
        PNode::UnorderedList { start, end, items } => Node {
            start: *start,
            end: *end,
            kind: NodeKind::UnorderedList {
                items: items
                    .iter()
                    .map(|it| ListItem {
                        start: it.start,
                        end: it.end,
                        nodes: conv_nodes(&it.nodes),
                    })
                    .collect(),
            },
        },
    }
}

fn leaf(start: usize, end: usize, kind: NodeKind) -> Node {
    Node { start, end, kind }
}

#[derive(Debug, Eq, PartialEq)]
enum Key<'a> {
    Integer(u32),
    String(&'a str),
}

fn show_parameter_key_and_value<'a>(
    wikitext: &'a str,
    (key, value): &(ParameterKey<'a>, &'a Vec<Node>),
) -> (Key<'a>, &'a str) {
    (
        match key {
            ParameterKey::NodeList(list) => Key::String(
                std::str::from_utf8(get_nodes_text(wikitext.as_bytes(), list)).unwrap(),
            ),
            ParameterKey::Number(num) => Key::Integer(*num),
        },
        std::str::from_utf8(get_nodes_text(wikitext.as_bytes(), value)).unwrap(),
    )
}

fn parse_template(template_text: &str) -> Vec<Parameter> {
    let output = Configuration::default().parse(template_text);
    assert_eq!(output.warnings.len(), 0);
    assert_eq!(output.nodes.len(), 1);
    let nodes = conv_nodes(&output.nodes);
    match nodes.into_iter().next().unwrap().kind {
        NodeKind::Template { parameters, .. } => parameters,
        _ => panic!("not a template"),
    }
}

#[test]
fn template_parameters_test_enumerate() {
    let template_text = "{{test|one a|two|1=one b|{{test}}=template}}";
    let parameters = parse_template(template_text);
    let keys_and_values = enumerate(&parameters);
    assert_eq!(
        show_parameter_key_and_value(template_text, &keys_and_values[0]),
        (Key::Integer(1), "one a")
    );
    assert_eq!(
        show_parameter_key_and_value(template_text, &keys_and_values[1]),
        (Key::Integer(2), "two")
    );
    assert_eq!(
        show_parameter_key_and_value(template_text, &keys_and_values[2]),
        (Key::String("1"), "one b")
    );
    assert_eq!(
        show_parameter_key_and_value(template_text, &keys_and_values[3]),
        (Key::String("{{test}}"), "template")
    );
}

fn get_parameter_text<'a>(
    wikitext: &'a str,
    parameters: &'a Vec<Parameter>,
    key: &str,
) -> Option<&'a str> {
    match get_parameter(wikitext.as_bytes(), parameters, key.as_bytes()) {
        Some(Parameter { value: v, .. }) => {
            Some(std::str::from_utf8(get_nodes_text(wikitext.as_bytes(), v)).unwrap())
        }
        None => None,
    }
}

#[test]
fn template_parameters_test_get_parameter() {
    let template_text = "{{test|3=three a|one a|two|three b|1=one b|{{test}}=template}}";
    let parameters = parse_template(template_text);

    assert_eq!(get_parameter_text(template_text, &parameters, "1"), Some("one b"));
    assert_eq!(get_parameter_text(template_text, &parameters, "2"), Some("two"));
    assert_eq!(get_parameter_text(template_text, &parameters, "3"), Some("three b"));
    assert_eq!(
        get_parameter_text(template_text, &parameters, "{{test}}"),
        Some("template")
    );
}

fn find_link_text(wikitext: &str) -> Option<String> {
    let parsed = Configuration::default().parse(wikitext);
    let nodes = conv_nodes(&parsed.nodes);
    nodes.iter().find_map(|n| match &n.kind {
        NodeKind::Link { text, .. } => Some(
            String::from_utf8(get_nodes_text(wikitext.as_bytes(), text).to_vec()).unwrap(),
        ),
        _ => None,
    })
}

#[test]
fn lib_nodes() {
    let examples = vec![
        ("[[title|text]]", "text"),
        ("[[title|text {{template}}]]", "text {{template}}"),
        (
            "[[title|text {{template}} other text]]",
            "text {{template}} other text",
        ),
    ];
    for (link, expected_link_text) in examples {
        assert_eq!(find_link_text(link), Some(expected_link_text.to_string()));
    }
}

#[test]
fn lib_test_nodes() {
    let examples = vec![
        ("[[title|text]]", "text"),
        ("[[title|text {{template}}]]", "text {{template}}"),
        (
            "[[title|text {{template}} other text]]",
            "text {{template}} other text",
        ),
    ];
    for (link, expected_link_text) in examples {
        assert_eq!(find_link_text(link), Some(expected_link_text.to_string()));
    }
}

fn find_list_items_text(wikitext: &str) -> Option<String> {
    let parsed = Configuration::default().parse(wikitext);
    let nodes = conv_nodes(&parsed.nodes);
    nodes.iter().find_map(|n| match &n.kind {
        NodeKind::UnorderedList { items, .. } => Some(
            String::from_utf8(get_nodes_text(wikitext.as_bytes(), items).to_vec()).unwrap(),
        ),
        _ => None,
    })
}

#[test]
fn lib_list_items() {
    let wikitext = "==Our values==\n*Correctness\n*Speed\n*Ergonomics";
    assert_eq!(
        find_list_items_text(wikitext),
        Some("Correctness\n*Speed\n*Ergonomics".to_string())
    );
}

#[test]
fn lib_test_list_items() {
    let wikitext = "==Our values==\n*Correctness\n*Speed\n*Ergonomics";
    assert_eq!(
        find_list_items_text(wikitext),
        Some("Correctness\n*Speed\n*Ergonomics".to_string())
    );
}

#[test]
fn end_to_end_two_page_dump() {
    // Two pages: "Foo" in the main namespace carries the template under a
    // level-2 header; "Bar" in the talk namespace carries one as well.
    // Filtering to the main namespace and template "term" must yield
    // exactly one record, attributed to "Foo" under the header
    // "Etymology" at level 2, with every other level absent.
    let pages = vec![
        ("Foo", 0u32, "==Etymology==\n{{term|en|bar}}"),
        ("Bar", 1u32, "{{term|xx|yy}}"),
    ];
    let allowed = vec![Namespace::Main];
    let filter: Vec<Vec<u8>> = vec![b"term".to_vec()];
    let mut extracted: Vec<(String, Vec<Option<Vec<u8>>>, Vec<u8>)> = Vec::new();
    for (title, ns, text) in pages {
        if !page_admitted(ns, &allowed).unwrap() {
            continue;
        }
        let parsed = Configuration::default().parse(text);
        let nodes = conv_nodes(&parsed.nodes);
        let batches = templates_and_headers(text.as_bytes(), &nodes, &filter).unwrap();
        for batch in batches {
            for t in &batch.templates {
                extracted.push((
                    title.to_string(),
                    batch.headers.clone(),
                    t.name.clone(),
                ));
            }
        }
    }
    assert_eq!(extracted.len(), 1);
    let (title, headers, name) = &extracted[0];
    assert_eq!(title, "Foo");
    assert_eq!(name, b"term");
    assert_eq!(headers[1].as_deref(), Some(b"Etymology".as_slice()));
    for level in [0usize, 2, 3, 4, 5] {
        assert!(headers[level].is_none(), "level {} should be absent", level + 1);
    }
}

#[test]
fn headers_in_order() {
    let text = "==A==\n===B===\nbody\n==C==\n";
    let parsed = Configuration::default().parse(text);
    let nodes = conv_nodes(&parsed.nodes);
    let headers: Vec<Header> = collect_headers(text.as_bytes(), &nodes).unwrap();
    let got: Vec<(String, u8)> = headers
        .iter()
        .map(|h| (String::from_utf8(h.text.clone()).unwrap(), h.level))
        .collect();
    assert_eq!(
        got,
        vec![
            ("A".to_string(), 2),
            ("B".to_string(), 3),
            ("C".to_string(), 2)
        ]
    );
}
