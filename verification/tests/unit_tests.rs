//! Tests on hand-built trees and plain values: the header stack, walker
//! completeness, sink identity, the template dumper, the per-section
//! pipelines, redirects, and the small pipeline utilities.

use wiktionary_data::dumper::TemplateDumper;
use wiktionary_data::header_stack::HeaderStack;
use wiktionary_data::header_stats::{HeaderFilterer, HeaderStats};
use wiktionary_data::nodes::{
    check_nodes, ListItem, Node, NodeKind, Parameter, TableCell, TableRow,
};
use wiktionary_data::pipeline::{
    page_admitted, print_time, split_filter_line, Error, SerializationFormat,
};
use wiktionary_data::title::TitleNormalizationError;
use wiktionary_data::namespace::Namespace;
use wiktionary_data::records::Template;
use wiktionary_data::redirects::{add_template_redirects, trim_template_prefix, RedirectInfo};
use wiktionary_data::namespace::parse_namespace_spec;
use wiktionary_data::sections::comments_and_headers;
use wiktionary_data::sink::SinkPool;
use wiktionary_data::walker::{walk, Event};

fn leaf(start: usize, end: usize, kind: NodeKind) -> Node {
    Node { start, end, kind }
}

fn text_node(start: usize, end: usize) -> Node {
    leaf(start, end, NodeKind::Text)
}

fn template_node(start: usize, end: usize, name: Vec<Node>, parameters: Vec<Parameter>) -> Node {
    Node {
        start,
        end,
        kind: NodeKind::Template { name, parameters },
    }
}

#[test]
fn header_stack_nesting() {
    // Crossing headers at levels 2, 3, 2 leaves level 2 holding the last
    // text and level 3 absent, never a stale deeper entry.
    let mut stack = HeaderStack::new();
    stack.cross(2, b"first".to_vec());
    stack.cross(3, b"deeper".to_vec());
    stack.cross(2, b"second".to_vec());
    assert_eq!(stack.get(2).as_deref(), Some(b"second".as_slice()));
    for level in [1usize, 3, 4, 5, 6] {
        assert!(stack.get(level).is_none(), "level {} should be absent", level);
    }
}

#[test]
fn walker_finds_template_nested_in_table_cell_in_list_item() {
    // text: "*{|\n|-\n|{{t}}\n|}" with the template at bytes 8..13
    let text = b"*{|\n|-\n|{{t}}\n|}";
    let template = template_node(8, 13, vec![text_node(10, 11)], vec![]);
    let table = Node {
        start: 1,
        end: 16,
        kind: NodeKind::Table {
            attributes: vec![],
            captions: vec![],
            rows: vec![TableRow {
                attributes: vec![],
                cells: vec![TableCell {
                    attributes: None,
                    content: vec![template],
                }],
            }],
        },
    };
    let tree = vec![Node {
        start: 0,
        end: 16,
        kind: NodeKind::UnorderedList {
            items: vec![ListItem {
                start: 0,
                end: 16,
                nodes: vec![table],
            }],
        },
    }];
    assert!(check_nodes(&tree, text.len()));
    let events = walk(&tree);
    let templates: Vec<&Event> = events
        .iter()
        .filter(|e| matches!(e, Event::Template { .. }))
        .collect();
    assert_eq!(templates.len(), 1);
    match templates[0] {
        Event::Template { span, .. } => {
            assert_eq!((span.start, span.end), (8, 13));
        }
        _ => unreachable!(),
    }
}

#[test]
fn sink_identity_two_keys_one_path() {
    // Two filter entries route different templates to the same explicit
    // path: exactly one destination exists, and records from both keys
    // land in it without clobbering each other.
    let filter = vec![
        (b"a".to_vec(), Some(b"out.txt".to_vec())),
        (b"b".to_vec(), Some(b"out.txt".to_vec())),
    ];
    let mut dumper = TemplateDumper::new(&filter);
    assert_eq!(dumper.file_count(), 1);
    assert_eq!(dumper.file_key(0), &b"out.txt".to_vec());

    let text = b"{{a}}{{b}}";
    let tree = vec![
        template_node(0, 5, vec![text_node(2, 3)], vec![]),
        template_node(5, 10, vec![text_node(7, 8)], vec![]),
    ];
    assert!(check_nodes(&tree, text.len()));
    let chunks = dumper.process_page(b"Page", text, &tree).unwrap();
    assert_eq!(chunks.len(), 3);
    assert_eq!(chunks[0], (0usize, b"\x01Page".to_vec()));
    assert_eq!(chunks[1], (0usize, b"\n{{a}}".to_vec()));
    assert_eq!(chunks[2], (0usize, b"\n{{b}}".to_vec()));
}

#[test]
fn dumper_prints_title_once_per_file_per_page() {
    let filter = vec![
        (b"a".to_vec(), None),
        (b"b".to_vec(), None),
    ];
    let mut dumper = TemplateDumper::new(&filter);
    assert_eq!(dumper.file_count(), 2);
    assert_eq!(dumper.file_key(0), &b"a.txt".to_vec());
    assert_eq!(dumper.file_key(1), &b"b.txt".to_vec());

    let text = b"{{a}}{{a}}{{b}}";
    let tree = vec![
        template_node(0, 5, vec![text_node(2, 3)], vec![]),
        template_node(5, 10, vec![text_node(7, 8)], vec![]),
        template_node(10, 15, vec![text_node(12, 13)], vec![]),
    ];
    let chunks = dumper.process_page(b"P", text, &tree).unwrap();
    assert_eq!(
        chunks,
        vec![
            (0usize, b"\x01P".to_vec()),
            (0usize, b"\n{{a}}".to_vec()),
            (0usize, b"\n{{a}}".to_vec()),
            (1usize, b"\x01P".to_vec()),
            (1usize, b"\n{{b}}".to_vec()),
        ]
    );
}

#[test]
fn template_record_sorts_parameter_keys() {
    let text = b"{{t|b=2|a=1}}";
    let parameters = vec![
        Parameter {
            start: 4,
            end: 7,
            name: Some(vec![text_node(4, 5)]),
            value: vec![text_node(6, 7)],
        },
        Parameter {
            start: 8,
            end: 11,
            name: Some(vec![text_node(8, 9)]),
            value: vec![text_node(10, 11)],
        },
    ];
    let template = template_node(0, 13, vec![text_node(2, 3)], parameters);
    let record = Template::from_node(text, &template).unwrap();
    assert_eq!(record.name(), &b"t".to_vec());
    assert_eq!(
        record.parameters,
        vec![
            (b"a".to_vec(), b"1".to_vec()),
            (b"b".to_vec(), b"2".to_vec()),
        ]
    );
}

#[test]
fn template_record_numbers_positional_parameters() {
    let text = b"{{t|x|y}}";
    let parameters = vec![
        Parameter {
            start: 4,
            end: 5,
            name: None,
            value: vec![text_node(4, 5)],
        },
        Parameter {
            start: 6,
            end: 7,
            name: None,
            value: vec![text_node(6, 7)],
        },
    ];
    let template = template_node(0, 9, vec![text_node(2, 3)], parameters);
    let record = Template::from_node(text, &template).unwrap();
    assert_eq!(
        record.parameters,
        vec![
            (b"1".to_vec(), b"x".to_vec()),
            (b"2".to_vec(), b"y".to_vec()),
        ]
    );
}

#[test]
fn later_duplicate_parameter_key_wins() {
    let text = b"{{t|a=1|a=2}}";
    let parameters = vec![
        Parameter {
            start: 4,
            end: 7,
            name: Some(vec![text_node(4, 5)]),
            value: vec![text_node(6, 7)],
        },
        Parameter {
            start: 8,
            end: 11,
            name: Some(vec![text_node(8, 9)]),
            value: vec![text_node(10, 11)],
        },
    ];
    let template = template_node(0, 13, vec![text_node(2, 3)], parameters);
    let record = Template::from_node(text, &template).unwrap();
    assert_eq!(record.parameters, vec![(b"a".to_vec(), b"2".to_vec())]);
}

#[test]
fn comments_grouped_by_section() {
    // text: "<!--x-->==A==<!--y-->"
    let text = b"<!--x-->==A==<!--y-->";
    let tree = vec![
        leaf(0, 8, NodeKind::Comment),
        Node {
            start: 8,
            end: 13,
            kind: NodeKind::Heading {
                level: 2,
                nodes: vec![text_node(10, 11)],
            },
        },
        leaf(13, 21, NodeKind::Comment),
    ];
    let batches = comments_and_headers(text, &tree).unwrap();
    assert_eq!(batches.len(), 2);
    assert_eq!(batches[0].comments, vec![b"<!--x-->".to_vec()]);
    assert!(batches[0].headers.iter().all(|h| h.is_none()));
    assert_eq!(batches[1].comments, vec![b"<!--y-->".to_vec()]);
    assert_eq!(batches[1].headers[1].as_deref(), Some(b"A".as_slice()));
}

#[test]
fn header_stats_count_by_text_and_level() {
    let text = b"==Abc==\n==Abc==\n=== Abc\t===";
    let tree = vec![
        Node {
            start: 0,
            end: 7,
            kind: NodeKind::Heading { level: 2, nodes: vec![text_node(2, 5)] },
        },
        Node {
            start: 8,
            end: 15,
            kind: NodeKind::Heading { level: 2, nodes: vec![text_node(10, 13)] },
        },
        Node {
            start: 16,
            end: 27,
            kind: NodeKind::Heading { level: 3, nodes: vec![text_node(19, 24)] },
        },
    ];
    let mut stats = HeaderStats::new();
    stats.process_page(text, &tree).unwrap();
    assert_eq!(stats.header_counts.len(), 1);
    let (key, counts) = &stats.header_counts[0];
    assert_eq!(key, &b"Abc".to_vec());
    assert_eq!(counts.counts, vec![0, 2, 1, 0, 0, 0]);
}

#[test]
fn header_filterer_records_unlisted_headers() {
    let text = b"==Good==\n==Odd==";
    let tree = vec![
        Node {
            start: 0,
            end: 8,
            kind: NodeKind::Heading { level: 2, nodes: vec![text_node(2, 6)] },
        },
        Node {
            start: 9,
            end: 16,
            kind: NodeKind::Heading { level: 2, nodes: vec![text_node(11, 14)] },
        },
    ];
    let mut filterer = HeaderFilterer::new(vec![b"Good".to_vec()], vec![]);
    filterer.process_page(b"Some page", text, &tree).unwrap();
    filterer.process_page(b"Other page", text, &tree).unwrap();
    assert_eq!(filterer.header_to_titles.len(), 1);
    let (key, titles) = &filterer.header_to_titles[0];
    assert_eq!(key, &b"Odd".to_vec());
    assert_eq!(
        titles,
        &vec![b"Some page".to_vec(), b"Other page".to_vec()]
    );
}

#[test]
fn page_admission() {
    assert_eq!(page_admitted(0, &vec![Namespace::Main]), Ok(true));
    assert_eq!(page_admitted(1, &vec![Namespace::Main]), Ok(false));
    assert!(page_admitted(12345, &vec![Namespace::Main]).is_err());
}

#[test]
fn serialization_format_names() {
    assert_eq!(SerializationFormat::from_str("json"), Ok(SerializationFormat::Json));
    assert_eq!(SerializationFormat::from_str("JSON"), Ok(SerializationFormat::Json));
    assert_eq!(SerializationFormat::from_str("cbor"), Ok(SerializationFormat::Cbor));
    assert_eq!(SerializationFormat::from_str("xml"), Err("unrecognized format"));
    assert_eq!(SerializationFormat::Json.extension(), ".jsonl");
    assert_eq!(SerializationFormat::Cbor.extension(), ".cbor");
}

#[test]
fn filter_line_splitting() {
    let (name, path) = split_filter_line(b"term\tout/term.jsonl");
    assert_eq!(name, b"term".to_vec());
    assert_eq!(path, Some(b"out/term.jsonl".to_vec()));
    let (name, path) = split_filter_line(b"term");
    assert_eq!(name, b"term".to_vec());
    assert_eq!(path, None);
}

#[test]
fn elapsed_time_formatting() {
    assert_eq!(print_time(75, 123_456_789), b"1m 15.123s".to_vec());
    assert_eq!(print_time(3, 7_000_000), b"3.007s".to_vec());
    assert_eq!(print_time(0, 1_500_000), b"0.001s".to_vec());
    assert_eq!(print_time(0, 150_000), b"0.000150s".to_vec());
    assert_eq!(print_time(0, 15), b"0.000000015s".to_vec());
    assert_eq!(print_time(0, 0), b"0.000000000s".to_vec());
}

#[test]
fn template_prefix_trimming() {
    assert_eq!(trim_template_prefix(b"Template:foo"), b"foo".to_vec());
    assert_eq!(trim_template_prefix(b"foo"), b"foo".to_vec());
    assert_eq!(trim_template_prefix(b"Templat:foo"), b"Templat:foo".to_vec());
}

#[test]
fn redirects_extend_the_map() {
    let hashmap: Vec<(Vec<u8>, u32)> = vec![(b"t1".to_vec(), 7)];
    let info = RedirectInfo {
        template_to_redirects: vec![(
            b"Template:t1".to_vec(),
            Some(vec![b"Template:r1".to_vec()]),
        )],
        redirects_followed: vec![],
        normalizations: vec![],
    };
    let extended = add_template_redirects(&hashmap, &info).unwrap();
    assert_eq!(
        extended,
        vec![(b"t1".to_vec(), 7), (b"r1".to_vec(), 7)]
    );
}

#[test]
fn redirects_follow_renames() {
    // The queried name is first normalized, then followed through a
    // redirect; the final target's entry wins over later inserts.
    let hashmap: Vec<(Vec<u8>, u32)> = vec![(b"t_1".to_vec(), 3)];
    let info = RedirectInfo {
        template_to_redirects: vec![(b"Template:t 1".to_vec(), None)],
        redirects_followed: vec![(
            b"Template:t 1".to_vec(),
            b"Template:t 1".to_vec(),
        )],
        normalizations: vec![(b"Template:t_1".to_vec(), b"Template:t 1".to_vec())],
    };
    let extended = add_template_redirects(&hashmap, &info).unwrap();
    assert_eq!(extended, vec![(b"t 1".to_vec(), 3)]);
}

#[test]
fn visitor_resolves_inner_templates_first() {
    // {{a|{{b}}}} — the nested template is resolved before the outer one.
    let text = b"{{a|{{b}}}}";
    let inner = template_node(4, 9, vec![text_node(6, 7)], vec![]);
    let outer = template_node(
        0,
        11,
        vec![text_node(2, 3)],
        vec![Parameter {
            start: 4,
            end: 9,
            name: None,
            value: vec![inner],
        }],
    );
    let visitor = wiktionary_data::records::TemplateVisitor::new();
    let records = visitor.visit(text, &vec![outer]).unwrap();
    assert_eq!(records.len(), 2);
    assert_eq!(records[0].name(), &b"b".to_vec());
    assert_eq!(records[1].name(), &b"a".to_vec());
    assert_eq!(
        records[1].parameters,
        vec![(b"1".to_vec(), b"{{b}}".to_vec())]
    );
}

#[test]
fn non_template_nodes_are_refused() {
    let text = b"plain";
    let node = text_node(0, 5);
    match Template::from_node(text, &node) {
        Ok(_) => panic!("a text node must not resolve as a template"),
        Err(e) => assert_eq!(e, "not a template"),
    }
    let r = wiktionary_data::template_parameters::get_parameter_value(text, &node, b"1");
    assert_eq!(r.err(), Some("not a template"));
}

#[test]
fn namespace_specifier_numeric_first() {
    assert_eq!(parse_namespace_spec("0"), Ok(Namespace::Main));
    assert_eq!(parse_namespace_spec("828"), Ok(Namespace::Module));
    assert_eq!(parse_namespace_spec("main"), Ok(Namespace::Main));
    assert_eq!(parse_namespace_spec("Module talk"), Ok(Namespace::ModuleTalk));
    assert!(parse_namespace_spec("1000").is_err());
    assert!(parse_namespace_spec("99999999999999999999").is_err());
}

#[test]
fn sink_pool_deduplicates_keys() {
    let mut pool = SinkPool::new();
    let a = pool.get_or_create(b"x.txt");
    let b = pool.get_or_create(b"y.txt");
    let a2 = pool.get_or_create(b"x.txt");
    assert_eq!(a, a2);
    assert_ne!(a, b);
    assert_eq!(pool.len(), 2);
    assert_eq!(pool.find(b"y.txt"), Some(b));
    assert_eq!(pool.find(b"z.txt"), None);
}

#[test]
fn header_stack_reset_clears_every_level() {
    let mut stack = HeaderStack::new();
    stack.cross(1, b"top".to_vec());
    stack.cross(4, b"deep".to_vec());
    stack.reset();
    for level in 1usize..=6 {
        assert!(stack.get(level).is_none());
    }
}

#[test]
fn error_descriptions() {
    let e = Error::NamespaceConversionError(9999);
    assert_eq!(e.description(), "namespace could not be converted");
    let e = Error::TemplateNameNormalization {
        title: b"x".to_vec(),
        cause: TitleNormalizationError::TooLong,
    };
    assert_eq!(e.description(), "failed to normalize template name");
    let e = Error::FormatError {
        description: "no tab",
        line_number: 3,
        line: b"bad line".to_vec(),
    };
    assert_eq!(e.description(), "malformed line");
}
