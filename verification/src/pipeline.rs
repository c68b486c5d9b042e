//! The page-processing pipeline's decisions: which pages enter, how parser
//! diagnostics are bounds-checked, how parsed templates are collected per
//! page and routed to their sinks, and the small configuration values the
//! pipelines share.

use vstd::prelude::*;
use vstd::string::StrSliceExecFns;

use crate::namespace::{spec_from_id, Namespace};
use crate::nodes::Node;
use crate::records::{
    pairs_map, slice_to_vec_range, spec_decimal, spec_params_map, spec_span_slice, Template,
    u64_to_decimal,
};
use crate::sink::TemplateMap;
use crate::text::bytes_eq;
use crate::title::{normalize_title, spec_normalize_title};
use crate::walker::{
    check_events, event_wf, events_view, events_wf, walk, walk_list, Event, EventV,
};

verus! {

/// The serialization encoding of a run: a binary self-delimiting record
/// stream, or newline-delimited text records.
#[derive(PartialEq, Eq, Structural, Clone, Copy, Debug)]
pub enum SerializationFormat {
    Cbor,
    Json,
}

impl SerializationFormat {
    /// Parses a format name, ASCII-case-insensitively.
    pub fn from_str(s: &str) -> (r: Result<SerializationFormat, &'static str>)
        ensures
            (match r {
                Ok(f) => vstd::utf8::is_ascii_chars(s@) && (f == SerializationFormat::Json
                    <==> crate::namespace::spec_normalize_name(s@) == "json"@) && (f
                    == SerializationFormat::Cbor <==> crate::namespace::spec_normalize_name(s@)
                    == "cbor"@),
                Err(e) => e@ == "unrecognized format"@ && (vstd::utf8::is_ascii_chars(s@)
                    ==> crate::namespace::spec_normalize_name(s@) != "json"@
                    && crate::namespace::spec_normalize_name(s@) != "cbor"@),
            }),
    {
        if !s.is_ascii() {
            return Err("unrecognized format");
        }
        let n = s.unicode_len();
        let mut t: Vec<char> = Vec::new();
        let mut i: usize = 0;
        proof {
            assert(s@.subrange(0, 0) =~= Seq::<char>::empty());
            assert(t@ =~= crate::namespace::spec_normalize_name(s@.subrange(0, 0)));
        }
        while i < n
            invariant
                0 <= i <= n == s@.len(),
                vstd::utf8::is_ascii_chars(s@),
                t@ == crate::namespace::spec_normalize_name(s@.subrange(0, i as int)),
            decreases n - i,
        {
            let c = s.get_char(i);
            proof {
                assert('\0' <= s@[i as int] <= '\u{7f}');
            }
            t.push(crate::namespace::normalize_name_char(c));
            proof {
                assert(crate::namespace::spec_normalize_name(s@.subrange(0, i + 1))
                    =~= crate::namespace::spec_normalize_name(s@.subrange(0, i as int)).push(
                    crate::namespace::spec_normalize_name_char(s@[i as int]),
                ));
            }
            i = i + 1;
        }
        proof {
            assert(s@.subrange(0, s@.len() as int) =~= s@);
            reveal_strlit("json");
            reveal_strlit("cbor");
            assert("json"@[0] == 'j');
            assert("cbor"@[0] == 'c');
        }
        if crate::namespace::chars_eq(&t, "json") {
            Ok(SerializationFormat::Json)
        } else if crate::namespace::chars_eq(&t, "cbor") {
            Ok(SerializationFormat::Cbor)
        } else {
            Err("unrecognized format")
        }
    }

    /// The file extension records of this format are written under by
    /// default.
    pub fn extension(&self) -> (r: &'static str)
        ensures
            *self == SerializationFormat::Cbor ==> r@ == ".cbor"@,
            *self == SerializationFormat::Json ==> r@ == ".jsonl"@,
    {
        match self {
            SerializationFormat::Cbor => ".cbor",
            SerializationFormat::Json => ".jsonl",
        }
    }
}

/// The dump-wide options every pipeline shares: the page-count budget and
/// the namespaces whose pages enter the pipeline.
pub struct DumpOptions {
    pub pages: usize,
    pub namespaces: Vec<Namespace>,
}

/// The configuration of a template-dumping run.
pub struct DumpParsedTemplates {
    pub format: SerializationFormat,
    pub files: Vec<(Vec<u8>, Option<Vec<u8>>)>,
    pub template_normalizations: Option<Vec<(Vec<u8>, Vec<u8>)>>,
    pub include_text: bool,
    pub dump_options: DumpOptions,
}

/// Whether a page enters the pipeline: its namespace identifier must
/// resolve, and resolve to a configured namespace. An identifier outside
/// the known set is an error, not a skip.
pub fn page_admitted(namespace_id: u32, namespaces: &Vec<Namespace>) -> (r: Result<
    bool,
    &'static str,
>)
    ensures
        (match spec_from_id(namespace_id) {
            Some(n) => r == Ok::<_, &'static str>(
                exists|i: int| 0 <= i < namespaces@.len() && namespaces@[i] == n,
            ),
            None => r is Err,
        }),
{
    let ns = match Namespace::try_from(namespace_id) {
        Ok(ns) => ns,
        Err(e) => {
            return Err(e);
        },
    };
    let mut i: usize = 0;
    while i < namespaces.len()
        invariant
            0 <= i <= namespaces@.len(),
            forall|j: int| 0 <= j < i ==> namespaces@[j] != ns,
            spec_from_id(namespace_id) == Some(ns),
        decreases namespaces@.len() - i,
    {
        if namespaces[i] == ns {
            return Ok(true);
        }
        i = i + 1;
    }
    Ok(false)
}

/// One non-fatal parser diagnostic: a byte range and a message.
pub struct Warning {
    pub start: usize,
    pub end: usize,
    pub message: Vec<u8>,
}

/// Whether a diagnostic's byte positions lie within the page text, so its
/// offending slice may be shown; an out-of-range diagnostic indicates a
/// parser mismatch, not a markup problem, and is reported distinctly.
pub fn warning_in_bounds(w: &Warning, text_len: usize) -> (r: bool)
    ensures
        r == (w.start < text_len && w.end < text_len),
{
    w.start < text_len && w.end < text_len
}

/// One template to write: its name, its resolved parameter map, and, when
/// requested, the invocation's source text.
pub struct TemplateToDump {
    pub name: Vec<u8>,
    pub parameters: Vec<(Vec<u8>, Vec<u8>)>,
    pub text: Option<Vec<u8>>,
}

/// The mathematical value of a [`TemplateToDump`].
pub struct TemplateToDumpV {
    pub name: Seq<u8>,
    pub parameters: Map<Seq<u8>, Seq<u8>>,
    pub text: Option<Seq<u8>>,
}

impl View for TemplateToDump {
    type V = TemplateToDumpV;

    open spec fn view(&self) -> TemplateToDumpV {
        TemplateToDumpV {
            name: self.name@,
            parameters: pairs_map(self.parameters@),
            text: match self.text {
                Some(ref t) => Some(t@),
                None => None,
            },
        }
    }
}

/// The per-sink batches of one page, each sink in order of first use.
pub open spec fn groups_view(s: Seq<(usize, Vec<TemplateToDump>)>) -> Seq<(
    int,
    Seq<TemplateToDumpV>,
)> {
    Seq::new(s.len(), |i: int| (s[i].0 as int, s[i].1@.map_values(|t: TemplateToDump| t@)))
}

/// The replacement an alias table holds for a name, if any: the first
/// matching entry wins.
pub open spec fn alias_lookup(aliases: Seq<(Seq<u8>, Seq<u8>)>, k: Seq<u8>) -> Option<Seq<u8>>
    decreases aliases.len(),
{
    if aliases.len() == 0 {
        None
    } else if aliases[0].0 == k {
        Some(aliases[0].1)
    } else {
        alias_lookup(aliases.drop_first(), k)
    }
}

/// The values of an alias table.
pub open spec fn aliases_view(s: Seq<(Vec<u8>, Vec<u8>)>) -> Seq<(Seq<u8>, Seq<u8>)> {
    Seq::new(s.len(), |i: int| (s[i].0@, s[i].1@))
}

/// Appends a record to the batch of one sink, opening the batch at first
/// use.
pub open spec fn groups_append(
    gs: Seq<(int, Seq<TemplateToDumpV>)>,
    id: int,
    rec: TemplateToDumpV,
) -> Seq<(int, Seq<TemplateToDumpV>)> {
    if exists|i: int| 0 <= i < gs.len() && gs[i].0 == id {
        let j = choose|i: int| 0 <= i < gs.len() && gs[i].0 == id;
        gs.update(j, (id, gs[j].1.push(rec)))
    } else {
        gs.push((id, seq![rec]))
    }
}

/// What one template event contributes to the page's batches: nothing when
/// its name does not normalize or no filter entry routes the normalized
/// name to a sink; else one record, named by the alias table (or the
/// normalized name) when one is given and by the raw name text otherwise.
pub open spec fn collect_step(
    text: Seq<u8>,
    fmap: Map<Seq<u8>, usize>,
    aliases: Option<Seq<(Seq<u8>, Seq<u8>)>>,
    include_text: bool,
    gs: Seq<(int, Seq<TemplateToDumpV>)>,
    e: EventV,
) -> Seq<(int, Seq<TemplateToDumpV>)> {
    match e {
        EventV::Template { span, name, params } => {
            let raw = spec_span_slice(text, name);
            match spec_normalize_title(raw) {
                Ok(nm) => if fmap.contains_key(nm) {
                    let final_name = match aliases {
                        Some(al) => match alias_lookup(al, nm) {
                            Some(repl) => repl,
                            None => nm,
                        },
                        None => raw,
                    };
                    let rec = TemplateToDumpV {
                        name: final_name,
                        parameters: spec_params_map(text, params, params.len() as int),
                        text: if include_text {
                            Some(text.subrange(span.start as int, span.end as int))
                        } else {
                            None
                        },
                    };
                    groups_append(gs, fmap[nm] as int, rec)
                } else {
                    gs
                },
                Err(_) => gs,
            }
        },
        _ => gs,
    }
}

/// The fold over the first `n` events.
pub open spec fn collect_fold(
    text: Seq<u8>,
    fmap: Map<Seq<u8>, usize>,
    aliases: Option<Seq<(Seq<u8>, Seq<u8>)>>,
    include_text: bool,
    events: Seq<EventV>,
    n: int,
) -> Seq<(int, Seq<TemplateToDumpV>)>
    decreases n,
{
    if n <= 0 {
        Seq::empty()
    } else {
        collect_step(
            text,
            fmap,
            aliases,
            include_text,
            collect_fold(text, fmap, aliases, include_text, events, n - 1),
            events[n - 1],
        )
    }
}

/// Whether every template event carries few enough parameters to number.
pub open spec fn groups_ids_distinct(gs: Seq<(usize, Vec<TemplateToDump>)>) -> bool {
    forall|i: int, j: int| 0 <= i < j < gs.len() ==> (#[trigger] gs[i]).0 != (#[trigger] gs[j]).0
}

/// Walks one page tree and collects every filtered template into per-sink
/// batches, in traversal order, each sink in order of first use. A tree
/// whose spans do not fit the page text, or a template with too many
/// parameters to number, is refused.
#[verifier::loop_isolation(false)]
pub fn collect_page_templates(
    text: &[u8],
    nodes: &Vec<Node>,
    template_to_file: &TemplateMap,
    normalizations: &Option<Vec<(Vec<u8>, Vec<u8>)>>,
    include_text: bool,
) -> (r: Result<Vec<(usize, Vec<TemplateToDump>)>, &'static str>)
    requires
        template_to_file.inv(),
    ensures
        crate::nodes::wf_list(nodes@, text@.len() as int) && crate::sections::events_bounded(
            walk_list(nodes@),
        ) ==> r is Ok,
        (if events_wf(walk_list(nodes@), text@.len() as int) && crate::sections::events_bounded(
            walk_list(nodes@),
        ) {
            r matches Ok(gs) && groups_view(gs@) == collect_fold(
                text@,
                template_to_file.view_spec(),
                (match *normalizations {
                    Some(ref al) => Some(aliases_view(al@)),
                    None => None,
                }),
                include_text,
                walk_list(nodes@),
                walk_list(nodes@).len() as int,
            )
        } else {
            r is Err
        }),
{
    let events = walk(nodes);
    if !check_events(&events, text.len()) {
        proof {
            if crate::nodes::wf_list(nodes@, text@.len() as int) {
                crate::walker::lemma_walk_list_events_wf(nodes@, text@.len() as int);
            }
        }
        return Err("node span out of range of page text");
    }
    if !crate::sections::check_events_bounded(&events) {
        return Err("too many template parameters");
    }
    let ghost evs = events_view(events@);
    let ghost fmap = template_to_file.view_spec();
    let ghost al = match *normalizations {
        Some(ref a) => Some(aliases_view(a@)),
        None => None,
    };
    let mut gs: Vec<(usize, Vec<TemplateToDump>)> = Vec::new();
    let mut i: usize = 0;
    proof {
        assert(groups_view(gs@) =~= Seq::<(int, Seq<TemplateToDumpV>)>::empty());
    }
    while i < events.len()
        invariant
            0 <= i <= events@.len(),
            groups_view(gs@) == collect_fold(text@, fmap, al, include_text, evs, i as int),
            groups_ids_distinct(gs@),
        decreases events@.len() - i,
    {
        let ghost st = collect_fold(text@, fmap, al, include_text, evs, i as int);
        proof {
            assert(evs[i as int] == events@[i as int]@);
            assert(event_wf(evs[i as int], text@.len() as int));
        }
        match &events[i] {
            Event::Template { span, name, params: _ } => {
                let raw: Vec<u8> = match name {
                    Some(sp) => slice_to_vec_range(text, sp.start, sp.end),
                    None => Vec::new(),
                };
                proof {
                    assert(raw@ == spec_span_slice(text@, evs[i as int]->Template_name));
                }
                match normalize_title(raw.as_slice()) {
                    Ok(nm) => {
                        match template_to_file.get(nm.as_slice()) {
                            Some(id) => {
                                let rec_base = match Template::from_event(text, &events[i]) {
                                    Ok(rec) => rec,
                                    Err(_) => {
                                        proof {
                                            assert(false);
                                        }
                                        return Err("not a template");
                                    },
                                };
                                let final_name: Vec<u8> = match normalizations {
                                    Some(aliases) => {
                                        match alias_get(aliases, nm.as_slice()) {
                                            Some(repl) => repl,
                                            None => nm,
                                        }
                                    },
                                    None => raw,
                                };
                                let rec_text: Option<Vec<u8>> = if include_text {
                                    Some(slice_to_vec_range(text, span.start, span.end))
                                } else {
                                    None
                                };
                                let rec = TemplateToDump {
                                    name: final_name,
                                    parameters: rec_base.parameters,
                                    text: rec_text,
                                };
                                groups_push(&mut gs, id, rec);
                                proof {
                                    assert(groups_view(gs@) == collect_fold(
                                        text@,
                                        fmap,
                                        al,
                                        include_text,
                                        evs,
                                        i + 1,
                                    ));
                                }
                            },
                            None => {},
                        }
                    },
                    Err(_) => {},
                }
            },
            _ => {},
        }
        i = i + 1;
    }
    Ok(gs)
}

/// The first replacement an alias table holds for a name, if any.
#[verifier::loop_isolation(false)]
fn alias_get(aliases: &Vec<(Vec<u8>, Vec<u8>)>, k: &[u8]) -> (r: Option<Vec<u8>>)
    ensures
        (match alias_lookup(aliases_view(aliases@), k@) {
            Some(v) => r matches Some(rv) && rv@ == v,
            None => r is None,
        }),
{
    let ghost av = aliases_view(aliases@);
    let mut i: usize = 0;
    proof {
        assert(av.subrange(0, av.len() as int) =~= av);
    }
    while i < aliases.len()
        invariant
            0 <= i <= aliases@.len(),
            alias_lookup(av, k@) == alias_lookup(av.subrange(i as int, av.len() as int), k@),
        decreases aliases@.len() - i,
    {
        let ghost rest = av.subrange(i as int, av.len() as int);
        proof {
            assert(rest[0] == av[i as int]);
            assert(rest.drop_first() =~= av.subrange(i + 1, av.len() as int));
        }
        if bytes_eq(aliases[i].0.as_slice(), k) {
            return Some(crate::text::copy_bytes(&aliases[i].1));
        }
        i = i + 1;
    }
    None
}

/// Appends a record to the batch of one sink, opening the batch at first
/// use.
#[verifier::loop_isolation(false)]
fn groups_push(gs: &mut Vec<(usize, Vec<TemplateToDump>)>, id: usize, rec: TemplateToDump)
    requires
        groups_ids_distinct(old(gs)@),
    ensures
        groups_ids_distinct(final(gs)@),
        groups_view(final(gs)@) == groups_append(groups_view(old(gs)@), id as int, rec@),
{
    let ghost g0 = groups_view(gs@);
    let mut j: usize = 0;
    while j < gs.len()
        invariant
            gs@ == old(gs)@,
            0 <= j <= gs@.len(),
            forall|m: int| 0 <= m < j ==> (#[trigger] gs@[m]).0 != id,
        decreases gs@.len() - j,
    {
        if gs[j].0 == id {
            proof {
                assert(g0[j as int].0 == id as int);
                let m = choose|m: int| 0 <= m < g0.len() && g0[m].0 == id as int;
                assert(g0[m].0 == id as int);
                if m != j as int {
                    assert(gs@[m].0 == id);
                }
            }
            let mut pair = gs.remove(j);
            pair.1.push(rec);
            gs.insert(j, pair);
            proof {
                assert(gs@ =~= old(gs)@.update(j as int, gs@[j as int]));
                assert(groups_view(gs@) =~~= g0.update(
                    j as int,
                    (id as int, g0[j as int].1.push(rec@)),
                ));
            }
            return ;
        }
        j = j + 1;
    }
    proof {
        assert(forall|m: int| 0 <= m < g0.len() ==> g0[m].0 != id as int);
    }
    let mut batch: Vec<TemplateToDump> = Vec::new();
    batch.push(rec);
    gs.push((id, batch));
    proof {
        assert(groups_view(gs@) =~~= g0.push((id as int, seq![rec@])));
    }
}

/// The library's error taxonomy for what the pipelines themselves decide;
/// failures of outside collaborators are wrapped by the caller.
pub enum Error {
    /// A page's namespace identifier lies outside the known set.
    NamespaceConversionError(u32),
    /// A filter-list template name failed to normalize.
    TemplateNameNormalization {
        title: Vec<u8>,
        cause: crate::title::TitleNormalizationError,
    },
    /// A malformed line in a configuration file.
    FormatError { description: &'static str, line_number: usize, line: Vec<u8> },
}

impl Error {
    /// A short fixed description of the error's kind.
    pub fn description(&self) -> (r: &'static str)
        ensures
            (match self {
                Error::NamespaceConversionError(_) => r@ == "namespace could not be converted"@,
                Error::TemplateNameNormalization { .. } => r@
                    == "failed to normalize template name"@,
                Error::FormatError { .. } => r@ == "malformed line"@,
            }),
    {
        match self {
            Error::NamespaceConversionError(_) => "namespace could not be converted",
            Error::TemplateNameNormalization { .. } => "failed to normalize template name",
            Error::FormatError { .. } => "malformed line",
        }
    }
}

/// Splits one filter-list line at its first tab into a template name and
/// an optional explicit output path.
pub fn split_filter_line(line: &[u8]) -> (r: (Vec<u8>, Option<Vec<u8>>))
    ensures
        (if exists|i: int| 0 <= i < line@.len() && line@[i] == 0x09 {
            {
                let t = choose|i: int|
                    (0 <= i < line@.len() && line@[i] == 0x09 && forall|j: int|
                        0 <= j < i ==> line@[j] != 0x09);
                r.0@ == line@.subrange(0, t) && (r.1 matches Some(p) && p@ == line@.subrange(
                    t + 1,
                    line@.len() as int,
                ))
            }
        } else {
            r.0@ == line@ && r.1 is None
        }),
{
    let mut i: usize = 0;
    while i < line.len()
        invariant
            0 <= i <= line@.len(),
            forall|j: int| 0 <= j < i ==> line@[j] != 0x09,
        decreases line@.len() - i,
    {
        if line[i] == 0x09 {
            let name = slice_to_vec_range(line, 0, i);
            let path = slice_to_vec_range(line, i + 1, line.len());
            proof {
                let t = choose|t: int|
                    (0 <= t < line@.len() && line@[t] == 0x09 && forall|j: int|
                        0 <= j < t ==> line@[j] != 0x09);
                assert(line@[i as int] == 0x09);
                if t != i as int {
                    if t < i as int {
                        assert(line@[t] != 0x09);
                    } else {
                        assert(line@[i as int] != 0x09);
                    }
                }
            }
            return (name, Some(path));
        }
        i = i + 1;
    }
    proof {
        assert(line@.subrange(0, line@.len() as int) =~= line@);
    }
    (slice_to_vec_range(line, 0, line.len()), None)
}

/// The number of leading zero digits.
pub open spec fn spec_leading_zeros(d: Seq<u8>) -> int
    decreases d.len(),
{
    if d.len() == 0 || d[0] != 0x30 {
        0
    } else {
        1 + spec_leading_zeros(d.drop_first())
    }
}

/// Ten to the `k`.
pub open spec fn pow10(k: nat) -> int
    decreases k,
{
    if k == 0 {
        1
    } else {
        10 * pow10((k - 1) as nat)
    }
}

/// A number below ten to the `k` has at most `k` digits.
pub proof fn lemma_decimal_len(n: int, k: nat)
    requires
        0 <= n < pow10(k),
        k >= 1,
    ensures
        spec_decimal(n).len() <= k,
    decreases k,
{
    reveal_with_fuel(pow10, 3);
    if n < 10 {
    } else {
        assert(k >= 2) by {
            reveal_with_fuel(pow10, 3);
            if k == 1 {
                assert(pow10(1) == 10);
            }
        }
        assert(n / 10 < pow10((k - 1) as nat)) by (nonlinear_arith)
            requires
                n < pow10(k),
                pow10(k) == 10 * pow10((k - 1) as nat),
                n >= 10,
        ;
        lemma_decimal_len(n / 10, (k - 1) as nat);
    }
}

/// The printed form of an elapsed time of `secs` seconds and `nanos`
/// nanoseconds: minutes when there are any, then seconds, then a decimal
/// point and three, six or nine fractional digits — sub-second durations
/// keep enough digits to show their leading significant figure.
pub open spec fn spec_print_time(secs: int, nanos: int) -> Seq<u8> {
    let mins = secs / 60;
    let s2 = if mins > 0 {
        secs % 60
    } else {
        secs
    };
    let prefix = if mins > 0 {
        spec_decimal(mins) + seq![0x6du8, 0x20u8]
    } else {
        Seq::empty()
    };
    let dec = Seq::new((9 - spec_decimal(nanos).len()) as nat, |j: int| 0x30u8) + spec_decimal(nanos);
    let zc = spec_leading_zeros(dec);
    let taken = if s2 == 0 && mins == 0 {
        if zc <= 2 {
            dec.take(3)
        } else if zc <= 5 {
            dec.take(6)
        } else {
            dec.take(9)
        }
    } else {
        dec.take(3)
    };
    prefix + spec_decimal(s2) + seq![0x2eu8] + taken + seq![0x73u8]
}

/// Formats an elapsed time, as the pipeline reports its own runtime.
#[verifier::loop_isolation(false)]
pub fn print_time(secs: u64, nanos: u32) -> (r: Vec<u8>)
    requires
        nanos < 1000000000,
    ensures
        r@ == spec_print_time(secs as int, nanos as int),
{
    let mins = secs / 60;
    let s2 = if mins > 0 {
        secs % 60
    } else {
        secs
    };
    let mut out: Vec<u8> = Vec::new();
    if mins > 0 {
        let mut md = u64_to_decimal(mins);
        out.append(&mut md);
        out.push(0x6d);
        out.push(0x20);
    }
    let mut sd = u64_to_decimal(s2);
    out.append(&mut sd);
    out.push(0x2e);
    let ghost head = out@;
    let nd = u64_to_decimal(nanos as u64);
    proof {
        reveal_with_fuel(pow10, 11);
        assert(pow10(9) == 1000000000);
    }
    proof {
        lemma_decimal_len(nanos as int, 9);
    }
    let mut dec: Vec<u8> = Vec::new();
    let mut z: usize = 9 - nd.len();
    let zeros = z;
    while z > 0
        invariant
            0 <= z <= zeros <= 9,
            dec@ =~= Seq::new((zeros - z) as nat, |j: int| 0x30u8),
        decreases z,
    {
        dec.push(0x30);
        z = z - 1;
    }
    let mut nd2 = nd;
    dec.append(&mut nd2);
    proof {
        assert(dec@ =~= Seq::new((9 - spec_decimal(nanos as int).len()) as nat, |j: int| 0x30u8)
            + spec_decimal(nanos as int));
    }
    let mut zc: usize = 0;
    proof {
        assert(dec@.subrange(0, dec@.len() as int) =~= dec@);
    }
    while zc < dec.len() && dec[zc] == 0x30
        invariant
            0 <= zc <= dec@.len(),
            spec_leading_zeros(dec@) == zc + spec_leading_zeros(
                dec@.subrange(zc as int, dec@.len() as int),
            ),
        decreases dec@.len() - zc,
    {
        proof {
            assert(dec@.subrange(zc as int, dec@.len() as int).drop_first() =~= dec@.subrange(
                zc + 1,
                dec@.len() as int,
            ));
        }
        zc = zc + 1;
    }
    proof {
        if zc < dec@.len() {
            assert(spec_leading_zeros(dec@.subrange(zc as int, dec@.len() as int)) == 0);
        } else {
            assert(dec@.subrange(zc as int, dec@.len() as int).len() == 0);
        }
        assert(spec_leading_zeros(dec@) == zc);
    }
    let keep: usize = if s2 == 0 && mins == 0 {
        if zc <= 2 {
            3
        } else if zc <= 5 {
            6
        } else {
            9
        }
    } else {
        3
    };
    let mut t: usize = 0;
    while t < keep
        invariant
            0 <= t <= keep <= 9,
            dec@.len() == 9,
            out@ =~= head + dec@.subrange(0, t as int),
        decreases keep - t,
    {
        out.push(dec[t]);
        t = t + 1;
    }
    out.push(0x73);
    proof {
        assert(out@ =~= spec_print_time(secs as int, nanos as int));
    }
    out
}

} // verus!
