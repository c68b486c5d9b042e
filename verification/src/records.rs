//! Extracted template records: a template occurrence resolved into its name
//! text and a parameter map from effective keys to value texts, with
//! later duplicate keys overriding earlier ones and the map kept in
//! ascending key order.

use vstd::prelude::*;

use crate::text::bytes_eq;
use crate::walker::{event_wf, Event, EventV, ParamSpan, Span};

verus! {

/// The decimal digits of a number.
pub open spec fn spec_decimal(n: int) -> Seq<u8>
    decreases n,
{
    if n < 10 {
        seq![(0x30 + if n >= 0 { n } else { 0 }) as u8]
    } else {
        spec_decimal(n / 10).push((0x30 + n % 10) as u8)
    }
}

/// Formats a number as decimal digits, as positional parameter keys are
/// written.
pub fn u32_to_decimal(n: u32) -> (r: Vec<u8>)
    ensures
        r@ == spec_decimal(n as int),
{
    let mut out: Vec<u8> = Vec::new();
    let mut m: u32 = n;
    out.insert(0, 0x30 + (m % 10) as u8);
    proof {
        if m >= 10 {
            assert(spec_decimal(m as int) =~= spec_decimal(m as int / 10) + out@);
        } else {
            assert(spec_decimal(n as int) =~= out@);
        }
    }
    m = m / 10;
    while m > 0
        invariant
            m > 0 ==> spec_decimal(n as int) == spec_decimal(m as int) + out@,
            m == 0 ==> spec_decimal(n as int) == out@,
        decreases m,
    {
        out.insert(0, 0x30 + (m % 10) as u8);
        proof {
            if m >= 10 {
                assert(spec_decimal(m as int) + out@.subrange(1, out@.len() as int)
                    =~= spec_decimal(m as int / 10) + out@);
            } else {
                assert(spec_decimal(m as int) + out@.subrange(1, out@.len() as int) =~= out@);
            }
        }
        m = m / 10;
    }
    out
}

/// Formats a 64-bit number as decimal digits.
pub fn u64_to_decimal(n: u64) -> (r: Vec<u8>)
    ensures
        r@ == spec_decimal(n as int),
{
    let mut out: Vec<u8> = Vec::new();
    let mut m: u64 = n;
    out.insert(0, 0x30 + (m % 10) as u8);
    proof {
        if m >= 10 {
            assert(spec_decimal(m as int) =~= spec_decimal(m as int / 10) + out@);
        } else {
            assert(spec_decimal(n as int) =~= out@);
        }
    }
    m = m / 10;
    while m > 0
        invariant
            m > 0 ==> spec_decimal(n as int) == spec_decimal(m as int) + out@,
            m == 0 ==> spec_decimal(n as int) == out@,
        decreases m,
    {
        out.insert(0, 0x30 + (m % 10) as u8);
        proof {
            if m >= 10 {
                assert(spec_decimal(m as int) + out@.subrange(1, out@.len() as int)
                    =~= spec_decimal(m as int / 10) + out@);
            } else {
                assert(spec_decimal(m as int) + out@.subrange(1, out@.len() as int) =~= out@);
            }
        }
        m = m / 10;
    }
    out
}

/// Byte-string order: shorter-prefix first, then by the first differing
/// byte.
pub open spec fn lex_le(a: Seq<u8>, b: Seq<u8>) -> bool
    decreases a.len(),
{
    if a.len() == 0 {
        true
    } else if b.len() == 0 {
        false
    } else if a[0] < b[0] {
        true
    } else if a[0] > b[0] {
        false
    } else {
        lex_le(a.drop_first(), b.drop_first())
    }
}

/// The order is total.
pub proof fn lemma_lex_total(a: Seq<u8>, b: Seq<u8>)
    ensures
        lex_le(a, b) || lex_le(b, a),
    decreases a.len(),
{
    if a.len() > 0 && b.len() > 0 && a[0] == b[0] {
        lemma_lex_total(a.drop_first(), b.drop_first());
    }
}

/// The order is antisymmetric: mutual order means equality.
pub proof fn lemma_lex_antisym(a: Seq<u8>, b: Seq<u8>)
    requires
        lex_le(a, b),
        lex_le(b, a),
    ensures
        a == b,
    decreases a.len(),
{
    if a.len() == 0 {
        assert(b.len() == 0);
        assert(a =~= b);
    } else {
        assert(b.len() > 0);
        assert(a[0] == b[0]);
        lemma_lex_antisym(a.drop_first(), b.drop_first());
        assert(forall|j: int| 1 <= j < a.len() ==> #[trigger] a[j] == a.drop_first()[j - 1]);
        assert(forall|j: int| 1 <= j < b.len() ==> #[trigger] b[j] == b.drop_first()[j - 1]);
        assert(a =~= b);
    }
}

/// The order is transitive.
pub proof fn lemma_lex_trans(a: Seq<u8>, b: Seq<u8>, c: Seq<u8>)
    requires
        lex_le(a, b),
        lex_le(b, c),
    ensures
        lex_le(a, c),
    decreases a.len(),
{
    if a.len() > 0 && b.len() > 0 && c.len() > 0 && a[0] == b[0] && b[0] == c[0] {
        lemma_lex_trans(a.drop_first(), b.drop_first(), c.drop_first());
    }
}

/// Compares two byte strings in [`lex_le`] order.
pub fn bytes_le(a: &[u8], b: &[u8]) -> (r: bool)
    ensures
        r == lex_le(a@, b@),
{
    let mut i: usize = 0;
    let min = if a.len() < b.len() {
        a.len()
    } else {
        b.len()
    };
    proof {
        assert(a@.subrange(0, a@.len() as int) =~= a@);
        assert(b@.subrange(0, b@.len() as int) =~= b@);
    }
    while i < min
        invariant
            0 <= i <= min,
            min == if a@.len() < b@.len() {
                a@.len()
            } else {
                b@.len()
            },
            lex_le(a@, b@) == lex_le(
                a@.subrange(i as int, a@.len() as int),
                b@.subrange(i as int, b@.len() as int),
            ),
        decreases min - i,
    {
        let ghost ra = a@.subrange(i as int, a@.len() as int);
        let ghost rb = b@.subrange(i as int, b@.len() as int);
        proof {
            assert(ra[0] == a@[i as int]);
            assert(rb[0] == b@[i as int]);
            assert(ra.drop_first() =~= a@.subrange(i + 1, a@.len() as int));
            assert(rb.drop_first() =~= b@.subrange(i + 1, b@.len() as int));
        }
        if a[i] < b[i] {
            return true;
        }
        if a[i] > b[i] {
            return false;
        }
        i = i + 1;
    }
    proof {
        let ra = a@.subrange(i as int, a@.len() as int);
        let rb = b@.subrange(i as int, b@.len() as int);
        if a@.len() <= b@.len() {
            assert(ra.len() == 0);
        } else {
            assert(rb.len() == 0 && ra.len() > 0);
        }
    }
    a.len() <= b.len()
}

/// A parameter map in strictly ascending key order: no duplicate keys.
pub open spec fn pairs_sorted(entries: Seq<(Vec<u8>, Vec<u8>)>) -> bool {
    forall|i: int, j: int|
        0 <= i < j < entries.len() ==> lex_le((#[trigger] entries[i]).0@, (#[trigger] entries[j]).0@)
            && entries[i].0@ != entries[j].0@
}

/// Whether some entry carries this key.
pub open spec fn pairs_has_key(entries: Seq<(Vec<u8>, Vec<u8>)>, k: Seq<u8>) -> bool {
    exists|i: int| 0 <= i < entries.len() && entries[i].0@ == k
}

/// The value of the entry carrying this key.
pub open spec fn pairs_value_of(entries: Seq<(Vec<u8>, Vec<u8>)>, k: Seq<u8>) -> Seq<u8> {
    entries[choose|i: int| 0 <= i < entries.len() && entries[i].0@ == k].1@
}

/// The map an entry list denotes.
pub open spec fn pairs_map(entries: Seq<(Vec<u8>, Vec<u8>)>) -> Map<Seq<u8>, Seq<u8>> {
    Map::new(|k: Seq<u8>| pairs_has_key(entries, k), |k: Seq<u8>| pairs_value_of(entries, k))
}

/// Inserts a key and value into a sorted entry list, keeping order and
/// overriding any entry already carrying the key.
pub fn pairs_insert(entries: &mut Vec<(Vec<u8>, Vec<u8>)>, key: Vec<u8>, value: Vec<u8>)
    requires
        pairs_sorted(old(entries)@),
    ensures
        pairs_sorted(final(entries)@),
        pairs_map(final(entries)@) == pairs_map(old(entries)@).insert(key@, value@),
{
    let mut i: usize = 0;
    while i < entries.len() && !bytes_le(key.as_slice(), entries[i].0.as_slice())
        invariant
            pairs_sorted(entries@),
            entries@ == old(entries)@,
            0 <= i <= entries@.len(),
            forall|j: int| 0 <= j < i ==> !lex_le(key@, (#[trigger] entries@[j]).0@),
        decreases entries@.len() - i,
    {
        i = i + 1;
    }
    proof {
        assert(forall|j: int|
            0 <= j < i ==> lex_le((#[trigger] entries@[j]).0@, key@) && entries@[j].0@ != key@) by {
            assert forall|j: int| 0 <= j < i implies lex_le((#[trigger] entries@[j]).0@, key@)
                && entries@[j].0@ != key@ by {
                lemma_lex_total(key@, entries@[j].0@);
                if entries@[j].0@ == key@ {
                    lemma_lex_refl(key@);
                }
            }
        }
    }
    if i < entries.len() && bytes_eq(entries[i].0.as_slice(), key.as_slice()) {
        let ghost before = entries@;
        entries.set(i, (key, value));
        proof {
            lemma_pairs_set(before, entries@, key@, value@, i as int);
        }
    } else {
        let ghost before = entries@;
        proof {
            if i < entries@.len() {
                assert(lex_le(key@, entries@[i as int].0@));
                assert(entries@[i as int].0@ != key@);
                assert forall|j: int| i <= j < entries@.len() implies lex_le(
                    key@,
                    (#[trigger] entries@[j]).0@,
                ) && entries@[j].0@ != key@ by {
                    if j > i {
                        lemma_lex_trans(key@, entries@[i as int].0@, entries@[j].0@);
                        if entries@[j].0@ == key@ {
                            lemma_lex_antisym(key@, entries@[i as int].0@);
                        }
                    }
                }
            }
        }
        entries.insert(i, (key, value));
        proof {
            lemma_pairs_inserted(before, entries@, key@, value@, i as int);
        }
    }
}

/// The order is reflexive.
pub proof fn lemma_lex_refl(a: Seq<u8>)
    ensures
        lex_le(a, a),
    decreases a.len(),
{
    if a.len() > 0 {
        lemma_lex_refl(a.drop_first());
    }
}

/// Overwriting the entry at the key's own position updates the map at that
/// key alone and keeps the list sorted.
proof fn lemma_pairs_set(
    before: Seq<(Vec<u8>, Vec<u8>)>,
    after: Seq<(Vec<u8>, Vec<u8>)>,
    key: Seq<u8>,
    value: Seq<u8>,
    at: int,
)
    requires
        pairs_sorted(before),
        0 <= at < before.len(),
        after.len() == before.len(),
        before[at].0@ == key,
        forall|j: int| 0 <= j < before.len() && j != at ==> #[trigger] after[j] == before[j],
        after[at].0@ == key,
        after[at].1@ == value,
    ensures
        pairs_sorted(after),
        pairs_map(after) == pairs_map(before).insert(key, value),
{
    assert(pairs_sorted(after)) by {
        assert(forall|j: int| 0 <= j < after.len() ==> (#[trigger] after[j]).0@ == before[j].0@);
    }
    assert forall|k: Seq<u8>| #[trigger]
        pairs_has_key(after, k) implies pairs_has_key(before, k) by {
        let i = choose|i: int| 0 <= i < after.len() && after[i].0@ == k;
        assert(before[i].0@ == k);
    }
    assert forall|k: Seq<u8>| #[trigger]
        pairs_has_key(before, k) implies pairs_has_key(after, k) by {
        let i = choose|i: int| 0 <= i < before.len() && before[i].0@ == k;
        assert(after[i].0@ == k);
    }
    assert forall|k: Seq<u8>| #[trigger]
        pairs_has_key(after, k) && k != key implies pairs_value_of(after, k) == pairs_value_of(
        before,
        k,
    ) by {
        let ia = choose|i: int| 0 <= i < after.len() && after[i].0@ == k;
        let ib = choose|i: int| 0 <= i < before.len() && before[i].0@ == k;
        assert(after[ia].0@ == k && before[ib].0@ == k);
        assert(ia != at && ib != at);
        if ia != ib {
            assert(before[ia].0@ == before[ib].0@);
            assert(false);
        }
    }
    assert(pairs_value_of(after, key) == value) by {
        let i = choose|i: int| 0 <= i < after.len() && after[i].0@ == key;
        if i != at {
            assert(before[i].0@ == key && before[at].0@ == key);
            assert(false);
        }
    }
    assert(pairs_has_key(after, key));
    assert(pairs_map(after) =~= pairs_map(before).insert(key, value));
}

/// Inserting a fresh key at its ordered position updates the map at that
/// key alone and keeps the list sorted.
proof fn lemma_pairs_inserted(
    before: Seq<(Vec<u8>, Vec<u8>)>,
    after: Seq<(Vec<u8>, Vec<u8>)>,
    key: Seq<u8>,
    value: Seq<u8>,
    at: int,
)
    requires
        pairs_sorted(before),
        0 <= at <= before.len(),
        after.len() == before.len() + 1,
        forall|j: int| 0 <= j < at ==> #[trigger] after[j] == before[j],
        forall|j: int| at < j < after.len() ==> #[trigger] after[j] == before[j - 1],
        after[at].0@ == key,
        after[at].1@ == value,
        forall|j: int|
            0 <= j < at ==> lex_le((#[trigger] before[j]).0@, key) && before[j].0@ != key,
        forall|j: int|
            at <= j < before.len() ==> lex_le(key, (#[trigger] before[j]).0@) && before[j].0@
                != key,
    ensures
        pairs_sorted(after),
        pairs_map(after) == pairs_map(before).insert(key, value),
{
    assert(pairs_sorted(after)) by {
        assert forall|i: int, j: int| 0 <= i < j < after.len() implies lex_le(
            (#[trigger] after[i]).0@,
            (#[trigger] after[j]).0@,
        ) && after[i].0@ != after[j].0@ by {
            if i == at {
                assert(after[j] == before[j - 1]);
            } else if j == at {
                assert(after[i] == before[i]);
            } else if i < at && j > at {
                assert(after[i] == before[i] && after[j] == before[j - 1]);
                if i == j - 1 {
                    lemma_lex_trans(before[i].0@, key, before[j - 1].0@);
                }
            }
        }
    }
    assert forall|k: Seq<u8>| #[trigger]
        pairs_has_key(after, k) implies (pairs_has_key(before, k) || k == key) by {
        let i = choose|i: int| 0 <= i < after.len() && after[i].0@ == k;
        if i < at {
            assert(before[i].0@ == k);
        } else if i > at {
            assert(before[i - 1].0@ == k);
        }
    }
    assert forall|k: Seq<u8>| #[trigger]
        pairs_has_key(before, k) implies pairs_has_key(after, k) by {
        let i = choose|i: int| 0 <= i < before.len() && before[i].0@ == k;
        if i < at {
            assert(after[i].0@ == k);
        } else {
            assert(after[i + 1].0@ == k);
        }
    }
    assert(pairs_has_key(after, key));
    assert forall|k: Seq<u8>| #[trigger]
        pairs_has_key(after, k) && k != key implies pairs_value_of(after, k) == pairs_value_of(
        before,
        k,
    ) by {
        let ia = choose|i: int| 0 <= i < after.len() && after[i].0@ == k;
        let ib = choose|i: int| 0 <= i < before.len() && before[i].0@ == k;
        assert(after[ia].0@ == k && before[ib].0@ == k);
        assert(ia != at);
        let ja = if ia < at {
            ia
        } else {
            ia - 1
        };
        assert(before[ja].0@ == k);
        if ja != ib {
            assert(before[ja].0@ == before[ib].0@);
            assert(false);
        }
        assert(after[ia].1@ == before[ib].1@);
    }
    assert(pairs_value_of(after, key) == value) by {
        let i = choose|i: int| 0 <= i < after.len() && after[i].0@ == key;
        if i != at {
            let j = if i < at {
                i
            } else {
                i - 1
            };
            assert(before[j].0@ == key);
            assert(false);
        }
    }
    assert(pairs_map(after) =~= pairs_map(before).insert(key, value));
}

/// One extracted template: its raw name text and its resolved parameter
/// map, keys in ascending order.
pub struct Template {
    pub name: Vec<u8>,
    pub parameters: Vec<(Vec<u8>, Vec<u8>)>,
}

/// The mathematical value of a [`Template`].
pub struct TemplateV {
    pub name: Seq<u8>,
    pub parameters: Seq<(Seq<u8>, Seq<u8>)>,
}

impl View for Template {
    type V = TemplateV;

    open spec fn view(&self) -> TemplateV {
        TemplateV {
            name: self.name@,
            parameters: self.parameters@.map_values(|p: (Vec<u8>, Vec<u8>)| (p.0@, p.1@)),
        }
    }
}

/// The text a span selects.
pub open spec fn spec_span_slice(text: Seq<u8>, sp: Option<Span>) -> Seq<u8> {
    match sp {
        Some(s) => text.subrange(s.start as int, s.end as int),
        None => Seq::empty(),
    }
}

/// The key and value pair one parameter span resolves to, given how many
/// unnamed parameters preceded it.
pub open spec fn spec_pair_of_span(text: Seq<u8>, p: ParamSpan, position: int) -> (Seq<u8>, Seq<
    u8,
>) {
    (
        match p.name {
            Some(_) => spec_span_slice(text, p.name),
            None => spec_decimal(position),
        },
        spec_span_slice(text, p.value),
    )
}

/// How many of the first `i` parameter spans are positional.
pub open spec fn spans_count_unnamed(params: Seq<ParamSpan>, i: int) -> int
    decreases i,
{
    if i <= 0 {
        0
    } else {
        spans_count_unnamed(params, i - 1) + if params[i - 1].name is None {
            1int
        } else {
            0int
        }
    }
}

/// The parameter map a template event resolves to: every pair inserted in
/// source order, so later duplicate keys override earlier ones.
pub open spec fn spec_params_map(text: Seq<u8>, params: Seq<ParamSpan>, n: int) -> Map<
    Seq<u8>,
    Seq<u8>,
>
    decreases n,
{
    if n <= 0 {
        Map::empty()
    } else {
        let pair = spec_pair_of_span(text, params[n - 1], spans_count_unnamed(params, n));
        spec_params_map(text, params, n - 1).insert(pair.0, pair.1)
    }
}

impl Template {
    /// Resolves a template event against the page text: the raw name text
    /// and the parameter map, later duplicate keys overriding earlier ones,
    /// keys in ascending order.
    pub fn from_event(text: &[u8], ev: &Event) -> (r: Result<Template, &'static str>)
        requires
            event_wf(ev@, text@.len() as int),
            (ev@ matches EventV::Template { params, .. } ==> params.len() <= u32::MAX),
        ensures
            (match ev@ {
                EventV::Template { span: _, name, params } => r matches Ok(t) && t@.name
                    == spec_span_slice(text@, name) && pairs_sorted(t.parameters@) && pairs_map(
                    t.parameters@,
                ) == spec_params_map(text@, params, params.len() as int),
                _ => r matches Err(e) && e@ == "not a template"@,
            }),
    {
        match ev {
            Event::Template { span: _, name, params } => {
                let name_text = match name {
                    Some(sp) => slice_to_vec_range(text, sp.start, sp.end),
                    None => Vec::new(),
                };
                proof {
                    assert(name_text@ == spec_span_slice(text@, ev@->Template_name));
                }
                let mut entries: Vec<(Vec<u8>, Vec<u8>)> = Vec::new();
                let mut counter: u32 = 0;
                let mut i: usize = 0;
                proof {
                    assert(pairs_map(entries@) =~= Map::<Seq<u8>, Seq<u8>>::empty());
                }
                while i < params.len()
                    invariant
                        0 <= i <= params@.len(),
                        event_wf(ev@, text@.len() as int),
                        ev@ matches EventV::Template { params: ps, .. } && ps == params@,
                        counter == spans_count_unnamed(params@, i as int),
                        counter <= i,
                        params@.len() <= u32::MAX,
                        pairs_sorted(entries@),
                        pairs_map(entries@) == spec_params_map(text@, params@, i as int),
                    decreases params@.len() - i,
                {
                    let p = &params[i];
                    proof {
                        assert(crate::walker::opt_span_wf(params@[i as int].name, text@.len() as int)
                            && crate::walker::opt_span_wf(
                            params@[i as int].value,
                            text@.len() as int,
                        ));
                    }
                    let key: Vec<u8> = match &p.name {
                        Some(sp) => slice_to_vec_range(text, sp.start, sp.end),
                        None => {
                            counter = counter + 1;
                            u32_to_decimal(counter)
                        },
                    };
                    let value: Vec<u8> = match &p.value {
                        Some(sp) => slice_to_vec_range(text, sp.start, sp.end),
                        None => Vec::new(),
                    };
                    pairs_insert(&mut entries, key, value);
                    i = i + 1;
                }
                Ok(Template { name: name_text, parameters: entries })
            },
            Event::Heading { .. } => Err("not a template"),
            Event::Comment { .. } => Err("not a template"),
        }
    }

    /// The template's name text.
    pub fn name(&self) -> (r: &Vec<u8>)
        ensures
            r@ == self@.name,
    {
        &self.name
    }

    /// Resolves a template's name node list and parameter list against the
    /// page text.
    #[verifier::loop_isolation(false)]
    pub fn new(
        wikitext: &[u8],
        name: &Vec<crate::nodes::Node>,
        parameters: &Vec<crate::nodes::Parameter>,
    ) -> (r: Template)
        requires
            crate::nodes::wf_list(name@, wikitext@.len() as int),
            crate::nodes::wf_params(parameters@, wikitext@.len() as int),
            parameters@.len() <= u32::MAX,
        ensures
            r@.name == spec_span_slice(text_view(wikitext), crate::walker::spec_list_span(name@)),
            pairs_sorted(r.parameters@),
            pairs_map(r.parameters@) == spec_params_map(
                text_view(wikitext),
                crate::walker::spec_param_spans(parameters@),
                parameters@.len() as int,
            ),
    {
        let mut spans: Vec<ParamSpan> = Vec::new();
        let mut i: usize = 0;
        while i < parameters.len()
            invariant
                0 <= i <= parameters@.len(),
                spans@ =~= crate::walker::spec_param_spans(parameters@).subrange(0, i as int),
            decreases parameters@.len() - i,
        {
            proof {
                crate::nodes::lemma_wf_params_alt(parameters@, wikitext@.len() as int);
            }
            let p = &parameters[i];
            let name_span: Option<Span> = match &p.name {
                Some(nm) => Some(
                    match crate::walker::list_span(nm) {
                        Some(sp) => sp,
                        None => Span { start: 0, end: 0 },
                    },
                ),
                None => None,
            };
            spans.push(ParamSpan { name: name_span, value: crate::walker::list_span(&p.value) });
            proof {
                assert(spans@ =~= crate::walker::spec_param_spans(parameters@).subrange(
                    0,
                    i + 1,
                ));
            }
            i = i + 1;
        }
        proof {
            assert(crate::walker::spec_param_spans(parameters@).subrange(
                0,
                parameters@.len() as int,
            ) =~= crate::walker::spec_param_spans(parameters@));
        }
        let span = match crate::walker::list_span(name) {
            Some(sp) => sp,
            None => Span { start: 0, end: 0 },
        };
        let ev = Event::Template { span, name: crate::walker::list_span(name), params: spans };
        proof {
            if name@.len() > 0 {
                crate::nodes::lemma_wf_list_span(name@, wikitext@.len() as int);
            }
            crate::nodes::lemma_wf_params_alt(parameters@, wikitext@.len() as int);
            assert forall|j: int|
                0 <= j < parameters@.len() implies crate::walker::opt_span_wf(
                (#[trigger] crate::walker::spec_param_spans(parameters@)[j]).name,
                wikitext@.len() as int,
            ) && crate::walker::opt_span_wf(
                crate::walker::spec_param_spans(parameters@)[j].value,
                wikitext@.len() as int,
            ) by {
                assert(crate::nodes::wf_param(parameters@[j], wikitext@.len() as int));
                match parameters@[j].name {
                    Some(nm) => {
                        if nm@.len() > 0 {
                            crate::nodes::lemma_wf_list_span(nm@, wikitext@.len() as int);
                        }
                    },
                    None => {},
                }
                if parameters@[j].value@.len() > 0 {
                    crate::nodes::lemma_wf_list_span(
                        parameters@[j].value@,
                        wikitext@.len() as int,
                    );
                }
            }
            assert(crate::walker::event_wf(ev@, wikitext@.len() as int));
        }
        match Template::from_event(wikitext, &ev) {
            Ok(t) => t,
            Err(_) => {
                proof {
                    assert(false);
                }
                Template { name: Vec::new(), parameters: Vec::new() }
            },
        }
    }

    /// Resolves a template node against the page text; a node of any
    /// other kind is refused.
    pub fn from_node(wikitext: &[u8], template: &crate::nodes::Node) -> (r: Result<
        Template,
        &'static str,
    >)
        requires
            crate::nodes::wf_node(*template, wikitext@.len() as int),
            (template.kind matches crate::nodes::NodeKind::Template { parameters, .. }
                ==> parameters@.len() <= u32::MAX),
        ensures
            (match template.kind {
                crate::nodes::NodeKind::Template { name, parameters } => r matches Ok(t)
                    && t@.name == spec_span_slice(
                    text_view(wikitext),
                    crate::walker::spec_list_span(name@),
                ) && pairs_sorted(t.parameters@) && pairs_map(t.parameters@) == spec_params_map(
                    text_view(wikitext),
                    crate::walker::spec_param_spans(parameters@),
                    parameters@.len() as int,
                ),
                _ => r matches Err(e) && e@ == "not a template"@,
            }),
    {
        match &template.kind {
            crate::nodes::NodeKind::Template { name, parameters } => Ok(
                Template::new(wikitext, name, parameters),
            ),
            _ => Err("not a template"),
        }
    }
}

/// The view of a page text.
pub open spec fn text_view(t: &[u8]) -> Seq<u8> {
    t@
}

/// The records of every template event among the first `n`, in traversal
/// order: the raw name text paired with the resolved parameter map.
pub open spec fn templates_of_events(text: Seq<u8>, events: Seq<EventV>, n: int) -> Seq<(
    Seq<u8>,
    Map<Seq<u8>, Seq<u8>>,
)>
    decreases n,
{
    if n <= 0 {
        Seq::empty()
    } else {
        let rest = templates_of_events(text, events, n - 1);
        match events[n - 1] {
            EventV::Template { span: _, name, params } => rest.push(
                (spec_span_slice(text, name), spec_params_map(text, params, params.len() as int)),
            ),
            _ => rest,
        }
    }
}

/// The name and parameter map of each record.
pub open spec fn template_records_view(s: Seq<Template>) -> Seq<(Seq<u8>, Map<Seq<u8>, Seq<u8>>)> {
    Seq::new(s.len(), |i: int| (s[i]@.name, pairs_map(s[i].parameters@)))
}

/// Resolves every template of a page tree, in traversal order.
pub struct TemplateVisitor {
}

impl TemplateVisitor {
    /// A visitor; it carries no state of its own.
    pub fn new() -> (r: TemplateVisitor) {
        TemplateVisitor {  }
    }

    /// Walks a page tree and resolves every template in it, in traversal
    /// order — a template nested in another's arguments comes before the
    /// template holding it. A tree whose spans do not fit the page text,
    /// or a template with too many parameters to number, is refused.
    #[verifier::loop_isolation(false)]
    pub fn visit(&self, text: &[u8], nodes: &Vec<crate::nodes::Node>) -> (r: Result<
        Vec<Template>,
        &'static str,
    >)
        ensures
            crate::nodes::wf_list(nodes@, text@.len() as int) && crate::sections::events_bounded(
                crate::walker::walk_list(nodes@),
            ) ==> r is Ok,
            (if crate::walker::events_wf(crate::walker::walk_list(nodes@), text@.len() as int)
                && crate::sections::events_bounded(crate::walker::walk_list(nodes@)) {
                r matches Ok(ts) && template_records_view(ts@) == templates_of_events(
                    text@,
                    crate::walker::walk_list(nodes@),
                    crate::walker::walk_list(nodes@).len() as int,
                )
            } else {
                r is Err
            }),
    {
        let events = crate::walker::walk(nodes);
        if !crate::walker::check_events(&events, text.len()) {
            proof {
                if crate::nodes::wf_list(nodes@, text@.len() as int) {
                    crate::walker::lemma_walk_list_events_wf(nodes@, text@.len() as int);
                }
            }
            return Err("node span out of range of page text");
        }
        if !crate::sections::check_events_bounded(&events) {
            return Err("too many template parameters");
        }
        let ghost evs = crate::walker::events_view(events@);
        let mut out: Vec<Template> = Vec::new();
        let mut i: usize = 0;
        proof {
            assert(template_records_view(out@) =~= templates_of_events(text@, evs, 0));
        }
        while i < events.len()
            invariant
                0 <= i <= events@.len(),
                template_records_view(out@) == templates_of_events(text@, evs, i as int),
            decreases events@.len() - i,
        {
            proof {
                assert(evs[i as int] == events@[i as int]@);
                assert(event_wf(evs[i as int], text@.len() as int));
            }
            match &events[i] {
                Event::Template { .. } => {
                    let rec = match Template::from_event(text, &events[i]) {
                        Ok(rec) => rec,
                        Err(_) => {
                            proof {
                                assert(false);
                            }
                            return Err("not a template");
                        },
                    };
                    out.push(rec);
                    proof {
                        assert(template_records_view(out@) =~~= templates_of_events(
                            text@,
                            evs,
                            i + 1,
                        ));
                    }
                },
                _ => {
                    proof {
                        assert(template_records_view(out@) =~~= templates_of_events(
                            text@,
                            evs,
                            i + 1,
                        ));
                    }
                },
            }
            i = i + 1;
        }
        Ok(out)
    }
}

/// One extracted template held as plain owned values.
pub struct TemplateOwned {
    pub name: Vec<u8>,
    pub parameters: Vec<(Vec<u8>, Vec<u8>)>,
}

impl TemplateOwned {
    /// Takes ownership of a resolved template record.
    pub fn from_template(t: Template) -> (r: TemplateOwned)
        ensures
            r.name == t.name,
            r.parameters == t.parameters,
    {
        TemplateOwned { name: t.name, parameters: t.parameters }
    }
}

/// A copy of the text a span selects.
pub fn slice_to_vec_range(text: &[u8], start: usize, end: usize) -> (r: Vec<u8>)
    requires
        0 <= start <= end <= text@.len(),
    ensures
        r@ == text@.subrange(start as int, end as int),
{
    let mut r: Vec<u8> = Vec::new();
    let mut i: usize = start;
    while i < end
        invariant
            start <= i <= end <= text@.len(),
            r@ =~= text@.subrange(start as int, i as int),
        decreases end - i,
    {
        r.push(text[i]);
        i = i + 1;
    }
    r
}

} // verus!
