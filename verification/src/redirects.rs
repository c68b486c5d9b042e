//! Template-redirect enrichment: given what the wiki reports about the
//! filter list's templates — their redirects, the redirects that were
//! followed, and the title normalizations applied — extend a template-to-
//! value map so that a template and all its redirects share one value,
//! with the main page's value taking precedence over values inserted for
//! redirects.

use vstd::prelude::*;

use crate::text::{bytes_eq, copy_bytes, copy_bytes_slice, push_all};

verus! {

/// The `Template:` page-name prefix.
pub open spec fn template_prefix() -> Seq<u8> {
    seq![0x54u8, 0x65u8, 0x6du8, 0x70u8, 0x6cu8, 0x61u8, 0x74u8, 0x65u8, 0x3au8]
}

/// A page name with any `Template:` prefix removed.
pub open spec fn spec_trim_template_prefix(s: Seq<u8>) -> Seq<u8> {
    if s.len() >= 9 && s.subrange(0, 9) == template_prefix() {
        s.subrange(9, s.len() as int)
    } else {
        s
    }
}

/// Strips a leading `Template:` from a page name.
pub fn trim_template_prefix(pagename: &[u8]) -> (r: Vec<u8>)
    ensures
        r@ == spec_trim_template_prefix(pagename@),
{
    if pagename.len() >= 9 && pagename[0] == 0x54 && pagename[1] == 0x65 && pagename[2] == 0x6d
        && pagename[3] == 0x70 && pagename[4] == 0x6c && pagename[5] == 0x61 && pagename[6] == 0x74
        && pagename[7] == 0x65 && pagename[8] == 0x3a {
        proof {
            assert(pagename@.subrange(0, 9) =~= template_prefix());
        }
        crate::records::slice_to_vec_range(pagename, 9, pagename.len())
    } else {
        proof {
            if pagename@.len() >= 9 && pagename@.subrange(0, 9) == template_prefix() {
                assert(pagename@[0] == 0x54 && pagename@[1] == 0x65 && pagename@[2] == 0x6d
                    && pagename@[3] == 0x70 && pagename@[4] == 0x6c && pagename@[5] == 0x61
                    && pagename@[6] == 0x74 && pagename@[7] == 0x65 && pagename@[8] == 0x3a) by {
                    assert(pagename@.subrange(0, 9)[0] == pagename@[0]);
                    assert(pagename@.subrange(0, 9)[1] == pagename@[1]);
                    assert(pagename@.subrange(0, 9)[2] == pagename@[2]);
                    assert(pagename@.subrange(0, 9)[3] == pagename@[3]);
                    assert(pagename@.subrange(0, 9)[4] == pagename@[4]);
                    assert(pagename@.subrange(0, 9)[5] == pagename@[5]);
                    assert(pagename@.subrange(0, 9)[6] == pagename@[6]);
                    assert(pagename@.subrange(0, 9)[7] == pagename@[7]);
                    assert(pagename@.subrange(0, 9)[8] == pagename@[8]);
                }
            }
        }
        crate::records::slice_to_vec_range(pagename, 0, pagename.len())
    }
}

/// The first value an association list holds for a key, if any.
pub open spec fn assoc_lookup<T>(s: Seq<(Seq<u8>, T)>, k: Seq<u8>) -> Option<T>
    decreases s.len(),
{
    if s.len() == 0 {
        None
    } else if s[0].0 == k {
        Some(s[0].1)
    } else {
        assoc_lookup(s.drop_first(), k)
    }
}

/// Whether some entry carries this key.
pub open spec fn assoc_has<T>(s: Seq<(Seq<u8>, T)>, k: Seq<u8>) -> bool {
    exists|i: int| 0 <= i < s.len() && s[i].0 == k
}

/// What a first-wins insert does: nothing when the key is already mapped,
/// else a new entry at the end.
pub open spec fn assoc_insert<T>(s: Seq<(Seq<u8>, T)>, k: Seq<u8>, v: T) -> Seq<(Seq<u8>, T)> {
    if assoc_has(s, k) {
        s
    } else {
        s.push((k, v))
    }
}

/// A map from template names to values, into which a key is inserted only
/// when it is not yet present, so that earlier inserts take precedence.
pub struct TemplateToVal<V> {
    entries: Vec<(Vec<u8>, V)>,
}

/// The values of an entry list.
pub open spec fn tv_view<V>(s: Seq<(Vec<u8>, V)>) -> Seq<(Seq<u8>, V)> {
    Seq::new(s.len(), |i: int| (s[i].0@, s[i].1))
}

impl<V: Copy> TemplateToVal<V> {
    /// The abstract value: the entry list, earliest insert first.
    pub closed spec fn view_spec(&self) -> Seq<(Seq<u8>, V)> {
        tv_view(self.entries@)
    }

    /// An empty map.
    pub fn new() -> (r: TemplateToVal<V>)
        ensures
            r.view_spec() == Seq::<(Seq<u8>, V)>::empty(),
    {
        let r = TemplateToVal { entries: Vec::new() };
        proof {
            assert(r.view_spec() =~= Seq::<(Seq<u8>, V)>::empty());
        }
        r
    }

    /// Inserts a key and value unless the key is already present: the
    /// first insert for a key wins.
    #[verifier::loop_isolation(false)]
    pub fn insert(&mut self, key: &[u8], value: &V)
        ensures
            final(self).view_spec() == assoc_insert(old(self).view_spec(), key@, *value),
    {
        let mut i: usize = 0;
        while i < self.entries.len()
            invariant
                self.entries@ == old(self).entries@,
                0 <= i <= self.entries@.len(),
                forall|j: int| 0 <= j < i ==> tv_view(self.entries@)[j].0 != key@,
            decreases self.entries@.len() - i,
        {
            if bytes_eq(self.entries[i].0.as_slice(), key) {
                proof {
                    assert(tv_view(self.entries@)[i as int].0 == key@);
                    assert(assoc_has(self.view_spec(), key@));
                }
                return ;
            }
            i = i + 1;
        }
        proof {
            assert(!assoc_has(self.view_spec(), key@));
        }
        self.entries.push((copy_bytes_slice(key), *value));
        proof {
            assert(tv_view(self.entries@) =~= tv_view(old(self).entries@).push((key@, *value)));
        }
    }

    /// Hands the collected entries out.
    pub fn into_inner(self) -> (r: Vec<(Vec<u8>, V)>)
        ensures
            tv_view(r@) == self.view_spec(),
    {
        self.entries
    }
}

/// What the wiki reports about the filter list's templates: per template
/// page, its redirects (or that it has none); the redirects that were
/// followed from queried names; and the title normalizations applied to
/// queried names.
pub struct RedirectInfo {
    pub template_to_redirects: Vec<(Vec<u8>, Option<Vec<Vec<u8>>>)>,
    pub redirects_followed: Vec<(Vec<u8>, Vec<u8>)>,
    pub normalizations: Vec<(Vec<u8>, Vec<u8>)>,
}

/// The values of a redirects table.
pub open spec fn t2r_view(s: Seq<(Vec<u8>, Option<Vec<Vec<u8>>>)>) -> Seq<(
    Seq<u8>,
    Option<Seq<Seq<u8>>>,
)> {
    Seq::new(
        s.len(),
        |i: int|
            (
                s[i].0@,
                match s[i].1 {
                    Some(ref rs) => Some(rs@.map_values(|r: Vec<u8>| r@)),
                    None => None,
                },
            ),
    )
}

/// The values of a rename table.
pub open spec fn renames_view(s: Seq<(Vec<u8>, Vec<u8>)>) -> Seq<(Seq<u8>, Seq<u8>)> {
    Seq::new(s.len(), |i: int| (s[i].0@, s[i].1@))
}

/// Inserts, first-wins, every redirect of a list under its trimmed name.
pub open spec fn ins_redirects<V>(
    acc: Seq<(Seq<u8>, V)>,
    rs: Seq<Seq<u8>>,
    n: int,
    v: V,
) -> Seq<(Seq<u8>, V)>
    decreases n,
{
    if n <= 0 {
        acc
    } else {
        assoc_insert(
            ins_redirects(acc, rs, n - 1, v),
            spec_trim_template_prefix(rs[n - 1]),
            v,
        )
    }
}

/// The first phase: for every template page the wiki knows, when the
/// starting map holds its trimmed name, that name and all its redirects
/// take that entry's value — main pages first, so their values win.
pub open spec fn redirects_phase_a<V>(
    hm: Seq<(Seq<u8>, V)>,
    t2r: Seq<(Seq<u8>, Option<Seq<Seq<u8>>>)>,
    n: int,
) -> Seq<(Seq<u8>, V)>
    decreases n,
{
    if n <= 0 {
        Seq::empty()
    } else {
        let acc = redirects_phase_a(hm, t2r, n - 1);
        let main = spec_trim_template_prefix(t2r[n - 1].0);
        match assoc_lookup(hm, main) {
            Some(v) => {
                let acc1 = assoc_insert(acc, main, v);
                match t2r[n - 1].1 {
                    Some(rs) => ins_redirects(acc1, rs, rs.len() as int, v),
                    None => acc1,
                }
            },
            None => acc,
        }
    }
}

/// The second phase: every entry of the starting map, addressed as a
/// template page,
/// is renamed by the normalization table, followed through the redirect
/// table, and inserted under the trimmed final name together with all
/// redirects the wiki reports for that final name.
pub open spec fn redirects_phase_b<V>(
    hm: Seq<(Seq<u8>, V)>,
    t2r: Seq<(Seq<u8>, Option<Seq<Seq<u8>>>)>,
    rf: Seq<(Seq<u8>, Seq<u8>)>,
    norms: Seq<(Seq<u8>, Seq<u8>)>,
    acc0: Seq<(Seq<u8>, V)>,
    n: int,
) -> Seq<(Seq<u8>, V)>
    decreases n,
{
    if n <= 0 {
        acc0
    } else {
        let acc = redirects_phase_b(hm, t2r, rf, norms, acc0, n - 1);
        let v = hm[n - 1].1;
        let pn1 = template_prefix() + hm[n - 1].0;
        let pn2 = match assoc_lookup(norms, pn1) {
            Some(r) => r,
            None => pn1,
        };
        let pn3 = match assoc_lookup(rf, pn2) {
            Some(r) => r,
            None => pn2,
        };
        let acc1 = assoc_insert(acc, spec_trim_template_prefix(pn3), v);
        match assoc_lookup(t2r, pn3) {
            Some(Some(rs)) => ins_redirects(acc1, rs, rs.len() as int, v),
            _ => acc1,
        }
    }
}

/// Extends a template-to-value map with every redirect the wiki reports,
/// assuming a template and all its redirects are set to the same value:
/// the main page's value takes precedence over values inserted for
/// redirects to that page.
#[verifier::loop_isolation(false)]
pub fn add_template_redirects<V: Copy>(hashmap: &Vec<(Vec<u8>, V)>, info: &RedirectInfo) -> (r:
    Option<Vec<(Vec<u8>, V)>>)
    ensures
        r matches Some(m) && tv_view(m@) == redirects_phase_b(
            tv_view(hashmap@),
            t2r_view(info.template_to_redirects@),
            renames_view(info.redirects_followed@),
            renames_view(info.normalizations@),
            redirects_phase_a(
                tv_view(hashmap@),
                t2r_view(info.template_to_redirects@),
                info.template_to_redirects@.len() as int,
            ),
            hashmap@.len() as int,
        ),
{
    let ghost hm = tv_view(hashmap@);
    let ghost t2r = t2r_view(info.template_to_redirects@);
    let ghost rf = renames_view(info.redirects_followed@);
    let ghost norms = renames_view(info.normalizations@);
    let mut new_map: TemplateToVal<V> = TemplateToVal::new();
    let mut i: usize = 0;
    while i < info.template_to_redirects.len()
        invariant
            0 <= i <= info.template_to_redirects@.len(),
            new_map.view_spec() == redirects_phase_a(hm, t2r, i as int),
        decreases info.template_to_redirects@.len() - i,
    {
        let entry = &info.template_to_redirects[i];
        let main = trim_template_prefix(entry.0.as_slice());
        match assoc_get_value(hashmap, main.as_slice()) {
            Some(v) => {
                new_map.insert(main.as_slice(), &v);
                match &entry.1 {
                    Some(rs) => {
                        let mut j: usize = 0;
                        while j < rs.len()
                            invariant
                                0 <= j <= rs@.len(),
                                t2r[i as int].1 matches Some(rsv) && rsv == rs@.map_values(
                                    |r: Vec<u8>| r@,
                                ),
                                new_map.view_spec() == ins_redirects(
                                    assoc_insert(
                                        redirects_phase_a(hm, t2r, i as int),
                                        spec_trim_template_prefix(t2r[i as int].0),
                                        v,
                                    ),
                                    rs@.map_values(|r: Vec<u8>| r@),
                                    j as int,
                                    v,
                                ),
                            decreases rs@.len() - j,
                        {
                            let tr = trim_template_prefix(rs[j].as_slice());
                            new_map.insert(tr.as_slice(), &v);
                            j = j + 1;
                        }
                    },
                    None => {},
                }
            },
            None => {},
        }
        i = i + 1;
    }
    let ghost after_a = redirects_phase_a(hm, t2r, t2r.len() as int);
    let mut i: usize = 0;
    while i < hashmap.len()
        invariant
            0 <= i <= hashmap@.len(),
            new_map.view_spec() == redirects_phase_b(hm, t2r, rf, norms, after_a, i as int),
        decreases hashmap@.len() - i,
    {
        let entry = &hashmap[i];
        let v = entry.1;
        let mut pn: Vec<u8> = Vec::new();
        pn.push(0x54);
        pn.push(0x65);
        pn.push(0x6d);
        pn.push(0x70);
        pn.push(0x6c);
        pn.push(0x61);
        pn.push(0x74);
        pn.push(0x65);
        pn.push(0x3a);
        push_all(&mut pn, entry.0.as_slice());
        proof {
            assert(pn@ =~= template_prefix() + hm[i as int].0);
        }
        let pn2: Vec<u8> = match assoc_get_bytes(&info.normalizations, pn.as_slice()) {
            Some(r) => r,
            None => pn,
        };
        let pn3: Vec<u8> = match assoc_get_bytes(&info.redirects_followed, pn2.as_slice()) {
            Some(r) => r,
            None => pn2,
        };
        let trimmed = trim_template_prefix(pn3.as_slice());
        new_map.insert(trimmed.as_slice(), &v);
        match assoc_get_redirects(&info.template_to_redirects, pn3.as_slice()) {
            Some(idx) => {
                match &info.template_to_redirects[idx].1 {
                    Some(rs) => {
                        let ghost acc1 = assoc_insert(
                            redirects_phase_b(hm, t2r, rf, norms, after_a, i as int),
                            spec_trim_template_prefix(pn3@),
                            v,
                        );
                        let mut j: usize = 0;
                        while j < rs.len()
                            invariant
                                0 <= j <= rs@.len(),
                                t2r[idx as int].1 matches Some(rsv) && rsv == rs@.map_values(
                                    |r: Vec<u8>| r@,
                                ),
                                assoc_lookup(t2r, pn3@) == Some(t2r[idx as int].1),
                                new_map.view_spec() == ins_redirects(
                                    acc1,
                                    rs@.map_values(|r: Vec<u8>| r@),
                                    j as int,
                                    v,
                                ),
                            decreases rs@.len() - j,
                        {
                            let tr = trim_template_prefix(rs[j].as_slice());
                            new_map.insert(tr.as_slice(), &v);
                            j = j + 1;
                        }
                    },
                    None => {},
                }
            },
            None => {},
        }
        i = i + 1;
    }
    Some(new_map.into_inner())
}

/// The first value the starting map holds for a name, if any.
#[verifier::loop_isolation(false)]
fn assoc_get_value<V: Copy>(hashmap: &Vec<(Vec<u8>, V)>, k: &[u8]) -> (r: Option<V>)
    ensures
        (match assoc_lookup(tv_view(hashmap@), k@) {
            Some(v) => r matches Some(rv) && rv == v,
            None => r is None,
        }),
{
    let ghost hv = tv_view(hashmap@);
    let mut i: usize = 0;
    proof {
        assert(hv.subrange(0, hv.len() as int) =~= hv);
    }
    while i < hashmap.len()
        invariant
            0 <= i <= hashmap@.len(),
            assoc_lookup(hv, k@) == assoc_lookup(hv.subrange(i as int, hv.len() as int), k@),
        decreases hashmap@.len() - i,
    {
        let ghost rest = hv.subrange(i as int, hv.len() as int);
        proof {
            assert(rest[0] == hv[i as int]);
            assert(rest.drop_first() =~= hv.subrange(i + 1, hv.len() as int));
        }
        if bytes_eq(hashmap[i].0.as_slice(), k) {
            return Some(hashmap[i].1);
        }
        i = i + 1;
    }
    None
}

/// The first replacement a rename table holds for a name, if any.
#[verifier::loop_isolation(false)]
fn assoc_get_bytes(table: &Vec<(Vec<u8>, Vec<u8>)>, k: &[u8]) -> (r: Option<Vec<u8>>)
    ensures
        (match assoc_lookup(renames_view(table@), k@) {
            Some(v) => r matches Some(rv) && rv@ == v,
            None => r is None,
        }),
{
    let ghost tv = renames_view(table@);
    let mut i: usize = 0;
    proof {
        assert(tv.subrange(0, tv.len() as int) =~= tv);
    }
    while i < table.len()
        invariant
            0 <= i <= table@.len(),
            assoc_lookup(tv, k@) == assoc_lookup(tv.subrange(i as int, tv.len() as int), k@),
        decreases table@.len() - i,
    {
        let ghost rest = tv.subrange(i as int, tv.len() as int);
        proof {
            assert(rest[0] == tv[i as int]);
            assert(rest.drop_first() =~= tv.subrange(i + 1, tv.len() as int));
        }
        if bytes_eq(table[i].0.as_slice(), k) {
            return Some(copy_bytes(&table[i].1));
        }
        i = i + 1;
    }
    None
}

/// The index of the first redirects-table entry for a name, if any.
#[verifier::loop_isolation(false)]
fn assoc_get_redirects(
    table: &Vec<(Vec<u8>, Option<Vec<Vec<u8>>>)>,
    k: &[u8],
) -> (r: Option<usize>)
    ensures
        (match r {
            Some(idx) => idx < table@.len() && t2r_view(table@)[idx as int].0 == k@
                && assoc_lookup(t2r_view(table@), k@) == Some(t2r_view(table@)[idx as int].1),
            None => assoc_lookup(t2r_view(table@), k@) is None,
        }),
{
    let ghost tv = t2r_view(table@);
    let mut i: usize = 0;
    proof {
        assert(tv.subrange(0, tv.len() as int) =~= tv);
    }
    while i < table.len()
        invariant
            0 <= i <= table@.len(),
            assoc_lookup(tv, k@) == assoc_lookup(tv.subrange(i as int, tv.len() as int), k@),
        decreases table@.len() - i,
    {
        let ghost rest = tv.subrange(i as int, tv.len() as int);
        proof {
            assert(rest[0] == tv[i as int]);
            assert(rest.drop_first() =~= tv.subrange(i + 1, tv.len() as int));
        }
        if bytes_eq(table[i].0.as_slice(), k) {
            return Some(i);
        }
        i = i + 1;
    }
    None
}

} // verus!
