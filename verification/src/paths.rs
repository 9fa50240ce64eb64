//! Pure resolution of flavor-scoped directories against a model of what a
//! read-only scan of the installation root saw. The expected path is
//! preferred when present with its exact casing; otherwise the entries are
//! compared segment by segment up to ASCII case, and ties are broken
//! deterministically by taking the lexicographically smallest matching
//! path (ordered by code point). With no match at all, the unchanged
//! candidate is returned, so callers may create it later.

use vstd::prelude::*;

use crate::flavor::Flavor;
use crate::flavor::spec_identifier;
use crate::strutil::fold_lower;
use crate::strutil::lex_le;

verus! {

/// One entry of the scanned flavor directory: its name and the names of
/// its own entries.
#[derive(Debug, Clone, PartialEq)]
pub struct DirEntry {
    pub name: String,
    pub children: Vec<String>,
}

/// Mathematical model of one scanned entry.
pub struct DirEntryModel {
    pub name: Seq<char>,
    pub children: Seq<Seq<char>>,
}

/// The model of a sequence of names.
pub open spec fn names_model(names: Seq<String>) -> Seq<Seq<char>> {
    names.map(|i: int, s: String| s@)
}

impl View for DirEntry {
    type V = DirEntryModel;

    open spec fn view(&self) -> DirEntryModel {
        DirEntryModel { name: self.name@, children: names_model(self.children@) }
    }
}

/// What a scan of the flavor-scoped directory saw: its entries, each with
/// the entries one level below it.
#[derive(Debug, Clone, PartialEq)]
pub struct FlavorDirListing {
    pub entries: Vec<DirEntry>,
}

/// The model of a scanned entry sequence.
pub open spec fn listing_model(entries: Seq<DirEntry>) -> Seq<DirEntryModel> {
    entries.map(|i: int, e: DirEntry| e@)
}

impl View for FlavorDirListing {
    type V = Seq<DirEntryModel>;

    open spec fn view(&self) -> Seq<DirEntryModel> {
        listing_model(self.entries@)
    }
}

/// A path extended by one segment, separated by `/`.
pub open spec fn join_seg(p: Seq<char>, s: Seq<char>) -> Seq<char> {
    p + "/"@ + s
}

/// The flavor-scoped folder name: the identifier wrapped in underscores,
/// such as `_retail_`.
pub open spec fn flavor_folder(f: Flavor) -> Seq<char> {
    "_"@ + spec_identifier(f) + "_"@
}

/// The flavor-scoped directory under the installation root.
pub open spec fn flavor_base(root: Seq<char>, f: Flavor) -> Seq<char> {
    join_seg(root, flavor_folder(f))
}

/// The parent of the expected add-on directory.
pub open spec fn addon_candidate_parent(root: Seq<char>, f: Flavor) -> Seq<char> {
    join_seg(flavor_base(root, f), "Interface"@)
}

/// The expected add-on directory, exactly as constructed.
pub open spec fn addon_candidate(root: Seq<char>, f: Flavor) -> Seq<char> {
    join_seg(addon_candidate_parent(root, f), "AddOns"@)
}

/// The expected settings directory, exactly as constructed.
pub open spec fn settings_candidate(root: Seq<char>, f: Flavor) -> Seq<char> {
    join_seg(flavor_base(root, f), "WTF"@)
}

/// Whether the listing holds the two expected segments with their exact
/// casing.
pub open spec fn exact_present2(l: Seq<DirEntryModel>, s1: Seq<char>, s2: Seq<char>) -> bool {
    exists|i: int| 0 <= i < l.len() && l[i].name == s1 && l[i].children.contains(s2)
}

/// Whether the listing holds the expected segment with its exact casing.
pub open spec fn exact_present1(l: Seq<DirEntryModel>, s1: Seq<char>) -> bool {
    exists|i: int| 0 <= i < l.len() && l[i].name == s1
}

/// The `(parent, full path)` pairs formed from the children of one entry
/// that match the expected segment up to ASCII case, in listing order.
pub open spec fn child_pairs(parent: Seq<char>, children: Seq<Seq<char>>, seg2: Seq<char>) -> Seq<
    (Seq<char>, Seq<char>),
>
    decreases children.len(),
{
    if children.len() == 0 {
        Seq::empty()
    } else {
        let rest = child_pairs(parent, children.drop_last(), seg2);
        if fold_lower(children.last()) == fold_lower(seg2) {
            rest.push((parent, join_seg(parent, children.last())))
        } else {
            rest
        }
    }
}

/// The `(parent, full path)` pairs of all two-segment paths under `base`
/// whose segments match the expected segments up to ASCII case, in
/// listing order.
pub open spec fn entry_pairs(
    base: Seq<char>,
    l: Seq<DirEntryModel>,
    seg1: Seq<char>,
    seg2: Seq<char>,
) -> Seq<(Seq<char>, Seq<char>)>
    decreases l.len(),
{
    if l.len() == 0 {
        Seq::empty()
    } else {
        let rest = entry_pairs(base, l.drop_last(), seg1, seg2);
        if fold_lower(l.last().name) == fold_lower(seg1) {
            rest + child_pairs(join_seg(base, l.last().name), l.last().children, seg2)
        } else {
            rest
        }
    }
}

/// The `(parent, full path)` pairs of all single-segment paths under
/// `base` whose segment matches the expected one up to ASCII case, in
/// listing order.
pub open spec fn entry_pairs1(base: Seq<char>, l: Seq<DirEntryModel>, seg1: Seq<char>) -> Seq<
    (Seq<char>, Seq<char>),
>
    decreases l.len(),
{
    if l.len() == 0 {
        Seq::empty()
    } else {
        let rest = entry_pairs1(base, l.drop_last(), seg1);
        if fold_lower(l.last().name) == fold_lower(seg1) {
            rest.push((base, join_seg(base, l.last().name)))
        } else {
            rest
        }
    }
}

/// The pair with the lexicographically smallest full path; among equals,
/// the earliest.
pub open spec fn min_pair(s: Seq<(Seq<char>, Seq<char>)>) -> (Seq<char>, Seq<char>)
    recommends
        s.len() > 0,
    decreases s.len(),
{
    if s.len() <= 1 {
        s[0]
    } else {
        let m = min_pair(s.drop_last());
        if lex_le(m.1, s.last().1) {
            m
        } else {
            s.last()
        }
    }
}

/// The resolved add-on directory as a `(parent, full path)` pair: the
/// exact candidate when present, else the smallest case-variant match,
/// else the unchanged candidate.
pub open spec fn spec_resolve_addon_parts(root: Seq<char>, f: Flavor, l: Seq<DirEntryModel>) -> (
    Seq<char>,
    Seq<char>,
) {
    let cand = (addon_candidate_parent(root, f), addon_candidate(root, f));
    if exact_present2(l, "Interface"@, "AddOns"@) {
        cand
    } else {
        let ps = entry_pairs(flavor_base(root, f), l, "Interface"@, "AddOns"@);
        if ps.len() == 0 {
            cand
        } else {
            min_pair(ps)
        }
    }
}

/// The resolved add-on directory.
pub open spec fn spec_resolve_addon_dir(root: Seq<char>, f: Flavor, l: Seq<DirEntryModel>) -> Seq<
    char,
> {
    spec_resolve_addon_parts(root, f, l).1
}

/// The resolved staging directory: the parent of the resolved add-on
/// directory.
pub open spec fn spec_resolve_staging_dir(root: Seq<char>, f: Flavor, l: Seq<DirEntryModel>) -> Seq<
    char,
> {
    spec_resolve_addon_parts(root, f, l).0
}

/// The resolved settings directory: the exact candidate when present,
/// else the smallest case-variant match, else the unchanged candidate.
pub open spec fn spec_resolve_settings_dir(
    root: Seq<char>,
    f: Flavor,
    l: Seq<DirEntryModel>,
) -> Seq<char> {
    let cand = settings_candidate(root, f);
    if exact_present1(l, "WTF"@) {
        cand
    } else {
        let ps = entry_pairs1(flavor_base(root, f), l, "WTF"@);
        if ps.len() == 0 {
            cand
        } else {
            min_pair(ps).1
        }
    }
}

/// Whether `p` is the add-on path under the flavor-scoped directory with
/// both trailing segments matched up to ASCII case.
pub open spec fn is_addon_case_variant(p: Seq<char>, root: Seq<char>, f: Flavor) -> bool {
    exists|s1: Seq<char>, s2: Seq<char>|
        p == join_seg(join_seg(flavor_base(root, f), s1), s2) && fold_lower(s1) == fold_lower(
            "Interface"@,
        ) && fold_lower(s2) == fold_lower("AddOns"@)
}

/// Whether `p` is the parent of an add-on path whose segment matches up
/// to ASCII case.
pub open spec fn is_staging_case_variant(p: Seq<char>, root: Seq<char>, f: Flavor) -> bool {
    exists|s1: Seq<char>|
        p == join_seg(flavor_base(root, f), s1) && fold_lower(s1) == fold_lower("Interface"@)
}

/// Whether `p` is the settings path under the flavor-scoped directory
/// with its segment matched up to ASCII case.
pub open spec fn is_settings_case_variant(p: Seq<char>, root: Seq<char>, f: Flavor) -> bool {
    exists|s1: Seq<char>|
        p == join_seg(flavor_base(root, f), s1) && fold_lower(s1) == fold_lower("WTF"@)
}

/// The smallest pair is one of the pairs.
pub proof fn lemma_min_pair_in(s: Seq<(Seq<char>, Seq<char>)>)
    requires
        s.len() > 0,
    ensures
        s.contains(min_pair(s)),
    decreases s.len(),
{
    if s.len() <= 1 {
        assert(s[0] == min_pair(s));
        assert(s.contains(s[0]));
    } else {
        lemma_min_pair_in(s.drop_last());
        let m = min_pair(s.drop_last());
        if lex_le(m.1, s.last().1) {
            let i = choose|i: int| 0 <= i < s.drop_last().len() && s.drop_last()[i] == m;
            assert(s[i] == m);
            assert(s.contains(m));
        } else {
            assert(s[s.len() - 1] == s.last());
            assert(s.contains(s.last()));
        }
    }
}

/// Every collected child pair carries the parent it was formed under and
/// a full path extending it by one case-matching segment.
pub proof fn lemma_child_pairs_shape(parent: Seq<char>, children: Seq<Seq<char>>, seg2: Seq<char>)
    ensures
        forall|k: int|
            0 <= k < child_pairs(parent, children, seg2).len() ==> (#[trigger] child_pairs(
                parent,
                children,
                seg2,
            )[k]).0 == parent && exists|c: Seq<char>|
                child_pairs(parent, children, seg2)[k].1 == join_seg(parent, c) && fold_lower(c)
                    == fold_lower(seg2),
    decreases children.len(),
{
    if children.len() > 0 {
        lemma_child_pairs_shape(parent, children.drop_last(), seg2);
        let rest = child_pairs(parent, children.drop_last(), seg2);
        if fold_lower(children.last()) == fold_lower(seg2) {
            assert forall|k: int|
                0 <= k < child_pairs(parent, children, seg2).len() implies (
            #[trigger] child_pairs(parent, children, seg2)[k]).0 == parent && exists|c: Seq<char>|
                child_pairs(parent, children, seg2)[k].1 == join_seg(parent, c) && fold_lower(c)
                    == fold_lower(seg2) by {
                if k == rest.len() {
                    let c = children.last();
                    let pr = child_pairs(parent, children, seg2)[k];
                    assert(pr.1 == join_seg(parent, c) && fold_lower(c) == fold_lower(seg2));
                }
            }
        }
    }
}

/// Every collected two-segment pair is a `(parent, full path)` of paths
/// under `base` whose segments match the expected ones up to ASCII case.
pub proof fn lemma_entry_pairs_shape(
    base: Seq<char>,
    l: Seq<DirEntryModel>,
    seg1: Seq<char>,
    seg2: Seq<char>,
)
    ensures
        forall|k: int|
            0 <= k < entry_pairs(base, l, seg1, seg2).len() ==> exists|s1: Seq<char>, c: Seq<char>|
                (#[trigger] entry_pairs(base, l, seg1, seg2)[k]).0 == join_seg(base, s1)
                    && fold_lower(s1) == fold_lower(seg1) && entry_pairs(base, l, seg1, seg2)[k].1
                    == join_seg(join_seg(base, s1), c) && fold_lower(c) == fold_lower(seg2),
    decreases l.len(),
{
    if l.len() > 0 {
        lemma_entry_pairs_shape(base, l.drop_last(), seg1, seg2);
        let rest = entry_pairs(base, l.drop_last(), seg1, seg2);
        if fold_lower(l.last().name) == fold_lower(seg1) {
            let sub = join_seg(base, l.last().name);
            lemma_child_pairs_shape(sub, l.last().children, seg2);
            let cp = child_pairs(sub, l.last().children, seg2);
            assert forall|k: int|
                0 <= k < entry_pairs(base, l, seg1, seg2).len() implies exists|
                s1: Seq<char>,
                c: Seq<char>,
            |
                (#[trigger] entry_pairs(base, l, seg1, seg2)[k]).0 == join_seg(base, s1)
                    && fold_lower(s1) == fold_lower(seg1) && entry_pairs(base, l, seg1, seg2)[k].1
                    == join_seg(join_seg(base, s1), c) && fold_lower(c) == fold_lower(seg2) by {
                let pr = entry_pairs(base, l, seg1, seg2)[k];
                if k < rest.len() {
                    assert(pr == rest[k]);
                } else {
                    assert(pr == cp[k - rest.len()]);
                    let s1 = l.last().name;
                    let c = choose|c: Seq<char>|
                        pr.1 == join_seg(sub, c) && fold_lower(c) == fold_lower(seg2);
                    assert(pr.0 == join_seg(base, s1) && fold_lower(s1) == fold_lower(seg1) && pr.1
                        == join_seg(join_seg(base, s1), c) && fold_lower(c) == fold_lower(seg2));
                }
            }
        }
    }
}

/// Every collected single-segment pair carries `base` and a full path
/// extending it by one case-matching segment.
pub proof fn lemma_entry_pairs1_shape(base: Seq<char>, l: Seq<DirEntryModel>, seg1: Seq<char>)
    ensures
        forall|k: int|
            0 <= k < entry_pairs1(base, l, seg1).len() ==> (#[trigger] entry_pairs1(base, l, seg1)[k]).0
                == base && exists|s1: Seq<char>|
                entry_pairs1(base, l, seg1)[k].1 == join_seg(base, s1) && fold_lower(s1)
                    == fold_lower(seg1),
    decreases l.len(),
{
    if l.len() > 0 {
        lemma_entry_pairs1_shape(base, l.drop_last(), seg1);
        let rest = entry_pairs1(base, l.drop_last(), seg1);
        if fold_lower(l.last().name) == fold_lower(seg1) {
            assert forall|k: int|
                0 <= k < entry_pairs1(base, l, seg1).len() implies (#[trigger] entry_pairs1(
                base,
                l,
                seg1,
            )[k]).0 == base && exists|s1: Seq<char>|
                entry_pairs1(base, l, seg1)[k].1 == join_seg(base, s1) && fold_lower(s1)
                    == fold_lower(seg1) by {
                if k == rest.len() {
                    let s1 = l.last().name;
                    let pr = entry_pairs1(base, l, seg1)[k];
                    assert(pr.1 == join_seg(base, s1) && fold_lower(s1) == fold_lower(seg1));
                }
            }
        }
    }
}

/// Whatever the scan saw, the resolved add-on pair is the exact candidate
/// or a case-variant of it, and its parent likewise.
pub proof fn lemma_resolve_addon_shape(root: Seq<char>, f: Flavor, l: Seq<DirEntryModel>)
    ensures
        spec_resolve_addon_dir(root, f, l) == addon_candidate(root, f) || is_addon_case_variant(
            spec_resolve_addon_dir(root, f, l),
            root,
            f,
        ),
        spec_resolve_staging_dir(root, f, l) == addon_candidate_parent(root, f)
            || is_staging_case_variant(spec_resolve_staging_dir(root, f, l), root, f),
{
    let base = flavor_base(root, f);
    let ps = entry_pairs(base, l, "Interface"@, "AddOns"@);
    if !exact_present2(l, "Interface"@, "AddOns"@) && ps.len() > 0 {
        lemma_min_pair_in(ps);
        lemma_entry_pairs_shape(base, l, "Interface"@, "AddOns"@);
        let m = min_pair(ps);
        let k = choose|k: int| 0 <= k < ps.len() && ps[k] == m;
        assert(ps[k] == m);
    }
}

/// The resolved staging directory is the parent of the resolved add-on
/// directory: the add-on directory extends it by exactly one segment,
/// and that segment matches the expected leaf up to ASCII case. This
/// holds whatever the scan saw.
pub proof fn lemma_staging_is_parent_of_addon_dir(root: Seq<char>, f: Flavor, l: Seq<DirEntryModel>)
    ensures
        exists|s: Seq<char>|
            spec_resolve_addon_dir(root, f, l) == #[trigger] join_seg(
                spec_resolve_staging_dir(root, f, l),
                s,
            ) && fold_lower(s) == fold_lower("AddOns"@),
{
    let base = flavor_base(root, f);
    let ps = entry_pairs(base, l, "Interface"@, "AddOns"@);
    if !exact_present2(l, "Interface"@, "AddOns"@) && ps.len() > 0 {
        lemma_min_pair_in(ps);
        lemma_entry_pairs_shape(base, l, "Interface"@, "AddOns"@);
        let m = min_pair(ps);
        let k = choose|k: int| 0 <= k < ps.len() && ps[k] == m;
        assert(ps[k] == m);
        let (s1, c) = choose|s1: Seq<char>, c: Seq<char>|
            ps[k].0 == join_seg(base, s1) && fold_lower(s1) == fold_lower("Interface"@) && ps[k].1
                == join_seg(join_seg(base, s1), c) && fold_lower(c) == fold_lower("AddOns"@);
        assert(m.1 == join_seg(m.0, c) && fold_lower(c) == fold_lower("AddOns"@));
        assert(spec_resolve_addon_dir(root, f, l) == join_seg(
            spec_resolve_staging_dir(root, f, l),
            c,
        ) && fold_lower(c) == fold_lower("AddOns"@));
    } else {
        let s = "AddOns"@;
        assert(spec_resolve_addon_dir(root, f, l) == join_seg(
            spec_resolve_staging_dir(root, f, l),
            s,
        ) && fold_lower(s) == fold_lower("AddOns"@));
    }
}

/// Whatever the scan saw, the resolved settings directory is the exact
/// candidate or a case-variant of it.
pub proof fn lemma_resolve_settings_shape(root: Seq<char>, f: Flavor, l: Seq<DirEntryModel>)
    ensures
        spec_resolve_settings_dir(root, f, l) == settings_candidate(root, f)
            || is_settings_case_variant(spec_resolve_settings_dir(root, f, l), root, f),
{
    let base = flavor_base(root, f);
    let ps = entry_pairs1(base, l, "WTF"@);
    if !exact_present1(l, "WTF"@) && ps.len() > 0 {
        lemma_min_pair_in(ps);
        lemma_entry_pairs1_shape(base, l, "WTF"@);
        let m = min_pair(ps);
        let k = choose|k: int| 0 <= k < ps.len() && ps[k] == m;
        assert(ps[k] == m);
    }
}

/// Extends a path by one segment, separated by `/`.
pub fn join_seg_exec(p: &str, s: &str) -> (r: String)
    ensures
        r@ == join_seg(p@, s@),
{
    let a: String = p.to_owned();
    let b: String = a.concat("/");
    b.concat(s)
}

/// The flavor-scoped folder name, such as `_retail_`.
pub fn flavor_folder_exec(f: Flavor) -> (r: String)
    ensures
        r@ == flavor_folder(f),
{
    let a: String = String::from_str("_");
    let b: String = a.concat(f.identifier());
    b.concat("_")
}

/// Whether a name sequence holds the given string with its exact casing.
fn names_contain(names: &Vec<String>, s: &str) -> (r: bool)
    ensures
        r == names_model(names@).contains(s@),
{
    let n = names.len();
    let mut i: usize = 0;
    while i < n
        invariant
            i <= n,
            n == names@.len(),
            forall|j: int| 0 <= j < i ==> names_model(names@)[j] != s@,
        decreases n - i,
    {
        if crate::strutil::str_eq(names[i].as_str(), s) {
            assert(names_model(names@)[i as int] == s@);
            return true;
        }
        i += 1;
    }
    assert(forall|j: int| 0 <= j < names_model(names@).len() ==> names_model(names@)[j] != s@);
    false
}

/// Whether the listing holds the two expected segments with their exact
/// casing.
fn exact_present2_exec(listing: &FlavorDirListing, s1: &str, s2: &str) -> (r: bool)
    ensures
        r == exact_present2(listing@, s1@, s2@),
{
    let n = listing.entries.len();
    let mut i: usize = 0;
    while i < n
        invariant
            i <= n,
            n == listing.entries@.len(),
            forall|j: int| 0 <= j < i ==> !(listing@[j].name == s1@ && listing@[j].children.contains(s2@)),
        decreases n - i,
    {
        if crate::strutil::str_eq(listing.entries[i].name.as_str(), s1) {
            if names_contain(&listing.entries[i].children, s2) {
                assert(listing@[i as int].name == s1@ && listing@[i as int].children.contains(s2@));
                return true;
            }
        }
        i += 1;
    }
    false
}

/// Whether the listing holds the expected segment with its exact casing.
fn exact_present1_exec(listing: &FlavorDirListing, s1: &str) -> (r: bool)
    ensures
        r == exact_present1(listing@, s1@),
{
    let n = listing.entries.len();
    let mut i: usize = 0;
    while i < n
        invariant
            i <= n,
            n == listing.entries@.len(),
            forall|j: int| 0 <= j < i ==> listing@[j].name != s1@,
        decreases n - i,
    {
        if crate::strutil::str_eq(listing.entries[i].name.as_str(), s1) {
            assert(listing@[i as int].name == s1@);
            return true;
        }
        i += 1;
    }
    false
}

/// The model of a pair sequence.
pub open spec fn pairs_model(ps: Seq<(String, String)>) -> Seq<(Seq<char>, Seq<char>)> {
    ps.map(|i: int, p: (String, String)| (p.0@, p.1@))
}

/// Collects the case-variant pairs among the children of one entry.
fn child_pairs_exec(parent: &String, children: &Vec<String>, s2: &str) -> (r: Vec<(String, String)>)
    ensures
        pairs_model(r@) == child_pairs(parent@, names_model(children@), s2@),
{
    let ghost cm = names_model(children@);
    let n = children.len();
    let mut out: Vec<(String, String)> = Vec::new();
    let mut i: usize = 0;
    proof {
        assert(pairs_model(out@) =~= child_pairs(parent@, cm.subrange(0, 0), s2@));
    }
    while i < n
        invariant
            i <= n,
            n == children@.len(),
            cm == names_model(children@),
            pairs_model(out@) == child_pairs(parent@, cm.subrange(0, i as int), s2@),
        decreases n - i,
    {
        proof {
            assert(cm.subrange(0, (i + 1) as int).drop_last() =~= cm.subrange(0, i as int));
            assert(cm.subrange(0, (i + 1) as int).last() == cm[i as int]);
        }
        if crate::strutil::eq_ignore_ascii_case(children[i].as_str(), s2) {
            let full = join_seg_exec(parent.as_str(), children[i].as_str());
            out.push((parent.clone(), full));
            proof {
                assert(pairs_model(out@) =~= child_pairs(parent@, cm.subrange(0, (i + 1) as int), s2@));
            }
        } else {
            proof {
                assert(pairs_model(out@) =~= child_pairs(parent@, cm.subrange(0, (i + 1) as int), s2@));
            }
        }
        i += 1;
    }
    proof {
        assert(cm.subrange(0, n as int) =~= cm);
    }
    out
}

/// Collects the case-variant pairs of all two-segment paths under `base`.
fn entry_pairs_exec(base: &String, listing: &FlavorDirListing, s1: &str, s2: &str) -> (r: Vec<
    (String, String),
>)
    ensures
        pairs_model(r@) == entry_pairs(base@, listing@, s1@, s2@),
{
    let ghost lm = listing@;
    let n = listing.entries.len();
    let mut out: Vec<(String, String)> = Vec::new();
    let mut i: usize = 0;
    proof {
        assert(pairs_model(out@) =~= entry_pairs(base@, lm.subrange(0, 0), s1@, s2@));
    }
    while i < n
        invariant
            i <= n,
            n == listing.entries@.len(),
            lm == listing@,
            pairs_model(out@) == entry_pairs(base@, lm.subrange(0, i as int), s1@, s2@),
        decreases n - i,
    {
        proof {
            assert(lm.subrange(0, (i + 1) as int).drop_last() =~= lm.subrange(0, i as int));
            assert(lm.subrange(0, (i + 1) as int).last() == lm[i as int]);
        }
        if crate::strutil::eq_ignore_ascii_case(listing.entries[i].name.as_str(), s1) {
            let sub = join_seg_exec(base.as_str(), listing.entries[i].name.as_str());
            let mut cp = child_pairs_exec(&sub, &listing.entries[i].children, s2);
            let ghost cpm = pairs_model(cp@);
            out.append(&mut cp);
            proof {
                assert(pairs_model(out@) =~= entry_pairs(base@, lm.subrange(0, i as int), s1@, s2@)
                    + cpm);
                assert(pairs_model(out@) =~= entry_pairs(base@, lm.subrange(0, (i + 1) as int), s1@, s2@));
            }
        } else {
            proof {
                assert(pairs_model(out@) =~= entry_pairs(base@, lm.subrange(0, (i + 1) as int), s1@, s2@));
            }
        }
        i += 1;
    }
    proof {
        assert(lm.subrange(0, n as int) =~= lm);
    }
    out
}

/// Collects the case-variant pairs of all single-segment paths under
/// `base`.
fn entry_pairs1_exec(base: &String, listing: &FlavorDirListing, s1: &str) -> (r: Vec<
    (String, String),
>)
    ensures
        pairs_model(r@) == entry_pairs1(base@, listing@, s1@),
{
    let ghost lm = listing@;
    let n = listing.entries.len();
    let mut out: Vec<(String, String)> = Vec::new();
    let mut i: usize = 0;
    proof {
        assert(pairs_model(out@) =~= entry_pairs1(base@, lm.subrange(0, 0), s1@));
    }
    while i < n
        invariant
            i <= n,
            n == listing.entries@.len(),
            lm == listing@,
            pairs_model(out@) == entry_pairs1(base@, lm.subrange(0, i as int), s1@),
        decreases n - i,
    {
        proof {
            assert(lm.subrange(0, (i + 1) as int).drop_last() =~= lm.subrange(0, i as int));
            assert(lm.subrange(0, (i + 1) as int).last() == lm[i as int]);
        }
        if crate::strutil::eq_ignore_ascii_case(listing.entries[i].name.as_str(), s1) {
            let full = join_seg_exec(base.as_str(), listing.entries[i].name.as_str());
            out.push((base.clone(), full));
        }
        proof {
            assert(pairs_model(out@) =~= entry_pairs1(base@, lm.subrange(0, (i + 1) as int), s1@));
        }
        i += 1;
    }
    proof {
        assert(lm.subrange(0, n as int) =~= lm);
    }
    out
}

/// Picks the pair with the lexicographically smallest full path; among
/// equals, the earliest.
fn min_pair_exec(pairs: &Vec<(String, String)>) -> (r: (String, String))
    requires
        pairs@.len() > 0,
    ensures
        (r.0@, r.1@) == min_pair(pairs_model(pairs@)),
{
    let ghost pm = pairs_model(pairs@);
    let n = pairs.len();
    let mut best: (String, String) = (pairs[0].0.clone(), pairs[0].1.clone());
    let mut i: usize = 1;
    proof {
        assert(pm.subrange(0, 1).len() == 1);
        assert(pm.subrange(0, 1)[0] == pm[0]);
        assert((best.0@, best.1@) == min_pair(pm.subrange(0, 1)));
    }
    while i < n
        invariant
            1 <= i <= n,
            n == pairs@.len(),
            pm == pairs_model(pairs@),
            (best.0@, best.1@) == min_pair(pm.subrange(0, i as int)),
        decreases n - i,
    {
        proof {
            assert(pm.subrange(0, (i + 1) as int).drop_last() =~= pm.subrange(0, i as int));
            assert(pm.subrange(0, (i + 1) as int).last() == pm[i as int]);
        }
        if !crate::strutil::str_lex_le(best.1.as_str(), pairs[i].1.as_str()) {
            best = (pairs[i].0.clone(), pairs[i].1.clone());
        }
        i += 1;
    }
    proof {
        assert(pm.subrange(0, n as int) =~= pm);
    }
    best
}

/// Resolves the add-on directory as a `(parent, full path)` pair against
/// the given scan.
fn resolve_addon_parts(root: &str, flavor: Flavor, listing: &FlavorDirListing) -> (r: (
    String,
    String,
))
    ensures
        (r.0@, r.1@) == spec_resolve_addon_parts(root@, flavor, listing@),
{
    let folder = flavor_folder_exec(flavor);
    let base = join_seg_exec(root, folder.as_str());
    let parent_cand = join_seg_exec(base.as_str(), "Interface");
    let full_cand = join_seg_exec(parent_cand.as_str(), "AddOns");
    if exact_present2_exec(listing, "Interface", "AddOns") {
        (parent_cand, full_cand)
    } else {
        let pairs = entry_pairs_exec(&base, listing, "Interface", "AddOns");
        if pairs.len() == 0 {
            (parent_cand, full_cand)
        } else {
            min_pair_exec(&pairs)
        }
    }
}

/// Resolves the add-on directory for a flavor against the given scan of
/// the flavor-scoped directory. An absent root resolves to an absent
/// result, never an error.
pub fn resolve_addon_dir(root: &Option<String>, flavor: Flavor, listing: &FlavorDirListing) -> (r:
    Option<String>)
    ensures
        r is Some <==> root is Some,
        root matches Some(rt) ==> r matches Some(p) && p@ == spec_resolve_addon_dir(
            rt@,
            flavor,
            listing@,
        ),
{
    match root {
        None => None,
        Some(rt) => {
            let parts = resolve_addon_parts(rt.as_str(), flavor, listing);
            Some(parts.1)
        },
    }
}

/// Resolves the staging directory for a flavor: the parent of the
/// resolved add-on directory. An absent root resolves to an absent
/// result, never an error.
pub fn resolve_staging_dir(root: &Option<String>, flavor: Flavor, listing: &FlavorDirListing) -> (r:
    Option<String>)
    ensures
        r is Some <==> root is Some,
        root matches Some(rt) ==> r matches Some(p) && p@ == spec_resolve_staging_dir(
            rt@,
            flavor,
            listing@,
        ),
{
    match root {
        None => None,
        Some(rt) => {
            let parts = resolve_addon_parts(rt.as_str(), flavor, listing);
            Some(parts.0)
        },
    }
}

/// Resolves the settings directory for a flavor against the given scan of
/// the flavor-scoped directory. An absent root resolves to an absent
/// result, never an error.
pub fn resolve_settings_dir(root: &Option<String>, flavor: Flavor, listing: &FlavorDirListing) -> (
    r: Option<String>)
    ensures
        r is Some <==> root is Some,
        root matches Some(rt) ==> r matches Some(p) && p@ == spec_resolve_settings_dir(
            rt@,
            flavor,
            listing@,
        ),
{
    match root {
        None => None,
        Some(rt) => {
            let folder = flavor_folder_exec(flavor);
            let base = join_seg_exec(rt.as_str(), folder.as_str());
            let cand = join_seg_exec(base.as_str(), "WTF");
            if exact_present1_exec(listing, "WTF") {
                Some(cand)
            } else {
                let pairs = entry_pairs1_exec(&base, listing, "WTF");
                if pairs.len() == 0 {
                    Some(cand)
                } else {
                    let m = min_pair_exec(&pairs);
                    Some(m.1)
                }
            }
        },
    }
}

} // verus!
