//! The package catalog: records, their order by name, the fixed critical and
//! known-bloatware sets, and the searches over package lists.
use vstd::prelude::*;
use crate::parse::{listed_packages, package_name_chars, parse_package_names};
use crate::text::{chars_of, contains, contains_chars};

verus! {

/// Orders names character by character, by code point; a proper prefix
/// comes first. This is the order of `str`'s `Ord`.
pub open spec fn name_le(a: Seq<char>, b: Seq<char>) -> bool
    decreases a.len(),
{
    if a.len() == 0 {
        true
    } else if b.len() == 0 {
        false
    } else if (a[0] as u32) < (b[0] as u32) {
        true
    } else if (a[0] as u32) > (b[0] as u32) {
        false
    } else {
        name_le(a.drop_first(), b.drop_first())
    }
}

/// Names in ascending order.
pub open spec fn is_sorted(ns: Seq<Seq<char>>) -> bool {
    forall|i: int, j: int| 0 <= i < j < ns.len() ==> name_le(#[trigger] ns[i], #[trigger] ns[j])
}

pub proof fn lemma_name_le_total(a: Seq<char>, b: Seq<char>)
    ensures
        name_le(a, b) || name_le(b, a),
    decreases a.len(),
{
    if a.len() > 0 && b.len() > 0 && a[0] as u32 == b[0] as u32 {
        lemma_name_le_total(a.drop_first(), b.drop_first());
    }
}

pub proof fn lemma_name_le_transitive(a: Seq<char>, b: Seq<char>, c: Seq<char>)
    requires
        name_le(a, b),
        name_le(b, c),
    ensures
        name_le(a, c),
    decreases a.len(),
{
    if a.len() > 0 && b.len() > 0 && c.len() > 0 && a[0] as u32 == b[0] as u32 && b[0] as u32
        == c[0] as u32 {
        lemma_name_le_transitive(a.drop_first(), b.drop_first(), c.drop_first());
    }
}

/// Whether `a` comes no later than `b` in the order of names.
pub fn name_le_exec(a: &[char], b: &[char]) -> (r: bool)
    ensures
        r == name_le(a@, b@),
{
    let mut i: usize = 0;
    assert(a@.subrange(0, a@.len() as int) =~= a@);
    assert(b@.subrange(0, b@.len() as int) =~= b@);
    while i < a.len() && i < b.len()
        invariant
            i <= a@.len(),
            i <= b@.len(),
            name_le(a@, b@) == name_le(
                a@.subrange(i as int, a@.len() as int),
                b@.subrange(i as int, b@.len() as int),
            ),
        decreases a@.len() - i,
    {
        let ghost sa = a@.subrange(i as int, a@.len() as int);
        let ghost sb = b@.subrange(i as int, b@.len() as int);
        assert(sa.drop_first() =~= a@.subrange(i + 1, a@.len() as int));
        assert(sb.drop_first() =~= b@.subrange(i + 1, b@.len() as int));
        assert(sa[0] == a@[i as int] && sb[0] == b@[i as int]);
        let x = a[i] as u32;
        let y = b[i] as u32;
        if x < y {
            return true;
        }
        if x > y {
            return false;
        }
        i = i + 1;
    }
    i == a.len()
}

/// The names that the character vectors hold.
pub open spec fn char_views(v: Seq<Vec<char>>) -> Seq<Seq<char>> {
    v.map_values(|x: Vec<char>| x@)
}

proof fn lemma_insert_multiset<A>(s: Seq<A>, p: int, a: A)
    requires
        0 <= p <= s.len(),
    ensures
        s.insert(p, a).to_multiset() =~= s.to_multiset().insert(a),
{
    broadcast use vstd::seq_lib::group_to_multiset_ensures, vstd::multiset::group_multiset_axioms;

    let t = s.insert(p, a);
    assert(t.remove(p) =~= s);
    assert(t[p] == a);
    assert(t.contains(a));
}

/// The names in ascending order.
pub(crate) fn sort_names(v: Vec<Vec<char>>) -> (r: Vec<Vec<char>>)
    ensures
        is_sorted(char_views(r@)),
        char_views(r@).to_multiset() =~= char_views(v@).to_multiset(),
{
    broadcast use vstd::seq_lib::group_to_multiset_ensures, vstd::multiset::group_multiset_axioms;

    let ghost orig = char_views(v@);
    let mut rest = v;
    let mut out: Vec<Vec<char>> = Vec::new();
    assert(char_views(out@) =~= Seq::<Seq<char>>::empty());
    while rest.len() > 0
        invariant
            is_sorted(char_views(out@)),
            char_views(out@).to_multiset().add(char_views(rest@).to_multiset()) =~= orig.to_multiset(),
        decreases rest@.len(),
    {
        let ghost before = rest@;
        let x = rest.pop().unwrap();
        assert(char_views(before) =~= char_views(rest@).push(x@));
        proof {
            char_views(rest@).to_multiset_ensures();
        }
        let ghost outs = char_views(out@);
        let mut p: usize = 0;
        while p < out.len() && name_le_exec(out[p].as_slice(), x.as_slice())
            invariant
                p <= out@.len(),
                outs == char_views(out@),
                forall|k: int| 0 <= k < p ==> name_le(#[trigger] outs[k], x@),
            decreases out@.len() - p,
        {
            p = p + 1;
        }
        proof {
            if p < out@.len() {
                lemma_name_le_total(outs[p as int], x@);
                assert forall|k: int| p <= k < outs.len() implies name_le(x@, #[trigger] outs[k]) by {
                    if k > p {
                        lemma_name_le_transitive(x@, outs[p as int], outs[k]);
                    }
                }
            }
            lemma_insert_multiset(outs, p as int, x@);
        }
        out.insert(p, x);
        assert(char_views(out@) =~= outs.insert(p as int, x@));
        assert(char_views(out@).to_multiset() =~= outs.to_multiset().insert(x@));
        assert(is_sorted(char_views(out@))) by {
            let ns = char_views(out@);
            assert forall|i: int, j: int| 0 <= i < j < ns.len() implies name_le(
                #[trigger] ns[i],
                #[trigger] ns[j],
            ) by {
                if j < p {
                } else if j == p {
                } else if i < p {
                    assert(name_le(outs[i], x@));
                    lemma_name_le_transitive(outs[i], x@, outs[j - 1]);
                } else if i == p {
                } else {
                    assert(ns[i] == outs[i - 1] && ns[j] == outs[j - 1]);
                }
            }
        }
    }
    out
}

/// Packages whose removal may leave the device without its interface,
/// telephony or account services.
pub open spec fn critical_packages() -> Seq<Seq<char>> {
    seq![
        "com.android.systemui"@,
        "com.android.settings"@,
        "com.android.phone"@,
        "com.android.providers.settings"@,
        "com.android.providers.contacts"@,
        "com.android.vending"@,
        "com.google.android.gms"@,
        "com.android.inputmethod.latin"@,
        "com.android.launcher3"@,
    ]
}

/// Pre-installed packages that the bloatware scan looks for, in the order probed.
pub open spec fn known_bloatware() -> Seq<Seq<char>> {
    seq![
        "com.facebook.katana"@,
        "com.facebook.system"@,
        "com.facebook.appmanager"@,
        "com.facebook.services"@,
        "com.netflix.mediaclient"@,
        "com.spotify.music"@,
        "com.linkedin.android"@,
        "com.microsoft.office.excel"@,
        "com.microsoft.office.word"@,
        "com.microsoft.office.powerpoint"@,
        "com.microsoft.skype.raider"@,
        "com.android.bips"@,
        "com.android.bookmarkprovider"@,
        "com.android.dreams.basic"@,
        "com.android.dreams.phototable"@,
        "com.android.egg"@,
        "com.android.printspooler"@,
        "com.google.android.apps.docs"@,
        "com.google.android.apps.maps"@,
        "com.google.android.apps.photos"@,
        "com.google.android.apps.tachyon"@,
        "com.google.android.music"@,
        "com.google.android.videos"@,
        "com.google.android.youtube"@,
        "com.samsung.android.game.gamehome"@,
        "com.samsung.android.game.gametools"@,
        "com.samsung.android.bixby.agent"@,
        "com.samsung.android.app.spage"@,
        "com.samsung.android.messaging"@,
    ]
}

/// The views of a list of string literals.
pub open spec fn str_views(v: Seq<&str>) -> Seq<Seq<char>> {
    v.map_values(|x: &str| x@)
}

fn critical_list() -> (r: Vec<&'static str>)
    ensures
        str_views(r@) == critical_packages(),
{
    let r: Vec<&'static str> = vec![
            "com.android.systemui",
            "com.android.settings",
            "com.android.phone",
            "com.android.providers.settings",
            "com.android.providers.contacts",
            "com.android.vending",
            "com.google.android.gms",
            "com.android.inputmethod.latin",
            "com.android.launcher3",
        ];
    assert(str_views(r@) =~= critical_packages());
    r
}

fn bloatware_list() -> (r: Vec<&'static str>)
    ensures
        str_views(r@) == known_bloatware(),
{
    let r: Vec<&'static str> = vec![
            "com.facebook.katana",
            "com.facebook.system",
            "com.facebook.appmanager",
            "com.facebook.services",
            "com.netflix.mediaclient",
            "com.spotify.music",
            "com.linkedin.android",
            "com.microsoft.office.excel",
            "com.microsoft.office.word",
            "com.microsoft.office.powerpoint",
            "com.microsoft.skype.raider",
            "com.android.bips",
            "com.android.bookmarkprovider",
            "com.android.dreams.basic",
            "com.android.dreams.phototable",
            "com.android.egg",
            "com.android.printspooler",
            "com.google.android.apps.docs",
            "com.google.android.apps.maps",
            "com.google.android.apps.photos",
            "com.google.android.apps.tachyon",
            "com.google.android.music",
            "com.google.android.videos",
            "com.google.android.youtube",
            "com.samsung.android.game.gamehome",
            "com.samsung.android.game.gametools",
            "com.samsung.android.bixby.agent",
            "com.samsung.android.app.spage",
            "com.samsung.android.messaging",
        ];
    assert(str_views(r@) =~= known_bloatware());
    r
}

/// Whether two character sequences are equal.
pub fn same_chars(a: &[char], b: &[char]) -> (r: bool)
    ensures
        r == (a@ == b@),
{
    if a.len() != b.len() {
        return false;
    }
    let mut i: usize = 0;
    while i < a.len()
        invariant
            a@.len() == b@.len(),
            i <= a@.len(),
            forall|k: int| 0 <= k < i ==> a@[k] == b@[k],
        decreases a@.len() - i,
    {
        if a[i] != b[i] {
            return false;
        }
        i = i + 1;
    }
    assert(a@ =~= b@);
    true
}

/// Whether `name` is, exactly and with case kept, one of the critical packages.
pub fn is_critical(name: &str) -> (r: bool)
    ensures
        r == critical_packages().contains(name@),
{
    let list = critical_list();
    let n = chars_of(name);
    let mut i: usize = 0;
    while i < list.len()
        invariant
            i <= list@.len(),
            str_views(list@) == critical_packages(),
            n@ == name@,
            forall|k: int| 0 <= k < i ==> critical_packages()[k] != name@,
        decreases list@.len() - i,
    {
        let c = chars_of(list[i]);
        assert(c@ == critical_packages()[i as int]);
        if same_chars(c.as_slice(), n.as_slice()) {
            return true;
        }
        i = i + 1;
    }
    assert(!critical_packages().contains(name@)) by {
        if critical_packages().contains(name@) {
            let k = choose|k: int| 0 <= k < critical_packages().len() && critical_packages()[k] == name@;
            assert(critical_packages()[k] != name@);
        }
    }
    false
}

/// The names of the packages that the bloatware scan probes for, in order.
pub fn known_bloatware_names() -> (r: Vec<String>)
    ensures
        r@.map_values(|s: String| s@) == known_bloatware(),
{
    let list = bloatware_list();
    let mut r: Vec<String> = Vec::new();
    let mut i: usize = 0;
    while i < list.len()
        invariant
            i <= list@.len(),
            str_views(list@) == known_bloatware(),
            r@.len() == i,
            forall|k: int| 0 <= k < i ==> #[trigger] r@[k]@ == known_bloatware()[k],
        decreases list@.len() - i,
    {
        r.push(String::from_str(list[i]));
        i = i + 1;
    }
    assert(r@.map_values(|s: String| s@) =~= known_bloatware());
    r
}

/// One record of the catalog.
#[derive(Clone, Debug)]
pub struct Package {
    /// The package's reverse-domain name, such as `com.android.settings`.
    pub name: String,
    /// Found through a listing of the device's packages.
    pub is_system: bool,
    /// Chosen by the operator for removal.
    pub is_selected: bool,
}

/// The names of the records, in order.
pub open spec fn package_names(ps: Seq<Package>) -> Seq<Seq<char>> {
    ps.map_values(|p: Package| p.name@)
}

/// Every record was just listed: a system package, not selected.
pub open spec fn all_fresh(ps: Seq<Package>) -> bool {
    forall|i: int| 0 <= i < ps.len() ==> (#[trigger] ps[i]).is_system && !ps[i].is_selected
}

/// Fresh records for the given names, in their order.
pub(crate) fn fresh_packages(ns: Vec<Vec<char>>) -> (r: Vec<Package>)
    ensures
        package_names(r@) == char_views(ns@),
        all_fresh(r@),
{
    let mut r: Vec<Package> = Vec::new();
    let mut i: usize = 0;
    while i < ns.len()
        invariant
            i <= ns@.len(),
            r@.len() == i,
            forall|k: int| 0 <= k < i ==> #[trigger] r@[k].name@ == ns@[k]@,
            all_fresh(r@),
        decreases ns@.len() - i,
    {
        r.push(Package { name: crate::text::string_of(ns[i].as_slice()), is_system: true, is_selected: false });
        i = i + 1;
    }
    assert(package_names(r@) =~= char_views(ns@));
    r
}

/// The catalog of all packages in the output of a package listing: one fresh
/// record for each listed name, in ascending order of name.
pub fn catalog_from_listing(output: &str) -> (r: Vec<Package>)
    ensures
        is_sorted(package_names(r@)),
        package_names(r@).to_multiset() == listed_packages(output@).to_multiset(),
        all_fresh(r@),
{
    let names = package_name_chars(output);
    assert(char_views(names@) =~= listed_packages(output@));
    let sorted = sort_names(names);
    fresh_packages(sorted)
}

/// The answer of the bridge to an existence probe for one package.
#[derive(Clone, Debug)]
pub struct Probe {
    /// The package probed for.
    pub name: String,
    /// What the package listing filtered by that name printed.
    pub output: String,
}

/// The names that the probes found, each once, in the order first found.
pub open spec fn probes_found(ps: Seq<Probe>) -> Seq<Seq<char>>
    decreases ps.len(),
{
    if ps.len() == 0 {
        seq![]
    } else {
        let rest = probes_found(ps.drop_last());
        let p = ps.last();
        if contains(p.output@, p.name@) && !rest.contains(p.name@) {
            rest.push(p.name@)
        } else {
            rest
        }
    }
}

proof fn lemma_probes_found_unique(ps: Seq<Probe>)
    ensures
        probes_found(ps).no_duplicates(),
    decreases ps.len(),
{
    if ps.len() > 0 {
        lemma_probes_found_unique(ps.drop_last());
        let rest = probes_found(ps.drop_last());
        let p = ps.last();
        if contains(p.output@, p.name@) && !rest.contains(p.name@) {
            assert forall|i: int, j: int|
                0 <= i < rest.len() + 1 && 0 <= j < rest.len() + 1 && i != j implies rest.push(
                p.name@,
            )[i] != rest.push(p.name@)[j] by {
                if i == rest.len() {
                    assert(rest[j] != p.name@);
                } else if j == rest.len() {
                    assert(rest[i] != p.name@);
                }
            }
        }
    }
}

proof fn lemma_unique_kept(a: Seq<Seq<char>>, b: Seq<Seq<char>>)
    requires
        a.no_duplicates(),
        a.to_multiset() == b.to_multiset(),
    ensures
        b.no_duplicates(),
{
    a.lemma_multiset_has_no_duplicates();
    b.lemma_multiset_has_no_duplicates_conv();
}

fn holds_name(ns: &Vec<Vec<char>>, n: &[char]) -> (r: bool)
    ensures
        r == char_views(ns@).contains(n@),
{
    let mut i: usize = 0;
    while i < ns.len()
        invariant
            i <= ns@.len(),
            forall|k: int| 0 <= k < i ==> ns@[k]@ != n@,
        decreases ns@.len() - i,
    {
        if same_chars(ns[i].as_slice(), n) {
            assert(char_views(ns@)[i as int] == n@);
            return true;
        }
        i = i + 1;
    }
    assert(!char_views(ns@).contains(n@)) by {
        if char_views(ns@).contains(n@) {
            let k = choose|k: int| 0 <= k < ns@.len() && char_views(ns@)[k] == n@;
            assert(ns@[k]@ != n@);
        }
    }
    false
}

/// The bloatware catalog that the probes give: one fresh record for each name
/// whose probe output holds it, never two for one name, in ascending order.
pub fn catalog_from_probes(probes: &Vec<Probe>) -> (r: Vec<Package>)
    ensures
        is_sorted(package_names(r@)),
        package_names(r@).to_multiset() == probes_found(probes@).to_multiset(),
        package_names(r@).no_duplicates(),
        all_fresh(r@),
{
    let mut found: Vec<Vec<char>> = Vec::new();
    let mut i: usize = 0;
    while i < probes.len()
        invariant
            i <= probes@.len(),
            char_views(found@) == probes_found(probes@.subrange(0, i as int)),
        decreases probes@.len() - i,
    {
        assert(probes@.subrange(0, i + 1).drop_last() =~= probes@.subrange(0, i as int));
        let p = &probes[i];
        let name = chars_of(p.name.as_str());
        let out = chars_of(p.output.as_str());
        if contains_chars(out.as_slice(), name.as_slice()) && !holds_name(&found, name.as_slice()) {
            found.push(name);
            assert(char_views(found@) =~= probes_found(probes@.subrange(0, i + 1)));
        }
        i = i + 1;
    }
    assert(probes@.subrange(0, probes@.len() as int) =~= probes@);
    let sorted = sort_names(found);
    proof {
        lemma_probes_found_unique(probes@);
        lemma_unique_kept(probes_found(probes@), char_views(sorted@));
    }
    fresh_packages(sorted)
}

/// The lower-case form of a string, as `str::to_lowercase` gives it.
pub uninterp spec fn lower_of(s: Seq<char>) -> Seq<char>;

/// Relies on `str::to_lowercase`: the lower-case form, which depends on the
/// characters alone.
#[verifier::external_body]
fn lowercase(s: &str) -> (r: String)
    ensures
        r@ == lower_of(s@),
{
    s.to_lowercase()
}

/// A name matches a search term when the term, in lower case, occurs in the
/// name in lower case.
pub open spec fn matches_term(name: Seq<char>, term: Seq<char>) -> bool {
    contains(lower_of(name), lower_of(term))
}

/// Whether a name already in lower case holds a term already in lower case.
pub fn matches_folded(name_lower: &str, term_lower: &str) -> (r: bool)
    ensures
        r == contains(name_lower@, term_lower@),
{
    let n = chars_of(name_lower);
    let t = chars_of(term_lower);
    contains_chars(n.as_slice(), t.as_slice())
}

/// Whether `term` occurs in `name`, neither case counting.
pub fn matches_search(name: &str, term: &str) -> (r: bool)
    ensures
        r == matches_term(name@, term@),
{
    let n = lowercase(name);
    let t = lowercase(term);
    matches_folded(n.as_str(), t.as_str())
}

/// The listed names that match `term`, in the order listed.
pub open spec fn search_hits(names: Seq<Seq<char>>, term: Seq<char>) -> Seq<Seq<char>> {
    names.filter(|n: Seq<char>| matches_term(n, term))
}

/// The packages in the output of a package listing whose names match `term`,
/// as fresh records in the order listed. The result is a list of its own: no
/// catalog is read or changed.
pub fn search(output: &str, term: &str) -> (r: Vec<Package>)
    ensures
        package_names(r@) == search_hits(listed_packages(output@), term@),
        all_fresh(r@),
{
    let names = parse_package_names(output);
    let ghost all = listed_packages(output@);
    let ghost pred = |n: Seq<char>| matches_term(n, term@);
    let mut r: Vec<Package> = Vec::new();
    let mut i: usize = 0;
    assert(all.subrange(0, 0).filter(pred) =~= Seq::<Seq<char>>::empty()) by {
        reveal(Seq::filter);
    }
    while i < names.len()
        invariant
            i <= names@.len(),
            names@.len() == all.len(),
            all == listed_packages(output@),
            pred == (|n: Seq<char>| matches_term(n, term@)),
            forall|k: int| 0 <= k < names@.len() ==> #[trigger] names@[k]@ == all[k],
            package_names(r@) == all.subrange(0, i as int).filter(pred),
            all_fresh(r@),
        decreases names@.len() - i,
    {
        let ghost prev = all.subrange(0, i as int);
        assert(all.subrange(0, i + 1) =~= prev.push(all[i as int]));
        proof {
            prev.lemma_filter_push(all[i as int], pred);
        }
        let name = &names[i];
        if matches_search(name.as_str(), term) {
            let ghost before = r@;
            r.push(Package { name: name.clone(), is_system: true, is_selected: false });
            assert(package_names(r@) =~= package_names(before).push(name@));
        } else {
            assert(package_names(r@) =~= package_names(r@));
        }
        i = i + 1;
    }
    assert(all.subrange(0, all.len() as int) =~= all);
    r
}

} // verus!
