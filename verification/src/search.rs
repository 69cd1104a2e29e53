use vstd::prelude::*;
use vstd::string::*;

use crate::package_info::PackageInfo;
use crate::selection::{ids_contain, ids_view};
use crate::text::{
    chars_of, is_word, lemma_text_less_order, lowercase, occurs_at, occurs_at_exec, occurs_in,
    occurs_in_exec, push_digits, decimal, same_chars, text_less, text_less_exec, to_lowercase, trim,
    trimmed, word_bounds, is_space,
};

verus! {

/// A package that matches a search: its index in the catalogue, and how well its name or id
/// matches the whole query (0 best, 3 worst).
#[derive(Debug, Clone, Copy, PartialEq, Eq, Structural)]
pub struct SearchHit {
    pub score: u8,
    pub index: usize,
}

/// A keyword of a query hits a package when it occurs in its name, id or description, all
/// taken in lower case.
pub open spec fn keyword_hits(keyword: Seq<char>, p: PackageInfo) -> bool {
    ||| occurs_in(lowercase(p.name@), keyword)
    ||| occurs_in(lowercase(p.id@), keyword)
    ||| occurs_in(lowercase(p.description@), keyword)
}

/// A package matches a query (in lower case) when every word of the query hits it.
pub open spec fn matches_query(q: Seq<char>, p: PackageInfo) -> bool {
    forall|i: int, j: int| #[trigger] is_word(q, i, j) ==> keyword_hits(q.subrange(i, j), p)
}

/// How well a package matches a query (in lower case): 0 when its name or id is the query,
/// 1 when one starts with it, 2 when one contains it, 3 otherwise.
pub open spec fn match_score(q: Seq<char>, p: PackageInfo) -> u8 {
    let name = lowercase(p.name@);
    let id = lowercase(p.id@);
    if name == q || id == q {
        0
    } else if occurs_at(name, q, 0) || occurs_at(id, q, 0) {
        1
    } else if occurs_in(name, q) || occurs_in(id, q) {
        2
    } else {
        3
    }
}

/// The order of the results: by score, then by the lower-case name, then by the place in the
/// catalogue (the sort is stable).
pub open spec fn hit_less(packages: Seq<PackageInfo>, a: SearchHit, b: SearchHit) -> bool {
    let na = lowercase(packages[a.index as int].name@);
    let nb = lowercase(packages[b.index as int].name@);
    ||| a.score < b.score
    ||| a.score == b.score && text_less(na, nb)
    ||| a.score == b.score && na == nb && a.index < b.index
}

/// `hits` is what a search for `query` in `packages` finds: exactly the matching packages, each
/// once with its score, in the order of `hit_less`.
pub open spec fn is_search_result(packages: Seq<PackageInfo>, query: Seq<char>, hits: Seq<SearchHit>) -> bool {
    let q = lowercase(query);
    &&& forall|k: int| 0 <= k < hits.len() ==> {
        &&& (#[trigger] hits[k]).index < packages.len()
        &&& matches_query(q, packages[hits[k].index as int])
        &&& hits[k].score == match_score(q, packages[hits[k].index as int])
    }
    &&& forall|i: int| 0 <= i < packages.len() && matches_query(q, #[trigger] packages[i]) ==> exists|k: int|
        0 <= k < hits.len() && hits[k].index == i
    &&& forall|k1: int, k2: int| 0 <= k1 < k2 < hits.len() ==> hit_less(packages, #[trigger] hits[k1], #[trigger] hits[k2])
}

/// A search finds every package in which each word of the lower-case query occurs in the
/// package's lower-case name, lower-case id or lower-case description.
pub proof fn lemma_search_finds_word_matches(packages: Seq<PackageInfo>, query: Seq<char>, hits: Seq<SearchHit>, i: int)
    requires
        is_search_result(packages, query, hits),
        0 <= i < packages.len(),
        forall|a: int, b: int| #[trigger] is_word(lowercase(query), a, b) ==> {
            ||| occurs_in(lowercase(packages[i].name@), lowercase(query).subrange(a, b))
            ||| occurs_in(lowercase(packages[i].id@), lowercase(query).subrange(a, b))
            ||| occurs_in(lowercase(packages[i].description@), lowercase(query).subrange(a, b))
        },
    ensures
        exists|k: int| 0 <= k < hits.len() && (#[trigger] hits[k]).index == i,
{
    assert(matches_query(lowercase(query), packages[i]));
    let k = choose|k: int| 0 <= k < hits.len() && hits[k].index == i;
    assert(hits[k].index == i);
}

/// A search finds only such packages: each word of the lower-case query occurs in the lower-case
/// name, id or description of every result.
pub proof fn lemma_search_finds_only_word_matches(packages: Seq<PackageInfo>, query: Seq<char>, hits: Seq<SearchHit>)
    requires
        is_search_result(packages, query, hits),
    ensures
        forall|k: int, a: int, b: int| 0 <= k < hits.len() && #[trigger] is_word(lowercase(query), a, b) ==> {
            let p = packages[(#[trigger] hits[k]).index as int];
            ||| occurs_in(lowercase(p.name@), lowercase(query).subrange(a, b))
            ||| occurs_in(lowercase(p.id@), lowercase(query).subrange(a, b))
            ||| occurs_in(lowercase(p.description@), lowercase(query).subrange(a, b))
        },
{
    assert forall|k: int, a: int, b: int| 0 <= k < hits.len() && #[trigger] is_word(lowercase(query), a, b) implies {
            let p = packages[(#[trigger] hits[k]).index as int];
            ||| occurs_in(lowercase(p.name@), lowercase(query).subrange(a, b))
            ||| occurs_in(lowercase(p.id@), lowercase(query).subrange(a, b))
            ||| occurs_in(lowercase(p.description@), lowercase(query).subrange(a, b))
        } by {
        assert(matches_query(lowercase(query), packages[hits[k].index as int]));
    }
}

/// How a result is scored against the lower-case query `q`, by its lower-case name and id: 0
/// when one of them is `q`, else 1 when one starts with `q`, else 2 when one contains `q`, else 3.
pub proof fn lemma_search_scores(packages: Seq<PackageInfo>, query: Seq<char>, hits: Seq<SearchHit>)
    requires
        is_search_result(packages, query, hits),
    ensures
        forall|k: int| 0 <= k < hits.len() ==> {
            let q = lowercase(query);
            let n = lowercase(packages[(#[trigger] hits[k]).index as int].name@);
            let d = lowercase(packages[hits[k].index as int].id@);
            &&& (hits[k].score == 0 <==> (n == q || d == q))
            &&& (hits[k].score <= 1 <==> (n == q || d == q || occurs_at(n, q, 0) || occurs_at(d, q, 0)))
            &&& (hits[k].score <= 2 <==> (n == q || d == q || occurs_at(n, q, 0) || occurs_at(d, q, 0)
                || occurs_in(n, q) || occurs_in(d, q)))
            &&& hits[k].score <= 3
        },
{
    assert forall|k: int| 0 <= k < hits.len() implies {
            let q = lowercase(query);
            let n = lowercase(packages[(#[trigger] hits[k]).index as int].name@);
            let d = lowercase(packages[hits[k].index as int].id@);
            &&& (hits[k].score == 0 <==> (n == q || d == q))
            &&& (hits[k].score <= 1 <==> (n == q || d == q || occurs_at(n, q, 0) || occurs_at(d, q, 0)))
            &&& (hits[k].score <= 2 <==> (n == q || d == q || occurs_at(n, q, 0) || occurs_at(d, q, 0)
                || occurs_in(n, q) || occurs_in(d, q)))
            &&& hits[k].score <= 3
        } by {
        let q = lowercase(query);
        let n = lowercase(packages[hits[k].index as int].name@);
        let d = lowercase(packages[hits[k].index as int].id@);
        if n == q {
            assert(occurs_at(n, q, 0)) by { assert(n.subrange(0, q.len() as int) =~= q); }
        }
        if d == q {
            assert(occurs_at(d, q, 0)) by { assert(d.subrange(0, q.len() as int) =~= q); }
        }
        if occurs_at(n, q, 0) {
            assert(occurs_in(n, q));
        }
        if occurs_at(d, q, 0) {
            assert(occurs_in(d, q));
        }
    }
}

/// The order of the results: by score first, whatever the names; among equal scores by
/// lower-case name; among equal names by place in the catalogue.
pub proof fn lemma_search_order(packages: Seq<PackageInfo>, query: Seq<char>, hits: Seq<SearchHit>)
    requires
        is_search_result(packages, query, hits),
    ensures
        forall|k1: int, k2: int| 0 <= k1 < k2 < hits.len() ==> {
            let n1 = lowercase(packages[(#[trigger] hits[k1]).index as int].name@);
            let n2 = lowercase(packages[(#[trigger] hits[k2]).index as int].name@);
            &&& hits[k1].score <= hits[k2].score
            &&& hits[k1].score == hits[k2].score ==> (text_less(n1, n2) || n1 == n2)
            &&& hits[k1].score == hits[k2].score && n1 == n2 ==> hits[k1].index < hits[k2].index
        },
{
    assert forall|k1: int, k2: int| 0 <= k1 < k2 < hits.len() implies {
            let n1 = lowercase(packages[(#[trigger] hits[k1]).index as int].name@);
            let n2 = lowercase(packages[(#[trigger] hits[k2]).index as int].name@);
            &&& hits[k1].score <= hits[k2].score
            &&& hits[k1].score == hits[k2].score ==> (text_less(n1, n2) || n1 == n2)
            &&& hits[k1].score == hits[k2].score && n1 == n2 ==> hits[k1].index < hits[k2].index
        } by {
        assert(hit_less(packages, hits[k1], hits[k2]));
        let n1 = lowercase(packages[hits[k1].index as int].name@);
        let n2 = lowercase(packages[hits[k2].index as int].name@);
        lemma_text_less_order(n1, n2, n2);
    }
}

/// A search shows every matching package once: no two results are the same package.
pub proof fn lemma_search_result_distinct(packages: Seq<PackageInfo>, query: Seq<char>, hits: Seq<SearchHit>)
    requires
        is_search_result(packages, query, hits),
    ensures
        forall|k1: int, k2: int| 0 <= k1 < hits.len() && 0 <= k2 < hits.len() && k1 != k2 ==>
            #[trigger] hits[k1].index != #[trigger] hits[k2].index,
{
    assert forall|k1: int, k2: int| 0 <= k1 < hits.len() && 0 <= k2 < hits.len() && k1 != k2 implies
        #[trigger] hits[k1].index != #[trigger] hits[k2].index by {
        let a = if k1 < k2 { k1 } else { k2 };
        let b = if k1 < k2 { k2 } else { k1 };
        assert(hit_less(packages, hits[a], hits[b]));
        if hits[a].index == hits[b].index {
            assert(hits[a] == hits[b]);
            lemma_hit_less_order(packages, hits[a], hits[b], hits[b]);
        }
    }
}

/// Two lists strictly ordered by the same asymmetric relation and holding the same elements are
/// the same list.
proof fn lemma_sorted_lists_equal<T>(less: spec_fn(T, T) -> bool, h1: Seq<T>, h2: Seq<T>)
    requires
        forall|a: T, b: T| #[trigger] less(a, b) ==> !less(b, a),
        forall|k1: int, k2: int| 0 <= k1 < k2 < h1.len() ==> #[trigger] less(h1[k1], h1[k2]),
        forall|k1: int, k2: int| 0 <= k1 < k2 < h2.len() ==> #[trigger] less(h2[k1], h2[k2]),
        forall|x: T| h1.contains(x) <==> h2.contains(x),
    ensures
        h1 == h2,
    decreases h1.len(),
{
    if h1.len() == 0 {
        if h2.len() > 0 {
            assert(h2.contains(h2[0]));
        }
        assert(h1 =~= h2);
    } else {
        assert(h1.contains(h1[0]));
        assert(h2.contains(h1[0]));
        assert(h2.contains(h2[0]));
        let j = choose|j: int| 0 <= j < h2.len() && h2[j] == h1[0];
        let i = choose|i: int| 0 <= i < h1.len() && h1[i] == h2[0];
        if j > 0 {
            assert(less(h2[0], h2[j]));
            if i > 0 {
                assert(less(h1[0], h1[i]));
            }
        }
        assert(h1[0] == h2[0]);
        let t1 = h1.drop_first();
        let t2 = h2.drop_first();
        assert forall|x: T| t1.contains(x) implies t2.contains(x) by {
            let k = choose|k: int| 0 <= k < t1.len() && t1[k] == x;
            assert(h1[k + 1] == x);
            assert(h1.contains(x));
            let m = choose|m: int| 0 <= m < h2.len() && h2[m] == x;
            assert(less(h1[0], h1[k + 1]));
            if m == 0 {
                assert(less(h1[0], h1[0]));
            }
            assert(t2[m - 1] == x);
        }
        assert forall|x: T| t2.contains(x) implies t1.contains(x) by {
            let k = choose|k: int| 0 <= k < t2.len() && t2[k] == x;
            assert(h2[k + 1] == x);
            assert(h2.contains(x));
            let m = choose|m: int| 0 <= m < h1.len() && h1[m] == x;
            assert(less(h2[0], h2[k + 1]));
            if m == 0 {
                assert(less(h2[0], h2[0]));
            }
            assert(t1[m - 1] == x);
        }
        assert forall|k1: int, k2: int| 0 <= k1 < k2 < t1.len() implies #[trigger] less(t1[k1], t1[k2]) by {
            assert(less(h1[k1 + 1], h1[k2 + 1]));
        }
        assert forall|k1: int, k2: int| 0 <= k1 < k2 < t2.len() implies #[trigger] less(t2[k1], t2[k2]) by {
            assert(less(h2[k1 + 1], h2[k2 + 1]));
        }
        lemma_sorted_lists_equal(less, t1, t2);
        assert(h1 =~= seq![h1[0]] + t1);
        assert(h2 =~= seq![h2[0]] + t2);
    }
}

/// The result of a search is determined by the catalogue and the query: any two lists that
/// meet `is_search_result` for them are the same list.
pub proof fn lemma_search_result_unique(packages: Seq<PackageInfo>, query: Seq<char>, h1: Seq<SearchHit>, h2: Seq<SearchHit>)
    requires
        is_search_result(packages, query, h1),
        is_search_result(packages, query, h2),
    ensures
        h1 == h2,
{
    let q = lowercase(query);
    let less = |a: SearchHit, b: SearchHit| hit_less(packages, a, b);
    assert forall|a: SearchHit, b: SearchHit| #[trigger] less(a, b) implies !less(b, a) by {
        lemma_hit_less_order(packages, a, b, b);
    }
    assert forall|x: SearchHit| h1.contains(x) implies h2.contains(x) by {
        let k = choose|k: int| 0 <= k < h1.len() && h1[k] == x;
        let i = h1[k].index as int;
        assert(matches_query(q, packages[i]));
        let j = choose|j: int| 0 <= j < h2.len() && h2[j].index == i;
        assert(h2[j] == x);
    }
    assert forall|x: SearchHit| h2.contains(x) implies h1.contains(x) by {
        let k = choose|k: int| 0 <= k < h2.len() && h2[k] == x;
        let i = h2[k].index as int;
        assert(matches_query(q, packages[i]));
        let j = choose|j: int| 0 <= j < h1.len() && h1[j].index == i;
        assert(h1[j] == x);
    }
    assert forall|k1: int, k2: int| 0 <= k1 < k2 < h1.len() implies #[trigger] less(h1[k1], h1[k2]) by {
        assert(hit_less(packages, h1[k1], h1[k2]));
    }
    assert forall|k1: int, k2: int| 0 <= k1 < k2 < h2.len() implies #[trigger] less(h2[k1], h2[k2]) by {
        assert(hit_less(packages, h2[k1], h2[k2]));
    }
    lemma_sorted_lists_equal(less, h1, h2);
}

proof fn lemma_hit_less_order(packages: Seq<PackageInfo>, a: SearchHit, b: SearchHit, c: SearchHit)
    ensures
        !hit_less(packages, a, a),
        hit_less(packages, a, b) && hit_less(packages, b, c) ==> hit_less(packages, a, c),
        a.index != b.index ==> hit_less(packages, a, b) || hit_less(packages, b, a),
        hit_less(packages, a, b) ==> !hit_less(packages, b, a),
{
    let na = lowercase(packages[a.index as int].name@);
    let nb = lowercase(packages[b.index as int].name@);
    let nc = lowercase(packages[c.index as int].name@);
    lemma_text_less_order(na, nb, nc);
    lemma_text_less_order(nb, na, nc);
    lemma_text_less_order(nb, nc, na);
    lemma_text_less_order(na, nc, nb);
}

fn sub_chars(v: &Vec<char>, i: usize, j: usize) -> (r: Vec<char>)
    requires
        i <= j <= v@.len(),
    ensures
        r@ == v@.subrange(i as int, j as int),
{
    let mut r: Vec<char> = Vec::new();
    let mut k: usize = i;
    while k < j
        invariant
            i <= k <= j,
            j <= v@.len(),
            r@ == v@.subrange(i as int, k as int),
        decreases j - k,
    {
        r.push(v[k]);
        k = k + 1;
        assert(r@ =~= v@.subrange(i as int, k as int));
    }
    r
}

/// The words of `q`, each as its own sequence of characters, with their bounds.
fn keywords(q: &Vec<char>) -> (r: (Vec<Vec<char>>, Vec<(usize, usize)>))
    ensures
        r.0@.len() == r.1@.len(),
        forall|k: int| 0 <= k < r.1.len() ==> is_word(q@, #[trigger] r.1@[k].0 as int, r.1@[k].1 as int),
        forall|k: int| 0 <= k < r.0.len() ==> (#[trigger] r.0@[k])@ == q@.subrange(r.1@[k].0 as int, r.1@[k].1 as int),
        forall|i: int, j: int| #[trigger] is_word(q@, i, j) ==> exists|k: int|
            0 <= k < r.1.len() && r.1@[k].0 == i && r.1@[k].1 == j,
{
    let bounds = word_bounds(q);
    let mut kws: Vec<Vec<char>> = Vec::new();
    let mut b: usize = 0;
    while b < bounds.len()
        invariant
            b <= bounds@.len(),
            kws@.len() == b,
            forall|k: int| 0 <= k < bounds.len() ==> is_word(q@, #[trigger] bounds@[k].0 as int, bounds@[k].1 as int),
            forall|k: int| 0 <= k < b ==> (#[trigger] kws@[k])@ == q@.subrange(bounds@[k].0 as int, bounds@[k].1 as int),
        decreases bounds@.len() - b,
    {
        let (i, j) = bounds[b];
        assert(is_word(q@, bounds@[b as int].0 as int, bounds@[b as int].1 as int));
        kws.push(sub_chars(q, i, j));
        b = b + 1;
    }
    (kws, bounds)
}

/// The characters of `s` in lower case.
fn lower_chars(s: &String) -> (v: Vec<char>)
    ensures
        v@ == lowercase(s@),
{
    let l = to_lowercase(s.as_str());
    chars_of(l.as_str())
}

/// Whether every keyword occurs in one of the three texts.
fn all_keywords_hit(kws: &Vec<Vec<char>>, name: &Vec<char>, id: &Vec<char>, desc: &Vec<char>) -> (r: bool)
    ensures
        r == forall|k: int| 0 <= k < kws.len() ==> {
            ||| occurs_in(name@, (#[trigger] kws@[k])@)
            ||| occurs_in(id@, kws@[k]@)
            ||| occurs_in(desc@, kws@[k]@)
        },
{
    let mut k: usize = 0;
    while k < kws.len()
        invariant
            k <= kws@.len(),
            forall|m: int| 0 <= m < k ==> {
                ||| occurs_in(name@, (#[trigger] kws@[m])@)
                ||| occurs_in(id@, kws@[m]@)
                ||| occurs_in(desc@, kws@[m]@)
            },
        decreases kws@.len() - k,
    {
        let kw = &kws[k];
        if !(occurs_in_exec(name, kw) || occurs_in_exec(id, kw) || occurs_in_exec(desc, kw)) {
            return false;
        }
        k = k + 1;
    }
    true
}

/// Scores a package whose lower-case name and id are given, against the lower-case query.
fn score_of(q: &Vec<char>, name: &Vec<char>, id: &Vec<char>) -> (s: u8)
    ensures
        s == (if name@ == q@ || id@ == q@ {
            0u8
        } else if occurs_at(name@, q@, 0) || occurs_at(id@, q@, 0) {
            1u8
        } else if occurs_in(name@, q@) || occurs_in(id@, q@) {
            2u8
        } else {
            3u8
        }),
{
    if same_chars(name, q) || same_chars(id, q) {
        0
    } else if occurs_at_exec(name, q, 0) || occurs_at_exec(id, q, 0) {
        1
    } else if occurs_in_exec(name, q) || occurs_in_exec(id, q) {
        2
    } else {
        3
    }
}

fn hit_less_exec(a: SearchHit, na: &Vec<char>, b: SearchHit, nb: &Vec<char>) -> (r: bool)
    ensures
        r == (a.score < b.score || (a.score == b.score && text_less(na@, nb@)) || (a.score == b.score
            && na@ == nb@ && a.index < b.index)),
{
    if a.score != b.score {
        a.score < b.score
    } else if text_less_exec(na, nb) {
        true
    } else {
        same_chars(na, nb) && a.index < b.index
    }
}

/// Whether `p` matches the lower-case query `qc`, whose words are `kws`, and if so its score
/// and its lower-case name.
fn check_package(qc: &Vec<char>, kws: &Vec<Vec<char>>, bounds: &Vec<(usize, usize)>, p: &PackageInfo) -> (r: Option<(u8, Vec<char>)>)
    requires
        kws@.len() == bounds@.len(),
        forall|k: int| 0 <= k < bounds.len() ==> is_word(qc@, #[trigger] bounds@[k].0 as int, bounds@[k].1 as int),
        forall|k: int| 0 <= k < kws.len() ==> (#[trigger] kws@[k])@ == qc@.subrange(bounds@[k].0 as int, bounds@[k].1 as int),
        forall|i: int, j: int| #[trigger] is_word(qc@, i, j) ==> exists|k: int|
            0 <= k < bounds.len() && bounds@[k].0 == i && bounds@[k].1 == j,
    ensures
        r is Some <==> matches_query(qc@, *p),
        r matches Some((s, name)) ==> s == match_score(qc@, *p) && name@ == lowercase(p.name@),
{
    let name = lower_chars(&p.name);
    let id = lower_chars(&p.id);
    let desc = lower_chars(&p.description);
    let all = all_keywords_hit(kws, &name, &id, &desc);
    proof {
        if all {
            assert forall|a: int, b: int| #[trigger] is_word(qc@, a, b) implies keyword_hits(qc@.subrange(a, b), *p) by {
                let k = choose|k: int| 0 <= k < bounds.len() && bounds@[k].0 == a && bounds@[k].1 == b;
                assert(kws@[k]@ == qc@.subrange(a, b));
                assert(occurs_in(name@, kws@[k]@) || occurs_in(id@, kws@[k]@) || occurs_in(desc@, kws@[k]@));
            }
        } else {
            let k = choose|k: int| 0 <= k < kws.len() && !{
                ||| occurs_in(name@, (#[trigger] kws@[k])@)
                ||| occurs_in(id@, kws@[k]@)
                ||| occurs_in(desc@, kws@[k]@)
            };
            let a: int = bounds@[k].0 as int;
            let b: int = bounds@[k].1 as int;
            assert(is_word(qc@, a, b));
            assert(!keyword_hits(qc@.subrange(a, b), *p));
        }
    }
    if all {
        let score: u8 = score_of(qc, &name, &id);
        Some((score, name))
    } else {
        None
    }
}

/// Inserts `hit`, whose index is past all those of `hits`, at its place in the order; returns the place.
fn insert_hit(
    Ghost(ps): Ghost<Seq<PackageInfo>>,
    hits: &mut Vec<SearchHit>,
    names: &mut Vec<Vec<char>>,
    hit: SearchHit,
    name: Vec<char>,
) -> (pos: usize)
    requires
        hit.index < ps.len(),
        name@ == lowercase(ps[hit.index as int].name@),
        old(names)@.len() == old(hits)@.len(),
        forall|k: int| 0 <= k < old(hits).len() ==> {
            &&& (#[trigger] old(hits)@[k]).index < hit.index
            &&& old(names)@[k]@ == lowercase(ps[old(hits)@[k].index as int].name@)
        },
        forall|k1: int, k2: int| 0 <= k1 < k2 < old(hits).len() ==> hit_less(ps, #[trigger] old(hits)@[k1], #[trigger] old(hits)@[k2]),
    ensures
        pos <= old(hits)@.len(),
        final(hits)@ == old(hits)@.insert(pos as int, hit),
        final(names)@ == old(names)@.insert(pos as int, name),
        forall|k1: int, k2: int| 0 <= k1 < k2 < final(hits).len() ==> hit_less(ps, #[trigger] final(hits)@[k1], #[trigger] final(hits)@[k2]),
{
    let mut pos: usize = 0;
    while pos < hits.len() && !hit_less_exec(hit, &name, hits[pos], &names[pos])
        invariant
            hits@ == old(hits)@,
            names@ == old(names)@,
            pos <= hits@.len(),
            names@.len() == hits@.len(),
            hit.index < ps.len(),
            name@ == lowercase(ps[hit.index as int].name@),
            forall|k: int| 0 <= k < hits.len() ==> {
                &&& (#[trigger] hits@[k]).index < hit.index
                &&& names@[k]@ == lowercase(ps[hits@[k].index as int].name@)
            },
            forall|k: int| 0 <= k < pos ==> !hit_less(ps, hit, #[trigger] hits@[k]),
        decreases hits@.len() - pos,
    {
        pos = pos + 1;
    }
    let ghost old_hits = hits@;
    proof {
        assert forall|k: int| 0 <= k < pos implies hit_less(ps, #[trigger] old_hits[k], hit) by {
            lemma_hit_less_order(ps, old_hits[k], hit, hit);
        }
        assert forall|k: int| pos <= k < old_hits.len() implies hit_less(ps, hit, #[trigger] old_hits[k]) by {
            lemma_hit_less_order(ps, hit, old_hits[pos as int], old_hits[k]);
        }
    }
    hits.insert(pos, hit);
    names.insert(pos, name);
    assert forall|k1: int, k2: int| 0 <= k1 < k2 < hits.len() implies hit_less(ps, #[trigger] hits@[k1], #[trigger] hits@[k2]) by {
        if k2 < pos {
            assert(hits@[k1] == old_hits[k1] && hits@[k2] == old_hits[k2]);
        } else if k2 == pos {
            assert(hits@[k1] == old_hits[k1]);
        } else if k1 < pos {
            assert(hits@[k1] == old_hits[k1] && hits@[k2] == old_hits[k2 - 1]);
            lemma_hit_less_order(ps, old_hits[k1], hit, old_hits[k2 - 1]);
        } else if k1 == pos {
            assert(hits@[k2] == old_hits[k2 - 1]);
        } else {
            assert(hits@[k1] == old_hits[k1 - 1] && hits@[k2] == old_hits[k2 - 1]);
        }
    }
    pos
}

/// Searches the catalogue for `query` (the trimmed text of the search entry), as the search
/// page does: the query and the package texts are taken in lower case, a package matches when
/// every word of the query occurs in its name, id or description, and the matches are ordered
/// by score, then by lower-case name, then by their place in the catalogue.
pub fn search_packages(packages: &Vec<PackageInfo>, query: &str) -> (hits: Vec<SearchHit>)
    ensures
        is_search_result(packages@, query@, hits@),
{
    let ghost ps = packages@;
    let q = to_lowercase(query);
    let qc = chars_of(q.as_str());
    let (kws, bounds) = keywords(&qc);
    let mut hits: Vec<SearchHit> = Vec::new();
    let mut names: Vec<Vec<char>> = Vec::new();
    let mut i: usize = 0;
    while i < packages.len()
        invariant
            ps == packages@,
            qc@ == lowercase(query@),
            i <= packages@.len(),
            kws@.len() == bounds@.len(),
            forall|k: int| 0 <= k < bounds.len() ==> is_word(qc@, #[trigger] bounds@[k].0 as int, bounds@[k].1 as int),
            forall|k: int| 0 <= k < kws.len() ==> (#[trigger] kws@[k])@ == qc@.subrange(bounds@[k].0 as int, bounds@[k].1 as int),
            forall|a: int, b: int| #[trigger] is_word(qc@, a, b) ==> exists|k: int|
                0 <= k < bounds.len() && bounds@[k].0 == a && bounds@[k].1 == b,
            names@.len() == hits@.len(),
            forall|k: int| 0 <= k < hits.len() ==> {
                &&& (#[trigger] hits@[k]).index < i
                &&& matches_query(qc@, ps[hits@[k].index as int])
                &&& hits@[k].score == match_score(qc@, ps[hits@[k].index as int])
                &&& names@[k]@ == lowercase(ps[hits@[k].index as int].name@)
            },
            forall|m: int| 0 <= m < i && matches_query(qc@, #[trigger] ps[m]) ==> exists|k: int|
                0 <= k < hits.len() && hits@[k].index == m,
            forall|k1: int, k2: int| 0 <= k1 < k2 < hits.len() ==> hit_less(ps, #[trigger] hits@[k1], #[trigger] hits@[k2]),
        decreases packages@.len() - i,
    {
        let checked = check_package(&qc, &kws, &bounds, &packages[i]);
        match checked {
            Some((score, name)) => {
                let hit = SearchHit { score, index: i };
                let ghost old_hits = hits@;
                let ghost old_names = names@;
                let pos: usize = insert_hit(Ghost(ps), &mut hits, &mut names, hit, name);
                assert forall|m: int| 0 <= m < i + 1 && matches_query(qc@, #[trigger] ps[m]) implies exists|k: int|
                    0 <= k < hits.len() && hits@[k].index == m by {
                    if m == i {
                        assert(hits@[pos as int].index == m);
                    } else {
                        let k = choose|k: int| 0 <= k < old_hits.len() && old_hits[k].index == m;
                        if k < pos {
                            assert(hits@[k] == old_hits[k]);
                        } else {
                            assert(hits@[k + 1] == old_hits[k]);
                        }
                    }
                }
                assert forall|k: int| 0 <= k < hits.len() implies {
                    &&& (#[trigger] hits@[k]).index < i + 1
                    &&& matches_query(qc@, ps[hits@[k].index as int])
                    &&& hits@[k].score == match_score(qc@, ps[hits@[k].index as int])
                    &&& names@[k]@ == lowercase(ps[hits@[k].index as int].name@)
                } by {
                    if k < pos {
                        assert(hits@[k] == old_hits[k]);
                        assert(names@[k] == old_names[k]);
                    } else if k > pos {
                        assert(hits@[k] == old_hits[k - 1]);
                        assert(names@[k] == old_names[k - 1]);
                    }
                }
            },
            None => {},
        }
        i = i + 1;
    }
    hits
}

/// What the search page shows for a query.
#[derive(Debug)]
pub enum SearchPage {
    /// The query is empty or only white space: the catalogue by sections is shown.
    Categories,
    /// No package matches: the empty page with this title.
    NoResults { title: String },
    /// The matching packages, in order, each with whether it is selected, under a summary line.
    Results { summary: String, hits: Vec<SearchHit>, selected: Vec<bool> },
}

/// The summary line above `count` results.
pub open spec fn summary_text(count: nat) -> Seq<char> {
    if count == 1 {
        "1 package found"@
    } else {
        decimal(count as int) + " packages found"@
    }
}

/// The title of the empty page for a (trimmed) query.
pub open spec fn no_results_title(query: Seq<char>) -> Seq<char> {
    "No packages found for \""@ + query + "\""@
}

/// The summary line above `count` results: `1 package found`, `3 packages found`.
pub fn summary_line(count: usize) -> (s: String)
    ensures
        s@ == summary_text(count as nat),
{
    if count == 1 {
        String::from_str("1 package found")
    } else {
        let mut s = String::new();
        push_digits(&mut s, count as u64);
        s.append(" packages found");
        s
    }
}

/// What the search page shows when the search entry holds `query`, with `selected` the ids of
/// the selected packages. The query is trimmed first; an empty query shows the catalogue.
pub fn search_page(packages: &Vec<PackageInfo>, query: &str, selected: &Vec<String>) -> (page: SearchPage)
    ensures
        ({
            let t = trim(query@);
            match page {
                SearchPage::Categories => t.len() == 0,
                SearchPage::NoResults { title } => {
                    &&& t.len() > 0
                    &&& title@ == no_results_title(t)
                    &&& forall|i: int| 0 <= i < packages@.len() ==> !matches_query(lowercase(t), #[trigger] packages@[i])
                },
                SearchPage::Results { summary, hits, selected: flags } => {
                    &&& t.len() > 0
                    &&& hits@.len() > 0
                    &&& is_search_result(packages@, t, hits@)
                    &&& summary@ == summary_text(hits@.len())
                    &&& flags@.len() == hits@.len()
                    &&& forall|k: int| 0 <= k < flags@.len() ==> #[trigger] flags@[k] == ids_view(selected@).contains(
                        packages@[hits@[k].index as int].id@)
                },
            }
        }),
{
    let t = trimmed(query);
    if t.as_str().unicode_len() == 0 {
        return SearchPage::Categories;
    }
    let hits = search_packages(packages, t.as_str());
    if hits.len() == 0 {
        let mut title = String::from_str("No packages found for \"");
        title.append(t.as_str());
        title.append("\"");
        assert forall|i: int| 0 <= i < packages@.len() implies !matches_query(lowercase(t@), #[trigger] packages@[i]) by {
            if matches_query(lowercase(t@), packages@[i]) {
                let k = choose|k: int| 0 <= k < hits@.len() && hits@[k].index == i;
            }
        }
        return SearchPage::NoResults { title };
    }
    let mut flags: Vec<bool> = Vec::new();
    let mut k: usize = 0;
    while k < hits.len()
        invariant
            k <= hits@.len(),
            flags@.len() == k,
            is_search_result(packages@, t@, hits@),
            forall|m: int| 0 <= m < k ==> #[trigger] flags@[m] == ids_view(selected@).contains(
                packages@[hits@[m].index as int].id@),
        decreases hits@.len() - k,
    {
        assert(hits@[k as int].index < packages@.len());
        let b = ids_contain(selected, &packages[hits[k].index].id);
        flags.push(b);
        k = k + 1;
    }
    let summary = summary_line(hits.len());
    SearchPage::Results { summary, hits, selected: flags }
}

} // verus!
