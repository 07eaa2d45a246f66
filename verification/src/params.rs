//! Verified operations on name/value pair lists: the order used for
//! serialization, last-write-wins updates, filtering and sorting.

use vstd::prelude::*;
use vstd::relations::{sorted_by, total_ordering};
use vstd::seq_lib::group_to_multiset_ensures;
use vstd::seq_lib::lemma_sorted_unique;
use vstd::string::StringExecFns;

use crate::text::{lemma_lex_le_antisymmetric, lemma_lex_le_total, lemma_lex_le_transitive,
    lex_le, str_le};

verus! {

/// The view of one owned name/value pair.
pub open spec fn pair_view(p: (String, String)) -> (Seq<char>, Seq<char>) {
    (p.0@, p.1@)
}

/// The view of a list of owned name/value pairs.
pub open spec fn pairs_view(v: Seq<(String, String)>) -> Seq<(Seq<char>, Seq<char>)> {
    v.map_values(|p: (String, String)| pair_view(p))
}

/// Pairs ordered by name, ties broken by value, both lexicographically.
pub open spec fn param_le(p: (Seq<char>, Seq<char>), q: (Seq<char>, Seq<char>)) -> bool {
    if p.0 == q.0 {
        lex_le(p.1, q.1)
    } else {
        lex_le(p.0, q.0)
    }
}

/// `param_le` as a relation value, for use with `sort_by`.
pub open spec fn param_order() -> spec_fn(
    (Seq<char>, Seq<char>),
    (Seq<char>, Seq<char>),
) -> bool {
    |p: (Seq<char>, Seq<char>), q: (Seq<char>, Seq<char>)| param_le(p, q)
}

/// No two pairs in the list share a name.
pub open spec fn names_unique(ps: Seq<(Seq<char>, Seq<char>)>) -> bool {
    forall|i: int, j: int| 0 <= i < j < ps.len() ==> ps[i].0 != ps[j].0
}

/// The pair order is a total ordering, as `sort_by` requires.
pub proof fn lemma_param_order_total()
    ensures
        total_ordering(param_order()),
{
    let leq = param_order();
    assert forall|p: (Seq<char>, Seq<char>)| #[trigger] leq(p, p) by {
        lemma_lex_le_total(p.1, p.1);
    }
    assert forall|p: (Seq<char>, Seq<char>), q: (Seq<char>, Seq<char>)|
        #[trigger] leq(p, q) && #[trigger] leq(q, p) implies p == q by {
        if p.0 == q.0 {
            lemma_lex_le_antisymmetric(p.1, q.1);
        } else {
            lemma_lex_le_antisymmetric(p.0, q.0);
        }
    }
    assert forall|p: (Seq<char>, Seq<char>), q: (Seq<char>, Seq<char>), r: (Seq<char>, Seq<char>)|
        #[trigger] leq(p, q) && #[trigger] leq(q, r) implies leq(p, r) by {
        if p.0 == q.0 && q.0 == r.0 {
            lemma_lex_le_transitive(p.1, q.1, r.1);
        } else if p.0 != q.0 && q.0 != r.0 {
            lemma_lex_le_transitive(p.0, q.0, r.0);
            if p.0 == r.0 {
                lemma_lex_le_antisymmetric(p.0, q.0);
            }
        }
    }
    assert forall|p: (Seq<char>, Seq<char>), q: (Seq<char>, Seq<char>)|
        #[trigger] leq(p, q) || #[trigger] leq(q, p) by {
        if p.0 == q.0 {
            lemma_lex_le_total(p.1, q.1);
        } else {
            lemma_lex_le_total(p.0, q.0);
        }
    }
}

/// Tests two strings for equality of their character sequences.
pub fn str_eq(a: &str, b: &str) -> (r: bool)
    ensures
        r == (a@ == b@),
{
    let le1 = str_le(a, b);
    let le2 = str_le(b, a);
    proof {
        if le1 && le2 {
            lemma_lex_le_antisymmetric(a@, b@);
        }
        lemma_lex_le_total(a@, a@);
    }
    le1 && le2
}

/// Compares two owned pairs in the order given by `param_le`.
fn pair_le(a: &(String, String), b: &(String, String)) -> (r: bool)
    ensures
        r == param_le(pair_view(*a), pair_view(*b)),
{
    if str_eq(a.0.as_str(), b.0.as_str()) {
        str_le(a.1.as_str(), b.1.as_str())
    } else {
        str_le(a.0.as_str(), b.0.as_str())
    }
}

/// `ps` with every pair named `name` removed, the order of the rest kept.
pub open spec fn remove_name(
    ps: Seq<(Seq<char>, Seq<char>)>,
    name: Seq<char>,
) -> Seq<(Seq<char>, Seq<char>)>
    decreases ps.len(),
{
    if ps.len() == 0 {
        Seq::empty()
    } else if ps.last().0 == name {
        remove_name(ps.drop_last(), name)
    } else {
        remove_name(ps.drop_last(), name).push(ps.last())
    }
}

/// Last-write-wins insertion: any pair already named `name` is dropped and
/// the new pair is appended.
pub open spec fn upsert(
    ps: Seq<(Seq<char>, Seq<char>)>,
    name: Seq<char>,
    value: Seq<char>,
) -> Seq<(Seq<char>, Seq<char>)> {
    remove_name(ps, name).push((name, value))
}

/// No pair named `name` survives `remove_name`.
pub proof fn lemma_remove_name_no_name(ps: Seq<(Seq<char>, Seq<char>)>, name: Seq<char>)
    ensures
        forall|i: int|
            0 <= i < remove_name(ps, name).len() ==> #[trigger] remove_name(ps, name)[i].0
                != name,
    decreases ps.len(),
{
    if ps.len() > 0 {
        lemma_remove_name_no_name(ps.drop_last(), name);
        let rest = remove_name(ps.drop_last(), name);
        let r = remove_name(ps, name);
        assert forall|i: int| 0 <= i < r.len() implies r[i].0 != name by {
            if ps.last().0 == name {
                assert(rest[i].0 != name);
            } else if i < rest.len() {
                assert(r[i] == rest[i]);
                assert(rest[i].0 != name);
            } else {
                assert(r[i] == ps.last());
            }
        }
    }
}

/// Every pair in `remove_name`'s result comes from the input list.
pub proof fn lemma_remove_name_contains(ps: Seq<(Seq<char>, Seq<char>)>, name: Seq<char>)
    ensures
        forall|x: (Seq<char>, Seq<char>)| #[trigger] remove_name(ps, name).contains(x)
            ==> ps.contains(x),
    decreases ps.len(),
{
    if ps.len() > 0 {
        lemma_remove_name_contains(ps.drop_last(), name);
        assert forall|x: (Seq<char>, Seq<char>)| #[trigger] remove_name(ps, name).contains(
            x,
        ) implies ps.contains(x) by {
            let rest = remove_name(ps.drop_last(), name);
            if ps.last().0 == name {
                assert(rest.contains(x));
                assert(ps.drop_last().contains(x));
                let j = choose|j: int|
                    0 <= j < ps.drop_last().len() && ps.drop_last()[j] == x;
                assert(ps[j] == x);
            } else {
                let r = remove_name(ps, name);
                let i = choose|i: int| 0 <= i < r.len() && r[i] == x;
                if i < rest.len() {
                    assert(rest[i] == x);
                    assert(rest.contains(x));
                    assert(ps.drop_last().contains(x));
                    let j = choose|j: int|
                        0 <= j < ps.drop_last().len() && ps.drop_last()[j] == x;
                    assert(ps[j] == x);
                } else {
                    assert(x == ps.last());
                    assert(ps[ps.len() - 1] == x);
                }
            }
        }
    }
}

/// `remove_name` keeps distinct names distinct.
pub proof fn lemma_remove_name_unique(ps: Seq<(Seq<char>, Seq<char>)>, name: Seq<char>)
    requires
        names_unique(ps),
    ensures
        names_unique(remove_name(ps, name)),
    decreases ps.len(),
{
    if ps.len() > 0 {
        assert(names_unique(ps.drop_last()));
        lemma_remove_name_unique(ps.drop_last(), name);
        if ps.last().0 != name {
            lemma_remove_name_contains(ps.drop_last(), name);
            let rest = remove_name(ps.drop_last(), name);
            let r = remove_name(ps, name);
            assert forall|i: int, j: int| 0 <= i < j < r.len() implies r[i].0 != r[j].0 by {
                if j == r.len() - 1 {
                    assert(rest.contains(rest[i]));
                    assert(ps.drop_last().contains(rest[i]));
                    let k = choose|k: int|
                        0 <= k < ps.drop_last().len() && ps.drop_last()[k] == rest[i];
                    assert(ps[k].0 != ps[ps.len() - 1].0);
                }
            }
        }
    }
}

/// A pair with a different name survives `remove_name`.
pub proof fn lemma_remove_name_keeps(ps: Seq<(Seq<char>, Seq<char>)>, name: Seq<char>)
    ensures
        forall|x: (Seq<char>, Seq<char>)|
            #[trigger] ps.contains(x) && x.0 != name ==> remove_name(ps, name).contains(x),
    decreases ps.len(),
{
    if ps.len() > 0 {
        lemma_remove_name_keeps(ps.drop_last(), name);
        assert forall|x: (Seq<char>, Seq<char>)| #[trigger] ps.contains(x) && x.0
            != name implies remove_name(ps, name).contains(x) by {
            let i = choose|i: int| 0 <= i < ps.len() && ps[i] == x;
            let rest = remove_name(ps.drop_last(), name);
            if i < ps.len() - 1 {
                assert(ps.drop_last()[i] == x);
                assert(ps.drop_last().contains(x));
                assert(rest.contains(x));
                if ps.last().0 != name {
                    let j = choose|j: int| 0 <= j < rest.len() && rest[j] == x;
                    assert(remove_name(ps, name)[j] == x);
                }
            } else {
                assert(x == ps.last());
                assert(remove_name(ps, name).last() == x);
            }
        }
    }
}

/// Two lists with the same pairs: if names are unique in one, they are
/// unique in the other.
pub proof fn lemma_names_unique_permutation(
    a: Seq<(Seq<char>, Seq<char>)>,
    b: Seq<(Seq<char>, Seq<char>)>,
)
    requires
        a.to_multiset() == b.to_multiset(),
        names_unique(a),
    ensures
        names_unique(b),
{
    broadcast use group_to_multiset_ensures;

    assert(a.no_duplicates());
    a.lemma_multiset_has_no_duplicates();
    b.lemma_multiset_has_no_duplicates_conv();
    assert forall|i: int, j: int| 0 <= i < j < b.len() implies b[i].0 != b[j].0 by {
        if b[i].0 == b[j].0 {
            assert(b[i] != b[j]);
            assert(b.contains(b[i]));
            assert(b.contains(b[j]));
            assert(b.to_multiset().count(b[i]) > 0);
            assert(b.to_multiset().count(b[j]) > 0);
            assert(a.contains(b[i]));
            assert(a.contains(b[j]));
            let k1 = choose|k: int| 0 <= k < a.len() && a[k] == b[i];
            let k2 = choose|k: int| 0 <= k < a.len() && a[k] == b[j];
            assert(a[k1].0 != a[k2].0);
        }
    }
}

/// A last-write-wins insertion keeps names distinct.
pub proof fn lemma_upsert_unique(
    ps: Seq<(Seq<char>, Seq<char>)>,
    name: Seq<char>,
    value: Seq<char>,
)
    requires
        names_unique(ps),
    ensures
        names_unique(upsert(ps, name, value)),
{
    lemma_remove_name_unique(ps, name);
    lemma_remove_name_no_name(ps, name);
    let rest = remove_name(ps, name);
    let r = upsert(ps, name, value);
    assert forall|i: int, j: int| 0 <= i < j < r.len() implies r[i].0 != r[j].0 by {
        if j == r.len() - 1 {
            assert(rest[i].0 != name);
        }
    }
}

/// Removes every pair named `name`.
pub fn remove_param(v: &Vec<(String, String)>, name: &str) -> (r: Vec<(String, String)>)
    ensures
        pairs_view(r@) == remove_name(pairs_view(v@), name@),
{
    let mut out: Vec<(String, String)> = Vec::new();
    let mut i: usize = 0;
    while i < v.len()
        invariant
            i <= v.len(),
            pairs_view(out@) == remove_name(pairs_view(v@.take(i as int)), name@),
        decreases v.len() - i,
    {
        let ghost pre = pairs_view(v@.take(i as int));
        let ghost cur = pairs_view(v@.take(i + 1));
        proof {
            assert(cur.drop_last() =~= pre);
            assert(cur.last() == pair_view(v@[i as int]));
        }
        if !str_eq(v[i].0.as_str(), name) {
            out.push((v[i].0.clone(), v[i].1.clone()));
            proof {
                assert(remove_name(cur, name@) == remove_name(pre, name@).push(cur.last()));
                assert(pairs_view(out@) =~= remove_name(pre, name@).push(cur.last()));
            }
        } else {
            proof {
                assert(remove_name(cur, name@) == remove_name(pre, name@));
            }
        }
        i = i + 1;
    }
    proof {
        assert(v@.take(v@.len() as int) =~= v@);
    }
    out
}

/// Removes pairs named `name`, then appends `(name, value)`.
pub fn upsert_param(v: &Vec<(String, String)>, name: &str, value: &str) -> (r: Vec<
    (String, String),
>)
    ensures
        pairs_view(r@) == upsert(pairs_view(v@), name@, value@),
{
    let mut out = remove_param(v, name);
    out.push((name.to_owned(), value.to_owned()));
    proof {
        assert(pairs_view(out@) =~= remove_name(pairs_view(v@), name@).push((name@, value@)));
    }
    out
}

/// The first position in a sorted list at which `p` can be inserted so the
/// list stays sorted.
fn insert_pos(out: &Vec<(String, String)>, p: &(String, String)) -> (j: usize)
    ensures
        j <= out.len(),
        forall|k: int| 0 <= k < j ==> param_le(pairs_view(out@)[k], pair_view(*p)),
        j < out.len() ==> !param_le(pairs_view(out@)[j as int], pair_view(*p)),
{
    let mut j: usize = 0;
    while j < out.len()
        invariant
            j <= out.len(),
            forall|k: int| 0 <= k < j ==> param_le(pairs_view(out@)[k], pair_view(*p)),
        decreases out.len() - j,
    {
        if !pair_le(&out[j], p) {
            return j;
        }
        j = j + 1;
    }
    j
}

/// Inserts `p` into a sorted list, keeping it sorted.
fn insert_sorted(out: &mut Vec<(String, String)>, p: (String, String))
    requires
        sorted_by(pairs_view(old(out)@), param_order()),
    ensures
        sorted_by(pairs_view(final(out)@), param_order()),
        pairs_view(final(out)@).to_multiset() == pairs_view(old(out)@).to_multiset().insert(
            pair_view(p),
        ),
{
    broadcast use group_to_multiset_ensures;

    let ghost olds = pairs_view(out@);
    let ghost pv = pair_view(p);
    let j = insert_pos(out, &p);
    out.insert(j, p);
    proof {
        lemma_param_order_total();
        let news = pairs_view(out@);
        assert(news =~= olds.insert(j as int, pv));
        assert(news.to_multiset() == olds.to_multiset().insert(pv));
        let leq = param_order();
        assert forall|x: int, y: int| 0 <= x < y < news.len() implies #[trigger] leq(
            news[x],
            news[y],
        ) by {
            if y < j {
                assert(leq(olds[x], olds[y]));
            } else if x < j && y == j {
                assert(leq(olds[x], pv));
            } else if x < j && y > j {
                assert(leq(olds[x], olds[y - 1]));
            } else if x == j {
                assert(!leq(olds[j as int], pv));
                assert(leq(pv, olds[j as int]));
                if y - 1 > j {
                    assert(leq(olds[j as int], olds[y - 1]));
                }
                assert(leq(pv, olds[y - 1]));
            } else {
                assert(leq(olds[x - 1], olds[y - 1]));
            }
        }
    }
}

/// The query-string form `name1=value1&name2=value2&...` of a pair list.
pub open spec fn join_params(ps: Seq<(Seq<char>, Seq<char>)>) -> Seq<char>
    decreases ps.len(),
{
    if ps.len() == 0 {
        Seq::empty()
    } else if ps.len() == 1 {
        ps[0].0 + seq!['='] + ps[0].1
    } else {
        join_params(ps.drop_last()) + seq!['&'] + ps.last().0 + seq!['='] + ps.last().1
    }
}

/// Serializes a pair list as `name1=value1&name2=value2&...`.
pub fn join_query(ps: &Vec<(String, String)>) -> (r: String)
    ensures
        r@ == join_params(pairs_view(ps@)),
{
    let mut out = String::new();
    let mut i: usize = 0;
    while i < ps.len()
        invariant
            i <= ps@.len(),
            out@ == join_params(pairs_view(ps@.take(i as int))),
        decreases ps@.len() - i,
    {
        if i > 0 {
            out.append("&");
        }
        out.append(ps[i].0.as_str());
        out.append("=");
        out.append(ps[i].1.as_str());
        proof {
            reveal_strlit("&");
            reveal_strlit("=");
            let pv1 = pairs_view(ps@.take(i + 1));
            assert(pv1.drop_last() =~= pairs_view(ps@.take(i as int)));
            assert(pv1.last() == pair_view(ps@[i as int]));
            if i > 0 {
                assert(out@ =~= join_params(pv1.drop_last()) + seq!['&'] + pv1.last().0
                    + seq!['='] + pv1.last().1);
            } else {
                assert(pv1.len() == 1);
                assert(out@ =~= pv1[0].0 + seq!['='] + pv1[0].1);
            }
        }
        i = i + 1;
    }
    proof {
        assert(ps@.take(ps@.len() as int) =~= ps@);
    }
    out
}

/// The canonical header block: one `name:value\n` line per pair.
pub open spec fn join_headers(hs: Seq<(Seq<char>, Seq<char>)>) -> Seq<char>
    decreases hs.len(),
{
    if hs.len() == 0 {
        Seq::empty()
    } else {
        join_headers(hs.drop_last()) + hs.last().0 + seq![':'] + hs.last().1 + seq!['\n']
    }
}

/// Serializes a pair list as `name:value\n` lines.
pub fn join_header_lines(hs: &Vec<(String, String)>) -> (r: String)
    ensures
        r@ == join_headers(pairs_view(hs@)),
{
    let mut out = String::new();
    let mut i: usize = 0;
    while i < hs.len()
        invariant
            i <= hs@.len(),
            out@ == join_headers(pairs_view(hs@.take(i as int))),
        decreases hs@.len() - i,
    {
        out.append(hs[i].0.as_str());
        out.append(":");
        out.append(hs[i].1.as_str());
        out.append("\n");
        proof {
            reveal_strlit(":");
            reveal_strlit("\n");
            let pv1 = pairs_view(hs@.take(i + 1));
            assert(pv1.drop_last() =~= pairs_view(hs@.take(i as int)));
            assert(pv1.last() == pair_view(hs@[i as int]));
            assert(out@ =~= join_headers(pv1.drop_last()) + pv1.last().0 + seq![':']
                + pv1.last().1 + seq!['\n']);
        }
        i = i + 1;
    }
    proof {
        assert(hs@.take(hs@.len() as int) =~= hs@);
    }
    out
}

/// The pairs whose name begins with `prefix`, their order kept.
pub open spec fn filter_prefixed(
    ps: Seq<(Seq<char>, Seq<char>)>,
    prefix: Seq<char>,
) -> Seq<(Seq<char>, Seq<char>)>
    decreases ps.len(),
{
    if ps.len() == 0 {
        Seq::empty()
    } else if prefix.is_prefix_of(ps.last().0) {
        filter_prefixed(ps.drop_last(), prefix).push(ps.last())
    } else {
        filter_prefixed(ps.drop_last(), prefix)
    }
}

/// Keeps the pairs whose name begins with `prefix`.
pub fn filter_prefixed_pairs(v: &Vec<(String, String)>, prefix: &str) -> (r: Vec<
    (String, String),
>)
    ensures
        pairs_view(r@) == filter_prefixed(pairs_view(v@), prefix@),
{
    let mut out: Vec<(String, String)> = Vec::new();
    let mut i: usize = 0;
    while i < v.len()
        invariant
            i <= v@.len(),
            pairs_view(out@) == filter_prefixed(pairs_view(v@.take(i as int)), prefix@),
        decreases v@.len() - i,
    {
        let ghost pre = pairs_view(v@.take(i as int));
        let ghost cur = pairs_view(v@.take(i + 1));
        proof {
            assert(cur.drop_last() =~= pre);
            assert(cur.last() == pair_view(v@[i as int]));
        }
        if crate::text::str_starts_with(v[i].0.as_str(), prefix) {
            out.push((v[i].0.clone(), v[i].1.clone()));
            proof {
                assert(filter_prefixed(cur, prefix@) == filter_prefixed(pre, prefix@).push(
                    cur.last(),
                ));
                assert(pairs_view(out@) =~= filter_prefixed(pre, prefix@).push(cur.last()));
            }
        } else {
            proof {
                assert(filter_prefixed(cur, prefix@) == filter_prefixed(pre, prefix@));
            }
        }
        i = i + 1;
    }
    proof {
        assert(v@.take(v@.len() as int) =~= v@);
    }
    out
}

/// Sorts a pair list in the order given by `param_le`.
pub fn sort_params(v: &Vec<(String, String)>) -> (r: Vec<(String, String)>)
    ensures
        pairs_view(r@) == pairs_view(v@).sort_by(param_order()),
{
    broadcast use group_to_multiset_ensures;

    let mut out: Vec<(String, String)> = Vec::new();
    let mut i: usize = 0;
    while i < v.len()
        invariant
            i <= v.len(),
            sorted_by(pairs_view(out@), param_order()),
            pairs_view(out@).to_multiset() == pairs_view(v@.take(i as int)).to_multiset(),
        decreases v.len() - i,
    {
        let p = (v[i].0.clone(), v[i].1.clone());
        let ghost pv = pair_view(p);
        proof {
            assert(pairs_view(v@.take(i + 1)) =~= pairs_view(v@.take(i as int)).push(pv));
        }
        insert_sorted(&mut out, p);
        proof {
            vstd::seq_lib::to_multiset_build(pairs_view(v@.take(i as int)), pv);
        }
        i = i + 1;
    }
    proof {
        assert(v@.take(v@.len() as int) =~= v@);
        lemma_param_order_total();
        pairs_view(v@).lemma_sort_by_ensures(param_order());
        lemma_sorted_unique(pairs_view(out@), pairs_view(v@).sort_by(param_order()), param_order());
    }
    out
}

} // verus!
