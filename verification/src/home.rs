//! The player showcase of the home page: which of a player's rankings it shows, and in
//! what order.
use crate::text::str_eq;
use crate::types::Title;
use vstd::prelude::*;
use vstd::string::StrSliceExecFns;

verus! {

/// One ranking of a player: its combination, title and place (its rating and percentage,
/// which are floating-point, are not held).
#[derive(Clone, Debug, PartialEq, Eq)]
pub struct RankSummary {
    pub patch: String,
    pub layout: Option<String>,
    pub category: Option<String>,
    pub title: Title,
    pub rank: i32,
}

/// `a` comes before `b` in the order of texts: at the first character where they differ
/// `a` has the smaller one, or `a` is a proper prefix of `b`.
pub open spec fn text_lt(a: Seq<char>, b: Seq<char>) -> bool
    decreases a.len(),
{
    if a.len() == 0 {
        b.len() > 0
    } else if b.len() == 0 {
        false
    } else if a[0] != b[0] {
        a[0] < b[0]
    } else {
        text_lt(a.drop_first(), b.drop_first())
    }
}

/// The order of optional texts: no text comes first, then texts in their order.
pub open spec fn opt_text_lt(a: Option<Seq<char>>, b: Option<Seq<char>>) -> bool {
    match (a, b) {
        (None, Some(_)) => true,
        (Some(x), Some(y)) => text_lt(x, y),
        _ => false,
    }
}

/// The layout of a ranking, as text.
pub open spec fn layout_key(r: RankSummary) -> Option<Seq<char>> {
    match r.layout {
        Some(l) => Some(l@),
        None => None,
    }
}

/// The order of texts is a strict total order.
pub proof fn lemma_text_order(a: Seq<char>, b: Seq<char>, c: Seq<char>)
    ensures
        !text_lt(a, a),
        text_lt(a, b) ==> !text_lt(b, a),
        text_lt(a, b) && text_lt(b, c) ==> text_lt(a, c),
        !text_lt(a, b) && !text_lt(b, a) ==> a == b,
    decreases a.len(),
{
    if a.len() > 0 && b.len() > 0 && c.len() > 0 {
        lemma_text_order(a.drop_first(), b.drop_first(), c.drop_first());
    } else if a.len() > 0 && b.len() > 0 {
        lemma_text_order(a.drop_first(), b.drop_first(), b.drop_first());
    } else if a.len() > 0 {
        lemma_text_order(a.drop_first(), a.drop_first(), a.drop_first());
    }
    if !text_lt(a, b) && !text_lt(b, a) {
        if a.len() > 0 && b.len() > 0 {
            assert(a[0] == b[0]);
            assert(a.drop_first() == b.drop_first());
            assert(a =~= seq![a[0]] + a.drop_first());
            assert(b =~= seq![b[0]] + b.drop_first());
        }
    }
}

/// The order of optional texts is a strict total order.
pub proof fn lemma_opt_text_order(a: Option<Seq<char>>, b: Option<Seq<char>>, c: Option<Seq<char>>)
    ensures
        !opt_text_lt(a, a),
        opt_text_lt(a, b) && opt_text_lt(b, c) ==> opt_text_lt(a, c),
        !opt_text_lt(a, b) && !opt_text_lt(b, a) ==> a == b,
{
    match (a, b, c) {
        (Some(x), Some(y), Some(z)) => lemma_text_order(x, y, z),
        (Some(x), Some(y), None) => lemma_text_order(x, y, y),
        (Some(x), None, _) => lemma_text_order(x, x, x),
        (None, Some(y), _) => lemma_text_order(y, y, y),
        _ => {},
    }
}

/// Whether text `a` comes before text `b`.
fn text_before(a: &str, b: &str) -> (r: bool)
    ensures
        r == text_lt(a@, b@),
{
    let la = a.unicode_len();
    let lb = b.unicode_len();
    let mut i: usize = 0;
    proof {
        assert(a@.subrange(0, la as int) =~= a@);
        assert(b@.subrange(0, lb as int) =~= b@);
    }
    while i < la && i < lb
        invariant
            la == a@.len(),
            lb == b@.len(),
            i <= la,
            i <= lb,
            a@.subrange(0, i as int) == b@.subrange(0, i as int),
            text_lt(a@, b@) == text_lt(a@.subrange(i as int, la as int), b@.subrange(i as int, lb as int)),
        decreases la - i,
    {
        let ca = a.get_char(i);
        let cb = b.get_char(i);
        proof {
            let sa = a@.subrange(i as int, la as int);
            let sb = b@.subrange(i as int, lb as int);
            assert(sa.drop_first() =~= a@.subrange(i + 1, la as int));
            assert(sb.drop_first() =~= b@.subrange(i + 1, lb as int));
            assert(sa[0] == ca && sb[0] == cb);
        }
        if ca != cb {
            return ca < cb;
        }
        proof {
            assert(a@.subrange(0, i + 1) =~= a@.subrange(0, i as int).push(ca));
            assert(b@.subrange(0, i + 1) =~= b@.subrange(0, i as int).push(cb));
        }
        i = i + 1;
    }
    i < lb
}

/// Whether optional text `a` comes before optional text `b`.
fn layout_before(a: &Option<String>, b: &Option<String>) -> (r: bool)
    ensures
        r == opt_text_lt(
            match a {
                Some(x) => Some(x@),
                None => None,
            },
            match b {
                Some(x) => Some(x@),
                None => None,
            },
        ),
{
    match (a, b) {
        (None, Some(_)) => true,
        (Some(x), Some(y)) => text_before(x.as_str(), y.as_str()),
        _ => false,
    }
}

/// The ranking the showcase names next to the player: the combined ranking of the current
/// patch (no layout).
pub open spec fn is_showcase(r: RankSummary) -> bool {
    r.patch@ == "2.13"@ && r.layout is None
}

/// The first ranking of a player that the showcase names next to them.
pub fn showcase_rank(ranks: &Vec<RankSummary>) -> (r: Option<usize>)
    ensures
        match r {
            Some(i) => i < ranks@.len() && is_showcase(ranks@[i as int]) && forall|j: int|
                0 <= j < i ==> !is_showcase(#[trigger] ranks@[j]),
            None => forall|j: int| 0 <= j < ranks@.len() ==> !is_showcase(#[trigger] ranks@[j]),
        },
{
    let mut i: usize = 0;
    while i < ranks.len()
        invariant
            i <= ranks@.len(),
            forall|j: int| 0 <= j < i ==> !is_showcase(#[trigger] ranks@[j]),
        decreases ranks@.len() - i,
    {
        if str_eq(ranks[i].patch.as_str(), "2.13") && ranks[i].layout.is_none() {
            return Some(i);
        }
        i = i + 1;
    }
    None
}

/// A ranking of the current patch in the given category.
pub open spec fn in_category(r: RankSummary, category: Seq<char>) -> bool {
    r.patch@ == "2.13"@ && (r.category matches Some(c) && c@ == category)
}

/// The rankings `idx` point to are in layout order (no layout first), and rankings of the
/// same layout keep the order in which the player has them.
pub open spec fn layout_sorted(ranks: Seq<RankSummary>, idx: Seq<usize>) -> bool {
    &&& forall|a: int, b: int|
        0 <= a < b < idx.len() ==> !opt_text_lt(layout_key(ranks[#[trigger] idx[b] as int]), layout_key(ranks[#[trigger] idx[a] as int]))
    &&& forall|a: int, b: int|
        0 <= a < b < idx.len() && layout_key(ranks[idx[a] as int]) == layout_key(ranks[idx[b] as int]) ==> #[trigger] idx[a] < #[trigger] idx[b]
}

/// Puts ranking `i` into the layout-sorted positions `out`, after every ranking whose
/// layout does not come after its own.
fn insert_by_layout(ranks: &Vec<RankSummary>, out: &mut Vec<usize>, i: usize)
    requires
        i < ranks@.len(),
        forall|k: int| 0 <= k < old(out)@.len() ==> (#[trigger] old(out)@[k]) < i,
        old(out)@.no_duplicates(),
        layout_sorted(ranks@, old(out)@),
    ensures
        exists|p: int| 0 <= p <= old(out)@.len() && final(out)@ == old(out)@.insert(p, i),
        final(out)@.no_duplicates(),
        layout_sorted(ranks@, final(out)@),
{
    let mut p: usize = 0;
    while p < out.len() && !layout_before(&ranks[i].layout, &ranks[out[p]].layout)
        invariant
            p <= out@.len(),
            i < ranks@.len(),
            forall|k: int| 0 <= k < out@.len() ==> (#[trigger] out@[k]) < ranks@.len(),
            forall|k: int| 0 <= k < p ==> !opt_text_lt(layout_key(ranks@[i as int]), layout_key(ranks@[#[trigger] out@[k] as int])),
        decreases out@.len() - p,
    {
        p = p + 1;
    }
    let ghost prev = out@;
    let ghost xk = layout_key(ranks@[i as int]);
    proof {
        assert forall|k: int| p <= k < prev.len() implies opt_text_lt(xk, layout_key(ranks@[#[trigger] prev[k] as int])) by {
            let pk = layout_key(ranks@[prev[p as int] as int]);
            let kk = layout_key(ranks@[prev[k] as int]);
            lemma_opt_text_order(xk, pk, kk);
            lemma_opt_text_order(pk, kk, kk);
        }
    }
    out.insert(p, i);
    proof {
        lemma_insert_keeps_sorted(ranks@, prev, p as int, i);
    }
}

/// Inserting a ranking after the rankings whose layouts do not come after its own, and
/// before the others, keeps positions sorted, and keeps them distinct where it is new.
proof fn lemma_insert_keeps_sorted(ranks: Seq<RankSummary>, prev: Seq<usize>, p: int, i: usize)
    requires
        0 <= p <= prev.len(),
        forall|k: int| 0 <= k < prev.len() ==> (#[trigger] prev[k]) < i,
        prev.no_duplicates(),
        layout_sorted(ranks, prev),
        forall|k: int| 0 <= k < p ==> !opt_text_lt(layout_key(ranks[i as int]), layout_key(ranks[#[trigger] prev[k] as int])),
        forall|k: int| p <= k < prev.len() ==> opt_text_lt(layout_key(ranks[i as int]), layout_key(ranks[#[trigger] prev[k] as int])),
    ensures
        prev.insert(p, i).no_duplicates(),
        layout_sorted(ranks, prev.insert(p, i)),
{
    let now = prev.insert(p, i);
    let xk = layout_key(ranks[i as int]);
    assert forall|a: int, b: int| 0 <= a < b < now.len() implies !opt_text_lt(
        layout_key(ranks[#[trigger] now[b] as int]),
        layout_key(ranks[#[trigger] now[a] as int]),
    ) by {
        let ka = layout_key(ranks[now[a] as int]);
        let kb = layout_key(ranks[now[b] as int]);
        if a < p && b == p {
        } else if a < p && b > p {
            assert(now[a] == prev[a]);
            assert(now[b] == prev[b - 1]);
        } else if a == p {
            assert(now[b] == prev[b - 1]);
            lemma_opt_text_order(xk, kb, xk);
        } else if b < p {
        } else {
            assert(now[a] == prev[a - 1]);
            assert(now[b] == prev[b - 1]);
        }
    }
    assert forall|a: int, b: int|
        0 <= a < b < now.len() && layout_key(ranks[now[a] as int]) == layout_key(ranks[now[b] as int]) implies #[trigger] now[a]
        < #[trigger] now[b] by {
        if a < p && b == p {
        } else if a < p && b > p {
            assert(now[b] == prev[b - 1]);
        } else if a == p {
            assert(now[b] == prev[b - 1]);
            lemma_opt_text_order(xk, xk, xk);
        } else if b < p {
        } else {
            assert(now[a] == prev[a - 1]);
            assert(now[b] == prev[b - 1]);
        }
    }
    assert forall|a: int, b: int| 0 <= a < now.len() && 0 <= b < now.len() && a != b implies now[a] != now[b] by {
        if a == p {
            if b < p {
                assert(now[b] == prev[b]);
            } else {
                assert(now[b] == prev[b - 1]);
            }
        } else if b == p {
            if a < p {
                assert(now[a] == prev[a]);
            } else {
                assert(now[a] == prev[a - 1]);
            }
        } else {
            let pa = if a < p { a } else { a - 1 };
            let pb = if b < p { b } else { b - 1 };
            assert(now[a] == prev[pa]);
            assert(now[b] == prev[pb]);
        }
    }
}

/// The rankings of a category that the showcase lists, as positions in the player's
/// rankings: those of the current patch in the category, by layout (no layout first), and
/// in the player's order within a layout.
pub fn category_ranks(ranks: &Vec<RankSummary>, category: &str) -> (r: Vec<usize>)
    ensures
        forall|k: int| 0 <= k < r@.len() ==> (#[trigger] r@[k]) < ranks@.len() && in_category(ranks@[r@[k] as int], category@),
        forall|i: int| 0 <= i < ranks@.len() && in_category(#[trigger] ranks@[i], category@) ==> r@.contains(i as usize),
        r@.no_duplicates(),
        layout_sorted(ranks@, r@),
{
    let mut out: Vec<usize> = Vec::new();
    let mut i: usize = 0;
    while i < ranks.len()
        invariant
            i <= ranks@.len(),
            forall|k: int| 0 <= k < out@.len() ==> (#[trigger] out@[k]) < i && in_category(ranks@[out@[k] as int], category@),
            forall|j: int| 0 <= j < i && in_category(#[trigger] ranks@[j], category@) ==> out@.contains(j as usize),
            out@.no_duplicates(),
            layout_sorted(ranks@, out@),
        decreases ranks@.len() - i,
    {
        let wanted = str_eq(ranks[i].patch.as_str(), "2.13") && match &ranks[i].category {
            Some(c) => str_eq(c.as_str(), category),
            None => false,
        };
        let ghost prev = out@;
        if wanted {
            insert_by_layout(ranks, &mut out, i);
            proof {
                let now = out@;
                let p = choose|p: int| 0 <= p <= prev.len() && now == prev.insert(p, i);
                assert forall|k: int| 0 <= k < now.len() implies (#[trigger] now[k]) < i + 1 && in_category(
                    ranks@[now[k] as int],
                    category@,
                ) by {
                    if k < p {
                        assert(now[k] == prev[k]);
                    } else if k > p {
                        assert(now[k] == prev[k - 1]);
                    }
                }
                assert forall|j: int| 0 <= j < i + 1 && in_category(#[trigger] ranks@[j], category@) implies now.contains(
                    j as usize,
                ) by {
                    if j < i {
                        assert(prev.contains(j as usize));
                        let w = choose|w: int| 0 <= w < prev.len() && prev[w] == j as usize;
                        if w < p {
                            assert(now[w] == prev[w]);
                        } else {
                            assert(now[w + 1] == prev[w]);
                        }
                    } else {
                        assert(now[p] == i);
                    }
                }
            }
        } else {
            proof {
                assert forall|j: int| 0 <= j < i + 1 && in_category(#[trigger] ranks@[j], category@) implies out@.contains(
                    j as usize,
                ) by {
                    if j == i {
                        assert(false);
                    }
                }
            }
        }
        i = i + 1;
    }
    out
}

/// The number of activities, and of runs, the home page lists.
pub const HOME_LIST_LEN: usize = 5;

/// What the home page lists of a fetched list (newest first): its first five items.
pub fn first_five<T>(items: Vec<T>) -> (r: Vec<T>)
    ensures
        r@ == items@.take(if items@.len() < 5 { items@.len() as int } else { 5 }),
{
    let mut v = items;
    let ghost all = v@;
    v.truncate(HOME_LIST_LEN);
    proof {
        assert(v@ =~= all.take(if all.len() < 5 { all.len() as int } else { 5 }));
    }
    v
}

} // verus!
