//! The output order of assets and the joining of their tags.
use vstd::prelude::*;

use crate::asset::{render, view_lt, AssetView};
use crate::graph::{has_path, paths_distinct};
use crate::text::{lemma_seq_lt_irreflexive, lemma_seq_lt_total, lemma_seq_lt_transitive};

verus! {

/// Where `x` goes in `t`: before the first element it precedes.
pub open spec fn insert_pos(t: Seq<AssetView>, x: AssetView) -> int
    decreases t.len(),
{
    if t.len() == 0 {
        0
    } else if view_lt(x, t[0]) {
        0
    } else {
        1 + insert_pos(t.drop_first(), x)
    }
}

/// Inserts `x` into `t` before the first element it precedes.
pub open spec fn insert_sorted(t: Seq<AssetView>, x: AssetView) -> Seq<AssetView> {
    t.insert(insert_pos(t, x), x)
}

/// The assets in output order: each inserted in turn, in order of discovery.
pub open spec fn sort_assets(s: Seq<AssetView>) -> Seq<AssetView>
    decreases s.len(),
{
    if s.len() == 0 {
        Seq::empty()
    } else {
        insert_sorted(sort_assets(s.drop_last()), s.last())
    }
}

/// Each asset strictly precedes every later one.
pub open spec fn strictly_sorted(t: Seq<AssetView>) -> bool {
    forall|i: int, j: int| 0 <= i < j < t.len() ==> view_lt(#[trigger] t[i], #[trigger] t[j])
}

/// The lines joined with a newline between each two.
pub open spec fn join_lines(s: Seq<Seq<char>>) -> Seq<char>
    decreases s.len(),
{
    if s.len() == 0 {
        Seq::empty()
    } else if s.len() == 1 {
        s[0]
    } else {
        join_lines(s.drop_last()) + seq!['\n'] + s.last()
    }
}

/// The tags of the assets, one per asset, in the same order.
pub open spec fn render_all(s: Seq<AssetView>) -> Seq<Seq<char>> {
    s.map_values(|a: AssetView| render(a))
}

pub proof fn lemma_view_lt_facts(a: AssetView, b: AssetView, c: AssetView)
    ensures
        !view_lt(a, a),
        a.path != b.path ==> (view_lt(a, b) || view_lt(b, a)),
        !(view_lt(a, b) && view_lt(b, a)),
        view_lt(a, b) && view_lt(b, c) ==> view_lt(a, c),
{
    lemma_seq_lt_irreflexive(a.path);
    lemma_seq_lt_total(a.path, b.path);
    if view_lt(a, b) && view_lt(b, c) && a.rank == b.rank && b.rank == c.rank {
        lemma_seq_lt_transitive(a.path, b.path, c.path);
    }
}

/// The insertion point is the first element `x` precedes.
pub proof fn lemma_insert_pos(t: Seq<AssetView>, x: AssetView)
    ensures
        0 <= insert_pos(t, x) <= t.len(),
        forall|k: int| 0 <= k < insert_pos(t, x) ==> !view_lt(x, #[trigger] t[k]),
        insert_pos(t, x) < t.len() ==> view_lt(x, t[insert_pos(t, x)]),
    decreases t.len(),
{
    if t.len() > 0 && !view_lt(x, t[0]) {
        lemma_insert_pos(t.drop_first(), x);
        assert forall|k: int| 0 <= k < insert_pos(t, x) implies !view_lt(x, #[trigger] t[k]) by {
            if k > 0 {
                assert(t[k] == t.drop_first()[k - 1]);
            }
        }
    }
}

/// Any index with the two properties of the insertion point is the insertion point.
pub proof fn lemma_insert_pos_unique(t: Seq<AssetView>, x: AssetView, j: int)
    requires
        0 <= j <= t.len(),
        forall|k: int| 0 <= k < j ==> !view_lt(x, #[trigger] t[k]),
        j < t.len() ==> view_lt(x, t[j]),
    ensures
        insert_pos(t, x) == j,
{
    lemma_insert_pos(t, x);
    let p = insert_pos(t, x);
    if p < j {
        assert(!view_lt(x, t[p]));
    } else if j < p {
        assert(!view_lt(x, t[j]));
    }
}

/// Inserting an asset of a new path into a sorted sequence keeps it sorted and
/// its paths distinct.
pub proof fn lemma_insert_sorted(t: Seq<AssetView>, x: AssetView)
    requires
        strictly_sorted(t),
        paths_distinct(t),
        !has_path(t, x.path),
    ensures
        strictly_sorted(insert_sorted(t, x)),
        paths_distinct(insert_sorted(t, x)),
        forall|p: Seq<char>| has_path(insert_sorted(t, x), p) <==> (has_path(t, p) || p == x.path),
        insert_sorted(t, x).len() == t.len() + 1,
{
    lemma_insert_pos(t, x);
    let j = insert_pos(t, x);
    let r = insert_sorted(t, x);
    assert(r.len() == t.len() + 1);
    assert forall|i: int| 0 <= i < r.len() implies #[trigger] r[i] == (if i < j {
        t[i]
    } else if i == j {
        x
    } else {
        t[i - 1]
    }) by {}
    assert forall|k: int| 0 <= k < t.len() implies t[k].path != x.path by {
        if t[k].path == x.path {
            assert(has_path(t, x.path));
        }
    }
    assert forall|a: int, b: int| 0 <= a < b < r.len() implies view_lt(
        #[trigger] r[a],
        #[trigger] r[b],
    ) by {
        if b < j {
        } else if a < j && b == j {
            lemma_view_lt_facts(x, t[a], x);
        } else if a < j {
            lemma_view_lt_facts(t[a], t[b - 1], x);
        } else if a == j {
            if b - 1 > j {
                lemma_view_lt_facts(x, t[j], t[b - 1]);
            }
        } else {
        }
    }
    assert forall|a: int, b: int| 0 <= a < b < r.len() implies r[a].path != r[b].path by {
        lemma_view_lt_facts(r[a], r[b], r[a]);
        if r[a].path == r[b].path {
            lemma_seq_lt_irreflexive(r[a].path);
        }
    }
    assert forall|p: Seq<char>| has_path(r, p) <==> (has_path(t, p) || p == x.path) by {
        if has_path(r, p) {
            let i = choose|i: int| 0 <= i < r.len() && #[trigger] r[i].path == p;
            if i < j {
                assert(t[i].path == p);
            } else if i > j {
                assert(t[i - 1].path == p);
            }
        }
        if has_path(t, p) {
            let i = choose|i: int| 0 <= i < t.len() && #[trigger] t[i].path == p;
            if i < j {
                assert(r[i].path == p);
            } else {
                assert(r[i + 1].path == p);
            }
        }
        if p == x.path {
            assert(r[j].path == p);
        }
    }
}

/// Sorting assets of distinct paths gives them in strictly ascending order, each
/// path once, the same paths as before.
pub proof fn lemma_sort_assets(s: Seq<AssetView>)
    requires
        paths_distinct(s),
    ensures
        strictly_sorted(sort_assets(s)),
        paths_distinct(sort_assets(s)),
        sort_assets(s).len() == s.len(),
        forall|p: Seq<char>| has_path(sort_assets(s), p) <==> has_path(s, p),
    decreases s.len(),
{
    if s.len() > 0 {
        let s0 = s.drop_last();
        assert(paths_distinct(s0));
        lemma_sort_assets(s0);
        assert(!has_path(s0, s.last().path)) by {
            if has_path(s0, s.last().path) {
                let i = choose|i: int| 0 <= i < s0.len() && #[trigger] s0[i].path == s.last().path;
                assert(s[i].path == s[s.len() - 1].path);
            }
        }
        assert(!has_path(sort_assets(s0), s.last().path));
        lemma_insert_sorted(sort_assets(s0), s.last());
        assert forall|p: Seq<char>| has_path(sort_assets(s), p) <==> has_path(s, p) by {
            if has_path(s, p) {
                let i = choose|i: int| 0 <= i < s.len() && #[trigger] s[i].path == p;
                if i < s.len() - 1 {
                    assert(s0[i].path == p);
                }
            }
            if has_path(s0, p) {
                let i = choose|i: int| 0 <= i < s0.len() && #[trigger] s0[i].path == p;
                assert(s[i].path == p);
            }
        }
    }
}

} // verus!
