//! The resolution of entrypoints against a manifest, stated as a walk: the assets
//! discovered, in order of discovery, keyed by their resolved path.
use vstd::prelude::*;
use vstd::set_lib::lemma_len_subset;

use crate::asset::{entry_view, preload_view, resolved_path, stylesheet_view, AssetView};
use crate::chunk::{leaf_views, ChunkView};
use crate::text::has_suffix;

verus! {

/// Some discovered asset has path `p`.
pub open spec fn has_path(d: Seq<AssetView>, p: Seq<char>) -> bool {
    exists|i: int| 0 <= i < d.len() && #[trigger] d[i].path == p
}

/// Adds `a` unless its path is already discovered; the first kind found stays.
pub open spec fn add_new(d: Seq<AssetView>, a: AssetView) -> Seq<AssetView> {
    if has_path(d, a.path) {
        d
    } else {
        d.push(a)
    }
}

/// Adds each asset of `s` in turn.
pub open spec fn add_all(d: Seq<AssetView>, s: Seq<AssetView>) -> Seq<AssetView>
    decreases s.len(),
{
    if s.len() == 0 {
        d
    } else {
        add_new(add_all(d, s.drop_last()), s.last())
    }
}

/// The imports that expanding `c` leaves to visit, the first one last (on top).
pub open spec fn pushed_imports(c: ChunkView) -> Seq<Seq<char>> {
    if c.is_entry {
        c.imports.reverse()
    } else {
        Seq::empty()
    }
}

/// The resolved path of a chunk's own file.
pub open spec fn chunk_path(c: ChunkView, prefix: Option<Seq<char>>, app_url: Seq<char>) -> Seq<
    char,
> {
    resolved_path(c.file, prefix, app_url)
}

/// One step of the walk: visit the import on top of `stack`. A missing key or a
/// file already discovered is passed over; otherwise the file is added as a
/// preload, the chunk's own files follow, and its imports are stacked.
pub open spec fn visit_import(
    m: Map<Seq<char>, ChunkView>,
    d: Seq<AssetView>,
    stack: Seq<Seq<char>>,
    prefix: Option<Seq<char>>,
    app_url: Seq<char>,
) -> (Seq<AssetView>, Seq<Seq<char>>) {
    let key = stack.last();
    let rest = stack.drop_last();
    if !m.contains_key(key) {
        (d, rest)
    } else {
        let c = m[key];
        let p = chunk_path(c, prefix, app_url);
        if has_path(d, p) {
            (d, rest)
        } else {
            (add_all(d.push(preload_view(p)), leaf_views(c, prefix, app_url)), rest + pushed_imports(c))
        }
    }
}

/// The keys of `m` whose own file is not discovered yet.
pub open spec fn undiscovered(
    m: Map<Seq<char>, ChunkView>,
    d: Seq<AssetView>,
    prefix: Option<Seq<char>>,
    app_url: Seq<char>,
) -> Set<Seq<char>> {
    m.dom().filter(|k: Seq<char>| !has_path(d, chunk_path(m[k], prefix, app_url)))
}

/// Runs the walk until the stack is empty. Every step either discovers the file of
/// a chunk not yet discovered or pops the stack, so the walk ends on every manifest,
/// cyclic imports included.
pub open spec fn drain(
    m: Map<Seq<char>, ChunkView>,
    d: Seq<AssetView>,
    stack: Seq<Seq<char>>,
    prefix: Option<Seq<char>>,
    app_url: Seq<char>,
) -> Seq<AssetView>
    decreases undiscovered(m, d, prefix, app_url).len(), stack.len(),
{
    if stack.len() == 0 {
        d
    } else {
        let (d2, s2) = visit_import(m, d, stack, prefix, app_url);
        let before = undiscovered(m, d, prefix, app_url).len();
        let after = undiscovered(m, d2, prefix, app_url).len();
        if after < before || (after == before && s2.len() < stack.len()) {
            drain(m, d2, s2, prefix, app_url)
        } else {
            d
        }
    }
}

/// The kind an entrypoint key gives its own file: a stylesheet for `.css`, else a script.
pub open spec fn entry_asset(key: Seq<char>, path: Seq<char>) -> AssetView {
    if has_suffix(key, ".css"@) {
        stylesheet_view(path)
    } else {
        entry_view(path)
    }
}

/// Visits one entrypoint: a missing key or a file already discovered is passed
/// over; otherwise the entry's file is added, then its own files, then the walk
/// over its imports.
pub open spec fn visit_entry(
    m: Map<Seq<char>, ChunkView>,
    d: Seq<AssetView>,
    key: Seq<char>,
    prefix: Option<Seq<char>>,
    app_url: Seq<char>,
) -> Seq<AssetView> {
    if !m.contains_key(key) {
        d
    } else {
        let c = m[key];
        let a = entry_asset(key, chunk_path(c, prefix, app_url));
        if has_path(d, a.path) {
            d
        } else {
            drain(m, add_all(d.push(a), leaf_views(c, prefix, app_url)), pushed_imports(c), prefix, app_url)
        }
    }
}

/// The assets discovered from the entrypoints, visited in the given order.
pub open spec fn discover(
    m: Map<Seq<char>, ChunkView>,
    entrypoints: Seq<Seq<char>>,
    prefix: Option<Seq<char>>,
    app_url: Seq<char>,
) -> Seq<AssetView>
    decreases entrypoints.len(),
{
    if entrypoints.len() == 0 {
        Seq::empty()
    } else {
        visit_entry(m, discover(m, entrypoints.drop_last(), prefix, app_url), entrypoints.last(), prefix, app_url)
    }
}

/// No two discovered assets share a path.
pub open spec fn paths_distinct(d: Seq<AssetView>) -> bool {
    forall|i: int, j: int| 0 <= i < j < d.len() ==> d[i].path != d[j].path
}

/// Every path of `d` is a path of `d2`.
pub open spec fn grows(d: Seq<AssetView>, d2: Seq<AssetView>) -> bool {
    forall|p: Seq<char>| has_path(d, p) ==> has_path(d2, p)
}

pub proof fn lemma_add_new(d: Seq<AssetView>, a: AssetView)
    ensures
        grows(d, add_new(d, a)),
        has_path(add_new(d, a), a.path),
        paths_distinct(d) ==> paths_distinct(add_new(d, a)),
        forall|p: Seq<char>| has_path(add_new(d, a), p) ==> has_path(d, p) || p == a.path,
{
    let r = add_new(d, a);
    if !has_path(d, a.path) {
        assert(r[d.len() as int] == a);
        assert forall|p: Seq<char>| has_path(d, p) implies has_path(r, p) by {
            let i = choose|i: int| 0 <= i < d.len() && #[trigger] d[i].path == p;
            assert(r[i] == d[i]);
        }
        assert forall|p: Seq<char>| has_path(r, p) implies has_path(d, p) || p == a.path by {
            let i = choose|i: int| 0 <= i < r.len() && #[trigger] r[i].path == p;
            if i < d.len() {
                assert(d[i] == r[i]);
            }
        }
    }
}

pub proof fn lemma_add_all(d: Seq<AssetView>, s: Seq<AssetView>)
    ensures
        grows(d, add_all(d, s)),
        paths_distinct(d) ==> paths_distinct(add_all(d, s)),
        forall|p: Seq<char>| has_path(add_all(d, s), p) ==> has_path(d, p) || (exists|j: int|
            0 <= j < s.len() && #[trigger] s[j].path == p),
    decreases s.len(),
{
    if s.len() > 0 {
        let d1 = add_all(d, s.drop_last());
        lemma_add_all(d, s.drop_last());
        lemma_add_new(d1, s.last());
        assert forall|p: Seq<char>| has_path(add_all(d, s), p) implies has_path(d, p) || (exists|
            j: int,
        | 0 <= j < s.len() && #[trigger] s[j].path == p) by {
            if has_path(d1, p) && !has_path(d, p) {
                let j = choose|j: int| 0 <= j < s.drop_last().len() && #[trigger] s.drop_last()[j].path == p;
                assert(s[j] == s.drop_last()[j]);
            } else if p == s.last().path {
                assert(s[s.len() - 1].path == p);
            }
        }
    }
}

/// Adding paths never adds undiscovered keys.
pub proof fn lemma_undiscovered_shrinks(
    m: Map<Seq<char>, ChunkView>,
    d: Seq<AssetView>,
    d2: Seq<AssetView>,
    prefix: Option<Seq<char>>,
    app_url: Seq<char>,
)
    requires
        m.dom().finite(),
        grows(d, d2),
    ensures
        undiscovered(m, d2, prefix, app_url).subset_of(undiscovered(m, d, prefix, app_url)),
        undiscovered(m, d2, prefix, app_url).len() <= undiscovered(m, d, prefix, app_url).len(),
{
    let u = undiscovered(m, d, prefix, app_url);
    let u2 = undiscovered(m, d2, prefix, app_url);
    m.dom().lemma_len_filter(|k: Seq<char>| !has_path(d, chunk_path(m[k], prefix, app_url)));
    lemma_len_subset(u2, u);
}

/// Discovering the file of a key that was undiscovered removes that key.
pub proof fn lemma_undiscovered_drops(
    m: Map<Seq<char>, ChunkView>,
    d: Seq<AssetView>,
    d2: Seq<AssetView>,
    key: Seq<char>,
    prefix: Option<Seq<char>>,
    app_url: Seq<char>,
)
    requires
        m.dom().finite(),
        grows(d, d2),
        m.contains_key(key),
        !has_path(d, chunk_path(m[key], prefix, app_url)),
        has_path(d2, chunk_path(m[key], prefix, app_url)),
    ensures
        undiscovered(m, d2, prefix, app_url).len() < undiscovered(m, d, prefix, app_url).len(),
{
    let u = undiscovered(m, d, prefix, app_url);
    let u2 = undiscovered(m, d2, prefix, app_url);
    m.dom().lemma_len_filter(|k: Seq<char>| !has_path(d, chunk_path(m[k], prefix, app_url)));
    assert(u.contains(key));
    lemma_len_subset(u2, u.remove(key));
}

/// The walk's step always decreases its measure, so `drain` takes it.
pub proof fn lemma_drain_unfold(
    m: Map<Seq<char>, ChunkView>,
    d: Seq<AssetView>,
    stack: Seq<Seq<char>>,
    prefix: Option<Seq<char>>,
    app_url: Seq<char>,
)
    requires
        m.dom().finite(),
        stack.len() > 0,
    ensures
        ({
            let (d2, s2) = visit_import(m, d, stack, prefix, app_url);
            &&& drain(m, d, stack, prefix, app_url) == drain(m, d2, s2, prefix, app_url)
            &&& grows(d, d2)
            &&& (paths_distinct(d) ==> paths_distinct(d2))
            &&& (undiscovered(m, d2, prefix, app_url).len() < undiscovered(m, d, prefix, app_url).len()
                || (undiscovered(m, d2, prefix, app_url).len() == undiscovered(m, d, prefix, app_url).len()
                && s2.len() < stack.len()))
        }),
{
    let (d2, s2) = visit_import(m, d, stack, prefix, app_url);
    let key = stack.last();
    if m.contains_key(key) {
        let c = m[key];
        let p = chunk_path(c, prefix, app_url);
        if !has_path(d, p) {
            let d1 = d.push(preload_view(p));
            lemma_add_new(d, preload_view(p));
            assert(add_new(d, preload_view(p)) == d1);
            lemma_add_all(d1, leaf_views(c, prefix, app_url));
            lemma_undiscovered_drops(m, d, d2, key, prefix, app_url);
        } else {
            lemma_undiscovered_shrinks(m, d, d2, prefix, app_url);
        }
    } else {
        lemma_undiscovered_shrinks(m, d, d2, prefix, app_url);
    }
}

/// The walk only adds paths, and never one twice.
pub proof fn lemma_drain(
    m: Map<Seq<char>, ChunkView>,
    d: Seq<AssetView>,
    stack: Seq<Seq<char>>,
    prefix: Option<Seq<char>>,
    app_url: Seq<char>,
)
    requires
        m.dom().finite(),
    ensures
        grows(d, drain(m, d, stack, prefix, app_url)),
        paths_distinct(d) ==> paths_distinct(drain(m, d, stack, prefix, app_url)),
    decreases undiscovered(m, d, prefix, app_url).len(), stack.len(),
{
    if stack.len() > 0 {
        let (d2, s2) = visit_import(m, d, stack, prefix, app_url);
        lemma_drain_unfold(m, d, stack, prefix, app_url);
        lemma_drain(m, d2, s2, prefix, app_url);
    }
}

/// Every key on the stack that the manifest holds has its file discovered by the
/// end of the walk.
pub proof fn lemma_drain_visits(
    m: Map<Seq<char>, ChunkView>,
    d: Seq<AssetView>,
    stack: Seq<Seq<char>>,
    prefix: Option<Seq<char>>,
    app_url: Seq<char>,
)
    requires
        m.dom().finite(),
    ensures
        forall|i: int|
            0 <= i < stack.len() && m.contains_key(#[trigger] stack[i]) ==> has_path(
                drain(m, d, stack, prefix, app_url),
                chunk_path(m[stack[i]], prefix, app_url),
            ),
    decreases undiscovered(m, d, prefix, app_url).len(), stack.len(),
{
    if stack.len() > 0 {
        let (d2, s2) = visit_import(m, d, stack, prefix, app_url);
        lemma_drain_unfold(m, d, stack, prefix, app_url);
        lemma_drain_visits(m, d2, s2, prefix, app_url);
        lemma_drain(m, d2, s2, prefix, app_url);
        let key = stack.last();
        let rest = stack.drop_last();
        assert(s2.len() >= rest.len());
        assert forall|i: int| 0 <= i < rest.len() implies #[trigger] s2[i] == rest[i] by {}
        if m.contains_key(key) {
            let p = chunk_path(m[key], prefix, app_url);
            if !has_path(d, p) {
                let d1 = d.push(preload_view(p));
                lemma_add_new(d, preload_view(p));
                assert(add_new(d, preload_view(p)) == d1);
                lemma_add_all(d1, leaf_views(m[key], prefix, app_url));
            }
            assert(has_path(d2, p));
        }
        assert forall|i: int|
            0 <= i < stack.len() && m.contains_key(#[trigger] stack[i]) implies has_path(
                drain(m, d, stack, prefix, app_url),
                chunk_path(m[stack[i]], prefix, app_url),
            ) by {
            if i < stack.len() - 1 {
                assert(s2[i] == stack[i]);
            }
        }
    }
}

/// Discovery never yields a path twice.
pub proof fn lemma_discover_distinct(
    m: Map<Seq<char>, ChunkView>,
    entrypoints: Seq<Seq<char>>,
    prefix: Option<Seq<char>>,
    app_url: Seq<char>,
)
    requires
        m.dom().finite(),
    ensures
        paths_distinct(discover(m, entrypoints, prefix, app_url)),
    decreases entrypoints.len(),
{
    if entrypoints.len() > 0 {
        let d = discover(m, entrypoints.drop_last(), prefix, app_url);
        lemma_discover_distinct(m, entrypoints.drop_last(), prefix, app_url);
        let key = entrypoints.last();
        if m.contains_key(key) {
            let c = m[key];
            let a = entry_asset(key, chunk_path(c, prefix, app_url));
            if !has_path(d, a.path) {
                lemma_add_new(d, a);
                assert(add_new(d, a) == d.push(a));
                lemma_add_all(d.push(a), leaf_views(c, prefix, app_url));
                lemma_drain(m, add_all(d.push(a), leaf_views(c, prefix, app_url)), pushed_imports(c), prefix, app_url);
            }
        }
    }
}

} // verus!
