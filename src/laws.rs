//! Properties of resolution and hashing that hold for every manifest.
use vstd::prelude::*;

use crate::asset::AssetView;
use crate::chunk::ChunkView;
use crate::graph::{
    chunk_path, discover, has_path, lemma_discover_distinct, lemma_drain_visits, paths_distinct,
};
use crate::manifest::{content_hash, hex_digit, hex_of, keys_unique, lemma_map_of, map_of, tags_html};
use crate::order::{lemma_sort_assets, render_all, sort_assets};
use crate::text::seq_lt;

verus! {

/// Resolution depends on the manifest's table alone: two lists of the same keyed
/// chunks, in whatever order, give the same tags.
pub proof fn lemma_tags_ignore_entry_order(
    s1: Seq<(Seq<char>, ChunkView)>,
    s2: Seq<(Seq<char>, ChunkView)>,
    entrypoints: Seq<Seq<char>>,
    prefix: Option<Seq<char>>,
    app_url: Seq<char>,
)
    requires
        keys_unique(s1),
        keys_unique(s2),
        s1.to_set() == s2.to_set(),
    ensures
        map_of(s1) == map_of(s2),
        tags_html(map_of(s1), entrypoints, prefix, app_url) == tags_html(
            map_of(s2),
            entrypoints,
            prefix,
            app_url,
        ),
{
    lemma_map_of(s1);
    lemma_map_of(s2);
    assert forall|k: Seq<char>| map_of(s1).contains_key(k) implies map_of(s2).contains_key(k)
        && map_of(s1)[k] == map_of(s2)[k] by {
        let i = choose|i: int| 0 <= i < s1.len() && #[trigger] s1[i].0 == k;
        assert(s1.to_set().contains(s1[i]));
        assert(s2.to_set().contains(s1[i]));
        let j = choose|j: int| 0 <= j < s2.len() && s2[j] == s1[i];
        assert(s2[j].0 == k);
    }
    assert forall|k: Seq<char>| map_of(s2).contains_key(k) implies map_of(s1).contains_key(k) by {
        let j = choose|j: int| 0 <= j < s2.len() && #[trigger] s2[j].0 == k;
        assert(s2.to_set().contains(s2[j]));
        assert(s1.to_set().contains(s2[j]));
        let i = choose|i: int| 0 <= i < s1.len() && s1[i] == s2[j];
        assert(s1[i].0 == k);
    }
    assert(map_of(s1) =~= map_of(s2));
}

/// The tags come stylesheets first, then entry scripts, then preloads, and within
/// each kind in strictly ascending path order.
pub proof fn lemma_tags_ordered(
    m: Map<Seq<char>, ChunkView>,
    entrypoints: Seq<Seq<char>>,
    prefix: Option<Seq<char>>,
    app_url: Seq<char>,
)
    requires
        m.dom().finite(),
    ensures
        ({
            let out = sort_assets(discover(m, entrypoints, prefix, app_url));
            &&& tags_html(m, entrypoints, prefix, app_url) == crate::order::join_lines(render_all(out))
            &&& forall|i: int, j: int|
                0 <= i < j < out.len() ==> (#[trigger] out[i]).rank < (#[trigger] out[j]).rank || (
                out[i].rank == out[j].rank && seq_lt(out[i].path, out[j].path))
        }),
{
    lemma_discover_distinct(m, entrypoints, prefix, app_url);
    lemma_sort_assets(discover(m, entrypoints, prefix, app_url));
}

/// No resolved path is emitted twice, whatever the imports share or cycle through;
/// exactly the discovered paths are emitted.
pub proof fn lemma_tags_each_path_once(
    m: Map<Seq<char>, ChunkView>,
    entrypoints: Seq<Seq<char>>,
    prefix: Option<Seq<char>>,
    app_url: Seq<char>,
)
    requires
        m.dom().finite(),
    ensures
        ({
            let found = discover(m, entrypoints, prefix, app_url);
            let out = sort_assets(found);
            &&& paths_distinct(out)
            &&& render_all(out).len() == out.len()
            &&& forall|p: Seq<char>| has_path(out, p) <==> has_path(found, p)
        }),
{
    lemma_discover_distinct(m, entrypoints, prefix, app_url);
    lemma_sort_assets(discover(m, entrypoints, prefix, app_url));
}

/// Two entry chunks that import each other: resolving the first yields the file of
/// each, and no path twice.
pub proof fn lemma_import_cycle_resolves_once(
    m: Map<Seq<char>, ChunkView>,
    a: Seq<char>,
    b: Seq<char>,
    prefix: Option<Seq<char>>,
    app_url: Seq<char>,
)
    requires
        m.dom().finite(),
        m.contains_key(a),
        m.contains_key(b),
        m[a].is_entry,
        m[b].is_entry,
        m[a].imports.contains(b),
        m[b].imports.contains(a),
    ensures
        ({
            let out = sort_assets(discover(m, seq![a], prefix, app_url));
            &&& paths_distinct(out)
            &&& has_path(out, chunk_path(m[a], prefix, app_url))
            &&& has_path(out, chunk_path(m[b], prefix, app_url))
        }),
{
    let eps = seq![a];
    let found = discover(m, eps, prefix, app_url);
    lemma_discover_distinct(m, eps, prefix, app_url);
    lemma_sort_assets(found);
    assert(eps.drop_last() =~= Seq::<Seq<char>>::empty());
    assert(discover(m, eps.drop_last(), prefix, app_url) == Seq::<AssetView>::empty());
    let c = m[a];
    let pa = chunk_path(c, prefix, app_url);
    let e = crate::graph::entry_asset(a, pa);
    assert(!has_path(Seq::<AssetView>::empty(), e.path));
    let d1 = crate::graph::add_all(seq![e], crate::chunk::leaf_views(c, prefix, app_url));
    assert(Seq::<AssetView>::empty().push(e) =~= seq![e]);
    crate::graph::lemma_add_all(seq![e], crate::chunk::leaf_views(c, prefix, app_url));
    assert(seq![e][0].path == pa);
    assert(has_path(d1, pa));
    let stack = crate::graph::pushed_imports(c);
    crate::graph::lemma_drain(m, d1, stack, prefix, app_url);
    lemma_drain_visits(m, d1, stack, prefix, app_url);
    let k = choose|k: int| 0 <= k < c.imports.len() && c.imports[k] == b;
    assert(stack[c.imports.len() - 1 - k] == b);
}

/// Equal manifest texts give equal content hashes.
pub proof fn lemma_hash_stable(c1: Seq<char>, c2: Seq<char>)
    requires
        c1 == c2,
    ensures
        content_hash(c1) == content_hash(c2),
{
}

/// Hexadecimal encoding loses nothing: distinct digests give distinct hashes.
pub proof fn lemma_hex_injective(x: Seq<u8>, y: Seq<u8>)
    requires
        hex_of(x) == hex_of(y),
    ensures
        x == y,
{
    assert(hex_of(x).len() == 2 * x.len() && hex_of(y).len() == 2 * y.len());
    assert(x.len() == y.len());
    assert forall|i: int| 0 <= i < x.len() implies x[i] == y[i] by {
        assert((2 * i) / 2 == i && (2 * i) % 2 == 0 && (2 * i + 1) / 2 == i && (2 * i + 1) % 2 == 1);
        assert(hex_of(x)[2 * i] == hex_digit(x[i] as int / 16));
        assert(hex_of(y)[2 * i] == hex_digit(y[i] as int / 16));
        assert(hex_of(x)[2 * i + 1] == hex_digit(x[i] as int % 16));
        assert(hex_of(y)[2 * i + 1] == hex_digit(y[i] as int % 16));
        lemma_hex_digit_injective(x[i] as int / 16, y[i] as int / 16);
        lemma_hex_digit_injective(x[i] as int % 16, y[i] as int % 16);
    }
    assert(x =~= y);
}

proof fn lemma_hex_digit_injective(a: int, b: int)
    requires
        0 <= a < 16,
        0 <= b < 16,
        hex_digit(a) == hex_digit(b),
    ensures
        a == b,
{
}

} // verus!
