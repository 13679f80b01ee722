//! The parsed build manifest, its content hash, and the resolution of entrypoints
//! into HTML tags.
use vstd::prelude::*;

use md5::{Digest, Md5};

use crate::asset::{opt_view, resolved_path, view_lt, Asset, AssetView};
use crate::chunk::{leaf_views, strings_view, Chunk, ChunkView};
use crate::graph::{
    add_all, add_new, chunk_path, discover, drain, entry_asset, has_path, lemma_drain_unfold,
    pushed_imports, undiscovered, visit_entry, visit_import,
};
use crate::order::{
    insert_sorted, join_lines, lemma_insert_pos_unique, render_all, sort_assets,
};
use crate::text::{ends_with, str_eq};

verus! {

/// What MD5 makes of the UTF-8 bytes of a text.
pub uninterp spec fn md5_of(s: Seq<char>) -> Seq<u8>;

/// Relies on md-5's `Md5::digest`: the 16-byte MD5 digest of the text's UTF-8 bytes.
#[verifier::external_body]
fn md5_digest(content: &str) -> (r: Vec<u8>)
    ensures
        r@ == md5_of(content@),
        r@.len() == 16,
{
    Md5::digest(content.as_bytes()).to_vec()
}

/// The lowercase hexadecimal digit of a value below 16.
pub open spec fn hex_digit(n: int) -> char {
    seq!['0', '1', '2', '3', '4', '5', '6', '7', '8', '9', 'a', 'b', 'c', 'd', 'e', 'f'][n]
}

/// Two lowercase hexadecimal digits per byte, high nibble first.
pub open spec fn hex_of(b: Seq<u8>) -> Seq<char> {
    Seq::new(
        2 * b.len(),
        |i: int|
            if i % 2 == 0 {
                hex_digit(b[i / 2] as int / 16)
            } else {
                hex_digit(b[i / 2] as int % 16)
            },
    )
}

/// Relies on hex's `encode`: two lowercase digits per byte, high nibble first.
#[verifier::external_body]
fn hex_encode(b: &Vec<u8>) -> (r: String)
    ensures
        r@ == hex_of(b@),
{
    hex::encode(b)
}

/// The content hash of a manifest text: its MD5 digest in lowercase hexadecimal.
pub open spec fn content_hash(content: Seq<char>) -> Seq<char> {
    hex_of(md5_of(content))
}

/// Keys and chunks as plain values.
pub open spec fn entries_view(s: Seq<(String, Chunk)>) -> Seq<(Seq<char>, ChunkView)> {
    s.map_values(|e: (String, Chunk)| (e.0@, e.1@))
}

/// The table that a list of keyed chunks makes, a later key replacing an earlier one.
pub open spec fn map_of(s: Seq<(Seq<char>, ChunkView)>) -> Map<Seq<char>, ChunkView>
    decreases s.len(),
{
    if s.len() == 0 {
        Map::empty()
    } else {
        map_of(s.drop_last()).insert(s.last().0, s.last().1)
    }
}

pub open spec fn keys_unique(s: Seq<(Seq<char>, ChunkView)>) -> bool {
    forall|i: int, j: int| 0 <= i < j < s.len() ==> s[i].0 != s[j].0
}

/// The table of a list is finite and holds exactly its keys; with unique keys each
/// maps to its own chunk.
pub proof fn lemma_map_of(s: Seq<(Seq<char>, ChunkView)>)
    ensures
        map_of(s).dom().finite(),
        forall|k: Seq<char>|
            map_of(s).contains_key(k) <==> exists|i: int| 0 <= i < s.len() && #[trigger] s[i].0 == k,
        keys_unique(s) ==> forall|i: int| 0 <= i < s.len() ==> map_of(s)[#[trigger] s[i].0] == s[i].1,
    decreases s.len(),
{
    if s.len() > 0 {
        let s0 = s.drop_last();
        lemma_map_of(s0);
        assert forall|k: Seq<char>|
            map_of(s).contains_key(k) <==> exists|i: int| 0 <= i < s.len() && #[trigger] s[i].0 == k by {
            if map_of(s0).contains_key(k) {
                let i = choose|i: int| 0 <= i < s0.len() && #[trigger] s0[i].0 == k;
                assert(s[i].0 == k);
            }
            if exists|i: int| 0 <= i < s.len() && #[trigger] s[i].0 == k {
                let i = choose|i: int| 0 <= i < s.len() && #[trigger] s[i].0 == k;
                if i < s.len() - 1 {
                    assert(s0[i].0 == k);
                }
            }
        }
        if keys_unique(s) {
            assert(keys_unique(s0));
            assert forall|i: int| 0 <= i < s.len() implies map_of(s)[#[trigger] s[i].0] == s[i].1 by {
                if i < s.len() - 1 {
                    assert(s0[i] == s[i]);
                }
            }
        }
    }
}

/// A parsed build manifest: chunks keyed by source path, and the content hash of
/// the text they were parsed from.
#[derive(Debug)]
pub struct Manifest {
    entries: Vec<(String, Chunk)>,
    hash: String,
}

impl View for Manifest {
    type V = Map<Seq<char>, ChunkView>;

    closed spec fn view(&self) -> Map<Seq<char>, ChunkView> {
        map_of(entries_view(self.entries@))
    }
}

/// The character sequences of a list of string slices.
pub open spec fn str_views(s: Seq<&str>) -> Seq<Seq<char>> {
    s.map_values(|k: &str| k@)
}

/// The views of a list of assets.
pub open spec fn views(s: Seq<Asset>) -> Seq<AssetView> {
    s.map_values(|a: Asset| a@)
}

/// The HTML that loads the entrypoints: the tag of each discovered asset, in output
/// order, one per line.
pub open spec fn tags_html(
    m: Map<Seq<char>, ChunkView>,
    entrypoints: Seq<Seq<char>>,
    prefix: Option<Seq<char>>,
    app_url: Seq<char>,
) -> Seq<char> {
    join_lines(render_all(sort_assets(discover(m, entrypoints, prefix, app_url))))
}

/// The URL of the file that the chunk of `key` was built into, or empty when no
/// chunk has that key.
pub open spec fn asset_url(
    m: Map<Seq<char>, ChunkView>,
    key: Seq<char>,
    prefix: Option<Seq<char>>,
    app_url: Seq<char>,
) -> Seq<char> {
    if m.contains_key(key) {
        resolved_path(m[key].file, prefix, app_url)
    } else {
        Seq::empty()
    }
}

/// Tells whether some asset of `set` has the path `p`.
fn find_path(set: &Vec<Asset>, p: &str) -> (r: bool)
    ensures
        r == has_path(views(set@), p@),
{
    let mut i: usize = 0;
    while i < set.len()
        invariant
            i <= set@.len(),
            forall|k: int| 0 <= k < i ==> set@[k]@.path != p@,
        decreases set@.len() - i,
    {
        if str_eq(set[i].path_str(), p) {
            assert(views(set@)[i as int].path == p@);
            return true;
        }
        i = i + 1;
    }
    assert forall|k: int| 0 <= k < views(set@).len() implies #[trigger] views(set@)[k].path != p@ by {
        assert(views(set@)[k] == set@[k]@);
    }
    false
}

/// Adds `a` unless an asset of its path is already there.
fn add_asset(set: &mut Vec<Asset>, a: Asset)
    ensures
        views(final(set)@) == add_new(views(old(set)@), a@),
{
    if !find_path(set, a.path_str()) {
        let ghost d = views(set@);
        set.push(a);
        assert(views(set@) =~= d.push(a@));
    }
}

/// Pushes the items in reverse order, so that the first one ends on top.
fn push_reversed(stack: &mut Vec<String>, items: &Vec<String>)
    ensures
        strings_view(final(stack)@) == strings_view(old(stack)@) + strings_view(items@).reverse(),
{
    let ghost s0 = strings_view(stack@);
    let ghost rev = strings_view(items@).reverse();
    let mut j: usize = items.len();
    while j > 0
        invariant
            j <= items@.len(),
            rev == strings_view(items@).reverse(),
            strings_view(stack@) == s0 + rev.take(items@.len() - j),
        decreases j,
    {
        j = j - 1;
        let ghost before = strings_view(stack@);
        stack.push(items[j].clone());
        assert(rev.take(items@.len() - j) =~= rev.take(items@.len() - j - 1).push(items@[j as int]@));
        assert(strings_view(stack@) =~= before.push(items@[j as int]@));
    }
    assert(rev.take(items@.len() as int) =~= rev);
}

/// Puts the assets in output order.
fn sort_by_precedence(v: Vec<Asset>) -> (r: Vec<Asset>)
    ensures
        views(r@) == sort_assets(views(v@)),
{
    let ghost all = views(v@);
    let mut out: Vec<Asset> = Vec::new();
    let mut rest = v;
    let ghost mut n: int = 0;
    assert(views(out@) =~= sort_assets(all.take(0)));
    while rest.len() > 0
        invariant
            0 <= n,
            n + rest@.len() == all.len(),
            views(rest@) == all.skip(n),
            views(out@) == sort_assets(all.take(n)),
        decreases rest@.len(),
    {
        let ghost r0 = rest@;
        let x = rest.remove(0);
        proof {
            assert(views(r0)[0] == x@);
            assert(views(rest@) =~= views(r0).skip(1));
            assert(all.skip(n).skip(1) =~= all.skip(n + 1));
            assert(all.take(n + 1).drop_last() =~= all.take(n));
            assert(all[n] == all.skip(n)[0]);
        }
        let ghost t = views(out@);
        let mut j: usize = 0;
        while j < out.len() && !x.precedes(&out[j])
            invariant
                t == views(out@),
                j <= out@.len(),
                forall|k: int| 0 <= k < j ==> !view_lt(x@, #[trigger] t[k]),
            decreases out@.len() - j,
        {
            assert(t[j as int] == out@[j as int]@);
            j = j + 1;
        }
        proof {
            if j < out@.len() {
                assert(t[j as int] == out@[j as int]@);
            }
            lemma_insert_pos_unique(t, x@, j as int);
        }
        out.insert(j, x);
        proof {
            assert(views(out@) =~= t.insert(j as int, x@));
            n = n + 1;
        }
    }
    assert(all.take(n) =~= all);
    out
}

/// The tags of the assets, one per line.
fn render_lines(assets: &Vec<Asset>) -> (r: String)
    ensures
        r@ == join_lines(render_all(views(assets@))),
{
    let ghost lines = render_all(views(assets@));
    let mut r = String::new();
    let mut i: usize = 0;
    assert(lines.take(0) =~= Seq::<Seq<char>>::empty());
    while i < assets.len()
        invariant
            lines == render_all(views(assets@)),
            i <= assets@.len(),
            r@ == join_lines(lines.take(i as int)),
        decreases assets@.len() - i,
    {
        let h = assets[i].to_html();
        assert(lines.take(i + 1).drop_last() =~= lines.take(i as int));
        assert(lines[i as int] == h@);
        assert(lines.take(i + 1).last() == h@);
        proof {
            reveal_strlit("\n");
        }
        assert("\n"@ =~= seq!['\n']);
        if i > 0 {
            r.append("\n");
        } else {
            assert(lines.take(1) =~= seq![h@]);
        }
        r.append(h.as_str());
        i = i + 1;
    }
    assert(lines.take(i as int) =~= lines);
    r
}

impl Manifest {
    #[verifier::type_invariant]
    spec fn inv(&self) -> bool {
        keys_unique(entries_view(self.entries@))
    }

    /// The content hash the manifest carries.
    pub closed spec fn hash_view(&self) -> Seq<char> {
        self.hash@
    }

    /// The manifest's table is finite.
    pub proof fn lemma_finite(&self)
        ensures
            self@.dom().finite(),
    {
        lemma_map_of(entries_view(self.entries@));
    }

    /// Builds a manifest from the text it was parsed from and the chunks parsed out
    /// of it; where a key repeats, the later chunk replaces the earlier one.
    pub fn new(content: &str, chunks: Vec<(String, Chunk)>) -> (r: Manifest)
        ensures
            r@ == map_of(entries_view(chunks@)),
            r.hash_view() == content_hash(content@),
    {
        let digest = md5_digest(content);
        let hash = hex_encode(&digest);
        let mut entries: Vec<(String, Chunk)> = Vec::new();
        let mut rest = chunks;
        let ghost all = entries_view(chunks@);
        let ghost mut n: int = 0;
        while rest.len() > 0
            invariant
                0 <= n,
                n + rest@.len() == all.len(),
                entries_view(rest@) == all.skip(n),
                keys_unique(entries_view(entries@)),
                map_of(entries_view(entries@)) == map_of(all.take(n)),
            decreases rest@.len(),
        {
            let ghost before = entries_view(entries@);
            let ghost r0 = rest@;
            let e = rest.remove(0);
            proof {
                assert(entries_view(r0)[0] == (e.0@, e.1@));
                assert(entries_view(rest@) =~= entries_view(r0).skip(1));
                assert(all.skip(n).skip(1) =~= all.skip(n + 1));
                assert(all.take(n + 1).drop_last() =~= all.take(n));
                assert(all[n] == all.skip(n)[0]);
            }
            let mut i: usize = 0;
            let mut found = false;
            while !found && i < entries.len()
                invariant
                    entries_view(entries@) == before,
                    i <= entries@.len(),
                    found ==> i < entries@.len() && before[i as int].0 == e.0@,
                    !found ==> forall|k: int| 0 <= k < i ==> before[k].0 != e.0@,
                decreases entries@.len() - i + (if found { 0int } else { 1int }),
            {
                if str_eq(entries[i].0.as_str(), e.0.as_str()) {
                    found = true;
                } else {
                    i = i + 1;
                }
            }
            proof {
                lemma_map_of(before);
            }
            if found {
                entries.set(i, e);
                proof {
                    let after = entries_view(entries@);
                    assert(after =~= before.update(i as int, (e.0@, e.1@)));
                    lemma_map_of(after);
                    assert(keys_unique(after));
                    assert(map_of(after) =~= map_of(before).insert(e.0@, e.1@)) by {
                        assert forall|k: Seq<char>| map_of(after).contains_key(k) implies map_of(
                            before,
                        ).insert(e.0@, e.1@).contains_key(k) by {
                            let j = choose|j: int| 0 <= j < after.len() && #[trigger] after[j].0 == k;
                            if j != i {
                                assert(before[j].0 == k);
                            }
                        }
                        assert forall|k: Seq<char>| map_of(before).insert(e.0@, e.1@).contains_key(
                            k,
                        ) implies map_of(after).contains_key(k) by {
                            if k != e.0@ {
                                let j = choose|j: int| 0 <= j < before.len() && #[trigger] before[j].0 == k;
                                assert(after[j].0 == k);
                            } else {
                                assert(after[i as int].0 == k);
                            }
                        }
                        assert forall|k: Seq<char>| #[trigger] map_of(after).contains_key(k) implies map_of(
                            after,
                        )[k] == map_of(before).insert(e.0@, e.1@)[k] by {
                            let j = choose|j: int| 0 <= j < after.len() && #[trigger] after[j].0 == k;
                            if j != i {
                                assert(before[j] == after[j]);
                            }
                        }
                    }
                }
            } else {
                entries.push(e);
                proof {
                    let after = entries_view(entries@);
                    assert(after =~= before.push((e.0@, e.1@)));
                    assert(after.drop_last() =~= before);
                }
            }
            proof {
                n = n + 1;
            }
        }
        assert(all.take(all.len() as int) =~= all);
        Manifest { entries, hash }
    }

    /// The content hash of the manifest text, in lowercase hexadecimal.
    #[inline]
    pub fn get_hash(&self) -> (r: &str)
        ensures
            r@ == self.hash_view(),
    {
        self.hash.as_str()
    }

    /// Adds the files the chunk lists directly (other files as preloads, then
    /// stylesheets), each unless its path is already discovered.
    fn add_chunk_files(set: &mut Vec<Asset>, chunk: &Chunk, prefix: Option<&str>, app_url: &str)
        ensures
            views(final(set)@) == add_all(views(old(set)@), leaf_views(chunk@, opt_view(prefix), app_url@)),
    {
        let ghost leaves = leaf_views(chunk@, opt_view(prefix), app_url@);
        let ghost d0 = views(set@);
        let mut it = chunk.assets_iter(prefix, app_url);
        let ghost mut n: int = 0;
        assert(leaves.take(0) =~= Seq::<AssetView>::empty());
        loop
            invariant
                it.wf(),
                0 <= n <= leaves.len(),
                it.remaining() == leaves.skip(n),
                views(set@) == add_all(d0, leaves.take(n)),
            ensures
                views(set@) == add_all(d0, leaves),
            decreases it.remaining().len(),
        {
            match it.next() {
                None => {
                    assert(leaves.take(n) =~= leaves);
                    break;
                },
                Some(a) => {
                    proof {
                        assert(leaves.take(n + 1).drop_last() =~= leaves.take(n));
                        assert(leaves.skip(n).drop_first() =~= leaves.skip(n + 1));
                        assert(leaves[n] == leaves.skip(n)[0]);
                    }
                    add_asset(set, a);
                    proof {
                        n = n + 1;
                    }
                },
            }
        }
    }

    /// Expands a chunk whose own file was just discovered: adds the files it lists
    /// directly, then, if it is an entry, walks its imports depth first, each new
    /// import's file added as a preload and expanded in turn.
    fn iterate_over_chunk_assets(&self, set: &mut Vec<Asset>, chunk: &Chunk, prefix: Option<&str>, app_url: &str)
        ensures
            views(final(set)@) == drain(
                self@,
                add_all(views(old(set)@), leaf_views(chunk@, opt_view(prefix), app_url@)),
                pushed_imports(chunk@),
                opt_view(prefix),
                app_url@,
            ),
    {
        let ghost m = self@;
        let ghost p = opt_view(prefix);
        let ghost u = app_url@;
        proof {
            self.lemma_finite();
        }
        Self::add_chunk_files(set, chunk, prefix, app_url);
        let mut stack: Vec<String> = Vec::new();
        if chunk.is_entry {
            push_reversed(&mut stack, &chunk.imports);
        }
        assert(strings_view(stack@) =~= pushed_imports(chunk@));
        let ghost target = drain(m, views(set@), strings_view(stack@), p, u);
        while stack.len() > 0
            invariant
                m == self@,
                p == opt_view(prefix),
                u == app_url@,
                m.dom().finite(),
                drain(m, views(set@), strings_view(stack@), p, u) == target,
            decreases undiscovered(m, views(set@), p, u).len(), stack@.len(),
        {
            proof {
                lemma_drain_unfold(m, views(set@), strings_view(stack@), p, u);
            }
            let ghost s0 = strings_view(stack@);
            let ghost d0 = views(set@);
            let key = stack.pop().unwrap();
            assert(key@ == s0.last());
            assert(strings_view(stack@) =~= s0.drop_last());
            match self.lookup(key.as_str()) {
                None => {
                    assert((views(set@), strings_view(stack@)) == visit_import(m, d0, s0, p, u));
                },
                Some(c) => {
                    let a = Asset::pre_load(c.file.clone(), prefix, app_url);
                    if !find_path(set, a.path_str()) {
                        set.push(a);
                        assert(views(set@) =~= d0.push(a@));
                        Self::add_chunk_files(set, c, prefix, app_url);
                        if c.is_entry {
                            let ghost st = strings_view(stack@);
                            push_reversed(&mut stack, &c.imports);
                            assert(strings_view(stack@) =~= st + pushed_imports(c@));
                        } else {
                            assert(strings_view(stack@) =~= strings_view(stack@) + pushed_imports(c@));
                        }
                    }
                    assert((views(set@), strings_view(stack@)) == visit_import(m, d0, s0, p, u));
                },
            }
        }
    }

    /// The assets discovered from the entrypoints, in order of discovery.
    fn discover_assets(&self, entrypoints: &Vec<String>, prefix: Option<&str>, app_url: &str) -> (r: Vec<Asset>)
        ensures
            views(r@) == discover(self@, strings_view(entrypoints@), opt_view(prefix), app_url@),
    {
        let ghost m = self@;
        let ghost p = opt_view(prefix);
        let ghost u = app_url@;
        let ghost eps = strings_view(entrypoints@);
        let mut set: Vec<Asset> = Vec::new();
        let mut i: usize = 0;
        assert(eps.take(0) =~= Seq::<Seq<char>>::empty());
        assert(views(set@) =~= Seq::<AssetView>::empty());
        while i < entrypoints.len()
            invariant
                m == self@,
                p == opt_view(prefix),
                u == app_url@,
                eps == strings_view(entrypoints@),
                i <= entrypoints@.len(),
                views(set@) == discover(m, eps.take(i as int), p, u),
            decreases entrypoints@.len() - i,
        {
            let key = entrypoints[i].as_str();
            assert(eps.take(i + 1).drop_last() =~= eps.take(i as int));
            assert(eps.take(i + 1).last() == key@);
            match self.lookup(key) {
                None => {},
                Some(c) => {
                    let a = if ends_with(key, ".css") {
                        Asset::style_sheet(c.file.clone(), prefix, app_url)
                    } else {
                        Asset::entry_point(c.file.clone(), prefix, app_url)
                    };
                    assert(a@ == entry_asset(key@, chunk_path(m[key@], p, u)));
                    if !find_path(&set, a.path_str()) {
                        let ghost d1 = views(set@);
                        set.push(a);
                        assert(views(set@) =~= d1.push(a@));
                        self.iterate_over_chunk_assets(&mut set, c, prefix, app_url);
                    }
                },
            }
            assert(views(set@) == visit_entry(m, discover(m, eps.take(i as int), p, u), key@, p, u));
            i = i + 1;
        }
        assert(eps.take(i as int) =~= eps);
        set
    }

    /// Renders the HTML tags that load the entrypoints: the closure of assets
    /// reachable from them (see `discover`), each path once, stylesheets first,
    /// then entry scripts, then preloads, each group in ascending path order, one
    /// tag per line.
    pub fn generate_html_tags(&self, entrypoints: &Vec<String>, prefix: Option<&str>, app_url: &str) -> (r: String)
        ensures
            r@ == tags_html(self@, strings_view(entrypoints@), opt_view(prefix), app_url@),
    {
        let discovered = self.discover_assets(entrypoints, prefix, app_url);
        let assets = sort_by_precedence(discovered);
        render_lines(&assets)
    }

    /// The keys of every chunk marked as an entry.
    pub fn get_manifest_entries(&self) -> (r: Vec<&str>)
        ensures
            str_views(r@).no_duplicates(),
            forall|k: Seq<char>|
                str_views(r@).contains(k) <==> (self@.contains_key(k) && self@[k].is_entry),
    {
        proof {
            use_type_invariant(self);
            lemma_map_of(entries_view(self.entries@));
        }
        let ghost ev = entries_view(self.entries@);
        let mut r: Vec<&str> = Vec::new();
        let mut i: usize = 0;
        while i < self.entries.len()
            invariant
                ev == entries_view(self.entries@),
                keys_unique(ev),
                i <= ev.len(),
                str_views(r@).no_duplicates(),
                forall|k: Seq<char>|
                    #[trigger] str_views(r@).contains(k) <==> exists|j: int|
                        0 <= j < i && #[trigger] ev[j].0 == k && ev[j].1.is_entry,
            decreases ev.len() - i,
        {
            let ghost before = str_views(r@);
            let is_entry = self.entries[i].1.is_entry;
            if is_entry {
                r.push(self.entries[i].0.as_str());
                proof {
                    let after = str_views(r@);
                    assert(after =~= before.push(ev[i as int].0));
                    assert(!before.contains(ev[i as int].0)) by {
                        if before.contains(ev[i as int].0) {
                            let j = choose|j: int| 0 <= j < i && #[trigger] ev[j].0 == ev[i as int].0 && ev[j].1.is_entry;
                        }
                    }
                }
            }
            proof {
                let after = str_views(r@);
                assert(is_entry == ev[i as int].1.is_entry);
                assert forall|k: Seq<char>| #[trigger] after.contains(k) <==> exists|j: int|
                    0 <= j < i + 1 && #[trigger] ev[j].0 == k && ev[j].1.is_entry by {
                    if after.contains(k) {
                        if before.contains(k) {
                            let j = choose|j: int| 0 <= j < i && #[trigger] ev[j].0 == k && ev[j].1.is_entry;
                            assert(0 <= j < i + 1 && ev[j].0 == k && ev[j].1.is_entry);
                        } else {
                            let q = choose|q: int| 0 <= q < after.len() && after[q] == k;
                            if q < before.len() {
                                assert(before[q] == k);
                            }
                            assert(ev[i as int].0 == k);
                        }
                    }
                    if exists|j: int| 0 <= j < i + 1 && #[trigger] ev[j].0 == k && ev[j].1.is_entry {
                        let j = choose|j: int| 0 <= j < i + 1 && #[trigger] ev[j].0 == k && ev[j].1.is_entry;
                        if j < i {
                            assert(before.contains(k));
                            let q = choose|q: int| 0 <= q < before.len() && before[q] == k;
                            assert(after[q] == k);
                        } else {
                            assert(after[after.len() - 1] == k);
                        }
                    }
                }
            }
            i = i + 1;
        }
        proof {
            assert forall|k: Seq<char>|
                str_views(r@).contains(k) <==> (self@.contains_key(k) && self@[k].is_entry) by {
                if self@.contains_key(k) {
                    let j = choose|j: int| 0 <= j < ev.len() && #[trigger] ev[j].0 == k;
                    assert(self@[k] == ev[j].1);
                }
            }
        }
        r
    }

    /// The URL of the file that the chunk of `asset` was built into, or an empty
    /// string when no chunk has that key.
    pub fn get_asset_url(&self, asset: &str, prefix: Option<&str>, app_url: &str) -> (r: String)
        ensures
            r@ == asset_url(self@, asset@, opt_view(prefix), app_url@),
    {
        match self.lookup(asset) {
            None => String::new(),
            Some(chunk) => Asset::resolve_asset_path(chunk.file.clone(), prefix, app_url),
        }
    }

    /// The chunk of a key, if any.
    pub fn lookup(&self, key: &str) -> (r: Option<&Chunk>)
        ensures
            r is Some <==> self@.contains_key(key@),
            r matches Some(c) ==> c@ == self@[key@],
    {
        let ghost ev = entries_view(self.entries@);
        let mut i: usize = 0;
        while i < self.entries.len()
            invariant
                ev == entries_view(self.entries@),
                i <= self.entries@.len(),
                forall|k: int| 0 <= k < i ==> ev[k].0 != key@,
            decreases self.entries@.len() - i,
        {
            if str_eq(self.entries[i].0.as_str(), key) {
                proof {
                    use_type_invariant(self);
                    lemma_map_of(ev);
                    assert(ev[i as int].0 == key@);
                }
                return Some(&self.entries[i].1);
            }
            i = i + 1;
        }
        proof {
            lemma_map_of(ev);
        }
        None
    }
}

} // verus!
