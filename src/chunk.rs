//! Manifest entries and the walk over the files one entry lists directly.
use vstd::prelude::*;

use crate::asset::{opt_view, preload_view, resolved_path, stylesheet_view, Asset, AssetView};

verus! {

/// One entry of the build manifest.
#[derive(Debug, Clone)]
pub struct Chunk {
    /// The path for the bundled file (relative to the output directory).
    pub file: String,
    /// The path to the source file.
    pub src: Option<String>,
    /// The name of the source file (without extension).
    pub name: Option<String>,
    /// If chunk is an entry.
    pub is_entry: bool,
    /// If chunk is imported by an entry.
    pub is_dynamic_entry: bool,
    /// If chunk is implicitly required by an entry.
    pub is_implicit_entry: bool,
    /// If chunk is part of a legacy bundle.
    pub is_legacy_entry: bool,
    /// Some hash for verifying the asset's integrity.
    pub integrity: Option<String>,
    /// Keys of the chunks imported by this one.
    pub imports: Vec<String>,
    /// Keys of the chunks lazily imported by this one.
    pub dynamic_imports: Vec<String>,
    /// Stylesheets used by this chunk.
    pub css: Vec<String>,
    /// Other files used by this chunk, e.g. images.
    pub assets: Vec<String>,
}

/// What the resolution reads of a chunk.
pub struct ChunkView {
    pub file: Seq<char>,
    pub is_entry: bool,
    pub imports: Seq<Seq<char>>,
    pub dynamic_imports: Seq<Seq<char>>,
    pub css: Seq<Seq<char>>,
    pub assets: Seq<Seq<char>>,
}

pub open spec fn strings_view(v: Seq<String>) -> Seq<Seq<char>> {
    v.map_values(|s: String| s@)
}

impl View for Chunk {
    type V = ChunkView;

    open spec fn view(&self) -> ChunkView {
        ChunkView {
            file: self.file@,
            is_entry: self.is_entry,
            imports: strings_view(self.imports@),
            dynamic_imports: strings_view(self.dynamic_imports@),
            css: strings_view(self.css@),
            assets: strings_view(self.assets@),
        }
    }
}

/// The files of a list, resolved, as preloads.
pub open spec fn preload_views(files: Seq<Seq<char>>, prefix: Option<Seq<char>>, app_url: Seq<char>) -> Seq<
    AssetView,
> {
    files.map_values(|f: Seq<char>| preload_view(resolved_path(f, prefix, app_url)))
}

/// The files of a list, resolved, as stylesheets.
pub open spec fn stylesheet_views(
    files: Seq<Seq<char>>,
    prefix: Option<Seq<char>>,
    app_url: Seq<char>,
) -> Seq<AssetView> {
    files.map_values(|f: Seq<char>| stylesheet_view(resolved_path(f, prefix, app_url)))
}

/// The files a chunk lists directly: its other files as preloads, then its stylesheets.
pub open spec fn leaf_views(c: ChunkView, prefix: Option<Seq<char>>, app_url: Seq<char>) -> Seq<
    AssetView,
> {
    preload_views(c.assets, prefix, app_url) + stylesheet_views(c.css, prefix, app_url)
}

/// Which list of a chunk a walk is in.
#[derive(Debug, Clone, Copy, PartialEq, Eq, Structural)]
pub enum ChunkIterListTrack {
    Assets,
    Css,
    Eot,
}

impl ChunkIterListTrack {
    /// A walk starts at the chunk's other files.
    pub fn start() -> (r: Self)
        ensures
            r == ChunkIterListTrack::Assets,
    {
        ChunkIterListTrack::Assets
    }
}

/// A walk over the files a chunk lists directly.
pub struct ChunkIter<'a> {
    assets: &'a Vec<String>,
    css: &'a Vec<String>,
    index: usize,
    track: ChunkIterListTrack,
    prefix: Option<&'a str>,
    app_url: &'a str,
}

impl<'a> ChunkIter<'a> {
    pub closed spec fn wf(&self) -> bool {
        match self.track {
            ChunkIterListTrack::Assets => self.index <= self.assets@.len(),
            ChunkIterListTrack::Css => self.index <= self.css@.len(),
            ChunkIterListTrack::Eot => true,
        }
    }

    /// The assets the walk has yet to yield, in order.
    pub closed spec fn remaining(&self) -> Seq<AssetView> {
        let p = opt_view(self.prefix);
        let u = self.app_url@;
        match self.track {
            ChunkIterListTrack::Assets => preload_views(
                strings_view(self.assets@).skip(self.index as int),
                p,
                u,
            ) + stylesheet_views(strings_view(self.css@), p, u),
            ChunkIterListTrack::Css => stylesheet_views(
                strings_view(self.css@).skip(self.index as int),
                p,
                u,
            ),
            ChunkIterListTrack::Eot => Seq::empty(),
        }
    }

    /// Yields the next asset, or `None` once both lists are done.
    pub fn next(&mut self) -> (r: Option<Asset>)
        requires
            old(self).wf(),
        ensures
            final(self).wf(),
            old(self).remaining().len() == 0 ==> r is None && final(self).remaining().len() == 0,
            old(self).remaining().len() > 0 ==> (r matches Some(a) && a@ == old(
                self,
            ).remaining()[0] && final(self).remaining() == old(self).remaining().drop_first()),
    {
        let ghost p = opt_view(self.prefix);
        let ghost u = self.app_url@;
        if self.track == ChunkIterListTrack::Assets {
            if self.index < self.assets.len() {
                let a = Asset::pre_load(self.assets[self.index].clone(), self.prefix, self.app_url);
                let ghost s = strings_view(self.assets@);
                self.index = self.index + 1;
                proof {
                    assert(s.skip(self.index - 1).drop_first() =~= s.skip(self.index as int));
                    assert(preload_views(s.skip(self.index - 1), p, u).drop_first() =~= preload_views(
                        s.skip(self.index as int),
                        p,
                        u,
                    ));
                    assert(old(self).remaining().drop_first() =~= self.remaining());
                }
                return Some(a);
            } else {
                proof {
                    assert(strings_view(self.assets@).skip(self.index as int).len() == 0);
                    assert(strings_view(self.css@).skip(0) =~= strings_view(self.css@));
                }
                self.track = ChunkIterListTrack::Css;
                self.index = 0;
                proof {
                    assert(old(self).remaining() =~= self.remaining());
                }
            }
        }
        if self.track == ChunkIterListTrack::Css {
            if self.index < self.css.len() {
                let a = Asset::style_sheet(self.css[self.index].clone(), self.prefix, self.app_url);
                let ghost s = strings_view(self.css@);
                let ghost before = self.remaining();
                self.index = self.index + 1;
                proof {
                    assert(s.skip(self.index - 1).drop_first() =~= s.skip(self.index as int));
                    assert(before.drop_first() =~= self.remaining());
                    assert(before =~= old(self).remaining());
                }
                return Some(a);
            } else {
                self.track = ChunkIterListTrack::Eot;
                self.index = 0;
            }
        }
        None
    }
}

impl Chunk {
    /// A chunk whose lists are all empty and whose flags are all off.
    pub fn new(file: String) -> (r: Chunk)
        ensures
            r.file == file,
            r.src is None,
            r.name is None,
            r.integrity is None,
            !r.is_entry && !r.is_dynamic_entry && !r.is_implicit_entry && !r.is_legacy_entry,
            r.imports@.len() == 0,
            r.dynamic_imports@.len() == 0,
            r.css@.len() == 0,
            r.assets@.len() == 0,
    {
        Chunk {
            file,
            src: None,
            name: None,
            is_entry: false,
            is_dynamic_entry: false,
            is_implicit_entry: false,
            is_legacy_entry: false,
            integrity: None,
            imports: Vec::new(),
            dynamic_imports: Vec::new(),
            css: Vec::new(),
            assets: Vec::new(),
        }
    }

    /// Walks the chunk's other files (as preloads), then its stylesheets, each
    /// resolved against the prefix and the application URL.
    pub fn assets_iter<'a>(&'a self, prefix: Option<&'a str>, app_url: &'a str) -> (r: ChunkIter<'a>)
        ensures
            r.wf(),
            r.remaining() == leaf_views(self@, opt_view(prefix), app_url@),
    {
        let r = ChunkIter {
            assets: &self.assets,
            css: &self.css,
            index: 0,
            track: ChunkIterListTrack::start(),
            prefix,
            app_url,
        };
        assert(strings_view(self.assets@).skip(0) =~= strings_view(self.assets@));
        r
    }
}

} // verus!
