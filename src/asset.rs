//! Renderable assets: their kinds, their order, their paths and their HTML tags.
use vstd::prelude::*;

use crate::text::{ends_with, has_suffix, seq_lt, str_lt};

verus! {

/// One asset to load: a stylesheet, an entry script, or a file to preload, each
/// carrying its resolved path.
#[derive(Debug, Clone)]
pub enum Asset {
    StyleSheet(String),
    EntryPoint(String),
    Preload(String),
}

/// The kind of a preloaded file, by its extension; it only picks the tag's attributes.
#[derive(Debug, Clone, Copy, PartialEq, Eq, Structural)]
pub enum PreloadAsset {
    JavaScript,
    Image,
    Font,
    Video,
    Audio,
    Css,
    Unknown,
}

/// Views an optional string slice as an optional character sequence.
pub open spec fn opt_view(o: Option<&str>) -> Option<Seq<char>> {
    match o {
        Some(s) => Some(s@),
        None => None,
    }
}

/// `{app_url}/{prefix}/{file}` when the prefix is present and non-empty,
/// `{app_url}/{file}` otherwise.
pub open spec fn resolved_path(file: Seq<char>, prefix: Option<Seq<char>>, app_url: Seq<char>) -> Seq<
    char,
> {
    match prefix {
        Some(p) if p.len() > 0 => app_url + seq!['/'] + p + seq!['/'] + file,
        _ => app_url + seq!['/'] + file,
    }
}

pub open spec fn is_image(p: Seq<char>) -> bool {
    has_suffix(p, ".png"@) || has_suffix(p, ".jpg"@) || has_suffix(p, ".gif"@) || has_suffix(
        p,
        ".svg"@,
    ) || has_suffix(p, ".webp"@)
}

pub open spec fn is_font(p: Seq<char>) -> bool {
    has_suffix(p, ".woff"@) || has_suffix(p, ".woff2"@) || has_suffix(p, ".ttf"@) || has_suffix(
        p,
        ".eot"@,
    )
}

pub open spec fn is_video(p: Seq<char>) -> bool {
    has_suffix(p, ".mp4"@) || has_suffix(p, ".webm"@) || has_suffix(p, ".mov"@)
}

pub open spec fn is_audio(p: Seq<char>) -> bool {
    has_suffix(p, ".mp3"@) || has_suffix(p, ".wav"@) || has_suffix(p, ".aac"@) || has_suffix(
        p,
        ".m4a"@,
    )
}

/// The preload kind of a path: the first extension group that matches.
pub open spec fn preload_kind(p: Seq<char>) -> PreloadAsset {
    if has_suffix(p, ".js"@) {
        PreloadAsset::JavaScript
    } else if has_suffix(p, ".css"@) {
        PreloadAsset::Css
    } else if is_image(p) {
        PreloadAsset::Image
    } else if is_font(p) {
        PreloadAsset::Font
    } else if is_video(p) {
        PreloadAsset::Video
    } else if is_audio(p) {
        PreloadAsset::Audio
    } else {
        PreloadAsset::Unknown
    }
}

/// `<link rel="preload" as="{what}" href="{p}" />`
pub open spec fn preload_tag(what: Seq<char>, p: Seq<char>) -> Seq<char> {
    "<link rel=\"preload\" as=\""@ + what + "\" href=\""@ + p + "\" />"@
}

/// What an asset stands for: its place in the kind order (stylesheets 0, entry
/// scripts 1, preloads 2) and its resolved path.
pub struct AssetView {
    pub rank: int,
    pub path: Seq<char>,
}

pub open spec fn stylesheet_view(path: Seq<char>) -> AssetView {
    AssetView { rank: 0, path }
}

pub open spec fn entry_view(path: Seq<char>) -> AssetView {
    AssetView { rank: 1, path }
}

pub open spec fn preload_view(path: Seq<char>) -> AssetView {
    AssetView { rank: 2, path }
}

/// The total order of assets: by kind, then by path.
pub open spec fn view_lt(a: AssetView, b: AssetView) -> bool {
    a.rank < b.rank || (a.rank == b.rank && seq_lt(a.path, b.path))
}

/// The HTML tag that loads an asset.
pub open spec fn render(a: AssetView) -> Seq<char> {
    let p = a.path;
    if a.rank == 0 {
        "<link rel=\"stylesheet\" href=\""@ + p + "\" />"@
    } else if a.rank == 1 {
        "<script type=\"module\" src=\""@ + p + "\"></script>"@
    } else {
        match preload_kind(p) {
            PreloadAsset::JavaScript => "<link rel=\"modulepreload\" href=\""@ + p + "\" />"@,
            PreloadAsset::Css => preload_tag("style"@, p),
            PreloadAsset::Image => preload_tag("image"@, p),
            PreloadAsset::Font => preload_tag("font"@, p),
            PreloadAsset::Video => preload_tag("video"@, p),
            PreloadAsset::Audio => preload_tag("audio"@, p),
            PreloadAsset::Unknown => Seq::empty(),
        }
    }
}

impl View for Asset {
    type V = AssetView;

    open spec fn view(&self) -> AssetView {
        AssetView { rank: self.rank(), path: self.path() }
    }
}

impl Asset {
    /// The resolved path the asset carries.
    pub open spec fn path(self) -> Seq<char> {
        match self {
            Asset::StyleSheet(p) => p@,
            Asset::EntryPoint(p) => p@,
            Asset::Preload(p) => p@,
        }
    }

    /// Stylesheets come first, then entry scripts, then preloads.
    pub open spec fn rank(self) -> int {
        match self {
            Asset::StyleSheet(_) => 0,
            Asset::EntryPoint(_) => 1,
            Asset::Preload(_) => 2,
        }
    }

    pub fn style_sheet(file: String, prefix: Option<&str>, app_url: &str) -> (r: Self)
        ensures
            r@ == stylesheet_view(resolved_path(file@, opt_view(prefix), app_url@)),
    {
        Asset::StyleSheet(Self::resolve_asset_path(file, prefix, app_url))
    }

    pub fn entry_point(file: String, prefix: Option<&str>, app_url: &str) -> (r: Self)
        ensures
            r@ == entry_view(resolved_path(file@, opt_view(prefix), app_url@)),
    {
        Asset::EntryPoint(Self::resolve_asset_path(file, prefix, app_url))
    }

    pub fn pre_load(file: String, prefix: Option<&str>, app_url: &str) -> (r: Self)
        ensures
            r@ == preload_view(resolved_path(file@, opt_view(prefix), app_url@)),
    {
        Asset::Preload(Self::resolve_asset_path(file, prefix, app_url))
    }

    /// Borrows the resolved path.
    pub fn path_str(&self) -> (r: &str)
        ensures
            r@ == self.path(),
    {
        match self {
            Asset::StyleSheet(p) => p.as_str(),
            Asset::EntryPoint(p) => p.as_str(),
            Asset::Preload(p) => p.as_str(),
        }
    }

    /// Tells whether this asset comes strictly before `other` in the output order.
    pub fn precedes(&self, other: &Asset) -> (r: bool)
        ensures
            r == view_lt(self@, other@),
    {
        let (ra, rb) = (self.rank_exec(), other.rank_exec());
        if ra != rb {
            ra < rb
        } else {
            str_lt(self.path_str(), other.path_str())
        }
    }

    fn rank_exec(&self) -> (r: u8)
        ensures
            r as int == self.rank(),
    {
        match self {
            Asset::StyleSheet(_) => 0,
            Asset::EntryPoint(_) => 1,
            Asset::Preload(_) => 2,
        }
    }

    /// Renders the asset as the HTML tag that loads it.
    pub fn into_html(self) -> (r: String)
        ensures
            r@ == render(self@),
    {
        self.to_html()
    }

    /// Renders the asset as the HTML tag that loads it, without consuming it.
    pub fn to_html(&self) -> (r: String)
        ensures
            r@ == render(self@),
    {
        match self {
            Asset::StyleSheet(file) => {
                let mut r = String::from_str("<link rel=\"stylesheet\" href=\"");
                r.append(file.as_str());
                r.append("\" />");
                r
            },
            Asset::EntryPoint(file) => {
                let mut r = String::from_str("<script type=\"module\" src=\"");
                r.append(file.as_str());
                r.append("\"></script>");
                r
            },
            Asset::Preload(file) => match Asset::get_file_type(file.as_str()) {
                PreloadAsset::JavaScript => {
                    let mut r = String::from_str("<link rel=\"modulepreload\" href=\"");
                    r.append(file.as_str());
                    r.append("\" />");
                    r
                },
                PreloadAsset::Css => Self::preload_link("style", file.as_str()),
                PreloadAsset::Image => Self::preload_link("image", file.as_str()),
                PreloadAsset::Font => Self::preload_link("font", file.as_str()),
                PreloadAsset::Video => Self::preload_link("video", file.as_str()),
                PreloadAsset::Audio => Self::preload_link("audio", file.as_str()),
                PreloadAsset::Unknown => String::new(),
            },
        }
    }

    fn preload_link(what: &str, file: &str) -> (r: String)
        ensures
            r@ == preload_tag(what@, file@),
    {
        let mut r = String::from_str("<link rel=\"preload\" as=\"");
        r.append(what);
        r.append("\" href=\"");
        r.append(file);
        r.append("\" />");
        r
    }

    /// Classifies a preloaded file by its extension.
    pub fn get_file_type(file: &str) -> (r: PreloadAsset)
        ensures
            r == preload_kind(file@),
    {
        if ends_with(file, ".js") {
            return PreloadAsset::JavaScript;
        }
        if ends_with(file, ".css") {
            return PreloadAsset::Css;
        }
        if ends_with(file, ".png") || ends_with(file, ".jpg") || ends_with(file, ".gif")
            || ends_with(file, ".svg") || ends_with(file, ".webp") {
            return PreloadAsset::Image;
        }
        if ends_with(file, ".woff") || ends_with(file, ".woff2") || ends_with(file, ".ttf")
            || ends_with(file, ".eot") {
            return PreloadAsset::Font;
        }
        if ends_with(file, ".mp4") || ends_with(file, ".webm") || ends_with(file, ".mov") {
            return PreloadAsset::Video;
        }
        if ends_with(file, ".mp3") || ends_with(file, ".wav") || ends_with(file, ".aac")
            || ends_with(file, ".m4a") {
            return PreloadAsset::Audio;
        }
        PreloadAsset::Unknown
    }

    /// Joins the application URL, the prefix and the file into one path.
    pub fn resolve_asset_path(file: String, prefix: Option<&str>, app_url: &str) -> (r: String)
        ensures
            r@ == resolved_path(file@, opt_view(prefix), app_url@),
    {
        proof {
            reveal_strlit("/");
        }
        let mut r = String::from_str(app_url);
        r.append("/");
        match prefix {
            Some(p) => {
                if p.unicode_len() > 0 {
                    r.append(p);
                    r.append("/");
                }
            },
            None => {},
        }
        r.append(file.as_str());
        r
    }
}

impl PartialEq for Asset {
    /// Assets are equal when their resolved paths are, whatever their kind.
    fn eq(&self, other: &Asset) -> (r: bool) {
        let a = self.path_str();
        let b = other.path_str();
        let r = !str_lt(a, b) && !str_lt(b, a);
        proof {
            crate::text::lemma_seq_lt_total(a@, b@);
            crate::text::lemma_seq_lt_irreflexive(a@);
        }
        r
    }
}

impl vstd::std_specs::cmp::PartialEqSpecImpl for Asset {
    open spec fn obeys_eq_spec() -> bool {
        true
    }

    open spec fn eq_spec(&self, other: &Asset) -> bool {
        self.path() == other.path()
    }
}

} // verus!
