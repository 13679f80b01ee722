//! The façade: a resolved mode, the manifest when one is needed, and the tags,
//! scripts and URLs rendered from them.
use vstd::prelude::*;

use crate::asset::{entry_view, opt_view, render, stylesheet_view, Asset};
use crate::chunk::{strings_view, ChunkView};
use crate::config::{ViteConfig, ViteMode, DEFAULT_SERVER_HOST};
use crate::error::{ViteError, ViteErrorKind};
use crate::heart_beat::CLIENT_SCRIPT_PATH;
use crate::manifest::{asset_url, str_views, tags_html, Manifest};
use crate::order::join_lines;
use crate::text::{
    drop_leading_slash, drop_trailing_slash, ends_with, has_suffix, remove_char,
    strip_leading_slash, strip_trailing_slash, without_char,
};

verus! {

/// The React fast-refresh preamble, before the server URL.
pub const REACT_PREAMBLE_HEAD: &'static str = "<script type=\"module\">\n                import RefreshRuntime from '";

/// The React fast-refresh preamble, after the server URL.
pub const REACT_PREAMBLE_TAIL: &'static str = "/@react-refresh'\n                RefreshRuntime.injectIntoGlobalHook(window)\n                window.$RefreshReg$ = () => {}\n                window.$RefreshSig$ = () => (type) => type\n                window.__vite_plugin_react_preamble_installed__ = true\n            </script>";

/// A prefix as it is used in paths: none when absent, empty or a lone slash;
/// otherwise without one leading and one trailing slash.
pub open spec fn resolved_prefix(prefix: Option<Seq<char>>) -> Option<Seq<char>> {
    match prefix {
        None => None,
        Some(p) => if p.len() == 0 || p == seq!['/'] {
            None
        } else {
            Some(drop_trailing_slash(drop_leading_slash(p)))
        },
    }
}

/// The application URL without one trailing slash: the configured one, else the
/// one from the environment, else empty.
pub open spec fn resolved_app_url(configured: Option<Seq<char>>, from_env: Option<Seq<char>>) -> Seq<
    char,
> {
    match configured {
        Some(u) => drop_trailing_slash(u),
        None => match from_env {
            Some(u) => drop_trailing_slash(u),
            None => Seq::empty(),
        },
    }
}

/// An asset path as it is looked up: one leading slash and all single quotes removed.
pub open spec fn clean_asset_path(path: Seq<char>) -> Seq<char> {
    without_char(drop_leading_slash(path), '\'')
}

/// The tag that loads an entrypoint from its URL: a stylesheet for `.css`, else a script.
pub open spec fn entry_tag(entry: Seq<char>, url: Seq<char>) -> Seq<char> {
    if has_suffix(entry, ".css"@) {
        render(stylesheet_view(url))
    } else {
        render(entry_view(url))
    }
}

/// The script tag of the hot-module-reload client on the development server.
pub open spec fn hmr_script(host: Seq<char>) -> Seq<char> {
    "<script type=\"module\" src=\""@ + host + seq!['/'] + CLIENT_SCRIPT_PATH@ + "\"></script>"@
}

/// Resolves a configured prefix as it is used in paths.
pub fn resolve_prefix(prefix: Option<&str>) -> (r: Option<String>)
    ensures
        opt_string_view(r) == resolved_prefix(opt_view(prefix)),
{
    proof {
        reveal_strlit("/");
    }
    match prefix {
        None => None,
        Some(p) => {
            if p.unicode_len() == 0 || crate::text::str_eq(p, "/") {
                assert("/"@ =~= seq!['/']);
                return None;
            }
            assert("/"@ =~= seq!['/']);
            let p = strip_trailing_slash(strip_leading_slash(p));
            Some(String::from_str(p))
        },
    }
}

/// Resolves the application URL from the configured one, else the one the
/// environment gives.
pub fn resolve_app_url(app_url: Option<&str>, env_app_url: Option<&str>) -> (r: String)
    ensures
        r@ == resolved_app_url(opt_view(app_url), opt_view(env_app_url)),
{
    match app_url {
        Some(u) => String::from_str(strip_trailing_slash(u)),
        None => match env_app_url {
            Some(u) => String::from_str(strip_trailing_slash(u)),
            None => String::new(),
        },
    }
}

/// Views an optional string as an optional character sequence.
pub open spec fn opt_string_view(o: Option<String>) -> Option<Seq<char>> {
    match o {
        Some(s) => Some(s@),
        None => None,
    }
}

/// A resolution session: the mode, the manifest when one was needed, the
/// entrypoints, and the paths that assets are resolved against.
#[derive(Debug)]
pub struct Vite {
    manifest: Option<Manifest>,
    entrypoints: Vec<String>,
    mode: ViteMode,
    dev_server_host: String,
    prefix: Option<String>,
    app_url: String,
}

impl Vite {
    pub closed spec fn manifest_view(&self) -> Option<Map<Seq<char>, ChunkView>> {
        match self.manifest {
            Some(m) => Some(m@),
            None => None,
        }
    }

    pub closed spec fn hash_view(&self) -> Option<Seq<char>> {
        match self.manifest {
            Some(m) => Some(m.hash_view()),
            None => None,
        }
    }

    pub closed spec fn entrypoints_view(&self) -> Seq<Seq<char>> {
        strings_view(self.entrypoints@)
    }

    pub closed spec fn mode_view(&self) -> ViteMode {
        self.mode
    }

    pub closed spec fn host_view(&self) -> Seq<char> {
        self.dev_server_host@
    }

    pub closed spec fn prefix_view(&self) -> Option<Seq<char>> {
        opt_string_view(self.prefix)
    }

    pub closed spec fn app_url_view(&self) -> Seq<char> {
        self.app_url@
    }

    /// Asset URLs can be resolved: in development mode, or with a manifest.
    pub open spec fn urls_available(&self) -> bool {
        self.mode_view() == ViteMode::Development || self.manifest_view() is Some
    }

    /// The URL of an asset path: on the development server in development mode,
    /// else the built file the manifest names (empty when it names none).
    pub open spec fn url_of(&self, path: Seq<char>) -> Seq<char> {
        let p = clean_asset_path(path);
        if self.mode_view() == ViteMode::Development {
            self.host_view() + seq!['/'] + p
        } else {
            asset_url(self.manifest_view().unwrap(), p, self.prefix_view(), self.app_url_view())
        }
    }

    /// The tags that load the entrypoints straight from the development server.
    pub open spec fn development_scripts(&self) -> Seq<char> {
        join_lines(
            self.entrypoints_view().map_values(|e: Seq<char>| entry_tag(e, self.url_of(e))),
        )
    }

    /// Assembles a session from its configuration, the mode that was resolved for
    /// it, the manifest when the configuration needs one under that mode, and the
    /// application URL the environment gives, if any.
    pub fn new(config: &ViteConfig, mode: ViteMode, manifest: Option<Manifest>, env_app_url: Option<&str>) -> (r: Vite)
        requires
            config.manifest_needed(mode) ==> manifest is Some,
        ensures
            r.mode_view() == mode,
            r.manifest_view() == (match manifest {
                Some(m) => Some(m@),
                None => None::<Map<Seq<char>, ChunkView>>,
            }),
            r.hash_view() == (match manifest {
                Some(m) => Some(m.hash_view()),
                None => None::<Seq<char>>,
            }),
            r.host_view() == (match config.server_host {
                Some(h) => h@,
                None => DEFAULT_SERVER_HOST@,
            }),
            r.prefix_view() == resolved_prefix(opt_view(config.prefix)),
            r.app_url_view() == resolved_app_url(opt_view(config.app_url), opt_view(env_app_url)),
            config.entrypoints matches Some(eps) ==> r.entrypoints_view() == str_views(eps@),
            config.entrypoints is None ==> {
                &&& r.entrypoints_view().no_duplicates()
                &&& forall|k: Seq<char>|
                    #[trigger] r.entrypoints_view().contains(k) <==> (r.manifest_view().unwrap().contains_key(k)
                        && r.manifest_view().unwrap()[k].is_entry)
            },
    {
        let dev_server_host = match config.server_host {
            Some(h) => String::from_str(h),
            None => String::from_str(DEFAULT_SERVER_HOST),
        };
        let entrypoints = match &config.entrypoints {
            Some(eps) => to_strings(eps),
            None => match &manifest {
                Some(m) => to_strings(&m.get_manifest_entries()),
                None => Vec::new(),
            },
        };
        let prefix = resolve_prefix(config.prefix);
        let app_url = resolve_app_url(config.app_url, env_app_url);
        Vite { manifest, entrypoints, mode, dev_server_host, prefix, app_url }
    }

    /// The HTML tags that load the entrypoints from the built output.
    pub fn get_tags(&self) -> (r: Result<String, ViteError>)
        ensures
            match self.manifest_view() {
                Some(m) => r matches Ok(t) && t@ == tags_html(
                    m,
                    self.entrypoints_view(),
                    self.prefix_view(),
                    self.app_url_view(),
                ),
                None => r matches Err(e) && e.kind_view() == ViteErrorKind::Manifest,
            },
    {
        match &self.manifest {
            Some(manifest) => {
                let prefix = match &self.prefix {
                    Some(p) => Some(p.as_str()),
                    None => None,
                };
                Ok(manifest.generate_html_tags(&self.entrypoints, prefix, self.app_url.as_str()))
            },
            None => Err(
                ViteError::new(
                    "Tried to get html tags from manifest, but there is no manifest file.",
                    ViteErrorKind::Manifest,
                ),
            ),
        }
    }

    /// The tags that load the entrypoints straight from their URLs, one per line.
    pub fn get_development_scripts(&self) -> (r: Result<String, ViteError>)
        ensures
            r is Ok <==> (self.urls_available() || self.entrypoints_view().len() == 0),
            r matches Ok(t) ==> t@ == self.development_scripts(),
            r matches Err(e) ==> e.kind_view() == ViteErrorKind::Manifest,
    {
        let ghost lines = self.entrypoints_view().map_values(|e: Seq<char>| entry_tag(e, self.url_of(e)));
        let mut tags = String::new();
        let mut i: usize = 0;
        assert(lines.take(0) =~= Seq::<Seq<char>>::empty());
        while i < self.entrypoints.len()
            invariant
                lines == self.entrypoints_view().map_values(|e: Seq<char>| entry_tag(e, self.url_of(e))),
                i <= self.entrypoints@.len(),
                i > 0 ==> self.urls_available(),
                tags@ == join_lines(lines.take(i as int)),
            decreases self.entrypoints@.len() - i,
        {
            let entry = self.entrypoints[i].as_str();
            let url = match self.get_asset_url(entry) {
                Ok(u) => u,
                Err(e) => return Err(e),
            };
            let tag = if ends_with(entry, ".css") {
                Asset::StyleSheet(url).into_html()
            } else {
                Asset::EntryPoint(url).into_html()
            };
            proof {
                reveal_strlit("\n");
                assert(entry@ == self.entrypoints_view()[i as int]);
                assert(lines[i as int] == tag@);
                assert(lines.take(i + 1).drop_last() =~= lines.take(i as int));
                assert(lines.take(i + 1).last() == tag@);
                assert("\n"@ =~= seq!['\n']);
            }
            if i > 0 {
                tags.append("\n");
            } else {
                assert(lines.take(1) =~= seq![tag@]);
            }
            tags.append(tag.as_str());
            i = i + 1;
        }
        assert(lines.take(i as int) =~= lines);
        Ok(tags)
    }

    /// In development mode, the development scripts and then the HMR client
    /// script; in manifest mode, the tags from the built output.
    pub fn get_resolved_vite_scripts(&self) -> (r: Result<String, ViteError>)
        ensures
            self.mode_view() == ViteMode::Development ==> (r matches Ok(t) && t@
                == self.development_scripts() + seq!['\n'] + hmr_script(self.host_view())),
            self.mode_view() == ViteMode::Manifest ==> match self.manifest_view() {
                Some(m) => r matches Ok(t) && t@ == tags_html(
                    m,
                    self.entrypoints_view(),
                    self.prefix_view(),
                    self.app_url_view(),
                ),
                None => r is Err,
            },
    {
        match self.mode {
            ViteMode::Development => {
                let mut r = match self.get_development_scripts() {
                    Ok(s) => s,
                    Err(e) => return Err(e),
                };
                proof {
                    reveal_strlit("\n");
                }
                r.append("\n");
                let hmr = self.get_hmr_script();
                r.append(hmr.as_str());
                Ok(r)
            },
            ViteMode::Manifest => self.get_tags(),
        }
    }

    /// The script tag of the HMR client in development mode; empty in manifest mode.
    pub fn get_hmr_script(&self) -> (r: String)
        ensures
            r@ == (if self.mode_view() == ViteMode::Development {
                hmr_script(self.host_view())
            } else {
                Seq::empty()
            }),
    {
        match self.mode {
            ViteMode::Development => {
                proof {
                    reveal_strlit("/");
                }
                let mut r = String::from_str("<script type=\"module\" src=\"");
                r.append(self.dev_server_host.as_str());
                r.append("/");
                r.append(CLIENT_SCRIPT_PATH);
                r.append("\"></script>");
                assert("/"@ =~= seq!['/']);
                r
            },
            ViteMode::Manifest => String::new(),
        }
    }

    /// The URL of an asset path (one leading slash and all single quotes removed):
    /// on the development server in development mode, else the built file the
    /// manifest names, or an empty string when it names none.
    pub fn get_asset_url(&self, path: &str) -> (r: Result<String, ViteError>)
        ensures
            r is Ok <==> self.urls_available(),
            r matches Ok(u) ==> u@ == self.url_of(path@),
            r matches Err(e) ==> e.kind_view() == ViteErrorKind::Manifest,
    {
        let path = remove_char(strip_leading_slash(path), '\'');
        match self.mode {
            ViteMode::Development => {
                proof {
                    reveal_strlit("/");
                }
                let mut r = String::from_str(self.dev_server_host.as_str());
                r.append("/");
                r.append(path.as_str());
                assert("/"@ =~= seq!['/']);
                Ok(r)
            },
            ViteMode::Manifest => match &self.manifest {
                Some(manifest) => {
                    let prefix = match &self.prefix {
                        Some(p) => Some(p.as_str()),
                        None => None,
                    };
                    Ok(manifest.get_asset_url(path.as_str(), prefix, self.app_url.as_str()))
                },
                None => Err(
                    ViteError::new(
                        "Tried to get asset's URL from manifest, but there is no manifest file.",
                        ViteErrorKind::Manifest,
                    ),
                ),
            },
        }
    }

    /// The React fast-refresh preamble, pointing at the development server.
    pub fn get_react_script(&self) -> (r: String)
        ensures
            r@ == REACT_PREAMBLE_HEAD@ + self.host_view() + REACT_PREAMBLE_TAIL@,
    {
        let mut r = String::from_str(REACT_PREAMBLE_HEAD);
        r.append(self.dev_server_host.as_str());
        r.append(REACT_PREAMBLE_TAIL);
        r
    }

    /// The manifest's content hash, when a manifest was loaded.
    #[inline]
    pub fn get_hash(&self) -> (r: Option<&str>)
        ensures
            match r {
                Some(h) => self.hash_view() == Some(h@),
                None => self.hash_view() is None,
            },
    {
        match &self.manifest {
            Some(manifest) => Some(manifest.get_hash()),
            None => None,
        }
    }

    /// The development server's address.
    pub fn get_dev_server_url(&self) -> (r: &str)
        ensures
            r@ == self.host_view(),
    {
        self.dev_server_host.as_str()
    }

    /// The resolved mode.
    pub fn mode(&self) -> (r: &ViteMode)
        ensures
            *r == self.mode_view(),
    {
        &self.mode
    }
}

/// Copies string slices into owned strings.
fn to_strings(v: &Vec<&str>) -> (r: Vec<String>)
    ensures
        strings_view(r@) == str_views(v@),
{
    let mut r: Vec<String> = Vec::new();
    let mut i: usize = 0;
    while i < v.len()
        invariant
            i <= v@.len(),
            strings_view(r@) == str_views(v@).take(i as int),
        decreases v@.len() - i,
    {
        let ghost before = strings_view(r@);
        r.push(String::from_str(v[i]));
        assert(strings_view(r@) =~= before.push(v@[i as int]@));
        assert(str_views(v@).take(i + 1) =~= str_views(v@).take(i as int).push(v@[i as int]@));
        i = i + 1;
    }
    assert(str_views(v@).take(i as int) =~= str_views(v@));
    r
}

} // verus!
