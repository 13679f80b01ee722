use vite_rust::asset::Asset;
use vite_rust::chunk::Chunk;
use vite_rust::manifest::Manifest;
use vite_rust::vite::resolve_prefix;

const TEST_MANIFEST: &str = r#"{
  "_shared-B7PI925R.js": {
    "file": "assets/shared-B7PI925R.js",
    "name": "shared",
    "css": ["assets/shared-ChJ_j-JJ.css"]
  },
  "baz.js": {
    "file": "assets/baz-B2H3sXNv.js",
    "name": "baz",
    "src": "baz.js",
    "isEntry": true
  },
  "views/bar.js": {
    "file": "assets/bar-gkvgaI9m.js",
    "name": "bar",
    "src": "views/bar.js",
    "isEntry": true,
    "imports": ["_shared-B7PI925R.js"]
  },
  "views/foo.js": {
    "file": "assets/foo-BRBmoGS9.js",
    "name": "foo",
    "src": "views/foo.js",
    "isEntry": true,
    "imports": ["_shared-B7PI925R.js"],
    "css": ["assets/foo-5UjPuW-k.css"]
  }
}"#;

fn chunk(file: &str, entry: bool, imports: &[&str], css: &[&str], assets: &[&str]) -> Chunk {
    let mut c = Chunk::new(file.to_string());
    c.is_entry = entry;
    c.imports = imports.iter().map(|s| s.to_string()).collect();
    c.css = css.iter().map(|s| s.to_string()).collect();
    c.assets = assets.iter().map(|s| s.to_string()).collect();
    c
}

fn test_chunks() -> Vec<(String, Chunk)> {
    vec![
        (
            "_shared-B7PI925R.js".to_string(),
            chunk("assets/shared-B7PI925R.js", false, &[], &["assets/shared-ChJ_j-JJ.css"], &[]),
        ),
        ("baz.js".to_string(), chunk("assets/baz-B2H3sXNv.js", true, &[], &[], &[])),
        (
            "views/bar.js".to_string(),
            chunk("assets/bar-gkvgaI9m.js", true, &["_shared-B7PI925R.js"], &[], &[]),
        ),
        (
            "views/foo.js".to_string(),
            chunk(
                "assets/foo-BRBmoGS9.js",
                true,
                &["_shared-B7PI925R.js"],
                &["assets/foo-5UjPuW-k.css"],
                &[],
            ),
        ),
    ]
}

fn test_manifest() -> Manifest {
    Manifest::new(TEST_MANIFEST, test_chunks())
}

fn eps(list: &[&str]) -> Vec<String> {
    list.iter().map(|s| s.to_string()).collect()
}

#[test]
fn test_generate_html_tags_1() {
    let manifest = test_manifest();
    let expected = [
        r#"<link rel="stylesheet" href="/assets/foo-5UjPuW-k.css" />"#,
        r#"<link rel="stylesheet" href="/assets/shared-ChJ_j-JJ.css" />"#,
        r#"<script type="module" src="/assets/foo-BRBmoGS9.js"></script>"#,
        r#"<link rel="modulepreload" href="/assets/shared-B7PI925R.js" />"#,
    ]
    .join("\n");

    let generated = manifest.generate_html_tags(&eps(&["views/foo.js"]), None, "");

    assert_eq!(expected, generated);
}

#[test]
fn test_generate_html_tags_2() {
    let manifest = test_manifest();
    let expected = [
        r#"<link rel="stylesheet" href="/assets/shared-ChJ_j-JJ.css" />"#,
        r#"<script type="module" src="/assets/bar-gkvgaI9m.js"></script>"#,
        r#"<link rel="modulepreload" href="/assets/shared-B7PI925R.js" />"#,
    ]
    .join("\n");

    let generated = manifest.generate_html_tags(&eps(&["views/bar.js"]), None, "");

    assert_eq!(expected, generated);
}

#[test]
fn test_generate_html_tags_with_prefix() {
    let manifest = test_manifest();
    let prefix = resolve_prefix(Some("bundle/"));
    let generated = manifest.generate_html_tags(&eps(&["views/bar.js"]), prefix.as_deref(), "");

    let expected = [
        r#"<link rel="stylesheet" href="/bundle/assets/shared-ChJ_j-JJ.css" />"#,
        r#"<script type="module" src="/bundle/assets/bar-gkvgaI9m.js"></script>"#,
        r#"<link rel="modulepreload" href="/bundle/assets/shared-B7PI925R.js" />"#,
    ]
    .join("\n");

    assert_eq!(expected, generated);
}

#[test]
fn test_get_asset_url() {
    let manifest = test_manifest();
    let generated = manifest.get_asset_url("baz.js", None, "");

    let expected = "/assets/baz-B2H3sXNv.js";

    assert_eq!(expected, generated);
}

#[test]
fn test_get_asset_url_with_prefix() {
    let manifest = test_manifest();
    let prefix = resolve_prefix(Some("bundle/"));
    let generated = manifest.get_asset_url("baz.js", prefix.as_deref(), "");

    let expected = "/bundle/assets/baz-B2H3sXNv.js";

    assert_eq!(expected, generated);
}

#[test]
fn get_asset_url_of_missing_key_is_empty() {
    let manifest = test_manifest();
    assert_eq!(manifest.get_asset_url("nope.js", None, ""), "");
}

#[test]
fn tags_with_app_url_and_prefix() {
    let manifest = test_manifest();
    let generated = manifest.generate_html_tags(&eps(&["views/bar.js"]), Some("bundle"), "https://cdn.x");
    assert_eq!(
        generated,
        [
            r#"<link rel="stylesheet" href="https://cdn.x/bundle/assets/shared-ChJ_j-JJ.css" />"#,
            r#"<script type="module" src="https://cdn.x/bundle/assets/bar-gkvgaI9m.js"></script>"#,
            r#"<link rel="modulepreload" href="https://cdn.x/bundle/assets/shared-B7PI925R.js" />"#,
        ]
        .join("\n")
    );
}

#[test]
fn shared_imports_are_emitted_once() {
    let manifest = test_manifest();
    let generated = manifest.generate_html_tags(&eps(&["views/bar.js", "views/foo.js"]), None, "");
    assert_eq!(
        generated,
        [
            r#"<link rel="stylesheet" href="/assets/foo-5UjPuW-k.css" />"#,
            r#"<link rel="stylesheet" href="/assets/shared-ChJ_j-JJ.css" />"#,
            r#"<script type="module" src="/assets/bar-gkvgaI9m.js"></script>"#,
            r#"<script type="module" src="/assets/foo-BRBmoGS9.js"></script>"#,
            r#"<link rel="modulepreload" href="/assets/shared-B7PI925R.js" />"#,
        ]
        .join("\n")
    );
}

#[test]
fn repeated_entrypoint_is_emitted_once() {
    let manifest = test_manifest();
    let once = manifest.generate_html_tags(&eps(&["views/foo.js"]), None, "");
    let twice = manifest.generate_html_tags(&eps(&["views/foo.js", "views/foo.js"]), None, "");
    assert_eq!(once, twice);
}

#[test]
fn missing_entrypoints_are_skipped() {
    let manifest = test_manifest();
    let with_missing = manifest.generate_html_tags(&eps(&["nope.js", "views/bar.js", "gone.css"]), None, "");
    let without = manifest.generate_html_tags(&eps(&["views/bar.js"]), None, "");
    assert_eq!(with_missing, without);
    assert_eq!(manifest.generate_html_tags(&eps(&["nope.js"]), None, ""), "");
}

#[test]
fn empty_manifest_gives_empty_tags() {
    let manifest = Manifest::new("{}", Vec::new());
    assert_eq!(manifest.generate_html_tags(&eps(&["views/foo.js"]), None, ""), "");
    assert!(manifest.get_manifest_entries().is_empty());
}

#[test]
fn tags_are_deterministic_across_table_order() {
    let a = test_manifest();
    let mut chunks = test_chunks();
    chunks.reverse();
    chunks.swap(0, 2);
    let b = Manifest::new(TEST_MANIFEST, chunks);
    let list = eps(&["views/foo.js", "views/bar.js", "baz.js"]);
    let first = a.generate_html_tags(&list, Some("p"), "https://h");
    assert_eq!(first, a.generate_html_tags(&list, Some("p"), "https://h"));
    assert_eq!(first, b.generate_html_tags(&list, Some("p"), "https://h"));
}

#[test]
fn tags_are_ordered_by_kind_then_path() {
    let chunks = vec![
        (
            "main.js".to_string(),
            chunk("z/main.js", true, &["lib.js"], &["b.css", "a.css"], &["y.png", "x.woff2"]),
        ),
        ("style.css".to_string(), chunk("m/style.css", true, &[], &[], &[])),
        ("lib.js".to_string(), chunk("c/lib.js", false, &[], &[], &["w.mp4"])),
    ];
    let manifest = Manifest::new("x", chunks);
    let generated = manifest.generate_html_tags(&eps(&["main.js", "style.css"]), None, "");
    assert_eq!(
        generated,
        [
            r#"<link rel="stylesheet" href="/a.css" />"#,
            r#"<link rel="stylesheet" href="/b.css" />"#,
            r#"<link rel="stylesheet" href="/m/style.css" />"#,
            r#"<script type="module" src="/z/main.js"></script>"#,
            r#"<link rel="modulepreload" href="/c/lib.js" />"#,
            r#"<link rel="preload" as="video" href="/w.mp4" />"#,
            r#"<link rel="preload" as="font" href="/x.woff2" />"#,
            r#"<link rel="preload" as="image" href="/y.png" />"#,
        ]
        .join("\n")
    );
}

#[test]
fn import_cycle_terminates_with_each_asset_once() {
    let chunks = vec![
        ("a.js".to_string(), chunk("out/a.js", true, &["b.js"], &["s.css"], &[])),
        ("b.js".to_string(), chunk("out/b.js", true, &["a.js"], &["s.css"], &["i.svg"])),
    ];
    let manifest = Manifest::new("cycle", chunks);
    let generated = manifest.generate_html_tags(&eps(&["a.js"]), None, "");
    assert_eq!(
        generated,
        [
            r#"<link rel="stylesheet" href="/s.css" />"#,
            r#"<script type="module" src="/out/a.js"></script>"#,
            r#"<link rel="preload" as="image" href="/i.svg" />"#,
            r#"<link rel="modulepreload" href="/out/b.js" />"#,
        ]
        .join("\n")
    );
    let both = manifest.generate_html_tags(&eps(&["a.js", "b.js"]), None, "");
    assert_eq!(both, generated);
}

#[test]
fn role_of_first_discovery_is_kept() {
    let chunks = vec![
        ("entry.js".to_string(), chunk("e.js", true, &["dep.js"], &[], &["same.css"])),
        ("dep.js".to_string(), chunk("d.js", false, &[], &["same.css"], &[])),
    ];
    let manifest = Manifest::new("roles", chunks);
    let generated = manifest.generate_html_tags(&eps(&["entry.js"]), None, "");
    assert_eq!(
        generated,
        [
            r#"<script type="module" src="/e.js"></script>"#,
            r#"<link rel="modulepreload" href="/d.js" />"#,
            r#"<link rel="preload" as="style" href="/same.css" />"#,
        ]
        .join("\n")
    );
}

#[test]
fn dynamic_imports_are_not_expanded() {
    let mut main = chunk("main.js", true, &[], &[], &[]);
    main.dynamic_imports = vec!["lazy.js".to_string()];
    let chunks = vec![
        ("main.js".to_string(), main),
        ("lazy.js".to_string(), chunk("lazy-1.js", false, &[], &["lazy.css"], &[])),
    ];
    let manifest = Manifest::new("dyn", chunks);
    assert_eq!(
        manifest.generate_html_tags(&eps(&["main.js"]), None, ""),
        r#"<script type="module" src="/main.js"></script>"#
    );
}

#[test]
fn imports_of_non_entry_chunks_are_not_followed() {
    let chunks = vec![
        ("main.js".to_string(), chunk("main.js", true, &["mid.js"], &[], &[])),
        ("mid.js".to_string(), chunk("mid.js", false, &["leaf.js"], &[], &[])),
        ("leaf.js".to_string(), chunk("leaf.js", false, &[], &[], &[])),
    ];
    let manifest = Manifest::new("chain", chunks);
    assert_eq!(
        manifest.generate_html_tags(&eps(&["main.js"]), None, ""),
        [
            r#"<script type="module" src="/main.js"></script>"#,
            r#"<link rel="modulepreload" href="/mid.js" />"#,
        ]
        .join("\n")
    );
}

#[test]
fn entry_with_css_and_shared_import() {
    let chunks = vec![
        (
            "views/foo.js".to_string(),
            chunk("assets/foo-X.js", true, &["shared.js"], &["assets/shared-ChJ.css"], &[]),
        ),
        ("shared.js".to_string(), chunk("assets/shared-Y.js", false, &[], &[], &[])),
    ];
    let manifest = Manifest::new("scenario", chunks);
    assert_eq!(
        manifest.generate_html_tags(&eps(&["views/foo.js"]), None, ""),
        [
            r#"<link rel="stylesheet" href="/assets/shared-ChJ.css" />"#,
            r#"<script type="module" src="/assets/foo-X.js"></script>"#,
            r#"<link rel="modulepreload" href="/assets/shared-Y.js" />"#,
        ]
        .join("\n")
    );
}

#[test]
fn css_entrypoint_is_a_stylesheet() {
    let chunks = vec![("app.css".to_string(), chunk("assets/app-1.css", true, &[], &[], &[]))];
    let manifest = Manifest::new("css", chunks);
    assert_eq!(
        manifest.generate_html_tags(&eps(&["app.css"]), None, ""),
        r#"<link rel="stylesheet" href="/assets/app-1.css" />"#
    );
}

#[test]
fn unknown_preload_renders_empty_line() {
    let chunks = vec![("m.js".to_string(), chunk("m.js", true, &[], &[], &["data.bin"]))];
    let manifest = Manifest::new("u", chunks);
    assert_eq!(
        manifest.generate_html_tags(&eps(&["m.js"]), None, ""),
        "<script type=\"module\" src=\"/m.js\"></script>\n"
    );
}

#[test]
fn hash_is_md5_hex_of_content() {
    let manifest = Manifest::new("", Vec::new());
    assert_eq!(manifest.get_hash(), "d41d8cd98f00b204e9800998ecf8427e");
    let manifest = Manifest::new("abc", Vec::new());
    assert_eq!(manifest.get_hash(), "900150983cd24fb0d6963f7d28e17f72");
}

#[test]
fn hash_is_stable_and_byte_sensitive() {
    let a = Manifest::new(TEST_MANIFEST, test_chunks());
    let b = Manifest::new(TEST_MANIFEST, test_chunks());
    assert_eq!(a.get_hash(), b.get_hash());
    assert_eq!(a.get_hash().len(), 32);
    assert!(a.get_hash().chars().all(|c| c.is_ascii_hexdigit() && !c.is_ascii_uppercase()));
    let changed = TEST_MANIFEST.replacen("bar", "baz", 1);
    let c = Manifest::new(&changed, test_chunks());
    assert_ne!(a.get_hash(), c.get_hash());
}

#[test]
fn later_duplicate_key_replaces_earlier() {
    let chunks = vec![
        ("k.js".to_string(), chunk("first.js", true, &[], &[], &[])),
        ("k.js".to_string(), chunk("second.js", true, &[], &[], &[])),
    ];
    let manifest = Manifest::new("dup", chunks);
    assert_eq!(manifest.get_asset_url("k.js", None, ""), "/second.js");
    assert_eq!(manifest.get_manifest_entries(), vec!["k.js"]);
}

#[test]
fn manifest_entries_are_the_entry_chunks() {
    let manifest = test_manifest();
    let mut entries = manifest.get_manifest_entries();
    entries.sort();
    assert_eq!(entries, vec!["baz.js", "views/bar.js", "views/foo.js"]);
    assert!(manifest.lookup("_shared-B7PI925R.js").is_some());
    assert!(manifest.lookup("missing").is_none());
}

#[test]
fn chunk_iter_yields_assets_then_css() {
    let c = chunk("f.js", true, &["x.js"], &["a.css", "b.css"], &["p.png"]);
    let mut it = c.assets_iter(Some("pre"), "https://u");
    let mut out = Vec::new();
    while let Some(a) = it.next() {
        out.push(a.into_html());
    }
    assert_eq!(
        out,
        vec![
            r#"<link rel="preload" as="image" href="https://u/pre/p.png" />"#.to_string(),
            r#"<link rel="stylesheet" href="https://u/pre/a.css" />"#.to_string(),
            r#"<link rel="stylesheet" href="https://u/pre/b.css" />"#.to_string(),
        ]
    );
    assert!(it.next().is_none());
}

#[test]
fn asset_equality_is_by_path() {
    let a = Asset::style_sheet("x.css".to_string(), None, "");
    let b = Asset::pre_load("x.css".to_string(), None, "");
    let c = Asset::pre_load("y.css".to_string(), None, "");
    assert!(a == b);
    assert!(a != c);
    assert!(a.precedes(&c));
    assert!(!c.precedes(&a));
}
