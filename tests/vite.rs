use vite_rust::asset::{Asset, PreloadAsset};
use vite_rust::chunk::{Chunk, ChunkIterListTrack};
use vite_rust::config::{is_production, ModeDiscovery};
use vite_rust::error::ViteErrorKind;
use vite_rust::heart_beat::{ping_endpoint, HeartBeat, ProbeOutcome, ProbeStep};
use vite_rust::manifest::Manifest;
use vite_rust::utils::map_to_arc_vec;
use vite_rust::vite::{resolve_app_url, resolve_prefix};
use vite_rust::{Vite, ViteConfig, ViteError, ViteMode};

fn chunk(file: &str, entry: bool, imports: &[&str], css: &[&str]) -> Chunk {
    let mut c = Chunk::new(file.to_string());
    c.is_entry = entry;
    c.imports = imports.iter().map(|s| s.to_string()).collect();
    c.css = css.iter().map(|s| s.to_string()).collect();
    c
}

fn test_manifest() -> Manifest {
    let chunks = vec![
        (
            "_shared-B7PI925R.js".to_string(),
            chunk("assets/shared-B7PI925R.js", false, &[], &["assets/shared-ChJ_j-JJ.css"]),
        ),
        ("baz.js".to_string(), chunk("assets/baz-B2H3sXNv.js", true, &[], &[])),
        ("views/bar.js".to_string(), chunk("assets/bar-gkvgaI9m.js", true, &["_shared-B7PI925R.js"], &[])),
        (
            "views/foo.js".to_string(),
            chunk("assets/foo-BRBmoGS9.js", true, &["_shared-B7PI925R.js"], &["assets/foo-5UjPuW-k.css"]),
        ),
        ("src/x.png".to_string(), chunk("assets/x-hash.png", false, &[], &[])),
    ];
    Manifest::new("test manifest", chunks)
}

fn vites() -> (Vite, Vite) {
    let mut conf = ViteConfig::default().set_manifest_path("dist/.vite/build-manifest");
    conf.entrypoints = Some(vec!["views/foo.js"]);
    let dev = Vite::new(&conf, ViteMode::Development, None, None);
    let manifest = Vite::new(&conf, ViteMode::Manifest, Some(test_manifest()), None);
    (dev, manifest)
}

#[test]
fn test_resolve_prefix() {
    const EXPECTED_RESULT: &str = "bundle";

    assert_eq!(EXPECTED_RESULT, resolve_prefix(Some("bundle")).unwrap());
    assert_eq!(EXPECTED_RESULT, resolve_prefix(Some("/bundle")).unwrap());
    assert_eq!(EXPECTED_RESULT, resolve_prefix(Some("bundle/")).unwrap());
    assert_eq!(EXPECTED_RESULT, resolve_prefix(Some("/bundle/")).unwrap());
}

#[test]
fn resolve_prefix_edge_cases() {
    assert_eq!(resolve_prefix(None), None);
    assert_eq!(resolve_prefix(Some("")), None);
    assert_eq!(resolve_prefix(Some("/")), None);
    assert_eq!(resolve_prefix(Some("a/b/")), Some("a/b".to_string()));
}

#[test]
fn test_resolve_app_url() {
    const EXPECTED_RESULT: &str = "http://foo.baz";

    assert_eq!(EXPECTED_RESULT, resolve_app_url(Some("http://foo.baz/"), None));
    assert_eq!(EXPECTED_RESULT, resolve_app_url(Some("http://foo.baz"), None));

    assert_eq!(resolve_app_url(None, None), "");

    assert_eq!(resolve_app_url(None, Some("http://foo.baz")), EXPECTED_RESULT);
    assert_eq!(resolve_app_url(None, Some("http://foo.baz/")), EXPECTED_RESULT);
    assert_eq!(resolve_app_url(Some("http://a"), Some("http://b")), "http://a");
}

#[test]
fn test_is_production() {
    let vars = vec![("__TEST_APP_ENV".to_string(), "production".to_string())];
    assert!(is_production(&vars));

    let vars = vec![("PATH".to_string(), "/bin".to_string())];
    assert!(!is_production(&vars));
}

#[test]
fn production_markers() {
    for key in ["RUST_ENV", "NODE_ENV", "APP_ENV", "LOCO_ENV", "RAILS_ENV"] {
        assert!(is_production(&vec![(key.to_string(), "production".to_string())]));
        assert!(!is_production(&vec![(key.to_string(), "development".to_string())]));
    }
    assert!(!is_production(&vec![("OTHER_ENV".to_string(), "production".to_string())]));
    assert!(!is_production(&Vec::new()));
}

#[test]
fn test_discover() {
    assert_eq!(
        ModeDiscovery::Decided(ViteMode::Development),
        ViteMode::discover(false, true, false)
    );

    assert_eq!(
        ModeDiscovery::Decided(ViteMode::Manifest),
        ViteMode::discover(true, false, false)
    );
}

#[test]
fn discovery_without_heart_beat_is_development_whatever_the_environment() {
    for dev_server in [false, true] {
        for production in [false, true] {
            assert_eq!(
                ViteMode::discover(false, dev_server, production),
                ModeDiscovery::Decided(ViteMode::Development)
            );
        }
    }
    let conf = ViteConfig::default().without_heart_beat_check();
    assert_eq!(conf.resolve_mode(true), ModeDiscovery::Decided(ViteMode::Development));
}

#[test]
fn discovery_rule_order() {
    assert_eq!(ViteMode::discover(true, true, true), ModeDiscovery::Decided(ViteMode::Manifest));
    assert_eq!(ViteMode::discover(true, true, false), ModeDiscovery::ProbeDevServer);
    assert_eq!(ViteMode::from_heart_beat(true), ViteMode::Development);
    assert_eq!(ViteMode::from_heart_beat(false), ViteMode::Manifest);
    let forced = ViteConfig::default().set_force_mode(ViteMode::Manifest);
    assert_eq!(forced.resolve_mode(false), ModeDiscovery::Decided(ViteMode::Manifest));
    let no_server = ViteConfig::default().without_dev_server();
    assert_eq!(no_server.resolve_mode(false), ModeDiscovery::Decided(ViteMode::Manifest));
}

#[test]
fn test_retry_cb() {
    let mut probe = HeartBeat::new(2);
    let success_on_first_try = probe.record(ProbeOutcome::Status(200));

    let mut probe = HeartBeat::new(2);
    let mut attempts = 0;
    let total_failure = loop {
        attempts += 1;
        match probe.record(ProbeOutcome::TransportError) {
            ProbeStep::Retry => continue,
            ProbeStep::Done(alive) => break alive,
        }
    };

    assert_eq!(success_on_first_try, ProbeStep::Done(true));
    assert!(!total_failure);
    assert_eq!(attempts, 3);
}

#[test]
fn probe_status_other_than_ok_is_not_alive() {
    let mut probe = HeartBeat::new(5);
    assert_eq!(probe.record(ProbeOutcome::Status(404)), ProbeStep::Done(false));
    assert_eq!(probe.retries_left, 5);
    let mut probe = HeartBeat::new(1);
    assert_eq!(probe.record(ProbeOutcome::TransportError), ProbeStep::Retry);
    assert_eq!(probe.record(ProbeOutcome::Status(200)), ProbeStep::Done(true));
    let mut probe = HeartBeat::new(0);
    assert_eq!(probe.record(ProbeOutcome::TransportError), ProbeStep::Done(false));
}

#[test]
fn ping_endpoint_normalizes_trailing_slash() {
    assert_eq!(ping_endpoint("http://localhost:5173"), "http://localhost:5173/@vite/client");
    assert_eq!(ping_endpoint("http://localhost:5173/"), "http://localhost:5173/@vite/client");
}

#[test]
fn getting_started() {
    let vite_config: ViteConfig = ViteConfig::default()
        .set_manifest_path("dist/.vite/build-manifest")
        .set_entrypoints(vec!["views/bar.js", "views/foo.js"]);

    // The development server is not running: the probe fails.
    let mode = match vite_config.resolve_mode(false) {
        ModeDiscovery::Decided(mode) => mode,
        ModeDiscovery::ProbeDevServer => ViteMode::from_heart_beat(false),
    };
    let vite = Vite::new(&vite_config, mode, Some(test_manifest()), None);

    let tags = vite.get_tags();
    let hmr_script = vite.get_hmr_script();

    assert_eq!(
        ViteConfig {
            entrypoints: Some(vec!["views/bar.js", "views/foo.js"]),
            manifest_path: Some("dist/.vite/build-manifest"),
            ..Default::default()
        },
        vite_config
    );
    assert!(tags.is_ok());
    assert!(hmr_script.is_empty());
}

#[test]
fn config_new_and_setters() {
    let conf = ViteConfig::new("m.json", vec!["a.js"]);
    assert_eq!(conf.manifest_path, Some("m.json"));
    assert_eq!(conf.entrypoints, Some(vec!["a.js"]));
    assert_eq!(conf.server_host, Some("http://localhost:5173"));
    assert_eq!(conf.heart_beat_retries_limit, Some(5));
    assert!(conf.use_heart_beat_check && conf.enable_dev_server);
    let conf = conf
        .set_server_host("http://h:1")
        .set_heart_beat_retries_limit(1)
        .set_prefix("p")
        .set_app_url("https://u");
    assert_eq!(conf.server_host, Some("http://h:1"));
    assert_eq!(conf.heart_beat_retries_limit, Some(1));
    assert_eq!(conf.prefix, Some("p"));
    assert_eq!(conf.app_url, Some("https://u"));
    assert!(conf.needs_manifest(ViteMode::Manifest));
    assert!(!conf.needs_manifest(ViteMode::Development));
    assert!(ViteConfig::default().needs_manifest(ViteMode::Development));
}

#[test]
fn manifest_mode_tags() {
    let (_, manifest) = vites();
    let expected = [
        r#"<link rel="stylesheet" href="/assets/foo-5UjPuW-k.css" />"#,
        r#"<link rel="stylesheet" href="/assets/shared-ChJ_j-JJ.css" />"#,
        r#"<script type="module" src="/assets/foo-BRBmoGS9.js"></script>"#,
        r#"<link rel="modulepreload" href="/assets/shared-B7PI925R.js" />"#,
    ]
    .join("\n");
    assert_eq!(manifest.get_tags().unwrap(), expected);
    assert_eq!(manifest.get_resolved_vite_scripts().unwrap(), expected);
    assert_eq!(manifest.get_hmr_script(), "");
    assert_eq!(*manifest.mode(), ViteMode::Manifest);
    assert_eq!(manifest.get_asset_url("baz.js").unwrap(), "/assets/baz-B2H3sXNv.js");
    assert_eq!(manifest.get_asset_url("'baz.js'").unwrap(), "/assets/baz-B2H3sXNv.js");
    assert_eq!(manifest.get_asset_url("nothing.js").unwrap(), "");
}

#[test]
fn development_mode_scripts() {
    let (dev, _) = vites();
    assert!(dev.get_tags().is_err());
    assert_eq!(dev.get_hash(), None);
    assert_eq!(dev.get_dev_server_url(), "http://localhost:5173");
    assert_eq!(
        dev.get_hmr_script(),
        r#"<script type="module" src="http://localhost:5173/@vite/client"></script>"#
    );
    assert_eq!(
        dev.get_development_scripts().unwrap(),
        r#"<script type="module" src="http://localhost:5173/views/foo.js"></script>"#
    );
    assert_eq!(
        dev.get_resolved_vite_scripts().unwrap(),
        [
            r#"<script type="module" src="http://localhost:5173/views/foo.js"></script>"#,
            r#"<script type="module" src="http://localhost:5173/@vite/client"></script>"#,
        ]
        .join("\n")
    );
    assert_eq!(dev.get_asset_url("/src/a.png").unwrap(), "http://localhost:5173/src/a.png");
}

#[test]
fn development_scripts_for_css_entry() {
    let conf = ViteConfig::default()
        .set_entrypoints(vec!["src/main.ts", "src/index.css"])
        .set_server_host("http://dev:3000");
    let vite = Vite::new(&conf, ViteMode::Development, None, None);
    assert_eq!(
        vite.get_development_scripts().unwrap(),
        [
            r#"<script type="module" src="http://dev:3000/src/main.ts"></script>"#,
            r#"<link rel="stylesheet" href="http://dev:3000/src/index.css" />"#,
        ]
        .join("\n")
    );
}

#[test]
fn react_script_points_at_server() {
    let (dev, _) = vites();
    let expected = "<script type=\"module\">\n                import RefreshRuntime from 'http://localhost:5173/@react-refresh'\n                RefreshRuntime.injectIntoGlobalHook(window)\n                window.$RefreshReg$ = () => {}\n                window.$RefreshSig$ = () => (type) => type\n                window.__vite_plugin_react_preamble_installed__ = true\n            </script>";
    assert_eq!(dev.get_react_script(), expected);
}

#[test]
fn asset_url_with_prefix_and_app_url() {
    let conf = ViteConfig::default()
        .set_entrypoints(vec!["views/foo.js"])
        .set_prefix("bundle")
        .set_app_url("https://cdn.x");
    let vite = Vite::new(&conf, ViteMode::Manifest, Some(test_manifest()), None);
    assert_eq!(vite.get_asset_url("/src/x.png").unwrap(), "https://cdn.x/bundle/assets/x-hash.png");
}

#[test]
fn app_url_from_environment() {
    let conf = ViteConfig::default().set_entrypoints(vec!["baz.js"]);
    let vite = Vite::new(&conf, ViteMode::Manifest, Some(test_manifest()), Some("https://env.example/"));
    assert_eq!(vite.get_asset_url("baz.js").unwrap(), "https://env.example/assets/baz-B2H3sXNv.js");
}

#[test]
fn entrypoints_come_from_manifest_when_absent() {
    let conf = ViteConfig::default().set_force_mode(ViteMode::Manifest);
    let vite = Vite::new(&conf, ViteMode::Manifest, Some(test_manifest()), None);
    let tags = vite.get_tags().unwrap();
    assert!(tags.contains(r#"<script type="module" src="/assets/baz-B2H3sXNv.js"></script>"#));
    assert!(tags.contains(r#"<script type="module" src="/assets/bar-gkvgaI9m.js"></script>"#));
    assert!(tags.contains(r#"<script type="module" src="/assets/foo-BRBmoGS9.js"></script>"#));
    assert_eq!(vite.get_hash().map(|h| h.len()), Some(32));
}

#[test]
fn missing_manifest_errors() {
    let conf = ViteConfig::default().set_entrypoints(vec!["a.js"]);
    let vite = Vite::new(&conf, ViteMode::Development, None, None);
    assert!(vite.get_asset_url("a.js").is_ok());
    let err: ViteError = vite.get_tags().unwrap_err();
    assert_eq!(err.kind(), ViteErrorKind::Manifest);
    assert!(err.cause().contains("no manifest file"));
}

#[test]
fn error_carries_cause() {
    let e = ViteError::new("boom", ViteErrorKind::Manifest);
    assert_eq!(e.cause(), "boom");
    assert_eq!(e.kind(), ViteErrorKind::Manifest);
}

#[test]
fn preload_html_per_kind() {
    let html = |f: &str| Asset::pre_load(f.to_string(), None, "").into_html();
    assert_eq!(html("a.js"), r#"<link rel="modulepreload" href="/a.js" />"#);
    assert_eq!(html("a.css"), r#"<link rel="preload" as="style" href="/a.css" />"#);
    assert_eq!(html("a.webp"), r#"<link rel="preload" as="image" href="/a.webp" />"#);
    assert_eq!(html("a.ttf"), r#"<link rel="preload" as="font" href="/a.ttf" />"#);
    assert_eq!(html("a.mov"), r#"<link rel="preload" as="video" href="/a.mov" />"#);
    assert_eq!(html("a.m4a"), r#"<link rel="preload" as="audio" href="/a.m4a" />"#);
    assert_eq!(html("a.txt"), "");
    assert_eq!(
        Asset::entry_point("e.js".to_string(), Some("p"), "https://x").into_html(),
        r#"<script type="module" src="https://x/p/e.js"></script>"#
    );
    assert_eq!(
        Asset::style_sheet("s.css".to_string(), Some(""), "").into_html(),
        r#"<link rel="stylesheet" href="/s.css" />"#
    );
}

#[test]
fn file_types() {
    assert_eq!(Asset::get_file_type("x.js"), PreloadAsset::JavaScript);
    assert_eq!(Asset::get_file_type("x.css"), PreloadAsset::Css);
    assert_eq!(Asset::get_file_type("x.jpg"), PreloadAsset::Image);
    assert_eq!(Asset::get_file_type("x.woff"), PreloadAsset::Font);
    assert_eq!(Asset::get_file_type("x.webm"), PreloadAsset::Video);
    assert_eq!(Asset::get_file_type("x.wav"), PreloadAsset::Audio);
    assert_eq!(Asset::get_file_type("js"), PreloadAsset::Unknown);
    assert_eq!(ChunkIterListTrack::start(), ChunkIterListTrack::Assets);
}

#[test]
fn resolve_asset_path_joins() {
    assert_eq!(Asset::resolve_asset_path("f.js".to_string(), None, ""), "/f.js");
    assert_eq!(Asset::resolve_asset_path("f.js".to_string(), Some("b"), "https://a"), "https://a/b/f.js");
}

#[test]
fn arc_vec_copies() {
    let v = map_to_arc_vec(vec!["a", "b"]);
    assert_eq!(*v, vec!["a".to_string(), "b".to_string()]);
}
