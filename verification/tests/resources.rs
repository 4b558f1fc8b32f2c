use makepad_host::script::asking::ResourceAsk;
use makepad_host::script::crate_paths::{
    normalize_dependency_file_path, resolve_crate_resource_paths,
    resolve_dependency_path_from_manifests, resolve_web_resource_paths, web_resource_base_path,
    web_resource_request_path, ScriptModule,
};
use makepad_host::script::fetches::{
    data_fetch_user_agent, DataFetch, DataFetches, FetchStep, DATA_FETCH_MAX_RETRIES,
};
use makepad_host::script::load::{font_policy_declares_path, HostKind, LoadHost, LoadStep};
use makepad_host::script::resources::{
    CxScriptHttpResource, CxScriptResource, CxScriptResourceData, CxScriptResources,
    ResourceProperty,
};
use makepad_host::textmap::TextMap;

const ZERO: u64 = 0;

fn chars(s: &str) -> Vec<char> {
    s.chars().collect()
}

fn resource(heap: usize, path: &str, data: CxScriptResourceData) -> CxScriptResource {
    CxScriptResource {
        abs_path: path.into(),
        dependency_path: None,
        web_url: None,
        data,
        handles: vec![(heap, ZERO)],
    }
}

fn bytes(v: Option<&Vec<u8>>) -> Option<Vec<u8>> {
    v.cloned()
}

#[test]
fn heap_local_resource_handles_do_not_alias_font_bytes_or_http_responses() {
    let mut t = CxScriptResources::new();
    for (heap, path, data) in
        [(1, "test://icon.svg", b"<svg>".to_vec()), (2, "test://font.ttf", b"font".to_vec())]
    {
        t.insert_resource(heap, resource(heap, path, CxScriptResourceData::Loaded(data)));
    }
    let path = t.path_for_handle(2, ZERO).unwrap();
    assert_eq!(bytes(t.get_data_by_path(&path)).unwrap(), b"font");
    let request_id = 77;
    t.http_resources.push(CxScriptHttpResource { request_id, abs_path: path });
    assert!(t.is_http_resource(request_id));
    assert!(t.handle_http_response(request_id, b"new font".to_vec()));
    assert_eq!(bytes(t.get_data_by_path("test://font.ttf")).unwrap(), b"new font");
    assert_eq!(bytes(t.get_data_by_path("test://icon.svg")).unwrap(), b"<svg>");
    assert!(!t.handle_http_response(request_id, vec![]), "a request is answered once");
}

#[test]
fn equal_handle_values_in_two_heaps_name_their_own_resources() {
    let mut t = CxScriptResources::new();
    for (heap, path, data) in [
        (1, "apps/wm/resources/icons/volume-0.svg", b"<svg speaker>".to_vec()),
        (2, "apps/clock/resources/icons/alarm.svg", b"<svg bell>".to_vec()),
    ] {
        t.insert_resource(heap, resource(heap, path, CxScriptResourceData::Loaded(data)));
    }
    assert_eq!(bytes(t.get_data(1, ZERO)).unwrap(), b"<svg speaker>");
    assert_eq!(bytes(t.get_data(2, ZERO)).unwrap(), b"<svg bell>");
    assert_eq!(
        t.get_resource_abs_path(2, ZERO).map(|p| p.as_str()),
        Some("apps/clock/resources/icons/alarm.svg")
    );
    assert!(t.get_data(3, ZERO).is_none(), "a heap that never registered it sees nothing");
    assert!(t.attach_handle_for_path(3, "apps/clock/resources/icons/alarm.svg", ZERO));
    assert_eq!(bytes(t.get_data(3, ZERO)).unwrap(), b"<svg bell>");
}

#[test]
fn collecting_a_heap_keeps_other_heaps_equal_resource_handles() {
    let mut t = CxScriptResources::new();
    for (heap, path) in [(1, "icon.svg"), (2, "font.ttf")] {
        t.insert_resource(heap, resource(heap, path, CxScriptResourceData::NotLoaded));
    }
    t.attach_handle_for_path(3, "font.ttf", ZERO);
    t.gc(1, ZERO);
    assert_eq!(t.resources.len(), 1);
    assert_eq!(t.path_for_handle(2, ZERO).as_deref(), Some("font.ttf"));
    t.gc_heaps(&[2]);
    assert_eq!(t.resources.len(), 1);
    assert_eq!(t.path_for_handle(3, ZERO).as_deref(), Some("font.ttf"));
    t.gc_heaps(&[3]);
    assert!(t.resources.is_empty());
}

#[test]
fn eager_resource_loading_defers_the_selected_font_policy() {
    let latin = vec![
        "makepad_widgets/resources/IBMPlexSans-Text.ttf".to_string(),
        "makepad_widgets/resources/LXGWWenKaiRegular.ttf".to_string(),
    ];
    let international = vec!["makepad_widgets/resources/LXGWWenKaiRegular.ttf".to_string()];
    assert!(font_policy_declares_path(&latin, Some("makepad_widgets/resources/IBMPlexSans-Text.ttf")));
    assert!(font_policy_declares_path(&latin, Some("makepad_widgets/resources/LXGWWenKaiRegular.ttf")));
    assert!(font_policy_declares_path(
        &international,
        Some("makepad_widgets/resources/LXGWWenKaiRegular.ttf")
    ));
    assert!(!font_policy_declares_path(&latin, None));
}

#[test]
fn derives_web_resource_base_path_from_browser_pathname() {
    assert_eq!(web_resource_base_path("/"), "");
    assert_eq!(web_resource_base_path("/index.html"), "");
    assert_eq!(web_resource_base_path("/makepad-example-splash/"), "makepad-example-splash");
    assert_eq!(web_resource_base_path("/makepad-example-splash/index.html"), "makepad-example-splash");
    assert_eq!(web_resource_base_path("/examples/splash/index.html"), "examples/splash");
}

#[test]
fn a_page_asks_below_its_own_directory() {
    assert_eq!(web_resource_request_path(None, "crate/a.ttf"), "crate/a.ttf");
    assert_eq!(web_resource_request_path(Some("/app/index.html"), "/crate/a.ttf"), "app/crate/a.ttf");
}

#[test]
fn steps_of_a_path_are_followed() {
    let normal = |s: &str| normalize_dependency_file_path(&chars(s)).map(|v| v.iter().collect::<String>());
    assert_eq!(normal("a/./b//c").as_deref(), Some("a/b/c"));
    assert_eq!(normal("a\\..\\b").as_deref(), Some("b"));
    assert_eq!(normal("../b"), None);
}

#[test]
fn crate_files_are_found_by_manifest() {
    let module = ScriptModule {
        cargo_manifest_path: "/src/my-app".into(),
        path: "my-app::ui".into(),
    };
    let mut manifests: TextMap<String> = TextMap::new();
    manifests.insert("other_crate", "/src/other".to_string());
    manifests.insert("inner", "/src/other/inner".to_string());
    let p = resolve_crate_resource_paths(&chars("self"), &chars("//res/a.png"), Some(&module), &manifests)
        .expect("a path");
    assert_eq!(p.abs_path, "/src/my-app/res/a.png");
    assert_eq!(p.dependency_path.as_deref(), Some("my_app/res/a.png"));
    assert!(p.web_url.is_none());
    assert!(resolve_crate_resource_paths(&chars("self"), &chars("a"), None, &manifests).is_none());
    let p = resolve_crate_resource_paths(&chars("other-crate"), &chars("a.png"), None, &manifests)
        .expect("a path");
    assert_eq!(p.abs_path, "/src/other/a.png");
    assert!(resolve_crate_resource_paths(&chars("nope"), &chars("a"), None, &manifests).is_none());
    let w = resolve_web_resource_paths(&chars("other_crate"), &chars("inner/./x/../a.png"), None, &manifests)
        .expect("a path");
    assert_eq!(w.abs_path, "/src/other/inner/a.png");
    assert_eq!(w.dependency_path.as_deref(), Some("inner/a.png"), "the longest directory wins");
    assert_eq!(w.web_url.as_deref(), Some("/inner/a.png"));
    assert_eq!(resolve_dependency_path_from_manifests("/elsewhere/a", None, &manifests), None);
}

#[test]
fn the_agent_depends_on_the_host() {
    assert_eq!(data_fetch_user_agent("https://finance.example/"), "Mozilla/5.0");
    assert!(data_fetch_user_agent("https://overpass-api.de/").starts_with("octoscript-appcard/1.0"));
    assert!(data_fetch_user_agent("https://nominatim.example/").starts_with("octoscript-appcard/1.0"));
}

#[test]
fn a_failing_fetch_is_retried_a_few_times_and_ever_later() {
    let mut f = DataFetches::new();
    let url = "https://a.example/";
    assert!(matches!(f.script_data_fetch(url, false, 0, 1), FetchStep::Refused));
    assert!(matches!(f.script_data_fetch(url, true, 0, 1), FetchStep::Issue { retry: false }));
    assert!(matches!(f.script_data_fetch(url, true, 0, 2), FetchStep::Nothing));
    assert_eq!(f.data_fetch_url(1).as_deref(), Some(url));
    let mut now = 0;
    let mut id = 1;
    let waits = [0, 1000, 2000, 4000];
    for wait in waits {
        assert!(f.handle_data_fetch_error(id));
        if wait > 0 {
            assert!(matches!(f.script_data_fetch(url, true, now + wait - 1, 99), FetchStep::Nothing));
        }
        now += wait;
        id += 1;
        assert!(matches!(f.script_data_fetch(url, true, now, id), FetchStep::Issue { retry: true }));
        assert_eq!(f.script_data_placeholder(url), "—");
    }
    assert_eq!(waits.len() as u8, DATA_FETCH_MAX_RETRIES);
    assert!(f.handle_data_fetch_error(id));
    assert!(f.data_fetch_failed_terminally(url));
    assert_eq!(f.script_data_placeholder(url), "n/a");
    assert!(matches!(f.script_data_fetch(url, true, u64::MAX, 99), FetchStep::Nothing));
}

#[test]
fn a_retry_is_waited_for_at_the_end_of_the_clock_too() {
    let mut f = DataFetches::new();
    assert!(f.take_data_fetch_retry("u", u64::MAX - 500));
    assert!(!f.take_data_fetch_retry("u", u64::MAX), "half a second is no second");
    assert!(f.take_data_fetch_retry("v", u64::MAX), "another URL has its own");
}

#[test]
fn data_that_came_is_kept_and_counted() {
    let mut f = DataFetches::new();
    f.begin_data_fetch("u", 5);
    assert!(f.is_data_fetch(5) && !f.is_data_fetch(6));
    assert!(!f.handle_data_fetch_response(6, vec![]));
    assert!(f.handle_data_fetch_response(5, vec![1, 2]));
    assert_eq!(f.script_data_fetch_epoch(), 1);
    assert!(matches!(f.get_data_fetch("u"), Some(DataFetch::Loaded(d)) if d == &vec![1, 2]));
    assert!(matches!(f.script_data_fetch("u", true, 0, 9), FetchStep::Ready));
    f.begin_data_fetch("v", 7);
    assert!(f.fail_data_fetch_terminally(7, 0));
    assert!(f.data_fetch_failed_terminally("v"));
    f.bump_data_fetch_epoch();
    assert_eq!(f.script_data_fetch_epoch(), 2);
}

#[test]
fn a_heap_asks_once_for_a_file() {
    let mut t = CxScriptResources::new();
    let manifests: TextMap<String> = TextMap::new();
    assert!(matches!(t.file_resource(1, None), ResourceAsk::Mismatch));
    let ResourceAsk::New(paths) = t.file_resource(1, Some("/a.png")) else { panic!("it is new") };
    t.register(1, 7, paths);
    assert!(matches!(t.file_resource(1, Some("/a.png")), ResourceAsk::Known(7)));
    assert!(matches!(t.file_resource(2, Some("/a.png")), ResourceAsk::New(_)), "another heap");
    assert!(matches!(t.crate_resource(1, Some("no colon"), false, None, &manifests), ResourceAsk::Mismatch));
    assert!(matches!(t.crate_resource(1, Some("nope:a"), false, None, &manifests), ResourceAsk::Nil));
    assert!(matches!(t.register_crate_resource_path(1, "noslash", false, None, &manifests), ResourceAsk::Nil));
    match t.http_resource(1, Some("http://x/"), false) {
        ResourceAsk::Refused(why) => assert_eq!(why, "this app may not load http://x/"),
        _ => panic!("it is refused"),
    }
    assert!(t.register_http(1, 8, "http://x/", 30), "a request is issued");
    assert!(!t.register_http(2, 9, "http://x/", 31), "the resource is there");
    assert!(t.handle_http_error(30, "gone".into()));
    match t.property(2, 9, "error") {
        ResourceProperty::Message(m) => assert_eq!(m, "gone"),
        _ => panic!("it holds the error"),
    }
    t.binary_resource(1, 10, 5, vec![9]);
    match t.property(1, 10, "path") {
        ResourceProperty::Path(p) => assert_eq!(p, "binary://5"),
        _ => panic!("it has a path"),
    }
    assert!(matches!(t.property(1, 10, "is_loaded"), ResourceProperty::Flag(true)));
    assert!(matches!(t.property(1, 10, "data"), ResourceProperty::Bytes(b) if b == vec![9]));
    assert!(matches!(t.property(1, 10, "error"), ResourceProperty::Nil));
    assert!(matches!(t.property(1, 10, "size"), ResourceProperty::Invalid));
    assert!(matches!(t.property(1, 99, "path"), ResourceProperty::Invalid));
    assert_eq!(t.resources[2].loaded_len(), 1);
}

fn host(kind: HostKind, root: Option<&str>) -> LoadHost {
    LoadHost { kind, package_root: root.map(String::from), pathname: None }
}

#[test]
fn a_native_load_tries_the_dependency_then_the_file() {
    let manifests: TextMap<String> = TextMap::new();
    let mut t = CxScriptResources::new();
    let mut r = resource(1, "/src/a.png", CxScriptResourceData::NotLoaded);
    r.dependency_path = Some("c/a.png".into());
    t.insert_resource(1, r);
    let desk = host(HostKind::Other, None);
    let g = t.generation;
    assert!(matches!(t.load_script_resource("/src/a.png", &desk, &manifests, 1), LoadStep::Dependency(d) if d == "c/a.png"));
    assert_eq!(t.generation, g + 1);
    assert!(matches!(t.dependency_answered("/src/a.png", &desk, None, 1), LoadStep::Direct(p) if p == "/src/a.png"));
    t.file_answered("/src/a.png", &desk, None);
    match t.property(1, ZERO, "error") {
        ResourceProperty::Message(m) => assert_eq!(
            m,
            "Failed to load resource: /src/a.png (dep: Some(\"c/a.png\"), packaged: false)"
        ),
        _ => panic!("it failed"),
    }
    assert!(matches!(t.load_script_resource("/src/a.png", &desk, &manifests, 1), LoadStep::Done), "once");

    let mut t = CxScriptResources::new();
    let mut r = resource(1, "/src/a.png", CxScriptResourceData::NotLoaded);
    r.dependency_path = Some("c/a.png".into());
    t.insert_resource(1, r);
    let packaged = host(HostKind::Other, Some("pkg"));
    t.load_script_resource("/src/a.png", &packaged, &manifests, 1);
    assert!(matches!(t.dependency_answered("/src/a.png", &packaged, None, 1), LoadStep::Packaged(p) if p == "pkg/c/a.png"));
    t.file_answered("/src/a.png", &packaged, Some(Ok(vec![4])));
    assert_eq!(bytes(t.get_data(1, ZERO)), Some(vec![4]));
}

#[test]
fn a_web_load_asks_the_server() {
    let mut manifests: TextMap<String> = TextMap::new();
    manifests.insert("c", "/src/c".to_string());
    let web = LoadHost {
        kind: HostKind::Web { known: true },
        package_root: Some(String::new()),
        pathname: Some("/app/index.html".into()),
    };
    let unknown = host(HostKind::Web { known: false }, None);
    let mut t = CxScriptResources::new();
    t.insert_resource(1, resource(1, "/src/c/a.png", CxScriptResourceData::NotLoaded));
    assert!(matches!(t.load_script_resource("/src/c/a.png", &unknown, &manifests, 5), LoadStep::Done));
    assert!(matches!(t.load_script_resource("/src/c/a.png", &web, &manifests, 5), LoadStep::Dependency(d) if d == "c/a.png"));
    assert!(matches!(t.dependency_answered("/src/c/a.png", &web, None, 5), LoadStep::Request(u) if u == "/app/c/a.png"));
    assert!(t.handle_http_response(5, vec![1]));
    assert_eq!(bytes(t.get_data(1, ZERO)), Some(vec![1]));
}

#[test]
fn fonts_are_loaded_apart_from_the_rest() {
    let mut t = CxScriptResources::new();
    let mut font = resource(1, "/f.ttf", CxScriptResourceData::NotLoaded);
    font.dependency_path = Some("w/f.ttf".into());
    t.insert_resource(1, font);
    t.insert_resource(1, resource(1, "/a.png", CxScriptResourceData::NotLoaded));
    let assets = vec!["w/other.ttf".to_string(), "w/f.ttf".to_string()];
    assert_eq!(t.preload_font_set(&assets), vec!["/f.ttf".to_string()]);
    assert_eq!(t.load_all_script_resources(&assets), vec!["/a.png".to_string()]);
}
