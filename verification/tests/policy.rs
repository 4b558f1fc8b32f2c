use makepad_host::gps::GpsFix;
use makepad_host::splash::dataset::{dataset_fits, dataset_path, DatasetSnapshot};
use makepad_host::splash::l0::{
    convert_field, convert_pair, json_string, l0_math, l0_ratio, ConvertField, MathOp,
};
use makepad_host::splash::news::{
    field_ok, news_digest, news_url, percent_encode_query, request_ok, NewsCache, NewsStep,
};
use makepad_host::splash::policy::{
    charge, gc_policies, gps_fix_for_heap, hosts_for_heap, instructions_used, is_enforced,
    local_path_for_heap, location_allowed, may_run, media_allowed, page_allowed, profile_allowed,
    script_media_allowed, script_sockets_allowed, script_url_allowed, service_allowed,
    set_policy_for_heap, sockets_allowed, url_allowed, LocalPath, PolicyTable,
};
use makepad_host::splash::url::public_https_host;
use makepad_host::script::fetches::DataFetches;

fn names(list: &[&str]) -> Vec<String> {
    list.iter().map(|s| s.to_string()).collect()
}

/// The file that a heap reads, if it reads one.
fn file(t: &PolicyTable, heap: usize, jail: Option<&str>, path: &str) -> Option<String> {
    match local_path_for_heap(t, heap, jail, path) {
        LocalPath::Given(p) => Some(p),
        LocalPath::Jailed { file, .. } => Some(file),
        LocalPath::Nothing => None,
    }
}

#[test]
fn an_unpoliced_heap_behaves_as_before() {
    let mut t = PolicyTable::new();
    gc_policies(&mut t, &vec![900]);
    assert!(service_allowed(&t, 900, "location.get").is_ok());
    assert!(url_allowed(&t, 900, "https://anything.example/x"));
    assert!(charge(&mut t, 900, 1_000_000));
    assert!(may_run(&t, 900));
}

#[test]
fn a_service_needs_its_capability_family_or_its_exact_name() {
    let mut t = PolicyTable::new();
    set_policy_for_heap(&mut t, 901, names(&["location", "ledger.read"]), vec![], None);
    assert!(service_allowed(&t, 901, "location.get").is_ok());
    assert!(service_allowed(&t, 901, "location.watch").is_ok());
    assert!(service_allowed(&t, 901, "ledger.read").is_ok());
    assert!(service_allowed(&t, 901, "ledger.write").is_err(), "ledger.read does not cover ledger.write");
    assert!(service_allowed(&t, 901, "clipboard.read").is_err());
    gc_policies(&mut t, &vec![901]);
}

#[test]
fn a_refused_service_is_named_in_quotes() {
    let mut t = PolicyTable::new();
    set_policy_for_heap(&mut t, 901, vec![], vec![], None);
    assert_eq!(
        service_allowed(&t, 901, "clip\"board.read"),
        Err("this app was not granted \"clip\\\"board\", which \"clip\\\"board.read\" needs".to_string())
    );
    set_policy_for_heap(&mut t, 901, names(&["location"]), vec![], Some(0));
    charge(&mut t, 901, 1);
    assert_eq!(
        service_allowed(&t, 901, "location.get"),
        Err("this app's instruction budget is spent".to_string())
    );
}

#[test]
fn a_url_must_name_a_listed_host_exactly() {
    let mut t = PolicyTable::new();
    set_policy_for_heap(&mut t, 902, names(&["net"]), names(&["Api.Weather.Example"]), None);
    assert!(url_allowed(&t, 902, "https://api.weather.example/v1"));
    assert!(url_allowed(&t, 902, "HTTPS://API.WEATHER.EXAMPLE:443/"));
    assert!(!url_allowed(&t, 902, "https://weather.example/"), "a parent domain is not the listed host");
    assert!(!url_allowed(&t, 902, "https://evil.api.weather.example/"), "nor is a subdomain");
    assert!(!url_allowed(&t, 902, "http://127.0.0.1:8170/ux-images/x.svg"), "the artwork server that leaked");
    assert!(!url_allowed(&t, 902, "garbage"));
    gc_policies(&mut t, &vec![902]);
}

#[test]
fn a_listed_host_port_matches_only_that_port() {
    let mut t = PolicyTable::new();
    set_policy_for_heap(&mut t, 907, vec![], names(&["127.0.0.1:5000"]), None);
    assert!(url_allowed(&t, 907, "http://127.0.0.1:5000/assets/a.svg"));
    assert!(!url_allowed(&t, 907, "http://127.0.0.1:8170/ux-images/a.svg"), "another loopback service");
    assert!(!url_allowed(&t, 907, "http://127.0.0.1/a.svg"), "nor the bare host");
    gc_policies(&mut t, &vec![907]);
}

#[test]
fn an_empty_host_list_reaches_nothing_even_with_the_capability() {
    let mut t = PolicyTable::new();
    set_policy_for_heap(&mut t, 903, names(&["net"]), vec![], None);
    assert!(!url_allowed(&t, 903, "https://api.weather.example/"));
    gc_policies(&mut t, &vec![903]);
}

#[test]
fn the_budget_is_cumulative_and_exhaustion_is_permanent() {
    let mut t = PolicyTable::new();
    set_policy_for_heap(&mut t, 904, names(&["location"]), names(&["a.example"]), Some(1000));
    assert!(charge(&mut t, 904, 400));
    assert!(charge(&mut t, 904, 400));
    assert!(may_run(&t, 904));
    assert!(!charge(&mut t, 904, 400), "the third charge crosses the budget");
    assert!(!may_run(&t, 904));
    assert!(service_allowed(&t, 904, "location.get").is_err(), "an exhausted heap gets no services");
    assert!(!url_allowed(&t, 904, "https://a.example/"), "nor network");
    assert!(!charge(&mut t, 904, 1), "and stays exhausted");
    assert_eq!(instructions_used(&t, 904), 1201);
    gc_policies(&mut t, &vec![904]);
}

#[test]
fn replacing_a_policy_keeps_what_was_already_spent() {
    let mut t = PolicyTable::new();
    set_policy_for_heap(&mut t, 905, vec![], vec![], Some(100));
    charge(&mut t, 905, 90);
    set_policy_for_heap(&mut t, 905, vec![], vec![], Some(100));
    assert_eq!(instructions_used(&t, 905), 90, "a re-push of the same policy is not a refill");
    set_policy_for_heap(&mut t, 905, vec![], vec![], Some(50));
    assert!(!may_run(&t, 905), "lowering the budget below what is spent exhausts the heap");
    set_policy_for_heap(&mut t, 905, vec![], vec![], Some(500));
    assert!(!may_run(&t, 905), "a larger budget does not wake an exhausted heap");
    gc_policies(&mut t, &vec![905]);
}

#[test]
fn an_exhausted_heap_stays_exhausted_under_a_new_policy() {
    let mut t = PolicyTable::new();
    set_policy_for_heap(&mut t, 912, vec![], vec![], Some(10));
    assert!(!charge(&mut t, 912, 10));
    set_policy_for_heap(&mut t, 912, vec![], vec![], Some(100));
    assert!(!may_run(&t, 912));
    set_policy_for_heap(&mut t, 912, vec![], vec![], None);
    assert!(!may_run(&t, 912) && !charge(&mut t, 912, 0));
    gc_policies(&mut t, &vec![912]);
    set_policy_for_heap(&mut t, 912, vec![], vec![], Some(100));
    assert!(may_run(&t, 912), "a heap that takes the key over starts anew");
}

#[test]
fn location_needs_the_location_grant() {
    let fix = Some(GpsFix { lat: 1, lon: 2, acc: 3 });
    let mut t = PolicyTable::new();
    gc_policies(&mut t, &vec![908]);
    assert!(location_allowed(&t, 908), "an unpoliced heap reads the fix as before");
    assert_eq!(gps_fix_for_heap(&t, 908, fix), fix);
    set_policy_for_heap(&mut t, 908, names(&["net"]), vec![], None);
    assert!(!location_allowed(&t, 908));
    assert!(gps_fix_for_heap(&t, 908, fix).is_none(), "no grant reads as no fix");
    set_policy_for_heap(&mut t, 908, names(&["location"]), vec![], None);
    assert!(location_allowed(&t, 908));
    assert!(!profile_allowed(&t, 908), "location does not cover the user's saved lists");
    set_policy_for_heap(&mut t, 908, names(&["profile"]), vec![], None);
    assert!(profile_allowed(&t, 908));
    gc_policies(&mut t, &vec![908]);
}

#[test]
fn a_policed_heap_reads_local_files_only_inside_its_jail() {
    let mut t = PolicyTable::new();
    gc_policies(&mut t, &vec![909]);
    assert_eq!(file(&t, 909, None, "/etc/hosts").as_deref(), Some("/etc/hosts"));
    set_policy_for_heap(&mut t, 909, vec![], vec![], None);
    assert!(file(&t, 909, None, "maps/world.mkmap").is_none(), "no jail, no files");
    let jail = Some("/jail/app");
    assert_eq!(file(&t, 909, jail, "maps/world.mkmap").as_deref(), Some("/jail/app/maps/world.mkmap"));
    assert!(file(&t, 909, jail, "../../etc/hosts").is_none(), "no climbing out");
    gc_policies(&mut t, &vec![909]);
}

#[test]
fn a_public_host_is_https_and_off_the_devices_network() {
    for ok in [
        "https://news.ycombinator.com/",
        "https://CDN.Example.org:8443/a.jpg",
        "https://8.8.8.8/",
        "https://[2606:4700::1111]/",
    ] {
        assert!(public_https_host(ok).is_ok(), "{ok}");
    }
    for bad in [
        "http://example.com/",
        "https://localhost/",
        "https://127.0.0.1/",
        "https://10.0.0.8/",
        "https://172.20.1.1/",
        "https://192.168.1.1/",
        "https://169.254.169.254/latest/meta-data",
        "https://100.64.0.1/",
        "https://0.0.0.0/",
        "https://[::1]/",
        "https://[fd00::1]/",
        "https://[fe80::1]/",
        "https://[::ffff:127.0.0.1]/",
        "https://0x7f.1/",
        "https://2130706433/",
        "https://router/",
        "https://printer.local/",
        "https://nas.home.arpa/",
        "https://evil.com@127.0.0.1/",
    ] {
        assert!(public_https_host(bad).is_err(), "{bad}");
    }
}

#[test]
fn images_and_web_grants_open_public_https_only() {
    let mut t = PolicyTable::new();
    set_policy_for_heap(&mut t, 910, names(&["net"]), names(&["hn.algolia.com"]), None);
    assert!(media_allowed(&t, 910, "https://hn.algolia.com/logo.png"), "its own hosts, as before");
    assert!(!media_allowed(&t, 910, "https://cdn.example.org/a.jpg"));
    assert!(!page_allowed(&t, 910, "https://example.org/story"));
    set_policy_for_heap(&mut t, 910, names(&["net", "images", "web"]), names(&["hn.algolia.com"]), None);
    assert!(media_allowed(&t, 910, "https://cdn.example.org/a.jpg"));
    assert!(page_allowed(&t, 910, "https://example.org/story"));
    assert!(!media_allowed(&t, 910, "https://192.168.1.1/a.jpg"), "never the device's network");
    assert!(!page_allowed(&t, 910, "http://example.org/story"), "never plain http");
    assert!(!url_allowed(&t, 910, "https://cdn.example.org/a.jpg"), "neither grant widens requests");
    gc_policies(&mut t, &vec![910]);
    assert!(media_allowed(&t, 910, "https://anything.example/"), "an unpoliced heap, as before");
}

#[test]
fn a_policed_heap_opens_no_server_and_no_raw_socket_whatever_it_holds() {
    let mut t = PolicyTable::new();
    gc_policies(&mut t, &vec![911]);
    assert!(sockets_allowed(&t, 911), "an unpoliced heap, as before");
    assert!(script_media_allowed(&t, 911, "http://10.0.0.1/"), "no guard yet");
    set_policy_for_heap(&mut t, 911, names(&["net", "storage", "web"]), names(&["127.0.0.1"]), None);
    assert!(!sockets_allowed(&t, 911), "no grant and no listed host covers a socket");
    assert!(!script_sockets_allowed(&t, 911), "setting a policy installs the script guard");
    assert!(script_url_allowed(&t, 911, "ws://127.0.0.1:9/"), "the url guard is in too");
    gc_policies(&mut t, &vec![911]);
    assert!(script_sockets_allowed(&t, 911));
}

#[test]
fn gc_forgets_a_heap_entirely() {
    let mut t = PolicyTable::new();
    set_policy_for_heap(&mut t, 906, vec![], vec![], Some(1));
    charge(&mut t, 906, 5);
    gc_policies(&mut t, &vec![906]);
    assert!(!is_enforced(&t, 906));
    assert!(may_run(&t, 906));
}

#[test]
fn listed_hosts_are_in_lower_case() {
    let mut t = PolicyTable::new();
    assert_eq!(hosts_for_heap(&t, 1), None);
    set_policy_for_heap(&mut t, 1, vec![], names(&["A.Example"]), None);
    assert_eq!(hosts_for_heap(&t, 1), Some(names(&["a.example"])));
}

#[test]
fn digests_are_asked_for_with_known_fields_only() {
    for ok in ["status", "message", "count", "items.0.title", "items.2.published_at", "items.+1.url"] {
        assert!(field_ok(ok), "{ok}");
    }
    for bad in ["", "items", "items.3.title", "items.0.body", "items.0.title.x", "items.-1.title"] {
        assert!(!field_ok(bad), "{bad}");
    }
    let base = "http://127.0.0.1:9000/";
    assert!(request_ok("count", "rust", "en", base));
    assert!(!request_ok("count", "  ", "en", base));
    assert!(!request_ok("count", &"x".repeat(161), "en", base));
    assert!(!request_ok("count", "rust", "de", base));
    assert!(!request_ok("count", "rust", "en", "http://example.com:9000"));
    assert_eq!(
        news_url(base, " a b&é ", "zh-CN"),
        "http://127.0.0.1:9000/news?q=a%20b%26%C3%A9&language=zh-CN"
    );
    assert_eq!(percent_encode_query("-._~aZ9/").iter().collect::<String>(), "-._~aZ9%2F");
}

#[test]
fn digests_expire_and_few_are_kept() {
    let mut cache = NewsCache::new();
    for i in 0..40u64 {
        cache.request(&format!("u{i}"), i);
    }
    assert_eq!(cache.requests.len(), 32);
    assert!(cache.requests.get("u7").is_none() && cache.requests.get("u8").is_some());
    assert!(cache.request("u39", 40).is_empty());
    assert_eq!(cache.request("u39", 60_039), names(&["u39"]));
    let mut even = NewsCache::new();
    for i in 0..32u64 {
        even.request(&format!("k{:02}", 31 - i), 5);
    }
    assert_eq!(even.request("new", 6), names(&["k00"]), "of those as old, the first by name");
}

#[test]
fn a_digest_is_fetched_once_until_it_is_stale() {
    let mut cache = NewsCache::new();
    let mut fetches = DataFetches::new();
    let base = "http://127.0.0.1:9000";
    let mut ask = |fetches: &mut DataFetches, now: u64, id: u64| {
        news_digest(&mut cache, fetches, "count", "rust", "en", base, true, now, id)
    };
    assert!(matches!(ask(&mut fetches, 0, 1), NewsStep::Issue { retry: false, .. }));
    assert!(matches!(ask(&mut fetches, 1, 2), NewsStep::Waiting(_)));
    assert!(fetches.handle_data_fetch_response(1, b"{}".to_vec()));
    assert!(matches!(ask(&mut fetches, 2, 3), NewsStep::Loaded(_)));
    assert!(matches!(ask(&mut fetches, 59_999, 3), NewsStep::Loaded(_)), "asking does not renew it");
    assert!(matches!(ask(&mut fetches, 60_000, 4), NewsStep::Issue { retry: false, .. }));
    assert!(matches!(
        news_digest(&mut cache, &mut fetches, "nope", "rust", "en", base, true, 0, 5),
        NewsStep::Unavailable
    ));
    assert!(matches!(
        news_digest(&mut cache, &mut fetches, "count", "other", "en", base, false, 0, 6),
        NewsStep::Refused(_)
    ));
    assert_eq!(cache.requests.len(), 2);
    assert_eq!(fetches.epoch, 1);
    assert!(fetches.handle_data_fetch_error(4));
    assert!(matches!(
        news_digest(&mut cache, &mut fetches, "count", "rust", "en", base, true, 60_001, 7),
        NewsStep::Issue { retry: true, .. }
    ));
}

#[test]
fn card_helpers_decide_what_is_shown() {
    assert_eq!(l0_ratio("x", Some("1.5".into())), "1.5");
    assert_eq!(l0_ratio("n/a", None), "n/a");
    assert_eq!(l0_ratio("x", None), "—");
    let pair = convert_pair(" KM ", "Mi", "rev").expect("a pair");
    assert_eq!((pair.from.as_str(), pair.to.as_str()), ("mi", "km"));
    assert!(convert_pair("km", "mi", "up").is_none());
    assert_eq!(convert_field(None, true), ConvertField::Value);
    assert_eq!(convert_field(Some("amount"), true), ConvertField::Amount);
    assert_eq!(convert_field(Some("other"), true), ConvertField::Missing);
    assert_eq!(convert_field(None, false), ConvertField::Missing);
    assert_eq!(json_string("a \"q\"\n"), "\"a \\\"q\\\"\\n\"");
    assert_eq!(l0_math("/", false), Some(MathOp::Over));
    assert_eq!(l0_math("/", true), None);
    assert_eq!(l0_math("^", false), None);
}

#[test]
fn a_dataset_is_read_by_its_name() {
    assert!(dataset_fits(131072) && !dataset_fits(131073));
    let mut snapshot = DatasetSnapshot::new();
    assert!(snapshot.asked() && !snapshot.asked(), "it is read once");
    snapshot.read(Some("{}".into()));
    assert_eq!(snapshot.json, "{}");
    snapshot.read(None);
    assert_eq!(snapshot.json, "");
    assert_eq!(dataset_path("set", "field_1", Some("set")).as_deref(), Some("data.field_1"));
    assert_eq!(dataset_path("set", "a.b", Some("set")), None);
    assert_eq!(dataset_path("set", "", Some("set")), None);
    assert_eq!(dataset_path("set", "a", Some("other")), None);
    assert_eq!(dataset_path("set", "a", None), None);
}
