use makepad_host::case::{same_lowercase, to_lowercase, to_uppercase};
use makepad_host::feed::dates::{days_from_civil, parse_rfc3339, parse_rfc822, zone_offset};
use makepad_host::feed::images::{image_url, is_http_url};
use makepad_host::feed::markup::{attribute, clean_text, decode_entities, has_element, strip_tags};
use makepad_host::feed::names::{
    looks_like_name, outlet_prefix, split_google_source, trailing_outlet,
};
use makepad_host::feed::rows::{
    define_feed_module, json_string, parse_feed, parse_styled, rows_json, style_named, truncate,
    Headline, ScriptMethods, Style,
};
use makepad_host::feed::size::reads_below_fifty;

const RSS: &str = r#"<?xml version="1.0"?><rss><channel><title>T</title>
      <item><title><![CDATA[Rust 2.0 &amp; you]]></title><link>https://example.com/a</link>
        <description>&lt;p&gt;Big &lt;b&gt;news&lt;/b&gt;&lt;/p&gt;</description>
        <pubDate>Tue, 10 Jun 2025 12:00:00 GMT</pubDate>
        <media:thumbnail url="http://img.example.com/a.jpg"/></item>
      <item><title>Second - The Outlet</title><link>https://example.com/b</link></item>
      <item><title></title><link>https://example.com/c</link></item>
    </channel></rss>"#;

const ATOM: &str = r#"<feed xmlns="http://www.w3.org/2005/Atom"><entry><title>Atom post</title>
      <link rel="alternate" href="https://example.org/p"/><updated>2025-06-10T12:00:00Z</updated>
      <summary>Short</summary></entry></feed>"#;

const PLAIN: Style = Style { split_source: false, digest: false };

fn chars(s: &str) -> Vec<char> {
    s.chars().collect()
}

fn text(v: &[char]) -> String {
    v.iter().collect()
}

fn headline(title: &str) -> Headline {
    Headline {
        title: title.into(),
        link: String::new(),
        source: String::new(),
        source_id: String::new(),
        published: None,
        points: None,
        comments: None,
        summary: String::new(),
        discussion: None,
        image: None,
    }
}

#[test]
fn rss_items_become_rows_with_cleaned_text_times_and_https_images() {
    let rows = parse_styled(RSS, PLAIN).unwrap_or_default();
    assert_eq!(rows.len(), 2, "an untitled item is skipped");
    assert_eq!(rows[0].title, "Rust 2.0 & you");
    assert_eq!(rows[0].summary, "Big news");
    assert_eq!(rows[0].published, Some(1_749_556_800));
    assert_eq!(rows[0].image.as_deref(), Some("https://img.example.com/a.jpg"));
    assert_eq!(rows[1].title, "Second - The Outlet", "plain style keeps the title whole");
}

#[test]
fn rows_are_tidy_whatever_the_feed_holds() {
    let long = "word ".repeat(200);
    let xml = format!(
        "<rss><channel><item><title>  A &lt;b&gt;title&lt;/b&gt;\n </title><link>https://a.example/1</link>\
         <description>{long}</description><enclosure type=\"image/png\" url=\"HTTP://a.example/p.png\"/></item>\
         <item><title> </title><link>https://a.example/2</link></item></channel></rss>"
    );
    let rows = parse_styled(&xml, PLAIN).unwrap_or_default();
    assert_eq!(rows.len(), 1, "a row needs a title");
    assert_eq!(rows[0].title, "A title");
    assert_eq!(rows[0].summary.chars().count(), 280);
    assert_eq!(rows[0].image.as_deref(), Some("https://a.example/p.png"));
}

#[test]
fn google_style_takes_the_outlet_off_the_title() {
    let rows = parse_styled(RSS, Style { split_source: true, digest: false }).unwrap_or_default();
    assert_eq!(rows[1].title, "Second");
    assert_eq!(rows[1].source, "The Outlet");
}

#[test]
fn atom_entries_parse_and_non_feeds_are_refused() {
    let rows = parse_styled(ATOM, PLAIN).unwrap_or_default();
    assert_eq!(rows[0].link, "https://example.org/p");
    assert_eq!(rows[0].published, Some(1_749_556_800));
    assert!(parse_styled("<html><body>nope</body></html>", PLAIN).is_err());
}

#[test]
fn rows_serialize_to_json_the_script_reader_accepts() {
    let rows = parse_styled(RSS, PLAIN).unwrap_or_default();
    let json = rows_json(&rows);
    assert!(json.starts_with("[{\"title\":\"Rust 2.0 & you\""), "{json}");
    let quoted = rows_json(&vec![headline("a \"q\"\n")]);
    assert!(quoted.contains("\"a \\\"q\\\"\\n\""), "{quoted}");
}

#[test]
fn dates_count_days_and_zones() {
    assert_eq!(days_from_civil(1970, 1, 1), 0);
    assert_eq!(days_from_civil(2000, 3, 1), 11_017);
    assert_eq!(days_from_civil(1969, 12, 31), -1);
    assert_eq!(days_from_civil(1970, 1, i64::MAX), i64::MAX - 1);
    assert_eq!(days_from_civil(2_000_000_000_000_000, 1, 1), 730_484_999_999_280_472);
    assert_eq!(zone_offset(&chars("GMT")), 0);
    assert_eq!(zone_offset(&chars("+0130")), 5400);
    assert_eq!(zone_offset(&chars("-0800")), -28_800);
    assert_eq!(parse_rfc822(&chars("Tue, 10 Jun 2025 12:00:00 +0200")), Some(1_749_549_600));
    assert_eq!(parse_rfc3339(&chars("2025-06-10T12:00:00Z")), Some(1_749_556_800));
    assert_eq!(parse_rfc3339(&chars("not a date")), None);
}

#[test]
fn entities_and_tags_are_cleaned_away() {
    assert_eq!(text(&decode_entities(&chars("a &lt;b&gt; &#65;&#x42; &amp; &nope;"))), "a <b> AB & &nope;");
    assert_eq!(text(&strip_tags(&chars("x <b>bold</b> y"))).trim(), "x bold y");
    assert_eq!(text(&clean_text(&chars("  a\n  <i>b</i> "))), "a b");
    assert!(has_element(&chars("<item><title>t</title></item>"), "title"));
    assert!(!has_element(&chars("<item></item>"), "title"));
    assert_eq!(attribute(&chars(r#" url="u" type='t'"#), "url").map(text), Some("u".to_string()));
}

#[test]
fn outlets_are_found_in_titles_and_summaries() {
    let split = split_google_source(&chars("Second - The Outlet")).expect("a source");
    assert_eq!((split.first.iter().collect::<String>(), split.second.iter().collect::<String>()), ("Second".to_string(), "The Outlet".to_string()));
    assert!(split_google_source(&chars("No source here")).is_none());
    assert!(trailing_outlet(&chars("Headline (Jane Doe/The Times)")).is_some());
    assert!(outlet_prefix(&chars("Headline"), &chars("no colon at all")).is_none());
}

#[test]
fn pictures_come_from_media_elements_and_are_https() {
    let body = chars(r#"<media:content url="http://a.example/x.png" type="image/png"/>"#);
    assert_eq!(image_url(&body).map(|v| text(&v)), Some("https://a.example/x.png".to_string()));
    let shouting = chars(r#"<media:thumbnail url="HTTP://a.example/x.png"/>"#);
    assert_eq!(image_url(&shouting).map(|v| text(&v)), Some("https://a.example/x.png".to_string()));
    let pixel = chars(r#"<description>&lt;img src="https://a.example/p.gif" width="1" height="1"&gt;</description>"#);
    assert_eq!(image_url(&pixel).map(|v| text(&v)), None, "a tracking pixel is no picture");
    assert!(is_http_url(&chars("https://a")));
    assert!(!is_http_url(&chars("ftp://a")));
}

#[test]
fn small_numbers_are_compared_exactly() {
    for small in ["0", "49", "49.9", "4.9e1", "-3", "1", "0.5"] {
        assert!(reads_below_fifty(&chars(small)), "{small}");
    }
    for big in ["50", "50.0", "5e1", "100", "inf", "NaN", "x", ""] {
        assert!(!reads_below_fifty(&chars(big)), "{big}");
    }
}

#[test]
fn long_text_is_cut_and_marked() {
    let long = "word ".repeat(80);
    let cut = truncate(&chars(&long), 101);
    assert_eq!(text(&cut), format!("{}word…", "word ".repeat(19)), "without the space before the cut");
    assert_eq!(truncate(&chars(&long), 100).len(), 100);
    assert_eq!(text(&truncate(&chars("short"), 100)), "short");
}

#[test]
fn a_script_reads_a_feed_by_its_style() {
    assert_eq!(style_named("google"), Style { split_source: true, digest: false });
    assert_eq!(style_named("anything"), PLAIN);
    let json = parse_feed(RSS, "google").expect("a feed");
    assert!(json.contains("\"source\":\"The Outlet\""), "{json}");
    assert!(parse_feed("<html></html>", "").is_none());
    let mut native = ScriptMethods { methods: vec![] };
    define_feed_module(&mut native);
    assert_eq!(native.methods[0].name, "parse_feed");
}

#[test]
fn json_text_reads_back() {
    let mut out: Vec<char> = Vec::new();
    json_string(&mut out, "tab\t\u{1} é \\ /");
    let written: String = out.iter().collect();
    let read: String = serde_json::from_str(&written).expect("a JSON string");
    assert_eq!(read, "tab\t\u{1} é \\ /");
}

#[test]
fn case_is_that_of_unicode() {
    assert_eq!(text(&to_lowercase(&chars("ÀB C1 İ"))), "ÀB C1 İ".to_lowercase());
    assert_eq!(text(&to_uppercase(&chars("straße é"))), "STRASSE É");
    assert!(same_lowercase('K', 'k'));
    assert!(same_lowercase('É', 'é'));
    assert!(!same_lowercase('a', 'b'));
}

#[test]
fn names_are_capitalised_in_any_script() {
    assert!(looks_like_name(&chars("Élan Vital")));
    assert!(looks_like_name(&chars("9 News")));
    assert!(!looks_like_name(&chars("élan vital")));
    assert!(!looks_like_name(&chars("This is. A sentence")));
    assert!(!looks_like_name(&chars("")));
}
