use makepad_host::feed::markup::numeric_entity;
use makepad_host::number::{decimal, digits, parse_i64, parse_unsigned, signed_decimal};
use makepad_host::paths::followed;
use makepad_host::splash::ip::{is_public_v4, is_public_v6, parse_v4, parse_v6, public_ip};
use makepad_host::splash::policy::resolve_jailed;
use makepad_host::splash::url::{url_host, url_host_port};
use makepad_host::text::{
    find, is_control, is_space, join, lower_all, replace, rfind, same_ignoring_case, spells, split,
    to_chars, to_text, trim, trim_end, trim_start, words,
};
use makepad_host::textmap::TextMap;

fn chars(s: &str) -> Vec<char> {
    s.chars().collect()
}

fn text(v: &[char]) -> String {
    v.iter().collect()
}

#[test]
fn white_space_and_control_characters_are_those_of_unicode() {
    for n in 0..=0x10ffffu32 {
        if let Some(c) = char::from_u32(n) {
            assert_eq!(is_space(c), c.is_whitespace(), "{n:x}");
            assert_eq!(is_control(c), c.is_control(), "{n:x}");
        }
    }
}

#[test]
fn text_goes_to_characters_and_back() {
    let s = "a é 𝄞";
    assert_eq!(to_chars(s), chars(s));
    assert_eq!(to_text(&chars(s)), s);
}

#[test]
fn searches_find_the_first_and_the_last() {
    let s = chars("abcabc");
    assert_eq!(find(&s, &chars("bc"), 0), Some(1));
    assert_eq!(find(&s, &chars("bc"), 2), Some(4));
    assert_eq!(find(&s, &chars("x"), 0), None);
    assert_eq!(rfind(&s, &chars("bc")), Some(4));
    assert!(spells(&s, "abcabc") && !spells(&s, "abc"));
    assert!(same_ignoring_case(&chars("AbC"), &chars("aBc")));
}

#[test]
fn text_is_trimmed_split_joined_and_replaced() {
    let s = chars("\u{3000} a b\n");
    assert_eq!(text(trim(&s)), "a b");
    assert_eq!(text(trim_start(&s)), "a b\n");
    assert_eq!(text(trim_end(&s)), "\u{3000} a b");
    let parts: Vec<String> = split(&chars("a,,b"), ',').into_iter().map(text).collect();
    assert_eq!(parts, vec!["a", "", "b"]);
    let list: Vec<String> = words(&chars("  a  bc d ")).into_iter().map(text).collect();
    assert_eq!(list, vec!["a", "bc", "d"]);
    let (a, b) = (chars("a"), chars("b"));
    assert_eq!(text(&join(&vec![&a[..], &b[..]], &chars("--"))), "a--b");
    assert_eq!(text(&replace(&chars("aaa"), "aa", "b")), "ba");
    assert_eq!(text(&lower_all(&chars("AÉ"))), "aÉ");
}

#[test]
fn numbers_are_read_as_the_standard_library_reads_them() {
    for s in ["0", "-0", "+7", "9223372036854775807", "-9223372036854775808", "9223372036854775808", "", "+", "-", "1x", " 1", "٣"] {
        assert_eq!(parse_i64(&chars(s)), s.parse::<i64>().ok(), "{s}");
    }
    for s in ["0", "255", "256", "+3", "-0", "", "+", "00012"] {
        assert_eq!(parse_unsigned(&chars(s), 255), s.parse::<u8>().ok().map(u64::from), "{s}");
    }
    assert_eq!(digits(&chars("fF"), 16, 1000), Some(255));
    for n in [0, 9, 10, 12345, u64::MAX] {
        assert_eq!(text(&decimal(n)), n.to_string());
    }
    for n in [0, -1, i64::MIN, i64::MAX] {
        assert_eq!(text(&signed_decimal(n)), n.to_string());
    }
    assert_eq!(numeric_entity(&chars("#x1F600")), Some('😀'));
    assert_eq!(numeric_entity(&chars("#xD800")), None);
}

#[test]
fn paths_are_followed_step_by_step() {
    let parts: Vec<Vec<char>> = ["a", "", ".", "b", "..", "c"].iter().map(|s| chars(s)).collect();
    let slices: Vec<&[char]> = parts.iter().map(|p| p.as_slice()).collect();
    let steps: Vec<String> = followed(&slices).expect("it stays inside").into_iter().map(text).collect();
    assert_eq!(steps, vec!["a", "c"]);
    assert_eq!(resolve_jailed("/j", "a/../b").as_deref(), Some("/j/b"));
    assert_eq!(resolve_jailed("/j", "a/../../b"), None);
    assert_eq!(resolve_jailed("/j", "/etc/hosts").as_deref(), Some("/j/etc/hosts"));
}

#[test]
fn keys_of_a_text_map_are_unique() {
    let mut m: TextMap<u8> = TextMap::new();
    m.insert("a", 1);
    m.insert("b", 2);
    m.insert("a", 3);
    assert_eq!(m.len(), 2);
    assert_eq!(m.get("a"), Some(&3));
    assert_eq!(m.remove("a"), Some(3));
    assert_eq!(m.remove("a"), None);
    assert_eq!(m.at(0), (&"b".to_string(), &2));
}

#[test]
fn addresses_are_read_as_the_standard_library_reads_them() {
    let v4 = |s: &str| parse_v4(&chars(s)).map(|v| [v.a, v.b, v.c, v.d]);
    assert_eq!(v4("1.2.3.4"), Some([1, 2, 3, 4]));
    for bad in ["01.2.3.4", "1.2.3", "1.2.3.256", "0x7f.1", "1.2.3.4 ", ""] {
        assert_eq!(v4(bad), None, "{bad}");
    }
    let v6 = |s: &str| parse_v6(&chars(s));
    assert_eq!(v6("::1"), Some(vec![0, 0, 0, 0, 0, 0, 0, 1]));
    assert_eq!(v6("::"), Some(vec![0; 8]));
    assert_eq!(v6("fe80::1"), Some(vec![0xfe80, 0, 0, 0, 0, 0, 0, 1]));
    assert_eq!(v6("1:2:3:4:5:6:7:8"), Some(vec![1, 2, 3, 4, 5, 6, 7, 8]));
    assert_eq!(v6("::ffff:1.2.3.4"), Some(vec![0, 0, 0, 0, 0, 0xffff, 0x102, 0x304]));
    assert_eq!(v6("1:2:3:4:5:6:1.2.3.4"), Some(vec![1, 2, 3, 4, 5, 6, 0x102, 0x304]));
    for bad in ["1::2::3", "1:2:3:4:5:6:7:8:9", "12345::", "1:2:3", "1.2.3.4"] {
        assert_eq!(v6(bad), None, "{bad}");
    }
    assert_eq!(public_ip(&chars("8.8.8.8")), Some(true));
    assert_eq!(public_ip(&chars("127.0.0.1")), Some(false));
    assert_eq!(public_ip(&chars("::ffff:10.0.0.1")), Some(false));
    assert_eq!(public_ip(&chars("example.com")), None);
    assert!(!is_public_v4(parse_v4(&chars("192.168.0.1")).expect("an address")));
    assert!(is_public_v6(&parse_v6(&chars("2606:4700::1111")).expect("an address")));
}

#[test]
fn hosts_and_ports_of_urls() {
    let host = |s: &str| url_host(&chars(s)).map(|v| text(&v));
    let port = |s: &str| url_host_port(&chars(s)).map(|v| text(&v));
    assert_eq!(host("HTTPS://User@Host.Example:8443/p?q").as_deref(), Some("host.example"));
    assert_eq!(port("http://127.0.0.1:5000/a").as_deref(), Some("127.0.0.1:5000"));
    assert_eq!(host("garbage"), None);
}
