//! Text, numbers, addresses, sorting and tables.

use taktwerk::daemon::table::Table;
use taktwerk::ipv4::{dotted_text, is_multicast, is_unspecified, parse_ipv4};
use taktwerk::order::order;
use taktwerk::ptime::{parse_micros, push_millis};
use taktwerk::text::{
    chars_of, decimal_text, drop_crs, is_text, line_at, parse_unsigned, piece, same_text,
    split_once, string_of, strip, to_lower, trim, word,
};

fn text_of(s: Option<&[char]>) -> Option<String> {
    s.map(string_of)
}

#[test]
fn text_is_cut_at_separators() {
    let v = chars_of("a=b=c");
    let (left, right) = split_once(&v, '=').unwrap();
    assert_eq!((string_of(left), string_of(right)), ("a".to_string(), "b=c".to_string()));
    assert!(split_once(&v, ':').is_none());
    assert_eq!(text_of(piece(&v, '=', 2)), Some("c".to_string()));
    assert_eq!(text_of(piece(&v, '=', 3)), None);
    assert_eq!(text_of(piece(&[], '=', 0)), Some(String::new()));
    assert_eq!(text_of(strip(&v, "a=")), Some("b=c".to_string()));
    assert_eq!(text_of(strip(&v, "b")), None);
}

#[test]
fn words_stand_between_spaces() {
    let v = chars_of("  audio 5004\tRTP/AVP ");
    assert_eq!(text_of(word(&v, 0)), Some("audio".to_string()));
    assert_eq!(text_of(word(&v, 2)), Some("RTP/AVP".to_string()));
    assert_eq!(text_of(word(&v, 3)), None);
    assert_eq!(string_of(trim(&v)), "audio 5004\tRTP/AVP");
    assert_eq!(string_of(trim(&chars_of(" \u{a0}x\u{2003}"))), "x");
}

#[test]
fn lines_end_at_line_feeds() {
    let v = chars_of("v=0\r\ns=x");
    let (first, next) = line_at(&v, 0);
    assert_eq!(string_of(drop_crs(first)), "v=0");
    let (second, end) = line_at(&v, next);
    assert_eq!(string_of(second), "s=x");
    assert!(end >= v.len());
}

#[test]
fn text_is_compared_as_a_whole() {
    assert!(same_text("Öl", "Öl"));
    assert!(!same_text("ab", "abc"));
    assert!(is_text(&chars_of("ab"), "ab"));
    assert_eq!(string_of(&to_lower(&chars_of("InFiNiTyÄ"))), "infinityÄ");
}

#[test]
fn numbers_are_read_within_their_bounds() {
    let read = |s: &str, max: u64| parse_unsigned(&chars_of(s), max);
    assert_eq!(read("255", 255), Some(255));
    assert_eq!(read("256", 255), None);
    assert_eq!(read("+7", 9), Some(7));
    assert_eq!(read("007", 9), Some(7));
    assert_eq!(read("", 9), None);
    assert_eq!(read("+", 9), None);
    assert_eq!(read("-1", 9), None);
    assert_eq!(read("18446744073709551615", u64::MAX), Some(u64::MAX));
    assert_eq!(read("18446744073709551616", u64::MAX), None);
}

#[test]
fn written_numbers_are_read_back() {
    for n in [0u64, 9, 10, 48_000, 4_294_967_295, u64::MAX] {
        assert_eq!(decimal_text(n), n.to_string());
        assert_eq!(parse_unsigned(&chars_of(&decimal_text(n)), u64::MAX), Some(n));
    }
}

#[test]
fn packet_times_are_written_short_and_read_back() {
    let millis = |us: u32| {
        let mut s = String::new();
        push_millis(&mut s, us);
        s
    };
    assert_eq!(millis(1000), "1");
    assert_eq!(millis(125), "0.125");
    assert_eq!(millis(250), "0.25");
    assert_eq!(millis(1500), "1.5");
    assert_eq!(millis(1005), "1.005");
    for us in [0u32, 1, 125, 250, 333, 1000, 1333, 20_000, u32::MAX] {
        assert_eq!(parse_micros(&chars_of(&millis(us))), Some(us));
    }
}

#[test]
fn odd_packet_times_are_read_as_numbers() {
    let read = |s: &str| parse_micros(&chars_of(s));
    assert_eq!(read("1.25e-1"), Some(125));
    assert_eq!(read("+2"), Some(2000));
    assert_eq!(read("-2"), Some(0));
    assert_eq!(read("0.0005"), Some(1));
    assert_eq!(read("0.0004"), Some(0));
    assert_eq!(read("1e9"), Some(u32::MAX));
    assert_eq!(read("inf"), Some(u32::MAX));
    assert_eq!(read("NaN"), Some(0));
    assert_eq!(read("5."), Some(5000));
    assert_eq!(read("."), None);
    assert_eq!(read("1e"), None);
    assert_eq!(read("1 ms"), None);
    assert_eq!(read(""), None);
}

#[test]
fn addresses_are_read_as_dotted_numbers() {
    assert_eq!(parse_ipv4("239.69.83.67"), Some([239, 69, 83, 67]));
    assert_eq!(parse_ipv4("0.0.0.0"), Some([0, 0, 0, 0]));
    for bad in ["", "1.2.3", "1.2.3.4.5", "256.1.1.1", "01.2.3.4", "+1.2.3.4", "1.2.3.4 ", "a.b.c.d"] {
        assert_eq!(parse_ipv4(bad), None, "{bad}");
    }
    for a in [[0, 0, 0, 0], [10, 0, 0, 5], [255, 255, 255, 255], [239, 1, 20, 100]] {
        assert_eq!(parse_ipv4(&dotted_text(a)), Some(a));
    }
}

#[test]
fn multicast_groups_lie_between_224_and_239() {
    assert!(!is_multicast([223, 255, 255, 255]));
    assert!(is_multicast([224, 0, 0, 1]));
    assert!(is_multicast([239, 255, 255, 255]));
    assert!(!is_multicast([240, 0, 0, 0]));
    assert!(is_unspecified([0, 0, 0, 0]));
    assert!(!is_unspecified([0, 0, 0, 1]));
}

#[test]
fn sorting_keeps_the_order_of_equals() {
    assert_eq!(order(&vec![3u32, 1, 2, 1]), vec![1, 3, 2, 0]);
    assert_eq!(order(&vec![0i64, -5, i64::MAX, i64::MIN]), vec![3, 1, 0, 2]);
    let names: Vec<String> = ["b", "", "ab", "a", "ä"].iter().map(|s| s.to_string()).collect();
    assert_eq!(order(&names), vec![1, 3, 2, 0, 4]);
    assert_eq!(order::<u32>(&vec![]), Vec::<usize>::new());
}

#[test]
fn table_finds_what_was_put_last() {
    let mut t: Table<String, u32> = Table::new();
    t.insert("a".to_string(), 1);
    t.insert("b".to_string(), 2);
    t.insert("a".to_string(), 3);
    assert_eq!(t.len(), 2);
    assert_eq!(t.get(&"a".to_string()), Some(&3));
    assert_eq!((t.key(0).as_str(), *t.value(1)), ("a", 2));
    assert_eq!(t.get(&"c".to_string()), None);
}

#[test]
fn table_forgets_what_was_removed() {
    let mut t: Table<u16, &str> = Table::new();
    t.insert(1, "one");
    t.insert(2, "two");
    t.insert(3, "three");
    assert_eq!(t.remove(&2), Some("two"));
    assert_eq!(t.remove(&2), None);
    assert!(!t.contains(&2));
    assert_eq!(t.get(&3), Some(&"three"));
    assert_eq!(t.take_all(), vec!["one", "three"]);
    assert_eq!(t.len(), 0);
}
