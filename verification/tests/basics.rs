use kurou::assoc::Assoc;
use kurou::clock::{created_at, house_time, normalize};
use kurou::discord::client::{BanPager, BANS_PAGE};
use kurou::text::{
    byte_length, comes_before, contains, lines, one_line, same_ignoring_case, signed_number, split, split_words,
    strip_prefix, trim,
};

#[test]
fn renders_wire_and_sqlite_times_in_house_time() {
    assert_eq!(house_time("2026-09-07T04:15:18.932Z"), "2026-09-07T11:15:18.932+07:00");
    assert_eq!(house_time("2026-09-07 04:15:18"), "2026-09-07T11:15:18+07:00");
}

#[test]
fn leaves_unknown_timestamp_shapes_alone() {
    assert_eq!(house_time("sometime after tea"), "sometime after tea");
}

#[test]
fn house_time_keeps_odd_shapes() {
    assert_eq!(house_time("2026-09-07 04:15:1x"), "2026-09-07 04:15:1x");
    assert_eq!(house_time("9999-12-31T23:00:00Z"), "9999-12-31T23:00:00Z");
    assert_eq!(house_time("2026-09-07T23:30:00-01:00"), "2026-09-08T07:30:00+07:00");
    assert_eq!(normalize("2026-09-07 04:15:18"), "2026-09-07T04:15:18Z");
    assert_eq!(normalize("2026-09-07 04:15:1é"), "2026-09-07 04:15:1é");
}

#[test]
fn snowflakes_hold_their_birth() {
    assert_eq!(created_at(175928847299117063), 1462015105);
    assert_eq!(created_at(1), 1420070400);
}

#[test]
fn text_is_cut_and_joined() {
    assert_eq!(trim("\u{2003} a b\t\n"), "a b");
    assert_eq!(split_words("  a \u{85} b\u{200b}c "), ["a", "b\u{200b}c"]);
    assert_eq!(lines("a\r\nb\n\nc\r"), ["a", "b", "", "c\r"]);
    assert_eq!(lines("a\n"), ["a"]);
    assert!(lines("").is_empty());
    assert_eq!(split("a,,b", ','), ["a", "", "b"]);
    assert_eq!(split("", ','), [""]);
    assert!(contains("abc", "") && contains("abc", "bc") && !contains("abc", "ac"));
    assert_eq!(strip_prefix("Bearer x", "Bearer ").as_deref(), Some("x"));
    assert_eq!(strip_prefix("Bear", "Bearer "), None);
    assert!(same_ignoring_case("AbC", "aBc") && !same_ignoring_case("É", "é"));
    assert_eq!(byte_length("aé烏🐦"), Some(10));
    assert_eq!(signed_number(i64::MIN), "-9223372036854775808");
    assert!(comes_before("a", "ab") && comes_before("Z", "a") && !comes_before("a", "a"));
    assert_eq!(one_line("aé b", 4), "aé b");
    assert_eq!(one_line("abcdefgh", 7), "abcd...");
}

#[test]
fn an_association_keeps_one_value_per_key() {
    let mut map: Assoc<u64, u32> = Assoc::new();
    map.insert(1, 10);
    map.insert(2, 20);
    map.insert(1, 11);
    assert_eq!((map.len(), map.get(&1), map.get(&3)), (2, Some(&11), None));
    assert_eq!(map.remove(&1), Some(11));
    assert_eq!(map.remove(&1), None);
    assert_eq!(map.into_pairs(), [(2, 20)]);
}

#[test]
fn bans_are_read_page_by_page() {
    let mut pager = BanPager::new();
    assert_eq!((pager.after, pager.done), (None, false));
    let page: Vec<u64> = (1..=BANS_PAGE as u64).collect();
    pager.take_page(&page);
    assert_eq!((pager.after, pager.done), (Some(100), false));
    pager.take_page(&vec![200]);
    assert!(pager.done);
    let mut empty = BanPager::new();
    empty.take_page(&Vec::new());
    assert!(empty.done);
}
