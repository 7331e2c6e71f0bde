//! Words: texts, numbers, sizes, durations and paths.
use zitch::order::{sorted, Ascending, Newest};
use zitch::paths::{extension, file_name, join_path, parent};
use zitch::rows::{Rows, Section};
use zitch::size::human_size;
use zitch::text::{
    begins, capitalize, contains, drop_leading, drop_prefixes, ends, has_char, join_all,
    number_text, parse_number, same, signed_text, sorts_before, split_at_each, split_at_first,
    split_at_space, split_lines, strip_prefix, strip_suffix, to_lowercase, trimmed, trimmed_start,
};
use zitch::model::Direction;
use zitch::moment::{human_time_ago, rfc3339_to_unix};
use zitch::ui::{human_duration, human_duration_seconds};

#[test]
fn sizes_are_rounded_as_printed() {
    assert_eq!(human_size(0), "0 B");
    assert_eq!(human_size(-5), "0 B");
    assert_eq!(human_size(999), "999 B");
    assert_eq!(human_size(1000), "1.0 KB");
    // Ties go by what the division leaves.
    assert_eq!(human_size(1050), "1.1 KB");
    assert_eq!(human_size(1150), "1.1 KB");
    assert_eq!(human_size(1250), "1.2 KB");
    assert_eq!(human_size(999_950), "1000.0 KB");
    assert_eq!(human_size(1_000_000), "1.0 MB");
    assert_eq!(human_size(2_340_000_000), "2.3 GB");
    assert_eq!(human_size(i64::MAX), "9223372.0 TB");
}

#[test]
fn sizes_agree_with_floating_point() {
    let printed = |bytes: i64| {
        let mut value = bytes as f64;
        let mut unit = 0;
        while value >= 1000.0 && unit < 4 {
            value /= 1000.0;
            unit += 1;
        }
        let units = ["B", "KB", "MB", "GB", "TB"];
        if unit == 0 {
            format!("{value:.0} B")
        } else {
            format!("{value:.1} {}", units[unit])
        }
    };
    let mut bytes: i64 = 1;
    while bytes < i64::MAX / 7 {
        for offset in [-51, -50, -1, 0, 1, 49, 50, 51, 350, 450, 550] {
            let n = (bytes + offset).max(0);
            assert_eq!(human_size(n), printed(n), "{n}");
        }
        bytes = bytes * 3 / 2 + 1;
    }
}

#[test]
fn durations_are_short() {
    assert_eq!(human_duration_seconds(0), "0s");
    assert_eq!(human_duration_seconds(59), "59s");
    assert_eq!(human_duration_seconds(61), "1m 01s");
    assert_eq!(human_duration_seconds(-3), "-3s");
    assert_eq!(human_duration(59), "0 min");
    assert_eq!(human_duration(3599), "59 min");
    assert_eq!(human_duration(3660), "1h 01m");
}

#[test]
fn texts_are_cut_and_joined() {
    assert!(same("a", "a") && !same("a", "b") && !same("a", "ab"));
    assert_eq!(trimmed(" \t a b\u{a0}\n"), "a b");
    assert_eq!(trimmed_start("  a "), "a ");
    assert_eq!(drop_leading("//a/", '/'), "a/");
    assert!(begins("zitch", "zi") && ends("zitch", "ch") && contains("zitch", "itc"));
    assert!(has_char("a.b", '.') && !has_char("ab", '.'));
    assert_eq!(strip_prefix("v1.0", "v").as_deref(), Some("1.0"));
    assert_eq!(strip_prefix("1.0", "v"), None);
    assert_eq!(strip_suffix("a.so", ".so").as_deref(), Some("a"));
    assert_eq!(drop_prefixes("vv1", "v"), "1");
    assert_eq!(split_at_each("a,,b", ','), vec!["a", "", "b"]);
    assert_eq!(split_at_each("", ','), vec![""]);
    assert_eq!(split_lines("a\r\nb\n\nc"), vec!["a", "b", "", "c"]);
    assert_eq!(
        split_at_first("k=v=w", '='),
        Some(("k".to_string(), "v=w".to_string()))
    );
    assert_eq!(split_at_first("k", '='), None);
    assert_eq!(
        split_at_space("a  b"),
        Some(("a".to_string(), " b".to_string()))
    );
    let parts = vec!["a".to_string(), "b".to_string()];
    assert_eq!(join_all(&parts, "; "), "a; b");
    assert_eq!(join_all(&Vec::new(), "; "), "");
}

#[test]
fn letters_have_cases() {
    assert_eq!(to_lowercase("ÀB c"), "Àb c");
    assert_eq!(to_lowercase("GAME.P8"), "game.p8");
    assert_eq!(capitalize("übung"), "Übung");
    assert_eq!(capitalize("ßa"), "SSa");
    assert_eq!(capitalize(""), "");
}

#[test]
fn numbers_are_read_and_written() {
    assert_eq!(parse_number("042", 100), Some(42));
    assert_eq!(parse_number("+7", 100), Some(7));
    assert_eq!(parse_number("-7", 100), None);
    assert_eq!(parse_number("101", 100), None);
    assert_eq!(parse_number("", 100), None);
    assert_eq!(parse_number("99999999999999999999999", u64::MAX), None);
    assert_eq!(number_text(0), "0");
    assert_eq!(number_text(u64::MAX), "18446744073709551615");
    assert_eq!(signed_text(i64::MIN), "-9223372036854775808");
    assert_eq!(signed_text(12), "12");
}

#[test]
fn texts_sort_by_their_letters() {
    let words = ["", "A", "Z", "a", "aa", "b", "é", "日本"];
    for (i, a) in words.iter().enumerate() {
        for (j, b) in words.iter().enumerate() {
            assert_eq!(sorts_before(a, b), i < j, "{a} {b}");
        }
    }
}

#[test]
fn sorting_keeps_what_is_alike_in_place() {
    let keys = vec![Ascending(2), Ascending(1), Ascending(2), Ascending(0)];
    assert_eq!(sorted(&keys), vec![3, 1, 0, 2]);
    let times = vec![
        Newest(None),
        Newest(Some("2024-01-01".into())),
        Newest(Some("2025-01-01".into())),
        Newest(None),
    ];
    assert_eq!(sorted(&times), vec![2, 1, 0, 3]);
}

#[test]
fn paths_have_parts() {
    assert_eq!(file_name("/a/b.txt").as_deref(), Some("b.txt"));
    assert_eq!(file_name("/a/b/").as_deref(), Some("b"));
    assert_eq!(file_name("/"), None);
    assert_eq!(file_name("a/.."), None);
    assert_eq!(extension("a/b.tar.gz").as_deref(), Some("gz"));
    assert_eq!(extension("a/.hidden"), None);
    assert_eq!(extension("a.b/c"), None);
    assert_eq!(parent("/a/b").as_deref(), Some("/a"));
    assert_eq!(parent("a").as_deref(), Some(""));
    assert_eq!(parent("/"), None);
    assert_eq!(join_path("/a", "b"), "/a/b");
    assert_eq!(join_path("/a/", "b"), "/a/b");
    assert_eq!(join_path("/a", "/b"), "/b");
}

fn section(title: &str, games: &[i64]) -> Section {
    Section {
        title: title.into(),
        games: games.to_vec(),
        note: None,
        more: false,
        collection: None,
    }
}

#[test]
fn rows_remember_their_tile() {
    let mut rows = Rows::new();
    rows.set_sections(vec![section("a", &[1, 2, 3]), section("b", &[4, 5])]);
    rows.move_focus(Direction::Right);
    rows.move_focus(Direction::Right);
    rows.move_focus(Direction::Right);
    assert_eq!(rows.focused_game(), Some(3));
    rows.move_focus(Direction::Down);
    assert_eq!(rows.focused_game(), Some(4));
    rows.move_focus(Direction::Up);
    assert_eq!((rows.row, rows.col()), (0, 2));
    rows.move_focus(Direction::Home);
    assert_eq!(rows.focused_game(), Some(1));
    rows.move_focus(Direction::End);
    assert_eq!(rows.focused_game(), Some(3));
    // The focused game keeps the focus when the rows change around it.
    rows.set_sections(vec![section("b", &[4, 3]), section("c", &[9])]);
    assert_eq!(rows.focused_game(), Some(3));
    // One that is gone does not.
    rows.set_sections(vec![section("c", &[9])]);
    assert_eq!(rows.focused_game(), Some(9));
    rows.set_sections(Vec::new());
    assert_eq!(rows.focused_game(), None);
    assert!(rows.no_tiles());
    rows.move_focus(Direction::Down);
    rows.focus_tile(3, 3);
    assert_eq!(rows.row, 0);
}

#[test]
fn focusing_a_game_prefers_its_row() {
    let mut rows = Rows::new();
    rows.set_sections(vec![section("a", &[1, 2]), section("b", &[2, 1])]);
    rows.focus_tile(1, 0);
    rows.focus_game(1);
    assert_eq!((rows.row, rows.col()), (1, 1));
    rows.focus_game(77);
    assert_eq!((rows.row, rows.col()), (1, 1));
}

#[test]
fn moments_are_read() {
    assert_eq!(rfc3339_to_unix("1970-01-01T00:00:00Z"), Some(0));
    assert_eq!(rfc3339_to_unix("2000-02-29T12:00:00Z"), Some(951_825_600));
    assert_eq!(rfc3339_to_unix("2024-05-06T07:08:09.123456789Z"), Some(1_714_979_289));
    assert_eq!(rfc3339_to_unix("2024-05-06T09:08:09+02:00"), Some(1_714_979_289));
    assert_eq!(rfc3339_to_unix("2024-05-06T04:38:09-02:30"), Some(1_714_979_289));
    assert_eq!(rfc3339_to_unix("1969-12-31T23:59:59Z"), Some(-1));
    let long = format!("1970-01-01T00:00:00.{}Z", "0".repeat(2000));
    assert_eq!(rfc3339_to_unix(&long), Some(0));
    for bad in [
        "",
        "2024-05-06",
        "2024-05-06T07:08:09",
        "2023-02-29T00:00:00Z",
        "2024-13-01T00:00:00Z",
        "2024-05-06T24:00:00Z",
        "2024-05-06T07:08:09+2:00",
        "2024-05-06T07:08:09Zoo",
        "2024-05-06T07:08:09.Z",
        "2024-05-0aT07:08:09Z",
    ] {
        assert_eq!(rfc3339_to_unix(bad), None, "{bad}");
    }
}

#[test]
fn ages_are_told_in_words() {
    assert_eq!(human_time_ago(0, -5), "just now");
    assert_eq!(human_time_ago(0, 59), "just now");
    assert_eq!(human_time_ago(0, 60), "1 min ago");
    assert_eq!(human_time_ago(0, 7200), "2h ago");
    assert_eq!(human_time_ago(0, 90_000), "yesterday");
    assert_eq!(human_time_ago(0, 172_800), "2 days ago");
    assert_eq!(human_time_ago(i64::MIN, i64::MAX), "213503982334601 days ago");
}
