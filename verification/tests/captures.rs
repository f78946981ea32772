use pcre2::bytes::{PatternInfo, Regex, RegexBuilder};
use pcre2::name_table::decode_name_table;
use pcre2::ErrorKind;

/// One name-table entry of `size` bytes: the group number in two big-endian
/// bytes, the name, a NUL and padding.
fn entry(group: u16, name: &str, size: usize) -> Vec<u8> {
    let mut e = vec![(group >> 8) as u8, group as u8];
    e.extend_from_slice(name.as_bytes());
    e.resize(size, 0);
    e
}

/// The regex PCRE2 compiles from
/// `(?P<foo>abc)|(def)|(?P<a>ghi)|(?P<springsteen>jkl)`: four capturing
/// groups, three of them named, in a table sorted by name.
fn springsteen() -> Regex {
    let size = 2 + "springsteen".len() + 1;
    let mut table = entry(3, "a", size);
    table.extend(entry(1, "foo", size));
    table.extend(entry(4, "springsteen", size));
    let info = PatternInfo {
        capture_count: 4,
        name_count: 3,
        name_entry_size: size as u32,
        name_table: table,
    };
    RegexBuilder::new()
        .build(r"(?P<foo>abc)|(def)|(?P<a>ghi)|(?P<springsteen>jkl)", &info)
        .unwrap()
}

#[test]
fn capture_names() {
    let re = springsteen();
    assert_eq!(re.capture_names().to_vec(), vec![
        None,
        Some("foo".to_string()),
        None,
        Some("a".to_string()),
        Some("springsteen".to_string()),
    ]);
    assert_eq!(re.captures_len(), 5);
    assert_eq!(re.as_str(), r"(?P<foo>abc)|(def)|(?P<a>ghi)|(?P<springsteen>jkl)");

    // Names lead to their groups.
    let subject = b"jkl";
    let ovector = [0, 3, usize::MAX, usize::MAX, usize::MAX, usize::MAX, usize::MAX, usize::MAX, 0, 3];
    let caps = re.captures_result(subject, Ok(true), &ovector).unwrap().unwrap();
    assert_eq!(caps.name("springsteen").unwrap().as_pair(), (0, 3));
    assert!(caps.name("foo").is_none());
    assert!(caps.name("a").is_none());
    assert!(caps.name("nope").is_none());
}

#[test]
fn names_lead_to_their_groups() {
    let re = springsteen();
    let unset = usize::MAX;
    // "abc": the group named foo, group 1, took part.
    let ovector = [0, 3, 0, 3, unset, unset, unset, unset, unset, unset];
    let caps = re.captures_result(b"abc", Ok(true), &ovector).unwrap().unwrap();
    assert_eq!(caps.name("foo").unwrap().as_pair(), (0, 3));
    assert!(caps.name("a").is_none());
    assert!(caps.name("springsteen").is_none());
    // "xghi": the group named a, group 3, took part.
    let ovector = [1, 4, unset, unset, unset, unset, 1, 4, unset, unset];
    let caps = re.captures_result(b"xghi", Ok(true), &ovector).unwrap().unwrap();
    assert_eq!(caps.name("a").unwrap().as_pair(), (1, 4));
    assert_eq!(caps.name("a").unwrap().as_bytes(), b"ghi");
    assert!(caps.name("foo").is_none());
    assert_eq!(caps.len(), 5);
}

#[test]
fn captures_get() {
    // `[a-z]+(?:([0-9]+)|([A-Z]+))` on "abc123": group 1 matched "123",
    // group 2 did not take part.
    let info = PatternInfo { capture_count: 2, name_count: 0, name_entry_size: 0, name_table: vec![] };
    let re = Regex::clone(&RegexBuilder::new().build(r"[a-z]+(?:([0-9]+)|([A-Z]+))", &info).unwrap());
    let ovector = [0, 6, 3, 6, usize::MAX, usize::MAX];
    let caps = re.captures_result(b"abc123", Ok(true), &ovector).unwrap().unwrap();

    let text1 = caps.get(1).map_or(&b""[..], |m| m.as_bytes());
    let text2 = caps.get(2).map_or(&b""[..], |m| m.as_bytes());
    assert_eq!(text1, &b"123"[..]);
    assert_eq!(text2, &b""[..]);
    assert_eq!(caps.get(0).unwrap().as_bytes(), b"abc123");
    assert!(caps.get(3).is_none());
    assert_eq!(caps.len(), 3);
}

#[test]
fn duplicate_names_refer_to_the_last_group() {
    let size = 2 + 1 + 1;
    let mut table = entry(1, "x", size);
    table.extend(entry(2, "x", size));
    let info = PatternInfo { capture_count: 2, name_count: 2, name_entry_size: size as u32, name_table: table };
    let re = RegexBuilder::new().build("(?J)(?<x>a)|(?<x>b)", &info).unwrap();
    let ovector = [0, 1, 0, 1, 0, 1];
    let caps = re.captures_result(b"a", Ok(true), &ovector).unwrap().unwrap();
    assert_eq!(caps.name("x").unwrap().as_pair(), (0, 1));
    let ovector = [0, 1, 0, 1, usize::MAX, usize::MAX];
    let caps = re.captures_result(b"a", Ok(true), &ovector).unwrap().unwrap();
    assert!(caps.name("x").is_none());
}

#[test]
fn malformed_name_tables_are_rejected() {
    let bad = |count: u32, n: u32, size: u32, table: Vec<u8>| {
        let e = decode_name_table(count, n, size, &table).unwrap_err();
        assert_eq!(*e.kind(), ErrorKind::Info);
        assert_eq!(e.code(), -44);
    };
    // No NUL in the entry.
    bad(1, 1, 4, vec![0, 1, b'a', b'b']);
    // Group 0 is the whole match and cannot be named.
    bad(1, 1, 4, entry(0, "a", 4));
    // Group beyond the capture count.
    bad(1, 1, 4, entry(2, "a", 4));
    // Table shorter than its entries.
    bad(1, 2, 4, entry(1, "a", 4));
    // Entries too small to hold a group number and a NUL.
    bad(1, 1, 2, vec![0, 1]);
    // Name that is not UTF-8.
    bad(1, 1, 4, vec![0, 1, 0xFF, 0]);
    // Well-formed: a non-ASCII name.
    let ok = decode_name_table(1, 1, 5, &entry(1, "β", 5)).unwrap();
    assert_eq!(ok, vec![None, Some("β".to_string())]);
    // No names at all.
    assert_eq!(decode_name_table(2, 0, 0, &[]).unwrap(), vec![None, None, None]);
}

#[test]
fn capture_locations_record_a_search() {
    let info = PatternInfo { capture_count: 1, name_count: 0, name_entry_size: 0, name_table: vec![] };
    let re = RegexBuilder::new().build("a(b)?", &info).unwrap();
    let mut locs = re.capture_locations();
    assert_eq!(locs.len(), 2);
    assert_eq!(locs.get(0), None);
    assert_eq!(locs.get(1), None);

    let m = re.read_captures(&mut locs, b"xab", Ok(true), &[1, 3, 2, 3]).unwrap().unwrap();
    assert_eq!(m.as_pair(), (1, 3));
    assert_eq!(m.as_bytes(), b"ab");
    assert_eq!(locs.get(0), Some((1, 3)));
    assert_eq!(locs.get(1), Some((2, 3)));
    assert_eq!(locs.get(2), None);
    assert_eq!(locs.get(usize::MAX), None);

    // A failed search leaves the locations as they were.
    assert!(re.read_captures(&mut locs, b"xyz", Ok(false), &[]).unwrap().is_none());
    assert_eq!(locs.get(1), Some((2, 3)));

    assert_eq!(locs.offsets(), vec![Some(1), Some(3), Some(2), Some(3)]);

    // A clone is a fresh, empty set of locations.
    let fresh = locs.clone();
    assert_eq!(fresh.len(), 2);
    assert_eq!(fresh.get(0), None);
    assert_eq!(fresh.offsets(), vec![None, None, None, None]);
}

#[test]
fn no_match_and_errors_pass_through() {
    let info = PatternInfo { capture_count: 0, name_count: 0, name_entry_size: 0, name_table: vec![] };
    let re = RegexBuilder::new().build("z", &info).unwrap();
    assert!(re.captures_result(b"abc", Ok(false), &[]).unwrap().is_none());
    let err = pcre2::Error::matching(-22);
    assert!(matches!(re.captures_result(b"abc", Err(err), &[]), Err(e) if e == err));
    assert_eq!(pcre2::bytes::search_result(b"abc", Err(err), &[]).unwrap_err(), err);
    assert!(pcre2::bytes::search_result(b"abc", Ok(false), &[]).unwrap().is_none());
    let m = pcre2::bytes::search_result(b"abc", Ok(true), &[2, 3]).unwrap().unwrap();
    assert_eq!((m.start(), m.end(), m.as_bytes()), (2, 3, &b"c"[..]));
}
