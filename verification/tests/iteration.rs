use pcre2::bytes::{Advance, PatternInfo, Regex, RegexBuilder};

/// A regex with no capturing groups besides the whole match.
fn plain_regex(pattern: &str) -> Regex {
    let info = PatternInfo {
        capture_count: 0,
        name_count: 0,
        name_entry_size: 0,
        name_table: vec![],
    };
    RegexBuilder::new().build(pattern, &info).unwrap()
}

/// Where PCRE2 finds `(?m:^)` searching `subject` from `start`: at the start
/// of the subject or right after a newline that does not end the subject.
fn line_start(subject: &[u8], start: usize) -> Option<usize> {
    (start..=subject.len()).find(|&q| q == 0 || (subject[q - 1] == b'\n' && q < subject.len()))
}

fn find_iter_tuples(re: &Regex, subject: &[u8]) -> Vec<(usize, usize)> {
    let mut tuples = vec![];
    let mut it = re.find_iter(subject);
    while let Some(start) = it.next_start() {
        let (outcome, ovector) = match line_start(subject, start) {
            Some(q) => (Ok(true), vec![q, q]),
            None => (Ok(false), vec![usize::MAX, usize::MAX]),
        };
        match it.advance(outcome, &ovector) {
            Advance::Yield(result) => {
                let m = result.unwrap();
                tuples.push((m.start(), m.end()));
            }
            Advance::Retry => continue,
            Advance::Done => break,
        }
    }
    tuples
}

fn cap_iter_tuples(re: &Regex, subject: &[u8]) -> Vec<(usize, usize)> {
    let mut tuples = vec![];
    let mut it = re.captures_iter(subject);
    while let Some(start) = it.next_start() {
        let (outcome, ovector) = match line_start(subject, start) {
            Some(q) => (Ok(true), vec![q, q]),
            None => (Ok(false), vec![usize::MAX, usize::MAX]),
        };
        match it.advance(outcome, &ovector) {
            Advance::Yield(result) => {
                let caps = result.unwrap();
                let m = caps.get(0).unwrap();
                tuples.push((m.start(), m.end()));
            }
            Advance::Retry => continue,
            Advance::Done => break,
        }
    }
    tuples
}

#[test]
fn find_iter_empty() {
    let re = plain_regex(r"(?m:^)");
    assert_eq!(find_iter_tuples(&re, b""), vec![(0, 0)]);
    assert_eq!(find_iter_tuples(&re, b"\n"), vec![(0, 0)]);
    assert_eq!(find_iter_tuples(&re, b"\n\n"), vec![(0, 0), (1, 1)]);
    assert_eq!(find_iter_tuples(&re, b"\na\n"), vec![(0, 0), (1, 1)]);
    assert_eq!(find_iter_tuples(&re, b"\na\n\n"), vec![
        (0, 0), (1, 1), (3, 3),
    ]);
}

#[test]
fn captures_iter_empty() {
    let re = plain_regex(r"(?m:^)");
    assert_eq!(cap_iter_tuples(&re, b""), vec![(0, 0)]);
    assert_eq!(cap_iter_tuples(&re, b"\n"), vec![(0, 0)]);
    assert_eq!(cap_iter_tuples(&re, b"\n\n"), vec![(0, 0), (1, 1)]);
    assert_eq!(cap_iter_tuples(&re, b"\na\n"), vec![(0, 0), (1, 1)]);
    assert_eq!(cap_iter_tuples(&re, b"\na\n\n"), vec![
        (0, 0), (1, 1), (3, 3),
    ]);
}

#[test]
fn empty_match_after_match_is_skipped_once() {
    // `a*` on "aab": PCRE2 finds (0, 2), then the empty match at 2 right
    // after it, which is skipped, then the empty match at 3.
    let re = plain_regex("a*");
    let subject = b"aab";
    let mut it = re.find_iter(subject);
    let mut seen = vec![];
    let mut retries = 0;
    while let Some(start) = it.next_start() {
        let (s, e) = match start {
            0 => (0, 2),
            2 => (2, 2),
            3 => (3, 3),
            _ => panic!("unexpected search offset {}", start),
        };
        match it.advance(Ok(true), &[s, e]) {
            Advance::Yield(r) => {
                let m = r.unwrap();
                seen.push(m.as_pair());
            }
            Advance::Retry => retries += 1,
            Advance::Done => break,
        }
    }
    assert_eq!(seen, vec![(0, 2), (3, 3)]);
    assert_eq!(retries, 1);
    assert_eq!(it.next_start(), None);
}

#[test]
fn search_error_is_yielded_and_state_kept() {
    let re = plain_regex("x");
    let subject = b"xyz";
    let mut it = re.find_iter(subject);
    let err = pcre2::Error::matching(-3);
    match it.advance(Err(err), &[]) {
        Advance::Yield(Err(e)) => assert_eq!(e, err),
        _ => panic!("expected the error to be yielded"),
    }
    assert_eq!(it.next_start(), Some(0));
    match it.advance(Ok(false), &[]) {
        Advance::Done => {}
        _ => panic!("expected the iteration to end"),
    }
    assert_eq!(it.next_start(), Some(0));
}

#[test]
fn non_empty_matches_continue_at_their_end() {
    let re = plain_regex("b+");
    let subject = b"abbcbd";
    let mut it = re.find_iter(subject);
    assert_eq!(it.next_start(), Some(0));
    match it.advance(Ok(true), &[1, 3]) {
        Advance::Yield(Ok(m)) => {
            assert_eq!(m.as_pair(), (1, 3));
            assert_eq!(m.as_bytes(), b"bb");
        }
        _ => panic!("expected a match"),
    }
    assert_eq!(it.next_start(), Some(3));
    match it.advance(Ok(true), &[4, 5]) {
        Advance::Yield(Ok(m)) => assert_eq!(m.as_bytes(), b"b"),
        _ => panic!("expected a match"),
    }
    assert_eq!(it.next_start(), Some(5));
    assert!(matches!(it.advance(Ok(false), &[]), Advance::Done));
}
