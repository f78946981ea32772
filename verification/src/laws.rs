//! Properties of the library that span several functions or every state of
//! its iterators, stated over the specifications the functions' contracts
//! use, and proved.
use vstd::prelude::*;

use vstd::utf8::{decode_utf8, valid_utf8};

use crate::name_table::{decode_names, first_nul, group_named, names_from_entries, names_view};

use crate::bytes::{
    Regex, Match, default_config, is_match_of, offsets_view,
    all_unset, caseless_bit, compile_options_of, dotall_bit, extended_bit, found_match,
    found_span_ok, group_match, group_span, last_match_after, match_options_of, multiline_bit,
    no_utf_check_bit, offset_after, reported, ucp_bit, utf_bit, Config,
};

verus! {

/// Each compile mode of a configuration shows in exactly one bit of the
/// options handed to `pcre2_compile`, Unicode mode brings UTF mode with it
/// (UTF mode is on exactly when `utf` or `ucp` is set), and no other bit is
/// ever set.
pub proof fn lemma_compile_options_bits(c: Config)
    ensures
        (compile_options_of(c) & caseless_bit() != 0) == c.caseless,
        (compile_options_of(c) & dotall_bit() != 0) == c.dotall,
        (compile_options_of(c) & extended_bit() != 0) == c.extended,
        (compile_options_of(c) & multiline_bit() != 0) == c.multiline,
        (compile_options_of(c) & ucp_bit() != 0) == c.ucp,
        (compile_options_of(c) & utf_bit() != 0) == (c.utf || c.ucp),
        compile_options_of(c) & !(caseless_bit() | dotall_bit() | extended_bit() | multiline_bit()
            | ucp_bit() | utf_bit()) == 0,
{
    let (a, b, x, m, u, t) = (c.caseless, c.dotall, c.extended, c.multiline, c.ucp, c.utf);
    let o = compile_options_of(c);
    assert(o == (if a { 8u32 } else { 0u32 }) | (if b { 32u32 } else { 0u32 }) | (if x {
        128u32
    } else {
        0u32
    }) | (if m { 1024u32 } else { 0u32 }) | (if u { 131072u32 | 524288u32 } else { 0u32 }) | (if t {
        524288u32
    } else {
        0u32
    }));
    assert({
        let o2 = (if a { 8u32 } else { 0u32 }) | (if b { 32u32 } else { 0u32 }) | (if x {
            128u32
        } else {
            0u32
        }) | (if m { 1024u32 } else { 0u32 }) | (if u { 131072u32 | 524288u32 } else { 0u32 }) | (
        if t {
            524288u32
        } else {
            0u32
        });
        &&& (o2 & 8u32 != 0) == a
        &&& (o2 & 32u32 != 0) == b
        &&& (o2 & 128u32 != 0) == x
        &&& (o2 & 1024u32 != 0) == m
        &&& (o2 & 131072u32 != 0) == u
        &&& (o2 & 524288u32 != 0) == (t || u)
        &&& o2 & !(8u32 | 32u32 | 128u32 | 1024u32 | 131072u32 | 524288u32) == 0
    }) by (bit_vector);
}

/// A search is told to skip PCRE2's UTF check exactly when the
/// configuration disables that check, and is given no other option.
pub proof fn lemma_match_options_bits(c: Config)
    ensures
        (match_options_of(c) & no_utf_check_bit() != 0) == !c.utf_check,
        match_options_of(c) & !no_utf_check_bit() == 0,
{
    let k = c.utf_check;
    assert({
        let o = if !k { 1073741824u32 } else { 0u32 };
        &&& (o & 1073741824u32 != 0) == !k
        &&& o & !1073741824u32 == 0
    }) by (bit_vector);
}


/// Each search of a match iterator starts strictly after the one before,
/// as long as the match PCRE2 found starts at or after the offset the
/// search began at: the iterator always makes progress, so a subject of `n`
/// bytes is searched at most `n + 2` times.
pub proof fn lemma_search_offset_advances(last_end: int, s: int, e: int)
    requires
        last_end <= s <= e,
    ensures
        offset_after(s, e) > last_end,
        offset_after(s, e) >= e,
{
}

/// Reported matches do not overlap and come in order: once a match from
/// `s1` to `e1` has been reported, any match that the next search finds (at
/// or after the new offset) starts at or after `e1`, and it is not reported
/// if it is an empty match right at `e1`.
pub proof fn lemma_reported_matches_do_not_overlap(
    last_match: Option<usize>,
    s1: usize,
    e1: usize,
    s2: usize,
    e2: usize,
)
    requires
        s1 <= e1,
        reported(last_match, s1, e1),
        offset_after(s1 as int, e1 as int) <= s2 <= e2,
    ensures
        e1 <= s2,
        s2 == e2 && e2 == e1 ==> !reported(Some(e1), s2, e2),
{
}

/// A match is skipped at most once in a row: after an empty match at `e`
/// was skipped, the next search starts at `e + 1` and whatever it finds
/// there is reported.
pub proof fn lemma_skip_then_report(e: usize, s: usize, t: usize)
    requires
        offset_after(e as int, e as int) <= s <= t,
    ensures
        reported(Some(e), s, t),
{
}

/// An iterator never reports an empty match right at the end of the match it
/// reported last.
pub proof fn lemma_no_empty_match_after_match(e: usize)
    ensures
        !reported(Some(e), e, e),
{
}

/// Capture group `0` of a match always corresponds to the entire match.
pub proof fn lemma_group_zero_is_whole_match(subject: Seq<u8>, ov: Seq<usize>)
    requires
        found_span_ok(ov, subject.len() as int),
        subject.len() < usize::MAX,
    ensures
        group_match(subject, ov, 0) == Some(found_match(subject, ov)),
{
}

/// A fresh set of capture locations holds no capture group.
pub proof fn lemma_fresh_locations_hold_no_group(ov: Seq<usize>, i: int)
    requires
        all_unset(ov),
    ensures
        group_span(ov, i) is None,
{
}


/// Whether `search` answers every search of a subject of `n` bytes the way
/// PCRE2 does: a match it finds from offset `p` lies within the subject and
/// starts at or after `p`.
pub open spec fn search_ok(search: spec_fn(int) -> Option<(usize, usize)>, n: int) -> bool {
    forall|p: int|
        0 <= p <= n ==> (#[trigger] search(p) matches Some(m) ==> p <= m.0 <= m.1 <= n)
}

/// The matches that a match iterator over a subject of `n` bytes reports,
/// from the cursor `last_end`/`last_match`, when every search succeeds and
/// the search from each offset finds `search(offset)`, in at most `fuel`
/// searches. Each step is the one that `Matches::advance` and
/// `CaptureMatches::advance` take: the new cursor is `offset_after` and
/// `last_match_after`, and the match is yielded exactly when `reported`.
pub open spec fn reported_matches(
    search: spec_fn(int) -> Option<(usize, usize)>,
    n: int,
    last_end: int,
    last_match: Option<usize>,
    fuel: nat,
) -> Seq<(usize, usize)>
    decreases fuel,
{
    if fuel == 0 || last_end > n {
        seq![]
    } else {
        match search(last_end) {
            None => seq![],
            Some(m) => {
                let rest = reported_matches(
                    search,
                    n,
                    offset_after(m.0 as int, m.1 as int),
                    last_match_after(last_match, m.0, m.1),
                    (fuel - 1) as nat,
                );
                if reported(last_match, m.0, m.1) {
                    seq![m] + rest
                } else {
                    rest
                }
            },
        }
    }
}

/// Whether the matches `ms` start at or after `lo`, lie within a subject of
/// `n` bytes, and come in order without overlapping.
pub open spec fn in_order_from(ms: Seq<(usize, usize)>, lo: int, n: int) -> bool {
    &&& forall|i: int| 0 <= i < ms.len() ==> lo <= (#[trigger] ms[i]).0 <= ms[i].1 <= n
    &&& forall|i: int, j: int| 0 <= i < j < ms.len() ==> (#[trigger] ms[i]).1 <= (#[trigger] ms[j]).0
}

proof fn lemma_in_order_from(
    search: spec_fn(int) -> Option<(usize, usize)>,
    n: int,
    last_end: int,
    last_match: Option<usize>,
    fuel: nat,
)
    requires
        search_ok(search, n),
        0 <= last_end,
    ensures
        in_order_from(reported_matches(search, n, last_end, last_match, fuel), last_end, n),
    decreases fuel,
{
    if fuel > 0 && last_end <= n {
        if let Some(m) = search(last_end) {
            assert(last_end <= m.0 <= m.1 <= n);
            let next = offset_after(m.0 as int, m.1 as int);
            lemma_in_order_from(search, n, next, last_match_after(last_match, m.0, m.1), (fuel - 1) as nat);
            let rest = reported_matches(search, n, next, last_match_after(last_match, m.0, m.1), (fuel - 1) as nat);
            if reported(last_match, m.0, m.1) {
                let ms = seq![m] + rest;
                assert forall|i: int, j: int| 0 <= i < j < ms.len() implies (#[trigger] ms[i]).1 <= (
                #[trigger] ms[j]).0 by {
                    if i > 0 {
                        assert(ms[i] == rest[i - 1]);
                        assert(ms[j] == rest[j - 1]);
                    } else {
                        assert(ms[j] == rest[j - 1]);
                    }
                }
                assert forall|i: int| 0 <= i < ms.len() implies last_end <= (#[trigger] ms[i]).0
                    <= ms[i].1 <= n by {
                    if i > 0 {
                        assert(ms[i] == rest[i - 1]);
                    }
                }
            }
        }
    }
}

proof fn lemma_no_empty_at(
    search: spec_fn(int) -> Option<(usize, usize)>,
    n: int,
    x: usize,
    last_end: int,
    fuel: nat,
)
    requires
        search_ok(search, n),
        last_end == x || last_end == x + 1,
    ensures
        forall|i: int|
            0 <= i < reported_matches(search, n, last_end, Some(x), fuel).len() ==> #[trigger] reported_matches(
                search,
                n,
                last_end,
                Some(x),
                fuel,
            )[i] != (x, x),
    decreases fuel,
{
    if fuel > 0 && last_end <= n {
        if let Some(m) = search(last_end) {
            let next = offset_after(m.0 as int, m.1 as int);
            let lm = last_match_after(Some(x), m.0, m.1);
            lemma_in_order_from(search, n, next, lm, (fuel - 1) as nat);
        }
    }
}

/// Whether no match of `ms` is an empty match right at the end of the match
/// before it.
pub open spec fn no_empty_after_match(ms: Seq<(usize, usize)>) -> bool {
    forall|i: int, j: int|
        0 <= i < ms.len() && j == i + 1 && j < ms.len() ==> (#[trigger] ms[j]) != (
        (#[trigger] ms[i]).1,
        ms[i].1,
    )
}

/// Whether each pair of successive matches of `ms` is separated by at least
/// one byte when either of them is empty.
pub open spec fn empty_matches_apart(ms: Seq<(usize, usize)>) -> bool {
    forall|i: int, j: int|
        0 <= i < ms.len() && j == i + 1 && j < ms.len() && ((#[trigger] ms[i]).0 == ms[i].1 || (
        #[trigger] ms[j]).0 == ms[j].1) ==> ms[i].1 < ms[j].0
}

/// The run of a match iterator, when PCRE2 answers its searches: it is over
/// within `n + 2` searches (more searches change nothing), the matches it
/// reports start at or after the first search offset, lie within the
/// subject and come in order without overlapping, and no reported match is
/// an empty match right at the end of the match reported before it, so two
/// successive matches are at least a byte apart when either is empty. From
/// a cursor at most one past the end, it reports at most `n + 1 - last_end`
/// matches.
pub proof fn lemma_iteration(
    search: spec_fn(int) -> Option<(usize, usize)>,
    n: int,
    last_end: int,
    last_match: Option<usize>,
    fuel: nat,
)
    requires
        search_ok(search, n),
        0 <= last_end,
        fuel >= n + 2 - last_end,
    ensures
        reported_matches(search, n, last_end, last_match, fuel) == reported_matches(
            search,
            n,
            last_end,
            last_match,
            fuel + 1,
        ),
        in_order_from(reported_matches(search, n, last_end, last_match, fuel), last_end, n),
        no_empty_after_match(reported_matches(search, n, last_end, last_match, fuel)),
        empty_matches_apart(reported_matches(search, n, last_end, last_match, fuel)),
        last_end <= n + 1 ==> reported_matches(search, n, last_end, last_match, fuel).len() <= n
            + 1 - last_end,
    decreases fuel,
{
    lemma_in_order_from(search, n, last_end, last_match, fuel);
    if fuel > 0 && last_end <= n {
        if let Some(m) = search(last_end) {
            assert(last_end <= m.0 <= m.1 <= n);
            let next = offset_after(m.0 as int, m.1 as int);
            let lm = last_match_after(last_match, m.0, m.1);
            lemma_iteration(search, n, next, lm, (fuel - 1) as nat);
            let rest = reported_matches(search, n, next, lm, (fuel - 1) as nat);
            if reported(last_match, m.0, m.1) {
                lemma_no_empty_at(search, n, m.1, next, (fuel - 1) as nat);
                let ms = seq![m] + rest;
                assert forall|i: int, j: int|
                    0 <= i < ms.len() && j == i + 1 && j < ms.len() implies (#[trigger] ms[j]) != (
                    (#[trigger] ms[i]).1,
                    ms[i].1,
                ) by {
                    assert(ms[j] == rest[i]);
                    if i > 0 {
                        assert(ms[i] == rest[i - 1]);
                    }
                }
                assert forall|i: int, j: int|
                    0 <= i < ms.len() && j == i + 1 && j < ms.len() && ((#[trigger] ms[i]).0
                        == ms[i].1 || (#[trigger] ms[j]).0 == ms[j].1) implies ms[i].1 < ms[j].0 by {
                    assert(ms[j] == rest[i]);
                    if i > 0 {
                        assert(ms[i] == rest[i - 1]);
                        assert(ms[i].1 <= ms[j].0);
                        assert(ms[j] != (ms[i].1, ms[i].1));
                    } else {
                        assert(ms[j].0 >= next);
                        assert(ms[j] != (m.1, m.1));
                    }
                }
            }
        }
    }
}


/// `capture_names` has one entry per capture group: as many as
/// `captures_len` reports.
pub proof fn lemma_capture_names_match_captures_len(
    re: Regex,
    names: Seq<Option<String>>,
    count: usize,
)
    requires
        names_view(names) == re.names(),
        count == re.names().len(),
    ensures
        names.len() == count,
{
}


/// A match iterator skips a found match only when it is empty and lies right
/// at the end of the match it reported last; every other match is reported.
/// After a match is reported, it is the last reported match, and the next
/// search starts at its end, or one past an empty match.
pub proof fn lemma_which_matches_are_reported(last_match: Option<usize>, s: usize, e: usize)
    requires
        s <= e,
    ensures
        s < e ==> reported(last_match, s, e),
        s == e ==> (reported(last_match, s, e) <==> last_match != Some(e)),
        reported(last_match, s, e) ==> last_match_after(last_match, s, e) == Some(e),
        !reported(last_match, s, e) ==> last_match_after(last_match, s, e) == last_match,
        s < e ==> offset_after(s as int, e as int) == e,
        s == e ==> offset_after(s as int, e as int) == e + 1,
{
}

/// The span of a capture group is read from its two offsets: group `i` has
/// a span exactly when both offsets `2 * i` and `2 * i + 1` exist and
/// neither is `PCRE2_UNSET`, and the span is then those two offsets, also
/// when they are equal (a group that matched the empty string).
pub proof fn lemma_group_span_reads_offsets(ov: Seq<usize>, i: int)
    ensures
        (0 <= i && 2 * i + 1 < ov.len() && ov[2 * i] != usize::MAX && ov[2 * i + 1]
            != usize::MAX) ==> group_span(ov, i) == Some((ov[2 * i], ov[2 * i + 1])),
        !(0 <= i && 2 * i + 1 < ov.len() && ov[2 * i] != usize::MAX && ov[2 * i + 1]
            != usize::MAX) ==> group_span(ov, i) is None,
{
}

/// A capture group whose two offsets are set and span part of the subject
/// is a match of the subject over that span, empty or not; a group whose
/// offsets are missing or unset has no match.
pub proof fn lemma_group_match_of_span(subject: Seq<u8>, ov: Seq<usize>, i: int)
    ensures
        (0 <= i && 2 * i + 1 < ov.len() && ov[2 * i] != usize::MAX && ov[2 * i + 1]
            != usize::MAX && ov[2 * i] <= ov[2 * i + 1] <= subject.len()) ==> group_match(
            subject,
            ov,
            i,
        ) == Some((subject, ov[2 * i] as int, ov[2 * i + 1] as int)),
        !(0 <= i && 2 * i + 1 < ov.len() && ov[2 * i] != usize::MAX && ov[2 * i + 1]
            != usize::MAX) ==> group_match(subject, ov, i) is None,
{
}

/// A name refers to the last group that bears it: whenever some group bears
/// `name`, the lookup finds a group that bears it and no later group bears
/// it; when no group bears it, the lookup finds nothing.
pub proof fn lemma_group_named_is_last_bearer(names: Seq<Option<Seq<char>>>, name: Seq<char>)
    ensures
        (exists|i: int| 0 <= i < names.len() && names[i] == Some(name)) ==> (group_named(
            names,
            name,
        ) matches Some(j) && 0 <= j < names.len() && names[j] == Some(name) && forall|k: int|
            j < k < names.len() ==> names[k] != Some(name)),
        !(exists|i: int| 0 <= i < names.len() && names[i] == Some(name)) ==> group_named(
            names,
            name,
        ) is None,
    decreases names.len(),
{
    if names.len() > 0 && names.last() != Some(name) {
        let rest = names.drop_last();
        lemma_group_named_is_last_bearer(rest, name);
        if exists|i: int| 0 <= i < names.len() && names[i] == Some(name) {
            let i = choose|i: int| 0 <= i < names.len() && names[i] == Some(name);
            assert(rest[i] == Some(name));
            let j = group_named(rest, name).unwrap();
            assert forall|k: int| j < k < names.len() implies names[k] != Some(name) by {
                if k < rest.len() {
                    assert(rest[k] == names[k]);
                }
            }
        }
        if exists|i: int| 0 <= i < rest.len() && rest[i] == Some(name) {
            let i = choose|i: int| 0 <= i < rest.len() && rest[i] == Some(name);
            assert(names[i] == Some(name));
        }
    }
}

/// The group number in the two big-endian bytes that start entry `j` of a
/// name table of `size`-byte entries.
pub open spec fn entry_group(table: Seq<u8>, size: int, j: int) -> int {
    table[j * size] * 256 + table[j * size + 1]
}

/// Whether `bytes` is the name in entry `j` of a name table of `size`-byte
/// entries: the bytes after the group number up to the entry's first NUL.
pub open spec fn is_entry_name(table: Seq<u8>, size: int, j: int, bytes: Seq<u8>) -> bool {
    exists|p: int|
        j * size + 2 <= p < j * size + size && table[p] == 0 && (forall|q: int|
            j * size + 2 <= q < p ==> table[q] != 0) && bytes == table.subrange(j * size + 2, p)
}

/// What the first `k` entries of a name table, applied to `group_count`
/// groups, give for the names `ns`: each entry is well formed (a NUL ends
/// its name, its group lies in `1..group_count`, its name is UTF-8), each
/// entry's group is named, by the name of the last entry for that group,
/// and every other group is unnamed.
pub open spec fn names_as_entries_say(
    table: Seq<u8>,
    size: int,
    group_count: int,
    k: int,
    ns: Seq<Option<Seq<char>>>,
) -> bool {
    &&& ns.len() == group_count
    &&& forall|j: int|
        0 <= j < k ==> 1 <= #[trigger] entry_group(table, size, j) < group_count && ns[entry_group(
            table,
            size,
            j,
        )] is Some
    &&& forall|j: int|
        0 <= j < k && (forall|j2: int| j < j2 < k ==> entry_group(table, size, j2) != entry_group(
            table,
            size,
            j,
        )) ==> exists|bytes: Seq<u8>|
            is_entry_name(table, size, j, bytes) && #[trigger] ns[entry_group(table, size, j)]
                == Some(decode_utf8(bytes))
    &&& forall|g: int|
        0 <= g < group_count && (forall|j: int| 0 <= j < k ==> entry_group(table, size, j) != g)
            ==> #[trigger] ns[g] is None
}

proof fn lemma_first_nul_is_first(table: Seq<u8>, from: int, to: int)
    ensures
        first_nul(table, from, to) matches Some(p) ==> from <= p < to && table[p] == 0 && forall|
            q: int,
        |
            from <= q < p ==> table[q] != 0,
    decreases to - from,
{
    if from < to && table[from] != 0 {
        lemma_first_nul_is_first(table, from + 1, to);
    }
}

proof fn lemma_entries_say(table: Seq<u8>, size: int, group_count: int, k: int)
    requires
        0 <= k,
        group_count >= 1,
        names_from_entries(table, size, group_count, k) is Some,
    ensures
        names_as_entries_say(
            table,
            size,
            group_count,
            k,
            names_from_entries(table, size, group_count, k).unwrap(),
        ),
    decreases k,
{
    crate::name_table::lemma_names_shape(table, size, group_count, k);
    if k > 0 {
        let prev = names_from_entries(table, size, group_count, k - 1).unwrap();
        lemma_entries_say(table, size, group_count, k - 1);
        let ns = names_from_entries(table, size, group_count, k).unwrap();
        let base = (k - 1) * size;
        let g = entry_group(table, size, k - 1);
        assert(g == crate::name_table::group_at(table, base));
        let bytes = crate::name_table::name_at(table, base, size).unwrap();
        lemma_first_nul_is_first(table, base + 2, base + size);
        assert(ns == prev.update(g, Some(decode_utf8(bytes))));
        assert(is_entry_name(table, size, k - 1, bytes));
        assert forall|j: int|
            0 <= j < k implies 1 <= #[trigger] entry_group(table, size, j) < group_count
            && ns[entry_group(table, size, j)] is Some by {
            if j < k - 1 {
                assert(1 <= entry_group(table, size, j) < group_count);
                assert(prev[entry_group(table, size, j)] is Some);
            }
        }
        assert forall|j: int|
            0 <= j < k && (forall|j2: int| j < j2 < k ==> entry_group(table, size, j2)
                != entry_group(table, size, j)) implies exists|b: Seq<u8>|
            is_entry_name(table, size, j, b) && #[trigger] ns[entry_group(table, size, j)] == Some(
                decode_utf8(b),
            ) by {
            if j == k - 1 {
                assert(is_entry_name(table, size, j, bytes));
            } else {
                assert(entry_group(table, size, k - 1) != entry_group(table, size, j));
                assert(forall|j2: int|
                    j < j2 < k - 1 ==> entry_group(table, size, j2) != entry_group(table, size, j));
                let b = choose|b: Seq<u8>|
                    is_entry_name(table, size, j, b) && #[trigger] prev[entry_group(table, size, j)]
                        == Some(decode_utf8(b));
                assert(is_entry_name(table, size, j, b));
            }
        }
        assert forall|gg: int|
            0 <= gg < group_count && (forall|j: int| 0 <= j < k ==> entry_group(table, size, j) != gg)
                implies #[trigger] ns[gg] is None by {
            assert(entry_group(table, size, k - 1) != gg);
            assert(forall|j: int| 0 <= j < k - 1 ==> entry_group(table, size, j) != gg);
        }
    } else {
        assert forall|gg: int|
            0 <= gg < group_count && (forall|j: int| 0 <= j < k ==> entry_group(table, size, j) != gg)
                implies #[trigger] names_from_entries(table, size, group_count, k).unwrap()[gg] is None by {
        }
    }
}

/// The names decoded from a name table are what its entries say: every one
/// of the `name_count` entries is well formed and names its group, the last
/// entry for a group gives that group its name, every group no entry names
/// is unnamed, and there is one name per group, group 0 (the whole match)
/// included and unnamed.
pub proof fn lemma_decoded_names_follow_entries(
    capture_count: int,
    name_count: int,
    size: int,
    table: Seq<u8>,
)
    requires
        0 <= capture_count,
        0 <= name_count,
        decode_names(capture_count, name_count, size, table) is Some,
    ensures
        names_as_entries_say(
            table,
            size,
            capture_count + 1,
            name_count,
            decode_names(capture_count, name_count, size, table).unwrap(),
        ),
        decode_names(capture_count, name_count, size, table).unwrap()[0] is None,
{
    lemma_entries_say(table, size, capture_count + 1, name_count);
    crate::name_table::lemma_names_shape(table, size, capture_count + 1, name_count);
}


/// A match stands for a triple exactly when it searched that subject and
/// spans from the triple's start to its end.
pub proof fn lemma_is_match_of_means_same_span(m: Match, t: (Seq<u8>, int, int))
    ensures
        is_match_of(m, t) <==> (m.subject_view() == t.0 && m.spec_start() == t.1 && m.spec_end()
            == t.2),
{
}

/// The names held by a vector of optional strings: one per entry, `None`
/// for an unnamed entry, and otherwise the characters of the string.
pub proof fn lemma_names_view_keeps_each_name(v: Seq<Option<String>>, i: int)
    requires
        0 <= i < v.len(),
    ensures
        names_view(v).len() == v.len(),
        v[i] is None ==> names_view(v)[i] is None,
        v[i] matches Some(s) ==> names_view(v)[i] == Some(s@),
{
}

/// The listed offsets keep every offset, with `None` exactly for the unset
/// ones.
pub proof fn lemma_offsets_view_marks_unset(ov: Seq<usize>, k: int)
    requires
        0 <= k < ov.len(),
    ensures
        offsets_view(ov).len() == ov.len(),
        ov[k] == usize::MAX ==> offsets_view(ov)[k] is None,
        ov[k] != usize::MAX ==> offsets_view(ov)[k] == Some(ov[k]),
{
}

/// A new builder has every mode off and UTF checking on.
pub proof fn lemma_default_settings()
    ensures
        !default_config().caseless && !default_config().dotall && !default_config().extended
            && !default_config().multiline && !default_config().ucp && !default_config().utf
            && !default_config().jit,
        default_config().utf_check,
{
}


/// Whether entry `j` of a name table of `size`-byte entries is well formed
/// for a pattern of `capture_count` capturing groups: its group lies in
/// `1..=capture_count` and its name ends at a NUL within the entry and is
/// UTF-8.
pub open spec fn entry_well_formed(table: Seq<u8>, size: int, capture_count: int, j: int) -> bool {
    &&& 1 <= entry_group(table, size, j) <= capture_count
    &&& exists|bytes: Seq<u8>| is_entry_name(table, size, j, bytes) && valid_utf8(bytes)
}

proof fn lemma_first_nul_found(table: Seq<u8>, from: int, to: int, p: int)
    requires
        from <= p < to,
        table[p] == 0,
        forall|q: int| from <= q < p ==> table[q] != 0,
    ensures
        first_nul(table, from, to) == Some(p),
    decreases p - from,
{
    if from < p {
        lemma_first_nul_found(table, from + 1, to, p);
    }
}

proof fn lemma_well_formed_entries_decode(table: Seq<u8>, size: int, capture_count: int, k: int)
    requires
        0 <= k,
        forall|j: int| 0 <= j < k ==> #[trigger] entry_well_formed(table, size, capture_count, j),
    ensures
        names_from_entries(table, size, capture_count + 1, k) is Some,
    decreases k,
{
    if k > 0 {
        lemma_well_formed_entries_decode(table, size, capture_count, k - 1);
        assert(entry_well_formed(table, size, capture_count, k - 1));
        let bytes = choose|bytes: Seq<u8>|
            is_entry_name(table, size, k - 1, bytes) && valid_utf8(bytes);
        let base = (k - 1) * size;
        let p = choose|p: int|
            base + 2 <= p < base + size && table[p] == 0 && (forall|q: int|
                base + 2 <= q < p ==> table[q] != 0) && bytes == table.subrange(base + 2, p);
        lemma_first_nul_found(table, base + 2, base + size, p);
        assert(crate::name_table::name_at(table, base, size) == Some(bytes));
        assert(crate::name_table::group_at(table, base) == entry_group(table, size, k - 1));
    }
}

/// A name table decodes whenever it is well formed: the capture count is
/// within what a `usize` offset vector can hold, the entries fit in the
/// table, and every entry names a group in `1..=capture_count` by a
/// NUL-terminated UTF-8 name.
pub proof fn lemma_well_formed_tables_decode(
    capture_count: int,
    name_count: int,
    size: int,
    table: Seq<u8>,
)
    requires
        0 <= capture_count <= usize::MAX as int / 2 - 1,
        0 <= name_count,
        name_count == 0 || (3 <= size && name_count * size <= table.len()),
        forall|j: int|
            0 <= j < name_count ==> #[trigger] entry_well_formed(table, size, capture_count, j),
    ensures
        decode_names(capture_count, name_count, size, table) is Some,
{
    lemma_well_formed_entries_decode(table, size, capture_count, name_count);
}

} // verus!
