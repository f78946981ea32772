//! Decoding of the capture-name table that PCRE2 reports for a compiled
//! pattern (`PCRE2_INFO_NAMETABLE`).
//!
//! The table holds `name_count` entries of `name_entry_size` bytes each. An
//! entry starts with the number of a capture group in two big-endian bytes,
//! followed by the group's name in UTF-8 and a NUL byte; the rest of the entry
//! is padding.
use vstd::prelude::*;
use vstd::utf8::{decode_utf8, valid_utf8};

use crate::error::Error;
use crate::pcre2_consts;

verus! {

/// The position of the first NUL byte of `table` in `from..to`, if any.
pub open spec fn first_nul(table: Seq<u8>, from: int, to: int) -> Option<int>
    decreases to - from,
{
    if from >= to {
        None
    } else if table[from] == 0 {
        Some(from)
    } else {
        first_nul(table, from + 1, to)
    }
}

/// The group number stored in the two big-endian bytes at `base`.
pub open spec fn group_at(table: Seq<u8>, base: int) -> int {
    table[base] * 256 + table[base + 1]
}

/// The name bytes of the entry that starts at `base`: the bytes after the
/// group number up to the first NUL of the entry, or `None` when the entry
/// holds no NUL.
pub open spec fn name_at(table: Seq<u8>, base: int, size: int) -> Option<Seq<u8>> {
    match first_nul(table, base + 2, base + size) {
        Some(k) => Some(table.subrange(base + 2, k)),
        None => None,
    }
}

/// The capture names after the first `k` entries of the table have been
/// applied in order to `group_count` unnamed groups; each entry names its
/// group, so a later entry for the same group replaces an earlier one.
/// `None` when one of these entries is malformed: no NUL, a group number
/// outside `1..group_count`, or a name that is not valid UTF-8.
pub open spec fn names_from_entries(table: Seq<u8>, size: int, group_count: int, k: int) -> Option<
    Seq<Option<Seq<char>>>,
>
    decreases k,
{
    if k <= 0 {
        Some(Seq::new(group_count as nat, |i: int| None::<Seq<char>>))
    } else {
        match names_from_entries(table, size, group_count, k - 1) {
            None => None,
            Some(names) => {
                let base = (k - 1) * size;
                let g = group_at(table, base);
                match name_at(table, base, size) {
                    Some(bytes) => if 1 <= g < group_count && valid_utf8(bytes) {
                        Some(names.update(g, Some(decode_utf8(bytes))))
                    } else {
                        None
                    },
                    None => None,
                }
            },
        }
    }
}

/// Whether `name_count` entries of `size` bytes fit in a table of `len`
/// bytes, each long enough for a group number, a name and its NUL.
pub open spec fn entries_fit(name_count: int, size: int, len: int) -> bool {
    name_count == 0 || (3 <= size && name_count * size <= len)
}

/// The largest number of capturing groups, not counting the whole match,
/// that a regex can have here: its offsets must fit in one `usize`-indexed
/// vector of pairs.
pub open spec fn max_capture_count() -> int {
    usize::MAX as int / 2 - 1
}

/// The name of every group of a pattern with `capture_count` capturing
/// groups (group 0, the whole match, comes on top), as the name table
/// describes it; `None` when the table is malformed.
pub open spec fn decode_names(capture_count: int, name_count: int, size: int, table: Seq<u8>) -> Option<
    Seq<Option<Seq<char>>>,
> {
    if capture_count <= max_capture_count() && entries_fit(name_count, size, table.len() as int) {
        names_from_entries(table, size, capture_count + 1, name_count)
    } else {
        None
    }
}

/// The names held by a vector of optional strings.
pub open spec fn names_view(v: Seq<Option<String>>) -> Seq<Option<Seq<char>>> {
    Seq::new(
        v.len(),
        |i: int|
            match v[i] {
                Some(s) => Some(s@),
                None => None,
            },
    )
}

/// The error reported for a name table that cannot be decoded.
pub open spec fn is_bad_table_error(e: Error) -> bool {
    e.spec_kind() == crate::error::ErrorKind::Info && e.spec_code() == -44i32
}

/// `String::from_utf8` on a copy of `bytes`: std documents that it succeeds
/// exactly when the bytes are valid UTF-8, and that the string then holds
/// those bytes, i.e. the characters they encode.
#[verifier::external_body]
fn string_from_utf8(bytes: &[u8]) -> (r: Option<String>)
    ensures
        r is Some <==> valid_utf8(bytes@),
        r matches Some(s) ==> s@ == decode_utf8(bytes@),
{
    String::from_utf8(bytes.to_vec()).ok()
}

} // verus!

verus! {

/// Once an entry is malformed, no later prefix of the table decodes.
proof fn lemma_malformed_persists(table: Seq<u8>, size: int, group_count: int, k: int, m: int)
    requires
        names_from_entries(table, size, group_count, k) is None,
        k <= m,
    ensures
        names_from_entries(table, size, group_count, m) is None,
    decreases m - k,
{
    if k < m {
        lemma_malformed_persists(table, size, group_count, k, m - 1);
    }
}

/// Decodes the name of every capture group of a pattern with `capture_count`
/// capturing groups from the name table PCRE2 reports for it. The result has
/// one entry per group, group 0 (the whole match) first, and an entry is
/// `Some` exactly when the table names that group.
pub fn decode_name_table(
    capture_count: u32,
    name_count: u32,
    name_entry_size: u32,
    table: &[u8],
) -> (r: Result<Vec<Option<String>>, Error>)
    ensures
        match decode_names(capture_count as int, name_count as int, name_entry_size as int, table@) {
            Some(names) => r matches Ok(v) && names_view(v@) == names,
            None => r matches Err(e) && is_bad_table_error(e),
        },
{
    let bad = Error::info(pcre2_consts::error_internal());
    let table_len = table.len();
    let count = capture_count as usize;
    if count > usize::MAX / 2 - 1 {
        return Err(bad);
    }
    let group_count = count + 1;
    let n = name_count as usize;
    let size = name_entry_size as usize;
    if n != 0 {
        if size < 3 {
            return Err(bad);
        }
        match n.checked_mul(size) {
            None => {
                proof {
                    assert(n * size > table@.len()) by (nonlinear_arith)
                        requires
                            n * size > usize::MAX,
                            table@.len() == table_len,
                    ;
                }
                return Err(bad);
            },
            Some(total) => {
                if total > table.len() {
                    return Err(bad);
                }
            },
        }
    }
    let mut names: Vec<Option<String>> = Vec::new();
    while names.len() < group_count
        invariant
            names@.len() <= group_count,
            forall|j: int| 0 <= j < names@.len() ==> names@[j] is None,
        decreases group_count - names@.len(),
    {
        names.push(None);
    }
    assert(names_view(names@) =~= names_from_entries(table@, size as int, group_count as int, 0).unwrap());
    let mut i: usize = 0;
    let mut base: usize = 0;
    while i < n
        invariant
            i <= n,
            n == name_count,
            size == name_entry_size,
            group_count == capture_count + 1,
            base == i * size,
            entries_fit(n as int, size as int, table@.len() as int),
            table@.len() == table_len,
            names@.len() == group_count,
            names_from_entries(table@, size as int, group_count as int, i as int) == Some(
                names_view(names@),
            ),
            is_bad_table_error(bad),
        decreases n - i,
    {
        proof {
            assert((i + 1) * size == i * size + size) by (nonlinear_arith);
            assert((i + 1) * size <= n * size) by (nonlinear_arith)
                requires
                    i + 1 <= n,
            ;
        }
        let end = base + size;
        let group = (table[base] as usize) * 256 + table[base + 1] as usize;
        let mut k = base + 2;
        while k < end && table[k] != 0
            invariant
                base + 2 <= k <= end,
                end <= table@.len(),
                first_nul(table@, base + 2, end as int) == first_nul(table@, k as int, end as int),
            decreases end - k,
        {
            k += 1;
        }
        if k == end {
            proof {
                lemma_malformed_persists(table@, size as int, group_count as int, i + 1, n as int);
            }
            return Err(bad);
        }
        let bytes = vstd::slice::slice_subrange(table, base + 2, k);
        let name = match string_from_utf8(bytes) {
            None => {
                proof {
                    lemma_malformed_persists(table@, size as int, group_count as int, i + 1, n as int);
                }
                return Err(bad);
            },
            Some(s) => s,
        };
        if group == 0 || group >= group_count {
            proof {
                lemma_malformed_persists(table@, size as int, group_count as int, i + 1, n as int);
            }
            return Err(bad);
        }
        let ghost prev = names_view(names@);
        names.set(group, Some(name));
        assert(names_view(names@) =~= prev.update(group as int, Some(decode_utf8(bytes@))));
        i += 1;
        base += size;
    }
    Ok(names)
}

} // verus!

verus! {

/// The group that the name `name` refers to: the last group of that name.
pub open spec fn group_named(names: Seq<Option<Seq<char>>>, name: Seq<char>) -> Option<int>
    decreases names.len(),
{
    if names.len() == 0 {
        None
    } else if names.last() == Some(name) {
        Some(names.len() - 1)
    } else {
        group_named(names.drop_last(), name)
    }
}

/// The group that a name refers to is a group of that name.
pub proof fn lemma_named_group_bears_name(names: Seq<Option<Seq<char>>>, name: Seq<char>)
    ensures
        group_named(names, name) matches Some(i) ==> 0 <= i < names.len() && names[i] == Some(
            name,
        ),
    decreases names.len(),
{
    if names.len() > 0 && names.last() != Some(name) {
        lemma_named_group_bears_name(names.drop_last(), name);
    }
}

/// Every decoded prefix of the table has one entry per group and leaves
/// group 0 unnamed.
pub proof fn lemma_names_shape(table: Seq<u8>, size: int, group_count: int, k: int)
    requires
        group_count >= 0,
    ensures
        names_from_entries(table, size, group_count, k) matches Some(names) ==> names.len()
            == group_count && (group_count > 0 ==> names[0] is None),
    decreases k,
{
    if k > 0 {
        lemma_names_shape(table, size, group_count, k - 1);
    }
}

/// The index of the group that `name` refers to among `names`, if any.
pub(crate) fn find_group(names: &Vec<Option<String>>, name: &str) -> (r: Option<usize>)
    ensures
        r matches Some(i) ==> group_named(names_view(names@), name@) == Some(i as int),
        r is None ==> group_named(names_view(names@), name@) is None,
{
    let key = name.to_owned();
    let ghost all = names_view(names@);
    let mut i = names.len();
    assert(all.subrange(0, i as int) =~= all);
    while i > 0
        invariant
            i <= names@.len(),
            all == names_view(names@),
            key@ == name@,
            group_named(all, name@) == group_named(all.subrange(0, i as int), name@),
        decreases i,
    {
        let found = match &names[i - 1] {
            Some(s) => *s == key,
            None => false,
        };
        if found {
            return Some(i - 1);
        }
        assert(all.subrange(0, i as int).drop_last() =~= all.subrange(0, i - 1));
        i -= 1;
    }
    None
}

} // verus!
