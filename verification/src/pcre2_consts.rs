//! The PCRE2 option bits and sentinel values that the library reads from
//! `pcre2_sys`, each with the value that pcre2-sys defines for it.
use vstd::prelude::*;

verus! {

/// `pcre2_sys::PCRE2_CASELESS`; pcre2-sys defines it as `8`.
#[verifier::external_body]
pub(crate) fn caseless() -> (r: u32)
    ensures
        r == 8u32,
{
    pcre2_sys::PCRE2_CASELESS
}

/// `pcre2_sys::PCRE2_DOTALL`; pcre2-sys defines it as `32`.
#[verifier::external_body]
pub(crate) fn dotall() -> (r: u32)
    ensures
        r == 32u32,
{
    pcre2_sys::PCRE2_DOTALL
}

/// `pcre2_sys::PCRE2_EXTENDED`; pcre2-sys defines it as `128`.
#[verifier::external_body]
pub(crate) fn extended() -> (r: u32)
    ensures
        r == 128u32,
{
    pcre2_sys::PCRE2_EXTENDED
}

/// `pcre2_sys::PCRE2_MULTILINE`; pcre2-sys defines it as `1024`.
#[verifier::external_body]
pub(crate) fn multiline() -> (r: u32)
    ensures
        r == 1024u32,
{
    pcre2_sys::PCRE2_MULTILINE
}

/// `pcre2_sys::PCRE2_UCP`; pcre2-sys defines it as `131072`.
#[verifier::external_body]
pub(crate) fn ucp() -> (r: u32)
    ensures
        r == 131072u32,
{
    pcre2_sys::PCRE2_UCP
}

/// `pcre2_sys::PCRE2_UTF`; pcre2-sys defines it as `524288`.
#[verifier::external_body]
pub(crate) fn utf() -> (r: u32)
    ensures
        r == 524288u32,
{
    pcre2_sys::PCRE2_UTF
}

/// `pcre2_sys::PCRE2_NO_UTF_CHECK`; pcre2-sys defines it as `1073741824`.
#[verifier::external_body]
pub(crate) fn no_utf_check() -> (r: u32)
    ensures
        r == 1073741824u32,
{
    pcre2_sys::PCRE2_NO_UTF_CHECK
}

/// `pcre2_sys::PCRE2_UNSET`, the offset PCRE2 stores for a capture group that
/// did not take part in a match; pcre2-sys defines it as `usize::MAX`.
#[verifier::external_body]
pub(crate) fn unset() -> (r: usize)
    ensures
        r == usize::MAX,
{
    pcre2_sys::PCRE2_UNSET
}

} // verus!

verus! {

/// `pcre2_sys::PCRE2_ERROR_INTERNAL`, the error code PCRE2 uses for an
/// unexpected internal inconsistency; pcre2-sys defines it as `-44`.
#[verifier::external_body]
pub(crate) fn error_internal() -> (r: i32)
    ensures
        r == -44i32,
{
    pcre2_sys::PCRE2_ERROR_INTERNAL
}

} // verus!
