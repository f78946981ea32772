//! Regular expressions that match byte strings, as PCRE2 runs them: the
//! settings a pattern is compiled with, the capture groups of a match, and
//! the rules by which the match iterators step through a subject.
use vstd::prelude::*;

use std::sync::Arc;

use crate::error::Error;
use crate::name_table::{decode_name_table, decode_names, find_group, group_named, names_view};
use crate::pcre2_consts;

verus! {

/// A single match of a regex in a subject string.
///
/// The lifetime parameter `'s` refers to the lifetime of the matched portion
/// of the subject string.
#[derive(Clone, Copy, Debug)]
pub struct Match<'s> {
    subject: &'s [u8],
    start: usize,
    end: usize,
}

impl<'s> Match<'s> {
    #[verifier::type_invariant]
    spec fn inv(self) -> bool {
        self.start <= self.end <= self.subject@.len()
    }

    /// The whole subject string that was searched.
    pub closed spec fn subject_view(&self) -> Seq<u8> {
        self.subject@
    }

    /// The byte offset at which the match starts.
    pub closed spec fn spec_start(&self) -> int {
        self.start as int
    }

    /// The byte offset at which the match ends.
    pub closed spec fn spec_end(&self) -> int {
        self.end as int
    }

    /// Returns the starting byte offset of the match in the subject.
    pub fn start(&self) -> (r: usize)
        ensures
            r == self.spec_start(),
            r <= self.spec_end(),
    {
        proof {
            use_type_invariant(self);
        }
        self.start
    }

    /// Returns the ending byte offset of the match in the subject.
    pub fn end(&self) -> (r: usize)
        ensures
            r == self.spec_end(),
            self.spec_start() <= r <= self.subject_view().len(),
    {
        proof {
            use_type_invariant(self);
        }
        self.end
    }

    /// Returns the matched portion of the subject string.
    pub fn as_bytes(&self) -> (r: &'s [u8])
        ensures
            r@ == self.subject_view().subrange(self.spec_start(), self.spec_end()),
    {
        proof {
            use_type_invariant(self);
        }
        vstd::slice::slice_subrange(self.subject, self.start, self.end)
    }

    /// Creates a new match from the given subject string and byte offsets.
    fn new(subject: &'s [u8], start: usize, end: usize) -> (m: Match<'s>)
        requires
            start <= end <= subject@.len(),
        ensures
            m.subject_view() == subject@,
            m.spec_start() == start,
            m.spec_end() == end,
    {
        Match { subject, start, end }
    }

    /// Returns the start and end offsets of the match as a pair.
    pub fn as_pair(&self) -> (r: (usize, usize))
        ensures
            r.0 == self.spec_start(),
            r.1 == self.spec_end(),
    {
        (self.start, self.end)
    }
}


/// The settings that a regex is compiled and searched with.
#[derive(Clone, Copy, Debug, PartialEq, Eq, Structural)]
pub struct Config {
    /// PCRE2_CASELESS
    pub caseless: bool,
    /// PCRE2_DOTALL
    pub dotall: bool,
    /// PCRE2_EXTENDED
    pub extended: bool,
    /// PCRE2_MULTILINE
    pub multiline: bool,
    /// PCRE2_UCP
    pub ucp: bool,
    /// PCRE2_UTF
    pub utf: bool,
    /// unless cleared, PCRE2 checks that a subject is valid UTF-8 in UTF mode
    pub utf_check: bool,
    /// use pcre2_jit_compile
    pub jit: bool,
}

/// The settings of a new builder: every mode off, UTF checking on.
pub open spec fn default_config() -> Config {
    Config {
        caseless: false,
        dotall: false,
        extended: false,
        multiline: false,
        ucp: false,
        utf: false,
        utf_check: true,
        jit: false,
    }
}

impl Default for Config {
    fn default() -> (c: Config)
        ensures
            c == default_config(),
    {
        Config {
            caseless: false,
            dotall: false,
            extended: false,
            multiline: false,
            ucp: false,
            utf: false,
            utf_check: true,
            jit: false,
        }
    }
}

/// The value of `PCRE2_CASELESS`.
pub open spec fn caseless_bit() -> u32 {
    8
}

/// The value of `PCRE2_DOTALL`.
pub open spec fn dotall_bit() -> u32 {
    32
}

/// The value of `PCRE2_EXTENDED`.
pub open spec fn extended_bit() -> u32 {
    128
}

/// The value of `PCRE2_MULTILINE`.
pub open spec fn multiline_bit() -> u32 {
    1024
}

/// The value of `PCRE2_UCP`.
pub open spec fn ucp_bit() -> u32 {
    131072
}

/// The value of `PCRE2_UTF`.
pub open spec fn utf_bit() -> u32 {
    524288
}

/// The value of `PCRE2_NO_UTF_CHECK`.
pub open spec fn no_utf_check_bit() -> u32 {
    1073741824
}

/// `bit` when `on` holds, else no bit.
pub open spec fn bit_if(on: bool, bit: u32) -> u32 {
    if on {
        bit
    } else {
        0
    }
}

/// The options handed to `pcre2_compile` for the settings `c`: one bit per
/// enabled mode, where Unicode mode brings UTF mode with it.
pub open spec fn compile_options_of(c: Config) -> u32 {
    bit_if(c.caseless, caseless_bit()) | bit_if(c.dotall, dotall_bit()) | bit_if(
        c.extended,
        extended_bit(),
    ) | bit_if(c.multiline, multiline_bit()) | bit_if(c.ucp, ucp_bit() | utf_bit()) | bit_if(
        c.utf,
        utf_bit(),
    )
}

/// The options handed to `pcre2_match` for the settings `c`: UTF checking is
/// turned off only when the settings ask for that.
pub open spec fn match_options_of(c: Config) -> u32 {
    bit_if(!c.utf_check, no_utf_check_bit())
}

/// A builder for configuring the compilation of a PCRE2 regex.
#[derive(Clone, Copy, Debug)]
pub struct RegexBuilder {
    config: Config,
}

impl View for RegexBuilder {
    type V = Config;

    closed spec fn view(&self) -> Config {
        self.config
    }
}

impl RegexBuilder {
    /// Create a new builder with a default configuration.
    pub fn new() -> (b: RegexBuilder)
        ensures
            b@ == default_config(),
    {
        RegexBuilder { config: Config::default() }
    }

    /// The options that `pcre2_compile` is given for this configuration.
    pub fn compile_options(&self) -> (options: u32)
        ensures
            options == compile_options_of(self@),
    {
        let caseless = if self.config.caseless {
            pcre2_consts::caseless()
        } else {
            0
        };
        let dotall = if self.config.dotall {
            pcre2_consts::dotall()
        } else {
            0
        };
        let extended = if self.config.extended {
            pcre2_consts::extended()
        } else {
            0
        };
        let multiline = if self.config.multiline {
            pcre2_consts::multiline()
        } else {
            0
        };
        // Unicode mode implies UTF mode.
        let ucp = if self.config.ucp {
            pcre2_consts::ucp() | pcre2_consts::utf()
        } else {
            0
        };
        let utf = if self.config.utf {
            pcre2_consts::utf()
        } else {
            0
        };
        caseless | dotall | extended | multiline | ucp | utf
    }

    /// Enables case insensitive matching.
    ///
    /// If the `utf` option is also set, then Unicode case folding is used
    /// to determine case insensitivity. When the `utf` option is not set,
    /// then only standard ASCII case insensitivity is considered.
    ///
    /// This option corresponds to the `i` flag.
    pub fn caseless(&mut self, yes: bool) -> (r: &mut RegexBuilder)
        ensures
            r@ == (Config { caseless: yes, ..old(self)@ }),
            final(self)@ == final(r)@,
    {
        self.config.caseless = yes;
        self
    }

    /// Enables "dot all" matching.
    ///
    /// When enabled, the `.` metacharacter in the pattern matches any
    /// character, include `\n`. When disabled (the default), `.` will match
    /// any character except for `\n`.
    ///
    /// This option corresponds to the `s` flag.
    pub fn dotall(&mut self, yes: bool) -> (r: &mut RegexBuilder)
        ensures
            r@ == (Config { dotall: yes, ..old(self)@ }),
            final(self)@ == final(r)@,
    {
        self.config.dotall = yes;
        self
    }

    /// Enable "extended" mode in the pattern, where whitespace is ignored.
    ///
    /// This option corresponds to the `x` flag.
    pub fn extended(&mut self, yes: bool) -> (r: &mut RegexBuilder)
        ensures
            r@ == (Config { extended: yes, ..old(self)@ }),
            final(self)@ == final(r)@,
    {
        self.config.extended = yes;
        self
    }

    /// Enable multiline matching mode.
    ///
    /// When enabled, the `^` and `$` anchors will match both at the beginning
    /// and end of a subject string, in addition to matching at the start of
    /// a line and the end of a line. When disabled, the `^` and `$` anchors
    /// will only match at the beginning and end of a subject string.
    ///
    /// This option corresponds to the `m` flag.
    pub fn multiline(&mut self, yes: bool) -> (r: &mut RegexBuilder)
        ensures
            r@ == (Config { multiline: yes, ..old(self)@ }),
            final(self)@ == final(r)@,
    {
        self.config.multiline = yes;
        self
    }

    /// Enable Unicode matching mode.
    ///
    /// When enabled, the following patterns become Unicode aware: `\b`, `\B`,
    /// `\d`, `\D`, `\s`, `\S`, `\w`, `\W`.
    ///
    /// When set, this implies UTF matching mode. It is not possible to enable
    /// Unicode matching mode without enabling UTF matching mode.
    ///
    /// This is disabled by default.
    pub fn ucp(&mut self, yes: bool) -> (r: &mut RegexBuilder)
        ensures
            r@ == (Config { ucp: yes, ..old(self)@ }),
            final(self)@ == final(r)@,
    {
        self.config.ucp = yes;
        self
    }

    /// Enable UTF matching mode.
    ///
    /// When enabled, characters are treated as sequences of code units that
    /// make up a single codepoint instead of as single bytes. For example,
    /// this will cause `.` to match any single UTF-8 encoded codepoint, where
    /// as when this is disabled, `.` will any single byte (except for `\n` in
    /// both cases, unless "dot all" mode is enabled).
    ///
    /// Note that when UTF matching mode is enabled, every search performed
    /// will do a UTF-8 validation check, which can impact performance. The
    /// UTF-8 check can be disabled via the `disable_utf_check` option, but it
    /// is undefined behavior to enable UTF matching mode and search invalid
    /// UTF-8.
    ///
    /// This is disabled by default.
    pub fn utf(&mut self, yes: bool) -> (r: &mut RegexBuilder)
        ensures
            r@ == (Config { utf: yes, ..old(self)@ }),
            final(self)@ == final(r)@,
    {
        self.config.utf = yes;
        self
    }

    /// When UTF matching mode is enabled, this will disable the UTF checking
    /// that PCRE2 will normally perform automatically. If UTF matching mode
    /// is not enabled, then this has no effect.
    ///
    /// UTF checking is enabled by default when UTF matching mode is enabled.
    /// If UTF matching mode is enabled and UTF checking is enabled, then PCRE2
    /// will return an error if you attempt to search a subject string that is
    /// not valid UTF-8.
    ///
    /// Caution: PCRE2's behavior is undefined when the UTF check is disabled
    /// in UTF matching mode and a subject string that is not valid UTF-8 is
    /// searched. Whoever disables the check must guarantee that every subject
    /// searched is valid UTF-8.
    pub fn disable_utf_check(&mut self) -> (r: &mut RegexBuilder)
        ensures
            r@ == (Config { utf_check: false, ..old(self)@ }),
            final(self)@ == final(r)@,
    {
        self.config.utf_check = false;
        self
    }

    /// Enable PCRE2's JIT.
    ///
    /// This generally speeds up matching quite a bit. The downside is that it
    /// can increase the time it takes to compile a pattern.
    ///
    /// This is disabled by default.
    pub fn jit(&mut self, yes: bool) -> (r: &mut RegexBuilder)
        ensures
            r@ == (Config { jit: yes, ..old(self)@ }),
            final(self)@ == final(r)@,
    {
        self.config.jit = yes;
        self
    }

    /// The settings this builder currently holds.
    pub fn config(&self) -> (c: Config)
        ensures
            c == self@,
    {
        self.config
    }
}


/// What PCRE2 reports about a compiled pattern (`pcre2_pattern_info`), as
/// plain values.
#[derive(Debug)]
pub struct PatternInfo {
    /// `PCRE2_INFO_CAPTURECOUNT`: the number of capturing groups, not
    /// counting the group of the whole match.
    pub capture_count: u32,
    /// `PCRE2_INFO_NAMECOUNT`: the number of entries in the name table.
    pub name_count: u32,
    /// `PCRE2_INFO_NAMEENTRYSIZE`: the size in bytes of each entry.
    pub name_entry_size: u32,
    /// The bytes of the name table (`PCRE2_INFO_NAMETABLE`).
    pub name_table: Vec<u8>,
}

/// `Arc::clone`: std documents that it makes another pointer to the same
/// allocation, so the new pointer holds the very same value.
#[verifier::external_body]
fn share<T>(a: &Arc<T>) -> (r: Arc<T>)
    ensures
        *r == **a,
{
    Arc::clone(a)
}

/// A compiled PCRE2 regular expression, as the library sees it: the
/// settings it was built with, its pattern and the names of its capture
/// groups.
pub struct Regex {
    /// The configuration used to build the regex.
    config: Config,
    /// The original pattern string.
    pattern: String,
    /// The name of each capture group, group 0 (the whole match) first.
    capture_names: Arc<Vec<Option<String>>>,
}

impl Regex {
    #[verifier::type_invariant]
    spec fn inv(self) -> bool {
        let n = self.capture_names@.len();
        &&& 1 <= n <= usize::MAX / 2
        &&& self.capture_names@[0] is None
    }

    /// The settings the regex was built with.
    pub closed spec fn config_view(&self) -> Config {
        self.config
    }

    /// The pattern the regex was built from.
    pub closed spec fn pattern_view(&self) -> Seq<char> {
        self.pattern@
    }

    /// The name of each capture group, group 0 first.
    pub closed spec fn names(&self) -> Seq<Option<Seq<char>>> {
        names_view(self.capture_names@)
    }
}

impl Clone for Regex {
    /// A regex with the same settings, pattern and capture names; the names
    /// are shared, not copied.
    fn clone(&self) -> (r: Regex)
        ensures
            r.config_view() == self.config_view(),
            r.pattern_view() == self.pattern_view(),
            r.names() == self.names(),
    {
        proof {
            use_type_invariant(self);
        }
        Regex {
            config: self.config,
            pattern: self.pattern.clone(),
            capture_names: share(&self.capture_names),
        }
    }
}

impl RegexBuilder {
    /// Assembles the regex that PCRE2 compiled from `pattern` with this
    /// configuration, from what PCRE2 reports about the compiled pattern.
    ///
    /// If the capture-name table cannot be decoded, then an error is
    /// returned.
    pub fn build(&self, pattern: &str, info: &PatternInfo) -> (r: Result<Regex, Error>)
        ensures
            match decode_names(
                info.capture_count as int,
                info.name_count as int,
                info.name_entry_size as int,
                info.name_table@,
            ) {
                Some(names) => r matches Ok(re) && re.config_view() == self@ && re.pattern_view()
                    == pattern@ && re.names() == names,
                None => r matches Err(e) && crate::name_table::is_bad_table_error(e),
            },
    {
        let names = match decode_name_table(
            info.capture_count,
            info.name_count,
            info.name_entry_size,
            info.name_table.as_slice(),
        ) {
            Ok(names) => names,
            Err(e) => {
                return Err(e);
            },
        };
        proof {
            crate::name_table::lemma_names_shape(
                info.name_table@,
                info.name_entry_size as int,
                info.capture_count + 1,
                info.name_count as int,
            );
            assert(names@.len() == names_view(names@).len());
            assert(names_view(names@)[0] is None);
        }
        Ok(
            Regex {
                config: self.config,
                pattern: pattern.to_owned(),
                capture_names: Arc::new(names),
            },
        )
    }
}


/// The span of capture group `i` in the offsets `ov` that PCRE2 left after a
/// search (the start and end of group `i` at `2 * i` and `2 * i + 1`):
/// `None` when there is no such group or the group did not take part in the
/// match, which PCRE2 marks with `PCRE2_UNSET` (`usize::MAX`).
pub open spec fn group_span(ov: Seq<usize>, i: int) -> Option<(usize, usize)> {
    if 0 <= i && 2 * i + 1 < ov.len() && ov[2 * i] != usize::MAX && ov[2 * i + 1] != usize::MAX {
        Some((ov[2 * i], ov[2 * i + 1]))
    } else {
        None
    }
}

/// Whether the offsets `ov` hold no capture group span at all.
pub open spec fn all_unset(ov: Seq<usize>) -> bool {
    forall|k: int| 0 <= k < ov.len() ==> ov[k] == usize::MAX
}

/// CaptureLocations is a low level representation of the raw offsets of each
/// submatch.
///
/// Primarily, this type is useful when using `Regex` APIs such as
/// `captures_read`, which permits amortizing the allocation in which capture
/// match locations are stored.
///
/// In order to build a value of this type, you'll need to call the
/// `capture_locations` method on the `Regex` being used to execute the search.
/// The value returned can then be reused in subsequent searches.
pub struct CaptureLocations {
    /// The start and end offset of each group, in pairs, group 0 first.
    ovector: Vec<usize>,
}

impl View for CaptureLocations {
    type V = Seq<usize>;

    closed spec fn view(&self) -> Seq<usize> {
        self.ovector@
    }
}

impl CaptureLocations {
    #[verifier::type_invariant]
    spec fn inv(self) -> bool {
        self.ovector@.len() >= 2 && self.ovector@.len() % 2 == 0
    }
}

/// Each offset of `ov`, `None` where PCRE2 left it unset.
pub open spec fn offsets_view(ov: Seq<usize>) -> Seq<Option<usize>> {
    Seq::new(
        ov.len(),
        |k: int|
            if ov[k] == usize::MAX {
                None
            } else {
                Some(ov[k])
            },
    )
}

impl Clone for CaptureLocations {
    /// A new, empty set of capture locations for the same number of groups.
    fn clone(&self) -> (r: CaptureLocations)
        ensures
            r@.len() == self@.len(),
            all_unset(r@),
    {
        proof {
            use_type_invariant(self);
        }
        unset_offsets(self.ovector.len())
    }
}

/// Offsets for `len / 2` groups, none of which has taken part in a match.
fn unset_offsets(len: usize) -> (r: CaptureLocations)
    requires
        len >= 2,
        len % 2 == 0,
    ensures
        r@.len() == len,
        all_unset(r@),
{
    let unset = pcre2_consts::unset();
    let mut ovector: Vec<usize> = Vec::new();
    while ovector.len() < len
        invariant
            ovector@.len() <= len,
            unset == usize::MAX,
            all_unset(ovector@),
        decreases len - ovector@.len(),
    {
        ovector.push(unset);
    }
    CaptureLocations { ovector }
}

impl CaptureLocations {
    /// Returns the start and end positions of the Nth capture group.
    ///
    /// This returns `None` if `i` is not a valid capture group or if the
    /// capture group did not match anything.
    ///
    /// The positions returned are always byte indices with respect to the
    /// original subject string matched.
    pub fn get(&self, i: usize) -> (r: Option<(usize, usize)>)
        ensures
            r == group_span(self@, i as int),
    {
        let unset = pcre2_consts::unset();
        let len = self.ovector.len();
        if i >= len / 2 {
            return None;
        }
        let s = self.ovector[i * 2];
        if s == unset {
            return None;
        }
        let e = self.ovector[i * 2 + 1];
        if e == unset {
            return None;
        }
        Some((s, e))
    }

    /// Returns the total number of capturing groups.
    ///
    /// This is always at least `1` since every regex has at least `1`
    /// capturing group that corresponds to the entire match.
    pub fn len(&self) -> (r: usize)
        ensures
            r == self@.len() / 2,
            r >= 1,
    {
        proof {
            use_type_invariant(self);
        }
        self.ovector.len() / 2
    }

    /// The raw offsets, in pairs of start and end, group 0 first, with
    /// `None` for each offset of a group that did not take part in the
    /// match.
    pub fn offsets(&self) -> (r: Vec<Option<usize>>)
        ensures
            r@ == offsets_view(self@),
    {
        let unset = pcre2_consts::unset();
        let mut r: Vec<Option<usize>> = Vec::new();
        let mut k: usize = 0;
        while k < self.ovector.len()
            invariant
                k <= self.ovector@.len(),
                unset == usize::MAX,
                r@ =~= offsets_view(self.ovector@).subrange(0, k as int),
            decreases self.ovector@.len() - k,
        {
            let offset = self.ovector[k];
            if offset == unset {
                r.push(None);
            } else {
                r.push(Some(offset));
            }
            k += 1;
        }
        assert(offsets_view(self.ovector@).subrange(0, k as int) =~= offsets_view(self.ovector@));
        r
    }
}

/// Captures represents a group of captured byte strings for a single match.
///
/// The 0th capture always corresponds to the entire match. Each subsequent
/// index corresponds to the next capture group in the regex. If a capture
/// group is named, then the matched byte string is *also* available via the
/// `name` method. (Note that the 0th capture is always unnamed and so must be
/// accessed with the `get` method.)
///
/// Positions returned from a capture group are always byte indices.
///
/// `'s` is the lifetime of the matched subject string.
pub struct Captures<'s> {
    subject: &'s [u8],
    locs: CaptureLocations,
    names: Arc<Vec<Option<String>>>,
}

/// The match of capture group `i` under the offsets `ov` in `subject`, as a
/// triple of subject, start and end; `None` when the group did not take part
/// in the match or its span does not lie within the subject.
pub open spec fn group_match(subject: Seq<u8>, ov: Seq<usize>, i: int) -> Option<(Seq<u8>, int, int)> {
    match group_span(ov, i) {
        Some((s, e)) => if s <= e <= subject.len() {
            Some((subject, s as int, e as int))
        } else {
            None
        },
        None => None,
    }
}

/// Whether `m` is the match `t`, given as a triple of subject, start and end.
pub open spec fn is_match_of(m: Match, t: (Seq<u8>, int, int)) -> bool {
    m.subject_view() == t.0 && m.spec_start() == t.1 && m.spec_end() == t.2
}

impl<'s> Captures<'s> {
    #[verifier::type_invariant]
    spec fn inv(self) -> bool {
        self.locs@.len() == 2 * self.names@.len()
    }

    /// The subject string that was searched.
    pub closed spec fn subject_view(&self) -> Seq<u8> {
        self.subject@
    }

    /// The offsets of the capture groups.
    pub closed spec fn offsets(&self) -> Seq<usize> {
        self.locs@
    }

    /// The names of the capture groups of the regex, group 0 first.
    pub closed spec fn names(&self) -> Seq<Option<Seq<char>>> {
        names_view(self.names@)
    }

    /// Returns the match associated with the capture group at index `i`. If
    /// `i` does not correspond to a capture group, or if the capture group
    /// did not participate in the match, then `None` is returned.
    pub fn get(&self, i: usize) -> (r: Option<Match<'s>>)
        ensures
            match group_match(self.subject_view(), self.offsets(), i as int) {
                Some(t) => r matches Some(m) && is_match_of(m, t),
                None => r is None,
            },
    {
        match self.locs.get(i) {
            Some((s, e)) => {
                if s <= e && e <= self.subject.len() {
                    Some(Match::new(self.subject, s, e))
                } else {
                    None
                }
            },
            None => None,
        }
    }

    /// Returns the match for the capture group named `name`. If `name` isn't a
    /// valid capture group or didn't match anything, then `None` is returned.
    pub fn name(&self, name: &str) -> (r: Option<Match<'s>>)
        ensures
            match group_named(self.names(), name@) {
                Some(i) => match group_match(self.subject_view(), self.offsets(), i) {
                    Some(t) => r matches Some(m) && is_match_of(m, t),
                    None => r is None,
                },
                None => r is None,
            },
    {
        match find_group(&self.names, name) {
            Some(i) => self.get(i),
            None => None,
        }
    }

    /// Returns the number of captured groups.
    ///
    /// This is always at least `1`, since every regex has at least one capture
    /// group that corresponds to the full match.
    pub fn len(&self) -> (r: usize)
        ensures
            r == self.offsets().len() / 2,
            r == self.names().len(),
            r >= 1,
    {
        proof {
            use_type_invariant(self);
        }
        self.locs.len()
    }
}


/// The match that a search of `subject` reports when PCRE2 found one and
/// left the offsets `ov`: it spans `ov[0]..ov[1]`.
pub open spec fn found_match(subject: Seq<u8>, ov: Seq<usize>) -> (Seq<u8>, int, int) {
    (subject, ov[0] as int, ov[1] as int)
}

/// Whether the offsets `ov` that PCRE2 left after finding a match in a
/// subject of `len` bytes describe a well-formed overall match.
pub open spec fn found_span_ok(ov: Seq<usize>, len: int) -> bool {
    ov.len() >= 2 && ov[0] <= ov[1] <= len
}

/// The result of a search of `subject` for the leftmost-first match, given
/// the outcome that `pcre2_match` reported (`Ok(true)` when it found a match)
/// and the offsets it left.
pub fn search_result<'s>(subject: &'s [u8], outcome: Result<bool, Error>, ovector: &[usize]) -> (r:
    Result<Option<Match<'s>>, Error>)
    requires
        outcome == Ok::<bool, Error>(true) ==> found_span_ok(ovector@, subject@.len() as int),
    ensures
        match outcome {
            Err(e) => r == Err::<Option<Match<'s>>, Error>(e),
            Ok(false) => r matches Ok(None),
            Ok(true) => r matches Ok(Some(m)) && is_match_of(m, found_match(subject@, ovector@)),
        },
{
    match outcome {
        Err(e) => Err(e),
        Ok(false) => Ok(None),
        Ok(true) => Ok(Some(Match::new(subject, ovector[0], ovector[1]))),
    }
}

impl Regex {
    /// Returns the original pattern string for this regex.
    pub fn as_str(&self) -> (r: &str)
        ensures
            r@ == self.pattern_view(),
    {
        self.pattern.as_str()
    }

    /// Returns a sequence of all capturing groups and their names, if present.
    ///
    /// The length of the slice returned is always equal to the result of
    /// `captures_len`, which is the number of capturing groups (including the
    /// capturing group for the entire pattern).
    ///
    /// Each entry in the slice is the name of the corresponding capturing
    /// group, if one exists. The first capturing group (at index `0`) is
    /// always unnamed.
    ///
    /// Capturing groups are indexed by the order of the opening parenthesis.
    pub fn capture_names(&self) -> (r: &[Option<String>])
        ensures
            names_view(r@) == self.names(),
            r@.len() >= 1,
            r@[0] is None,
    {
        proof {
            use_type_invariant(self);
        }
        self.capture_names.as_slice()
    }

    /// Returns the number of capturing groups in the pattern.
    ///
    /// This is always 1 more than the number of syntactic groups in the
    /// pattern, since the first group always corresponds to the entire match.
    pub fn captures_len(&self) -> (r: usize)
        ensures
            r == self.names().len(),
            r >= 1,
    {
        proof {
            use_type_invariant(self);
        }
        self.capture_names.len()
    }

    /// Returns an empty set of capture locations that can be reused in
    /// multiple calls to `captures_read` or `captures_read_at`.
    pub fn capture_locations(&self) -> (r: CaptureLocations)
        ensures
            r@.len() == 2 * self.names().len(),
            r@.len() >= 2,
            all_unset(r@),
    {
        proof {
            use_type_invariant(self);
        }
        unset_offsets(self.capture_names.len() * 2)
    }

    /// The options that every search with this regex hands to
    /// `pcre2_match`.
    pub fn match_options(&self) -> (options: u32)
        ensures
            options == match_options_of(self.config_view()),
    {
        if !self.config.utf_check {
            pcre2_consts::no_utf_check()
        } else {
            0
        }
    }

    /// Records in `locs` the offsets that a search for captures left, and
    /// returns the overall match, which is always equivalent to the `0`th
    /// capture group. `outcome` is what `pcre2_match` reported (`Ok(true)`
    /// when it found a match) and `ovector` the offsets it left; `locs` is
    /// left as it was when no match was found.
    pub fn read_captures<'s>(
        &self,
        locs: &mut CaptureLocations,
        subject: &'s [u8],
        outcome: Result<bool, Error>,
        ovector: &[usize],
    ) -> (r: Result<Option<Match<'s>>, Error>)
        requires
            outcome == Ok::<bool, Error>(true) ==> found_span_ok(ovector@, subject@.len() as int)
                && ovector@.len() == old(locs)@.len(),
        ensures
            match outcome {
                Err(e) => r == Err::<Option<Match<'s>>, Error>(e) && final(locs)@ == old(locs)@,
                Ok(false) => r matches Ok(None) && final(locs)@ == old(locs)@,
                Ok(true) => r matches Ok(Some(m)) && is_match_of(m, found_match(subject@, ovector@))
                    && final(locs)@ == ovector@,
            },
    {
        match outcome {
            Err(e) => Err(e),
            Ok(false) => Ok(None),
            Ok(true) => {
                proof {
                    use_type_invariant(&*locs);
                }
                locs.ovector = vstd::slice::slice_to_vec(ovector);
                Ok(Some(Match::new(subject, ovector[0], ovector[1])))
            },
        }
    }

    /// The capture groups of the leftmost-first match in `subject`, given
    /// the outcome that `pcre2_match` reported for that search and the
    /// offsets it left. Capture group `0` always corresponds to the entire
    /// match. If no match is found, then `None` is returned.
    pub fn captures_result<'s>(
        &self,
        subject: &'s [u8],
        outcome: Result<bool, Error>,
        ovector: &[usize],
    ) -> (r: Result<Option<Captures<'s>>, Error>)
        requires
            outcome == Ok::<bool, Error>(true) ==> found_span_ok(ovector@, subject@.len() as int)
                && ovector@.len() == 2 * self.names().len(),
        ensures
            match outcome {
                Err(e) => r matches Err(e2) && e2 == e,
                Ok(false) => r matches Ok(None),
                Ok(true) => r matches Ok(Some(c)) && c.subject_view() == subject@ && c.offsets()
                    == ovector@ && c.names() == self.names(),
            },
    {
        let mut locs = self.capture_locations();
        match self.read_captures(&mut locs, subject, outcome, ovector) {
            Err(e) => Err(e),
            Ok(None) => Ok(None),
            Ok(Some(_)) => Ok(Some(Captures { subject, locs, names: share(&self.capture_names) })),
        }
    }
}


/// What a match iterator does with the outcome of one search.
#[derive(Debug)]
pub enum Advance<T> {
    /// Yield this item.
    Yield(T),
    /// Skip the match found and search again from the new offset.
    Retry,
    /// The iteration is over.
    Done,
}

/// The offset at which the search after a match from `s` to `e` starts: the
/// end of the match, or one past it for an empty match, so that the
/// iteration always makes progress.
pub open spec fn offset_after(s: int, e: int) -> int {
    if s == e {
        e + 1
    } else {
        e
    }
}

/// Whether a match from `s` to `e` is reported, given the end of the last
/// reported match: an empty match right at the end of the previous match is
/// skipped.
pub open spec fn reported(last_match: Option<usize>, s: usize, e: usize) -> bool {
    !(s == e && last_match == Some(e))
}

/// The end of the last reported match once a match from `s` to `e` has
/// been handled.
pub open spec fn last_match_after(last_match: Option<usize>, s: usize, e: usize) -> Option<usize> {
    if reported(last_match, s, e) {
        Some(e)
    } else {
        last_match
    }
}

/// The invariant of a match iterator over a subject of `len` bytes that
/// searches next at `last_end` and last reported a match ending at
/// `last_match`.
pub open spec fn cursor_ok(len: int, last_end: int, last_match: Option<usize>) -> bool {
    &&& last_end <= len + 1
    &&& last_match matches Some(x) ==> x <= len && (last_end == x || last_end == x + 1)
}

/// One step of a match iterator's cursor after a match from `s` to `e` was
/// found: the new search offset, the new end of the last reported match, and
/// whether the match is reported.
fn step_cursor(last_match: Option<usize>, s: usize, e: usize) -> (r: (usize, Option<usize>, bool))
    requires
        s <= e < usize::MAX,
    ensures
        r.0 == offset_after(s as int, e as int),
        r.1 == last_match_after(last_match, s, e),
        r.2 == reported(last_match, s, e),
{
    if s == e {
        // This is an empty match. To ensure we make progress, start
        // the next search at the smallest possible starting position
        // of the next match following this one.
        // Don't accept empty matches immediately following a match.
        // Just move on to the next match.
        let skip = match last_match {
            Some(last) => last == e,
            None => false,
        };
        if skip {
            (e + 1, last_match, false)
        } else {
            (e + 1, Some(e), true)
        }
    } else {
        (e, Some(e), true)
    }
}

/// An iterator over all non-overlapping matches for a particular subject
/// string.
///
/// The iterator yields matches (if no error occurred while searching)
/// corresponding to the start and end of the match. The indices are byte
/// offsets. The iterator stops when no more matches can be found.
///
/// The searches themselves are run by the caller: `next_start` says where
/// the next search starts, and `advance` takes what that search found.
///
/// `'r` is the lifetime of the compiled regular expression and `'s` is the
/// lifetime of the subject string.
pub struct Matches<'r, 's> {
    re: &'r Regex,
    subject: &'s [u8],
    last_end: usize,
    last_match: Option<usize>,
}

impl<'r, 's> Matches<'r, 's> {
    #[verifier::type_invariant]
    spec fn inv(self) -> bool {
        &&& self.subject@.len() < usize::MAX
        &&& cursor_ok(self.subject@.len() as int, self.last_end as int, self.last_match)
    }

    /// The regex whose matches are iterated.
    pub closed spec fn regex(&self) -> Regex {
        *self.re
    }

    /// The subject string that is searched.
    pub closed spec fn subject_view(&self) -> Seq<u8> {
        self.subject@
    }

    /// The offset at which the next search starts.
    pub closed spec fn spec_last_end(&self) -> int {
        self.last_end as int
    }

    /// The end of the last reported match, if any.
    pub closed spec fn spec_last_match(&self) -> Option<usize> {
        self.last_match
    }

    /// The subject string that is searched.
    pub fn subject(&self) -> (r: &'s [u8])
        ensures
            r@ == self.subject_view(),
    {
        self.subject
    }

    /// The regex whose matches are iterated.
    pub fn regex_ref(&self) -> (r: &'r Regex)
        ensures
            *r == self.regex(),
    {
        self.re
    }

    /// Where the next search starts, or `None` when the iteration is over.
    pub fn next_start(&self) -> (r: Option<usize>)
        ensures
            r == (if self.spec_last_end() <= self.subject_view().len() {
                Some(self.spec_last_end() as usize)
            } else {
                None
            }),
    {
        if self.last_end > self.subject.len() {
            None
        } else {
            Some(self.last_end)
        }
    }

    /// Takes the outcome of the search that started at `next_start`: what
    /// `pcre2_match` reported (`Ok(true)` when it found a match) and the
    /// offsets it left. Returns the match to yield, or that the search must
    /// be repeated from the new offset, or that the iteration is over.
    pub fn advance(&mut self, outcome: Result<bool, Error>, ovector: &[usize]) -> (r: Advance<
        Result<Match<'s>, Error>,
    >)
        requires
            old(self).spec_last_end() <= old(self).subject_view().len(),
            outcome == Ok::<bool, Error>(true) ==> found_span_ok(
                ovector@,
                old(self).subject_view().len() as int,
            ),
        ensures
            final(self).regex() == old(self).regex(),
            final(self).subject_view() == old(self).subject_view(),
            match outcome {
                Err(e) => r matches Advance::Yield(Err(e2)) && e2 == e && final(self).spec_last_end()
                    == old(self).spec_last_end() && final(self).spec_last_match() == old(
                    self,
                ).spec_last_match(),
                Ok(false) => r is Done && final(self).spec_last_end() == old(self).spec_last_end()
                    && final(self).spec_last_match() == old(self).spec_last_match(),
                Ok(true) => {
                    &&& final(self).spec_last_end() == offset_after(
                        ovector@[0] as int,
                        ovector@[1] as int,
                    )
                    &&& final(self).spec_last_match() == last_match_after(
                        old(self).spec_last_match(),
                        ovector@[0],
                        ovector@[1],
                    )
                    &&& if reported(old(self).spec_last_match(), ovector@[0], ovector@[1]) {
                        r matches Advance::Yield(Ok(m)) && is_match_of(
                            m,
                            found_match(old(self).subject_view(), ovector@),
                        )
                    } else {
                        r is Retry
                    }
                },
            },
    {
        proof {
            use_type_invariant(&*self);
        }
        let m = match search_result(self.subject, outcome, ovector) {
            Err(err) => {
                return Advance::Yield(Err(err));
            },
            Ok(None) => {
                return Advance::Done;
            },
            Ok(Some(m)) => m,
        };
        let (next, last, report) = step_cursor(self.last_match, m.start(), m.end());
        *self = Matches { re: self.re, subject: self.subject, last_end: next, last_match: last };
        if report {
            Advance::Yield(Ok(m))
        } else {
            Advance::Retry
        }
    }
}

/// An iterator that yields all non-overlapping capture groups matching a
/// particular regular expression.
///
/// The iterator stops when no more matches can be found. As with
/// [`Matches`], the searches are run by the caller.
///
/// `'r` is the lifetime of the compiled regular expression and `'s` is the
/// lifetime of the subject string.
pub struct CaptureMatches<'r, 's> {
    re: &'r Regex,
    subject: &'s [u8],
    last_end: usize,
    last_match: Option<usize>,
}

impl<'r, 's> CaptureMatches<'r, 's> {
    #[verifier::type_invariant]
    spec fn inv(self) -> bool {
        &&& self.subject@.len() < usize::MAX
        &&& cursor_ok(self.subject@.len() as int, self.last_end as int, self.last_match)
    }

    /// The regex whose matches are iterated.
    pub closed spec fn regex(&self) -> Regex {
        *self.re
    }

    /// The subject string that is searched.
    pub closed spec fn subject_view(&self) -> Seq<u8> {
        self.subject@
    }

    /// The offset at which the next search starts.
    pub closed spec fn spec_last_end(&self) -> int {
        self.last_end as int
    }

    /// The end of the last reported match, if any.
    pub closed spec fn spec_last_match(&self) -> Option<usize> {
        self.last_match
    }

    /// The subject string that is searched.
    pub fn subject(&self) -> (r: &'s [u8])
        ensures
            r@ == self.subject_view(),
    {
        self.subject
    }

    /// The regex whose matches are iterated.
    pub fn regex_ref(&self) -> (r: &'r Regex)
        ensures
            *r == self.regex(),
    {
        self.re
    }

    /// Where the next search starts, or `None` when the iteration is over.
    pub fn next_start(&self) -> (r: Option<usize>)
        ensures
            r == (if self.spec_last_end() <= self.subject_view().len() {
                Some(self.spec_last_end() as usize)
            } else {
                None
            }),
    {
        if self.last_end > self.subject.len() {
            None
        } else {
            Some(self.last_end)
        }
    }

    /// Takes the outcome of the capture search that started at
    /// `next_start`: what `pcre2_match` reported (`Ok(true)` when it found a
    /// match) and the offsets it left for every group. Returns the capture
    /// groups to yield, or that the search must be repeated from the new
    /// offset, or that the iteration is over.
    pub fn advance(&mut self, outcome: Result<bool, Error>, ovector: &[usize]) -> (r: Advance<
        Result<Captures<'s>, Error>,
    >)
        requires
            old(self).spec_last_end() <= old(self).subject_view().len(),
            outcome == Ok::<bool, Error>(true) ==> found_span_ok(
                ovector@,
                old(self).subject_view().len() as int,
            ) && ovector@.len() == 2 * old(self).regex().names().len(),
        ensures
            final(self).regex() == old(self).regex(),
            final(self).subject_view() == old(self).subject_view(),
            match outcome {
                Err(e) => r matches Advance::Yield(Err(e2)) && e2 == e && final(self).spec_last_end()
                    == old(self).spec_last_end() && final(self).spec_last_match() == old(
                    self,
                ).spec_last_match(),
                Ok(false) => r is Done && final(self).spec_last_end() == old(self).spec_last_end()
                    && final(self).spec_last_match() == old(self).spec_last_match(),
                Ok(true) => {
                    &&& final(self).spec_last_end() == offset_after(
                        ovector@[0] as int,
                        ovector@[1] as int,
                    )
                    &&& final(self).spec_last_match() == last_match_after(
                        old(self).spec_last_match(),
                        ovector@[0],
                        ovector@[1],
                    )
                    &&& if reported(old(self).spec_last_match(), ovector@[0], ovector@[1]) {
                        r matches Advance::Yield(Ok(c)) && c.subject_view() == old(
                            self,
                        ).subject_view() && c.offsets() == ovector@ && c.names() == old(
                            self,
                        ).regex().names()
                    } else {
                        r is Retry
                    }
                },
            },
    {
        proof {
            use_type_invariant(&*self);
        }
        let mut locs = self.re.capture_locations();
        let m = match self.re.read_captures(&mut locs, self.subject, outcome, ovector) {
            Err(err) => {
                return Advance::Yield(Err(err));
            },
            Ok(None) => {
                return Advance::Done;
            },
            Ok(Some(m)) => m,
        };
        let (next, last, report) = step_cursor(self.last_match, m.start(), m.end());
        let (re, subject) = (self.re, self.subject);
        *self = CaptureMatches { re, subject, last_end: next, last_match: last };
        if report {
            Advance::Yield(
                Ok(Captures { subject, locs, names: share(&re.capture_names) }),
            )
        } else {
            Advance::Retry
        }
    }
}

impl Regex {
    /// Returns an iterator for each successive non-overlapping match in
    /// `subject`, returning the start and end byte indices with respect to
    /// `subject`.
    pub fn find_iter<'r, 's>(&'r self, subject: &'s [u8]) -> (r: Matches<'r, 's>)
        requires
            subject@.len() < usize::MAX,
        ensures
            r.regex() == *self,
            r.subject_view() == subject@,
            r.spec_last_end() == 0,
            r.spec_last_match() == None::<usize>,
    {
        Matches { re: self, subject, last_end: 0, last_match: None }
    }

    /// Returns an iterator over all the non-overlapping capture groups matched
    /// in `subject`. This is operationally the same as `find_iter`, except it
    /// yields information about capturing group matches.
    pub fn captures_iter<'r, 's>(&'r self, subject: &'s [u8]) -> (r: CaptureMatches<'r, 's>)
        requires
            subject@.len() < usize::MAX,
        ensures
            r.regex() == *self,
            r.subject_view() == subject@,
            r.spec_last_end() == 0,
            r.spec_last_match() == None::<usize>,
    {
        CaptureMatches { re: self, subject, last_end: 0, last_match: None }
    }
}

} // verus!
