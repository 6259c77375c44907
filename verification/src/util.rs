//! Utilities around the underlying tool: which variant of it is installed,
//! and normalising its version strings for comparison.

use vstd::prelude::*;
use vstd::string::StrSliceExecFns;

use crate::text::{concat3, contains_seq, count_char, is_ascii_digit, str_contains};

verus! {

/// The variant of the underlying tool that is installed.
#[derive(Debug, Clone, PartialEq, Eq, Structural)]
pub enum NixVariant {
    /// The mainstream tool.
    Nix,
    /// The Lix fork.
    Lix,
    /// The Determinate distribution.
    Determinate,
}

/// What `str::to_lowercase` returns: a function of the characters alone.
pub uninterp spec fn lower_of(s: Seq<char>) -> Seq<char>;

/// Relies on `str::to_lowercase`: the result depends on the input's
/// characters alone.
#[verifier::external_body]
fn to_lowercase(s: &str) -> (r: String)
    ensures
        r@ == lower_of(s@),
{
    s.to_lowercase()
}

/// Which variant a lowercased version banner names: the Determinate marker
/// wins over the Lix marker, and anything else is mainstream.
pub open spec fn variant_of(lowered: Seq<char>) -> NixVariant {
    if contains_seq(lowered, "determinate"@) {
        NixVariant::Determinate
    } else if contains_seq(lowered, "lix"@) {
        NixVariant::Lix
    } else {
        NixVariant::Nix
    }
}

/// Classify an already-lowercased version banner.
pub fn classify_variant(lowered: &str) -> (r: NixVariant)
    ensures
        r == variant_of(lowered@),
{
    if str_contains(lowered, "determinate") {
        NixVariant::Determinate
    } else if str_contains(lowered, "lix") {
        NixVariant::Lix
    } else {
        NixVariant::Nix
    }
}

/// Decide the installed variant from the captured output of the tool's
/// version query; with no output in hand (a dry run, or no tool at all)
/// the mainstream variant is assumed.
pub fn get_nix_variant(version_output: Option<&String>) -> (r: NixVariant)
    ensures
        match version_output {
            None => r == NixVariant::Nix,
            Some(s) => r == variant_of(lower_of(s@)),
        },
{
    match version_output {
        None => NixVariant::Nix,
        Some(s) => {
            let lowered = to_lowercase(s.as_str());
            classify_variant(lowered.as_str())
        }
    }
}

/// End of the digit run beginning at `i` (equal to `i` when `s[i]` is not
/// a digit).
pub open spec fn run_end(s: Seq<char>, i: int) -> int
    decreases s.len() - i,
{
    if i < 0 || i >= s.len() {
        i
    } else if is_ascii_digit(s[i]) {
        run_end(s, i + 1)
    } else {
        i
    }
}

/// A version shape begins at `i`: a digit run, a dot, and another digit.
pub open spec fn version_match_at(s: Seq<char>, i: int) -> bool {
    &&& 0 <= i < s.len()
    &&& is_ascii_digit(s[i])
    &&& run_end(s, i) < s.len()
    &&& s[run_end(s, i)] == '.'
    &&& run_end(s, i) + 1 < s.len()
    &&& is_ascii_digit(s[run_end(s, i) + 1])
}

/// The first position where a version shape begins, at or after `i`.
pub open spec fn first_version_match(s: Seq<char>, i: int) -> Option<int>
    decreases s.len() - i,
{
    if i < 0 || i >= s.len() {
        None
    } else if version_match_at(s, i) {
        Some(i)
    } else {
        first_version_match(s, i + 1)
    }
}

/// The normalized rendering of a version shape that begins at `i`: major
/// and minor are the two digit runs, and the patch is the third run when a
/// dot and a digit follow, or `0` otherwise.
pub open spec fn rendered_version(s: Seq<char>, i: int) -> Seq<char> {
    let e1 = run_end(s, i);
    let m2 = e1 + 1;
    let e2 = run_end(s, m2);
    let major = s.subrange(i, e1);
    let minor = s.subrange(m2, e2);
    let patch = if e2 < s.len() && s[e2] == '.' && e2 + 1 < s.len() && is_ascii_digit(s[e2 + 1]) {
        s.subrange(e2 + 1, run_end(s, e2 + 1))
    } else {
        seq!['0']
    };
    major + seq!['.'] + minor + seq!['.'] + patch
}

/// Is `c` one of the separators the fallback path splits on?
pub open spec fn is_fallback_sep(c: char) -> bool {
    c == '-' || c == '+' || c == 'p' || c == '_'
}

/// Index of the first fallback separator, or the length when there is none.
pub open spec fn first_sep(s: Seq<char>, i: int) -> int
    decreases s.len() - i,
{
    if i < 0 || i >= s.len() {
        s.len() as int
    } else if is_fallback_sep(s[i]) {
        i
    } else {
        first_sep(s, i + 1)
    }
}

/// The fallback rendering when no version shape occurs anywhere: take the
/// text up to the first separator and pad it with zero components until it
/// has three.
pub open spec fn fallback_version(s: Seq<char>) -> Seq<char> {
    let base = s.take(first_sep(s, 0));
    let dots = count_char(base, '.');
    if dots == 0 {
        base + ".0.0"@
    } else if dots == 1 {
        base + ".0"@
    } else {
        base
    }
}

/// What normalising a version string yields: the first version shape in
/// it, rendered as exactly `major.minor.patch`, or the padded fallback.
pub open spec fn normalize_version_spec(s: Seq<char>) -> Seq<char> {
    match first_version_match(s, 0) {
        Some(i) => rendered_version(s, i),
        None => fallback_version(s),
    }
}

/// End of the digit run beginning at `i`.
fn digit_run_end(s: &str, i: usize) -> (r: usize)
    requires
        i <= s@.len(),
    ensures
        r as int == run_end(s@, i as int),
        i <= r <= s@.len(),
{
    let n = s.unicode_len();
    let mut e: usize = i;
    while e < n && crate::text::char_is_digit(s.get_char(e))
        invariant
            i <= e <= n,
            n == s@.len(),
            run_end(s@, i as int) == run_end(s@, e as int),
        decreases n - e,
    {
        e = e + 1;
    }
    e
}

/// Does a version shape begin at `i`?
fn is_version_match_at(s: &str, i: usize) -> (r: bool)
    requires
        i < s@.len(),
    ensures
        r == version_match_at(s@, i as int),
{
    let n = s.unicode_len();
    if !crate::text::char_is_digit(s.get_char(i)) {
        return false;
    }
    let e1 = digit_run_end(s, i);
    e1 < n && s.get_char(e1) == '.' && e1 + 1 < n
        && crate::text::char_is_digit(s.get_char(e1 + 1))
}

/// Normalize a version string for comparison: extract the first
/// `major.minor[.patch]` shape and render it with all three components
/// (`2.30pre20250521` becomes `2.30.0`, `2.24.14-1` becomes `2.24.14`), or,
/// when no such shape occurs, split off any suffix after a separator and
/// pad the rest with zero components.
pub fn normalize_version_string(version: &str) -> (r: String)
    ensures
        r@ == normalize_version_spec(version@),
{
    let n = version.unicode_len();
    let mut i: usize = 0;
    while i < n
        invariant
            0 <= i <= n,
            n == version@.len(),
            first_version_match(version@, 0) == first_version_match(version@, i as int),
        decreases n - i,
    {
        if is_version_match_at(version, i) {
            // render the match that begins here
            let e1 = digit_run_end(version, i);
            let m2 = e1 + 1;
            let e2 = digit_run_end(version, m2);
            let major = version.substring_char(i, e1);
            let minor = version.substring_char(m2, e2);
            let has_third = e2 < n && version.get_char(e2) == '.' && e2 + 1 < n
                && crate::text::char_is_digit(version.get_char(e2 + 1));
            let patch = if has_third {
                let e3 = digit_run_end(version, e2 + 1);
                version.substring_char(e2 + 1, e3).to_owned()
            } else {
                "0".to_owned()
            };
            proof {
                reveal_strlit("0");
                assert("0"@ =~= seq!['0']);
                reveal_strlit(".");
                assert("."@ =~= seq!['.']);
            }
            let mut out = major.to_owned();
            out.append(".");
            out.append(minor);
            out.append(".");
            out.append(patch.as_str());
            assert(out@ =~= rendered_version(version@, i as int));
            return out;
        }
        i = i + 1;
    }
    assert(first_version_match(version@, 0) is None);
    // fallback: strip any separator suffix and pad to three components
    let mut be: usize = 0;
    while be < n && !is_fallback_sep_exec(version.get_char(be))
        invariant
            0 <= be <= n,
            n == version@.len(),
            first_version_match(version@, 0) is None,
            first_sep(version@, 0) == first_sep(version@, be as int),
        decreases n - be,
    {
        be = be + 1;
    }
    assert(first_sep(version@, 0) == be as int);
    let base = version.substring_char(0, be);
    let ghost bseq = version@.take(be as int);
    assert(base@ == bseq);
    let mut dots: usize = 0;
    let mut k: usize = 0;
    proof {
        assert(bseq.take(0) =~= Seq::<char>::empty());
    }
    while k < be
        invariant
            0 <= k <= be,
            be <= n && n == version@.len(),
            first_version_match(version@, 0) is None,
            first_sep(version@, 0) == be as int,
            base@ == bseq && bseq == version@.take(be as int),
            dots <= k,
            dots as int == count_char(bseq.take(k as int), '.'),
        decreases be - k,
    {
        proof {
            assert(bseq.take(k + 1).drop_last() =~= bseq.take(k as int));
            assert(bseq.take(k + 1).last() == bseq[k as int]);
            assert(bseq[k as int] == version@[k as int]);
        }
        if version.get_char(k) == '.' {
            dots = dots + 1;
        }
        k = k + 1;
    }
    proof {
        assert(bseq.take(be as int) =~= bseq);
    }
    proof {
        reveal_strlit("");
        assert(""@ =~= Seq::<char>::empty());
    }
    if dots == 0 {
        let r = concat3(base, ".0.0", "");
        assert(r@ =~= bseq + ".0.0"@);
        r
    } else if dots == 1 {
        let r = concat3(base, ".0", "");
        assert(r@ =~= bseq + ".0"@);
        r
    } else {
        base.to_owned()
    }
}

/// Executable form of the fallback separator test.
fn is_fallback_sep_exec(c: char) -> (r: bool)
    ensures
        r == is_fallback_sep(c),
{
    c == '-' || c == '+' || c == 'p' || c == '_'
}


/// The profile path a rebuild targets: the build output itself, or the
/// chosen specialisation under it.
pub open spec fn target_profile_spec(out_path: Seq<char>, spec_name: Option<Seq<char>>) -> Seq<
    char,
> {
    match spec_name {
        None => out_path,
        Some(sp) => out_path + "/specialisation/"@ + sp,
    }
}

/// Determine the target profile path, descending into the chosen
/// specialisation when one is set.
pub fn get_target_profile(out_path: &str, target_specialisation: &Option<String>) -> (r: String)
    ensures
        r@ == target_profile_spec(
            out_path@,
            match target_specialisation {
                Some(sp) => Some(sp@),
                None => None,
            },
        ),
{
    match target_specialisation {
        None => out_path.to_owned(),
        Some(sp) => concat3(out_path, "/specialisation/", sp.as_str()),
    }
}

} // verus!
