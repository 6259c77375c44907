//! Describing system generations: the number a generation directory's name
//! carries, and the record assembled about each generation.

use vstd::prelude::*;
use vstd::string::StrSliceExecFns;

use crate::text::{matches_at, parse_u64_spec, rfind_spec, str_rfind, parse_u64};

verus! {

/// A description of one system generation, as gathered from its directory.
#[derive(Debug, Clone)]
pub struct GenerationInfo {
    /// Number of the generation.
    pub number: String,
    /// Date at which the generation was built.
    pub date: String,
    /// OS version the generation carries.
    pub nixos_version: String,
    /// Version of the generation's bootable kernel.
    pub kernel_version: String,
    /// Configuration revision recorded in the generation.
    pub configuration_revision: String,
    /// Specialisations, if any.
    pub specialisations: Vec<String>,
    /// Whether this generation is the current one.
    pub current: bool,
}

/// `s` with every trailing `-link` repetition removed.
pub open spec fn trim_link_suffix(s: Seq<char>) -> Seq<char>
    decreases s.len(),
{
    if s.len() >= 5 && s.subrange(s.len() - 5, s.len() as int) == "-link"@ {
        trim_link_suffix(s.take(s.len() - 5))
    } else {
        s
    }
}

/// A number with an optional leading `+`, as the standard integer parser
/// accepts it.
pub open spec fn parse_signless_u64(p: Seq<char>) -> Option<u64> {
    if p.len() > 0 && p[0] == '+' {
        parse_u64_spec(p.drop_first())
    } else {
        parse_u64_spec(p)
    }
}

/// The generation number a directory name yields: strip every trailing
/// `-link`, then parse what follows the last `-`.
pub open spec fn from_dir_spec(name: Seq<char>) -> Option<u64> {
    let t = trim_link_suffix(name);
    match rfind_spec(t, '-') {
        None => None,
        Some(k) => parse_signless_u64(t.subrange(k + 1, t.len() as int)),
    }
}

/// Extract the generation number from a generation directory's name.
pub fn from_dir(generation_name: &str) -> (r: Option<u64>)
    ensures
        r == from_dir_spec(generation_name@),
{
    let mut t: String = generation_name.to_owned();
    while ends_with_link(t.as_str())
        invariant
            trim_link_suffix(generation_name@) == trim_link_suffix(t@),
        decreases t@.len(),
    {
        proof {
            reveal_strlit("-link");
        }
        let n = t.unicode_len();
        assert(n >= 5);
        let shorter = t.as_str().substring_char(0, n - 5).to_owned();
        assert(shorter@ =~= t@.take(n - 5));
        t = shorter;
    }
    assert(trim_link_suffix(t@) == t@);
    let k = match str_rfind(t.as_str(), '-') {
        Some(k) => k,
        None => {
            return None;
        }
    };
    proof {
        lemma_rfind_char_range(t@, '-');
    }
    let n = t.unicode_len();
    let digits = t.as_str().substring_char(k + 1, n);
    let r = if digits.unicode_len() > 0 && digits.get_char(0) == '+' {
        let rest = digits.substring_char(1, digits.unicode_len());
        assert(rest@ =~= digits@.drop_first());
        parse_u64(rest)
    } else {
        parse_u64(digits)
    };
    r
}

/// Does the string end in `-link`?
fn ends_with_link(t: &str) -> (r: bool)
    ensures
        r == (t@.len() >= 5 && t@.subrange(t@.len() - 5, t@.len() as int) == "-link"@),
{
    proof {
        reveal_strlit("-link");
    }
    let n = t.unicode_len();
    n >= 5 && matches_at(t, "-link", n - 5)
}

proof fn lemma_rfind_char_range(s: Seq<char>, c: char)
    ensures
        match rfind_spec(s, c) {
            Some(k) => 0 <= k < s.len(),
            None => true,
        },
    decreases s.len(),
{
    if s.len() > 0 && s.last() != c {
        lemma_rfind_char_range(s.drop_last(), c);
    }
}

} // verus!
