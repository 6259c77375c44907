//! Per-command feature requirements: which experimental features of the
//! underlying tool a command needs, given the installed variant and, for
//! the Lix fork, its version.

use vstd::prelude::*;
use vstd::string::StrSliceExecFns;

use crate::text::{find_from, parse_u64_spec, str_find_from};
use crate::util::{NixVariant, normalize_version_spec, normalize_version_string};

verus! {

/// A version component semver accepts: a number that fits a `u64`, with no
/// leading zero.
pub open spec fn simple_component(p: Seq<char>) -> bool {
    parse_u64_spec(p) is Some && (p.len() == 1 || p[0] != '0')
}

/// The numbers of a plain `major.minor.patch` string: exactly three
/// components separated by dots, each a number without leading zeros.
pub open spec fn triple_of(s: Seq<char>) -> Option<(u64, u64, u64)> {
    match find_from(s, '.', 0) {
        None => None,
        Some(p1) => match find_from(s, '.', p1 + 1) {
            None => None,
            Some(p2) => if find_from(s, '.', p2 + 1) is Some {
                None
            } else {
                let a = s.subrange(0, p1);
                let b = s.subrange(p1 + 1, p2);
                let c = s.subrange(p2 + 1, s.len() as int);
                if simple_component(a) && simple_component(b) && simple_component(c) {
                    Some(
                        (
                            parse_u64_spec(a).unwrap(),
                            parse_u64_spec(b).unwrap(),
                            parse_u64_spec(c).unwrap(),
                        ),
                    )
                } else {
                    None
                }
            },
        },
    }
}

/// Lexicographic order on version triples.
pub open spec fn triple_lt(x: (u64, u64, u64), y: (u64, u64, u64)) -> bool {
    x.0 < y.0 || (x.0 == y.0 && (x.1 < y.1 || (x.1 == y.1 && x.2 < y.2)))
}

/// Relies on `semver::Version::parse` and the derived ordering on
/// `semver::Version`: a plain `major.minor.patch` string with no leading
/// zeros parses to exactly that triple with empty pre-release and build
/// parts, and two such versions order lexicographically by their numbers.
#[verifier::external_body]
fn version_lt(a: &str, b: &str) -> (r: Option<bool>)
    ensures
        triple_of(a@) is Some && triple_of(b@) is Some ==> r == Some(
            triple_lt(triple_of(a@).unwrap(), triple_of(b@).unwrap()),
        ),
{
    match (semver::Version::parse(a), semver::Version::parse(b)) {
        (Ok(x), Ok(y)) => Some(x < y),
        _ => None,
    }
}

/// Parse a plain `major.minor.patch` string into its numbers.
pub fn parse_triple(s: &str) -> (r: Option<(u64, u64, u64)>)
    ensures
        r == triple_of(s@),
{
    let n = s.unicode_len();
    let p1 = match str_find_from(s, '.', 0) {
        Some(k) => k,
        None => {
            return None;
        }
    };
    assert(0 <= p1 < n) by {
        lemma_find_from_range(s@, '.', 0);
    }
    let p2 = match str_find_from(s, '.', p1 + 1) {
        Some(k) => k,
        None => {
            return None;
        }
    };
    assert(p1 + 1 <= p2 < n) by {
        lemma_find_from_range(s@, '.', p1 + 1);
    }
    if str_find_from(s, '.', p2 + 1).is_some() {
        return None;
    }
    let a = s.substring_char(0, p1);
    let b = s.substring_char(p1 + 1, p2);
    let c = s.substring_char(p2 + 1, n);
    let av = match component_value(a) {
        Some(v) => v,
        None => {
            return None;
        }
    };
    let bv = match component_value(b) {
        Some(v) => v,
        None => {
            return None;
        }
    };
    let cv = match component_value(c) {
        Some(v) => v,
        None => {
            return None;
        }
    };
    Some((av, bv, cv))
}

proof fn lemma_find_from_range(s: Seq<char>, c: char, i: int)
    requires
        0 <= i,
    ensures
        match find_from(s, c, i) {
            Some(k) => i <= k < s.len() && s[k] == c,
            None => true,
        },
    decreases s.len() - i,
{
    if i < s.len() && s[i] != c {
        lemma_find_from_range(s, c, i + 1);
    }
}

/// The numeric value of one version component, when it is simple.
fn component_value(p: &str) -> (r: Option<u64>)
    ensures
        match r {
            Some(v) => simple_component(p@) && parse_u64_spec(p@) == Some(v),
            None => !simple_component(p@),
        },
{
    let n = p.unicode_len();
    if n > 1 && p.get_char(0) == '0' {
        return None;
    }
    crate::text::parse_u64(p)
}

/// Whether a Lix version still needs the `repl-flake` feature: its
/// normalized version is a plain triple below `2.93.0`.
pub open spec fn needs_repl_flake(v: Seq<char>) -> bool {
    let norm = normalize_version_spec(v);
    triple_of(norm) is Some && triple_lt(triple_of(norm).unwrap(), (2u64, 93u64, 0u64))
}

/// Decide from a raw version string whether the `repl-flake` feature is
/// still needed.
pub fn lix_repl_flake_needed(version: &str) -> (r: bool)
    ensures
        r == needs_repl_flake(version@),
{
    let norm = normalize_version_string(version);
    match parse_triple(norm.as_str()) {
        None => false,
        Some(t) => {
            let below = match version_lt(norm.as_str(), "2.93.0") {
                Some(b) => b,
                None => {
                    proof {
                        lemma_threshold_triple();
                    }
                    assert(false);
                    false
                }
            };
            proof {
                lemma_threshold_triple();
            }
            below
        }
    }
}

proof fn lemma_threshold_triple()
    ensures
        triple_of("2.93.0"@) == Some((2u64, 93u64, 0u64)),
{
    reveal_strlit("2.93.0");
    let v = "2.93.0"@;
    assert(v.len() == 6);
    assert(v[0] == '2' && v[1] == '.' && v[2] == '9' && v[3] == '3' && v[4] == '.' && v[5]
        == '0');
    assert(find_from(v, '.', 1) == Some(1int));
    assert(find_from(v, '.', 0) == Some(1int));
    assert(find_from(v, '.', 4) == Some(4int));
    assert(find_from(v, '.', 3) == Some(4int));
    assert(find_from(v, '.', 2) == Some(4int));
    assert(find_from(v, '.', 6) is None);
    assert(find_from(v, '.', 5) is None);
    let a = v.subrange(0, 1);
    let b = v.subrange(2, 4);
    let c = v.subrange(5, 6);
    assert(a =~= seq!['2']);
    assert(b =~= seq!['9', '3']);
    assert(c =~= seq!['0']);
    assert(crate::text::dec_value(Seq::<char>::empty()) == 0);
    assert(a.drop_last() =~= Seq::<char>::empty());
    assert(crate::text::dec_value(a) == 2);
    assert(b.drop_last() =~= seq!['9']);
    assert(seq!['9'].drop_last() =~= Seq::<char>::empty());
    assert(crate::text::dec_value(seq!['9']) == 9);
    assert(crate::text::dec_value(b) == 93);
    assert(c.drop_last() =~= Seq::<char>::empty());
    assert(crate::text::dec_value(c) == 0);
    assert(parse_u64_spec(a) == Some(2u64));
    assert(parse_u64_spec(b) == Some(93u64));
    assert(parse_u64_spec(c) == Some(0u64));
}

/// Feature requirements for commands that use flakes.
#[derive(Debug)]
pub struct FlakeFeatures;

/// Features a flake command needs under a given variant: the Determinate
/// distribution ships them enabled, everything else needs them declared.
pub open spec fn flake_features_spec(variant: NixVariant) -> Seq<Seq<char>> {
    match variant {
        NixVariant::Determinate => Seq::empty(),
        _ => seq!["nix-command"@, "flakes"@],
    }
}

impl FlakeFeatures {
    /// The experimental features a flake command requires.
    pub fn required_features(&self, variant: &NixVariant) -> (r: Vec<String>)
        ensures
            r@.map_values(|f: String| f@) == flake_features_spec(*variant),
    {
        let mut features: Vec<String> = Vec::new();
        match variant {
            NixVariant::Determinate => {}
            _ => {
                features.push("nix-command".to_owned());
                features.push("flakes".to_owned());
            }
        }
        assert(features@.map_values(|f: String| f@) =~= flake_features_spec(*variant));
        features
    }
}

/// Feature requirements for legacy (non-flake) commands: none.
#[derive(Debug)]
pub struct LegacyFeatures;

impl LegacyFeatures {
    /// Legacy commands require no experimental features.
    pub fn required_features(&self) -> (r: Vec<String>)
        ensures
            r@.len() == 0,
    {
        Vec::new()
    }
}

/// Feature requirements for commands that need nothing at all.
#[derive(Debug)]
pub struct NoFeatures;

impl NoFeatures {
    /// No experimental features are required.
    pub fn required_features(&self) -> (r: Vec<String>)
        ensures
            r@.len() == 0,
    {
        Vec::new()
    }
}

/// Features an OS repl needs: nothing for non-flake use or the Determinate
/// distribution; the flake features otherwise, plus `repl-flake` on a Lix
/// old enough to still want it.
pub open spec fn os_repl_features_spec(
    is_flake: bool,
    variant: NixVariant,
    version: Option<Seq<char>>,
) -> Seq<Seq<char>> {
    if !is_flake {
        Seq::empty()
    } else {
        match variant {
            NixVariant::Determinate => Seq::empty(),
            NixVariant::Lix => seq!["nix-command"@, "flakes"@] + (match version {
                Some(v) => if needs_repl_flake(v) {
                    seq!["repl-flake"@]
                } else {
                    Seq::empty()
                },
                None => Seq::empty(),
            }),
            NixVariant::Nix => seq!["nix-command"@, "flakes"@],
        }
    }
}

/// Feature requirements for OS repl commands.
#[derive(Debug)]
pub struct OsReplFeatures {
    /// Whether the repl target is a flake.
    pub is_flake: bool,
}

impl OsReplFeatures {
    /// The experimental features an OS repl requires, given the installed
    /// variant and, when it could be read, the tool's raw version string.
    pub fn required_features(&self, variant: &NixVariant, nix_version: Option<&String>) -> (r:
        Vec<String>)
        ensures
            r@.map_values(|f: String| f@) == os_repl_features_spec(
                self.is_flake,
                *variant,
                match nix_version {
                    Some(v) => Some(v@),
                    None => None,
                },
            ),
    {
        let mut features: Vec<String> = Vec::new();
        if !self.is_flake {
            assert(features@.map_values(|f: String| f@)
                =~= Seq::<Seq<char>>::empty());
            return features;
        }
        match variant {
            NixVariant::Determinate => {}
            NixVariant::Lix => {
                features.push("nix-command".to_owned());
                features.push("flakes".to_owned());
                match nix_version {
                    Some(v) => {
                        if lix_repl_flake_needed(v.as_str()) {
                            features.push("repl-flake".to_owned());
                        }
                    }
                    None => {}
                }
            }
            NixVariant::Nix => {
                features.push("nix-command".to_owned());
                features.push("flakes".to_owned());
            }
        }
        assert(features@.map_values(|f: String| f@) =~= os_repl_features_spec(
            self.is_flake,
            *variant,
            match nix_version {
                Some(v) => Some(v@),
                None => None,
            },
        ));
        features
    }
}

/// Feature requirements for home-manager repl commands.
#[derive(Debug)]
pub struct HomeReplFeatures {
    /// Whether the repl target is a flake.
    pub is_flake: bool,
}

/// Features a repl needs when only the flake features matter: nothing for
/// non-flake use or the Determinate distribution.
pub open spec fn plain_repl_features_spec(is_flake: bool, variant: NixVariant) -> Seq<Seq<char>> {
    if !is_flake {
        Seq::empty()
    } else {
        flake_features_spec(variant)
    }
}

impl HomeReplFeatures {
    /// The experimental features a home-manager repl requires.
    pub fn required_features(&self, variant: &NixVariant) -> (r: Vec<String>)
        ensures
            r@.map_values(|f: String| f@) == plain_repl_features_spec(self.is_flake, *variant),
    {
        let mut features: Vec<String> = Vec::new();
        if !self.is_flake {
            assert(features@.map_values(|f: String| f@)
                =~= Seq::<Seq<char>>::empty());
            return features;
        }
        match variant {
            NixVariant::Determinate => {}
            _ => {
                features.push("nix-command".to_owned());
                features.push("flakes".to_owned());
            }
        }
        assert(features@.map_values(|f: String| f@)
            =~= plain_repl_features_spec(self.is_flake, *variant));
        features
    }
}

/// Feature requirements for nix-darwin repl commands.
#[derive(Debug)]
pub struct DarwinReplFeatures {
    /// Whether the repl target is a flake.
    pub is_flake: bool,
}

impl DarwinReplFeatures {
    /// The experimental features a nix-darwin repl requires.
    pub fn required_features(&self, variant: &NixVariant) -> (r: Vec<String>)
        ensures
            r@.map_values(|f: String| f@) == plain_repl_features_spec(self.is_flake, *variant),
    {
        let mut features: Vec<String> = Vec::new();
        if !self.is_flake {
            assert(features@.map_values(|f: String| f@)
                =~= Seq::<Seq<char>>::empty());
            return features;
        }
        match variant {
            NixVariant::Determinate => {}
            _ => {
                features.push("nix-command".to_owned());
                features.push("flakes".to_owned());
            }
        }
        assert(features@.map_values(|f: String| f@)
            =~= plain_repl_features_spec(self.is_flake, *variant));
        features
    }
}

} // verus!
