//! The generation and GC-root retention engine.
//!
//! A profile directory holds numbered generation symlinks named
//! `<profile>-<N>-link`.  This module parses such names, applies the dual
//! retention policy (keep the newest `keep` generations, and keep anything
//! modified within the last `keep_since` seconds), classifies automatic
//! GC roots, and turns the tagged result into a reviewable plan and a list
//! of actions.  All filesystem reads and writes stay with the caller, which
//! hands directory listings in and carries deletions out.

use vstd::prelude::*;
use vstd::seq_lib::*;
use vstd::string::StrSliceExecFns;

use crate::text::{
    base_name_spec, char_is_digit, concat3, contains_seq, dec_digits, is_ascii_digit,
    matches_at, parent_spec, parse_u64, parse_u64_spec, split_last_slash, str_contains,
    u64_to_string,
};

verus! {

/// The suffix every generation link name carries.
pub open spec fn link_suffix() -> Seq<char> {
    seq!['-', 'l', 'i', 'n', 'k']
}

/// Start of the maximal trailing digit run of `s` (equal to `s.len()` when
/// the last character is not a digit).
pub open spec fn digit_run_start(s: Seq<char>) -> int
    decreases s.len(),
{
    if s.len() == 0 {
        0
    } else if is_ascii_digit(s.last()) {
        digit_run_start(s.drop_last())
    } else {
        s.len() as int
    }
}

/// Is the character at `i` a decimal digit?
fn digit_at(s: &str, i: usize) -> (r: bool)
    requires
        i < s@.len(),
    ensures
        r == is_ascii_digit(s@[i as int]),
{
    char_is_digit(s.get_char(i))
}

/// How a name of the shape `<stem>-<digits>-link` decomposes, if it does:
/// the digits are the maximal digit run just before the `-link` suffix, and
/// a `-` must separate them from the stem.
pub open spec fn gen_link_match(name: Seq<char>) -> Option<(Seq<char>, Seq<char>)> {
    if name.len() >= 5 && name.subrange(name.len() - 5, name.len() as int) == link_suffix() {
        let body = name.subrange(0, name.len() - 5);
        let ds = digit_run_start(body);
        if 1 <= ds && ds < body.len() && body[ds - 1] == '-' {
            Some((body.subrange(0, ds - 1), body.subrange(ds, body.len() as int)))
        } else {
            None
        }
    } else {
        None
    }
}

/// Decompose a generation link name into its stem and its digit run.
pub fn gen_link_parts(name: &str) -> (r: Option<(String, String)>)
    ensures
        match gen_link_match(name@) {
            Some(g) => r is Some && r.unwrap().0@ == g.0 && r.unwrap().1@ == g.1,
            None => r is None,
        },
{
    proof {
        reveal_strlit("-link");
    }
    let n = name.unicode_len();
    if n < 5 {
        return None;
    }
    assert("-link"@ =~= link_suffix());
    if !matches_at(name, "-link", n - 5) {
        return None;
    }
    assert(name@.subrange(n - 5, n as int) == link_suffix());
    let ghost body = name@.subrange(0, n - 5);
    assert(forall|i: int| 0 <= i < n - 5 ==> body[i] == name@[i]);
    // scan backwards over the digit run of the body
    let mut ds: usize = n - 5;
    proof {
        assert(body.subrange(0, ds as int) =~= body);
    }
    while ds > 0 && digit_at(name, ds - 1)
        invariant
            0 <= ds <= n - 5,
            n == name@.len() && n >= 5,
            body == name@.subrange(0, n - 5),
            digit_run_start(body) == digit_run_start(body.subrange(0, ds as int)),
        decreases ds,
    {
        let ghost pre = body.subrange(0, ds as int);
        assert(pre.last() == body[ds - 1] && body[ds - 1] == name@[ds - 1]);
        assert(pre.drop_last() =~= body.subrange(0, ds - 1));
        ds = ds - 1;
    }
    proof {
        let pre = body.subrange(0, ds as int);
        if ds == 0 {
            assert(pre =~= Seq::<char>::empty());
            assert(digit_run_start(body) == 0);
        } else {
            assert(pre.last() == name@[ds - 1]);
            assert(!is_ascii_digit(pre.last()));
            assert(digit_run_start(pre) == ds);
        }
    }
    assert(digit_run_start(body) == ds);
    if ds == n - 5 {
        // no digits right before the suffix
        return None;
    }
    if ds == 0 {
        // digits reach the start of the name: no stem and no separator
        return None;
    }
    if name.get_char(ds - 1) != '-' {
        assert(body[ds - 1] != '-');
        return None;
    }
    let stem = name.substring_char(0, ds - 1).to_owned();
    let digits = name.substring_char(ds, n - 5).to_owned();
    proof {
        assert(body.subrange(0, ds - 1) =~= name@.subrange(0, ds - 1));
        assert(body.subrange(ds as int, body.len() as int) =~= name@.subrange(ds as int, n - 5));
    }
    Some((stem, digits))
}

/// One directory entry, as the caller read it: the entry's own path and,
/// when the entry is a symlink, the path it points at.
pub struct LinkEntry {
    /// Full path of the entry inside the directory that was listed.
    pub path: String,
    /// Where the entry's symlink points, when it is one.
    pub target: Option<String>,
}

/// Whether one directory entry looks like a profile: it is a symlink whose
/// target's name has the generation link shape.
pub open spec fn entry_is_profile(e: LinkEntry) -> bool {
    match e.target {
        Some(t) => gen_link_match(base_name_spec(t@)) is Some,
        None => false,
    }
}

/// The path of a profile entry, or nothing.
pub open spec fn profile_path_of(e: LinkEntry) -> Option<Seq<char>> {
    if entry_is_profile(e) {
        Some(e.path@)
    } else {
        None
    }
}

/// Keep the entries of a profiles directory that look like profiles: the
/// symlinks whose target is named like a generation link.
pub fn profiles_in_dir(entries: &Vec<LinkEntry>) -> (r: Vec<String>)
    ensures
        r@.map_values(|p: String| p@) == entries@.filter_map(|e: LinkEntry| profile_path_of(e)),
{
    let mut res: Vec<String> = Vec::new();
    let mut i: usize = 0;
    proof {
        assert(entries@.take(0).filter_map(|e: LinkEntry| profile_path_of(e))
            =~= Seq::<Seq<char>>::empty());
    }
    while i < entries.len()
        invariant
            0 <= i <= entries@.len(),
            res@.map_values(|p: String| p@)
                == entries@.take(i as int).filter_map(|e: LinkEntry| profile_path_of(e)),
        decreases entries@.len() - i,
    {
        let ghost before = res@.map_values(|p: String| p@);
        let e = &entries[i];
        let is_profile = match &e.target {
            Some(t) => {
                let (_, nm) = split_last_slash(t.as_str());
                gen_link_parts(nm.as_str()).is_some()
            }
            None => false,
        };
        assert(is_profile == entry_is_profile(entries@[i as int]));
        if is_profile {
            res.push(e.path.clone());
            assert(res@.map_values(|p: String| p@)
                =~= before + seq![entries@[i as int].path@]);
        }
        proof {
            entries@.lemma_filter_map_take_succ(|e: LinkEntry| profile_path_of(e), i as int);
        }
        i = i + 1;
    }
    proof {
        assert(entries@.take(entries@.len() as int) =~= entries@);
    }
    res
}

/// Why a cleanup computation could not proceed.
#[derive(Clone, Copy, Debug, PartialEq, Eq, Structural)]
pub enum CleanError {
    /// The requested profile path has no final name segment.
    EmptyProfileName,
    /// The user rejected the presented plan.
    UserRejected,
}

/// An entry of a profile's parent directory: the entry's file name and the
/// symlink's own modification time in seconds since the epoch, when the
/// caller could read one.
#[derive(Debug, Clone)]
pub struct DirEntry {
    /// File name of the entry, without any directory part.
    pub name: String,
    /// Modification time of the symlink itself, if it could be read.
    pub last_modified: Option<u64>,
}

/// One generation of a profile: a numbered symlink into the store.
#[derive(Debug)]
pub struct Generation {
    /// The number extracted from the link name.
    pub number: u64,
    /// Modification time of the symlink itself, in seconds since the epoch;
    /// `None` when no timestamp could be read.
    pub last_modified: Option<u64>,
    /// Full path of the symlink.
    pub path: String,
}

impl Generation {
    /// The mathematical content of a generation.
    pub open spec fn model(self) -> (u64, Option<u64>, Seq<char>) {
        (self.number, self.last_modified, self.path@)
    }
}

impl Clone for Generation {
    fn clone(&self) -> (r: Self)
        ensures
            r == *self,
    {
        Generation {
            number: self.number,
            last_modified: self.last_modified,
            path: self.path.clone(),
        }
    }
}

/// A generation together with its retention tag; `remove` is `true` while
/// the generation is scheduled for removal.
#[derive(Debug)]
pub struct TaggedGeneration {
    /// The generation itself.
    pub generation: Generation,
    /// `true` means scheduled for removal, `false` means retained.
    pub remove: bool,
}

impl Clone for TaggedGeneration {
    fn clone(&self) -> (r: Self)
        ensures
            r == *self,
    {
        TaggedGeneration { generation: self.generation.clone(), remove: self.remove }
    }
}

/// Entries ordered by generation number, oldest first.
pub open spec fn sorted_by_number(s: Seq<TaggedGeneration>) -> bool {
    forall|i: int, j: int|
        0 <= i < j < s.len() ==> #[trigger] s[i].generation.number <= #[trigger] s[j].generation.number
}

/// A profile's generations with their retention tags, ordered by number.
#[derive(Debug)]
pub struct GenerationsTagged {
    /// The tagged generations, oldest first.
    pub entries: Vec<TaggedGeneration>,
}

impl GenerationsTagged {
    /// Invariant: the entries are sorted by generation number.
    pub open spec fn well_formed(self) -> bool {
        sorted_by_number(self.entries@)
    }

    /// The generations' mathematical content, in entry order.
    pub open spec fn models(self) -> Seq<(u64, Option<u64>, Seq<char>)> {
        self.entries@.map_values(|t: TaggedGeneration| t.generation.model())
    }
}

/// The age rule: an entry is young enough to keep when its modification
/// time lies within `keep_since` seconds of `now`.  An unknown timestamp
/// and a timestamp in the future (a clock anomaly) both count as retained:
/// when the age of an entry cannot be trusted, the engine fails safe and
/// keeps it.
pub open spec fn retained_by_age(lm: Option<u64>, keep_since: u64, now: u64) -> bool {
    match lm {
        None => true,
        Some(t) => t > now || now - t <= keep_since,
    }
}

/// Executable form of the age rule.
pub fn check_retained_by_age(lm: Option<u64>, keep_since: u64, now: u64) -> (r: bool)
    ensures
        r == retained_by_age(lm, keep_since, now),
{
    match lm {
        None => true,
        Some(t) => t > now || now - t <= keep_since,
    }
}

/// The combined retention decision for the entry at position `i` of `n`:
/// it stays scheduled for removal only when it already was, it is not young
/// enough for the age rule, and it is not among the newest `keep` entries.
pub open spec fn retention_decision(
    old_remove: bool,
    lm: Option<u64>,
    i: int,
    n: int,
    keep: u32,
    keep_since: u64,
    now: u64,
) -> bool {
    old_remove && !retained_by_age(lm, keep_since, now) && !(i + keep >= n)
}

/// Apply the dual retention policy to a tagged generation list: the age
/// pass retains everything modified within `keep_since` seconds of `now`,
/// and the count pass retains the newest `keep` entries.  Tags only ever
/// move from "remove" toward "retain".
pub fn apply_retention(gens: &mut GenerationsTagged, keep: u32, keep_since: u64, now: u64)
    ensures
        final(gens).entries@.len() == old(gens).entries@.len(),
        forall|i: int|
            0 <= i < final(gens).entries@.len()
                ==> #[trigger] final(gens).entries@[i].generation == old(gens).entries@[i].generation,
        forall|i: int|
            0 <= i < final(gens).entries@.len()
                ==> #[trigger] final(gens).entries@[i].remove == retention_decision(
                    old(gens).entries@[i].remove,
                    old(gens).entries@[i].generation.last_modified,
                    i,
                    final(gens).entries@.len() as int,
                    keep,
                    keep_since,
                    now,
                ),
        old(gens).well_formed() ==> final(gens).well_formed(),
{
    let n = gens.entries.len();
    let mut i: usize = 0;
    while i < n
        invariant
            0 <= i <= n,
            n == gens.entries@.len(),
            n == old(gens).entries@.len(),
            forall|j: int| i <= j < n ==> gens.entries@[j] == old(gens).entries@[j],
            forall|j: int|
                0 <= j < i
                    ==> #[trigger] gens.entries@[j].generation
                        == old(gens).entries@[j].generation,
            forall|j: int|
                0 <= j < i
                    ==> #[trigger] gens.entries@[j].remove == retention_decision(
                        old(gens).entries@[j].remove,
                        old(gens).entries@[j].generation.last_modified,
                        j,
                        n as int,
                        keep,
                        keep_since,
                        now,
                    ),
        decreases n - i,
    {
        let young = check_retained_by_age(gens.entries[i].generation.last_modified, keep_since, now);
        let in_count_window = (keep as usize) >= n - i;
        let new_remove = gens.entries[i].remove && !young && !in_count_window;
        let g = gens.entries[i].generation.clone();
        gens.entries.set(i, TaggedGeneration { generation: g, remove: new_remove });
        i = i + 1;
    }
}

/// Insert an entry into a number-sorted list, keeping it sorted.
fn insert_sorted(entries: &mut Vec<TaggedGeneration>, t: TaggedGeneration)
    requires
        sorted_by_number(old(entries)@),
    ensures
        sorted_by_number(final(entries)@),
        exists|pos: int|
            0 <= pos <= old(entries)@.len()
                && final(entries)@ == #[trigger] old(entries)@.insert(pos, t),
{
    let mut pos: usize = 0;
    while pos < entries.len() && entries[pos].generation.number <= t.generation.number
        invariant
            0 <= pos <= entries@.len(),
            entries@ == old(entries)@,
            forall|j: int|
                0 <= j < pos ==> #[trigger] entries@[j].generation.number <= t.generation.number,
        decreases entries@.len() - pos,
    {
        pos = pos + 1;
    }
    let ghost before = entries@;
    let ghost p = pos as int;
    entries.insert(pos, t);
    proof {
        assert(entries@ == before.insert(p, t));
        assert forall|i: int, j: int| 0 <= i < j < entries@.len() implies
            entries@[i].generation.number <= entries@[j].generation.number by {
            if i < p && j < p {
            } else if i < p && j == p {
            } else if i < p && j > p {
            } else if i == p && j > p {
                assert(entries@[j] == before[j - 1]);
                assert(before[j - 1].generation.number >= before[p].generation.number);
            } else {
                assert(entries@[i] == before[i - 1] && entries@[j] == before[j - 1]);
            }
        }
    }
}

/// What one directory entry contributes to a profile's generation set: its
/// number, timestamp and full path, provided its name has the generation
/// link shape, its stem is the profile's name, and its digits fit a `u64`.
pub open spec fn gen_of_entry(
    parent: Seq<char>,
    pname: Seq<char>,
    e: DirEntry,
) -> Option<(u64, Option<u64>, Seq<char>)> {
    match gen_link_match(e.name@) {
        Some(g) => if g.0 == pname && parse_u64_spec(g.1) is Some {
            Some((parse_u64_spec(g.1).unwrap(), e.last_modified, parent + seq!['/'] + e.name@))
        } else {
            None
        },
        None => None,
    }
}

/// The generations of `profile` among `entries`, in directory order.
pub open spec fn scanned_generations(
    profile: Seq<char>,
    entries: Seq<DirEntry>,
) -> Seq<(u64, Option<u64>, Seq<char>)> {
    entries.filter_map(
        |e: DirEntry| gen_of_entry(parent_spec(profile), base_name_spec(profile), e),
    )
}

/// What a correctly scanned-and-tagged generation set for one profile
/// looks like: sorted by number, holding exactly the generations the
/// directory listing yields, with every tag decided by the dual retention
/// policy starting from "remove".
pub open spec fn tagged_for_profile(
    g: GenerationsTagged,
    profile: Seq<char>,
    entries: Seq<DirEntry>,
    keep: u32,
    keep_since: u64,
    now: u64,
) -> bool {
    &&& g.well_formed()
    &&& g.models().to_multiset() == scanned_generations(profile, entries).to_multiset()
    &&& forall|i: int|
        0 <= i < g.entries@.len()
            ==> (#[trigger] g.entries@[i]).remove == retention_decision(
                true,
                g.entries@[i].generation.last_modified,
                i,
                g.entries@.len() as int,
                keep,
                keep_since,
                now,
            )
}

/// Scan one profile's parent directory and tag every generation of that
/// profile: exactly the entries named `<profile name>-<digits>-link` are
/// kept (entries whose digits overflow a `u64` are skipped), and the dual
/// retention policy then decides every tag.  Fails only when the profile
/// path itself has no name segment.
pub fn cleanable_generations(
    profile: &str,
    keep: u32,
    keep_since: u64,
    now: u64,
    entries: &Vec<DirEntry>,
) -> (r: Result<GenerationsTagged, CleanError>)
    ensures
        match r {
            Err(e) => e == CleanError::EmptyProfileName && base_name_spec(profile@).len() == 0,
            Ok(g) => base_name_spec(profile@).len() > 0
                && tagged_for_profile(g, profile@, entries@, keep, keep_since, now),
        },
{
    broadcast use vstd::seq_lib::to_multiset_insert;
    broadcast use vstd::seq_lib::to_multiset_build;

    let (parent, pname) = split_last_slash(profile);
    if pname.unicode_len() == 0 {
        return Err(CleanError::EmptyProfileName);
    }
    let mut acc: Vec<TaggedGeneration> = Vec::new();
    let mut i: usize = 0;
    proof {
        assert(entries@.take(0)
            =~= Seq::<DirEntry>::empty());
        assert(scanned_generations(profile@, entries@.take(0))
            =~= Seq::<(u64, Option<u64>, Seq<char>)>::empty());
        assert(acc@.map_values(|t: TaggedGeneration| t.generation.model())
            =~= Seq::<(u64, Option<u64>, Seq<char>)>::empty());
    }
    while i < entries.len()
        invariant
            0 <= i <= entries@.len(),
            parent@ == parent_spec(profile@),
            pname@ == base_name_spec(profile@),
            pname@.len() > 0,
            sorted_by_number(acc@),
            forall|j: int| 0 <= j < acc@.len() ==> #[trigger] acc@[j].remove,
            acc@.map_values(|t: TaggedGeneration| t.generation.model()).to_multiset()
                == scanned_generations(profile@, entries@.take(i as int)).to_multiset(),
        decreases entries@.len() - i,
    {
        let ghost fm = |e: DirEntry|
            gen_of_entry(parent_spec(profile@), base_name_spec(profile@), e);
        let ghost old_acc = acc@;
        let ghost old_map = acc@.map_values(|t: TaggedGeneration| t.generation.model());
        let e = &entries[i];
        let mut added: bool = false;
        let ghost mut tm = (0u64, None::<u64>, Seq::<char>::empty());
        if let Some((stem, digits)) = gen_link_parts(e.name.as_str()) {
            if crate::text::str_eq(stem.as_str(), pname.as_str()) {
                if let Some(num) = parse_u64(digits.as_str()) {
                    proof {
                        reveal_strlit("/");
                        assert("/"@ =~= seq!['/']);
                    }
                    let path = concat3(parent.as_str(), "/", e.name.as_str());
                    let t = TaggedGeneration {
                        generation: Generation {
                            number: num,
                            last_modified: e.last_modified,
                            path,
                        },
                        remove: true,
                    };
                    proof {
                        tm = t.generation.model();
                    }
                    assert(fm(entries@[i as int]) == Some(tm));
                    insert_sorted(&mut acc, t);
                    proof {
                        let pos = choose|pos: int|
                            0 <= pos <= old_acc.len() && acc@ == #[trigger] old_acc.insert(pos, t);
                        assert(acc@.map_values(|t2: TaggedGeneration| t2.generation.model())
                            =~= old_map.insert(pos, tm));
                        to_multiset_insert(old_map, pos, tm);
                        assert(acc@.map_values(|t2: TaggedGeneration| t2.generation.model())
                            .to_multiset() == old_map.to_multiset().insert(tm));
                    }
                    added = true;
                } else {
                    assert(fm(entries@[i as int]) is None);
                }
            } else {
                assert(fm(entries@[i as int]) is None);
            }
        } else {
            assert(fm(entries@[i as int]) is None);
        }
        proof {
            entries@.lemma_filter_map_take_succ(fm, i as int);
            let prev = entries@.take(i as int).filter_map(fm);
            if added {
                assert(entries@.take(i + 1).filter_map(fm) =~= prev.push(tm));
                to_multiset_build(prev, tm);
                assert(acc@.map_values(|t2: TaggedGeneration| t2.generation.model()).to_multiset()
                    == prev.to_multiset().insert(tm));
            } else {
                assert(entries@.take(i + 1).filter_map(fm) =~= prev);
            }
            assert(scanned_generations(profile@, entries@.take(i + 1))
                == entries@.take(i + 1).filter_map(fm));
        }
        i = i + 1;
    }
    proof {
        assert(entries@.take(entries@.len() as int) =~= entries@);
    }
    let ghost pre = acc@;
    let mut g = GenerationsTagged { entries: acc };
    apply_retention(&mut g, keep, keep_since, now);
    proof {
        assert(g.models() =~= pre.map_values(|t: TaggedGeneration| t.generation.model()));
    }
    Ok(g)
}

/// One position where the per-directory environment cache pattern matches:
/// a `/`, any character but a newline, then `direnv/`.
pub open spec fn direnv_match_at(s: Seq<char>, i: int) -> bool {
    &&& 0 <= i
    &&& i + 9 <= s.len()
    &&& s[i] == '/'
    &&& s[i + 1] != '\n'
    &&& s.subrange(i + 2, i + 9) == seq!['d', 'i', 'r', 'e', 'n', 'v', '/']
}

/// A destination the engine tracks as a GC root: its path either contains
/// the per-directory environment cache pattern or the build-result pattern
/// `result` somewhere.
pub open spec fn is_tracked_root(s: Seq<char>) -> bool {
    (exists|i: int| direnv_match_at(s, i)) || contains_seq(s, seq!['r', 'e', 's', 'u', 'l', 't'])
}

/// Classify a GC-root destination against the engine's path patterns.
pub fn classify_gcroot(destination: &str) -> (r: bool)
    ensures
        r == is_tracked_root(destination@),
{
    proof {
        reveal_strlit("direnv/");
        reveal_strlit("result");
    }
    assert("direnv/"@ =~= seq!['d', 'i', 'r', 'e', 'n', 'v', '/']);
    assert("result"@ =~= seq!['r', 'e', 's', 'u', 'l', 't']);
    let n = destination.unicode_len();
    if n >= 9 {
        let mut i: usize = 0;
        while i <= n - 9
            invariant
                0 <= i <= n - 9 + 1,
                9 <= n,
                n == destination@.len(),
                forall|j: int| 0 <= j < i ==> !direnv_match_at(destination@, j),
            decreases n - i,
        {
            proof {
                reveal_strlit("direnv/");
            }
            assert("direnv/"@ =~= seq!['d', 'i', 'r', 'e', 'n', 'v', '/']);
            if destination.get_char(i) == '/' && destination.get_char(i + 1) != '\n'
                && matches_at(destination, "direnv/", i + 2) {
                assert(direnv_match_at(destination@, i as int));
                return true;
            }
            i = i + 1;
        }
        assert(forall|j: int| !direnv_match_at(destination@, j));
    } else {
        assert(forall|j: int| !direnv_match_at(destination@, j));
    }
    str_contains(destination, "result")
}

/// An automatic GC root, as the caller resolved it: the destination its
/// symlink points at, the outcome of the access probe on that destination,
/// and the destination's own modification time when it could be read.
pub struct GcRootEntry {
    /// The resolved destination path.
    pub destination: String,
    /// Whether the destination exists and is writable, probed without
    /// following a further symlink hop.
    pub writable_and_exists: bool,
    /// Modification time of the destination's own link metadata, in seconds
    /// since the epoch.
    pub last_modified: Option<u64>,
}

/// What one root contributes to the tag map: tracked, accessible roots with
/// a trustworthy timestamp are tagged by the age rule alone; all others are
/// invisible to the plan.  A timestamp in the future or none at all makes
/// the root invisible rather than deletable: the engine never schedules a
/// removal it cannot date.
pub open spec fn gcroot_tag_of(e: GcRootEntry, keep_since: u64, now: u64) -> Option<(Seq<char>, bool)> {
    if is_tracked_root(e.destination@) && e.writable_and_exists {
        match e.last_modified {
            Some(t) => if t > now {
                None
            } else {
                Some((e.destination@, !(now - t <= keep_since)))
            },
            None => None,
        }
    } else {
        None
    }
}

/// The tag map over a sequence of discovered roots, in discovery order.
pub open spec fn tagged_gcroots(roots: Seq<GcRootEntry>, keep_since: u64, now: u64) -> Seq<(Seq<char>, bool)> {
    roots.filter_map(|e: GcRootEntry| gcroot_tag_of(e, keep_since, now))
}

/// Tag the discovered automatic GC roots: exactly the tracked, accessible,
/// dateable destinations appear, and each is scheduled for removal unless
/// it was modified within `keep_since` seconds of `now`.
pub fn tag_gcroots(roots: &Vec<GcRootEntry>, keep_since: u64, now: u64) -> (r: Vec<(String, bool)>)
    ensures
        r@.map_values(|p: (String, bool)| (p.0@, p.1)) == tagged_gcroots(roots@, keep_since, now),
{
    let ghost fm = |e: GcRootEntry| gcroot_tag_of(e, keep_since, now);
    let mut res: Vec<(String, bool)> = Vec::new();
    let mut i: usize = 0;
    proof {
        assert(roots@.take(0).filter_map(fm) =~= Seq::<(Seq<char>, bool)>::empty());
        assert(res@.map_values(|p: (String, bool)| (p.0@, p.1))
            =~= Seq::<(Seq<char>, bool)>::empty());
    }
    while i < roots.len()
        invariant
            0 <= i <= roots@.len(),
            fm == (|e: GcRootEntry| gcroot_tag_of(e, keep_since, now)),
            res@.map_values(|p: (String, bool)| (p.0@, p.1))
                == roots@.take(i as int).filter_map(fm),
        decreases roots@.len() - i,
    {
        let ghost before = res@.map_values(|p: (String, bool)| (p.0@, p.1));
        let e = &roots[i];
        if e.writable_and_exists && classify_gcroot(e.destination.as_str()) {
            match e.last_modified {
                Some(t) => {
                    if t <= now {
                        let remove = !(now - t <= keep_since);
                        res.push((e.destination.clone(), remove));
                        assert(res@.map_values(|p: (String, bool)| (p.0@, p.1))
                            =~= before + seq![(e.destination@, remove)]);
                        assert(fm(roots@[i as int])
                            == Some((e.destination@, remove)));
                    } else {
                        assert(fm(roots@[i as int]) is None);
                    }
                }
                None => {
                    assert(fm(roots@[i as int]) is None);
                }
            }
        } else {
            assert(fm(roots@[i as int]) is None);
        }
        proof {
            roots@.lemma_filter_map_take_succ(fm, i as int);
        }
        i = i + 1;
    }
    proof {
        assert(roots@.take(roots@.len() as int) =~= roots@);
    }
    res
}

/// The path of a probed candidate directory, or nothing when the probe
/// said it does not exist.
pub open spec fn existing_dir_of(pr: (String, bool)) -> Option<Seq<char>> {
    if pr.1 {
        Some(pr.0@)
    } else {
        None
    }
}

/// Keep the paths whose probe said "directory", in order.  The caller pairs
/// each candidate path with the result of its existence check.
pub fn filter_existing_dirs(paths: &Vec<(String, bool)>) -> (r: Vec<String>)
    ensures
        r@.map_values(|p: String| p@)
            == paths@.filter_map(|pr: (String, bool)| existing_dir_of(pr)),
{
    let mut res: Vec<String> = Vec::new();
    let mut i: usize = 0;
    proof {
        assert(paths@.take(0).filter_map(|pr: (String, bool)| existing_dir_of(pr))
            =~= Seq::<Seq<char>>::empty());
    }
    while i < paths.len()
        invariant
            0 <= i <= paths@.len(),
            res@.map_values(|p: String| p@)
                == paths@.take(i as int).filter_map(|pr: (String, bool)| existing_dir_of(pr)),
        decreases paths@.len() - i,
    {
        let ghost before = res@.map_values(|p: String| p@);
        if paths[i].1 {
            res.push(paths[i].0.clone());
            assert(res@.map_values(|p: String| p@)
                =~= before + seq![paths@[i as int].0@]);
        }
        proof {
            paths@.lemma_filter_map_take_succ(|pr: (String, bool)| existing_dir_of(pr), i as int);
        }
        i = i + 1;
    }
    proof {
        assert(paths@.take(paths@.len() as int) =~= paths@);
    }
    res
}


/// What the caller read for one requested profile: the profile path and
/// the entries of the profile's parent directory.
pub struct ProfileListing {
    /// The profile path.
    pub profile: String,
    /// The entries of the profile's parent directory.
    pub entries: Vec<DirEntry>,
}

/// One profile with its tagged generations.
pub struct ProfilePlan {
    /// The profile path.
    pub path: String,
    /// The profile's generations with their tags.
    pub generations: GenerationsTagged,
}

/// The fully computed, reviewable set of retain/remove decisions.  A plan
/// is computed once, presented, and only then acted on; it is never
/// mutated afterwards.
pub struct Plan {
    /// Tagged generations, one entry per requested profile.
    pub profiles: Vec<ProfilePlan>,
    /// Tagged GC-root destinations, in discovery order.
    pub gcroots: Vec<(String, bool)>,
}

impl Plan {
    /// Every profile's generation list is sorted.
    pub open spec fn well_formed(self) -> bool {
        forall|i: int|
            0 <= i < self.profiles@.len()
                ==> (#[trigger] self.profiles@[i]).generations.well_formed()
    }
}

/// The caller-supplied cleanup policy and switches.
#[derive(Debug, Clone)]
pub struct CleanArgs {
    /// At least keep this number of generations.
    pub keep: u32,
    /// At least keep generations and GC roots modified within this many
    /// seconds of the reference time.
    pub keep_since: u64,
    /// Only print actions, without performing them.
    pub dry: bool,
    /// Ask for confirmation before acting.
    pub ask: bool,
    /// Do not run the store collector afterwards.
    pub no_gc: bool,
    /// Do not scan or clean GC roots.
    pub no_gcroots: bool,
    /// Run the store optimiser after collection.
    pub optimise: bool,
    /// Byte-size bound forwarded verbatim to the collector.
    pub max: Option<String>,
}

/// Compute the whole plan from the scanned inputs: tag every requested
/// profile's generations, and tag the GC roots when asked to.  Fails only
/// when a requested profile path has no name segment.
pub fn compute_plan(
    profiles: &Vec<ProfileListing>,
    roots: &Vec<GcRootEntry>,
    include_gcroots: bool,
    keep: u32,
    keep_since: u64,
    now: u64,
) -> (r: Result<Plan, CleanError>)
    ensures
        match r {
            Ok(plan) => {
                &&& plan.well_formed()
                &&& plan.profiles@.len() == profiles@.len()
                &&& forall|i: int|
                    0 <= i < profiles@.len()
                        ==> (#[trigger] plan.profiles@[i]).path@ == profiles@[i].profile@
                            && tagged_for_profile(
                                plan.profiles@[i].generations,
                                profiles@[i].profile@,
                                profiles@[i].entries@,
                                keep,
                                keep_since,
                                now,
                            )
                &&& plan.gcroots@.map_values(|pr: (String, bool)| (pr.0@, pr.1))
                    == if include_gcroots {
                        tagged_gcroots(roots@, keep_since, now)
                    } else {
                        Seq::<(Seq<char>, bool)>::empty()
                    }
            },
            Err(e) => e == CleanError::EmptyProfileName && exists|i: int|
                0 <= i < profiles@.len()
                    && base_name_spec((#[trigger] profiles@[i]).profile@).len() == 0,
        },
{
    let mut tagged: Vec<ProfilePlan> = Vec::new();
    let mut i: usize = 0;
    while i < profiles.len()
        invariant
            0 <= i <= profiles@.len(),
            tagged@.len() == i,
            forall|j: int|
                0 <= j < i
                    ==> (#[trigger] tagged@[j]).path@ == profiles@[j].profile@
                        && tagged_for_profile(
                            tagged@[j].generations,
                            profiles@[j].profile@,
                            profiles@[j].entries@,
                            keep,
                            keep_since,
                            now,
                        ),
        decreases profiles@.len() - i,
    {
        let listing = &profiles[i];
        match cleanable_generations(listing.profile.as_str(), keep, keep_since, now,
            &listing.entries) {
            Ok(g) => {
                tagged.push(ProfilePlan { path: listing.profile.clone(), generations: g });
            }
            Err(e) => {
                return Err(e);
            }
        }
        i = i + 1;
    }
    let gcroots = if include_gcroots {
        tag_gcroots(roots, keep_since, now)
    } else {
        let empty_roots: Vec<(String, bool)> = Vec::new();
        proof {
            assert(empty_roots@.map_values(|pr: (String, bool)| (pr.0@, pr.1))
                =~= Seq::<(Seq<char>, bool)>::empty());
        }
        empty_roots
    };
    Ok(Plan { profiles: tagged, gcroots })
}

/// Paths of one profile's generations scheduled for removal, newest first.
pub open spec fn profile_removals(g: GenerationsTagged) -> Seq<Seq<char>> {
    g.entries@.reverse().filter_map(
        |t: TaggedGeneration| if t.remove {
            Some(t.generation.path@)
        } else {
            None
        },
    )
}

/// GC-root destinations scheduled for removal, in map order.
pub open spec fn gcroot_removals(gs: Seq<(String, bool)>) -> Seq<Seq<char>> {
    gs.filter_map(
        |pr: (String, bool)| if pr.1 {
            Some(pr.0@)
        } else {
            None
        },
    )
}

/// Removal paths of the profiles from position `i` on.
pub open spec fn profiles_removals(ps: Seq<ProfilePlan>, i: int) -> Seq<Seq<char>>
    decreases ps.len() - i,
{
    if i < 0 || i >= ps.len() {
        Seq::empty()
    } else {
        profile_removals(ps[i].generations) + profiles_removals(ps, i + 1)
    }
}

/// Every path the plan schedules for removal: first the GC roots, then each
/// profile's generations, newest first within a profile.
pub open spec fn plan_removals(plan: Plan) -> Seq<Seq<char>> {
    gcroot_removals(plan.gcroots@) + profiles_removals(plan.profiles@, 0)
}

/// Collect the paths the plan schedules for removal, in removal order.
pub fn removal_paths(plan: &Plan) -> (r: Vec<String>)
    ensures
        r@.map_values(|p: String| p@) == plan_removals(*plan),
{
    let ghost froot = |pr: (String, bool)| if pr.1 {
        Some(pr.0@)
    } else {
        None::<Seq<char>>
    };
    let ghost fgen = |t: TaggedGeneration| if t.remove {
        Some(t.generation.path@)
    } else {
        None::<Seq<char>>
    };
    let mut res: Vec<String> = Vec::new();
    let mut i: usize = 0;
    proof {
        assert(plan.gcroots@.take(0).filter_map(froot) =~= Seq::<Seq<char>>::empty());
        assert(res@.map_values(|p: String| p@) =~= Seq::<Seq<char>>::empty());
    }
    while i < plan.gcroots.len()
        invariant
            0 <= i <= plan.gcroots@.len(),
            froot == (|pr: (String, bool)| if pr.1 {
                Some(pr.0@)
            } else {
                None::<Seq<char>>
            }),
            res@.map_values(|p: String| p@) == plan.gcroots@.take(i as int).filter_map(froot),
        decreases plan.gcroots@.len() - i,
    {
        let ghost before = res@.map_values(|p: String| p@);
        if plan.gcroots[i].1 {
            res.push(plan.gcroots[i].0.clone());
            assert(res@.map_values(|p: String| p@)
                =~= before + seq![plan.gcroots@[i as int].0@]);
        }
        proof {
            plan.gcroots@.lemma_filter_map_take_succ(froot, i as int);
        }
        i = i + 1;
    }
    proof {
        assert(plan.gcroots@.take(plan.gcroots@.len() as int) =~= plan.gcroots@);
        assert(res@.map_values(|p: String| p@) == gcroot_removals(plan.gcroots@));
    }
    let mut pi: usize = 0;
    while pi < plan.profiles.len()
        invariant
            0 <= pi <= plan.profiles@.len(),
            fgen == (|t: TaggedGeneration| if t.remove {
                Some(t.generation.path@)
            } else {
                None::<Seq<char>>
            }),
            res@.map_values(|p: String| p@) + profiles_removals(plan.profiles@, pi as int)
                == plan_removals(*plan),
        decreases plan.profiles@.len() - pi,
    {
        let ghost outer_before = res@.map_values(|p: String| p@);
        let entries = &plan.profiles[pi].generations.entries;
        let ghost rev = entries@.reverse();
        let n = entries.len();
        let mut j: usize = 0;
        proof {
            assert(rev.take(0).filter_map(fgen) =~= Seq::<Seq<char>>::empty());
            assert(outer_before + rev.take(0).filter_map(fgen) =~= outer_before);
        }
        while j < n
            invariant
                0 <= j <= n,
                n == entries@.len(),
                rev == entries@.reverse(),
                fgen == (|t: TaggedGeneration| if t.remove {
                    Some(t.generation.path@)
                } else {
                    None::<Seq<char>>
                }),
                res@.map_values(|p: String| p@) == outer_before + rev.take(j as int).filter_map(fgen),
            decreases n - j,
        {
            let ghost before = res@.map_values(|p: String| p@);
            let idx = n - 1 - j;
            assert(rev[j as int] == entries@[idx as int]);
            if entries[idx].remove {
                res.push(entries[idx].generation.path.clone());
                assert(res@.map_values(|p: String| p@)
                    =~= before + seq![entries@[idx as int].generation.path@]);
            }
            proof {
                rev.lemma_filter_map_take_succ(fgen, j as int);
            }
            assert(res@.map_values(|p: String| p@)
                =~= outer_before + rev.take(j + 1).filter_map(fgen));
            j = j + 1;
        }
        proof {
            assert(rev.take(rev.len() as int) =~= rev);
            assert(res@.map_values(|p: String| p@)
                =~= outer_before + profile_removals(plan.profiles@[pi as int].generations));
            assert((outer_before + profile_removals(plan.profiles@[pi as int].generations))
                + profiles_removals(plan.profiles@, pi + 1)
                =~= outer_before + (profile_removals(plan.profiles@[pi as int].generations)
                    + profiles_removals(plan.profiles@, pi + 1)));
        }
        pi = pi + 1;
    }
    res
}


/// One step of plan execution, in order.  Deletions are independent of one
/// another: the whole list is computed before any step runs, so a step's
/// failure cannot change which other steps are attempted.
#[derive(Debug)]
pub enum Action {
    /// Unlink one path.
    DeletePath {
        /// The path to unlink.
        path: String,
    },
    /// Run the store collector, optionally bounded by a byte-size argument;
    /// in a dry run the collector is only announced, never run.
    CollectGarbage {
        /// Byte-size bound forwarded verbatim to the collector.
        max: Option<String>,
        /// Whether this is a dry run.
        dry: bool,
    },
    /// Run the store optimiser.
    OptimiseStore {
        /// Whether this is a dry run.
        dry: bool,
    },
}

/// The mathematical content of an action.
pub enum ActionModel {
    /// Unlink one path.
    DeletePath { path: Seq<char> },
    /// Run the store collector.
    CollectGarbage { max: Option<Seq<char>>, dry: bool },
    /// Run the store optimiser.
    OptimiseStore { dry: bool },
}

/// View of an optional string.
pub open spec fn opt_view(o: Option<String>) -> Option<Seq<char>> {
    match o {
        Some(m) => Some(m@),
        None => None,
    }
}

/// View of an action.
pub open spec fn action_view(a: Action) -> ActionModel {
    match a {
        Action::DeletePath { path } => ActionModel::DeletePath { path: path@ },
        Action::CollectGarbage { max, dry } => ActionModel::CollectGarbage {
            max: opt_view(max),
            dry,
        },
        Action::OptimiseStore { dry } => ActionModel::OptimiseStore { dry },
    }
}

/// The actions a confirmed plan gives rise to: every removal (unless this
/// is a dry run), then the collector (unless suppressed), then the
/// optimiser (when requested).
pub open spec fn planned_actions(plan: Plan, args: CleanArgs) -> Seq<ActionModel> {
    (if !args.dry {
        plan_removals(plan).map_values(|p: Seq<char>| ActionModel::DeletePath { path: p })
    } else {
        Seq::<ActionModel>::empty()
    }) + (if !args.no_gc {
        seq![ActionModel::CollectGarbage { max: opt_view(args.max), dry: args.dry }]
    } else {
        Seq::<ActionModel>::empty()
    }) + (if args.optimise {
        seq![ActionModel::OptimiseStore { dry: args.dry }]
    } else {
        Seq::<ActionModel>::empty()
    })
}

/// Turn a computed plan into the list of actions to perform.  When the
/// plan needed confirmation and did not get it (`confirmed` is the answer
/// the caller collected, or `None` when it collected none), the whole run
/// is aborted before anything is mutated.
pub fn decide_actions(plan: &Plan, args: &CleanArgs, confirmed: Option<bool>) -> (r: Result<
    Vec<Action>,
    CleanError,
>)
    ensures
        args.ask && confirmed != Some(true)
            ==> r == Err::<Vec<Action>, CleanError>(CleanError::UserRejected),
        !(args.ask && confirmed != Some(true))
            ==> r is Ok && r.unwrap()@.map_values(|a: Action| action_view(a))
                == planned_actions(*plan, *args),
{
    if args.ask {
        match confirmed {
            Some(true) => {}
            _ => {
                return Err(CleanError::UserRejected);
            }
        }
    }
    let mut acts: Vec<Action> = Vec::new();
    let ghost fdel = |p: Seq<char>| ActionModel::DeletePath { path: p };
    if !args.dry {
        let paths = removal_paths(plan);
        let mut k: usize = 0;
        proof {
            assert(acts@.map_values(|a: Action| action_view(a))
                =~= plan_removals(*plan).map_values(fdel).take(0));
        }
        while k < paths.len()
            invariant
                0 <= k <= paths@.len(),
                paths@.map_values(|p: String| p@) == plan_removals(*plan),
                fdel == (|p: Seq<char>| ActionModel::DeletePath { path: p }),
                acts@.map_values(|a: Action| action_view(a))
                    == plan_removals(*plan).map_values(fdel).take(k as int),
            decreases paths@.len() - k,
        {
            let ghost before = acts@.map_values(|a: Action| action_view(a));
            acts.push(Action::DeletePath { path: paths[k].clone() });
            proof {
                assert(acts@.map_values(|a: Action| action_view(a))
                    =~= before.push(ActionModel::DeletePath { path: paths@[k as int]@ }));
                assert(plan_removals(*plan).map_values(fdel).take(k + 1)
                    =~= plan_removals(*plan).map_values(fdel).take(k as int).push(
                        fdel(plan_removals(*plan)[k as int])));
            }
            k = k + 1;
        }
        proof {
            assert(plan_removals(*plan).map_values(fdel).take(paths@.len() as int)
                =~= plan_removals(*plan).map_values(fdel));
        }
    }
    let ghost dels = acts@.map_values(|a: Action| action_view(a));
    proof {
        if !args.dry {
            assert(dels == plan_removals(*plan).map_values(fdel));
        } else {
            assert(dels =~= Seq::<ActionModel>::empty());
        }
    }
    if !args.no_gc {
        let max_arg = match &args.max {
            Some(m) => Some(m.clone()),
            None => None,
        };
        acts.push(Action::CollectGarbage { max: max_arg, dry: args.dry });
    }
    let ghost with_gc = acts@.map_values(|a: Action| action_view(a));
    proof {
        if !args.no_gc {
            assert(with_gc =~= dels
                + seq![ActionModel::CollectGarbage { max: opt_view(args.max), dry: args.dry }]);
        } else {
            assert(with_gc =~= dels + Seq::<ActionModel>::empty());
        }
    }
    if args.optimise {
        acts.push(Action::OptimiseStore { dry: args.dry });
    }
    proof {
        if args.optimise {
            assert(acts@.map_values(|a: Action| action_view(a))
                =~= with_gc + seq![ActionModel::OptimiseStore { dry: args.dry }]);
        } else {
            assert(acts@.map_values(|a: Action| action_view(a))
                =~= with_gc + Seq::<ActionModel>::empty());
        }
        assert(acts@.map_values(|a: Action| action_view(a)) =~= planned_actions(*plan, *args));
    }
    Ok(acts)
}


/// The entries one run leaves behind: exactly those it retained, in order.
pub open spec fn survivors(g: GenerationsTagged) -> Seq<TaggedGeneration> {
    g.entries@.filter(|t: TaggedGeneration| !t.remove)
}

proof fn lemma_filter_witness<A>(s: Seq<A>, p: spec_fn(A) -> bool, j: int)
    requires
        0 <= j < s.filter(p).len(),
    ensures
        exists|i: int|
            0 <= i < s.len() && s[i] == s.filter(p)[j] && p(#[trigger] s[i])
                && s.filter(p).len() - j <= s.len() - i,
    decreases s.len(),
{
    reveal(Seq::filter);
    broadcast use vstd::seq_lib::group_filter_ensures;

    if s.len() > 0 {
        let f = s.filter(p);
        let t = s.drop_last();
        let ft = t.filter(p);
        if p(s.last()) {
            assert(f == ft.push(s.last()));
            if j == f.len() - 1 {
                let i = s.len() - 1;
                assert(0 <= i < s.len() && s[i] == f[j] && p(s[i]) && f.len() - j <= s.len() - i);
            } else {
                lemma_filter_witness(t, p, j);
                let i = choose|i: int|
                    0 <= i < t.len() && t[i] == ft[j] && p(#[trigger] t[i])
                        && ft.len() - j <= t.len() - i;
                assert(s[i] == t[i] && f[j] == ft[j]);
                assert(0 <= i < s.len() && s[i] == f[j] && p(s[i]) && f.len() - j <= s.len() - i);
            }
        } else {
            assert(f == ft);
            lemma_filter_witness(t, p, j);
            let i = choose|i: int|
                0 <= i < t.len() && t[i] == ft[j] && p(#[trigger] t[i])
                    && ft.len() - j <= t.len() - i;
            assert(s[i] == t[i]);
            assert(0 <= i < s.len() && s[i] == f[j] && p(s[i]) && f.len() - j <= s.len() - i);
        }
    }
}

proof fn lemma_filter_map_all_none<A, B>(s: Seq<A>, f: spec_fn(A) -> Option<B>)
    requires
        forall|i: int| 0 <= i < s.len() ==> f(#[trigger] s[i]) is None,
    ensures
        s.filter_map(f) == Seq::<B>::empty(),
    decreases s.len(),
{
    if s.len() > 0 {
        let t = s.drop_last();
        assert(forall|i: int| 0 <= i < t.len() ==> t[i] == s[i]);
        lemma_filter_map_all_none(t, f);
        assert(f(s.last()) is None);
        assert(s.filter_map(f) =~= Seq::<B>::empty());
    } else {
        assert(s.filter_map(f) =~= Seq::<B>::empty());
    }
}

/// The law of idempotence: a second run of the engine, with the same
/// policy, the same reference time and no intervening external changes,
/// schedules nothing for removal.  `g` is the outcome of the first run;
/// `h` is any second-run outcome whose entries are exactly the survivors
/// of the first, in their retained order, with every tag again decided by
/// the policy from scratch.
pub proof fn lemma_retention_idempotent(
    g: GenerationsTagged,
    h: GenerationsTagged,
    keep: u32,
    keep_since: u64,
    now: u64,
)
    requires
        forall|i: int|
            0 <= i < g.entries@.len()
                ==> (#[trigger] g.entries@[i]).remove == retention_decision(
                    true,
                    g.entries@[i].generation.last_modified,
                    i,
                    g.entries@.len() as int,
                    keep,
                    keep_since,
                    now,
                ),
        h.entries@.len() == survivors(g).len(),
        forall|j: int|
            0 <= j < h.entries@.len()
                ==> (#[trigger] h.entries@[j]).generation == survivors(g)[j].generation,
        forall|j: int|
            0 <= j < h.entries@.len()
                ==> (#[trigger] h.entries@[j]).remove == retention_decision(
                    true,
                    h.entries@[j].generation.last_modified,
                    j,
                    h.entries@.len() as int,
                    keep,
                    keep_since,
                    now,
                ),
    ensures
        forall|j: int| 0 <= j < h.entries@.len() ==> !(#[trigger] h.entries@[j]).remove,
        profile_removals(h) == Seq::<Seq<char>>::empty(),
{
    let p = |t: TaggedGeneration| !t.remove;
    let surv = survivors(g);
    let n = g.entries@.len() as int;
    let m = h.entries@.len() as int;
    assert forall|j: int| 0 <= j < m implies !(#[trigger] h.entries@[j]).remove by {
        let lmj = h.entries@[j].generation.last_modified;
        if !retained_by_age(lmj, keep_since, now) {
            lemma_filter_witness(g.entries@, p, j);
            let i = choose|i: int|
                0 <= i < g.entries@.len() && g.entries@[i] == surv[j]
                    && p(#[trigger] g.entries@[i]) && surv.len() - j <= g.entries@.len() - i;
            assert(!g.entries@[i].remove);
            assert(g.entries@[i].generation == h.entries@[j].generation);
            assert(retained_by_age(lmj, keep_since, now) || i + keep >= n);
            assert(m - j <= n - i);
            assert(j + keep >= m);
        }
    }
    let fgen = |t: TaggedGeneration| if t.remove {
        Some(t.generation.path@)
    } else {
        None::<Seq<char>>
    };
    assert forall|k: int| 0 <= k < h.entries@.reverse().len()
        implies fgen(#[trigger] h.entries@.reverse()[k]) is None by {
        assert(h.entries@.reverse()[k] == h.entries@[m - 1 - k]);
    }
    lemma_filter_map_all_none(h.entries@.reverse(), fgen);
}

/// The law of idempotence for GC roots: a second scan over the roots the
/// first run retained, with the same policy, the same reference time and
/// no intervening external changes, schedules none of them for removal.
/// (Roots the first run removed are gone by then: their destinations fail
/// the access probe, so they are invisible to the second plan.)
pub proof fn lemma_gcroot_rescan_removes_nothing(
    roots: Seq<GcRootEntry>,
    rescanned: Seq<GcRootEntry>,
    keep_since: u64,
    now: u64,
)
    requires
        forall|j: int|
            0 <= j < rescanned.len() ==> exists|i: int|
                0 <= i < roots.len() && #[trigger] rescanned[j] == roots[i] && gcroot_tag_of(
                    roots[i],
                    keep_since,
                    now,
                ) == Some((roots[i].destination@, false)),
    ensures
        gcroot_removals_of_roots(rescanned, keep_since, now) == Seq::<Seq<char>>::empty(),
{
    let fm = |e: GcRootEntry| gcroot_tag_of(e, keep_since, now);
    let tagged = tagged_gcroots(rescanned, keep_since, now);
    let frem = |pr: (Seq<char>, bool)| if pr.1 {
        Some(pr.0)
    } else {
        None::<Seq<char>>
    };
    assert forall|k: int| 0 <= k < tagged.len() implies frem(#[trigger] tagged[k]) is None by {
        assert(tagged.contains(tagged[k]));
        rescanned.lemma_filter_map_contains(fm, tagged[k]);
        let e = choose|e: GcRootEntry| rescanned.contains(e) && fm(e) == Some(tagged[k]);
        let j = choose|j: int| 0 <= j < rescanned.len() && rescanned[j] == e;
        assert(gcroot_tag_of(rescanned[j], keep_since, now)
            == Some((rescanned[j].destination@, false)));
        assert(!tagged[k].1);
    }
    lemma_filter_map_all_none(tagged, frem);
}

/// The destinations a fresh scan over `roots` would schedule for removal.
pub open spec fn gcroot_removals_of_roots(
    roots: Seq<GcRootEntry>,
    keep_since: u64,
    now: u64,
) -> Seq<Seq<char>> {
    tagged_gcroots(roots, keep_since, now).filter_map(
        |pr: (Seq<char>, bool)| if pr.1 {
            Some(pr.0)
        } else {
            None::<Seq<char>>
        },
    )
}

/// The law of the dry run: with the dry flag set, the planned actions
/// contain no deletion at all.  The rendered report does not depend on the
/// dry flag in the first place, so a dry run presents exactly what a real
/// run would.
pub proof fn lemma_dry_run_plans_no_deletions(plan: Plan, args: CleanArgs)
    requires
        args.dry,
    ensures
        forall|k: int|
            0 <= k < planned_actions(plan, args).len()
                ==> !((#[trigger] planned_actions(plan, args)[k]) is DeletePath),
{
    let acts = planned_actions(plan, args);
    assert forall|k: int| 0 <= k < acts.len() implies !((#[trigger] acts[k]) is DeletePath) by {
        let gc = if !args.no_gc {
            seq![ActionModel::CollectGarbage { max: opt_view(args.max), dry: args.dry }]
        } else {
            Seq::<ActionModel>::empty()
        };
        let op = if args.optimise {
            seq![ActionModel::OptimiseStore { dry: args.dry }]
        } else {
            Seq::<ActionModel>::empty()
        };
        assert(acts =~= Seq::<ActionModel>::empty() + gc + op);
        assert(acts.len() == gc.len() + op.len());
    }
}

/// The law of failure independence: the action list is computed before any
/// deletion is attempted, so one entity's failure cannot change what else
/// is attempted.  Every scheduled removal stands at its own position, and
/// the collector invocation is present whenever it is not suppressed,
/// whatever becomes of the individual deletions.
pub proof fn lemma_actions_cover_removals(plan: Plan, args: CleanArgs)
    requires
        !args.dry,
    ensures
        planned_actions(plan, args).len() >= plan_removals(plan).len(),
        forall|k: int|
            0 <= k < plan_removals(plan).len()
                ==> planned_actions(plan, args)[k] == (ActionModel::DeletePath {
                    path: plan_removals(plan)[k],
                }),
        !args.no_gc ==> planned_actions(plan, args).contains(
            (ActionModel::CollectGarbage { max: opt_view(args.max), dry: args.dry }),
        ),
{
    let acts = planned_actions(plan, args);
    let dels = plan_removals(plan).map_values(|p: Seq<char>| ActionModel::DeletePath { path: p });
    assert(dels.len() == plan_removals(plan).len());
    if !args.no_gc {
        let gcact = ActionModel::CollectGarbage { max: opt_view(args.max), dry: args.dry };
        assert(acts[dels.len() as int] == gcact);
        assert(acts.contains(gcact));
    }
}

/// The law of root visibility, one direction: a discovered root that is
/// tracked, accessible and dateable appears in the tag map.
pub proof fn lemma_tracked_root_in_map(roots: Seq<GcRootEntry>, keep_since: u64, now: u64, i: int)
    requires
        0 <= i < roots.len(),
        gcroot_tag_of(roots[i], keep_since, now) is Some,
    ensures
        tagged_gcroots(roots, keep_since, now).contains(
            gcroot_tag_of(roots[i], keep_since, now).unwrap(),
        ),
    decreases roots.len(),
{
    let fm = |e: GcRootEntry| gcroot_tag_of(e, keep_since, now);
    let x = gcroot_tag_of(roots[i], keep_since, now).unwrap();
    if i == roots.len() - 1 {
        assert(roots.filter_map(fm) == roots.drop_last().filter_map(fm) + seq![x]);
        assert(roots.filter_map(fm).last() == x);
        assert(roots.filter_map(fm).contains(x));
    } else {
        let t = roots.drop_last();
        assert(t[i] == roots[i]);
        lemma_tracked_root_in_map(t, keep_since, now, i);
        let j = choose|j: int| 0 <= j < t.filter_map(fm).len() && t.filter_map(fm)[j] == x;
        match fm(roots.last()) {
            Some(y) => {
                assert(roots.filter_map(fm) == t.filter_map(fm) + seq![y]);
                assert(roots.filter_map(fm)[j] == x);
            }
            None => {
                assert(roots.filter_map(fm) == t.filter_map(fm));
            }
        }
        assert(roots.filter_map(fm).contains(x));
    }
}

/// The law of root visibility, other direction: a destination that matches
/// no tracked pattern never appears in the tag map, with either tag.
pub proof fn lemma_untracked_root_not_in_map(
    roots: Seq<GcRootEntry>,
    keep_since: u64,
    now: u64,
    d: Seq<char>,
)
    requires
        !is_tracked_root(d),
    ensures
        forall|b: bool| !tagged_gcroots(roots, keep_since, now).contains((d, b)),
{
    let fm = |e: GcRootEntry| gcroot_tag_of(e, keep_since, now);
    assert forall|b: bool| !tagged_gcroots(roots, keep_since, now).contains((d, b)) by {
        if tagged_gcroots(roots, keep_since, now).contains((d, b)) {
            roots.lemma_filter_map_contains(fm, (d, b));
            let e = choose|e: GcRootEntry| roots.contains(e) && fm(e) == Some((d, b));
            assert(is_tracked_root(e.destination@));
            assert(e.destination@ == d);
            assert(false);
        }
    }
}


/// One rendered plan line for a tagged path.
pub open spec fn tag_line(remove: bool, path: Seq<char>) -> Seq<char> {
    if remove {
        "- DEL "@ + path
    } else {
        "- OK  "@ + path
    }
}

/// Render one tagged path, marking it deleted or kept.
pub fn render_tag_line(remove: bool, path: &str) -> (r: String)
    ensures
        r@ == tag_line(remove, path@),
{
    if remove {
        crate::text::concat2("- DEL ", path)
    } else {
        crate::text::concat2("- OK  ", path)
    }
}

/// The report's fixed header: greeting, the policy in force, and the legend.
pub open spec fn header_lines(keep: u32, keep_since: u64) -> Seq<Seq<char>> {
    seq![
        ""@,
        "Welcome to nh clean"@,
        "Keeping "@ + dec_digits(keep as int) + " generation(s)"@,
        "Keeping paths newer than "@ + dec_digits(keep_since as int) + "s"@,
        ""@,
        "legend:"@,
        "RE: path regular expression to be matched"@,
        "OK: path to be kept"@,
        "DEL: path to be removed"@,
        ""@,
    ]
}

/// The tag-map lines of the GC-root section, in map order.
pub open spec fn gcroot_lines(gs: Seq<(String, bool)>) -> Seq<Seq<char>> {
    gs.map_values(|pr: (String, bool)| tag_line(pr.1, pr.0@))
}

/// The GC-root section, present only when the tag map is non-empty: its
/// banner, the patterns in force, and one line per tagged root.
pub open spec fn gcroot_section(gs: Seq<(String, bool)>) -> Seq<Seq<char>> {
    if gs.len() == 0 {
        Seq::empty()
    } else {
        seq![
            "gcroots (matching the following regex patterns)"@,
            "- RE  .*/.direnv/.*"@,
            "- RE  .*result.*"@,
        ] + gcroot_lines(gs) + seq![""@]
    }
}

/// One profile's section: its path, then its generations newest first.
pub open spec fn profile_section(p: ProfilePlan) -> Seq<Seq<char>> {
    seq![p.path@] + p.generations.entries@.reverse().map_values(
        |t: TaggedGeneration| tag_line(t.remove, t.generation.path@),
    ) + seq![""@]
}

/// The profile sections from position `i` on.
pub open spec fn profile_sections(ps: Seq<ProfilePlan>, i: int) -> Seq<Seq<char>>
    decreases ps.len() - i,
{
    if i < 0 || i >= ps.len() {
        Seq::empty()
    } else {
        profile_section(ps[i]) + profile_sections(ps, i + 1)
    }
}

/// Every line of the rendered report.  The report is a function of the
/// plan and the policy alone; in particular the dry and ask switches play
/// no part in it, so a dry run presents exactly what a real run presents.
pub open spec fn report_lines(plan: Plan, keep: u32, keep_since: u64) -> Seq<Seq<char>> {
    header_lines(keep, keep_since) + gcroot_section(plan.gcroots@)
        + profile_sections(plan.profiles@, 0)
}

/// Render the whole plan as the lines of a report.
pub fn render_report(plan: &Plan, keep: u32, keep_since: u64) -> (r: Vec<String>)
    ensures
        r@.map_values(|l: String| l@) == report_lines(*plan, keep, keep_since),
{
    proof {
        reveal_strlit("");
    }
    assert(""@ =~= Seq::<char>::empty());
    let mut lines: Vec<String> = Vec::new();
    lines.push(String::new());
    lines.push("Welcome to nh clean".to_owned());
    lines.push(concat3("Keeping ", u64_to_string(keep as u64).as_str(), " generation(s)"));
    lines.push(concat3("Keeping paths newer than ", u64_to_string(keep_since).as_str(), "s"));
    lines.push(String::new());
    lines.push("legend:".to_owned());
    lines.push("RE: path regular expression to be matched".to_owned());
    lines.push("OK: path to be kept".to_owned());
    lines.push("DEL: path to be removed".to_owned());
    lines.push(String::new());
    assert(lines@.map_values(|l: String| l@) =~= header_lines(keep, keep_since));
    let ghost fgl = |pr: (String, bool)| tag_line(pr.1, pr.0@);
    if plan.gcroots.len() > 0 {
        lines.push("gcroots (matching the following regex patterns)".to_owned());
        lines.push("- RE  .*/.direnv/.*".to_owned());
        lines.push("- RE  .*result.*".to_owned());
        let ghost mid = lines@.map_values(|l: String| l@);
        let mut j: usize = 0;
        proof {
            assert(mid =~= header_lines(keep, keep_since) + seq![
                "gcroots (matching the following regex patterns)"@,
                "- RE  .*/.direnv/.*"@,
                "- RE  .*result.*"@,
            ]);
            assert(gcroot_lines(plan.gcroots@).take(0) =~= Seq::<Seq<char>>::empty());
            assert(mid + gcroot_lines(plan.gcroots@).take(0) =~= mid);
        }
        while j < plan.gcroots.len()
            invariant
                0 <= j <= plan.gcroots@.len(),
                mid == header_lines(keep, keep_since) + seq![
                    "gcroots (matching the following regex patterns)"@,
                    "- RE  .*/.direnv/.*"@,
                    "- RE  .*result.*"@,
                ],
                lines@.map_values(|l: String| l@)
                    == mid + gcroot_lines(plan.gcroots@).take(j as int),
            decreases plan.gcroots@.len() - j,
        {
            let ghost before = lines@.map_values(|l: String| l@);
            let ln = render_tag_line(plan.gcroots[j].1, plan.gcroots[j].0.as_str());
            lines.push(ln);
            proof {
                assert(lines@.map_values(|l: String| l@)
                    =~= before.push(tag_line(plan.gcroots@[j as int].1,
                        plan.gcroots@[j as int].0@)));
                assert(gcroot_lines(plan.gcroots@).take(j + 1)
                    =~= gcroot_lines(plan.gcroots@).take(j as int).push(
                        tag_line(plan.gcroots@[j as int].1, plan.gcroots@[j as int].0@)));
                assert(before.push(tag_line(plan.gcroots@[j as int].1,
                    plan.gcroots@[j as int].0@))
                    =~= mid + gcroot_lines(plan.gcroots@).take(j + 1));
            }
            j = j + 1;
        }
        lines.push(String::new());
        proof {
            reveal_strlit("");
            assert(""@ =~= Seq::<char>::empty());
            assert(gcroot_lines(plan.gcroots@).take(plan.gcroots@.len() as int)
                =~= gcroot_lines(plan.gcroots@));
            assert(lines@.map_values(|l: String| l@)
                =~= (mid + gcroot_lines(plan.gcroots@)).push(""@));
            assert(gcroot_section(plan.gcroots@) =~= seq![
                "gcroots (matching the following regex patterns)"@,
                "- RE  .*/.direnv/.*"@,
                "- RE  .*result.*"@,
            ] + gcroot_lines(plan.gcroots@) + seq![""@]);
            assert(lines@.map_values(|l: String| l@)
                =~= header_lines(keep, keep_since) + gcroot_section(plan.gcroots@));
        }
    } else {
        proof {
            assert(gcroot_section(plan.gcroots@) =~= Seq::<Seq<char>>::empty());
            assert(lines@.map_values(|l: String| l@)
                =~= header_lines(keep, keep_since) + gcroot_section(plan.gcroots@));
        }
    }
    let ghost head = lines@.map_values(|l: String| l@);
    let mut pi: usize = 0;
    proof {
        assert(head + profile_sections(plan.profiles@, 0)
            =~= report_lines(*plan, keep, keep_since));
    }
    while pi < plan.profiles.len()
        invariant
            0 <= pi <= plan.profiles@.len(),
            lines@.map_values(|l: String| l@) + profile_sections(plan.profiles@, pi as int)
                == report_lines(*plan, keep, keep_since),
        decreases plan.profiles@.len() - pi,
    {
        let ghost outer_before = lines@.map_values(|l: String| l@);
        let prof = &plan.profiles[pi];
        lines.push(prof.path.clone());
        let ghost fg = |t: TaggedGeneration| tag_line(t.remove, t.generation.path@);
        let ghost rev = prof.generations.entries@.reverse();
        let entries = &prof.generations.entries;
        let n = entries.len();
        let mut j: usize = 0;
        proof {
            assert(rev.map_values(fg).take(0) =~= Seq::<Seq<char>>::empty());
            assert(lines@.map_values(|l: String| l@)
                =~= (outer_before + seq![prof.path@]) + rev.map_values(fg).take(0));
        }
        while j < n
            invariant
                0 <= j <= n,
                0 <= pi < plan.profiles@.len(),
                *prof == plan.profiles@[pi as int],
                n == entries@.len(),
                entries@ == prof.generations.entries@,
                rev == entries@.reverse(),
                fg == (|t: TaggedGeneration| tag_line(t.remove, t.generation.path@)),
                lines@.map_values(|l: String| l@)
                    == (outer_before + seq![prof.path@]) + rev.map_values(fg).take(j as int),
            decreases n - j,
        {
            let ghost before = lines@.map_values(|l: String| l@);
            let idx = n - 1 - j;
            assert(rev[j as int] == entries@[idx as int]);
            let ln = render_tag_line(entries[idx].remove, entries[idx].generation.path.as_str());
            lines.push(ln);
            proof {
                assert(rev.map_values(fg).take(j + 1)
                    =~= rev.map_values(fg).take(j as int).push(fg(rev[j as int])));
                assert(lines@.map_values(|l: String| l@)
                    =~= before.push(fg(rev[j as int])));
            }
            j = j + 1;
        }
        lines.push(String::new());
        proof {
            reveal_strlit("");
            assert(""@ =~= Seq::<char>::empty());
            assert(rev.map_values(fg).take(rev.len() as int) =~= rev.map_values(fg));
            assert(lines@.map_values(|l: String| l@)
                =~= ((outer_before + seq![prof.path@]) + rev.map_values(fg)).push(""@));
            assert(profile_section(plan.profiles@[pi as int])
                =~= seq![prof.path@] + rev.map_values(fg) + seq![""@]);
            assert(lines@.map_values(|l: String| l@)
                =~= outer_before + profile_section(plan.profiles@[pi as int]));
            assert(outer_before + (profile_section(plan.profiles@[pi as int])
                + profile_sections(plan.profiles@, pi + 1))
                =~= (outer_before + profile_section(plan.profiles@[pi as int]))
                    + profile_sections(plan.profiles@, pi + 1));
        }
        pi = pi + 1;
    }
    lines
}


/// Arguments for cleaning one explicitly named profile.
#[derive(Debug, Clone)]
pub struct CleanProfileArgs {
    /// The shared cleanup policy and switches.
    pub common: CleanArgs,
    /// Which profile to clean.
    pub profile: String,
}

/// The scope a cleanup run covers.
#[derive(Debug, Clone)]
pub enum CleanMode {
    /// Clean every user's profiles; needs superuser rights.
    All(CleanArgs),
    /// Clean the invoking user's profiles; must not run as the superuser.
    User(CleanArgs),
    /// Clean one specific profile.
    Profile(CleanProfileArgs),
}

/// The profile directories scanned for one user: the state directory under
/// the home, and the per-user directory under the global profiles root.
pub open spec fn user_profile_dirs_spec(home: Seq<char>, user_name: Seq<char>) -> Seq<Seq<char>> {
    seq![
        home + "/.local/state/nix/profiles"@,
        "/nix/var/nix/profiles/per-user/"@ + user_name,
    ]
}

/// The candidate profile directories of one user, by home directory and
/// user name.
pub fn user_profile_dirs(home: &str, user_name: &str) -> (r: Vec<String>)
    ensures
        r@.map_values(|p: String| p@) == user_profile_dirs_spec(home@, user_name@),
{
    let mut dirs: Vec<String> = Vec::new();
    dirs.push(concat3(home, "/.local/state/nix/profiles", ""));
    dirs.push(concat3("/nix/var/nix/profiles/per-user/", user_name, ""));
    proof {
        reveal_strlit("");
        assert(""@ =~= Seq::<char>::empty());
        assert(dirs@.map_values(|p: String| p@)
            =~= user_profile_dirs_spec(home@, user_name@));
    }
    dirs
}

/// The per-user state profiles directory under a home directory.
pub fn xdg_profiles_dir(home: &str) -> (r: String)
    ensures
        r@ == home@ + "/.local/state/nix/profiles"@,
{
    proof {
        reveal_strlit("");
        assert(""@ =~= Seq::<char>::empty());
    }
    let r = concat3(home, "/.local/state/nix/profiles", "");
    assert(r@ =~= home@ + "/.local/state/nix/profiles"@);
    r
}

/// The range of ordinary user identifiers scanned when cleaning every
/// user's profiles: the first hundred identifiers from the platform's
/// conventional starting point.
pub fn uid_scan_range(alternate_uid_convention: bool) -> (r: (u64, u64))
    ensures
        r.0 == if alternate_uid_convention {
            501u64
        } else {
            1000u64
        },
        r.1 == r.0 + 100,
{
    let lo: u64 = if alternate_uid_convention {
        501
    } else {
        1000
    };
    (lo, lo + 100)
}

} // verus!
