//! Installables: the several ways a build target can be named — a flake
//! reference with an attribute path, a file, a raw store path, or a Nix
//! expression — together with the attribute-path syntax they share.

use vstd::prelude::*;
use vstd::string::StrSliceExecFns;

use crate::text::{concat3, contains_seq, count_char, str_contains, string_from_chars};

verus! {

/// A build target, in one of the forms the underlying tool accepts.
#[derive(Debug, Clone)]
pub enum Installable {
    /// A flake reference with an attribute path.
    Flake {
        /// The flake reference.
        reference: String,
        /// The attribute path, outermost first.
        attribute: Vec<String>,
    },
    /// A file with an attribute path.
    File {
        /// Path to the file.
        path: String,
        /// The attribute path, outermost first.
        attribute: Vec<String>,
    },
    /// A raw store path.
    Store {
        /// The store path.
        path: String,
    },
    /// A Nix expression with an attribute path.
    Expression {
        /// The expression text.
        expression: String,
        /// The attribute path, outermost first.
        attribute: Vec<String>,
    },
}

/// How an attribute string splits: a `.` outside quotes ends the current
/// element, a `"` toggles quoting and is dropped, and every other character
/// joins the current element.
pub open spec fn split_attr(s: Seq<char>, in_quote: bool, cur: Seq<char>) -> Seq<Seq<char>>
    decreases s.len(),
{
    if s.len() == 0 {
        seq![cur]
    } else if s.first() == '.' && !in_quote {
        seq![cur] + split_attr(s.drop_first(), in_quote, Seq::empty())
    } else if s.first() == '"' {
        split_attr(s.drop_first(), !in_quote, cur)
    } else {
        split_attr(s.drop_first(), in_quote, cur.push(s.first()))
    }
}

/// The elements of an attribute string; the empty string has none.
pub open spec fn parse_attribute_spec(s: Seq<char>) -> Seq<Seq<char>> {
    if s.len() == 0 {
        Seq::empty()
    } else {
        split_attr(s, false, Seq::empty())
    }
}

/// Split an attribute string into its elements: `foo.bar` has two, and a
/// quoted element such as `foo."bar.baz"` keeps its inner dots.  Quotes
/// must balance; an unbalanced string names no attribute path at all.
pub fn parse_attribute(s: &str) -> (r: Vec<String>)
    requires
        count_char(s@, '"') % 2 == 0,
    ensures
        r@.map_values(|e: String| e@) == parse_attribute_spec(s@),
{
    let n = s.unicode_len();
    let mut res: Vec<String> = Vec::new();
    if n == 0 {
        assert(res@.map_values(|e: String| e@) =~= parse_attribute_spec(s@));
        return res;
    }
    let mut elem: Vec<char> = Vec::new();
    let mut in_quote: bool = false;
    let mut i: usize = 0;
    proof {
        assert(s@.skip(0) =~= s@);
        assert(res@.map_values(|e: String| e@) + split_attr(s@, false, Seq::empty())
            =~= split_attr(s@, false, Seq::empty()));
    }
    while i < n
        invariant
            0 <= i <= n,
            n == s@.len(),
            n > 0,
            parse_attribute_spec(s@) == res@.map_values(|e: String| e@)
                + split_attr(s@.skip(i as int), in_quote, elem@),
        decreases n - i,
    {
        let ghost rest = s@.skip(i as int);
        let ghost before = res@.map_values(|e: String| e@);
        proof {
            assert(rest.len() == n - i);
            assert(rest.first() == s@[i as int]);
            assert(rest.drop_first() =~= s@.skip(i + 1));
        }
        let ghost cur = elem@;
        let ghost q = in_quote;
        let c = s.get_char(i);
        if c == '.' && !in_quote {
            res.push(string_from_chars(&elem));
            elem = Vec::new();
            proof {
                assert(res@.map_values(|e: String| e@) =~= before + seq![cur]);
                assert(split_attr(rest, q, cur)
                    == seq![cur] + split_attr(s@.skip(i + 1), q, Seq::empty()));
                assert((before + seq![cur]) + split_attr(s@.skip(i + 1), in_quote, elem@)
                    =~= before + split_attr(rest, q, cur));
            }
        } else if c == '"' {
            in_quote = !in_quote;
            assert(split_attr(rest, q, cur) == split_attr(s@.skip(i + 1), in_quote, elem@));
        } else {
            elem.push(c);
            assert(elem@ == cur.push(c));
            assert(split_attr(rest, q, cur) == split_attr(s@.skip(i + 1), in_quote, elem@));
        }
        i = i + 1;
    }
    proof {
        assert(s@.skip(n as int) =~= Seq::<char>::empty());
    }
    res.push(string_from_chars(&elem));
    res
}

/// An attribute element as it appears in rendered form: quoted when it
/// contains a dot, bare otherwise.
pub open spec fn quoted_if_dotted(a: Seq<char>) -> Seq<char> {
    if contains_seq(a, seq!['.']) {
        seq!['"'] + a + seq!['"']
    } else {
        a
    }
}

/// The rendered attribute path: elements joined with dots, each quoted when
/// it contains a dot of its own.
pub open spec fn join_attribute_spec(parts: Seq<Seq<char>>) -> Seq<char>
    decreases parts.len(),
{
    if parts.len() == 0 {
        Seq::empty()
    } else if parts.len() == 1 {
        quoted_if_dotted(parts[0])
    } else {
        join_attribute_spec(parts.drop_last()) + seq!['.'] + quoted_if_dotted(parts.last())
    }
}

/// Join attribute elements with dots, quoting any element that itself
/// contains a dot.
pub fn join_attribute(attribute: &Vec<String>) -> (r: String)
    ensures
        r@ == join_attribute_spec(attribute@.map_values(|e: String| e@)),
{
    proof {
        reveal_strlit(".");
        reveal_strlit("\"");
    }
    let ghost parts = attribute@.map_values(|e: String| e@);
    let mut res = String::new();
    let mut i: usize = 0;
    proof {
        assert(parts.take(0) =~= Seq::<Seq<char>>::empty());
        assert(res@ =~= join_attribute_spec(parts.take(0)));
    }
    while i < attribute.len()
        invariant
            0 <= i <= attribute@.len(),
            parts == attribute@.map_values(|e: String| e@),
            res@ == join_attribute_spec(parts.take(i as int)),
        decreases attribute@.len() - i,
    {
        proof {
            reveal_strlit(".");
            reveal_strlit("\"");
            assert("."@ =~= seq!['.']);
            assert("\""@ =~= seq!['"']);
        }
        if i > 0 {
            res.append(".");
        }
        let s = &attribute[i];
        if str_contains(s.as_str(), ".") {
            res.append("\"");
            res.append(s.as_str());
            res.append("\"");
            assert(quoted_if_dotted(parts[i as int]) =~= seq!['"'] + s@ + seq!['"']);
        } else {
            res.append(s.as_str());
        }
        proof {
            assert(parts.take(i + 1).drop_last() =~= parts.take(i as int));
            assert(parts.take(i + 1).last() == parts[i as int]);
            if i == 0 {
                assert(res@ =~= join_attribute_spec(parts.take(1)));
            } else {
                assert(res@ =~= join_attribute_spec(parts.take(i + 1)));
            }
        }
        i = i + 1;
    }
    proof {
        assert(parts.take(parts.len() as int) =~= parts);
    }
    res
}

/// The argument list an installable contributes to a command line.
pub open spec fn to_args_spec(ins: Installable) -> Seq<Seq<char>> {
    match ins {
        Installable::Flake { reference, attribute } => seq![
            reference@ + "#"@ + join_attribute_spec(attribute@.map_values(|e: String| e@)),
        ],
        Installable::File { path, attribute } => seq![
            "--file"@,
            path@,
            join_attribute_spec(attribute@.map_values(|e: String| e@)),
        ],
        Installable::Expression { expression, attribute } => seq![
            "--expr"@,
            expression@,
            join_attribute_spec(attribute@.map_values(|e: String| e@)),
        ],
        Installable::Store { path } => seq![path@],
    }
}

impl Installable {
    /// Render this installable as the arguments handed to the underlying
    /// tool: a flake turns into `reference#attribute`, a file or expression
    /// into its flag, its value and the attribute path, and a store path
    /// into itself.
    pub fn to_args(&self) -> (r: Vec<String>)
        ensures
            r@.map_values(|a: String| a@) == to_args_spec(*self),
    {
        let mut res: Vec<String> = Vec::new();
        match self {
            Installable::Flake { reference, attribute } => {
                let joined = join_attribute(attribute);
                res.push(concat3(reference.as_str(), "#", joined.as_str()));
            }
            Installable::File { path, attribute } => {
                res.push("--file".to_owned());
                res.push(path.clone());
                res.push(join_attribute(attribute));
            }
            Installable::Expression { expression, attribute } => {
                res.push("--expr".to_owned());
                res.push(expression.clone());
                res.push(join_attribute(attribute));
            }
            Installable::Store { path } => {
                res.push(path.clone());
            }
        }
        assert(res@.map_values(|a: String| a@) =~= to_args_spec(*self));
        res
    }

    /// The kind of this installable, as a word for messages.
    pub fn str_kind(&self) -> (r: &'static str)
        ensures
            r@ == str_kind_spec(*self),
    {
        match self {
            Installable::Flake { .. } => "flake",
            Installable::File { .. } => "file",
            Installable::Store { .. } => "store path",
            Installable::Expression { .. } => "expression",
        }
    }
}

/// The word naming an installable's kind.
pub open spec fn str_kind_spec(ins: Installable) -> Seq<char> {
    match ins {
        Installable::Flake { .. } => "flake"@,
        Installable::File { .. } => "file"@,
        Installable::Store { .. } => "store path"@,
        Installable::Expression { .. } => "expression"@,
    }
}

} // verus!
