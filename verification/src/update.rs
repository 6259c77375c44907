//! Updating flake inputs: the planned invocation of the underlying tool's
//! `flake update` command.  Only flake installables can be updated; every
//! other kind yields no invocation at all.

use vstd::prelude::*;
use vstd::string::StrSliceExecFns;

use crate::commands::CommandPlan;
use crate::installable::Installable;
use crate::text::concat3;

verus! {

/// Elements joined with a comma and a space.
pub open spec fn comma_join(parts: Seq<Seq<char>>) -> Seq<char>
    decreases parts.len(),
{
    if parts.len() == 0 {
        Seq::empty()
    } else if parts.len() == 1 {
        parts[0]
    } else {
        comma_join(parts.drop_last()) + ", "@ + parts.last()
    }
}

/// The message announcing an update: all inputs, or the named ones.
pub open spec fn update_message_spec(inputs: Option<Seq<Seq<char>>>) -> Seq<char> {
    match inputs {
        None => "Updating all flake inputs"@,
        Some(xs) => "Updating flake input"@ + (if xs.len() > 1 {
            "s"@
        } else {
            ""@
        }) + " "@ + comma_join(xs),
    }
}

/// The argument list of the update invocation: the named inputs, then the
/// flake reference.
pub open spec fn update_args_spec(
    reference: Seq<char>,
    inputs: Option<Seq<Seq<char>>>,
) -> Seq<Seq<char>> {
    seq!["flake"@, "update"@] + (match inputs {
        Some(xs) => xs,
        None => Seq::empty(),
    }) + seq!["--flake"@, reference]
}

/// Plan the update of a flake's inputs: for a flake installable, the
/// `flake update` invocation with any named inputs and the announcing
/// message; for every other kind of installable, nothing (the caller
/// warns and moves on, as updating them is unsupported).
pub fn update(installable: &Installable, inputs: Option<Vec<String>>) -> (r: Option<CommandPlan>)
    ensures
        match installable {
            Installable::Flake { reference, .. } => (r is Some
                && r.unwrap().program@ == "nix"@
                && r.unwrap().args@.map_values(|a: String| a@) == update_args_spec(
                    reference@,
                    match inputs {
                        Some(xs) => Some(xs@.map_values(|x: String| x@)),
                        None => None,
                    },
                )
                && r.unwrap().message@ == update_message_spec(
                    match inputs {
                        Some(xs) => Some(xs@.map_values(|x: String| x@)),
                        None => None,
                    },
                )),
            _ => r is None,
        },
{
    let reference = match installable {
        Installable::Flake { reference, .. } => reference,
        _ => {
            return None;
        }
    };
    let mut args: Vec<String> = Vec::new();
    args.push("flake".to_owned());
    args.push("update".to_owned());
    let message: String;
    match &inputs {
        Some(xs) => {
            let ghost parts = xs@.map_values(|x: String| x@);
            let mut i: usize = 0;
            let mut joined = String::new();
            proof {
                assert(parts.take(0) =~= Seq::<Seq<char>>::empty());
                assert(joined@ =~= comma_join(parts.take(0)));
            }
            while i < xs.len()
                invariant
                    0 <= i <= xs@.len(),
                    parts == xs@.map_values(|x: String| x@),
                    joined@ == comma_join(parts.take(i as int)),
                    args@.map_values(|a: String| a@) == seq!["flake"@, "update"@]
                        + parts.take(i as int),
                decreases xs@.len() - i,
            {
                let ghost before_args = args@.map_values(|a: String| a@);
                proof {
                    reveal_strlit(", ");
                    assert(", "@ =~= seq![',', ' ']);
                }
                if i > 0 {
                    joined.append(", ");
                }
                joined.append(xs[i].as_str());
                args.push(xs[i].clone());
                proof {
                    assert(parts.take(i + 1).drop_last() =~= parts.take(i as int));
                    assert(parts.take(i + 1).last() == parts[i as int]);
                    if i == 0 {
                        assert(joined@ =~= comma_join(parts.take(1)));
                    } else {
                        assert(joined@ =~= comma_join(parts.take(i + 1)));
                    }
                    assert(args@.map_values(|a: String| a@)
                        =~= before_args.push(parts[i as int]));
                    assert(args@.map_values(|a: String| a@)
                        =~= seq!["flake"@, "update"@] + parts.take(i + 1));
                }
                i = i + 1;
            }
            proof {
                assert(parts.take(parts.len() as int) =~= parts);
                reveal_strlit("");
                assert(""@ =~= Seq::<char>::empty());
            }
            if xs.len() > 1 {
                message = concat3("Updating flake inputs", " ", joined.as_str());
                assert(message@ =~= update_message_spec(Some(parts))) by {
                    reveal_strlit("Updating flake inputs");
                    reveal_strlit("Updating flake input");
                    reveal_strlit("s");
                    reveal_strlit(" ");
                    assert("Updating flake inputs"@ =~= "Updating flake input"@ + "s"@);
                }
            } else {
                message = concat3("Updating flake input", " ", joined.as_str());
                assert(message@ =~= update_message_spec(Some(parts)));
            }
        }
        None => {
            message = "Updating all flake inputs".to_owned();
        }
    }
    args.push("--flake".to_owned());
    args.push(reference.clone());
    proof {
        match inputs {
            Some(xs) => {
                assert(args@.map_values(|a: String| a@) =~= update_args_spec(
                    reference@,
                    Some(xs@.map_values(|x: String| x@)),
                ));
            }
            None => {
                assert(args@.map_values(|a: String| a@) =~= update_args_spec(reference@, None));
            }
        }
    }
    Some(CommandPlan { program: "nix".to_owned(), args, message })
}

} // verus!
