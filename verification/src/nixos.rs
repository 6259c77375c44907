//! Building the attribute path for an OS configuration: which final
//! attribute to build, and how a hostname and that attribute extend an
//! installable.

use vstd::prelude::*;

use crate::installable::Installable;

verus! {

/// The final attribute an OS build targets.
pub open spec fn final_attr_spec(build_vm: bool, with_bootloader: bool) -> Seq<char> {
    if build_vm && with_bootloader {
        "vmWithBootLoader"@
    } else if build_vm {
        "vm"@
    } else {
        "toplevel"@
    }
}

/// Pick the final attribute to build: the VM image, the VM image with a
/// bootloader, or the plain system closure.
pub fn get_final_attr(build_vm: bool, with_bootloader: bool) -> (r: String)
    ensures
        r@ == final_attr_spec(build_vm, with_bootloader),
{
    if build_vm && with_bootloader {
        "vmWithBootLoader".to_owned()
    } else if build_vm {
        "vm".to_owned()
    } else {
        "toplevel".to_owned()
    }
}

/// The attribute suffix every OS build appends.
pub open spec fn toplevel_suffix(final_attr: Seq<char>) -> Seq<Seq<char>> {
    seq!["config"@, "system"@, "build"@, final_attr]
}

/// The attribute path of the result: a flake with an empty path first
/// selects the host's configuration; every non-store form then descends to
/// the build attribute.
pub open spec fn toplevel_attr_spec(
    attribute: Seq<Seq<char>>,
    is_flake: bool,
    hostname: Seq<char>,
    final_attr: Seq<char>,
) -> Seq<Seq<char>> {
    if is_flake && attribute.len() == 0 {
        seq!["nixosConfigurations"@, hostname] + toplevel_suffix(final_attr)
    } else {
        attribute + toplevel_suffix(final_attr)
    }
}

/// Point an installable at the system closure to build: for a flake with
/// no explicit attribute, select this host's configuration first; then
/// descend to the final build attribute.  A store path is already built
/// and passes through unchanged.
pub fn toplevel_for(hostname: &str, installable: Installable, final_attr: &str) -> (r: Installable)
    ensures
        match installable {
            Installable::Flake { reference, attribute } => (r matches Installable::Flake {
                reference: r2,
                attribute: a2,
            } && r2@ == reference@ && a2@.map_values(|e: String| e@) == toplevel_attr_spec(
                attribute@.map_values(|e: String| e@),
                true,
                hostname@,
                final_attr@,
            )),
            Installable::File { path, attribute } => (r matches Installable::File {
                path: p2,
                attribute: a2,
            } && p2@ == path@ && a2@.map_values(|e: String| e@) == toplevel_attr_spec(
                attribute@.map_values(|e: String| e@),
                false,
                hostname@,
                final_attr@,
            )),
            Installable::Expression { expression, attribute } => (r matches
                Installable::Expression {
                expression: e2,
                attribute: a2,
            } && e2@ == expression@ && a2@.map_values(|e: String| e@) == toplevel_attr_spec(
                attribute@.map_values(|e: String| e@),
                false,
                hostname@,
                final_attr@,
            )),
            Installable::Store { path } => (r matches Installable::Store { path: p2 } && p2@
                == path@),
        },
{
    match installable {
        Installable::Flake { reference, mut attribute } => {
            let ghost before = attribute@.map_values(|e: String| e@);
            if attribute.len() == 0 {
                attribute.push("nixosConfigurations".to_owned());
                attribute.push(hostname.to_owned());
            }
            attribute.push("config".to_owned());
            attribute.push("system".to_owned());
            attribute.push("build".to_owned());
            attribute.push(final_attr.to_owned());
            proof {
                assert(attribute@.map_values(|e: String| e@) =~= toplevel_attr_spec(
                    before,
                    true,
                    hostname@,
                    final_attr@,
                ));
            }
            Installable::Flake { reference, attribute }
        }
        Installable::File { path, mut attribute } => {
            let ghost before = attribute@.map_values(|e: String| e@);
            attribute.push("config".to_owned());
            attribute.push("system".to_owned());
            attribute.push("build".to_owned());
            attribute.push(final_attr.to_owned());
            proof {
                assert(attribute@.map_values(|e: String| e@) =~= toplevel_attr_spec(
                    before,
                    false,
                    hostname@,
                    final_attr@,
                ));
            }
            Installable::File { path, attribute }
        }
        Installable::Expression { expression, mut attribute } => {
            let ghost before = attribute@.map_values(|e: String| e@);
            attribute.push("config".to_owned());
            attribute.push("system".to_owned());
            attribute.push("build".to_owned());
            attribute.push(final_attr.to_owned());
            proof {
                assert(attribute@.map_values(|e: String| e@) =~= toplevel_attr_spec(
                    before,
                    false,
                    hostname@,
                    final_attr@,
                ));
            }
            Installable::Expression { expression, attribute }
        }
        Installable::Store { path } => Installable::Store { path },
    }
}

} // verus!
