use nh::generations::from_dir;
use nh::installable::Installable;
use nh::interface::NixBuildPassthroughArgs;
use nh::nixos::{get_final_attr, toplevel_for};
use nh::update::update;

#[test]
fn final_attr_selection() {
    assert_eq!(get_final_attr(true, true), "vmWithBootLoader");
    assert_eq!(get_final_attr(true, false), "vm");
    assert_eq!(get_final_attr(false, false), "toplevel");
    assert_eq!(get_final_attr(false, true), "toplevel");
}

#[test]
fn toplevel_for_selects_host_configuration() {
    let ins = Installable::Flake { reference: "/etc/nixos".to_string(), attribute: vec![] };
    let r = toplevel_for("myhost", ins, "toplevel");
    match r {
        Installable::Flake { reference, attribute } => {
            assert_eq!(reference, "/etc/nixos");
            assert_eq!(
                attribute,
                vec!["nixosConfigurations", "myhost", "config", "system", "build", "toplevel"]
            );
        }
        _ => panic!("flake stays a flake"),
    }
}

#[test]
fn toplevel_for_keeps_explicit_attribute() {
    let ins = Installable::Flake {
        reference: "r".to_string(),
        attribute: vec!["custom".to_string()],
    };
    match toplevel_for("h", ins, "vm") {
        Installable::Flake { attribute, .. } => {
            assert_eq!(attribute, vec!["custom", "config", "system", "build", "vm"]);
        }
        _ => panic!("flake stays a flake"),
    }

    let st = Installable::Store { path: "/nix/store/abc".to_string() };
    match toplevel_for("h", st, "toplevel") {
        Installable::Store { path } => assert_eq!(path, "/nix/store/abc"),
        _ => panic!("store path passes through"),
    }
}

#[test]
fn generation_number_from_directory_name() {
    assert_eq!(from_dir("system-23-link"), Some(23));
    assert_eq!(from_dir("system-23-link-link"), Some(23));
    assert_eq!(from_dir("system-+5-link"), Some(5));
    assert_eq!(from_dir("system"), None);
    assert_eq!(from_dir("system-x-link"), None);
    assert_eq!(from_dir("a-99999999999999999999-link"), None);
}

#[test]
fn passthrough_args_render_in_order() {
    let mut a = NixBuildPassthroughArgs::default();
    a.max_jobs = Some(4);
    a.keep_going = true;
    a.impure = true;
    a.json = true;
    assert_eq!(
        a.generate_passthrough_args(),
        vec!["--max-jobs", "4", "--keep-going", "--impure", "--json"]
    );
    let none = NixBuildPassthroughArgs::default();
    assert!(none.generate_passthrough_args().is_empty());
}

#[test]
fn update_plans_only_flakes() {
    let flake = Installable::Flake { reference: "github:user/cfg".to_string(), attribute: vec![] };
    let plan = update(&flake, None).unwrap();
    assert_eq!(plan.program, "nix");
    assert_eq!(plan.args, vec!["flake", "update", "--flake", "github:user/cfg"]);
    assert_eq!(plan.message, "Updating all flake inputs");

    let plan2 = update(&flake, Some(vec!["nixpkgs".to_string()])).unwrap();
    assert_eq!(plan2.args, vec!["flake", "update", "nixpkgs", "--flake", "github:user/cfg"]);
    assert_eq!(plan2.message, "Updating flake input nixpkgs");

    let plan3 = update(
        &flake,
        Some(vec!["nixpkgs".to_string(), "home-manager".to_string()]),
    )
    .unwrap();
    assert_eq!(plan3.message, "Updating flake inputs nixpkgs, home-manager");

    let store = Installable::Store { path: "/nix/store/x".to_string() };
    assert!(update(&store, None).is_none());
}
