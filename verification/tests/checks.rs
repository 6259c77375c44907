use nh::checks::{
    lix_repl_flake_needed, parse_triple, DarwinReplFeatures, FlakeFeatures, HomeReplFeatures,
    LegacyFeatures, NoFeatures, OsReplFeatures,
};
use nh::util::NixVariant;

#[test]
fn flake_features_depend_on_variant() {
    let f = FlakeFeatures;
    assert_eq!(f.required_features(&NixVariant::Nix), vec!["nix-command", "flakes"]);
    assert_eq!(f.required_features(&NixVariant::Lix), vec!["nix-command", "flakes"]);
    let none: Vec<String> = vec![];
    assert_eq!(f.required_features(&NixVariant::Determinate), none);
}

#[test]
fn legacy_and_no_features_need_nothing() {
    let none: Vec<String> = vec![];
    assert_eq!(LegacyFeatures.required_features(), none);
    assert_eq!(NoFeatures.required_features(), none);
}

#[test]
fn old_lix_repl_needs_repl_flake() {
    let r = OsReplFeatures { is_flake: true };
    let old = "2.92.0".to_string();
    let new = "2.93.0".to_string();
    assert_eq!(
        r.required_features(&NixVariant::Lix, Some(&old)),
        vec!["nix-command", "flakes", "repl-flake"]
    );
    assert_eq!(
        r.required_features(&NixVariant::Lix, Some(&new)),
        vec!["nix-command", "flakes"]
    );
    assert_eq!(
        r.required_features(&NixVariant::Lix, None),
        vec!["nix-command", "flakes"]
    );
    let none: Vec<String> = vec![];
    assert_eq!(r.required_features(&NixVariant::Determinate, Some(&old)), none);
    let plain = OsReplFeatures { is_flake: false };
    assert_eq!(plain.required_features(&NixVariant::Nix, None), none);
}

#[test]
fn repl_flake_threshold() {
    assert!(lix_repl_flake_needed("2.92.0"));
    assert!(lix_repl_flake_needed("2.92.5-dev"));
    assert!(!lix_repl_flake_needed("2.93.0"));
    assert!(!lix_repl_flake_needed("2.100.0"));
    assert!(!lix_repl_flake_needed("not-a-version"));
}

#[test]
fn triples_parse_strictly() {
    assert_eq!(parse_triple("2.93.0"), Some((2, 93, 0)));
    assert_eq!(parse_triple("1.0"), None);
    assert_eq!(parse_triple("1.0.01"), None);
    assert_eq!(parse_triple("1.0.0.0"), None);
    assert_eq!(parse_triple("1.0.x"), None);
}

#[test]
fn home_and_darwin_repls_share_the_flake_rule() {
    let h = HomeReplFeatures { is_flake: true };
    let d = DarwinReplFeatures { is_flake: true };
    assert_eq!(h.required_features(&NixVariant::Nix), vec!["nix-command", "flakes"]);
    assert_eq!(d.required_features(&NixVariant::Lix), vec!["nix-command", "flakes"]);
    let none: Vec<String> = vec![];
    assert_eq!(h.required_features(&NixVariant::Determinate), none);
    let off = DarwinReplFeatures { is_flake: false };
    assert_eq!(off.required_features(&NixVariant::Nix), none);
}
