use nh::util::{classify_variant, get_nix_variant, get_target_profile, normalize_version_string, NixVariant};

#[test]
fn normalize_handles_vendor_formats() {
    assert_eq!(normalize_version_string("2.25.0-pre"), "2.25.0");
    assert_eq!(normalize_version_string("2.24.14-1"), "2.24.14");
    assert_eq!(normalize_version_string("2.30pre20250521_76a4d4c2"), "2.30.0");
    assert_eq!(normalize_version_string("2.91.1"), "2.91.1");
}

#[test]
fn normalize_falls_back_on_shapeless_input() {
    assert_eq!(normalize_version_string("abc"), "abc.0.0");
    assert_eq!(normalize_version_string("1-2"), "1.0.0");
    assert_eq!(normalize_version_string(""), ".0.0");
}

#[test]
fn variant_detection_is_case_insensitive() {
    let det = "Determinate Nix 3.0".to_string();
    let lix = "nix (LIX, like 2.92.0)".to_string();
    let nix = "nix (Nix) 2.18.1".to_string();
    assert_eq!(get_nix_variant(Some(&det)), NixVariant::Determinate);
    assert_eq!(get_nix_variant(Some(&lix)), NixVariant::Lix);
    assert_eq!(get_nix_variant(Some(&nix)), NixVariant::Nix);
    assert_eq!(get_nix_variant(None), NixVariant::Nix);
}

#[test]
fn classify_variant_prefers_determinate() {
    assert_eq!(classify_variant("determinate lix"), NixVariant::Determinate);
    assert_eq!(classify_variant("lix 2.92"), NixVariant::Lix);
    assert_eq!(classify_variant("plain"), NixVariant::Nix);
}

#[test]
fn target_profile_descends_into_specialisation() {
    assert_eq!(get_target_profile("/out/result", &None), "/out/result");
    assert_eq!(
        get_target_profile("/out/result", &Some("gaming".to_string())),
        "/out/result/specialisation/gaming"
    );
}

#[test]
fn test_normalize_version_string_with_real_nix_versions() {
    // Test the exact format you mentioned
    assert_eq!(
        normalize_version_string("2.30pre20250521_76a4d4c2"),
        "2.30.0"
    );

    // Test other real Nix version formats
    assert_eq!(normalize_version_string("2.25.0-pre"), "2.25.0");
    assert_eq!(normalize_version_string("2.24.14-1"), "2.24.14");
    assert_eq!(normalize_version_string("2.91.1"), "2.91.1");
    assert_eq!(normalize_version_string("2.18"), "2.18.0");

    // Test edge cases
    assert_eq!(normalize_version_string("3.0dev"), "3.0.0");
    assert_eq!(normalize_version_string("2.22rc1"), "2.22.0");
    assert_eq!(normalize_version_string("2.19_git_abc123"), "2.19.0");

    // Test fallback cases where patch component is missing
    assert_eq!(normalize_version_string("1.2-beta"), "1.2.0");
    assert_eq!(normalize_version_string("3.4+build.1"), "3.4.0");
    assert_eq!(normalize_version_string("5.6_alpha"), "5.6.0");

    // Test fallback cases where both minor and patch are missing
    assert_eq!(normalize_version_string("2-rc1"), "2.0.0");
    assert_eq!(normalize_version_string("4+build"), "4.0.0");
    assert_eq!(normalize_version_string("7_dev"), "7.0.0");
}
