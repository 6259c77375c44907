use nh::commands::{ElevationStrategy, EnvAction};

#[test]
fn test_env_action_variants() {
    // Test that all EnvAction variants are correctly created
    let set_action = EnvAction::Assign("test_value".to_string());
    let preserve_action = EnvAction::Preserve;
    let remove_action = EnvAction::Remove;

    match set_action {
        EnvAction::Assign(val) => assert_eq!(val, "test_value"),
        _ => panic!("Expected Assign variant"),
    }

    assert!(matches!(preserve_action, EnvAction::Preserve));
    assert!(matches!(remove_action, EnvAction::Remove));
}

#[test]
fn test_env_action_debug() {
    let set_action = EnvAction::Assign("value".to_string());
    let preserve_action = EnvAction::Preserve;
    let remove_action = EnvAction::Remove;

    // Test that Debug is implemented (this will compile-fail if not)
    let _debug_set = format!("{set_action:?}");
    let _debug_preserve = format!("{preserve_action:?}");
    let _debug_remove = format!("{remove_action:?}");
}

#[test]
fn test_env_action_clone() {
    let original = EnvAction::Assign("value".to_string());
    let cloned = original.clone();

    match (original, cloned) {
        (EnvAction::Assign(orig_val), EnvAction::Assign(cloned_val)) => {
            assert_eq!(orig_val, cloned_val);
        }
        _ => panic!("Clone should preserve variant and value"),
    }
}

#[test]
fn elevation_strategy_compares() {
    assert_eq!(ElevationStrategy::Auto, ElevationStrategy::Auto);
    assert_eq!(
        ElevationStrategy::Force("sudo".to_string()),
        ElevationStrategy::Force("sudo".to_string())
    );
    assert_ne!(
        ElevationStrategy::Prefer("doas".to_string()),
        ElevationStrategy::Force("doas".to_string())
    );
}
