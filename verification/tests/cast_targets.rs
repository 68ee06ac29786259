use javars::host::classes::{checkable_cast_targets, is_checkable_cast_target, jdk_supers};

/// Every supertype reachable from a checkable target is itself checkable.
#[test]
fn castable_targets_are_closed_over_the_supertype_graph() {
    let mut missing: Vec<String> = Vec::new();
    for t in checkable_cast_targets() {
        for sup in jdk_supers(t) {
            if !is_checkable_cast_target(sup) {
                missing.push(format!("{t} -> {sup}"));
            }
        }
    }
    assert!(
        missing.is_empty(),
        "supertypes reachable from a checkable target but not checkable \
         themselves (the cast would decline to check them):\n  {}",
        missing.join("\n  ")
    );
}

/// The internal names exist so a shape can carry supertypes without a user type
/// being able to name one.
#[test]
fn the_internal_shape_names_are_unwritable_but_still_carry_supertypes() {
    for internal in [
        "[]",
        "List$immutable",
        "List$fixed",
        "List$sub",
        "Set$immutable",
    ] {
        assert!(
            !is_checkable_cast_target(internal),
            "`{internal}` is not a legal Java type name and must not be a cast target"
        );
        assert!(
            !jdk_supers(internal).is_empty(),
            "`{internal}` carries no supertypes, so a value wearing it reaches nothing"
        );
    }
}

/// Every value is an `Object`, so a check would only cost time.
#[test]
fn object_is_not_a_checkable_target() {
    assert!(!is_checkable_cast_target("Object"));
}
