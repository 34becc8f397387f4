use pixofold_core::ingress::{
    IngressError, NativeImportGrant, NativeImports, NativeRoot, GRANT_TTL_MILLIS,
    MAX_NATIVE_IMPORT_ROOTS, MAX_PATH_UNITS,
};

fn root() -> NativeRoot {
    let path = String::from("/tmp/native-selected.png");
    let units = path.len();
    NativeRoot { path, absolute: true, units }
}

fn grant(imports: &mut NativeImports, session: u64, now: u64) -> NativeImportGrant {
    let permit = imports.reserve(session).unwrap();
    imports.complete(permit, session, Some(vec![root()]), now).unwrap().unwrap()
}

#[test]
fn single_dialog_cancel_empty_and_unwind_release_the_slot() {
    let mut imports = NativeImports::new();
    let permit = imports.reserve(1).unwrap();
    assert_eq!(imports.reserve(2), Err(IngressError::SelectionBusy));
    assert_eq!(imports.complete(permit, 1, None, 0), Ok(None));
    let second = imports.reserve(2).unwrap();
    assert_eq!(imports.complete(second, 2, Some(vec![]), 0), Ok(None));
    // A permit that never completes (its native call failed) is released.
    let abandoned = imports.reserve(1).unwrap();
    imports.release(abandoned);
    assert!(imports.reserve(1).is_ok());
}

#[test]
fn grants_are_single_use_session_bound_and_replaced_without_exposing_paths() {
    let mut imports = NativeImports::new();
    let first = grant(&mut imports, 1, 0);
    let latest = grant(&mut imports, 2, 0);
    assert_ne!(first.grant_id, latest.grant_id);
    assert_eq!(imports.grant_roots(1, first.grant_id, 0), Err(IngressError::StaleGrant));
    assert_eq!(imports.grant_roots(1, latest.grant_id, 0), Err(IngressError::StaleGrant));
    // A refused import keeps the grant for a retry.
    assert_eq!(
        imports.grant_roots(2, latest.grant_id, 0),
        Ok(vec![String::from("/tmp/native-selected.png")])
    );
    assert_eq!(
        imports.grant_roots(2, latest.grant_id, 0),
        Ok(vec![String::from("/tmp/native-selected.png")])
    );
    imports.consumed(latest.grant_id);
    assert_eq!(imports.grant_roots(2, latest.grant_id, 0), Err(IngressError::StaleGrant));
    assert_eq!(latest.root_count, 1);
}

#[test]
fn expiration_limits_absolute_paths_and_close_fail_without_side_effects() {
    let mut imports = NativeImports::new();
    let expired = grant(&mut imports, 1, 1000);
    assert_eq!(
        imports.grant_roots(1, expired.grant_id, 1000 + GRANT_TTL_MILLIS - 1).map(|r| r.len()),
        Ok(1)
    );
    assert_eq!(
        imports.grant_roots(1, expired.grant_id, 1000 + GRANT_TTL_MILLIS),
        Err(IngressError::StaleGrant)
    );
    let relative = NativeRoot { path: String::from("relative.png"), absolute: false, units: 12 };
    let too_long = NativeRoot { path: String::from("/long"), absolute: true, units: MAX_PATH_UNITS + 1 };
    let many: Vec<NativeRoot> = (0..MAX_NATIVE_IMPORT_ROOTS + 1).map(|_| root()).collect();
    for roots in [vec![relative], many, vec![too_long]] {
        let permit = imports.reserve(1).unwrap();
        assert_eq!(
            imports.complete(permit, 1, Some(roots), 0),
            Err(IngressError::InvalidSelection)
        );
    }
    // The invalid selections freed the slot.
    let pending = imports.reserve(1).unwrap();
    imports.close();
    assert_eq!(imports.complete(pending, 1, Some(vec![root()]), 0), Err(IngressError::Closed));
    assert_eq!(imports.reserve(2), Err(IngressError::Closed));
    assert_eq!(imports.grant_roots(1, expired.grant_id, 0), Err(IngressError::Closed));
}

#[test]
fn a_stale_permit_or_foreign_session_cannot_complete() {
    let mut imports = NativeImports::new();
    let permit = imports.reserve(7).unwrap();
    assert_eq!(imports.complete(permit, 8, Some(vec![root()]), 0), Err(IngressError::StaleGrant));
    assert_eq!(imports.complete(permit + 1, 7, Some(vec![root()]), 0), Err(IngressError::StaleGrant));
    let done = imports.complete(permit, 7, Some(vec![root(), root()]), 5).unwrap().unwrap();
    assert_eq!(done, NativeImportGrant { grant_id: permit, root_count: 2 });
    // The dialog is gone, so completing again is stale.
    assert_eq!(imports.complete(permit, 7, None, 0), Err(IngressError::StaleGrant));
}

#[test]
fn grant_expiry_saturates_at_the_end_of_the_clock() {
    let mut imports = NativeImports::new();
    let late = grant(&mut imports, 3, u64::MAX - 1);
    assert_eq!(imports.grant_roots(3, late.grant_id, u64::MAX - 1).map(|r| r.len()), Ok(1));
    assert_eq!(imports.grant_roots(3, late.grant_id, u64::MAX), Err(IngressError::StaleGrant));
}

#[test]
fn total_path_units_exactly_at_the_limit_are_accepted() {
    let mut imports = NativeImports::new();
    let half = MAX_PATH_UNITS / 2;
    let a = NativeRoot { path: String::from("/a"), absolute: true, units: half };
    let b = NativeRoot { path: String::from("/b"), absolute: true, units: MAX_PATH_UNITS - half };
    let permit = imports.reserve(1).unwrap();
    let granted = imports.complete(permit, 1, Some(vec![a, b]), 0).unwrap().unwrap();
    assert_eq!(granted.root_count, 2);
    assert_eq!(
        imports.grant_roots(1, granted.grant_id, 0),
        Ok(vec![String::from("/a"), String::from("/b")])
    );
}
