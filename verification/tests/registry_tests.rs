use crustyimg::operation::registry::{OpKind, OperationRegistry, RegistryError};
use crustyimg::recipe::from_registry_error;

#[test]
fn with_builtins_contains_identity_and_invert() {
    let reg = OperationRegistry::with_builtins();
    assert!(reg.contains("identity"), "expected 'identity' to be registered");
    assert!(reg.contains("invert"), "expected 'invert' to be registered");
    assert!(!reg.contains("bogus"), "'bogus' should not be registered");
}

#[test]
fn with_builtins_contains_resize() {
    let reg = OperationRegistry::with_builtins();
    assert!(reg.contains("resize"), "expected 'resize' to be registered");
}

#[test]
fn build_unknown_returns_typed_error() {
    let reg = OperationRegistry::with_builtins();
    let result = reg.build("bogus");
    assert!(
        matches!(result, Err(RegistryError::Unknown { ref name }) if name == "bogus"),
        "expected RegistryError::Unknown {{ name: \"bogus\" }}"
    );
}

#[test]
fn with_builtins_contains_auto_orient() {
    let reg = OperationRegistry::with_builtins();
    assert!(reg.contains("auto-orient"), "expected 'auto-orient' to be registered in with_builtins");
}

#[test]
fn build_auto_orient() {
    let reg = OperationRegistry::with_builtins();
    assert_eq!(reg.build("auto-orient"), Ok(OpKind::AutoOrient));
    assert_eq!(reg.build("resize"), Ok(OpKind::Resize));
}

#[test]
fn with_builtins_contains_watermark() {
    let reg = OperationRegistry::with_builtins();
    assert!(reg.contains("watermark"), "expected 'watermark' to be registered");
}

#[test]
fn watermark_declares_image_and_font_as_asset_keys() {
    let reg = OperationRegistry::with_builtins();
    assert_eq!(reg.asset_keys("watermark"), &["image", "font"]);
}

#[test]
fn an_ordinary_op_has_no_asset_keys() {
    let reg = OperationRegistry::with_builtins();
    assert!(reg.asset_keys("resize").is_empty(), "resize has no file-shaped params");
}

#[test]
fn unknown_op_has_no_asset_keys_and_does_not_panic() {
    let reg = OperationRegistry::with_builtins();
    assert!(reg.asset_keys("bogus").is_empty());
}

#[test]
fn re_registering_replaces_kind_and_asset_keys() {
    let mut reg = OperationRegistry::with_builtins();
    reg.register("watermark", OpKind::Identity);
    assert_eq!(reg.build("watermark"), Ok(OpKind::Identity));
    assert!(reg.asset_keys("watermark").is_empty());
    reg.register_with_assets("sentinel", OpKind::Invert, &["mask"]);
    assert_eq!(reg.build("sentinel"), Ok(OpKind::Invert));
    assert_eq!(reg.asset_keys("sentinel"), &["mask"]);
    let empty = OperationRegistry::new();
    assert!(!empty.contains("identity"));
    assert_eq!(
        from_registry_error(empty.build("identity").unwrap_err()).message(),
        "unknown operation 'identity'"
    );
}
