//! Product manifests, installation identities and the errors of the protocol.

use arcrelay_protocol::error::ProtocolError;
use arcrelay_protocol::product::{
    bounded_millis, is_uuid_v4, now_ms, ActivationPolicy, CapabilityId, ProductInstallation,
    ProductManifest, PRODUCT_INSTALLATION_SCHEMA_VERSION, PRODUCT_MANIFEST_SCHEMA_VERSION,
};

fn assert_invalid(mutator: impl FnOnce(&mut ProductManifest)) {
    let mut manifest = ProductManifest::transfer();
    mutator(&mut manifest);
    assert!(manifest.validate().is_err());
}

#[test]
fn built_in_suite_and_transfer_manifests_have_stable_interoperability_ids() {
    let suite = ProductManifest::suite();
    let transfer = ProductManifest::transfer();

    suite.validate().unwrap();
    transfer.validate().unwrap();
    assert_eq!(suite.product_id, "com.arcrelay.suite");
    assert_eq!(transfer.product_id, "com.arcrelay.transfer");
    assert_eq!(transfer.product_code, "xfer");
    assert!(suite.supports(CapabilityId::Transfer));
    assert!(transfer.supports(CapabilityId::Transfer));
    assert!(ProductManifest::for_product_id("com.arcrelay.unknown").is_none());
}

#[test]
fn manifest_rejects_duplicate_modules_and_unsafe_identifiers() {
    let mut manifest = ProductManifest::transfer();
    manifest.included_modules.push(CapabilityId::Transfer);
    assert!(manifest.validate().is_err());

    let mut manifest = ProductManifest::transfer();
    manifest.product_id = "ArcRelay Transfer/../../".into();
    assert!(manifest.validate().is_err());
}

#[test]
fn product_code_and_id_lookups_are_bidirectional_for_built_ins() {
    for (code, id) in [
        ("suite", "com.arcrelay.suite"),
        ("xfer", "com.arcrelay.transfer"),
    ] {
        assert_eq!(ProductManifest::product_id_for_code(code), Some(id));
        assert_eq!(
            ProductManifest::for_product_id(id).unwrap().product_code,
            code
        );
    }
    assert_eq!(ProductManifest::product_id_for_code("unknown"), None);
    assert_eq!(
        ProductManifest::for_product_id("com.arcrelay.unknown"),
        None
    );
}

#[test]
fn manifest_validation_rejects_every_invalid_field_shape() {
    assert_invalid(|manifest| manifest.schema_version += 1);
    assert_invalid(|manifest| manifest.product_id = "only.two".into());
    assert_invalid(|manifest| manifest.product_id = "com.-arcrelay.transfer".into());
    assert_invalid(|manifest| manifest.product_code = "Too_Long!".into());
    assert_invalid(|manifest| manifest.display_name = " \n".into());
    assert_invalid(|manifest| manifest.display_name = "x".repeat(65));
    assert_invalid(|manifest| manifest.display_name = "bad\0name".into());
    assert_invalid(|manifest| manifest.data_namespace = "-namespace".into());
    assert_invalid(|manifest| manifest.included_modules.clear());
    assert_invalid(|manifest| manifest.included_modules = vec![CapabilityId::Transfer; 33]);
    assert_invalid(|manifest| manifest.included_modules.push(CapabilityId::Transfer));
    assert_invalid(|manifest| {
        manifest.default_activation_policy.clear();
    });
    assert_invalid(|manifest| manifest.enabled_ui_routes = vec!["transfer".into(); 2]);
    assert_invalid(|manifest| manifest.enabled_ui_routes = vec!["Bad Route".into()]);
    assert_invalid(|manifest| {
        manifest.enabled_ui_routes = (0..33).map(|i| format!("r{i}")).collect()
    });
}

fn installation(id: &str, created_at_ms: i64) -> ProductInstallation {
    ProductInstallation {
        schema_version: PRODUCT_INSTALLATION_SCHEMA_VERSION,
        product_id: ProductManifest::transfer().product_id,
        installation_id: id.to_owned(),
        created_at_ms,
    }
}

const RANDOM_ID: &str = "7d444840-9dc0-41d1-b245-5ffdce74fad2";

#[test]
fn installation_id_is_stable_and_cannot_cross_product_boundaries() {
    let first = ProductInstallation::load_or_create(None, &ProductManifest::transfer()).unwrap();
    let second =
        ProductInstallation::load_or_create(Some(first.clone()), &ProductManifest::transfer())
            .unwrap();

    assert_eq!(first, second);
    assert!(uuid::Uuid::parse_str(&first.installation_id).is_ok());
    assert!(
        ProductInstallation::load_or_create(Some(first.clone()), &ProductManifest::suite()).is_err()
    );
    first.check(&ProductManifest::transfer()).unwrap();
    assert_eq!(
        first.check(&ProductManifest::suite()).unwrap_err().message(),
        "product context error: product installation identity does not match this product"
    );
}

#[test]
fn loading_rejects_malformed_or_tampered_installation_files() {
    let manifest = ProductManifest::transfer();
    let load = |stored: ProductInstallation| {
        ProductInstallation::load_or_create(Some(stored), &manifest)
    };

    assert_eq!(load(installation(RANDOM_ID, 1)).unwrap(), installation(RANDOM_ID, 1));
    let mut newer = installation(RANDOM_ID, 1);
    newer.schema_version += 1;
    assert!(load(newer).is_err());
    let nil = uuid::Uuid::nil().to_string();
    assert!(load(installation(&nil, 1)).is_err());
    assert!(load(installation(RANDOM_ID, 0)).is_err());
    assert!(load(installation("not an id", 1)).is_err());
}

#[test]
fn installation_creation_rejects_an_invalid_manifest_without_writing() {
    let mut manifest = ProductManifest::transfer();
    manifest.product_code.clear();

    assert!(ProductInstallation::create(&manifest).is_err());
    assert!(ProductInstallation::load_or_create(None, &manifest).is_err());
    assert!(
        ProductInstallation::load_or_create(Some(installation(RANDOM_ID, 1)), &manifest).is_err()
    );
}

#[test]
fn a_given_identity_is_kept_as_it_is() {
    let made =
        ProductInstallation::with_identity(&ProductManifest::suite(), RANDOM_ID.to_owned(), 7)
            .unwrap();
    assert_eq!(made.schema_version, 1);
    assert_eq!(made.product_id, "com.arcrelay.suite");
    assert_eq!(made.installation_id, RANDOM_ID);
    assert_eq!(made.created_at_ms, 7);
}

#[test]
fn only_random_uuids_identify_an_installation() {
    assert!(is_uuid_v4(RANDOM_ID));
    assert!(is_uuid_v4("7D444840-9DC0-41D1-B245-5FFDCE74FAD2"));
    assert!(!is_uuid_v4("7d444840-9dc0-11d1-b245-5ffdce74fad2"));
    assert!(!is_uuid_v4("00000000-0000-0000-0000-000000000000"));
    assert!(!is_uuid_v4(""));
    assert!(!is_uuid_v4("7d444840-9dc0-41d1-b245"));
}

#[test]
fn each_created_installation_is_another() {
    let manifest = ProductManifest::suite();
    let a = ProductInstallation::create(&manifest).unwrap();
    let b = ProductInstallation::create(&manifest).unwrap();
    assert_ne!(a.installation_id, b.installation_id);
    assert!(is_uuid_v4(&a.installation_id));
    assert_eq!(a.installation_id.len(), 36);
    assert!(a.created_at_ms >= 1_600_000_000_000);
}

#[test]
fn time_is_counted_in_milliseconds_and_bounded() {
    assert_eq!(bounded_millis(12), 12);
    assert_eq!(bounded_millis(u128::MAX), i64::MAX);
    assert!(now_ms() >= 1_600_000_000_000);
}

#[test]
fn built_in_manifests_start_on_demand() {
    let transfer = ProductManifest::transfer();
    assert_eq!(transfer.schema_version, PRODUCT_MANIFEST_SCHEMA_VERSION);
    assert!(!transfer.supports(CapabilityId::Mouse));
    assert_eq!(
        transfer.default_activation_policy.get(CapabilityId::Transfer),
        Some(ActivationPolicy::OnDemand)
    );
    assert_eq!(transfer.default_activation_policy.get(CapabilityId::Print), None);
}

#[test]
fn an_activation_policy_can_be_set_and_changed() {
    let mut manifest = ProductManifest::transfer();
    manifest
        .default_activation_policy
        .insert(CapabilityId::Transfer, ActivationPolicy::Always);
    assert!(manifest.validate().is_ok());
    assert_eq!(
        manifest.default_activation_policy.get(CapabilityId::Transfer),
        Some(ActivationPolicy::Always)
    );
    manifest
        .default_activation_policy
        .insert(CapabilityId::Mouse, ActivationPolicy::Scheduled);
    assert!(manifest.validate().is_err());
}

#[test]
fn errors_have_stable_categories_and_texts() {
    let cases = [
        (
            ProtocolError::Io("broken pipe".into()),
            "protocol.unavailable",
            "I/O error: broken pipe",
        ),
        (
            ProtocolError::Serialization("eof".into()),
            "protocol.serialization",
            "serialization error: eof",
        ),
        (
            ProtocolError::Discovery("no peer".into()),
            "protocol.discovery",
            "discovery error: no peer",
        ),
        (
            ProtocolError::ConnectionRejected,
            "protocol.permission_denied",
            "connection rejected by peer",
        ),
        (
            ProtocolError::ConnectionClosed,
            "protocol.unavailable",
            "connection closed",
        ),
        (
            ProtocolError::HandshakeFailed("bad key".into()),
            "protocol.handshake_failed",
            "TLS handshake failed: bad key",
        ),
        (
            ProtocolError::MessageTooLarge(1234),
            "protocol.resource_exhausted",
            "message too large: 1234 bytes",
        ),
        (
            ProtocolError::RemoteFile("bad frame".into()),
            "protocol.remote_file_codec",
            "bad frame",
        ),
        (
            ProtocolError::Other("failed".into()),
            "protocol.operation_failed",
            "failed",
        ),
    ];
    for (error, code, text) in cases {
        assert_eq!(error.code(), code);
        assert_eq!(error.message(), text);
    }
}
