use std::collections::hash_map::DefaultHasher;
use std::hash::{Hash, Hasher};
use torii::config::historical_models;
use torii::error::RunError;
use torii::events::{Event, Felt};
use torii::register_model_with_schema::{
    Layout, Model, RegisterError, RegisterModelWithSchemaProcessor, Registration,
};
use torii::selector::{hash_selector, same_felt};

fn felt(hex: &str) -> Felt {
    Felt { bytes: starknet_crypto::Felt::from_hex(hex).unwrap().to_bytes_be() }
}

fn namespace_model() -> Felt {
    felt("0x6cfe11a346c1bb31de8f454d65880454952e22d9adc2374fe67734196e0cbcb")
}

#[test]
fn key_and_validation() {
    let processor = RegisterModelWithSchemaProcessor;
    assert_eq!(processor.event_key(), "ModelWithSchemaRegistered");
    let event = Event { from_address: felt("0x1"), keys: vec![], data: vec![] };
    assert!(processor.validate(&event));
}

#[test]
fn task_is_the_hash_of_the_selector() {
    let processor = RegisterModelWithSchemaProcessor;
    let selector = dojo_types::naming::compute_selector_from_names("namespace", "model");
    let mut hasher = DefaultHasher::new();
    selector.hash(&mut hasher);
    let expected = hasher.finish();
    assert_eq!(processor.task_identifier("namespace", "model"), expected);
    assert_eq!(hash_selector(&namespace_model()), expected);
    assert_ne!(processor.task_identifier("model", "namespace"), expected);
}

#[test]
fn model_that_is_not_indexed_is_ignored() {
    let processor = RegisterModelWithSchemaProcessor;
    assert!(processor.process("namespace".to_string(), "model".to_string(), false, 5).is_none());
}

#[test]
fn storage_and_cache_are_told_the_model() {
    let processor = RegisterModelWithSchemaProcessor;
    let pending =
        processor.process("namespace".to_string(), "model".to_string(), true, 5).unwrap();
    assert_eq!(pending.selector, namespace_model());
    let registration: Registration<&str> =
        pending.with_schema::<&str, String, String>(Ok("schema")).unwrap();
    assert_eq!(registration.selector, namespace_model());
    assert_eq!(registration.schema, "schema");
    assert_eq!(registration.block_timestamp, 5);
    assert_eq!(registration.class_hash, Felt { bytes: [0; 32] });
    assert_eq!(registration.contract_address, Felt { bytes: [0; 32] });
    assert_eq!((registration.packed_size, registration.unpacked_size), (0, 0));
    assert!(registration.schema_diff.is_none() && registration.upgrade_diff.is_none());
    assert!(!registration.use_legacy_store);
    let model: Model<&str> = registration.stored::<String, String>(Ok(())).unwrap();
    assert_eq!(model.selector, namespace_model());
    assert_eq!(model.namespace, "namespace");
    assert_eq!(model.name, "model");
    assert_eq!(model.schema, "schema");
    assert!(!model.use_legacy_store);
    let Layout::Fixed(bits) = model.layout;
    assert!(bits.is_empty());
}

#[test]
fn schema_that_cannot_be_parsed() {
    let pending = RegisterModelWithSchemaProcessor
        .process("namespace".to_string(), "model".to_string(), true, 5)
        .unwrap();
    let error = pending.with_schema::<u8, &str, &str>(Err("bad")).unwrap_err();
    assert!(matches!(error, RegisterError::Parse("bad")));
}

#[test]
fn storage_that_refuses_a_model() {
    let registration = RegisterModelWithSchemaProcessor
        .process("namespace".to_string(), "model".to_string(), true, 5)
        .unwrap()
        .with_schema::<u8, &str, &str>(Ok(1))
        .unwrap();
    let error = registration.stored::<&str, &str>(Err("full")).unwrap_err();
    assert!(matches!(error, RegisterError::Storage("full")));
}

#[test]
fn tags_name_models() {
    let tags = vec![
        "namespace-model".to_string(),
        "other-model".to_string(),
        "namespace-model".to_string(),
    ];
    let models = historical_models(&tags).unwrap();
    assert_eq!(models.len(), 2);
    assert_eq!(models[0], namespace_model());
    assert!(!same_felt(&models[0], &models[1]));
    assert!(same_felt(&models[0], &namespace_model()));
    assert!(historical_models(&vec![]).unwrap().is_empty());
}

#[test]
fn first_invalid_tag_is_refused() {
    for bad in ["inv-alid-tag fh", "model", ""] {
        let tags = vec!["namespace-model".to_string(), bad.to_string(), "x".to_string()];
        match historical_models(&tags) {
            Err(RunError::InvalidModelTag(tag)) => assert_eq!(tag, bad),
            _ => panic!("the tag was taken"),
        }
    }
}

#[test]
fn tags_with_empty_parts_are_tags() {
    let models = historical_models(&vec!["-".to_string(), "a-".to_string()]).unwrap();
    assert_eq!(models.len(), 2);
}
