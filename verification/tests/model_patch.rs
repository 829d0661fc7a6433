use snout::model_patch::{
    apply_model_patch, has_model_patch, is_model_patched, load_patch_doc, patch_model,
    remove_model_patch, store_patch_doc, toggle_model_patch, unpatch_model, ModelPatchError,
    PatchToggle,
};

#[test]
fn patch_model_fails_fast_on_invalid_yaml() {
    let result = patch_model(Some("patch: [broken"));
    assert_eq!(result, Err(ModelPatchError::Parse));
}

#[test]
fn is_model_patched_returns_false_on_invalid_yaml() {
    assert!(!is_model_patched(Some("patch: [broken")));
}

#[test]
fn patch_and_unpatch_model_round_trip() {
    let patched = patch_model(None).expect("patch model");
    assert!(is_model_patched(Some(&patched)));

    let unpatched = unpatch_model(Some(&patched)).expect("unpatch model").expect("text");
    assert!(!is_model_patched(Some(&unpatched)));
}

#[test]
fn patch_keeps_other_settings() {
    let text = "patch:\n  speller/algebra: x\nother: 1\n";
    let patched = patch_model(Some(text)).unwrap();
    let doc: std::collections::HashMap<String, serde_yaml::Value> =
        serde_yaml::from_str(&patched).unwrap();
    assert_eq!(doc["other"], serde_yaml::Value::from(1));
    assert_eq!(doc["patch"]["speller/algebra"], serde_yaml::Value::from("x"));
    assert_eq!(
        doc["patch"]["grammar/language_model"],
        serde_yaml::Value::from("wanxiang-lts-zh-hans")
    );
    let unpatched = unpatch_model(Some(&patched)).unwrap().unwrap();
    let doc: std::collections::HashMap<String, serde_yaml::Value> =
        serde_yaml::from_str(&unpatched).unwrap();
    assert_eq!(doc["patch"]["speller/algebra"], serde_yaml::Value::from("x"));
    assert!(doc["patch"].get("grammar/language_model").is_none());
}

#[test]
fn a_patch_entry_that_is_not_a_mapping_is_refused() {
    assert_eq!(patch_model(Some("patch: 3\n")), Err(ModelPatchError::NotMapping));
    assert_eq!(unpatch_model(Some("patch: [a]\n")), Err(ModelPatchError::NotMapping));
}

#[test]
fn unpatching_a_missing_file_writes_nothing() {
    assert_eq!(unpatch_model(None), Ok(None));
    assert!(!is_model_patched(None));
}

#[test]
fn document_operations() {
    let doc = load_patch_doc("patch:\n  grammar/language_model: other\n").ok().unwrap();
    assert!(has_model_patch(&doc));
    let doc = remove_model_patch(doc).ok().unwrap();
    assert!(!has_model_patch(&doc));
    let doc = apply_model_patch(doc).ok().unwrap();
    assert!(has_model_patch(&doc));
}

#[test]
fn loading_refuses_exactly_unparsable_text() {
    assert_eq!(load_patch_doc("patch: [broken").err(), Some(ModelPatchError::Parse));
    let doc = load_patch_doc("a: 1\npatch:\n  x: y\n  7: z\n").ok().unwrap();
    assert_eq!(doc.entries.len(), 2);
    assert!(!has_model_patch(&doc));
}

#[test]
fn a_stored_document_reads_back_with_its_keys() {
    let doc = load_patch_doc("patch:\n  grammar/language_model: m\n  1: one\nflag: true\n")
        .ok()
        .unwrap();
    let text = store_patch_doc(doc).unwrap();
    let back: std::collections::HashMap<String, serde_yaml::Value> =
        serde_yaml::from_str(&text).unwrap();
    assert_eq!(back["flag"], serde_yaml::Value::Bool(true));
    assert_eq!(back["patch"]["grammar/language_model"], serde_yaml::Value::from("m"));
    let patch = back["patch"].as_mapping().unwrap();
    assert_eq!(patch.get(&serde_yaml::Value::from(1)), Some(&serde_yaml::Value::from("one")));
    assert!(is_model_patched(Some(&text)));
}

#[test]
fn toggling_flips_the_patched_state() {
    let on = match toggle_model_patch(None) {
        Ok(PatchToggle::Enabled(text)) => text,
        _ => panic!("a missing file is patched"),
    };
    assert!(is_model_patched(Some(&on)));
    let off = match toggle_model_patch(Some(&on)) {
        Ok(PatchToggle::Disabled(text)) => text,
        _ => panic!("a patched file is unpatched"),
    };
    assert!(!is_model_patched(Some(&off)));
    assert!(matches!(toggle_model_patch(Some("patch: [broken")), Err(ModelPatchError::Parse)));
}
