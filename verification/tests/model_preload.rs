use maelstrom::model_preload::{
    check_manifest, check_manifest_size, manifest_failure, preload_error,
    safe_relative_model_path, ManifestStage, ModelEntry, ModelPath, ModelPreloadResult,
    ModelPreloader, PathComponent, MAX_MANIFEST_BYTES,
};
use std::path::{Component, Path};
use std::sync::Arc;

fn model_path(text: &str) -> ModelPath {
    let path = Path::new(text);
    ModelPath {
        text: text.to_owned(),
        is_empty: path.as_os_str().is_empty(),
        is_absolute: path.is_absolute(),
        components: path
            .components()
            .map(|component| match component {
                Component::Prefix(_) => PathComponent::Prefix,
                Component::RootDir => PathComponent::RootDir,
                Component::CurDir => PathComponent::CurDir,
                Component::ParentDir => PathComponent::ParentDir,
                Component::Normal(_) => PathComponent::Normal,
            })
            .collect(),
    }
}

fn entry(id: &str, file: &str, expected_bytes: Option<u64>) -> ModelEntry {
    ModelEntry {
        id: id.to_owned(),
        file: model_path(file),
        expected_bytes,
    }
}

fn preload(entries: Vec<ModelEntry>, files: &[(&str, &[u8])]) -> ModelPreloadResult {
    let mut preloader = ModelPreloader::new();
    for entry in &entries {
        if !preloader.accept_entry(entry) {
            continue;
        }
        let read = files
            .iter()
            .find(|(name, _)| *name == entry.file.text)
            .map(|(_, bytes)| Arc::from(*bytes))
            .ok_or_else(|| "no such file".to_owned());
        preloader.take_file(entry, &format!("models/{}", entry.file.text), read);
    }
    preloader.finish()
}

#[test]
fn absent_manifest_is_a_ready_empty_registry() {
    let loaded = ModelPreloadResult::empty();
    assert_eq!(loaded.models.len(), 0);
    assert!(loaded.errors.is_empty());
}

#[test]
fn manifest_models_are_retained_by_stable_id() {
    assert!(check_manifest("models.json", 1, 2).is_none());
    let loaded = preload(
        vec![
            entry("speech", "speech.bin", Some(4)),
            entry("vision", "vision.bin", Some(3)),
        ],
        &[("speech.bin", &[1, 2, 3, 4]), ("vision.bin", &[5, 6, 7])],
    );
    assert!(loaded.errors.is_empty(), "{:?}", loaded.errors);
    assert_eq!(loaded.models.len(), 2);
    assert_eq!(loaded.models.total_bytes(), 7);
    assert_eq!(
        loaded.models.get(&"speech".to_owned()).as_deref(),
        Some([1, 2, 3, 4].as_slice())
    );
    assert_eq!(
        loaded.models.get(&"vision".to_owned()).as_deref(),
        Some([5, 6, 7].as_slice())
    );
}

#[test]
fn unsafe_duplicate_missing_and_size_mismatch_entries_are_rejected_independently() {
    let loaded = preload(
        vec![
            entry("good", "good.bin", Some(2)),
            entry("good", "good.bin", None),
            entry("escape", "../outside.bin", None),
            entry("missing", "missing.bin", None),
            entry("wrong-size", "good.bin", Some(99)),
        ],
        &[("good.bin", &[9, 8])],
    );
    assert_eq!(loaded.models.len(), 1);
    assert_eq!(
        loaded.models.get(&"good".to_owned()).as_deref(),
        Some([9, 8].as_slice())
    );
    assert_eq!(loaded.errors.len(), 4);
    assert!(loaded
        .errors
        .iter()
        .any(|error| error.contains("Duplicate")));
    assert!(loaded
        .errors
        .iter()
        .any(|error| error.contains("unsafe path")));
    assert!(loaded
        .errors
        .iter()
        .any(|error| error.contains("Could not preload")));
    assert!(loaded
        .errors
        .iter()
        .any(|error| error.contains("size mismatch")));
}

#[test]
fn errors_are_spelled_out() {
    let loaded = preload(
        vec![
            entry(" \t\u{3000}", "a.bin", None),
            entry("a", "a.bin", Some(3)),
            entry("a", "b.bin", None),
            entry("b", "/abs.bin", None),
            entry("c", "c.bin", None),
        ],
        &[("a.bin", &[1])],
    );
    assert_eq!(
        loaded.errors,
        vec![
            "Model manifest contains an empty id",
            "Model 'a' size mismatch: expected 3 bytes, found 1",
            "Duplicate model id 'a'",
            "Model 'b' uses an unsafe path: /abs.bin",
            "Could not preload model 'c' from models/c.bin: no such file",
        ]
    );
    assert_eq!(loaded.models.len(), 0);
    assert!(loaded.models.get(&"a".to_owned()).is_none());
}

#[test]
fn manifests_are_bounded() {
    assert!(check_manifest_size("m.json", MAX_MANIFEST_BYTES).is_none());
    assert_eq!(
        check_manifest_size("m.json", MAX_MANIFEST_BYTES + 1).unwrap(),
        "Model manifest m.json is too large (1048577 bytes; maximum 1048576)"
    );
    assert_eq!(
        check_manifest("m.json", 2, 0).unwrap(),
        "Unsupported model manifest version 2 in m.json; expected 1"
    );
    assert!(check_manifest("m.json", 1, 64).is_none());
    assert_eq!(
        check_manifest("m.json", 1, 65).unwrap(),
        "Model manifest m.json contains 65 entries; maximum is 64"
    );
    let failed = preload_error("broken".to_owned());
    assert_eq!(failed.errors, vec!["broken"]);
    assert_eq!(failed.models.len(), 0);
}

#[test]
fn only_plain_relative_paths_are_safe() {
    assert!(safe_relative_model_path(&model_path("a/b.bin")));
    for unsafe_path in ["", "/a.bin", "../a.bin", "a/../b.bin", "./a.bin"] {
        assert!(!safe_relative_model_path(&model_path(unsafe_path)));
    }
}

#[test]
fn a_manifest_failure_names_its_stage() {
    for (stage, word) in [
        (ManifestStage::Inspect, "inspect"),
        (ManifestStage::Read, "read"),
        (ManifestStage::Parse, "parse"),
    ] {
        let message = manifest_failure(stage, "models.json", "denied");
        assert_eq!(
            message,
            format!("Could not {word} model manifest models.json: denied")
        );
        let result = preload_error(message.clone());
        assert_eq!(result.errors, vec![message]);
        assert_eq!(result.models.len(), 0);
    }
}
