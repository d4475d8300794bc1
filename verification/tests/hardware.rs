use maelstrom::hardware::{build_profile, AdapterClass, GraphicsAdapter};

fn adapter(name: &str, vendor: u32, class: AdapterClass) -> GraphicsAdapter {
    GraphicsAdapter {
        name: name.into(),
        vendor,
        device: name.len() as u32,
        class,
        backend: "Dx12".into(),
    }
}

#[test]
fn hybrid_system_uses_discrete_for_render_and_intel_for_media() {
    let profile = build_profile(vec![
        adapter("Discrete", 0x10de, AdapterClass::Discrete),
        adapter("Intel UHD", 0x8086, AdapterClass::Integrated),
    ]);
    assert_eq!(profile.render_adapter.as_deref(), Some("Discrete"));
    assert_eq!(profile.media_adapter.as_deref(), Some("Intel UHD"));
    assert!(profile.has_discrete_gpu);
    assert!(profile.has_integrated_gpu);
    assert!(profile.has_nvidia_gpu);
    assert!(profile.intel_quick_sync_candidate);
}

#[test]
fn duplicate_backend_entries_are_collapsed() {
    let first = adapter("GPU", 0x10de, AdapterClass::Discrete);
    let mut second = first.clone();
    second.backend = "Vulkan".into();
    let profile = build_profile(vec![first, second]);
    assert_eq!(profile.adapters.len(), 1);
}

#[test]
fn software_only_system_does_not_claim_hardware_acceleration() {
    let profile = build_profile(vec![adapter("WARP", 0x1414, AdapterClass::Software)]);
    assert!(!profile.has_discrete_gpu);
    assert!(!profile.has_integrated_gpu);
    assert!(!profile.intel_quick_sync_candidate);
    assert!(!profile.has_nvidia_gpu);
    assert!(profile.render_adapter.is_none());
}

#[test]
fn media_work_falls_back_to_any_adapter() {
    let software = build_profile(vec![adapter("WARP", 0x1414, AdapterClass::Software)]);
    assert_eq!(software.media_adapter.as_deref(), Some("WARP"));
    let other = build_profile(vec![
        adapter("Radeon iGPU", 0x1002, AdapterClass::Integrated),
        adapter("Arc", 0x8086, AdapterClass::Discrete),
    ]);
    assert_eq!(other.media_adapter.as_deref(), Some("Arc"));
    assert_eq!(other.render_adapter.as_deref(), Some("Arc"));
    assert!(!other.intel_quick_sync_candidate);
    assert!(!other.has_nvidia_gpu);
    assert!(build_profile(Vec::new()).media_adapter.is_none());
}

#[test]
fn the_first_entry_of_an_adapter_stays() {
    let first = adapter("GPU", 0x10de, AdapterClass::Discrete);
    let mut second = first.clone();
    second.backend = "Vulkan".into();
    let mut third = first.clone();
    third.device += 1;
    let profile = build_profile(vec![first.clone(), second, third.clone()]);
    assert_eq!(profile.adapters, vec![first, third]);
    assert_eq!(profile.clone(), profile);
}
