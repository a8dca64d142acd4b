use gpu_copy::scene::SceneInfo;
use gpu_copy::settings::{
    setup_exporters, GpuToCpuCpyPlugin, ImageExportSettings, ImageExportSystems,
    DEFAULT_EXPORT_NAME,
};

#[test]
fn settings_keep_their_name() {
    let settings = ImageExportSettings::new("vision".to_string());
    assert_eq!(settings.name, "vision");
    assert_eq!(settings.clone().name, "vision");
}

#[test]
fn default_settings_are_named_default_export() {
    assert_eq!(ImageExportSettings::default().name, "default_export");
    assert_eq!(DEFAULT_EXPORT_NAME, "default_export");
}

#[test]
fn exporters_are_stamped_with_the_next_frame() {
    let mut frame_id: u64 = 0;
    let first = setup_exporters(&mut frame_id);
    assert_eq!(frame_id, 1);
    assert_eq!(first.frame(), 1);
    let second = setup_exporters(&mut frame_id);
    assert_eq!(frame_id, 2);
    assert_eq!(second.frame(), 2);
    assert_eq!(first.frame(), 1);
}

#[test]
fn the_exporter_frame_counter_wraps() {
    let mut frame_id: u64 = u64::MAX;
    let start = setup_exporters(&mut frame_id);
    assert_eq!(frame_id, 0);
    assert_eq!(start.frame(), 0);
}

#[test]
fn the_two_system_sets_differ() {
    assert_eq!(ImageExportSystems::SetupImageExport, ImageExportSystems::SetupImageExport);
    assert_ne!(ImageExportSystems::SetupImageExport, ImageExportSystems::SetupImageExportFlush);
}

#[test]
fn the_plugin_builds_an_empty_registry() {
    let images = GpuToCpuCpyPlugin::default().build();
    assert!(images.is_empty());
    assert!(images.get(&"vision".to_string()).is_none());
}

#[test]
fn scene_info_keeps_its_dimensions() {
    assert_eq!(SceneInfo::new(1280, 720).dimensions(), (1280, 720));
    assert_eq!(SceneInfo::new(0, u32::MAX).dimensions(), (0, u32::MAX));
    assert_eq!(SceneInfo::default().dimensions(), (0, 0));
}
