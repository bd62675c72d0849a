use hinaview::layout_transition::{is_current_page_animated, layout_from_setting, max_gpu_setting_mb, must_leave_scroll_for_animation, plan_layout_transition, setting_for_layout, LayoutModeSetting};
use hinaview::types::LayoutMode;
use hinaview::bootstrap::graphics::{detect_vram_capacity_mb, fallback_vram_capacity_mb, GpuBackend, GpuDeviceType};
use hinaview::config::app_config::{AppConfig, WindowConfig};
use hinaview::config::window_snapshot::{apply_window_to_config, snapshot_from_window, WindowSnapshot};
use hinaview::document::opening::build_pages_with_initial_metadata;
use hinaview::window_title::compute_window_title;

#[test]
fn window_snapshots_need_a_position_and_a_size() {
    assert_eq!(snapshot_from_window((800, 600), None), None);
    assert_eq!(snapshot_from_window((0, 600), Some((1, 2))), None);
    let s = snapshot_from_window((800, 600), Some((-5, 40))).unwrap();
    assert_eq!(s, WindowSnapshot { width: 800, height: 600, x: -5, y: 40 });
    let mut config = AppConfig::default();
    apply_window_to_config(&mut config, s);
    assert_eq!(config.window, WindowConfig { width: 800, height: 600, x: -5, y: 40 });
    assert_eq!(config.locale, "en");
}

#[test]
fn window_title_names_the_current_page() {
    assert_eq!(compute_window_title(None, Some(3)), "HinaView");
    let (pages, _) = build_pages_with_initial_metadata(vec!["a.png".to_string(), "b.png".to_string()], None).unwrap();
    assert_eq!(compute_window_title(Some(("/books/vol", &pages)), Some(1)), "HinaView - /books/vol/b.png [2/2]");
    assert_eq!(compute_window_title(Some(("/books/vol", &pages)), None), "HinaView - /books/vol/a.png [1/2]");
    assert_eq!(compute_window_title(Some(("C:\\books", &pages)), Some(7)), "HinaView - C:/books [8/2]");
}

#[test]
fn vram_falls_back_by_adapter_kind() {
    assert_eq!(fallback_vram_capacity_mb(GpuBackend::Vulkan, GpuDeviceType::DiscreteGpu), 2048);
    assert_eq!(fallback_vram_capacity_mb(GpuBackend::Dx12, GpuDeviceType::IntegratedGpu), 1024);
    assert_eq!(fallback_vram_capacity_mb(GpuBackend::Metal, GpuDeviceType::Other), 512);
    assert_eq!(fallback_vram_capacity_mb(GpuBackend::Gl, GpuDeviceType::DiscreteGpu), 2048);
    assert_eq!(fallback_vram_capacity_mb(GpuBackend::Gl, GpuDeviceType::IntegratedGpu), 512);
    assert_eq!(fallback_vram_capacity_mb(GpuBackend::BrowserWebGpu, GpuDeviceType::DiscreteGpu), 256);
    assert_eq!(fallback_vram_capacity_mb(GpuBackend::Other, GpuDeviceType::DiscreteGpu), 512);
    assert_eq!(detect_vram_capacity_mb(Some(6000), GpuBackend::Gl, GpuDeviceType::Other), 6000);
    assert_eq!(detect_vram_capacity_mb(None, GpuBackend::Gl, GpuDeviceType::Other), 512);
}

#[test]
fn layout_transitions() {
    let dual = LayoutMode::Dual { rtl: true, first_page_offset: true };
    let t = plan_layout_transition(LayoutMode::Single, LayoutMode::VerticalScroll, true);
    assert_eq!(t.layout, LayoutMode::Single);
    assert!(t.refused_scroll_for_animation && !t.entering_dual && !t.reset_rotation);
    let t = plan_layout_transition(LayoutMode::Single, dual, false);
    assert!(t.entering_dual && t.reset_rotation && !t.refused_scroll_for_animation);
    let t = plan_layout_transition(dual, LayoutMode::Dual { rtl: false, first_page_offset: true }, false);
    assert!(!t.entering_dual && t.reset_rotation);
    let t = plan_layout_transition(dual, LayoutMode::VerticalScroll, false);
    assert_eq!(t.layout, LayoutMode::VerticalScroll);
    assert!(t.reset_rotation && !t.entering_dual);
    assert!(must_leave_scroll_for_animation(LayoutMode::VerticalScroll, true));
    assert!(!must_leave_scroll_for_animation(LayoutMode::Single, true));
    assert_eq!(layout_from_setting(LayoutModeSetting::DualRtl, true), dual);
    assert_eq!(setting_for_layout(dual), LayoutModeSetting::DualRtl);
    assert_eq!(setting_for_layout(LayoutMode::VerticalScroll), LayoutModeSetting::VerticalScroll);
    let (pages, _) = build_pages_with_initial_metadata(vec!["a.gif".to_string()], None).unwrap();
    assert!(!is_current_page_animated(Some(&pages), Some(0)));
    assert!(!is_current_page_animated(None, Some(0)));
    assert!(!is_current_page_animated(Some(&pages), Some(4)));
}

#[test]
fn gpu_setting_limit_is_half_the_capacity_in_steps_of_64() {
    assert_eq!(max_gpu_setting_mb(8192), 4096);
    assert_eq!(max_gpu_setting_mb(1000), 448);
    assert_eq!(max_gpu_setting_mb(100), 64);
    assert_eq!(max_gpu_setting_mb(0), 64);
}
