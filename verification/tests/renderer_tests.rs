/// Tests for renderer functionality
use render_sandbox::renderer::RenderStats;

#[test]
fn test_render_stats_default() {
    let stats = RenderStats::default();

    assert_eq!(stats.frame_count, 0);
    assert_eq!(stats.draw_calls, 0);
    assert_eq!(stats.vertices_rendered, 0);
    assert_eq!(stats.triangles_rendered, 0);
    assert_eq!(stats.render_passes, 0);
}

#[test]
fn test_render_stats_clone() {
    let stats = RenderStats {
        frame_count: 100,
        draw_calls: 50,
        ..Default::default()
    };

    let cloned_stats = stats.clone();
    assert_eq!(cloned_stats.frame_count, 100);
    assert_eq!(cloned_stats.draw_calls, 50);
}

fn validate_msaa_samples(requested: u32) -> u32 {
    // WebGPU spec guaranteed values for maximum compatibility
    let valid_samples = [1, 4];
    valid_samples
        .iter()
        .rev()
        .find(|&&samples| samples <= requested)
        .copied()
        .unwrap_or(1)
}

#[test]
fn test_msaa_samples_validation_logic() {
    // Test that renderer uses proper validation
    assert_eq!(validate_msaa_samples(1), 1);
    assert_eq!(validate_msaa_samples(2), 1);
    assert_eq!(validate_msaa_samples(3), 1);
    assert_eq!(validate_msaa_samples(4), 4);
    assert_eq!(validate_msaa_samples(8), 4);
    assert_eq!(validate_msaa_samples(16), 4);
}

fn frame_size_in_bytes(width: u32, height: u32) -> usize {
    (width * height * 4) as usize // RGBA format
}

#[test]
fn renderer_tests_test_frame_data_size_calculation() {
    assert_eq!(frame_size_in_bytes(800, 600), 1_920_000);
    assert_eq!(frame_size_in_bytes(1920, 1080), 8_294_400);
    assert_eq!(frame_size_in_bytes(1024, 768), 3_145_728);
    assert_eq!(frame_size_in_bytes(640, 480), 1_228_800);
}
