fn calculate_frame_size(width: u32, height: u32) -> usize {
    (width * height * 4) as usize // RGBA format
}

#[test]
fn headless_resolution_tests_test_frame_data_size_calculation() {
    // Test the frame data size calculation logic
    assert_eq!(calculate_frame_size(800, 600), 1_920_000);
    assert_eq!(calculate_frame_size(1920, 1080), 8_294_400);
    assert_eq!(calculate_frame_size(1024, 768), 3_145_728);
    assert_eq!(calculate_frame_size(640, 480), 1_228_800);
}

#[test]
fn test_placeholder_frame_is_rgba() {
    let engine = render_sandbox::engine::PlaceholderEngine::new(true);
    let frame = engine.get_rendered_frame_data().unwrap();
    // a 2x2 RGBA image
    assert_eq!(frame.len(), calculate_frame_size(2, 2));
}
