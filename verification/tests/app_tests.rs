use render_sandbox::engine::{EngineError, PlaceholderEngine};

fn validate_sample_count_test_for_render_targets(requested_samples: u32) -> u32 {
    // Simulate what happens in actual rendering with color + depth targets
    // Color formats might support [1, 2, 4, 8, 16] but depth (Depth32Float)
    // only guarantees [1, 4] per WebGPU spec, so we use the intersection
    let valid_samples = [1, 4]; // Intersection for color + depth formats
    valid_samples
        .iter()
        .rev()
        .find(|&&samples| samples <= requested_samples)
        .copied()
        .unwrap_or(1)
}

#[test]
fn test_sample_count_validation_behavior() {
    // Test that the sample count validation logic works correctly
    // Updated to reflect that sample count support depends on texture formats

    // Test that invalid sample counts get clamped to values supported by ALL formats
    assert_eq!(
        validate_sample_count_test_for_render_targets(2),
        1,
        "Sample count 2 should clamp to 1 due to depth format limitations"
    );
    assert_eq!(
        validate_sample_count_test_for_render_targets(3),
        1,
        "Sample count 3 should clamp to 1 due to depth format limitations"
    );
    assert_eq!(
        validate_sample_count_test_for_render_targets(5),
        4,
        "Sample count 5 should clamp to 4"
    );
    assert_eq!(
        validate_sample_count_test_for_render_targets(7),
        4,
        "Sample count 7 should clamp to 4"
    );
    assert_eq!(
        validate_sample_count_test_for_render_targets(8),
        4,
        "Sample count 8 should clamp to 4 due to depth format limitations"
    );
    assert_eq!(
        validate_sample_count_test_for_render_targets(16),
        4,
        "Sample count 16 should clamp to 4 due to depth format limitations"
    );
    assert_eq!(
        validate_sample_count_test_for_render_targets(0),
        1,
        "Sample count 0 should clamp to 1"
    );

    // Test that valid sample counts remain unchanged
    assert_eq!(validate_sample_count_test_for_render_targets(1), 1);
    assert_eq!(validate_sample_count_test_for_render_targets(4), 4);
}

#[test]
fn test_engine_error_display() {
    let error = EngineError::InitializationError("test error".to_string());
    let error_str = error.message();
    assert!(error_str.contains("Initialization error"));
    assert!(error_str.contains("test error"));
}

#[test]
fn test_placeholder_engine_headless_frame() {
    let mut engine = PlaceholderEngine::new(true);
    engine.update();
    assert!(engine.render().is_ok());
    let frame = engine.get_rendered_frame_data().expect("headless engine should hand back a frame");
    assert_eq!(
        frame,
        vec![255, 0, 0, 255, 0, 255, 0, 255, 0, 0, 255, 255, 255, 255, 255, 255]
    );
}

#[test]
fn test_placeholder_engine_windowed_no_frame() {
    let engine = PlaceholderEngine::new(false);
    assert!(engine.get_rendered_frame_data().is_none());
}
