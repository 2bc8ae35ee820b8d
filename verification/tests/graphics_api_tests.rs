/// Tests for graphics API functionality
/// These tests focus on the graphics API abstraction and validation logic

fn validate_sample_count_test_for_formats(requested_samples: u32, formats: &[&str]) -> u32 {
    // Simulate format capabilities:
    // Color formats typically support [1, 2, 4, 8, 16] on many devices
    // Depth formats (Depth32Float) WebGPU spec guarantees [1, 4]

    let mut supported_intersection = vec![1, 2, 4, 8, 16]; // Start with most permissive

    for &format in formats {
        let format_support = match format {
            "Depth32Float" => vec![1, 4], // WebGPU spec guarantee for depth
            "Rgba8UnormSrgb" | "Bgra8UnormSrgb" => vec![1, 2, 4, 8, 16], // Typical color format support
            _ => vec![1, 4],                                             // Conservative fallback
        };

        // Keep only samples supported by ALL formats (intersection)
        supported_intersection.retain(|sample| format_support.contains(sample));
    }

    // Find best match that doesn't exceed requested
    supported_intersection
        .iter()
        .rev()
        .find(|&&samples| samples <= requested_samples)
        .copied()
        .unwrap_or(1)
}

#[test]
fn test_sample_count_validation_logic() {
    // Test with color formats only (more permissive)
    let color_formats = &["Rgba8UnormSrgb"];
    assert_eq!(validate_sample_count_test_for_formats(1, color_formats), 1);
    assert_eq!(validate_sample_count_test_for_formats(2, color_formats), 2);
    assert_eq!(validate_sample_count_test_for_formats(4, color_formats), 4);
    assert_eq!(validate_sample_count_test_for_formats(8, color_formats), 8);

    // Test with color + depth formats (more restrictive due to depth limitations)
    let mixed_formats = &["Rgba8UnormSrgb", "Depth32Float"];
    assert_eq!(validate_sample_count_test_for_formats(1, mixed_formats), 1);
    assert_eq!(validate_sample_count_test_for_formats(2, mixed_formats), 1); // Clamped due to depth
    assert_eq!(validate_sample_count_test_for_formats(4, mixed_formats), 4);
    assert_eq!(validate_sample_count_test_for_formats(8, mixed_formats), 4); // Clamped due to depth

    // Test edge cases
    assert_eq!(validate_sample_count_test_for_formats(0, mixed_formats), 1);
    assert_eq!(validate_sample_count_test_for_formats(32, mixed_formats), 4);
}

fn test_surface_size_logic(window_size: Option<(u32, u32)>, fallback: (u32, u32)) -> (u32, u32) {
    window_size.unwrap_or(fallback)
}

#[test]
fn test_surface_size_configuration() {
    // Test that surface size is properly configured
    // This tests the logic without requiring actual graphics initialization

    // Test windowed mode - should use window size
    assert_eq!(
        test_surface_size_logic(Some((1920, 1080)), (800, 600)),
        (1920, 1080)
    );
    assert_eq!(
        test_surface_size_logic(Some((1024, 768)), (800, 600)),
        (1024, 768)
    );

    // Test headless mode - should use fallback size
    assert_eq!(test_surface_size_logic(None, (800, 600)), (800, 600));
    assert_eq!(test_surface_size_logic(None, (1920, 1080)), (1920, 1080));
}

#[test]
fn test_library_sample_count_clamp() {
    assert_eq!(render_sandbox::renderer::validate_sample_count(0), 1);
    assert_eq!(render_sandbox::renderer::validate_sample_count(1), 1);
    assert_eq!(render_sandbox::renderer::validate_sample_count(2), 1);
    assert_eq!(render_sandbox::renderer::validate_sample_count(4), 4);
    assert_eq!(render_sandbox::renderer::validate_sample_count(16), 4);
}
