use render_sandbox::pipeline::{PipelineError, ShaderRegistry, VertexAttribute, VertexLayout};

#[test]
fn test_vertex_attribute_properties() {
    // Test attribute sizes
    assert_eq!(VertexAttribute::Position3D.size(), 12); // 3 * f32
    assert_eq!(VertexAttribute::Position2D.size(), 8); // 2 * f32
    assert_eq!(VertexAttribute::Normal.size(), 12); // 3 * f32
    assert_eq!(VertexAttribute::Tangent.size(), 16); // 4 * f32
    assert_eq!(VertexAttribute::TextureCoord.size(), 8); // 2 * f32
    assert_eq!(VertexAttribute::Color.size(), 16); // 4 * f32
}

#[test]
fn test_vertex_layout_build() {
    let layout = VertexLayout::position_normal();
    let (attributes, stride) = layout.build();

    // Check stride calculation (3 * f32 for position + 3 * f32 for normal = 24 bytes)
    assert_eq!(stride, 24);
    assert_eq!(attributes.len(), 2);

    // Check attribute offsets
    assert_eq!(attributes[0].offset, 0); // Position starts at 0
    assert_eq!(attributes[1].offset, 12); // Normal starts after position (12 bytes)
    assert_eq!(attributes[0].location, 0);
    assert_eq!(attributes[1].location, 1);
}

#[test]
fn test_vertex_layout_creation() {
    // Test that different layouts can be created
    let _layout1 = VertexLayout::position_only();
    let _layout2 = VertexLayout::position_normal();
    let _layout3 = VertexLayout::position_normal_uv();
    let _layout4 = VertexLayout::position_color();

    // Test custom layout
    let _layout5 = VertexLayout::new()
        .with_attribute(VertexAttribute::Position3D)
        .with_attribute(VertexAttribute::Color);
}

#[test]
fn test_shader_registry_basic_operations() {
    let mut registry = ShaderRegistry::new();

    // Initially empty
    assert!(!registry.has_shader("test_shader"));
    assert!(registry.get_shader("test_shader").is_none());

    // Test clearing
    registry.clear();
}

#[test]
fn test_pipeline_builder_creation() {
    // Builders can be created and configured without touching a device.
    let _compute_builder = render_sandbox::pipeline::ComputePipelineBuilder::new()
        .with_label("Test Compute Pipeline".to_string())
        .with_compute_shader("compute_shader".to_string());
}

#[test]
fn test_pipeline_error_messages() {
    assert_eq!(
        PipelineError::ShaderNotFound("vertex shader".to_string()).message(),
        "Shader not found: vertex shader"
    );
    assert_eq!(
        PipelineError::InvalidVertexLayout.message(),
        "Invalid vertex layout"
    );
}
