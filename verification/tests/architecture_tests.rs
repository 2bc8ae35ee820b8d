use render_sandbox::render_graph::{RenderGraph, ResourceUsage};
use render_sandbox::render_passes::PlaceholderPass;
use render_sandbox::resource_manager::ResourceManager;

#[test]
fn test_resource_manager_creation() {
    let resource_manager = ResourceManager::new();
    assert_eq!(resource_manager.resource_count(), 0);
}

#[test]
fn test_render_graph_creation() {
    let mut render_graph = RenderGraph::new();
    assert_eq!(render_graph.pass_count(), 0);
    assert!(!render_graph.is_compiled());

    // Add a simple pass
    let pass = PlaceholderPass::new("TestPass");
    render_graph.add_pass(Box::new(pass));
    assert_eq!(render_graph.pass_count(), 1);
}

#[test]
fn test_render_graph_compilation() {
    let mut render_graph = RenderGraph::new();

    // Add passes with dependencies
    let pass1 = PlaceholderPass::new("Pass1").with_resource("ResourceA", ResourceUsage::Write);
    let pass2 = PlaceholderPass::new("Pass2").with_resource("ResourceA", ResourceUsage::Read);

    render_graph.add_pass(Box::new(pass1));
    render_graph.add_pass(Box::new(pass2));

    // Compile should succeed
    assert!(render_graph.compile().is_ok());
    assert!(render_graph.is_compiled());

    // Check execution order
    let order = render_graph.execution_order().unwrap();
    assert_eq!(order.len(), 2);
}
