use render_sandbox::render_graph::{PassId, RenderGraph, RenderGraphError, ResourceUsage};
use render_sandbox::render_passes::PlaceholderPass;

#[test]
fn test_clear_then_forward_order() {
    // A clear pass writes the back buffer; the forward pass reads and
    // writes it, so it must come second.
    let mut graph = RenderGraph::new();
    graph.add_pass(Box::new(
        PlaceholderPass::new("ClearPass").with_resource("BackBuffer", ResourceUsage::Write),
    ));
    graph.add_pass(Box::new(
        PlaceholderPass::new("ForwardPass")
            .with_resource("BackBuffer", ResourceUsage::ReadWrite)
            .with_resource("DepthBuffer", ResourceUsage::ReadWrite),
    ));
    assert!(graph.compile().is_ok());
    let order = graph.execution_order().unwrap();
    assert_eq!(order.len(), 2);
    assert_eq!(order[0], PassId::new("ClearPass"));
    assert_eq!(order[1], PassId::new("ForwardPass"));
}

#[test]
fn test_three_pass_cycle_detected() {
    let mut graph = RenderGraph::new();
    graph.add_pass(Box::new(
        PlaceholderPass::new("A").with_resource("X", ResourceUsage::Write),
    ));
    graph.add_pass(Box::new(
        PlaceholderPass::new("B")
            .with_resource("X", ResourceUsage::Read)
            .with_resource("Y", ResourceUsage::Write),
    ));
    graph.add_pass(Box::new(
        PlaceholderPass::new("C")
            .with_resource("Y", ResourceUsage::Read)
            .with_resource("X", ResourceUsage::Write),
    ));
    let r = graph.compile();
    assert!(matches!(r, Err(RenderGraphError::CyclicDependency)));
    assert!(!graph.is_compiled());
}

#[test]
fn test_empty_graph_compiles_trivially() {
    let mut graph = RenderGraph::new();
    assert_eq!(graph.pass_count(), 0);
    assert!(!graph.is_compiled());

    graph.add_pass(Box::new(PlaceholderPass::new("OnlyPass")));
    assert_eq!(graph.pass_count(), 1);

    assert!(graph.compile().is_ok());
    let order = graph.execution_order().unwrap();
    assert_eq!(order.len(), 1);
    assert_eq!(order[0], PassId::new("OnlyPass"));
}

#[test]
fn test_mutation_invalidates_compilation() {
    let mut graph = RenderGraph::new();
    graph.add_pass(Box::new(PlaceholderPass::new("First")));
    assert!(graph.compile().is_ok());
    assert!(graph.is_compiled());

    // Adding a pass invalidates the compiled schedule.
    graph.add_pass(Box::new(PlaceholderPass::new("Second")));
    assert!(!graph.is_compiled());
    assert!(graph.execution_order().is_none());

    assert!(graph.compile().is_ok());
    assert!(graph.is_compiled());

    // Removing a pass invalidates it again.
    assert!(graph.remove_pass(&PassId::new("First")));
    assert!(!graph.is_compiled());

    // Removing a pass that is not there leaves the graph as it is.
    assert!(graph.compile().is_ok());
    assert!(!graph.remove_pass(&PassId::new("First")));
    assert!(graph.is_compiled());
}

#[test]
fn test_add_pass_replaces_same_id() {
    let mut graph = RenderGraph::new();
    graph.add_pass(Box::new(
        PlaceholderPass::new("P").with_resource("X", ResourceUsage::Write),
    ));
    graph.add_pass(Box::new(
        PlaceholderPass::new("P").with_resource("Y", ResourceUsage::Read),
    ));
    assert_eq!(graph.pass_count(), 1);
}

#[test]
fn test_independent_passes_keep_insertion_order() {
    let mut graph = RenderGraph::new();
    graph.add_pass(Box::new(PlaceholderPass::new("One")));
    graph.add_pass(Box::new(PlaceholderPass::new("Two")));
    graph.add_pass(Box::new(PlaceholderPass::new("Three")));
    assert!(graph.compile().is_ok());
    let order = graph.execution_order().unwrap();
    assert_eq!(order[0], PassId::new("One"));
    assert_eq!(order[1], PassId::new("Two"));
    assert_eq!(order[2], PassId::new("Three"));
}

#[test]
fn test_chain_of_writers_and_readers() {
    // Declared in reverse order on purpose: dependencies still come first.
    let mut graph = RenderGraph::new();
    graph.add_pass(Box::new(
        PlaceholderPass::new("Last").with_resource("B", ResourceUsage::Read),
    ));
    graph.add_pass(Box::new(
        PlaceholderPass::new("Middle")
            .with_resource("A", ResourceUsage::Read)
            .with_resource("B", ResourceUsage::Write),
    ));
    graph.add_pass(Box::new(
        PlaceholderPass::new("First").with_resource("A", ResourceUsage::Write),
    ));
    assert!(graph.compile().is_ok());
    let order = graph.execution_order().unwrap();
    let pos = |name: &str| {
        order
            .iter()
            .position(|p| *p == PassId::new(name))
            .expect("pass should be scheduled")
    };
    assert!(pos("First") < pos("Middle"));
    assert!(pos("Middle") < pos("Last"));
}

#[test]
fn test_reader_without_writer_has_no_dependency() {
    // Reading a resource nobody writes adds no edges.
    let mut graph = RenderGraph::new();
    graph.add_pass(Box::new(
        PlaceholderPass::new("Reader").with_resource("External", ResourceUsage::Read),
    ));
    graph.add_pass(Box::new(
        PlaceholderPass::new("OtherReader").with_resource("External", ResourceUsage::Read),
    ));
    assert!(graph.compile().is_ok());
    assert_eq!(graph.execution_order().unwrap().len(), 2);
}

#[test]
fn test_clear_empties_graph() {
    let mut graph = RenderGraph::new();
    graph.add_pass(Box::new(PlaceholderPass::new("P")));
    assert!(graph.compile().is_ok());
    graph.clear();
    assert_eq!(graph.pass_count(), 0);
    assert!(!graph.is_compiled());
}

#[test]
fn test_graph_error_messages() {
    assert_eq!(
        RenderGraphError::CyclicDependency.message(),
        "Cyclic dependency detected in render graph"
    );
    assert_eq!(
        RenderGraphError::PassNotFound(PassId::new("Gone")).message(),
        "Render pass not found: Gone"
    );
    assert_eq!(
        RenderGraphError::CompilationFailed("no cache".to_string()).message(),
        "Render graph compilation failed: no cache"
    );
}

#[test]
fn test_two_read_write_passes_on_same_resource_cycle() {
    // Two passes that each read and write the same slot block each other.
    let mut graph = RenderGraph::new();
    graph.add_pass(Box::new(
        PlaceholderPass::new("P1").with_resource("S", ResourceUsage::ReadWrite),
    ));
    graph.add_pass(Box::new(
        PlaceholderPass::new("P2").with_resource("S", ResourceUsage::ReadWrite),
    ));
    assert!(matches!(
        graph.compile(),
        Err(RenderGraphError::CyclicDependency)
    ));
}
