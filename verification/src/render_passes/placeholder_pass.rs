//! A render pass that declares resources but records no work.

use vstd::prelude::*;

use crate::render_graph::{
    lemma_usage_sets_of_push, reads_of, writes_of, PassId, RenderGraphError, RenderPass,
    ResourceDeclaration, ResourceId, ResourceUsage,
};
use crate::resource_manager::ResourceManager;

verus! {

/// A simple placeholder render pass for testing: it takes part in
/// scheduling through its declarations, but executing it records nothing.
pub struct PlaceholderPass {
    id: PassId,
    resources: Vec<ResourceDeclaration>,
}

impl PlaceholderPass {
    /// The declaration list, in the order it was built: each entry a
    /// resource name with its usage.
    pub closed spec fn spec_declarations(&self) -> Seq<(Seq<char>, ResourceUsage)> {
        Seq::new(
            self.resources@.len(),
            |i: int| (self.resources@[i].id@, self.resources@[i].usage),
        )
    }

    pub fn new(name: &str) -> (r: Self)
        ensures
            r.spec_id() == name@,
            r.spec_declarations() == Seq::<(Seq<char>, ResourceUsage)>::empty(),
            r.spec_writes() == Set::<Seq<char>>::empty(),
            r.spec_reads() == Set::<Seq<char>>::empty(),
    {
        let r = PlaceholderPass { id: PassId::new(name), resources: Vec::new() };
        proof {
            assert(r.spec_declarations() =~= Seq::<(Seq<char>, ResourceUsage)>::empty());
            assert(writes_of(r.resources@) =~= Set::<Seq<char>>::empty());
            assert(reads_of(r.resources@) =~= Set::<Seq<char>>::empty());
        }
        r
    }

    pub fn with_resource(self, resource_id: &str, usage: ResourceUsage) -> (r: Self)
        ensures
            r.spec_id() == self.spec_id(),
            r.spec_declarations() == self.spec_declarations().push((resource_id@, usage)),
            r.spec_writes() == if crate::render_graph::usage_writes(usage) {
                self.spec_writes().insert(resource_id@)
            } else {
                self.spec_writes()
            },
            r.spec_reads() == if crate::render_graph::usage_reads(usage) {
                self.spec_reads().insert(resource_id@)
            } else {
                self.spec_reads()
            },
    {
        let mut resources = self.resources;
        let ghost decls0 = resources@;
        let decl = ResourceDeclaration { id: ResourceId::new(resource_id), usage };
        let ghost dsnap = decl;
        resources.push(decl);
        proof {
            lemma_usage_sets_of_push(decls0, dsnap);
        }
        let r = PlaceholderPass { id: self.id, resources };
        proof {
            assert(r.spec_declarations() =~= self.spec_declarations().push(
                (resource_id@, usage),
            ));
        }
        r
    }
}

impl RenderPass for PlaceholderPass {
    closed spec fn spec_id(&self) -> Seq<char> {
        self.id@
    }

    closed spec fn spec_writes(&self) -> Set<Seq<char>> {
        writes_of(self.resources@)
    }

    closed spec fn spec_reads(&self) -> Set<Seq<char>> {
        reads_of(self.resources@)
    }

    fn id(&self) -> (r: PassId) {
        self.id.clone()
    }

    fn resources(&self) -> (r: Vec<ResourceDeclaration>)
        ensures
            r@.len() == self.spec_declarations().len(),
            forall|i: int|
                0 <= i < r@.len() ==> (#[trigger] r@[i]).id@ == self.spec_declarations()[i].0
                    && r@[i].usage == self.spec_declarations()[i].1,
    {
        let n = self.resources.len();
        let mut out: Vec<ResourceDeclaration> = Vec::new();
        let mut i: usize = 0;
        while i < n
            invariant
                i <= n,
                n == self.resources@.len(),
                out@.len() == i,
                forall|t: int|
                    0 <= t < i ==> (#[trigger] out@[t]).id@ == self.resources@[t].id@
                        && out@[t].usage == self.resources@[t].usage,
            decreases n - i,
        {
            let ghost out0 = out@;
            out.push(self.resources[i].clone());
            proof {
                assert(forall|t: int| 0 <= t < out0.len() ==> out@[t] == out0[t]);
            }
            i = i + 1;
        }
        proof {
            crate::render_graph::lemma_usage_sets_from_fields(out@, self.resources@);
        }
        out
    }

    fn initialize(
        &mut self,
        _device: &wgpu::Device,
        _resource_manager: &ResourceManager,
    ) -> (r: Result<(), RenderGraphError>)
        ensures
            r is Ok,
            *final(self) == *old(self),
    {
        Ok(())
    }

    fn execute(
        &self,
        _device: &wgpu::Device,
        _queue: &wgpu::Queue,
        _resource_manager: &ResourceManager,
        _encoder: &mut wgpu::CommandEncoder,
    ) -> (r: Result<(), RenderGraphError>)
        ensures
            r is Ok,
    {
        Ok(())
    }
}

} // verus!
