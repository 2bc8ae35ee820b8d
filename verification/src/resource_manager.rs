//! Handle-based ownership of GPU resource objects.
//!
//! The manager owns every backend object behind an opaque, type-tagged
//! handle. A handle id is issued exactly once per manager: the counter only
//! grows, so a handle to a removed resource can never alias a later one.
//! Resources can also be published under stable string names, so that one
//! pass can hand a handle to a later pass without the two knowing each other.

use vstd::prelude::*;

use crate::gpu;

verus! {

broadcast use vstd::std_specs::hash::group_hash_axioms;

/// Unique identifier for a resource handle.
#[derive(Debug, Clone, Copy, PartialEq, Eq, Hash, Structural)]
pub struct HandleId(u64);

impl View for HandleId {
    type V = u64;

    closed spec fn view(&self) -> u64 {
        self.0
    }
}

/// Type-safe handle for GPU resources. The phantom parameter records which
/// kind of object the handle was issued for; the manager checks the stored
/// kind against it on every lookup.
#[derive(Debug)]
pub struct Handle<T> {
    id: HandleId,
    _phantom: core::marker::PhantomData<T>,
}

impl<T> View for Handle<T> {
    type V = u64;

    closed spec fn view(&self) -> u64 {
        self.id@
    }
}

impl<T> Clone for Handle<T> {
    fn clone(&self) -> (r: Self)
        ensures
            r@ == self@,
    {
        Handle { id: self.id, _phantom: core::marker::PhantomData }
    }
}

impl<T> Copy for Handle<T> {

}

impl<T> PartialEq for Handle<T> {
    fn eq(&self, other: &Handle<T>) -> (r: bool) {
        self.id == other.id
    }
}

impl<T> Eq for Handle<T> {

}

impl<T> vstd::std_specs::cmp::PartialEqSpecImpl for Handle<T> {
    open spec fn obeys_eq_spec() -> bool {
        true
    }

    open spec fn eq_spec(&self, other: &Handle<T>) -> bool {
        self@ == other@
    }
}

impl<T> Handle<T> {
    fn new(id: HandleId) -> (h: Self)
        ensures
            h@ == id@,
    {
        Handle { id, _phantom: core::marker::PhantomData }
    }

    /// Rebuild a handle from a raw id, for callers that stored the id alone.
    pub fn from_id(id: HandleId) -> (h: Self)
        ensures
            h@ == id@,
    {
        Handle { id, _phantom: core::marker::PhantomData }
    }

    pub fn id(&self) -> (r: HandleId)
        ensures
            r@ == self@,
    {
        self.id
    }
}

/// Resource objects the manager can own, one backend kind per variant.
pub enum Resource {
    Buffer(wgpu::Buffer),
    Texture(wgpu::Texture),
    BindGroup(wgpu::BindGroup),
    BindGroupLayout(wgpu::BindGroupLayout),
    RenderPipeline(wgpu::RenderPipeline),
    ComputePipeline(wgpu::ComputePipeline),
    Shader(wgpu::ShaderModule),
    Sampler(wgpu::Sampler),
}

/// The kind tag of a stored resource, as the contracts speak of it.
#[derive(Debug, Clone, Copy, PartialEq, Eq, Structural)]
pub enum ResourceKind {
    Buffer,
    Texture,
    BindGroup,
    BindGroupLayout,
    RenderPipeline,
    ComputePipeline,
    Shader,
    Sampler,
}

impl Resource {
    pub open spec fn kind(&self) -> ResourceKind {
        match self {
            Resource::Buffer(_) => ResourceKind::Buffer,
            Resource::Texture(_) => ResourceKind::Texture,
            Resource::BindGroup(_) => ResourceKind::BindGroup,
            Resource::BindGroupLayout(_) => ResourceKind::BindGroupLayout,
            Resource::RenderPipeline(_) => ResourceKind::RenderPipeline,
            Resource::ComputePipeline(_) => ResourceKind::ComputePipeline,
            Resource::Shader(_) => ResourceKind::Shader,
            Resource::Sampler(_) => ResourceKind::Sampler,
        }
    }
}

/// Errors that can occur during resource management operations.
#[derive(Debug)]
pub enum ResourceError {
    ResourceNotFound(HandleId),
    TypeMismatch(HandleId),
    CreationFailed(String),
}

impl ResourceError {
    /// A human-readable description of the error.
    pub fn message(&self) -> (r: String)
        ensures
            (self is ResourceNotFound ==> r@ == "Resource not found"@),
            (self is TypeMismatch ==> r@ == "Resource type mismatch"@),
            (self matches ResourceError::CreationFailed(m) ==> r@ == "Resource creation failed: "@
                + m@),
    {
        match self {
            ResourceError::ResourceNotFound(_) => "Resource not found".to_owned(),
            ResourceError::TypeMismatch(_) => "Resource type mismatch".to_owned(),
            ResourceError::CreationFailed(m) => "Resource creation failed: ".to_owned().concat(
                m.as_str(),
            ),
        }
    }
}

/// Manages GPU resources with handle-based access.
pub struct ResourceManager {
    resources: std::collections::HashMap<u64, Resource>,
    named: Vec<(String, HandleId)>,
    next_id: u64,
}

impl ResourceManager {
    /// The id-to-kind table, which is all the contracts need to know about
    /// the stored objects.
    pub closed spec fn table(&self) -> Map<u64, ResourceKind> {
        self.resources@.map_values(|r: Resource| r.kind())
    }

    /// The published names, each mapped to the id it was most recently
    /// published with.
    pub closed spec fn names(&self) -> Map<Seq<char>, u64> {
        Self::names_of(self.named@)
    }

    pub open spec fn names_of(s: Seq<(String, HandleId)>) -> Map<Seq<char>, u64>
        decreases s.len(),
    {
        if s.len() == 0 {
            Map::empty()
        } else {
            Self::names_of(s.drop_last()).insert(s.last().0@, s.last().1@)
        }
    }

    /// The id the next created resource will receive.
    pub closed spec fn fresh_id(&self) -> u64 {
        self.next_id
    }

    /// Every id ever issued is below the counter, so the counter value is
    /// never an id already in the table.
    pub closed spec fn wf(&self) -> bool {
        &&& self.next_id >= 1
        &&& forall|id: u64| #[trigger] self.resources@.dom().contains(id) ==> id < self.next_id
    }

    /// Freshly issued ids are distinct from every id in the table.
    pub proof fn lemma_fresh_id_unused(&self)
        requires
            self.wf(),
        ensures
            !self.table().dom().contains(self.fresh_id()),
            forall|id: u64| #[trigger] self.table().dom().contains(id) ==> id < self.fresh_id(),
    {
        assert(self.table().dom() =~= self.resources@.dom());
    }

    /// Create a new resource manager.
    pub fn new() -> (m: Self)
        ensures
            m.wf(),
            m.table() == Map::<u64, ResourceKind>::empty(),
            m.names() == Map::<Seq<char>, u64>::empty(),
            m.fresh_id() == 1,
    {
        let m = ResourceManager {
            resources: std::collections::HashMap::new(),
            named: Vec::new(),
            next_id: 1,
        };
        proof {
            assert(m.table() =~= Map::<u64, ResourceKind>::empty());
        }
        m
    }

    /// Store a resource under a fresh id and return the typed handle for it.
    fn insert_resource<T>(&mut self, resource: Resource) -> (h: Handle<T>)
        requires
            old(self).wf(),
            old(self).fresh_id() < u64::MAX,
        ensures
            final(self).wf(),
            h@ == old(self).fresh_id(),
            !old(self).table().dom().contains(h@),
            final(self).table() == old(self).table().insert(h@, resource.kind()),
            final(self).names() == old(self).names(),
            final(self).fresh_id() == old(self).fresh_id() + 1,
    {
        proof {
            self.lemma_fresh_id_unused();
        }
        let id = HandleId(self.next_id);
        self.next_id = self.next_id + 1;
        let ghost old_table = self.table();
        self.resources.insert(id.0, resource);
        proof {
            assert(self.table() =~= old_table.insert(id@, resource.kind()));
        }
        Handle::new(id)
    }

    /// Create a buffer resource.
    pub fn create_buffer(
        &mut self,
        device: &wgpu::Device,
        desc: &wgpu::BufferDescriptor,
    ) -> (h: Handle<wgpu::Buffer>)
        requires
            old(self).wf(),
            old(self).fresh_id() < u64::MAX,
        ensures
            final(self).wf(),
            h@ == old(self).fresh_id(),
            !old(self).table().dom().contains(h@),
            final(self).table() == old(self).table().insert(h@, ResourceKind::Buffer),
            final(self).names() == old(self).names(),
            final(self).fresh_id() == old(self).fresh_id() + 1,
    {
        let buffer = gpu::create_buffer(device, desc);
        self.insert_resource(Resource::Buffer(buffer))
    }

    /// Create a buffer with initial data.
    pub fn create_buffer_init(
        &mut self,
        device: &wgpu::Device,
        desc: &wgpu::util::BufferInitDescriptor,
    ) -> (h: Handle<wgpu::Buffer>)
        requires
            old(self).wf(),
            old(self).fresh_id() < u64::MAX,
        ensures
            final(self).wf(),
            h@ == old(self).fresh_id(),
            !old(self).table().dom().contains(h@),
            final(self).table() == old(self).table().insert(h@, ResourceKind::Buffer),
            final(self).names() == old(self).names(),
            final(self).fresh_id() == old(self).fresh_id() + 1,
    {
        let buffer = gpu::create_buffer_init(device, desc);
        self.insert_resource(Resource::Buffer(buffer))
    }

    /// Create a texture resource.
    pub fn create_texture(
        &mut self,
        device: &wgpu::Device,
        desc: &wgpu::TextureDescriptor,
    ) -> (h: Handle<wgpu::Texture>)
        requires
            old(self).wf(),
            old(self).fresh_id() < u64::MAX,
        ensures
            final(self).wf(),
            h@ == old(self).fresh_id(),
            !old(self).table().dom().contains(h@),
            final(self).table() == old(self).table().insert(h@, ResourceKind::Texture),
            final(self).names() == old(self).names(),
            final(self).fresh_id() == old(self).fresh_id() + 1,
    {
        let texture = gpu::create_texture(device, desc);
        self.insert_resource(Resource::Texture(texture))
    }

    /// Create a shader module.
    pub fn create_shader(
        &mut self,
        device: &wgpu::Device,
        desc: wgpu::ShaderModuleDescriptor,
    ) -> (h: Handle<wgpu::ShaderModule>)
        requires
            old(self).wf(),
            old(self).fresh_id() < u64::MAX,
        ensures
            final(self).wf(),
            h@ == old(self).fresh_id(),
            !old(self).table().dom().contains(h@),
            final(self).table() == old(self).table().insert(h@, ResourceKind::Shader),
            final(self).names() == old(self).names(),
            final(self).fresh_id() == old(self).fresh_id() + 1,
    {
        let shader = gpu::create_shader_module(device, desc);
        self.insert_resource(Resource::Shader(shader))
    }

    /// Create a render pipeline.
    pub fn create_render_pipeline(
        &mut self,
        device: &wgpu::Device,
        desc: &wgpu::RenderPipelineDescriptor,
    ) -> (h: Handle<wgpu::RenderPipeline>)
        requires
            old(self).wf(),
            old(self).fresh_id() < u64::MAX,
        ensures
            final(self).wf(),
            h@ == old(self).fresh_id(),
            !old(self).table().dom().contains(h@),
            final(self).table() == old(self).table().insert(h@, ResourceKind::RenderPipeline),
            final(self).names() == old(self).names(),
            final(self).fresh_id() == old(self).fresh_id() + 1,
    {
        let pipeline = gpu::create_render_pipeline(device, desc);
        self.insert_resource(Resource::RenderPipeline(pipeline))
    }

    /// Create a bind group layout.
    pub fn create_bind_group_layout(
        &mut self,
        device: &wgpu::Device,
        desc: &wgpu::BindGroupLayoutDescriptor,
    ) -> (h: Handle<wgpu::BindGroupLayout>)
        requires
            old(self).wf(),
            old(self).fresh_id() < u64::MAX,
        ensures
            final(self).wf(),
            h@ == old(self).fresh_id(),
            !old(self).table().dom().contains(h@),
            final(self).table() == old(self).table().insert(h@, ResourceKind::BindGroupLayout),
            final(self).names() == old(self).names(),
            final(self).fresh_id() == old(self).fresh_id() + 1,
    {
        let layout = gpu::create_bind_group_layout(device, desc);
        self.insert_resource(Resource::BindGroupLayout(layout))
    }

    /// Create a bind group.
    pub fn create_bind_group(
        &mut self,
        device: &wgpu::Device,
        desc: &wgpu::BindGroupDescriptor,
    ) -> (h: Handle<wgpu::BindGroup>)
        requires
            old(self).wf(),
            old(self).fresh_id() < u64::MAX,
        ensures
            final(self).wf(),
            h@ == old(self).fresh_id(),
            !old(self).table().dom().contains(h@),
            final(self).table() == old(self).table().insert(h@, ResourceKind::BindGroup),
            final(self).names() == old(self).names(),
            final(self).fresh_id() == old(self).fresh_id() + 1,
    {
        let group = gpu::create_bind_group(device, desc);
        self.insert_resource(Resource::BindGroup(group))
    }

    /// Create a sampler.
    pub fn create_sampler(
        &mut self,
        device: &wgpu::Device,
        desc: &wgpu::SamplerDescriptor,
    ) -> (h: Handle<wgpu::Sampler>)
        requires
            old(self).wf(),
            old(self).fresh_id() < u64::MAX,
        ensures
            final(self).wf(),
            h@ == old(self).fresh_id(),
            !old(self).table().dom().contains(h@),
            final(self).table() == old(self).table().insert(h@, ResourceKind::Sampler),
            final(self).names() == old(self).names(),
            final(self).fresh_id() == old(self).fresh_id() + 1,
    {
        let sampler = gpu::create_sampler(device, desc);
        self.insert_resource(Resource::Sampler(sampler))
    }

    /// Get a buffer by handle.
    pub fn get_buffer(&self, handle: Handle<wgpu::Buffer>) -> (r: Result<
        &wgpu::Buffer,
        ResourceError,
    >)
        ensures
            match r {
                Ok(_) => self.table().dom().contains(handle@) && self.table()[handle@]
                    == ResourceKind::Buffer,
                Err(ResourceError::TypeMismatch(id)) => id@ == handle@ && self.table().dom().contains(
                    handle@,
                ) && self.table()[handle@] != ResourceKind::Buffer,
                Err(ResourceError::ResourceNotFound(id)) => id@ == handle@ && !self.table().dom().contains(
                    handle@,
                ),
                Err(ResourceError::CreationFailed(_)) => false,
            },
    {
        match self.resources.get(&handle.id().0) {
            Some(Resource::Buffer(buffer)) => Ok(buffer),
            Some(_) => Err(ResourceError::TypeMismatch(handle.id())),
            None => Err(ResourceError::ResourceNotFound(handle.id())),
        }
    }

    /// Get a texture by handle.
    pub fn get_texture(&self, handle: Handle<wgpu::Texture>) -> (r: Result<
        &wgpu::Texture,
        ResourceError,
    >)
        ensures
            match r {
                Ok(_) => self.table().dom().contains(handle@) && self.table()[handle@]
                    == ResourceKind::Texture,
                Err(ResourceError::TypeMismatch(id)) => id@ == handle@ && self.table().dom().contains(
                    handle@,
                ) && self.table()[handle@] != ResourceKind::Texture,
                Err(ResourceError::ResourceNotFound(id)) => id@ == handle@ && !self.table().dom().contains(
                    handle@,
                ),
                Err(ResourceError::CreationFailed(_)) => false,
            },
    {
        match self.resources.get(&handle.id().0) {
            Some(Resource::Texture(texture)) => Ok(texture),
            Some(_) => Err(ResourceError::TypeMismatch(handle.id())),
            None => Err(ResourceError::ResourceNotFound(handle.id())),
        }
    }

    /// Get a shader by handle.
    pub fn get_shader(&self, handle: Handle<wgpu::ShaderModule>) -> (r: Result<
        &wgpu::ShaderModule,
        ResourceError,
    >)
        ensures
            match r {
                Ok(_) => self.table().dom().contains(handle@) && self.table()[handle@]
                    == ResourceKind::Shader,
                Err(ResourceError::TypeMismatch(id)) => id@ == handle@ && self.table().dom().contains(
                    handle@,
                ) && self.table()[handle@] != ResourceKind::Shader,
                Err(ResourceError::ResourceNotFound(id)) => id@ == handle@ && !self.table().dom().contains(
                    handle@,
                ),
                Err(ResourceError::CreationFailed(_)) => false,
            },
    {
        match self.resources.get(&handle.id().0) {
            Some(Resource::Shader(shader)) => Ok(shader),
            Some(_) => Err(ResourceError::TypeMismatch(handle.id())),
            None => Err(ResourceError::ResourceNotFound(handle.id())),
        }
    }

    /// Get a render pipeline by handle.
    pub fn get_render_pipeline(&self, handle: Handle<wgpu::RenderPipeline>) -> (r: Result<
        &wgpu::RenderPipeline,
        ResourceError,
    >)
        ensures
            match r {
                Ok(_) => self.table().dom().contains(handle@) && self.table()[handle@]
                    == ResourceKind::RenderPipeline,
                Err(ResourceError::TypeMismatch(id)) => id@ == handle@ && self.table().dom().contains(
                    handle@,
                ) && self.table()[handle@] != ResourceKind::RenderPipeline,
                Err(ResourceError::ResourceNotFound(id)) => id@ == handle@ && !self.table().dom().contains(
                    handle@,
                ),
                Err(ResourceError::CreationFailed(_)) => false,
            },
    {
        match self.resources.get(&handle.id().0) {
            Some(Resource::RenderPipeline(pipeline)) => Ok(pipeline),
            Some(_) => Err(ResourceError::TypeMismatch(handle.id())),
            None => Err(ResourceError::ResourceNotFound(handle.id())),
        }
    }

    /// Get a bind group layout by handle.
    pub fn get_bind_group_layout(&self, handle: Handle<wgpu::BindGroupLayout>) -> (r: Result<
        &wgpu::BindGroupLayout,
        ResourceError,
    >)
        ensures
            match r {
                Ok(_) => self.table().dom().contains(handle@) && self.table()[handle@]
                    == ResourceKind::BindGroupLayout,
                Err(ResourceError::TypeMismatch(id)) => id@ == handle@ && self.table().dom().contains(
                    handle@,
                ) && self.table()[handle@] != ResourceKind::BindGroupLayout,
                Err(ResourceError::ResourceNotFound(id)) => id@ == handle@ && !self.table().dom().contains(
                    handle@,
                ),
                Err(ResourceError::CreationFailed(_)) => false,
            },
    {
        match self.resources.get(&handle.id().0) {
            Some(Resource::BindGroupLayout(layout)) => Ok(layout),
            Some(_) => Err(ResourceError::TypeMismatch(handle.id())),
            None => Err(ResourceError::ResourceNotFound(handle.id())),
        }
    }

    /// Get a bind group by handle.
    pub fn get_bind_group(&self, handle: Handle<wgpu::BindGroup>) -> (r: Result<
        &wgpu::BindGroup,
        ResourceError,
    >)
        ensures
            match r {
                Ok(_) => self.table().dom().contains(handle@) && self.table()[handle@]
                    == ResourceKind::BindGroup,
                Err(ResourceError::TypeMismatch(id)) => id@ == handle@ && self.table().dom().contains(
                    handle@,
                ) && self.table()[handle@] != ResourceKind::BindGroup,
                Err(ResourceError::ResourceNotFound(id)) => id@ == handle@ && !self.table().dom().contains(
                    handle@,
                ),
                Err(ResourceError::CreationFailed(_)) => false,
            },
    {
        match self.resources.get(&handle.id().0) {
            Some(Resource::BindGroup(group)) => Ok(group),
            Some(_) => Err(ResourceError::TypeMismatch(handle.id())),
            None => Err(ResourceError::ResourceNotFound(handle.id())),
        }
    }

    /// Get a sampler by handle.
    pub fn get_sampler(&self, handle: Handle<wgpu::Sampler>) -> (r: Result<
        &wgpu::Sampler,
        ResourceError,
    >)
        ensures
            match r {
                Ok(_) => self.table().dom().contains(handle@) && self.table()[handle@]
                    == ResourceKind::Sampler,
                Err(ResourceError::TypeMismatch(id)) => id@ == handle@ && self.table().dom().contains(
                    handle@,
                ) && self.table()[handle@] != ResourceKind::Sampler,
                Err(ResourceError::ResourceNotFound(id)) => id@ == handle@ && !self.table().dom().contains(
                    handle@,
                ),
                Err(ResourceError::CreationFailed(_)) => false,
            },
    {
        match self.resources.get(&handle.id().0) {
            Some(Resource::Sampler(sampler)) => Ok(sampler),
            Some(_) => Err(ResourceError::TypeMismatch(handle.id())),
            None => Err(ResourceError::ResourceNotFound(handle.id())),
        }
    }

    /// Remove a resource by handle; the freed id is never issued again.
    pub fn remove_resource<T>(&mut self, handle: Handle<T>) -> (removed: bool)
        requires
            old(self).wf(),
        ensures
            final(self).wf(),
            removed == old(self).table().dom().contains(handle@),
            final(self).table() == old(self).table().remove(handle@),
            final(self).names() == old(self).names(),
            final(self).fresh_id() == old(self).fresh_id(),
    {
        let ghost old_table = self.table();
        let removed = self.resources.remove(&handle.id().0).is_some();
        proof {
            assert(self.table() =~= old_table.remove(handle@));
        }
        removed
    }

    /// Get the number of managed resources.
    pub fn resource_count(&self) -> (n: usize)
        ensures
            n == self.table().dom().len(),
    {
        proof {
            assert(self.table().dom() =~= self.resources@.dom());
        }
        self.resources.len()
    }

    /// Remove every resource and every published name.
    pub fn clear(&mut self)
        requires
            old(self).wf(),
        ensures
            final(self).wf(),
            final(self).table() == Map::<u64, ResourceKind>::empty(),
            final(self).names() == Map::<Seq<char>, u64>::empty(),
            final(self).fresh_id() == old(self).fresh_id(),
    {
        self.resources.clear();
        self.named.clear();
        proof {
            assert(self.table() =~= Map::<u64, ResourceKind>::empty());
        }
    }

    /// Publish a handle under a stable name, replacing what the name pointed
    /// to before.
    pub fn publish_named<T>(&mut self, name: &str, handle: Handle<T>)
        requires
            old(self).wf(),
        ensures
            final(self).wf(),
            final(self).names() == old(self).names().insert(name@, handle@),
            final(self).table() == old(self).table(),
            final(self).fresh_id() == old(self).fresh_id(),
    {
        self.named.push((name.to_owned(), handle.id()));
        proof {
            assert(self.named@.drop_last() =~= old(self).named@);
        }
    }

    /// Look up the handle most recently published under a name. The kind the
    /// caller requests is not checked here: a typed `get` on the returned
    /// handle performs that check.
    pub fn get_named_resource<T>(&self, name: &str) -> (r: Option<Handle<T>>)
        ensures
            match r {
                Some(h) => self.names().dom().contains(name@) && h@ == self.names()[name@],
                None => !self.names().dom().contains(name@),
            },
    {
        let n = self.named.len();
        proof {
            assert(self.named@.take(n as int) =~= self.named@);
        }
        let mut i: usize = n;
        while i > 0
            invariant
                i <= n,
                n == self.named@.len(),
                Self::names_of(self.named@).dom().contains(name@) == Self::names_of(
                    self.named@.take(i as int),
                ).dom().contains(name@),
                Self::names_of(self.named@).dom().contains(name@) ==> Self::names_of(
                    self.named@,
                )[name@] == Self::names_of(self.named@.take(i as int))[name@],
            decreases i,
        {
            i = i - 1;
            proof {
                assert(self.named@.take(i as int + 1).drop_last() =~= self.named@.take(i as int));
                assert(self.named@.take(i as int + 1).last() == self.named@[i as int]);
            }
            if self.named[i].0 == name.to_owned() {
                return Some(Handle::from_id(self.named[i].1));
            }
        }
        proof {
            assert(self.named@.take(0) =~= Seq::<(String, HandleId)>::empty());
        }
        None
    }
}

impl Default for ResourceManager {
    fn default() -> (m: Self)
        ensures
            m.wf(),
            m.table() == Map::<u64, ResourceKind>::empty(),
            m.names() == Map::<Seq<char>, u64>::empty(),
            m.fresh_id() == 1,
    {
        Self::new()
    }
}

} // verus!
