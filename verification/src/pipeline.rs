//! Graphics and compute pipeline abstractions: standard vertex attribute
//! layouts, a registry of named shaders, and a compute pipeline builder
//! with sensible defaults.

use vstd::prelude::*;

use crate::gpu;
use crate::resource_manager::{Handle, HandleId, ResourceKind, ResourceManager};

verus! {

/// Errors that can occur during pipeline operations.
#[derive(Debug)]
pub enum PipelineError {
    ShaderNotFound(String),
    InvalidVertexLayout,
    PipelineCreationFailed(String),
    ResourceError(String),
}

impl PipelineError {
    /// A human-readable description of the error.
    pub fn message(&self) -> (r: String)
        ensures
            (self matches PipelineError::ShaderNotFound(m) ==> r@ == "Shader not found: "@ + m@),
            (self is InvalidVertexLayout ==> r@ == "Invalid vertex layout"@),
            (self matches PipelineError::PipelineCreationFailed(m) ==> r@
                == "Pipeline creation failed: "@ + m@),
            (self matches PipelineError::ResourceError(m) ==> r@ == "Resource error: "@ + m@),
    {
        match self {
            PipelineError::ShaderNotFound(m) => "Shader not found: ".to_owned().concat(m.as_str()),
            PipelineError::InvalidVertexLayout => "Invalid vertex layout".to_owned(),
            PipelineError::PipelineCreationFailed(m) => "Pipeline creation failed: ".to_owned()
                .concat(m.as_str()),
            PipelineError::ResourceError(m) => "Resource error: ".to_owned().concat(m.as_str()),
        }
    }
}

/// Standard vertex attribute definitions.
#[derive(Debug, Clone, Copy, PartialEq, Eq, Structural)]
pub enum VertexAttribute {
    Position3D,
    Position2D,
    Normal,
    Tangent,
    TextureCoord,
    Color,
}

/// The size in bytes of one attribute: vectors of two, three or four
/// 32-bit floats.
pub open spec fn spec_attribute_size(a: VertexAttribute) -> u64 {
    match a {
        VertexAttribute::Position3D => 12u64,
        VertexAttribute::Position2D => 8u64,
        VertexAttribute::Normal => 12u64,
        VertexAttribute::Tangent => 16u64,
        VertexAttribute::TextureCoord => 8u64,
        VertexAttribute::Color => 16u64,
    }
}

/// The combined byte size of a list of attributes.
pub open spec fn spec_layout_size(s: Seq<VertexAttribute>) -> int
    decreases s.len(),
{
    if s.len() == 0 {
        0
    } else {
        spec_layout_size(s.drop_last()) + spec_attribute_size(s.last())
    }
}

/// A layout's combined size never shrinks as attributes are appended, and
/// is never negative.
proof fn lemma_layout_size_bounds(s: Seq<VertexAttribute>, i: int)
    requires
        0 <= i <= s.len(),
    ensures
        0 <= spec_layout_size(s.take(i)) <= spec_layout_size(s),
    decreases s.len() - i,
{
    if i == s.len() {
        assert(s.take(i) =~= s);
        lemma_layout_size_nonneg(s);
    } else {
        lemma_layout_size_bounds(s, i + 1);
        assert(s.take(i + 1).drop_last() =~= s.take(i));
        lemma_layout_size_nonneg(s.take(i));
    }
}

proof fn lemma_layout_size_nonneg(s: Seq<VertexAttribute>)
    ensures
        spec_layout_size(s) >= 0,
    decreases s.len(),
{
    if s.len() > 0 {
        lemma_layout_size_nonneg(s.drop_last());
    }
}

impl VertexAttribute {
    /// Get the size in bytes of this attribute.
    pub fn size(&self) -> (r: u64)
        ensures
            r == spec_attribute_size(*self),
    {
        match self {
            VertexAttribute::Position3D => 12,
            VertexAttribute::Position2D => 8,
            VertexAttribute::Normal => 12,
            VertexAttribute::Tangent => 16,
            VertexAttribute::TextureCoord => 8,
            VertexAttribute::Color => 16,
        }
    }
}

/// One attribute as it lands in a vertex buffer: its shader location, its
/// byte offset from the start of the vertex, and the attribute itself.
#[derive(Debug, Clone, Copy, PartialEq, Eq, Structural)]
pub struct PlacedAttribute {
    pub location: u32,
    pub offset: u64,
    pub attribute: VertexAttribute,
}

/// Vertex layout builder for creating vertex buffer layouts.
#[derive(Debug)]
pub struct VertexLayout {
    attributes: Vec<VertexAttribute>,
    stride: u64,
}

impl Clone for VertexLayout {
    fn clone(&self) -> (r: Self)
        ensures
            r.spec_attributes() == self.spec_attributes(),
            r.spec_stride() == self.spec_stride(),
    {
        let n = self.attributes.len();
        let mut attributes: Vec<VertexAttribute> = Vec::new();
        let mut i: usize = 0;
        while i < n
            invariant
                i <= n,
                n == self.attributes@.len(),
                attributes@.len() == i,
                forall|t: int| 0 <= t < i ==> attributes@[t] == self.attributes@[t],
            decreases n - i,
        {
            let ghost a0 = attributes@;
            attributes.push(self.attributes[i]);
            proof {
                assert(forall|t: int| 0 <= t < a0.len() ==> attributes@[t] == a0[t]);
            }
            i = i + 1;
        }
        proof {
            assert(attributes@ =~= self.attributes@);
        }
        VertexLayout { attributes, stride: self.stride }
    }
}

impl VertexLayout {
    pub closed spec fn spec_attributes(&self) -> Seq<VertexAttribute> {
        self.attributes@
    }

    pub closed spec fn spec_stride(&self) -> u64 {
        self.stride
    }

    /// The stride always equals the combined size of the attributes.
    pub open spec fn wf(&self) -> bool {
        self.spec_stride() == spec_layout_size(self.spec_attributes())
    }

    /// Create a new empty vertex layout.
    pub fn new() -> (r: Self)
        ensures
            r.wf(),
            r.spec_attributes() == Seq::<VertexAttribute>::empty(),
            r.spec_stride() == 0,
    {
        VertexLayout { attributes: Vec::new(), stride: 0 }
    }

    /// Add an attribute to the layout.
    pub fn with_attribute(self, attribute: VertexAttribute) -> (r: Self)
        requires
            self.wf(),
            self.spec_stride() + spec_attribute_size(attribute) <= u64::MAX,
        ensures
            r.wf(),
            r.spec_attributes() == self.spec_attributes().push(attribute),
            r.spec_stride() == self.spec_stride() + spec_attribute_size(attribute),
    {
        let mut attributes = self.attributes;
        let ghost a0 = attributes@;
        let stride = self.stride + attribute.size();
        attributes.push(attribute);
        proof {
            assert(attributes@.drop_last() =~= a0);
        }
        VertexLayout { attributes, stride }
    }

    /// Compute where each attribute lands in the vertex: locations count up
    /// from zero and each offset is the combined size of the attributes
    /// before it. Returns the placed attributes and the stride.
    pub fn build(&self) -> (r: (Vec<PlacedAttribute>, u64))
        requires
            self.wf(),
            self.spec_attributes().len() <= u32::MAX,
        ensures
            r.0@.len() == self.spec_attributes().len(),
            forall|i: int|
                0 <= i < r.0@.len() ==> (#[trigger] r.0@[i]) == (PlacedAttribute {
                    location: i as u32,
                    offset: spec_layout_size(self.spec_attributes().take(i)) as u64,
                    attribute: self.spec_attributes()[i],
                }),
            r.1 == self.spec_stride(),
    {
        let n = self.attributes.len();
        let mut placed: Vec<PlacedAttribute> = Vec::new();
        let mut offset: u64 = 0;
        let mut i: usize = 0;
        while i < n
            invariant
                i <= n,
                n == self.attributes@.len(),
                n <= u32::MAX,
                self.wf(),
                placed@.len() == i,
                offset == spec_layout_size(self.attributes@.take(i as int)),
                forall|t: int|
                    0 <= t < i ==> (#[trigger] placed@[t]) == (PlacedAttribute {
                        location: t as u32,
                        offset: spec_layout_size(self.attributes@.take(t)) as u64,
                        attribute: self.attributes@[t],
                    }),
            decreases n - i,
        {
            proof {
                lemma_layout_size_bounds(self.attributes@, i as int + 1);
                assert(self.attributes@.take(i as int + 1).drop_last() =~= self.attributes@.take(
                    i as int,
                ));
                lemma_layout_size_nonneg(self.attributes@.take(i as int));
            }
            let ghost p0 = placed@;
            let a = self.attributes[i];
            placed.push(PlacedAttribute { location: i as u32, offset, attribute: a });
            proof {
                assert(forall|t: int| 0 <= t < p0.len() ==> placed@[t] == p0[t]);
            }
            offset = offset + a.size();
            i = i + 1;
        }
        proof {
            assert(self.attributes@.take(n as int) =~= self.attributes@);
        }
        (placed, self.stride)
    }

    /// A layout holding a three-float position.
    pub fn position_only() -> (r: Self)
        ensures
            r.wf(),
            r.spec_attributes() =~= seq![VertexAttribute::Position3D],
            r.spec_stride() == 12,
    {
        Self::new().with_attribute(VertexAttribute::Position3D)
    }

    /// A layout holding a position and a normal.
    pub fn position_normal() -> (r: Self)
        ensures
            r.wf(),
            r.spec_attributes() =~= seq![VertexAttribute::Position3D, VertexAttribute::Normal],
            r.spec_stride() == 24,
    {
        Self::new().with_attribute(VertexAttribute::Position3D).with_attribute(
            VertexAttribute::Normal,
        )
    }

    /// A layout holding a position, a normal and a texture coordinate.
    pub fn position_normal_uv() -> (r: Self)
        ensures
            r.wf(),
            r.spec_attributes() =~= seq![
                VertexAttribute::Position3D,
                VertexAttribute::Normal,
                VertexAttribute::TextureCoord,
            ],
            r.spec_stride() == 32,
    {
        Self::new().with_attribute(VertexAttribute::Position3D).with_attribute(
            VertexAttribute::Normal,
        ).with_attribute(VertexAttribute::TextureCoord)
    }

    /// A layout holding a position and a colour.
    pub fn position_color() -> (r: Self)
        ensures
            r.wf(),
            r.spec_attributes() =~= seq![VertexAttribute::Position3D, VertexAttribute::Color],
            r.spec_stride() == 28,
    {
        Self::new().with_attribute(VertexAttribute::Position3D).with_attribute(
            VertexAttribute::Color,
        )
    }
}

impl Default for VertexLayout {
    fn default() -> (r: Self)
        ensures
            r.wf(),
            r.spec_attributes() =~= seq![VertexAttribute::Position3D],
            r.spec_stride() == 12,
    {
        Self::position_only()
    }
}

/// Shader registry for managing named shaders. A name maps to the handle
/// id it was most recently registered with.
pub struct ShaderRegistry {
    shaders: Vec<(String, HandleId)>,
}

impl ShaderRegistry {
    /// The registered names, each mapped to its current shader handle id.
    pub closed spec fn names(&self) -> Map<Seq<char>, u64> {
        ResourceManager::names_of(self.shaders@)
    }

    /// Create a new shader registry.
    pub fn new() -> (r: Self)
        ensures
            r.names() == Map::<Seq<char>, u64>::empty(),
    {
        ShaderRegistry { shaders: Vec::new() }
    }

    /// Register a shader under a name, replacing what the name meant before.
    pub fn register_shader(&mut self, name: String, handle: Handle<wgpu::ShaderModule>)
        ensures
            final(self).names() == old(self).names().insert(name@, handle@),
    {
        self.shaders.push((name, handle.id()));
        proof {
            assert(self.shaders@.drop_last() =~= old(self).shaders@);
        }
    }

    /// Get a shader by name.
    pub fn get_shader(&self, name: &str) -> (r: Option<Handle<wgpu::ShaderModule>>)
        ensures
            match r {
                Some(h) => self.names().dom().contains(name@) && h@ == self.names()[name@],
                None => !self.names().dom().contains(name@),
            },
    {
        let n = self.shaders.len();
        proof {
            assert(self.shaders@.take(n as int) =~= self.shaders@);
        }
        let mut i: usize = n;
        while i > 0
            invariant
                i <= n,
                n == self.shaders@.len(),
                ResourceManager::names_of(self.shaders@).dom().contains(name@)
                    == ResourceManager::names_of(self.shaders@.take(i as int)).dom().contains(
                    name@,
                ),
                ResourceManager::names_of(self.shaders@).dom().contains(name@)
                    ==> ResourceManager::names_of(self.shaders@)[name@]
                    == ResourceManager::names_of(self.shaders@.take(i as int))[name@],
            decreases i,
        {
            i = i - 1;
            proof {
                assert(self.shaders@.take(i as int + 1).drop_last() =~= self.shaders@.take(
                    i as int,
                ));
                assert(self.shaders@.take(i as int + 1).last() == self.shaders@[i as int]);
            }
            if self.shaders[i].0 == name.to_owned() {
                return Some(Handle::from_id(self.shaders[i].1));
            }
        }
        proof {
            assert(self.shaders@.take(0) =~= Seq::<(String, HandleId)>::empty());
        }
        None
    }

    /// Create a shader module from WGSL source and register it under the
    /// given name.
    pub fn create_shader_from_wgsl(
        &mut self,
        device: &wgpu::Device,
        resource_manager: &mut ResourceManager,
        name: String,
        source: &str,
    ) -> (r: Result<(), PipelineError>)
        requires
            old(resource_manager).wf(),
            old(resource_manager).fresh_id() < u64::MAX,
        ensures
            r is Ok,
            final(resource_manager).wf(),
            final(resource_manager).table() == old(resource_manager).table().insert(
                old(resource_manager).fresh_id(),
                ResourceKind::Shader,
            ),
            final(resource_manager).names() == old(resource_manager).names(),
            final(resource_manager).fresh_id() == old(resource_manager).fresh_id() + 1,
            final(self).names() == old(self).names().insert(
                name@,
                old(resource_manager).fresh_id(),
            ),
    {
        let desc = gpu::wgsl_descriptor(name.as_str(), source);
        let handle = resource_manager.create_shader(device, desc);
        self.register_shader(name, handle);
        Ok(())
    }

    /// Create and register the common default shaders: a plain forward
    /// shader under `forward_simple` and a vertex-colour shader under
    /// `forward_color`.
    pub fn create_default_shaders(
        &mut self,
        device: &wgpu::Device,
        resource_manager: &mut ResourceManager,
    ) -> (r: Result<(), PipelineError>)
        requires
            old(resource_manager).wf(),
            old(resource_manager).fresh_id() + 1 < u64::MAX,
        ensures
            r is Ok,
            final(resource_manager).wf(),
            final(resource_manager).fresh_id() == old(resource_manager).fresh_id() + 2,
            final(resource_manager).names() == old(resource_manager).names(),
            final(self).names() == old(self).names().insert(
                "forward_simple"@,
                old(resource_manager).fresh_id(),
            ).insert("forward_color"@, (old(resource_manager).fresh_id() + 1) as u64),
            final(self).names().dom().contains("forward_simple"@),
            final(self).names().dom().contains("forward_color"@),
    {
        let forward_shader_source = r#"
            struct VertexInput {
                @location(0) position: vec3<f32>,
            }

            struct VertexOutput {
                @builtin(position) clip_position: vec4<f32>,
            }

            @vertex
            fn vs_main(model: VertexInput) -> VertexOutput {
                var out: VertexOutput;
                out.clip_position = vec4<f32>(model.position, 1.0);
                return out;
            }

            @fragment
            fn fs_main(in: VertexOutput) -> @location(0) vec4<f32> {
                return vec4<f32>(0.8, 0.2, 0.3, 1.0);
            }
        "#;
        let r1 = self.create_shader_from_wgsl(
            device,
            resource_manager,
            "forward_simple".to_owned(),
            forward_shader_source,
        );
        if r1.is_err() {
            return r1;
        }
        let color_shader_source = r#"
            struct VertexInput {
                @location(0) position: vec3<f32>,
                @location(1) color: vec4<f32>,
            }

            struct VertexOutput {
                @builtin(position) clip_position: vec4<f32>,
                @location(0) color: vec4<f32>,
            }

            @vertex
            fn vs_main(model: VertexInput) -> VertexOutput {
                var out: VertexOutput;
                out.clip_position = vec4<f32>(model.position, 1.0);
                out.color = model.color;
                return out;
            }

            @fragment
            fn fs_main(in: VertexOutput) -> @location(0) vec4<f32> {
                return in.color;
            }
        "#;
        let r2 = self.create_shader_from_wgsl(
            device,
            resource_manager,
            "forward_color".to_owned(),
            color_shader_source,
        );
        if r2.is_err() {
            return r2;
        }
        Ok(())
    }

    /// Check if a shader exists.
    pub fn has_shader(&self, name: &str) -> (r: bool)
        ensures
            r == self.names().dom().contains(name@),
    {
        let found = self.get_shader(name);
        found.is_some()
    }

    /// Remove a shader from the registry, returning the handle its name
    /// carried.
    pub fn remove_shader(&mut self, name: &str) -> (r: Option<Handle<wgpu::ShaderModule>>)
        ensures
            match r {
                Some(h) => {
                    &&& old(self).names().dom().contains(name@)
                    &&& h@ == old(self).names()[name@]
                    &&& final(self).names() == old(self).names().remove(name@)
                },
                None => !old(self).names().dom().contains(name@) && final(self).names() == old(
                    self,
                ).names(),
            },
    {
        let found = self.get_shader(name);
        if found.is_none() {
            return None;
        }
        let n = self.shaders.len();
        proof {
            assert(self.shaders@.take(n as int) =~= self.shaders@);
        }
        let mut kept: Vec<(String, HandleId)> = Vec::new();
        let mut i: usize = 0;
        while i < n
            invariant
                i <= n,
                n == self.shaders@.len(),
                self.shaders@ == old(self).shaders@,
                ResourceManager::names_of(kept@) == ResourceManager::names_of(
                    self.shaders@.take(i as int),
                ).remove(name@),
            decreases n - i,
        {
            proof {
                assert(self.shaders@.take(i as int + 1).drop_last() =~= self.shaders@.take(
                    i as int,
                ));
                assert(self.shaders@.take(i as int + 1).last() == self.shaders@[i as int]);
            }
            if self.shaders[i].0 == name.to_owned() {
                proof {
                    assert(ResourceManager::names_of(self.shaders@.take(i as int + 1)).remove(
                        name@,
                    ) =~= ResourceManager::names_of(self.shaders@.take(i as int)).remove(name@));
                }
            } else {
                let ghost kept0 = kept@;
                let entry_name = self.shaders[i].0.clone();
                let entry_id = self.shaders[i].1;
                kept.push((entry_name, entry_id));
                proof {
                    assert(kept@.drop_last() =~= kept0);
                    assert(ResourceManager::names_of(self.shaders@.take(i as int + 1)).remove(
                        name@,
                    ) =~= ResourceManager::names_of(self.shaders@.take(i as int)).remove(
                        name@,
                    ).insert(self.shaders@[i as int].0@, self.shaders@[i as int].1@));
                }
            }
            i = i + 1;
        }
        proof {
            assert(self.shaders@.take(n as int) =~= self.shaders@);
        }
        self.shaders = kept;
        found
    }

    /// Clear all shaders.
    pub fn clear(&mut self)
        ensures
            final(self).names() == Map::<Seq<char>, u64>::empty(),
    {
        self.shaders = Vec::new();
    }
}

impl Default for ShaderRegistry {
    fn default() -> (r: Self)
        ensures
            r.names() == Map::<Seq<char>, u64>::empty(),
    {
        Self::new()
    }
}

/// Compute pipeline builder with sensible defaults.
#[derive(Debug)]
pub struct ComputePipelineBuilder {
    label: Option<String>,
    compute_shader: Option<String>,
}

impl ComputePipelineBuilder {
    pub closed spec fn spec_label(&self) -> Option<Seq<char>> {
        match self.label {
            Some(ref l) => Some(l@),
            None => None,
        }
    }

    pub closed spec fn spec_compute_shader(&self) -> Option<Seq<char>> {
        match self.compute_shader {
            Some(ref s) => Some(s@),
            None => None,
        }
    }

    /// Create a new compute pipeline builder.
    pub fn new() -> (r: Self)
        ensures
            r.spec_label() is None,
            r.spec_compute_shader() is None,
    {
        ComputePipelineBuilder { label: None, compute_shader: None }
    }

    /// Set the pipeline label.
    pub fn with_label(self, label: String) -> (r: Self)
        ensures
            r.spec_label() == Some(label@),
            r.spec_compute_shader() == self.spec_compute_shader(),
    {
        ComputePipelineBuilder { label: Some(label), compute_shader: self.compute_shader }
    }

    /// Set the compute shader by name.
    pub fn with_compute_shader(self, shader_name: String) -> (r: Self)
        ensures
            r.spec_label() == self.spec_label(),
            r.spec_compute_shader() == Some(shader_name@),
    {
        ComputePipelineBuilder { label: self.label, compute_shader: Some(shader_name) }
    }

    /// Build the compute pipeline. This succeeds exactly when a compute
    /// shader name was set, the registry knows the name, and the resource
    /// manager holds a shader module under the registered handle.
    pub fn build(
        self,
        device: &wgpu::Device,
        resource_manager: &ResourceManager,
        shader_registry: &ShaderRegistry,
    ) -> (r: Result<wgpu::ComputePipeline, PipelineError>)
        ensures
            ({
                let named = self.spec_compute_shader() is Some;
                let registered = named && shader_registry.names().dom().contains(
                    self.spec_compute_shader()->Some_0,
                );
                let stored = registered && {
                    let id = shader_registry.names()[self.spec_compute_shader()->Some_0];
                    resource_manager.table().dom().contains(id) && resource_manager.table()[id]
                        == ResourceKind::Shader
                };
                match r {
                    Ok(_) => stored,
                    Err(PipelineError::ShaderNotFound(_)) => !registered,
                    Err(PipelineError::ResourceError(_)) => registered && !stored,
                    Err(_) => false,
                }
            }),
    {
        let shader_name = match &self.compute_shader {
            Some(n) => n,
            None => {
                return Err(PipelineError::ShaderNotFound("compute shader".to_owned()));
            },
        };
        let compute_shader = match shader_registry.get_shader(shader_name.as_str()) {
            Some(h) => h,
            None => {
                return Err(PipelineError::ShaderNotFound(shader_name.clone()));
            },
        };
        let cs_module = match resource_manager.get_shader(compute_shader) {
            Ok(m) => m,
            Err(e) => {
                return Err(PipelineError::ResourceError(e.message()));
            },
        };
        let layout_label = match &self.label {
            Some(l) => Some(l.clone().concat(" Layout")),
            None => None,
        };
        let layout_label_ref = match &layout_label {
            Some(l) => Some(l.as_str()),
            None => None,
        };
        let layout_desc = gpu::empty_pipeline_layout_descriptor(layout_label_ref);
        let pipeline_layout = gpu::create_pipeline_layout(device, &layout_desc);
        let label_ref = match &self.label {
            Some(l) => Some(l.as_str()),
            None => None,
        };
        let desc = gpu::compute_pipeline_descriptor(
            label_ref,
            &pipeline_layout,
            cs_module,
            "cs_main",
        );
        Ok(gpu::create_compute_pipeline(device, &desc))
    }
}

impl Default for ComputePipelineBuilder {
    fn default() -> (r: Self)
        ensures
            r.spec_label() is None,
            r.spec_compute_shader() is None,
    {
        Self::new()
    }
}

} // verus!
