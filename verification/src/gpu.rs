//! Trusted boundary to the wgpu graphics backend.
//!
//! Every item in this module either declares a wgpu type so that the rest of
//! the crate can mention it, or wraps a single wgpu call behind a contract.
//! The backend objects themselves are opaque to the verifier: nothing in this
//! crate reads their contents, it only stores and hands them around.

use vstd::prelude::*;

verus! {

#[verifier::external_type_specification]
#[verifier::external_body]
pub struct ExDevice(wgpu::Device);

#[verifier::external_type_specification]
#[verifier::external_body]
pub struct ExQueue(wgpu::Queue);

#[verifier::external_type_specification]
#[verifier::external_body]
pub struct ExCommandEncoder(wgpu::CommandEncoder);

#[verifier::external_type_specification]
#[verifier::external_body]
pub struct ExCommandBuffer(wgpu::CommandBuffer);

#[verifier::external_type_specification]
#[verifier::external_body]
pub struct ExBuffer(wgpu::Buffer);

#[verifier::external_type_specification]
#[verifier::external_body]
pub struct ExTexture(wgpu::Texture);

#[verifier::external_type_specification]
#[verifier::external_body]
pub struct ExBindGroup(wgpu::BindGroup);

#[verifier::external_type_specification]
#[verifier::external_body]
pub struct ExBindGroupLayout(wgpu::BindGroupLayout);

#[verifier::external_type_specification]
#[verifier::external_body]
pub struct ExRenderPipeline(wgpu::RenderPipeline);

#[verifier::external_type_specification]
#[verifier::external_body]
pub struct ExComputePipeline(wgpu::ComputePipeline);

#[verifier::external_type_specification]
#[verifier::external_body]
pub struct ExShaderModule(wgpu::ShaderModule);

#[verifier::external_type_specification]
#[verifier::external_body]
pub struct ExSampler(wgpu::Sampler);

#[verifier::external_type_specification]
#[verifier::external_body]
pub struct ExPipelineLayout(wgpu::PipelineLayout);

#[verifier::external_type_specification]
#[verifier::external_body]
#[verifier::reject_recursive_types(L)]
pub struct ExBufferDescriptor<L>(wgpu_types::BufferDescriptor<L>);

#[verifier::external_type_specification]
#[verifier::external_body]
#[verifier::reject_recursive_types(L)]
#[verifier::reject_recursive_types(V)]
pub struct ExTextureDescriptor<L, V>(wgpu_types::TextureDescriptor<L, V>);

#[verifier::external_type_specification]
#[verifier::external_body]
pub struct ExTextureFormat(wgpu_types::TextureFormat);

#[verifier::external_type_specification]
#[verifier::external_body]
pub struct ExShaderModuleDescriptor<'a>(wgpu::ShaderModuleDescriptor<'a>);

#[verifier::external_type_specification]
#[verifier::external_body]
pub struct ExSamplerDescriptor<'a>(wgpu::SamplerDescriptor<'a>);

#[verifier::external_type_specification]
#[verifier::external_body]
pub struct ExBindGroupDescriptor<'a>(wgpu::BindGroupDescriptor<'a>);

#[verifier::external_type_specification]
#[verifier::external_body]
pub struct ExBindGroupLayoutDescriptor<'a>(wgpu::BindGroupLayoutDescriptor<'a>);

#[verifier::external_type_specification]
#[verifier::external_body]
pub struct ExRenderPipelineDescriptor<'a>(wgpu::RenderPipelineDescriptor<'a>);

#[verifier::external_type_specification]
#[verifier::external_body]
pub struct ExComputePipelineDescriptor<'a>(wgpu::ComputePipelineDescriptor<'a>);

#[verifier::external_type_specification]
#[verifier::external_body]
pub struct ExPipelineLayoutDescriptor<'a>(wgpu::PipelineLayoutDescriptor<'a>);

#[verifier::external_type_specification]
#[verifier::external_body]
pub struct ExBufferInitDescriptor<'a>(wgpu::util::BufferInitDescriptor<'a>);

/// Relies on wgpu::Device::create_buffer: creates a buffer object.
#[verifier::external_body]
pub(crate) fn create_buffer(device: &wgpu::Device, desc: &wgpu::BufferDescriptor) -> wgpu::Buffer {
    device.create_buffer(desc)
}

/// Relies on wgpu::util::DeviceExt::create_buffer_init: creates a buffer
/// filled with the given initial contents.
#[verifier::external_body]
pub(crate) fn create_buffer_init(
    device: &wgpu::Device,
    desc: &wgpu::util::BufferInitDescriptor,
) -> wgpu::Buffer {
    wgpu::util::DeviceExt::create_buffer_init(device, desc)
}

/// Relies on wgpu::COPY_BYTES_PER_ROW_ALIGNMENT, which the backend
/// documents as 256 bytes.
#[verifier::external_body]
pub(crate) fn copy_row_alignment() -> (r: u32)
    ensures
        r == 256,
{
    wgpu::COPY_BYTES_PER_ROW_ALIGNMENT
}

/// Builds the descriptor for a staging buffer of the given size that copies
/// can land in and the host can map for reading; relies on
/// wgpu::BufferDescriptor's field layout and the COPY_DST and MAP_READ
/// usage flags.
#[verifier::external_body]
pub(crate) fn map_read_buffer_descriptor<'a>(
    label: &'a str,
    size: u64,
) -> wgpu::BufferDescriptor<'a> {
    wgpu::BufferDescriptor {
        label: Some(label),
        size,
        usage: wgpu::BufferUsages::COPY_DST | wgpu::BufferUsages::MAP_READ,
        mapped_at_creation: false,
    }
}

/// Relies on wgpu::Device::create_texture: creates a texture object.
#[verifier::external_body]
pub(crate) fn create_texture(
    device: &wgpu::Device,
    desc: &wgpu::TextureDescriptor,
) -> wgpu::Texture {
    device.create_texture(desc)
}

/// Relies on wgpu::Device::create_shader_module: compiles a shader module.
#[verifier::external_body]
pub(crate) fn create_shader_module(
    device: &wgpu::Device,
    desc: wgpu::ShaderModuleDescriptor,
) -> wgpu::ShaderModule {
    device.create_shader_module(desc)
}

/// Builds the descriptor for a WGSL shader module with the given label and
/// source text; relies on wgpu::ShaderSource::Wgsl accepting borrowed text.
#[verifier::external_body]
pub(crate) fn wgsl_descriptor<'a>(
    label: &'a str,
    source: &'a str,
) -> wgpu::ShaderModuleDescriptor<'a> {
    wgpu::ShaderModuleDescriptor {
        label: Some(label),
        source: wgpu::ShaderSource::Wgsl(source.into()),
    }
}

/// Relies on wgpu::Device::create_render_pipeline: creates a render pipeline.
#[verifier::external_body]
pub(crate) fn create_render_pipeline(
    device: &wgpu::Device,
    desc: &wgpu::RenderPipelineDescriptor,
) -> wgpu::RenderPipeline {
    device.create_render_pipeline(desc)
}

/// Relies on wgpu::Device::create_compute_pipeline: creates a compute pipeline.
#[verifier::external_body]
pub(crate) fn create_compute_pipeline(
    device: &wgpu::Device,
    desc: &wgpu::ComputePipelineDescriptor,
) -> wgpu::ComputePipeline {
    device.create_compute_pipeline(desc)
}

/// Relies on wgpu::Device::create_bind_group: creates a bind group.
#[verifier::external_body]
pub(crate) fn create_bind_group(
    device: &wgpu::Device,
    desc: &wgpu::BindGroupDescriptor,
) -> wgpu::BindGroup {
    device.create_bind_group(desc)
}

/// Relies on wgpu::Device::create_bind_group_layout: creates a bind group layout.
#[verifier::external_body]
pub(crate) fn create_bind_group_layout(
    device: &wgpu::Device,
    desc: &wgpu::BindGroupLayoutDescriptor,
) -> wgpu::BindGroupLayout {
    device.create_bind_group_layout(desc)
}

/// Relies on wgpu::Device::create_sampler: creates a sampler.
#[verifier::external_body]
pub(crate) fn create_sampler(
    device: &wgpu::Device,
    desc: &wgpu::SamplerDescriptor,
) -> wgpu::Sampler {
    device.create_sampler(desc)
}

/// Relies on wgpu::Device::create_pipeline_layout: creates a pipeline layout.
#[verifier::external_body]
pub(crate) fn create_pipeline_layout(
    device: &wgpu::Device,
    desc: &wgpu::PipelineLayoutDescriptor,
) -> wgpu::PipelineLayout {
    device.create_pipeline_layout(desc)
}

/// Builds a pipeline layout descriptor with the given label and no bind
/// group layouts; relies on wgpu::PipelineLayoutDescriptor's field layout.
#[verifier::external_body]
pub(crate) fn empty_pipeline_layout_descriptor<'a>(
    label: Option<&'a str>,
) -> wgpu::PipelineLayoutDescriptor<'a> {
    wgpu::PipelineLayoutDescriptor { label, bind_group_layouts: &[], push_constant_ranges: &[] }
}

/// Builds a compute pipeline descriptor from its parts; relies on
/// wgpu::ComputePipelineDescriptor's field layout.
#[verifier::external_body]
pub(crate) fn compute_pipeline_descriptor<'a>(
    label: Option<&'a str>,
    layout: &'a wgpu::PipelineLayout,
    module: &'a wgpu::ShaderModule,
    entry_point: &'a str,
) -> wgpu::ComputePipelineDescriptor<'a> {
    wgpu::ComputePipelineDescriptor {
        label,
        layout: Some(layout),
        module,
        entry_point,
        compilation_options: wgpu::PipelineCompilationOptions::default(),
        cache: None,
    }
}

/// Relies on wgpu::Device::create_command_encoder: opens a command recording
/// context with the given debug label.
#[verifier::external_body]
pub(crate) fn create_command_encoder(
    device: &wgpu::Device,
    label: &str,
) -> wgpu::CommandEncoder {
    device.create_command_encoder(&wgpu::CommandEncoderDescriptor { label: Some(label) })
}

/// Relies on wgpu::CommandEncoder::finish: closes the recording context and
/// returns the recorded command buffer.
#[verifier::external_body]
pub(crate) fn encoder_finish(encoder: wgpu::CommandEncoder) -> wgpu::CommandBuffer {
    encoder.finish()
}

/// Relies on wgpu::CommandEncoder::copy_texture_to_buffer: records a copy of
/// the full `width` by `height` texture into the buffer, each row stored at
/// `bytes_per_row` bytes from the start of the one before it.
#[verifier::external_body]
pub(crate) fn copy_texture_to_buffer(
    encoder: &mut wgpu::CommandEncoder,
    texture: &wgpu::Texture,
    buffer: &wgpu::Buffer,
    bytes_per_row: u32,
    width: u32,
    height: u32,
) {
    let source = wgpu::ImageCopyTexture {
        texture,
        mip_level: 0,
        origin: wgpu::Origin3d::ZERO,
        aspect: wgpu::TextureAspect::All,
    };
    let layout = wgpu::ImageDataLayout {
        offset: 0,
        bytes_per_row: Some(bytes_per_row),
        rows_per_image: Some(height),
    };
    let destination = wgpu::ImageCopyBuffer { buffer, layout };
    let size = wgpu::Extent3d { width, height, depth_or_array_layers: 1 };
    encoder.copy_texture_to_buffer(source, destination, size);
}

/// A command queue together with a count of how many command batches this
/// crate has submitted to it. The count exists so that contracts can state
/// when a call does, and does not, hand work to the backend.
pub struct GpuQueue {
    queue: wgpu::Queue,
    submissions: Ghost<nat>,
}

impl GpuQueue {
    /// Wrap a backend queue; no batch has been submitted through the wrapper yet.
    pub fn new(queue: wgpu::Queue) -> (q: GpuQueue)
        ensures
            q.submission_count() == 0,
    {
        GpuQueue { queue, submissions: Ghost(0nat) }
    }

    pub closed spec fn submission_count(&self) -> nat {
        self.submissions@
    }

    /// Borrow the underlying backend queue, for callers that only read from it.
    pub fn backend(&self) -> &wgpu::Queue {
        &self.queue
    }

    /// Relies on wgpu::Queue::submit: hands exactly one recorded command
    /// buffer to the backend queue.
    #[verifier::external_body]
    pub fn submit(&mut self, buffer: wgpu::CommandBuffer)
        ensures
            final(self).submission_count() == old(self).submission_count() + 1,
    {
        self.queue.submit(std::iter::once(buffer));
    }
}

} // verus!
