//! Rendering statistics and renderer-level validation helpers.

use vstd::prelude::*;

verus! {

/// Statistics about the rendering process.
#[derive(Debug)]
pub struct RenderStats {
    pub frame_count: u64,
    pub draw_calls: u32,
    pub vertices_rendered: u32,
    pub triangles_rendered: u32,
    pub render_passes: u32,
}

impl Clone for RenderStats {
    fn clone(&self) -> (r: Self)
        ensures
            r == *self,
    {
        RenderStats {
            frame_count: self.frame_count,
            draw_calls: self.draw_calls,
            vertices_rendered: self.vertices_rendered,
            triangles_rendered: self.triangles_rendered,
            render_passes: self.render_passes,
        }
    }
}

impl Default for RenderStats {
    fn default() -> (r: Self)
        ensures
            r.frame_count == 0,
            r.draw_calls == 0,
            r.vertices_rendered == 0,
            r.triangles_rendered == 0,
            r.render_passes == 0,
    {
        RenderStats {
            frame_count: 0,
            draw_calls: 0,
            vertices_rendered: 0,
            triangles_rendered: 0,
            render_passes: 0,
        }
    }
}

/// Clamp a requested MSAA sample count to the counts every render target
/// format is guaranteed to support. Depth formats only guarantee one and
/// four samples, so those are the only counts handed to the backend.
pub fn validate_sample_count(requested: u32) -> (r: u32)
    ensures
        r == if requested >= 4 { 4u32 } else { 1u32 },
{
    if requested >= 4 {
        4
    } else {
        1
    }
}

} // verus!
