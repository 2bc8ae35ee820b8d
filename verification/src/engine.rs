//! Engine-level errors and a minimal engine used for testing.

use vstd::prelude::*;

verus! {

/// Error types for engine operations.
#[derive(Debug)]
pub enum EngineError {
    InitializationError(String),
    RenderingError(String),
    Other(String),
}

impl EngineError {
    /// A human-readable description of the error.
    pub fn message(&self) -> (r: String)
        ensures
            (self matches EngineError::InitializationError(m) ==> r@ == "Initialization error: "@
                + m@),
            (self matches EngineError::RenderingError(m) ==> r@ == "Rendering error: "@ + m@),
            (self matches EngineError::Other(m) ==> r@ == "Engine error: "@ + m@),
    {
        match self {
            EngineError::InitializationError(m) => {
                "Initialization error: ".to_owned().concat(m.as_str())
            },
            EngineError::RenderingError(m) => "Rendering error: ".to_owned().concat(m.as_str()),
            EngineError::Other(m) => "Engine error: ".to_owned().concat(m.as_str()),
        }
    }
}

/// The fixed frame a placeholder engine reports in headless mode: a two by
/// two image of red, green, blue and white pixels, row by row, RGBA.
pub open spec fn placeholder_frame_bytes() -> Seq<u8> {
    seq![255u8, 0, 0, 255, 0, 255, 0, 255, 0, 0, 255, 255, 255, 255, 255, 255]
}

/// Simple placeholder engine implementation for testing: it counts frames
/// and hands back a fixed tiny image instead of touching any backend.
pub struct PlaceholderEngine {
    frame_count: u32,
    is_headless: bool,
}

impl PlaceholderEngine {
    pub closed spec fn spec_frame_count(&self) -> u32 {
        self.frame_count
    }

    pub closed spec fn spec_headless(&self) -> bool {
        self.is_headless
    }

    pub fn new(is_headless: bool) -> (e: Self)
        ensures
            e.spec_frame_count() == 0,
            e.spec_headless() == is_headless,
    {
        PlaceholderEngine { frame_count: 0, is_headless }
    }

    /// Window resizing is meaningless to the placeholder; nothing changes.
    pub fn resize(&mut self, _width: u32, _height: u32)
        ensures
            *final(self) == *old(self),
    {
    }

    /// Advance to the next frame.
    pub fn update(&mut self)
        requires
            old(self).spec_frame_count() < u32::MAX,
        ensures
            final(self).spec_frame_count() == old(self).spec_frame_count() + 1,
            final(self).spec_headless() == old(self).spec_headless(),
    {
        self.frame_count = self.frame_count + 1;
    }

    /// Rendering a placeholder frame always succeeds and changes nothing.
    pub fn render(&mut self) -> (r: Result<(), EngineError>)
        ensures
            r is Ok,
            *final(self) == *old(self),
    {
        Ok(())
    }

    /// In headless mode, the fixed placeholder frame; in windowed mode,
    /// nothing.
    pub fn get_rendered_frame_data(&self) -> (r: Option<Vec<u8>>)
        ensures
            match r {
                Some(v) => self.spec_headless() && v@ == placeholder_frame_bytes(),
                None => !self.spec_headless(),
            },
    {
        if self.is_headless {
            let mut v: Vec<u8> = Vec::new();
            v.push(255);
            v.push(0);
            v.push(0);
            v.push(255);
            v.push(0);
            v.push(255);
            v.push(0);
            v.push(255);
            v.push(0);
            v.push(0);
            v.push(255);
            v.push(255);
            v.push(255);
            v.push(255);
            v.push(255);
            v.push(255);
            proof {
                assert(v@ =~= placeholder_frame_bytes());
            }
            Some(v)
        } else {
            None
        }
    }
}

} // verus!
