use vstd::prelude::*;

verus! {

/// The pipelines of the forward renderer.
#[derive(Clone, Copy, Debug, PartialEq, Eq, Structural)]
pub enum Shader {
    Ball,
    Flat,
    Wireframe,
    Lines,
    DebugLines,
    Count,
}

/// Number of pipelines, one per shader before `Count`.
pub const SHADER_COUNT: usize = 5;

impl Shader {
    pub open spec fn spec_index(self) -> nat {
        match self {
            Shader::Ball => 0,
            Shader::Flat => 1,
            Shader::Wireframe => 2,
            Shader::Lines => 3,
            Shader::DebugLines => 4,
            Shader::Count => 5,
        }
    }

    /// The slot of the shader's pipeline.
    pub fn index(self) -> (r: usize)
        ensures
            r == self.spec_index(),
    {
        match self {
            Shader::Ball => 0,
            Shader::Flat => 1,
            Shader::Wireframe => 2,
            Shader::Lines => 3,
            Shader::DebugLines => 4,
            Shader::Count => SHADER_COUNT,
        }
    }
}

} // verus!
