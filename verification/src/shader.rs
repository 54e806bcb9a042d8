//! The textures that a shader reads.
use vstd::prelude::*;


verus! {

/// A linked shader program, with the places of its textures.
#[derive(Clone, Copy, Debug, PartialEq, Eq, Structural)]
pub struct Shader {
    pub program: u32,
    pub y_tex_loc: i32,
    pub u_tex_loc: i32,
    pub v_tex_loc: i32,
    /// Whether the colours are in one texture.
    pub uses_uv: bool,
}

/// The number of the texture unit that a place reads.
#[derive(Clone, Copy, Debug, PartialEq, Eq, Structural)]
pub struct UniformBinding {
    pub location: i32,
    pub unit: i32,
}

impl Shader {
    /// The program for frames of three planes.
    pub fn new_yuv420p(program: u32, y_tex_loc: i32, u_tex_loc: i32, v_tex_loc: i32) -> (r: Shader)
        ensures
            r == (Shader { program, y_tex_loc, u_tex_loc, v_tex_loc, uses_uv: false }),
    {
        Shader { program, y_tex_loc, u_tex_loc, v_tex_loc, uses_uv: false }
    }

    /// The program for frames of two planes.
    pub fn new_nv12(program: u32, y_tex_loc: i32, u_tex_loc: i32, v_tex_loc: i32) -> (r: Shader)
        ensures
            r == (Shader { program, y_tex_loc, u_tex_loc, v_tex_loc, uses_uv: true }),
    {
        Shader { program, y_tex_loc, u_tex_loc, v_tex_loc, uses_uv: true }
    }

    /// The texture units to set before drawing: brightness and colours in the order of the
    /// planes; the third only where there are three.
    pub open spec fn bindings(self) -> Seq<UniformBinding> {
        let two = seq![
            UniformBinding { location: self.y_tex_loc, unit: 0 },
            UniformBinding { location: self.u_tex_loc, unit: 1 },
        ];
        if self.uses_uv {
            two
        } else {
            two.push(UniformBinding { location: self.v_tex_loc, unit: 2 })
        }
    }

    /// The texture units to set before drawing.
    pub fn use_program(&self) -> (r: Vec<UniformBinding>)
        ensures
            r@ == self.bindings(),
    {
        let mut r: Vec<UniformBinding> = Vec::new();
        r.push(UniformBinding { location: self.y_tex_loc, unit: 0 });
        r.push(UniformBinding { location: self.u_tex_loc, unit: 1 });
        if !self.uses_uv {
            r.push(UniformBinding { location: self.v_tex_loc, unit: 2 });
        }
        r
    }
}

/// Each texture that a shader reads is bound to the unit of its plane: brightness to the
/// first, colours to the second and, where they are in two planes, to the third.
pub proof fn law_textures_are_bound_to_their_planes(s: Shader)
    ensures
        s.bindings().len() == if s.uses_uv {
            2int
        } else {
            3
        },
        forall|k: int| 0 <= k < s.bindings().len() ==> (#[trigger] s.bindings()[k]).unit == k,
        s.bindings()[0].location == s.y_tex_loc,
        s.bindings()[1].location == s.u_tex_loc,
        !s.uses_uv ==> s.bindings()[2].location == s.v_tex_loc,
{
}

} // verus!
