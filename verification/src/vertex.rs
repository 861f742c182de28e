use vstd::prelude::*;
use crate::scalar::Scalar;

verus! {

/// A point of the plane: `.0` is x, `.1` is y.
#[derive(Debug, Clone, Copy, PartialEq, Eq, Structural)]
pub struct Vertex(pub Scalar, pub Scalar);

/// A colour as red, green, blue and alpha, each already scaled to 0.0 ..= 1.0.
#[derive(Debug, Clone, Copy, PartialEq, Eq, Structural)]
pub struct Color(pub Scalar, pub Scalar, pub Scalar, pub Scalar);

impl Color {
    /// Opaque white, the background of a new canvas.
    pub open spec fn spec_white() -> Color {
        Color(Scalar::one(), Scalar::one(), Scalar::one(), Scalar::one())
    }

    /// The colour every vertex of a textured shape carries: white with alpha
    /// 0.0, which tells the fragment stage to take the texture and ignore
    /// the colour.
    pub open spec fn spec_texture_marker() -> Color {
        Color(Scalar::one(), Scalar::one(), Scalar::one(), Scalar::zero())
    }

    /// Opaque white.
    #[verifier::when_used_as_spec(spec_white)]
    pub fn white() -> (c: Color)
        ensures
            c == Self::spec_white(),
    {
        Color(Scalar::one(), Scalar::one(), Scalar::one(), Scalar::one())
    }

    /// The colour of textured shapes.
    #[verifier::when_used_as_spec(spec_texture_marker)]
    pub fn texture_marker() -> (c: Color)
        ensures
            c == Self::spec_texture_marker(),
    {
        Color(Scalar::one(), Scalar::one(), Scalar::one(), Scalar::zero())
    }
}

/// One vertex as the rasterizer reads it: position, colour, texture
/// coordinate, eight scalars in this order.
#[derive(Debug, Clone, Copy, PartialEq, Eq, Structural)]
pub struct VertexRecord {
    pub x: Scalar,
    pub y: Scalar,
    pub r: Scalar,
    pub g: Scalar,
    pub b: Scalar,
    pub a: Scalar,
    pub u: Scalar,
    pub v: Scalar,
}

/// Number of scalars in one vertex record.
pub const RECORD_SCALARS: usize = 8;

impl VertexRecord {
    /// The eight scalars of the record, in buffer order.
    pub open spec fn scalars(self) -> Seq<Scalar> {
        seq![self.x, self.y, self.r, self.g, self.b, self.a, self.u, self.v]
    }

    /// The position of the record.
    pub open spec fn position(self) -> Vertex {
        Vertex(self.x, self.y)
    }

    /// The colour of the record.
    pub open spec fn color(self) -> Color {
        Color(self.r, self.g, self.b, self.a)
    }

    /// A vertex of a solid shape: the given position and colour, and the
    /// placeholder texture coordinate (1.0, 1.0).
    pub open spec fn spec_solid(position: Vertex, fill: Color) -> VertexRecord {
        VertexRecord {
            x: position.0,
            y: position.1,
            r: fill.0,
            g: fill.1,
            b: fill.2,
            a: fill.3,
            u: Scalar::one(),
            v: Scalar::one(),
        }
    }

    /// A vertex of a textured shape: the given position and texture
    /// coordinate, and the colour that marks textured shapes.
    pub open spec fn spec_textured(position: Vertex, u: Scalar, v: Scalar) -> VertexRecord {
        VertexRecord {
            x: position.0,
            y: position.1,
            r: Scalar::one(),
            g: Scalar::one(),
            b: Scalar::one(),
            a: Scalar::zero(),
            u,
            v,
        }
    }

    /// A vertex of a solid shape.
    #[verifier::when_used_as_spec(spec_solid)]
    pub fn solid(position: Vertex, fill: Color) -> (record: VertexRecord)
        ensures
            record == Self::spec_solid(position, fill),
    {
        VertexRecord {
            x: position.0,
            y: position.1,
            r: fill.0,
            g: fill.1,
            b: fill.2,
            a: fill.3,
            u: Scalar::one(),
            v: Scalar::one(),
        }
    }

    /// A vertex of a textured shape.
    #[verifier::when_used_as_spec(spec_textured)]
    pub fn textured(position: Vertex, u: Scalar, v: Scalar) -> (record: VertexRecord)
        ensures
            record == Self::spec_textured(position, u, v),
    {
        VertexRecord {
            x: position.0,
            y: position.1,
            r: Scalar::one(),
            g: Scalar::one(),
            b: Scalar::one(),
            a: Scalar::zero(),
            u,
            v,
        }
    }
}

/// The texture coordinates that map a whole image onto a quad.
pub struct TexCoord;

impl TexCoord {
    /// The corners of the unit square as `(u, v)` pairs, for the top-left,
    /// top-right, bottom-right and bottom-left corner of a quad:
    /// (0, 1), (1, 1), (1, 0), (0, 0).
    pub open spec fn spec_default() -> Seq<Scalar> {
        seq![
            Scalar::zero(),
            Scalar::one(),
            Scalar::one(),
            Scalar::one(),
            Scalar::one(),
            Scalar::zero(),
            Scalar::zero(),
            Scalar::zero(),
        ]
    }

    /// The texture coordinates of a whole image.
    pub fn default() -> (texcoord: [Scalar; 8])
        ensures
            texcoord@ == Self::spec_default(),
    {
        let texcoord = [
            Scalar::zero(),
            Scalar::one(),
            Scalar::one(),
            Scalar::one(),
            Scalar::one(),
            Scalar::zero(),
            Scalar::zero(),
            Scalar::zero(),
        ];
        assert(texcoord@ =~= Self::spec_default());
        texcoord
    }
}

} // verus!
