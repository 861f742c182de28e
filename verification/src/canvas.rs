use vstd::prelude::*;
use vstd::seq_lib::lemma_flatten_concat;
use crate::scalar::Scalar;
use crate::stroke::{next_index, segment_count, spec_next_index, spec_segment_count};
use crate::vertex::{Color, Vertex, VertexRecord};

verus! {

/// Number of fan triangles in a circle.
pub const CIRCLE_SUBDIVISIONS: usize = 128;

/// Why the canvas did not take a shape.
#[derive(Debug, Clone, Copy, PartialEq, Eq, Structural)]
pub enum ShapeError {
    /// The records do not make whole triangles: their count is not a
    /// multiple of three.
    PartialTriangle,
    /// A stroke needs at least two points.
    ShortPath,
    /// The two rails of a stroke do not have the same number of points.
    UnevenRails,
    /// The rim of a circle does not hold `CIRCLE_SUBDIVISIONS + 1` points.
    RimSize,
}

/// The corners and texture coordinates of one glyph, ready to draw.
///
/// `left, top, right, bottom` place the quad; `u_left, v_top, u_right,
/// v_bottom` are where its corners lie in the atlas.
#[derive(Debug, Clone, Copy, PartialEq, Eq, Structural)]
pub struct TexturedQuad {
    pub left: Scalar,
    pub top: Scalar,
    pub right: Scalar,
    pub bottom: Scalar,
    pub u_left: Scalar,
    pub v_top: Scalar,
    pub u_right: Scalar,
    pub v_bottom: Scalar,
}

/// The triangle `first, second, third`, its points in the order given.
pub open spec fn triangle_shape(first: Vertex, second: Vertex, third: Vertex, fill: Color) -> Seq<
    VertexRecord,
> {
    seq![
        VertexRecord::solid(first, fill),
        VertexRecord::solid(second, fill),
        VertexRecord::solid(third, fill),
    ]
}

/// The quad `first, second, third, fourth` (clockwise from the top left) as
/// the two triangles `second, third, first` and `third, fourth, first`. The
/// quad is cut along the diagonal from `first` to `third`, whatever its
/// shape.
pub open spec fn quad_shape(first: Vertex, second: Vertex, third: Vertex, fourth: Vertex, fill: Color) -> Seq<
    VertexRecord,
> {
    seq![
        VertexRecord::solid(second, fill),
        VertexRecord::solid(third, fill),
        VertexRecord::solid(first, fill),
        VertexRecord::solid(third, fill),
        VertexRecord::solid(fourth, fill),
        VertexRecord::solid(first, fill),
    ]
}

/// The rectangle between the corner `(x, y)` and the opposite corner
/// `(x_far, y_far)`, as a quad that starts at `(x, y)`.
pub open spec fn rect_shape(x: Scalar, y: Scalar, x_far: Scalar, y_far: Scalar, fill: Color) -> Seq<
    VertexRecord,
> {
    quad_shape(Vertex(x, y), Vertex(x_far, y), Vertex(x_far, y_far), Vertex(x, y_far), fill)
}

/// The rectangle between `(x, y)` and `(x_far, y_far)` as a textured quad.
/// `texcoord` holds a `(u, v)` pair for the top-left, top-right,
/// bottom-right and bottom-left corner, in this order.
pub open spec fn image_shape(
    x: Scalar,
    y: Scalar,
    x_far: Scalar,
    y_far: Scalar,
    texcoord: Seq<Scalar>,
) -> Seq<VertexRecord> {
    let first = VertexRecord::textured(Vertex(x, y), texcoord[0], texcoord[1]);
    let second = VertexRecord::textured(Vertex(x_far, y), texcoord[2], texcoord[3]);
    let third = VertexRecord::textured(Vertex(x_far, y_far), texcoord[4], texcoord[5]);
    let fourth = VertexRecord::textured(Vertex(x, y_far), texcoord[6], texcoord[7]);
    seq![second, third, first, third, fourth, first]
}

/// Number of fan triangles of a polygon with the given rim: one between
/// each point of the rim and the next.
pub open spec fn polygon_sides(rim: Seq<Vertex>) -> int {
    if rim.len() == 0 {
        0
    } else {
        rim.len() - 1
    }
}

/// The fan of a polygon: triangle `i` is `rim[i + 1], rim[i], center`.
pub open spec fn polygon_shape(center: Vertex, rim: Seq<Vertex>, fill: Color) -> Seq<VertexRecord> {
    Seq::new(
        (3 * polygon_sides(rim)) as nat,
        |k: int|
            VertexRecord::solid(
                if k % 3 == 0 {
                    rim[k / 3 + 1]
                } else if k % 3 == 1 {
                    rim[k / 3]
                } else {
                    center
                },
                fill,
            ),
    )
}

/// The fan of a circle: `CIRCLE_SUBDIVISIONS` triangles around `center`,
/// triangle `i` being `rim[i + 1], rim[i], center`.
pub open spec fn circle_shape(center: Vertex, rim: Seq<Vertex>, fill: Color) -> Seq<VertexRecord> {
    Seq::new(
        3 * CIRCLE_SUBDIVISIONS as nat,
        |k: int|
            VertexRecord::solid(
                if k % 3 == 0 {
                    rim[k / 3 + 1]
                } else if k % 3 == 1 {
                    rim[k / 3]
                } else {
                    center
                },
                fill,
            ),
    )
}

/// The fan of a sampled curve: triangle `i` is `steps[i].0, steps[i].1,
/// anchor`, where a step holds the curve at one parameter value and at the
/// value one step before.
pub open spec fn parametric_shape(anchor: Vertex, steps: Seq<(Vertex, Vertex)>, fill: Color) -> Seq<
    VertexRecord,
> {
    Seq::new(
        3 * steps.len(),
        |k: int|
            VertexRecord::solid(
                if k % 3 == 0 {
                    steps[k / 3].0
                } else if k % 3 == 1 {
                    steps[k / 3].1
                } else {
                    anchor
                },
                fill,
            ),
    )
}

/// The two triangles of one glyph: top-left, top-right, bottom-right, then
/// top-left, bottom-right, bottom-left.
pub open spec fn glyph_shape(quad: TexturedQuad) -> Seq<VertexRecord> {
    let top_left = VertexRecord::textured(Vertex(quad.left, quad.top), quad.u_left, quad.v_top);
    let top_right = VertexRecord::textured(Vertex(quad.right, quad.top), quad.u_right, quad.v_top);
    let bottom_right = VertexRecord::textured(
        Vertex(quad.right, quad.bottom),
        quad.u_right,
        quad.v_bottom,
    );
    let bottom_left = VertexRecord::textured(
        Vertex(quad.left, quad.bottom),
        quad.u_left,
        quad.v_bottom,
    );
    seq![top_left, top_right, bottom_right, top_left, bottom_right, bottom_left]
}

/// One shape per glyph, in the order of the glyphs.
pub open spec fn text_shapes(quads: Seq<TexturedQuad>) -> Seq<Seq<VertexRecord>> {
    Seq::new(quads.len(), |i: int| glyph_shape(quads[i]))
}

/// The ribbon of a stroke. `plus` holds each point of the path moved along
/// its normal, `minus` the same point moved against it. Segment `i` is the
/// quad `plus[i], plus[j], minus[j], minus[i]` with `j` the point after `i`;
/// there is one segment per point if the path is closed, one less if not.
pub open spec fn stroke_shapes(
    plus: Seq<Vertex>,
    minus: Seq<Vertex>,
    fill: Color,
    close_loop: bool,
) -> Seq<Seq<VertexRecord>> {
    Seq::new(
        spec_segment_count(plus.len() as int, close_loop) as nat,
        |i: int|
            quad_shape(
                plus[i],
                plus[spec_next_index(i, plus.len() as int)],
                minus[spec_next_index(i, plus.len() as int)],
                minus[i],
                fill,
            ),
    )
}

/// The scalars of a run of records, record after record.
pub open spec fn scalars_of(records: Seq<VertexRecord>) -> Seq<Scalar>
    decreases records.len(),
{
    if records.len() == 0 {
        Seq::empty()
    } else {
        scalars_of(records.drop_last()) + records.last().scalars()
    }
}

/// The vertex buffer of a list of shapes: every record of every shape, in
/// the order the shapes were added, eight scalars each.
pub open spec fn buffer_of(shapes: Seq<Seq<VertexRecord>>) -> Seq<Scalar> {
    scalars_of(shapes.flatten())
}

/// What a canvas holds.
pub struct CanvasView {
    /// The shapes in paint order: a later shape is drawn over an earlier one.
    pub shapes: Seq<Seq<VertexRecord>>,
    /// The colour the surface is cleared to.
    pub background: Color,
    /// Height of the target surface over its width.
    pub aspect_ratio: Scalar,
}

impl CanvasView {
    /// This canvas with one more shape, painted last.
    pub open spec fn with_shape(self, shape: Seq<VertexRecord>) -> CanvasView {
        CanvasView { shapes: self.shapes.push(shape), ..self }
    }

    /// This canvas with more shapes, painted last in their order.
    pub open spec fn with_shapes(self, more: Seq<Seq<VertexRecord>>) -> CanvasView {
        CanvasView { shapes: self.shapes + more, ..self }
    }

    /// This canvas with another background.
    pub open spec fn with_background(self, color: Color) -> CanvasView {
        CanvasView { background: color, ..self }
    }

    /// Number of vertices in all shapes together.
    pub open spec fn vertex_count(self) -> nat {
        self.shapes.flatten().len()
    }
}

/// An ordered collection of shapes, each a triangle list, with a background
/// colour and the aspect ratio of the surface they are meant for.
///
/// The records of all shapes lie in one run, in paint order; `ends[i]` is
/// the place in the run just behind the last record of shape `i`.
#[derive(Debug)]
pub struct Canvas {
    records: Vec<VertexRecord>,
    ends: Vec<usize>,
    background: Color,
    aspect_ratio: Scalar,
}

/// Where shape `index` starts in the run of records.
spec fn shape_start(ends: Seq<usize>, index: int) -> int {
    if index == 0 {
        0
    } else {
        ends[index - 1] as int
    }
}

impl View for Canvas {
    type V = CanvasView;

    closed spec fn view(&self) -> CanvasView {
        CanvasView {
            shapes: Seq::new(
                self.ends@.len(),
                |i: int| self.records@.subrange(shape_start(self.ends@, i), self.ends@[i] as int),
            ),
            background: self.background,
            aspect_ratio: self.aspect_ratio,
        }
    }
}

impl Canvas {
    /// The shape boundaries are in order and end with the run of records,
    /// the run is the shapes one after another, and every shape is made of
    /// whole triangles.
    pub closed spec fn wf(&self) -> bool {
        &&& forall|i: int|
            0 <= i < self.ends@.len() ==> shape_start(self.ends@, i) <= #[trigger] self.ends@[i]
                <= self.records@.len()
        &&& shape_start(self.ends@, self.ends@.len() as int) == self.records@.len()
        &&& self.records@ == self@.shapes.flatten()
        &&& forall|i: int| 0 <= i < self@.shapes.len() ==> (#[trigger] self@.shapes[i]).len() % 3 == 0
    }

    /// Every shape of a canvas is a list of whole triangles.
    pub proof fn lemma_shapes_are_triangles(&self)
        requires
            self.wf(),
        ensures
            forall|i: int| 0 <= i < self@.shapes.len() ==> (#[trigger] self@.shapes[i]).len() % 3 == 0,
    {
    }

    /// An empty canvas with a white background.
    pub fn new(aspect_ratio: Scalar) -> (canvas: Canvas)
        ensures
            canvas.wf(),
            canvas@.shapes == Seq::<Seq<VertexRecord>>::empty(),
            canvas@.background == Color::white(),
            canvas@.aspect_ratio == aspect_ratio,
    {
        let canvas = Canvas {
            records: Vec::new(),
            ends: Vec::new(),
            background: Color::white(),
            aspect_ratio,
        };
        assert(canvas@.shapes =~= Seq::<Seq<VertexRecord>>::empty());
        canvas
    }

    /// Number of vertices in all shapes together.
    pub fn len(&self) -> (count: usize)
        requires
            self.wf(),
        ensures
            count == self@.vertex_count(),
    {
        self.records.len()
    }

    /// Number of shapes.
    pub fn shape_count(&self) -> (count: usize)
        ensures
            count == self@.shapes.len(),
    {
        self.ends.len()
    }

    /// Sets the colour the surface is cleared to.
    pub fn set_background(&mut self, color: Color)
        requires
            old(self).wf(),
        ensures
            final(self).wf(),
            final(self)@ == old(self)@.with_background(color),
    {
        self.background = color;
        assert(self@.shapes =~= old(self)@.shapes);
    }

    /// The colour the surface is cleared to.
    pub fn background(self) -> (color: Color)
        ensures
            color == self@.background,
    {
        self.background
    }

    /// Height of the target surface over its width, as given at creation.
    pub fn aspect_ratio(&self) -> (ratio: Scalar)
        ensures
            ratio == self@.aspect_ratio,
    {
        self.aspect_ratio
    }

    fn push_shape(&mut self, shape: Vec<VertexRecord>)
        requires
            old(self).wf(),
            shape@.len() % 3 == 0,
        ensures
            final(self).wf(),
            final(self)@ == old(self)@.with_shape(shape@),
    {
        let mut shape = shape;
        let ghost added = shape@;
        self.records.append(&mut shape);
        let end = self.records.len();
        self.ends.push(end);
        proof {
            let before = old(self)@.shapes;
            let after = self@.shapes;
            let count = old(self).ends@.len() as int;
            assert(after.len() == count + 1);
            assert forall|i: int| 0 <= i < count + 1 implies after[i] == before.push(added)[i] by {
                if i < count {
                    assert(shape_start(self.ends@, i) == shape_start(old(self).ends@, i));
                    assert(self.ends@[i] == old(self).ends@[i]);
                    assert(after[i] =~= before[i]);
                } else {
                    assert(shape_start(self.ends@, i) == old(self).records@.len());
                    assert(after[i] =~= added);
                }
            }
            assert(after =~= before.push(added));
            before.lemma_flatten_push(added);
            assert(self.records@ =~= after.flatten());
            assert(self@ == old(self)@.with_shape(added));
        }
    }

    /// Adds a shape made by the caller, as the last to be painted. The
    /// records must make whole triangles.
    pub fn add_shape(&mut self, vertex: Vec<VertexRecord>) -> (outcome: Result<(), ShapeError>)
        requires
            old(self).wf(),
        ensures
            final(self).wf(),
            vertex@.len() % 3 == 0 ==> outcome == Ok::<(), ShapeError>(())
                && final(self)@ == old(self)@.with_shape(vertex@),
            vertex@.len() % 3 != 0 ==> outcome == Err::<(), ShapeError>(ShapeError::PartialTriangle)
                && final(self)@ == old(self)@,
    {
        if vertex.len() % 3 != 0 {
            return Err(ShapeError::PartialTriangle);
        }
        self.push_shape(vertex);
        Ok(())
    }

    /// Adds the rectangle with one corner at `(x, y)` and the opposite
    /// corner at `(x_far, y_far)`, as two triangles of one colour.
    pub fn add_rect(&mut self, x: Scalar, y: Scalar, x_far: Scalar, y_far: Scalar, fill: Color)
        requires
            old(self).wf(),
        ensures
            final(self).wf(),
            final(self)@ == old(self)@.with_shape(rect_shape(x, y, x_far, y_far, fill)),
    {
        self.add_quad(Vertex(x, y), Vertex(x_far, y), Vertex(x_far, y_far), Vertex(x, y_far), fill);
    }

    /// Adds the quad with the corners `first, second, third, fourth`, given
    /// clockwise from the top left, as the triangles `second, third, first`
    /// and `third, fourth, first`.
    pub fn add_quad(&mut self, first: Vertex, second: Vertex, third: Vertex, fourth: Vertex, fill: Color)
        requires
            old(self).wf(),
        ensures
            final(self).wf(),
            final(self)@ == old(self)@.with_shape(quad_shape(first, second, third, fourth, fill)),
    {
        let mut quad: Vec<VertexRecord> = Vec::new();
        quad.push(VertexRecord::solid(second, fill));
        quad.push(VertexRecord::solid(third, fill));
        quad.push(VertexRecord::solid(first, fill));
        quad.push(VertexRecord::solid(third, fill));
        quad.push(VertexRecord::solid(fourth, fill));
        quad.push(VertexRecord::solid(first, fill));
        assert(quad@ =~= quad_shape(first, second, third, fourth, fill));
        self.push_shape(quad);
    }

    /// Adds the triangle `first, second, third`, its points in the order given.
    pub fn add_triangle(&mut self, first: Vertex, second: Vertex, third: Vertex, fill: Color)
        requires
            old(self).wf(),
        ensures
            final(self).wf(),
            final(self)@ == old(self)@.with_shape(triangle_shape(first, second, third, fill)),
    {
        let mut triangle: Vec<VertexRecord> = Vec::new();
        triangle.push(VertexRecord::solid(first, fill));
        triangle.push(VertexRecord::solid(second, fill));
        triangle.push(VertexRecord::solid(third, fill));
        assert(triangle@ =~= triangle_shape(first, second, third, fill));
        self.push_shape(triangle);
    }

    /// Adds a polygon as a fan around `center`. `rim` holds the points on
    /// the outline, the point before the first corner first; triangle `i` is
    /// `rim[i + 1], rim[i], center`, so a rim of `k + 1` points gives `k`
    /// triangles.
    pub fn add_polygon(&mut self, center: Vertex, rim: Vec<Vertex>, fill: Color)
        requires
            old(self).wf(),
        ensures
            final(self).wf(),
            final(self)@ == old(self)@.with_shape(polygon_shape(center, rim@, fill)),
            polygon_shape(center, rim@, fill).len() == 3 * polygon_sides(rim@),
    {
        let mut polygon: Vec<VertexRecord> = Vec::new();
        let sides = if rim.len() == 0 {
            0
        } else {
            rim.len() - 1
        };
        let mut i: usize = 0;
        while i < sides
            invariant
                sides == polygon_sides(rim@),
                i <= sides,
                polygon@.len() == 3 * i,
                forall|k: int| 0 <= k < 3 * i ==> polygon@[k] == polygon_shape(center, rim@, fill)[k],
            decreases sides - i,
        {
            polygon.push(VertexRecord::solid(rim[i + 1], fill));
            polygon.push(VertexRecord::solid(rim[i], fill));
            polygon.push(VertexRecord::solid(center, fill));
            i += 1;
        }
        assert(polygon@ =~= polygon_shape(center, rim@, fill));
        self.push_shape(polygon);
    }

    /// Adds a circle: a polygon of `CIRCLE_SUBDIVISIONS` fan triangles. The
    /// rim must hold `CIRCLE_SUBDIVISIONS + 1` points.
    pub fn add_circle(&mut self, center: Vertex, rim: Vec<Vertex>, fill: Color) -> (outcome: Result<
        (),
        ShapeError,
    >)
        requires
            old(self).wf(),
        ensures
            final(self).wf(),
            rim@.len() == CIRCLE_SUBDIVISIONS + 1 ==> outcome == Ok::<(), ShapeError>(())
                && final(self)@ == old(self)@.with_shape(circle_shape(center, rim@, fill)),
            rim@.len() != CIRCLE_SUBDIVISIONS + 1 ==> outcome == Err::<(), ShapeError>(
                ShapeError::RimSize,
            ) && final(self)@ == old(self)@,
    {
        if rim.len() != CIRCLE_SUBDIVISIONS + 1 {
            return Err(ShapeError::RimSize);
        }
        proof {
            lemma_circle_is_polygon(center, rim@, fill);
        }
        self.add_polygon(center, rim, fill);
        Ok(())
    }

    /// Adds a sampled curve as a fan around `anchor`: one triangle
    /// `steps[i].0, steps[i].1, anchor` per step.
    pub fn add_parametric(&mut self, anchor: Vertex, steps: Vec<(Vertex, Vertex)>, fill: Color)
        requires
            old(self).wf(),
        ensures
            final(self).wf(),
            final(self)@ == old(self)@.with_shape(parametric_shape(anchor, steps@, fill)),
    {
        let mut curve: Vec<VertexRecord> = Vec::new();
        let mut i: usize = 0;
        while i < steps.len()
            invariant
                i <= steps.len(),
                curve@.len() == 3 * i,
                forall|k: int| 0 <= k < 3 * i ==> curve@[k] == parametric_shape(anchor, steps@, fill)[k],
            decreases steps.len() - i,
        {
            let step = steps[i];
            curve.push(VertexRecord::solid(step.0, fill));
            curve.push(VertexRecord::solid(step.1, fill));
            curve.push(VertexRecord::solid(anchor, fill));
            i += 1;
        }
        assert(curve@ =~= parametric_shape(anchor, steps@, fill));
        self.push_shape(curve);
    }

    /// Adds the ribbon of a stroke, one quad shape per segment. `plus` holds
    /// each point of the path moved along its normal, `minus` the same
    /// point moved against it. A closed stroke joins the last point to the
    /// first; an open one stops at the last point.
    pub fn add_line(&mut self, plus: Vec<Vertex>, minus: Vec<Vertex>, fill: Color, close_loop: bool) -> (outcome:
        Result<(), ShapeError>)
        requires
            old(self).wf(),
        ensures
            final(self).wf(),
            plus@.len() < 2 ==> outcome == Err::<(), ShapeError>(ShapeError::ShortPath) && final(self)@
                == old(self)@,
            plus@.len() >= 2 && minus@.len() != plus@.len() ==> outcome == Err::<(), ShapeError>(
                ShapeError::UnevenRails,
            ) && final(self)@ == old(self)@,
            plus@.len() >= 2 && minus@.len() == plus@.len() ==> outcome == Ok::<(), ShapeError>(())
                && final(self)@ == old(self)@.with_shapes(
                stroke_shapes(plus@, minus@, fill, close_loop),
            ),
    {
        let n = plus.len();
        if n < 2 {
            return Err(ShapeError::ShortPath);
        }
        if minus.len() != n {
            return Err(ShapeError::UnevenRails);
        }
        let segments = segment_count(n, close_loop);
        let ghost ribbon = stroke_shapes(plus@, minus@, fill, close_loop);
        let mut i: usize = 0;
        assert(self@.shapes =~= old(self)@.shapes + ribbon.take(0));
        while i < segments
            invariant
                self.wf(),
                n == plus@.len(),
                n == minus@.len(),
                n >= 2,
                segments == spec_segment_count(n as int, close_loop),
                i <= segments,
                ribbon == stroke_shapes(plus@, minus@, fill, close_loop),
                self@ == old(self)@.with_shapes(ribbon.take(i as int)),
            decreases segments - i,
        {
            let j = next_index(i, n);
            self.add_quad(plus[i], plus[j], minus[j], minus[i], fill);
            proof {
                assert(ribbon.take(i + 1) =~= ribbon.take(i as int).push(ribbon[i as int]));
                assert(self@.shapes =~= old(self)@.shapes + ribbon.take(i + 1));
            }
            i += 1;
        }
        assert(ribbon.take(segments as int) =~= ribbon);
        Ok(())
    }

    /// Adds an image: the rectangle between `(x, y)` and `(x_far, y_far)`,
    /// textured. `texcoord` holds a `(u, v)` pair for the top-left,
    /// top-right, bottom-right and bottom-left corner, in this order.
    pub fn add_image(&mut self, x: Scalar, y: Scalar, x_far: Scalar, y_far: Scalar, texcoord: [Scalar; 8])
        requires
            old(self).wf(),
        ensures
            final(self).wf(),
            final(self)@ == old(self)@.with_shape(image_shape(x, y, x_far, y_far, texcoord@)),
    {
        let first = VertexRecord::textured(Vertex(x, y), texcoord[0], texcoord[1]);
        let second = VertexRecord::textured(Vertex(x_far, y), texcoord[2], texcoord[3]);
        let third = VertexRecord::textured(Vertex(x_far, y_far), texcoord[4], texcoord[5]);
        let fourth = VertexRecord::textured(Vertex(x, y_far), texcoord[6], texcoord[7]);
        let mut image: Vec<VertexRecord> = Vec::new();
        image.push(second);
        image.push(third);
        image.push(first);
        image.push(third);
        image.push(fourth);
        image.push(first);
        assert(image@ =~= image_shape(x, y, x_far, y_far, texcoord@));
        self.push_shape(image);
    }

    /// Adds a run of text, one textured quad shape per glyph, in the order
    /// of the glyphs.
    pub fn add_text(&mut self, quads: Vec<TexturedQuad>)
        requires
            old(self).wf(),
        ensures
            final(self).wf(),
            final(self)@ == old(self)@.with_shapes(text_shapes(quads@)),
            text_shapes(quads@).len() == quads@.len(),
    {
        let ghost glyphs = text_shapes(quads@);
        let mut i: usize = 0;
        assert(self@.shapes =~= old(self)@.shapes + glyphs.take(0));
        while i < quads.len()
            invariant
                self.wf(),
                i <= quads.len(),
                glyphs == text_shapes(quads@),
                self@ == old(self)@.with_shapes(glyphs.take(i as int)),
            decreases quads.len() - i,
        {
            let quad = quads[i];
            let top_left = VertexRecord::textured(Vertex(quad.left, quad.top), quad.u_left, quad.v_top);
            let top_right = VertexRecord::textured(
                Vertex(quad.right, quad.top),
                quad.u_right,
                quad.v_top,
            );
            let bottom_right = VertexRecord::textured(
                Vertex(quad.right, quad.bottom),
                quad.u_right,
                quad.v_bottom,
            );
            let bottom_left = VertexRecord::textured(
                Vertex(quad.left, quad.bottom),
                quad.u_left,
                quad.v_bottom,
            );
            let mut glyph: Vec<VertexRecord> = Vec::new();
            glyph.push(top_left);
            glyph.push(top_right);
            glyph.push(bottom_right);
            glyph.push(top_left);
            glyph.push(bottom_right);
            glyph.push(bottom_left);
            assert(glyph@ =~= glyph_shape(quad));
            self.push_shape(glyph);
            proof {
                assert(glyphs.take(i + 1) =~= glyphs.take(i as int).push(glyphs[i as int]));
                assert(self@.shapes =~= old(self)@.shapes + glyphs.take(i + 1));
            }
            i += 1;
        }
        assert(glyphs.take(quads.len() as int) =~= glyphs);
    }

    /// The vertex buffer: every record of every shape, in the order the
    /// shapes were added, eight scalars each.
    pub fn to_vertices(&self) -> (buffer: Vec<Scalar>)
        requires
            self.wf(),
        ensures
            buffer@ == buffer_of(self@.shapes),
            buffer@.len() == 8 * self@.vertex_count(),
    {
        let mut buffer: Vec<Scalar> = Vec::new();
        let mut i: usize = 0;
        assert(self.records@.take(0) =~= Seq::<VertexRecord>::empty());
        while i < self.records.len()
            invariant
                i <= self.records.len(),
                buffer@ == scalars_of(self.records@.take(i as int)),
            decreases self.records.len() - i,
        {
            let record = self.records[i];
            buffer.push(record.x);
            buffer.push(record.y);
            buffer.push(record.r);
            buffer.push(record.g);
            buffer.push(record.b);
            buffer.push(record.a);
            buffer.push(record.u);
            buffer.push(record.v);
            proof {
                let next = self.records@.take(i + 1);
                assert(next.drop_last() =~= self.records@.take(i as int));
                assert(next.last() == record);
                assert(buffer@ =~= scalars_of(self.records@.take(i as int)) + record.scalars());
            }
            i += 1;
        }
        proof {
            assert(self.records@.take(self.records.len() as int) =~= self.records@);
            lemma_scalars_len(self.records@);
        }
        buffer
    }
}

/// Every record of the shape has the given colour.
pub open spec fn has_color(shape: Seq<VertexRecord>, color: Color) -> bool {
    forall|k: int| 0 <= k < shape.len() ==> (#[trigger] shape[k]).color() == color
}

/// The vertices of a solid shape share its colour and carry the
/// placeholder texture coordinate, and the shape is made of whole
/// triangles.
pub proof fn lemma_solid_shapes(
    first: Vertex,
    second: Vertex,
    third: Vertex,
    fourth: Vertex,
    rim: Seq<Vertex>,
    steps: Seq<(Vertex, Vertex)>,
    fill: Color,
)
    ensures
        has_color(triangle_shape(first, second, third, fill), fill),
        has_color(quad_shape(first, second, third, fourth, fill), fill),
        has_color(polygon_shape(first, rim, fill), fill),
        has_color(circle_shape(first, rim, fill), fill),
        has_color(parametric_shape(first, steps, fill), fill),
        triangle_shape(first, second, third, fill).len() == 3,
        quad_shape(first, second, third, fourth, fill).len() == 6,
        polygon_shape(first, rim, fill).len() == 3 * polygon_sides(rim),
        circle_shape(first, rim, fill).len() == 3 * CIRCLE_SUBDIVISIONS,
        parametric_shape(first, steps, fill).len() == 3 * steps.len(),
{
}

/// The vertices of a textured shape carry the colour that marks textured
/// shapes, whatever the texture coordinates.
pub proof fn lemma_textured_shapes(
    x: Scalar,
    y: Scalar,
    x_far: Scalar,
    y_far: Scalar,
    texcoord: Seq<Scalar>,
    quad: TexturedQuad,
)
    ensures
        has_color(image_shape(x, y, x_far, y_far, texcoord), Color::texture_marker()),
        has_color(glyph_shape(quad), Color::texture_marker()),
        image_shape(x, y, x_far, y_far, texcoord).len() == 6,
        glyph_shape(quad).len() == 6,
{
}

/// A shape more adds its vertices to the count, and its scalars to the end
/// of the buffer.
pub proof fn lemma_with_shape(canvas: CanvasView, shape: Seq<VertexRecord>)
    ensures
        canvas.with_shape(shape).vertex_count() == canvas.vertex_count() + shape.len(),
        buffer_of(canvas.with_shape(shape).shapes) == buffer_of(canvas.shapes) + scalars_of(shape),
{
    canvas.shapes.lemma_flatten_push(shape);
    lemma_scalars_concat(canvas.shapes.flatten(), shape);
}

/// A rectangle is six vertices of one colour. Each stands on a corner of
/// the rectangle, and each corner is taken: the smallest box around the six
/// positions is the rectangle itself.
pub proof fn lemma_rect_corners(x: Scalar, y: Scalar, x_far: Scalar, y_far: Scalar, fill: Color)
    ensures
        rect_shape(x, y, x_far, y_far, fill).len() == 6,
        forall|k: int|
            0 <= k < 6 ==> {
                let record = #[trigger] rect_shape(x, y, x_far, y_far, fill)[k];
                &&& record.color() == fill
                &&& record.x == x || record.x == x_far
                &&& record.y == y || record.y == y_far
                &&& record.u == Scalar::one()
                &&& record.v == Scalar::one()
            },
        rect_shape(x, y, x_far, y_far, fill)[2].position() == Vertex(x, y),
        rect_shape(x, y, x_far, y_far, fill)[0].position() == Vertex(x_far, y),
        rect_shape(x, y, x_far, y_far, fill)[1].position() == Vertex(x_far, y_far),
        rect_shape(x, y, x_far, y_far, fill)[4].position() == Vertex(x, y_far),
{
}

/// A polygon of `k` sides is `3k` vertices of one colour: side `i` is the
/// triangle of rim point `i + 1`, rim point `i` and the center.
pub proof fn lemma_polygon_fan(center: Vertex, rim: Seq<Vertex>, fill: Color)
    ensures
        polygon_shape(center, rim, fill).len() == 3 * polygon_sides(rim),
        forall|k: int|
            0 <= k < 3 * polygon_sides(rim) ==> (#[trigger] polygon_shape(center, rim, fill)[k]).color()
                == fill,
        forall|i: int|
            0 <= i < polygon_sides(rim) ==> {
                &&& #[trigger] polygon_shape(center, rim, fill)[3 * i] == VertexRecord::solid(
                    rim[i + 1],
                    fill,
                )
                &&& polygon_shape(center, rim, fill)[3 * i + 1] == VertexRecord::solid(rim[i], fill)
                &&& polygon_shape(center, rim, fill)[3 * i + 2] == VertexRecord::solid(center, fill)
            },
{
}

/// A circle is the polygon of `CIRCLE_SUBDIVISIONS` sides: on the same
/// center, rim and colour the two are the same vertices in the same order.
pub proof fn lemma_circle_is_polygon(center: Vertex, rim: Seq<Vertex>, fill: Color)
    requires
        rim.len() == CIRCLE_SUBDIVISIONS + 1,
    ensures
        circle_shape(center, rim, fill) == polygon_shape(center, rim, fill),
        circle_shape(center, rim, fill).len() == 3 * CIRCLE_SUBDIVISIONS,
{
    assert(circle_shape(center, rim, fill) =~= polygon_shape(center, rim, fill));
}

/// A closed stroke over `n` points is `n` quads, an open one `n - 1`; each
/// quad is a shape of six vertices in the stroke's colour.
pub proof fn lemma_stroke_segments(plus: Seq<Vertex>, minus: Seq<Vertex>, fill: Color, close_loop: bool)
    requires
        plus.len() >= 1,
    ensures
        close_loop ==> stroke_shapes(plus, minus, fill, close_loop).len() == plus.len(),
        !close_loop ==> stroke_shapes(plus, minus, fill, close_loop).len() == plus.len() - 1,
        forall|i: int|
            0 <= i < stroke_shapes(plus, minus, fill, close_loop).len() ==> {
                let quad = #[trigger] stroke_shapes(plus, minus, fill, close_loop)[i];
                &&& quad.len() == 6
                &&& forall|k: int| 0 <= k < 6 ==> (#[trigger] quad[k]).color() == fill
            },
{
}

/// A run of records holds eight scalars for each record.
pub proof fn lemma_scalars_len(records: Seq<VertexRecord>)
    ensures
        scalars_of(records).len() == 8 * records.len(),
    decreases records.len(),
{
    if records.len() > 0 {
        lemma_scalars_len(records.drop_last());
    }
}

/// The scalars of two runs of records, one after the other, are the scalars
/// of the first followed by the scalars of the second.
pub proof fn lemma_scalars_concat(first: Seq<VertexRecord>, second: Seq<VertexRecord>)
    ensures
        scalars_of(first + second) == scalars_of(first) + scalars_of(second),
    decreases second.len(),
{
    if second.len() == 0 {
        assert(first + second =~= first);
        assert(scalars_of(first) + scalars_of(second) =~= scalars_of(first));
    } else {
        lemma_scalars_concat(first, second.drop_last());
        assert((first + second).drop_last() =~= first + second.drop_last());
        assert((first + second).last() == second.last());
        assert(scalars_of(first + second) =~= scalars_of(first) + scalars_of(second));
    }
}

/// Flattening keeps the order of the shapes and nothing else: the buffer
/// of two lists of shapes, one after the other, is the buffer of the first
/// followed by the buffer of the second.
pub proof fn lemma_buffer_concat(first: Seq<Seq<VertexRecord>>, second: Seq<Seq<VertexRecord>>)
    ensures
        buffer_of(first + second) == buffer_of(first) + buffer_of(second),
{
    lemma_flatten_concat(first, second);
    lemma_scalars_concat(first.flatten(), second.flatten());
}

/// The buffer of two shapes is the buffer of the first alone followed by
/// the buffer of the second alone.
pub proof fn lemma_buffer_of_two(a: Seq<VertexRecord>, b: Seq<VertexRecord>)
    ensures
        buffer_of(seq![a, b]) == buffer_of(seq![a]) + buffer_of(seq![b]),
        buffer_of(seq![a]) == scalars_of(a),
        buffer_of(seq![b]) == scalars_of(b),
{
    assert(seq![a, b] =~= seq![a] + seq![b]);
    lemma_buffer_concat(seq![a], seq![b]);
    seq![a].lemma_flatten_singleton();
    seq![b].lemma_flatten_singleton();
}

} // verus!
