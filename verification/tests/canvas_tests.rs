use elara_gfx::canvas::{Canvas, ShapeError, TexturedQuad, CIRCLE_SUBDIVISIONS};
use elara_gfx::scalar::Scalar;
use elara_gfx::vertex::{Color, TexCoord, Vertex, VertexRecord};

fn s(value: f32) -> Scalar {
    Scalar::from_bits(value.to_bits())
}

fn p(x: f32, y: f32) -> Vertex {
    Vertex(s(x), s(y))
}

fn red() -> Color {
    Color(s(1.0), s(0.0), s(0.0), s(1.0))
}

fn blue() -> Color {
    Color(s(0.0), s(0.0), s(1.0), s(0.5))
}

fn floats(canvas: &Canvas) -> Vec<f32> {
    canvas.to_vertices().iter().map(|x| f32::from_bits(x.to_bits())).collect()
}

fn positions(buffer: &[f32]) -> Vec<(f32, f32)> {
    buffer.chunks(8).map(|c| (c[0], c[1])).collect()
}

fn rim_of(x: f32, y: f32, r: f32, sides: i32) -> Vec<Vertex> {
    let theta = 2.0 * std::f32::consts::PI / sides as f32;
    (-1..sides).map(|i| p(x + r * (i as f32 * theta).cos(), y + r * (i as f32 * theta).sin())).collect()
}

#[test]
fn rect_flattens_to_forty_eight_scalars() {
    let mut canvas = Canvas::new(s(0.75));
    canvas.add_rect(s(0.0), s(0.0), s(1.0), s(1.0), red());
    let buffer = floats(&canvas);
    assert_eq!(buffer.len(), 48);
    assert_eq!(canvas.len(), 6);
    assert_eq!(canvas.shape_count(), 1);
    assert_eq!(
        positions(&buffer),
        vec![(1.0, 0.0), (1.0, 1.0), (0.0, 0.0), (1.0, 1.0), (0.0, 1.0), (0.0, 0.0)]
    );
    for record in buffer.chunks(8) {
        assert_eq!(&record[2..6], &[1.0, 0.0, 0.0, 1.0]);
        assert_eq!(&record[6..8], &[1.0, 1.0]);
    }
}

#[test]
fn rect_covers_its_bounding_box() {
    let mut canvas = Canvas::new(s(1.0));
    canvas.add_rect(s(-0.5), s(0.25), s(0.75), s(0.5), blue());
    let buffer = floats(&canvas);
    let points = positions(&buffer);
    assert_eq!(points.len(), 6);
    let min_x = points.iter().map(|q| q.0).fold(f32::INFINITY, f32::min);
    let max_x = points.iter().map(|q| q.0).fold(f32::NEG_INFINITY, f32::max);
    let min_y = points.iter().map(|q| q.1).fold(f32::INFINITY, f32::min);
    let max_y = points.iter().map(|q| q.1).fold(f32::NEG_INFINITY, f32::max);
    assert_eq!((min_x, max_x, min_y, max_y), (-0.5, 0.75, 0.25, 0.5));
    for record in buffer.chunks(8) {
        assert_eq!(&record[2..6], &[0.0, 0.0, 1.0, 0.5]);
    }
}

#[test]
fn new_canvas_is_empty_and_white() {
    let canvas = Canvas::new(s(0.75));
    assert_eq!(canvas.len(), 0);
    assert_eq!(canvas.shape_count(), 0);
    assert!(canvas.to_vertices().is_empty());
    assert_eq!(canvas.aspect_ratio(), s(0.75));
    assert_eq!(canvas.background(), Color(s(1.0), s(1.0), s(1.0), s(1.0)));
}

#[test]
fn set_background_keeps_the_shapes() {
    let mut canvas = Canvas::new(s(1.0));
    canvas.add_triangle(p(0.0, 1.0), p(1.0, -1.0), p(-1.0, -1.0), red());
    canvas.set_background(blue());
    assert_eq!(canvas.len(), 3);
    assert_eq!(canvas.shape_count(), 1);
    assert_eq!(canvas.background(), blue());
}

#[test]
fn quad_is_cut_along_the_first_diagonal() {
    let mut canvas = Canvas::new(s(1.0));
    canvas.add_quad(p(1.0, 10.0), p(2.0, 20.0), p(3.0, 30.0), p(4.0, 40.0), red());
    assert_eq!(
        positions(&floats(&canvas)),
        vec![(2.0, 20.0), (3.0, 30.0), (1.0, 10.0), (3.0, 30.0), (4.0, 40.0), (1.0, 10.0)]
    );
}

#[test]
fn triangle_keeps_its_points_in_order() {
    let mut canvas = Canvas::new(s(1.0));
    canvas.add_triangle(p(0.0, 1.0), p(1.0, -1.0), p(-1.0, -1.0), blue());
    let buffer = floats(&canvas);
    assert_eq!(buffer.len(), 24);
    assert_eq!(positions(&buffer), vec![(0.0, 1.0), (1.0, -1.0), (-1.0, -1.0)]);
    assert_eq!(&buffer[2..8], &[0.0, 0.0, 1.0, 0.5, 1.0, 1.0]);
}

#[test]
fn polygon_is_a_fan_of_its_rim() {
    let mut canvas = Canvas::new(s(1.0));
    let rim = vec![p(1.0, 0.0), p(2.0, 0.0), p(3.0, 0.0), p(4.0, 0.0)];
    canvas.add_polygon(p(9.0, 9.0), rim, red());
    assert_eq!(canvas.len(), 9);
    assert_eq!(canvas.shape_count(), 1);
    assert_eq!(
        positions(&floats(&canvas)),
        vec![
            (2.0, 0.0),
            (1.0, 0.0),
            (9.0, 9.0),
            (3.0, 0.0),
            (2.0, 0.0),
            (9.0, 9.0),
            (4.0, 0.0),
            (3.0, 0.0),
            (9.0, 9.0)
        ]
    );
}

#[test]
fn polygon_of_k_sides_has_three_k_vertices_on_the_circle() {
    for sides in [3, 5, 8, 17] {
        let mut canvas = Canvas::new(s(1.0));
        canvas.add_polygon(p(0.25, -0.5), rim_of(0.25, -0.5, 0.6, sides), red());
        assert_eq!(canvas.len(), 3 * sides as usize);
        let points = positions(&floats(&canvas));
        for triangle in points.chunks(3) {
            for corner in &triangle[0..2] {
                let distance = ((corner.0 - 0.25).powi(2) + (corner.1 + 0.5).powi(2)).sqrt();
                assert!((distance - 0.6).abs() < 1e-5);
            }
            assert_eq!(triangle[2], (0.25, -0.5));
        }
    }
}

#[test]
fn polygon_without_sides_is_an_empty_shape() {
    let mut canvas = Canvas::new(s(1.0));
    canvas.add_polygon(p(0.0, 0.0), Vec::new(), red());
    canvas.add_polygon(p(0.0, 0.0), vec![p(1.0, 0.0)], red());
    assert_eq!(canvas.shape_count(), 2);
    assert_eq!(canvas.len(), 0);
}

#[test]
fn circle_is_the_polygon_of_128_sides() {
    let mut circle = Canvas::new(s(1.0));
    let mut polygon = Canvas::new(s(1.0));
    assert_eq!(CIRCLE_SUBDIVISIONS, 128);
    assert_eq!(circle.add_circle(p(0.1, 0.2), rim_of(0.1, 0.2, 0.5, 128), blue()), Ok(()));
    polygon.add_polygon(p(0.1, 0.2), rim_of(0.1, 0.2, 0.5, 128), blue());
    assert_eq!(circle.len(), 384);
    assert_eq!(circle.to_vertices(), polygon.to_vertices());
}

#[test]
fn circle_refuses_another_rim() {
    let mut canvas = Canvas::new(s(1.0));
    canvas.add_rect(s(0.0), s(0.0), s(1.0), s(1.0), red());
    let before = canvas.to_vertices();
    assert_eq!(canvas.add_circle(p(0.0, 0.0), rim_of(0.0, 0.0, 0.5, 127), red()), Err(ShapeError::RimSize));
    assert_eq!(canvas.add_circle(p(0.0, 0.0), Vec::new(), red()), Err(ShapeError::RimSize));
    assert_eq!(canvas.shape_count(), 1);
    assert_eq!(canvas.to_vertices(), before);
}

#[test]
fn parametric_is_a_fan_of_its_steps() {
    let mut canvas = Canvas::new(s(1.0));
    let steps = vec![(p(1.0, 1.0), p(0.5, 0.5)), (p(2.0, 2.0), p(1.5, 1.5))];
    canvas.add_parametric(p(7.0, 8.0), steps, blue());
    assert_eq!(
        positions(&floats(&canvas)),
        vec![(1.0, 1.0), (0.5, 0.5), (7.0, 8.0), (2.0, 2.0), (1.5, 1.5), (7.0, 8.0)]
    );
    canvas.add_parametric(p(0.0, 0.0), Vec::new(), blue());
    assert_eq!(canvas.shape_count(), 2);
    assert_eq!(canvas.len(), 6);
}

#[test]
fn open_stroke_has_one_quad_less_than_points() {
    let plus = vec![p(0.0, 1.0), p(1.0, 1.0), p(2.0, 1.0), p(3.0, 1.0)];
    let minus = vec![p(0.0, -1.0), p(1.0, -1.0), p(2.0, -1.0), p(3.0, -1.0)];
    let mut canvas = Canvas::new(s(1.0));
    assert_eq!(canvas.add_line(plus, minus, red(), false), Ok(()));
    assert_eq!(canvas.shape_count(), 3);
    assert_eq!(canvas.len(), 18);
    let points = positions(&floats(&canvas));
    assert_eq!(
        &points[0..6],
        &[(1.0, 1.0), (1.0, -1.0), (0.0, 1.0), (1.0, -1.0), (0.0, -1.0), (0.0, 1.0)]
    );
    assert_eq!(
        &points[12..18],
        &[(3.0, 1.0), (3.0, -1.0), (2.0, 1.0), (3.0, -1.0), (2.0, -1.0), (2.0, 1.0)]
    );
}

#[test]
fn closed_stroke_has_one_quad_per_point() {
    let plus = vec![p(0.0, 1.0), p(1.0, 1.0), p(2.0, 1.0)];
    let minus = vec![p(0.0, -1.0), p(1.0, -1.0), p(2.0, -1.0)];
    let mut canvas = Canvas::new(s(1.0));
    assert_eq!(canvas.add_line(plus, minus, red(), true), Ok(()));
    assert_eq!(canvas.shape_count(), 3);
    let points = positions(&floats(&canvas));
    assert_eq!(
        &points[12..18],
        &[(0.0, 1.0), (0.0, -1.0), (2.0, 1.0), (0.0, -1.0), (2.0, -1.0), (2.0, 1.0)]
    );
}

#[test]
fn two_point_stroke_is_one_quad_open_and_two_closed() {
    let mut open = Canvas::new(s(1.0));
    let mut closed = Canvas::new(s(1.0));
    assert_eq!(
        open.add_line(vec![p(0.0, 1.0), p(5.0, 1.0)], vec![p(0.0, 0.0), p(5.0, 0.0)], red(), false),
        Ok(())
    );
    assert_eq!(
        closed.add_line(vec![p(0.0, 1.0), p(5.0, 1.0)], vec![p(0.0, 0.0), p(5.0, 0.0)], red(), true),
        Ok(())
    );
    assert_eq!(open.shape_count(), 1);
    assert_eq!(closed.shape_count(), 2);
}

#[test]
fn stroke_refuses_short_paths_and_uneven_rails() {
    let mut canvas = Canvas::new(s(1.0));
    assert_eq!(canvas.add_line(Vec::new(), Vec::new(), red(), true), Err(ShapeError::ShortPath));
    assert_eq!(
        canvas.add_line(vec![p(0.0, 0.0)], vec![p(0.0, 0.0)], red(), false),
        Err(ShapeError::ShortPath)
    );
    assert_eq!(
        canvas.add_line(vec![p(0.0, 0.0), p(1.0, 0.0)], vec![p(0.0, 0.0)], red(), false),
        Err(ShapeError::UnevenRails)
    );
    assert_eq!(canvas.shape_count(), 0);
    assert_eq!(canvas.len(), 0);
}

#[test]
fn add_shape_takes_whole_triangles_only() {
    let mut canvas = Canvas::new(s(1.0));
    let record = VertexRecord::solid(p(0.5, 0.5), red());
    assert_eq!(canvas.add_shape(vec![record, record]), Err(ShapeError::PartialTriangle));
    assert_eq!(canvas.shape_count(), 0);
    assert_eq!(canvas.add_shape(vec![record, record, record]), Ok(()));
    assert_eq!(canvas.add_shape(Vec::new()), Ok(()));
    assert_eq!(canvas.shape_count(), 2);
    assert_eq!(canvas.len(), 3);
    assert_eq!(floats(&canvas)[0..8], [0.5, 0.5, 1.0, 0.0, 0.0, 1.0, 1.0, 1.0]);
}

#[test]
fn image_carries_its_texture_coordinates() {
    let mut canvas = Canvas::new(s(1.0));
    canvas.add_image(s(-1.0), s(1.0), s(1.0), s(-1.0), TexCoord::default());
    let buffer = floats(&canvas);
    let expected: Vec<[f32; 8]> = vec![
        [1.0, 1.0, 1.0, 1.0, 1.0, 0.0, 1.0, 1.0],
        [1.0, -1.0, 1.0, 1.0, 1.0, 0.0, 1.0, 0.0],
        [-1.0, 1.0, 1.0, 1.0, 1.0, 0.0, 0.0, 1.0],
        [1.0, -1.0, 1.0, 1.0, 1.0, 0.0, 1.0, 0.0],
        [-1.0, -1.0, 1.0, 1.0, 1.0, 0.0, 0.0, 0.0],
        [-1.0, 1.0, 1.0, 1.0, 1.0, 0.0, 0.0, 1.0],
    ];
    assert_eq!(buffer.len(), 48);
    for (record, wanted) in buffer.chunks(8).zip(expected.iter()) {
        assert_eq!(record, wanted);
    }
}

#[test]
fn default_texture_coordinates_are_the_unit_square() {
    let texcoord: Vec<f32> = TexCoord::default().iter().map(|x| f32::from_bits(x.to_bits())).collect();
    assert_eq!(texcoord, vec![0.0, 1.0, 1.0, 1.0, 1.0, 0.0, 0.0, 0.0]);
}

#[test]
fn text_is_one_shape_per_glyph() {
    let mut canvas = Canvas::new(s(1.0));
    let first = TexturedQuad {
        left: s(0.0),
        top: s(1.0),
        right: s(2.0),
        bottom: s(3.0),
        u_left: s(0.25),
        v_top: s(0.5),
        u_right: s(0.75),
        v_bottom: s(1.0),
    };
    let second = TexturedQuad { left: s(2.0), right: s(4.0), ..first };
    canvas.add_text(vec![first, second]);
    assert_eq!(canvas.shape_count(), 2);
    assert_eq!(canvas.len(), 12);
    let buffer = floats(&canvas);
    let expected: Vec<[f32; 8]> = vec![
        [0.0, 1.0, 1.0, 1.0, 1.0, 0.0, 0.25, 0.5],
        [2.0, 1.0, 1.0, 1.0, 1.0, 0.0, 0.75, 0.5],
        [2.0, 3.0, 1.0, 1.0, 1.0, 0.0, 0.75, 1.0],
        [0.0, 1.0, 1.0, 1.0, 1.0, 0.0, 0.25, 0.5],
        [2.0, 3.0, 1.0, 1.0, 1.0, 0.0, 0.75, 1.0],
        [0.0, 3.0, 1.0, 1.0, 1.0, 0.0, 0.25, 1.0],
    ];
    for (record, wanted) in buffer.chunks(8).zip(expected.iter()) {
        assert_eq!(record, wanted);
    }
    assert_eq!(positions(&buffer)[6], (2.0, 1.0));
    assert_eq!(positions(&buffer)[7], (4.0, 1.0));
}

#[test]
fn text_without_glyphs_adds_nothing() {
    let mut canvas = Canvas::new(s(1.0));
    canvas.add_text(Vec::new());
    assert_eq!(canvas.shape_count(), 0);
}

#[test]
fn flattening_two_shapes_is_flattening_each() {
    let mut both = Canvas::new(s(1.0));
    let mut first = Canvas::new(s(1.0));
    let mut second = Canvas::new(s(1.0));
    both.add_rect(s(0.0), s(0.0), s(1.0), s(1.0), red());
    both.add_triangle(p(0.0, 1.0), p(1.0, -1.0), p(-1.0, -1.0), blue());
    first.add_rect(s(0.0), s(0.0), s(1.0), s(1.0), red());
    second.add_triangle(p(0.0, 1.0), p(1.0, -1.0), p(-1.0, -1.0), blue());
    let mut joined = first.to_vertices();
    joined.extend(second.to_vertices());
    assert_eq!(both.to_vertices(), joined);
    assert_eq!(both.len(), first.len() + second.len());
    assert_eq!(both.to_vertices().len(), 8 * both.len());
}

#[test]
fn later_shapes_come_later_in_the_buffer() {
    let mut canvas = Canvas::new(s(1.0));
    canvas.add_triangle(p(1.0, 1.0), p(1.0, 1.0), p(1.0, 1.0), red());
    canvas.add_triangle(p(2.0, 2.0), p(2.0, 2.0), p(2.0, 2.0), red());
    canvas.add_triangle(p(3.0, 3.0), p(3.0, 3.0), p(3.0, 3.0), red());
    let points = positions(&floats(&canvas));
    assert_eq!(points[0], (1.0, 1.0));
    assert_eq!(points[3], (2.0, 2.0));
    assert_eq!(points[6], (3.0, 3.0));
}

#[test]
fn scalars_keep_their_bits() {
    assert_eq!(Scalar::one().to_bits(), 1.0f32.to_bits());
    assert_eq!(Scalar::zero().to_bits(), 0.0f32.to_bits());
    assert_eq!(Scalar::from_bits(0x7fc0_0000).to_bits(), 0x7fc0_0000);
    assert_eq!(s(-0.0).to_bits(), 0x8000_0000);
}

#[test]
fn solid_and_textured_records() {
    let solid = VertexRecord::solid(p(0.5, -0.5), blue());
    assert_eq!((solid.x, solid.y), (s(0.5), s(-0.5)));
    assert_eq!((solid.r, solid.g, solid.b, solid.a), (s(0.0), s(0.0), s(1.0), s(0.5)));
    assert_eq!((solid.u, solid.v), (s(1.0), s(1.0)));
    let textured = VertexRecord::textured(p(0.5, -0.5), s(0.25), s(0.75));
    assert_eq!((textured.r, textured.g, textured.b, textured.a), (s(1.0), s(1.0), s(1.0), s(0.0)));
    assert_eq!((textured.u, textured.v), (s(0.25), s(0.75)));
    assert_eq!(Color::white(), Color(s(1.0), s(1.0), s(1.0), s(1.0)));
    assert_eq!(Color::texture_marker(), Color(s(1.0), s(1.0), s(1.0), s(0.0)));
}
