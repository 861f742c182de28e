use elara_gfx::image::{readback_len, Frame, ImageError, PixelArray, PixelFormat, RGBA};

const GREY_JPEG: [u8; 159] = [
    0xff, 0xd8, 0xff, 0xdb, 0x00, 0x43, 0x00, 0x10, 0x01, 0x01, 0x01, 0x01,
    0x01, 0x01, 0x01, 0x01, 0x01, 0x01, 0x01, 0x01, 0x01, 0x01, 0x01, 0x01,
    0x01, 0x01, 0x01, 0x01, 0x01, 0x01, 0x01, 0x01, 0x01, 0x01, 0x01, 0x01,
    0x01, 0x01, 0x01, 0x01, 0x01, 0x01, 0x01, 0x01, 0x01, 0x01, 0x01, 0x01,
    0x01, 0x01, 0x01, 0x01, 0x01, 0x01, 0x01, 0x01, 0x01, 0x01, 0x01, 0x01,
    0x01, 0x01, 0x01, 0x01, 0x01, 0x01, 0x01, 0x01, 0x01, 0x01, 0x01, 0xff,
    0xc0, 0x00, 0x11, 0x08, 0x00, 0x08, 0x00, 0x08, 0x03, 0x01, 0x11, 0x00,
    0x02, 0x11, 0x00, 0x03, 0x11, 0x00, 0xff, 0xc4, 0x00, 0x1a, 0x00, 0x00,
    0x00, 0x07, 0x00, 0x00, 0x00, 0x00, 0x00, 0x00, 0x00, 0x00, 0x00, 0x00,
    0x00, 0x00, 0x00, 0x00, 0x01, 0x02, 0x03, 0x04, 0x05, 0x06, 0xff, 0xc4,
    0x00, 0x14, 0x10, 0x01, 0x00, 0x00, 0x00, 0x00, 0x00, 0x00, 0x00, 0x00,
    0x00, 0x00, 0x00, 0x00, 0x00, 0x00, 0x00, 0x00, 0xff, 0xda, 0x00, 0x0c,
    0x03, 0x01, 0x00, 0x02, 0x00, 0x03, 0x00, 0x00, 0x3f, 0x00, 0xd2, 0x00,
    0x3f, 0xff, 0xd9,
];

const ONE_CHANNEL_JPEG: [u8; 148] = [
    0xff, 0xd8, 0xff, 0xdb, 0x00, 0x43, 0x00, 0x10, 0x01, 0x01, 0x01, 0x01,
    0x01, 0x01, 0x01, 0x01, 0x01, 0x01, 0x01, 0x01, 0x01, 0x01, 0x01, 0x01,
    0x01, 0x01, 0x01, 0x01, 0x01, 0x01, 0x01, 0x01, 0x01, 0x01, 0x01, 0x01,
    0x01, 0x01, 0x01, 0x01, 0x01, 0x01, 0x01, 0x01, 0x01, 0x01, 0x01, 0x01,
    0x01, 0x01, 0x01, 0x01, 0x01, 0x01, 0x01, 0x01, 0x01, 0x01, 0x01, 0x01,
    0x01, 0x01, 0x01, 0x01, 0x01, 0x01, 0x01, 0x01, 0x01, 0x01, 0x01, 0xff,
    0xc0, 0x00, 0x0b, 0x08, 0x00, 0x08, 0x00, 0x08, 0x01, 0x01, 0x11, 0x00,
    0xff, 0xc4, 0x00, 0x1a, 0x00, 0x00, 0x00, 0x07, 0x00, 0x00, 0x00, 0x00,
    0x00, 0x00, 0x00, 0x00, 0x00, 0x00, 0x00, 0x00, 0x00, 0x00, 0x01, 0x02,
    0x03, 0x04, 0x05, 0x06, 0xff, 0xc4, 0x00, 0x14, 0x10, 0x01, 0x00, 0x00,
    0x00, 0x00, 0x00, 0x00, 0x00, 0x00, 0x00, 0x00, 0x00, 0x00, 0x00, 0x00,
    0x00, 0x00, 0xff, 0xda, 0x00, 0x08, 0x01, 0x01, 0x00, 0x00, 0x3f, 0x00,
    0xd2, 0x3f, 0xff, 0xd9,
];

fn png_bytes(width: u32, height: u32, color: png::ColorType, depth: png::BitDepth, data: &[u8]) -> Vec<u8> {
    let mut out = Vec::new();
    {
        let mut encoder = png::Encoder::new(&mut out, width, height);
        encoder.set_color(color);
        encoder.set_depth(depth);
        let mut writer = encoder.write_header().unwrap();
        writer.write_image_data(data).unwrap();
    }
    out
}

fn frame(width: u32, height: u32, format: PixelFormat, data: &[u8]) -> Frame {
    Frame { width, height, format, data: data.to_vec() }
}

#[test]
fn named_pixels() {
    assert_eq!(RGBA::new(1, 2, 3, 4), RGBA { r: 1, g: 2, b: 3, a: 4 });
    assert_eq!(RGBA::black(), RGBA { r: 0, g: 0, b: 0, a: 1 });
    assert_eq!(RGBA::white(), RGBA { r: 255, g: 255, b: 255, a: 1 });
}

#[test]
fn new_image_is_black() {
    let image = PixelArray::new(3, 2);
    assert_eq!((image.width, image.height), (3, 2));
    assert_eq!(image.len(), 6);
    assert!(image.data.iter().all(|pixel| *pixel == RGBA::black()));
    let empty = PixelArray::new(0, 5);
    assert_eq!(empty.len(), 0);
    assert!(empty.data().is_empty());
}

#[test]
fn set_takes_column_then_row() {
    let mut image = PixelArray::new(3, 2);
    image.set(2, 1, RGBA::new(9, 8, 7, 6));
    image.set(0, 0, RGBA::white());
    assert_eq!(image.data[5], RGBA::new(9, 8, 7, 6));
    assert_eq!(image.get(1, 2), RGBA::new(9, 8, 7, 6));
    assert_eq!(image.get(0, 0), RGBA::white());
    assert_eq!(image.get(0, 1), RGBA::black());
    assert_eq!(image.len(), 6);
}

#[test]
fn data_is_four_bytes_per_pixel_row_by_row() {
    let mut image = PixelArray::new(2, 2);
    image.set(0, 0, RGBA::new(1, 2, 3, 4));
    image.set(1, 0, RGBA::new(5, 6, 7, 8));
    image.set(0, 1, RGBA::new(9, 10, 11, 12));
    image.set(1, 1, RGBA::new(13, 14, 15, 16));
    assert_eq!(image.data(), (1..=16).collect::<Vec<u8>>());
}

#[test]
fn flipv_swaps_the_rows() {
    let mut image = PixelArray::new(2, 3);
    for row in 0..3 {
        for column in 0..2 {
            image.set(column, row, RGBA::new(row as u8, column as u8, 0, 1));
        }
    }
    image.flipv();
    assert_eq!((image.width, image.height), (2, 3));
    for row in 0..3 {
        for column in 0..2 {
            assert_eq!(image.get(row, column), RGBA::new(2 - row as u8, column as u8, 0, 1));
        }
    }
    image.flipv();
    assert_eq!(image.get(0, 1), RGBA::new(0, 1, 0, 1));
    assert_eq!(image.get(2, 0), RGBA::new(2, 0, 0, 1));
}

#[test]
fn ppm_lists_the_colour_channels() {
    let mut image = PixelArray::new(2, 1);
    image.set(0, 0, RGBA::new(1, 2, 3, 77));
    image.set(1, 0, RGBA::new(10, 200, 255, 0));
    assert_eq!(image.write_ppm(), "P3\n# Created by elara-gfx\n2 1\n255\n1 2 3 10 200 255 ");
    assert_eq!(PixelArray::new(0, 0).write_ppm(), "P3\n# Created by elara-gfx\n0 0\n255\n");
    assert_eq!(
        PixelArray::new(12, 1).write_ppm(),
        format!("P3\n# Created by elara-gfx\n12 1\n255\n{}", "0 0 0 ".repeat(12))
    );
}

#[test]
fn frames_become_pixels_by_their_format() {
    let rgb = PixelArray::from_frame(frame(2, 1, PixelFormat::Rgb, &[1, 2, 3, 4, 5, 6])).unwrap();
    assert_eq!((rgb.width, rgb.height), (2, 1));
    assert_eq!(rgb.data, vec![RGBA::new(1, 2, 3, 1), RGBA::new(4, 5, 6, 1)]);
    let rgba = PixelArray::from_frame(frame(1, 2, PixelFormat::Rgba, &[1, 2, 3, 4, 5, 6, 7, 8])).unwrap();
    assert_eq!((rgba.width, rgba.height), (1, 2));
    assert_eq!(rgba.data, vec![RGBA::new(1, 2, 3, 4), RGBA::new(5, 6, 7, 8)]);
    let grey = PixelArray::from_frame(frame(3, 1, PixelFormat::Grayscale, &[0, 128, 255])).unwrap();
    assert_eq!(grey.data, vec![RGBA::new(0, 0, 0, 1), RGBA::new(128, 128, 128, 1), RGBA::new(255, 255, 255, 1)]);
    let grey_alpha =
        PixelArray::from_frame(frame(2, 1, PixelFormat::GrayscaleAlpha, &[7, 9, 100, 0])).unwrap();
    assert_eq!(grey_alpha.data, vec![RGBA::new(7, 7, 7, 9), RGBA::new(100, 100, 100, 0)]);
    let empty = PixelArray::from_frame(frame(0, 7, PixelFormat::Rgb, &[])).unwrap();
    assert_eq!((empty.width, empty.height, empty.len()), (0, 7, 0));
}

#[test]
fn frames_of_the_wrong_size_or_kind_are_refused() {
    assert!(matches!(
        PixelArray::from_frame(frame(2, 1, PixelFormat::Rgb, &[1, 2, 3, 4, 5])),
        Err(ImageError::FrameSize)
    ));
    assert!(matches!(
        PixelArray::from_frame(frame(2, 1, PixelFormat::Rgb, &[1, 2, 3, 4, 5, 6, 7, 8, 9])),
        Err(ImageError::FrameSize)
    ));
    assert!(matches!(
        PixelArray::from_frame(frame(0xffff_ffff, 0xffff_ffff, PixelFormat::Rgba, &[1, 2, 3, 4])),
        Err(ImageError::FrameSize)
    ));
    assert!(matches!(
        PixelArray::from_frame(frame(1, 1, PixelFormat::Indexed, &[0])),
        Err(ImageError::IndexedFrame)
    ));
    assert!(matches!(
        PixelArray::from_frame(frame(1, 1, PixelFormat::Indexed, &[])),
        Err(ImageError::IndexedFrame)
    ));
    assert_eq!(PixelFormat::Rgb.samples(), 3);
    assert_eq!(PixelFormat::Rgba.samples(), 4);
    assert_eq!(PixelFormat::Grayscale.samples(), 1);
    assert_eq!(PixelFormat::GrayscaleAlpha.samples(), 2);
    assert_eq!(PixelFormat::Indexed.samples(), 1);
}

#[test]
fn rgb_rows_become_opaque_pixels() {
    let image = PixelArray::from_rgb(1, 2, vec![1, 2, 3, 4, 5, 6]).unwrap();
    assert_eq!((image.width, image.height), (1, 2));
    assert_eq!(image.data, vec![RGBA::new(1, 2, 3, 1), RGBA::new(4, 5, 6, 1)]);
    assert!(matches!(PixelArray::from_rgb(1, 2, vec![1, 2, 3, 4]), Err(ImageError::FrameSize)));
    assert!(matches!(PixelArray::from_rgb(2, 2, vec![1, 2, 3, 4]), Err(ImageError::FrameSize)));
}

#[test]
fn decoded_rows_need_a_size() {
    let image = PixelArray::from_decoded_rgb(vec![1, 2, 3, 4, 5, 6], Some((2, 1))).unwrap();
    assert_eq!((image.width, image.height), (2, 1));
    assert_eq!(image.data, vec![RGBA::new(1, 2, 3, 1), RGBA::new(4, 5, 6, 1)]);
    assert!(matches!(PixelArray::from_decoded_rgb(vec![1, 2, 3, 4, 5, 6], None), Err(ImageError::FrameSize)));
    assert!(matches!(PixelArray::from_decoded_rgb(Vec::new(), None), Err(ImageError::FrameSize)));
    assert!(matches!(
        PixelArray::from_decoded_rgb(vec![1, 2, 3, 4, 5, 6], Some((1, 1))),
        Err(ImageError::FrameSize)
    ));
    let empty = PixelArray::from_decoded_rgb(Vec::new(), Some((0, 9))).unwrap();
    assert_eq!((empty.width, empty.height, empty.len()), (0, 9, 0));
}

#[test]
fn byte_arrays_become_pixels_with_alpha() {
    let image = PixelArray::from_bytearray(vec![1, 2, 3, 4, 5, 6, 7, 8], 2, 1).unwrap();
    assert_eq!((image.width, image.height), (2, 1));
    assert_eq!(image.data, vec![RGBA::new(1, 2, 3, 4), RGBA::new(5, 6, 7, 8)]);
    assert!(PixelArray::from_bytearray(vec![1, 2, 3, 4, 5, 6, 7], 2, 1).is_none());
    assert!(PixelArray::from_bytearray(vec![1, 2, 3, 4], 2, 1).is_none());
    assert!(PixelArray::from_bytearray(Vec::new(), 0, 0).is_some());
}

#[test]
fn bytes_come_back_from_an_image() {
    let buffer: Vec<u8> = (0..24).collect();
    let image = PixelArray::from_bytearray(buffer.clone(), 3, 2).unwrap();
    assert_eq!(image.data(), buffer);
}

#[test]
fn png_with_colour_is_read() {
    let bytes = png_bytes(2, 2, png::ColorType::Rgb, png::BitDepth::Eight, &[1, 2, 3, 4, 5, 6, 7, 8, 9, 10, 11, 12]);
    let image = PixelArray::load_png(&bytes).unwrap();
    assert_eq!((image.width, image.height), (2, 2));
    assert_eq!(
        image.data,
        vec![RGBA::new(1, 2, 3, 1), RGBA::new(4, 5, 6, 1), RGBA::new(7, 8, 9, 1), RGBA::new(10, 11, 12, 1)]
    );
    let bytes = png_bytes(1, 2, png::ColorType::Rgba, png::BitDepth::Eight, &[1, 2, 3, 4, 5, 6, 7, 8]);
    let image = PixelArray::load_png(&bytes).unwrap();
    assert_eq!((image.width, image.height), (1, 2));
    assert_eq!(image.data, vec![RGBA::new(1, 2, 3, 4), RGBA::new(5, 6, 7, 8)]);
}

#[test]
fn png_with_grey_is_read() {
    let bytes = png_bytes(3, 1, png::ColorType::Grayscale, png::BitDepth::Eight, &[0, 128, 255]);
    let image = PixelArray::load_png(&bytes).unwrap();
    assert_eq!(image.data, vec![RGBA::new(0, 0, 0, 1), RGBA::new(128, 128, 128, 1), RGBA::new(255, 255, 255, 1)]);
    let bytes = png_bytes(2, 1, png::ColorType::GrayscaleAlpha, png::BitDepth::Eight, &[7, 9, 100, 0]);
    let image = PixelArray::load_png(&bytes).unwrap();
    assert_eq!(image.data, vec![RGBA::new(7, 7, 7, 9), RGBA::new(100, 100, 100, 0)]);
}

#[test]
fn png_with_sixteen_bits_is_cut_to_eight() {
    let bytes = png_bytes(1, 1, png::ColorType::Rgb, png::BitDepth::Sixteen, &[0x12, 0x34, 0x56, 0x78, 0x9a, 0xbc]);
    let image = PixelArray::load_png(&bytes).unwrap();
    assert_eq!(image.data, vec![RGBA::new(0x12, 0x56, 0x9a, 1)]);
}

#[test]
fn png_with_a_palette_is_read_as_colour() {
    let mut bytes = Vec::new();
    {
        let mut encoder = png::Encoder::new(&mut bytes, 2, 1);
        encoder.set_color(png::ColorType::Indexed);
        encoder.set_depth(png::BitDepth::Eight);
        encoder.set_palette(vec![10, 20, 30, 40, 50, 60]);
        let mut writer = encoder.write_header().unwrap();
        writer.write_image_data(&[1, 0]).unwrap();
    }
    let image = PixelArray::load_png(&bytes).unwrap();
    assert_eq!(image.data, vec![RGBA::new(40, 50, 60, 1), RGBA::new(10, 20, 30, 1)]);
}

#[test]
fn what_is_no_png_is_refused() {
    assert!(matches!(PixelArray::load_png(b"not a png"), Err(ImageError::PNGError(_))));
    assert!(matches!(PixelArray::load_png(&[]), Err(ImageError::PNGError(_))));
    let bytes = png_bytes(2, 2, png::ColorType::Rgb, png::BitDepth::Eight, &[1, 2, 3, 4, 5, 6, 7, 8, 9, 10, 11, 12]);
    assert!(matches!(PixelArray::load_png(&bytes[..bytes.len() / 2]), Err(ImageError::PNGError(_))));
}

#[test]
fn jpeg_is_read_as_opaque_colour() {
    let image = PixelArray::load_jpg(&GREY_JPEG).unwrap();
    assert_eq!((image.width, image.height), (8, 8));
    assert_eq!(image.len(), 64);
    assert!(image.data.iter().all(|pixel| *pixel == RGBA::new(200, 200, 200, 1)));
    assert_eq!(image.data.len(), image.width * image.height);
    assert!(image.data.iter().all(|pixel| pixel.a == 1));
}

#[test]
fn jpeg_with_one_channel_does_not_fill_the_image() {
    assert!(matches!(PixelArray::load_jpg(&ONE_CHANNEL_JPEG), Err(ImageError::FrameSize)));
}

#[test]
fn read_back_size_is_four_bytes_per_pixel() {
    assert_eq!(readback_len(2, 3), Some(24));
    assert_eq!(readback_len(0, 0), Some(0));
    assert_eq!(readback_len(1200, 900), Some(4_320_000));
    assert_eq!(readback_len(-1, 1), None);
    assert_eq!(readback_len(1, -1), None);
    assert_eq!(readback_len(i32::MAX, 1), None);
    assert_eq!(readback_len(0x1fff_ffff, 1), Some(2_147_483_644));
    assert_eq!(readback_len(23_170, 23_170), Some(2_147_395_600));
    assert_eq!(readback_len(23_171, 23_171), None);
    assert_eq!(readback_len(i32::MAX, i32::MAX), None);
}

#[test]
fn what_is_no_jpeg_is_refused() {
    assert!(matches!(PixelArray::load_jpg(b"not a jpeg"), Err(ImageError::JPEGError(_))));
    assert!(matches!(PixelArray::load_jpg(&[]), Err(ImageError::JPEGError(_))));
}
