use vstd::prelude::*;
use vstd::arithmetic::div_mod::lemma_fundamental_div_mod;
use vstd::string::*;

verus! {

/// One pixel: red, green, blue and alpha.
#[derive(Clone, Copy, Debug, PartialEq, Eq, Structural)]
pub struct RGBA {
    pub r: u8,
    pub g: u8,
    pub b: u8,
    pub a: u8,
}

impl RGBA {
    /// The four channels in the order they are stored.
    pub open spec fn channels(self) -> Seq<u8> {
        seq![self.r, self.g, self.b, self.a]
    }

    /// Black with alpha 1.
    pub open spec fn spec_black() -> RGBA {
        RGBA { r: 0, g: 0, b: 0, a: 1 }
    }

    /// White with alpha 1.
    pub open spec fn spec_white() -> RGBA {
        RGBA { r: 255, g: 255, b: 255, a: 1 }
    }

    pub fn new(r: u8, g: u8, b: u8, a: u8) -> (pixel: RGBA)
        ensures
            pixel == (RGBA { r, g, b, a }),
    {
        RGBA { r, g, b, a }
    }

    /// Black with alpha 1.
    #[verifier::when_used_as_spec(spec_black)]
    pub fn black() -> (pixel: RGBA)
        ensures
            pixel == Self::spec_black(),
    {
        RGBA { r: 0, g: 0, b: 0, a: 1 }
    }

    /// White with alpha 1.
    #[verifier::when_used_as_spec(spec_white)]
    pub fn white() -> (pixel: RGBA)
        ensures
            pixel == Self::spec_white(),
    {
        RGBA { r: 255, g: 255, b: 255, a: 1 }
    }
}

/// How the samples of a decoded frame make up a pixel.
#[derive(Clone, Copy, Debug, PartialEq, Eq, Structural)]
pub enum PixelFormat {
    /// One grey sample.
    Grayscale,
    /// Red, green, blue.
    Rgb,
    /// One index into a palette.
    Indexed,
    /// One grey sample, then alpha.
    GrayscaleAlpha,
    /// Red, green, blue, alpha.
    Rgba,
}

impl PixelFormat {
    /// Number of bytes one pixel takes in a frame of this format.
    pub open spec fn spec_samples(self) -> nat {
        match self {
            PixelFormat::Grayscale => 1,
            PixelFormat::Rgb => 3,
            PixelFormat::Indexed => 1,
            PixelFormat::GrayscaleAlpha => 2,
            PixelFormat::Rgba => 4,
        }
    }

    /// Number of bytes one pixel takes in a frame of this format.
    pub fn samples(self) -> (count: usize)
        ensures
            count == self.spec_samples(),
    {
        match self {
            PixelFormat::Grayscale => 1,
            PixelFormat::Rgb => 3,
            PixelFormat::Indexed => 1,
            PixelFormat::GrayscaleAlpha => 2,
            PixelFormat::Rgba => 4,
        }
    }
}

/// Pixel `k` of a frame of 8-bit samples. Grey becomes a grey colour; where
/// the frame has no alpha, the pixel gets alpha 1.
pub open spec fn frame_pixel(format: PixelFormat, data: Seq<u8>, k: int) -> RGBA {
    match format {
        PixelFormat::Grayscale => RGBA { r: data[k], g: data[k], b: data[k], a: 1 },
        PixelFormat::Indexed => RGBA { r: data[k], g: data[k], b: data[k], a: 1 },
        PixelFormat::Rgb => RGBA { r: data[3 * k], g: data[3 * k + 1], b: data[3 * k + 2], a: 1 },
        PixelFormat::GrayscaleAlpha => RGBA {
            r: data[2 * k],
            g: data[2 * k],
            b: data[2 * k],
            a: data[2 * k + 1],
        },
        PixelFormat::Rgba => RGBA {
            r: data[4 * k],
            g: data[4 * k + 1],
            b: data[4 * k + 2],
            a: data[4 * k + 3],
        },
    }
}

/// The bytes of a run of pixels, four for each.
pub open spec fn bytes_of(pixels: Seq<RGBA>) -> Seq<u8>
    decreases pixels.len(),
{
    if pixels.len() == 0 {
        Seq::empty()
    } else {
        bytes_of(pixels.drop_last()) + pixels.last().channels()
    }
}

/// The decimal digit `d` as a character.
pub open spec fn digit_char(d: int) -> char {
    if d == 0 {
        '0'
    } else if d == 1 {
        '1'
    } else if d == 2 {
        '2'
    } else if d == 3 {
        '3'
    } else if d == 4 {
        '4'
    } else if d == 5 {
        '5'
    } else if d == 6 {
        '6'
    } else if d == 7 {
        '7'
    } else if d == 8 {
        '8'
    } else {
        '9'
    }
}

/// A number in decimal, without leading zeros.
pub open spec fn decimal(n: nat) -> Seq<char>
    decreases n,
{
    if n < 10 {
        seq![digit_char(n as int)]
    } else {
        decimal(n / 10).push(digit_char((n % 10) as int))
    }
}

/// The colour channels of one pixel as text: red, green and blue in
/// decimal, a space behind each. Alpha is left out.
pub open spec fn pixel_text(pixel: RGBA) -> Seq<char> {
    decimal(pixel.r as nat).push(' ') + decimal(pixel.g as nat).push(' ') + decimal(
        pixel.b as nat,
    ).push(' ')
}

/// The text of a run of pixels, pixel after pixel.
pub open spec fn pixels_text(pixels: Seq<RGBA>) -> Seq<char>
    decreases pixels.len(),
{
    if pixels.len() == 0 {
        Seq::empty()
    } else {
        pixels_text(pixels.drop_last()) + pixel_text(pixels.last())
    }
}

/// An image as a plain PPM file: the magic number, a comment, width and
/// height, the largest channel value, then the pixels row by row.
pub open spec fn ppm_text(width: nat, height: nat, pixels: Seq<RGBA>) -> Seq<char> {
    "P3\n# Created by elara-gfx\n"@ + decimal(width).push(' ') + decimal(height) + "\n255\n"@
        + pixels_text(pixels)
}

fn digit_str(d: usize) -> (text: &'static str)
    requires
        d < 10,
    ensures
        text@ == seq![digit_char(d as int)],
{
    proof {
        reveal_strlit("0");
        reveal_strlit("1");
        reveal_strlit("2");
        reveal_strlit("3");
        reveal_strlit("4");
        reveal_strlit("5");
        reveal_strlit("6");
        reveal_strlit("7");
        reveal_strlit("8");
        reveal_strlit("9");
    }
    let text = if d == 0 {
        "0"
    } else if d == 1 {
        "1"
    } else if d == 2 {
        "2"
    } else if d == 3 {
        "3"
    } else if d == 4 {
        "4"
    } else if d == 5 {
        "5"
    } else if d == 6 {
        "6"
    } else if d == 7 {
        "7"
    } else if d == 8 {
        "8"
    } else {
        "9"
    };
    assert(text@ =~= seq![digit_char(d as int)]);
    text
}

fn append_decimal(out: &mut String, n: usize)
    ensures
        final(out)@ == old(out)@ + decimal(n as nat),
    decreases n,
{
    if n >= 10 {
        append_decimal(out, n / 10);
    }
    out.append(digit_str(n % 10));
    assert(out@ =~= old(out)@ + decimal(n as nat));
}

fn append_space(out: &mut String)
    ensures
        final(out)@ == old(out)@.push(' '),
{
    proof {
        reveal_strlit(" ");
    }
    out.append(" ");
    assert(out@ =~= old(out)@.push(' '));
}

/// Why an image was not made.
#[derive(Debug)]
pub enum ImageError {
    /// The JPEG decoder refused the data.
    JPEGError(jpeg_decoder::Error),
    /// The PNG decoder refused the data.
    PNGError(png::DecodingError),
    /// A frame of palette indices cannot be turned into colours.
    IndexedFrame,
    /// The frame does not hold exactly the bytes that its width, height and
    /// format call for, or its size is not known.
    FrameSize,
}

/// The error of the PNG decoder. Nothing of it is read here.
#[verifier::external_type_specification]
#[verifier::external_body]
pub struct ExPngDecodingError(png::DecodingError);

/// The error of the JPEG decoder. Nothing of it is read here.
#[verifier::external_type_specification]
#[verifier::external_body]
pub struct ExJpegError(jpeg_decoder::Error);

/// A decoded frame: its size in pixels, the layout of its samples, and the
/// samples, one byte each, row by row.
#[derive(Debug)]
pub struct Frame {
    pub width: u32,
    pub height: u32,
    pub format: PixelFormat,
    pub data: Vec<u8>,
}

/// What a frame holds.
pub struct FrameView {
    pub width: u32,
    pub height: u32,
    pub format: PixelFormat,
    pub data: Seq<u8>,
}

impl View for Frame {
    type V = FrameView;

    open spec fn view(&self) -> FrameView {
        FrameView { width: self.width, height: self.height, format: self.format, data: self.data@ }
    }
}

/// The first frame of a PNG file, every sample brought to 8 bits and
/// palettes expanded to colours; `None` where the decoder refuses the file.
pub uninterp spec fn png_first_frame(bytes: Seq<u8>) -> Option<FrameView>;

/// Decodes the first frame of a PNG file held in memory.
///
/// Runs `png::Decoder` over the bytes with the transformations of
/// `png::Transformations::normalize_to_color8`, reads the header with
/// `read_info` and the frame with `next_frame`, into a buffer of
/// `output_buffer_size` bytes. The decoder reads nothing but the bytes, so
/// the same bytes always give the same frame or are always refused;
/// `png_first_frame` is the name of that frame. Nothing is claimed about
/// its size or its format.
#[verifier::external_body]
fn decode_png(bytes: &[u8]) -> (decoded: Result<Frame, png::DecodingError>)
    ensures
        match decoded {
            Ok(frame) => png_first_frame(bytes@) == Some(frame@),
            Err(_) => png_first_frame(bytes@) is None,
        },
{
    let mut decoder = png::Decoder::new(bytes);
    decoder.set_transformations(png::Transformations::normalize_to_color8());
    let mut reader = decoder.read_info()?;
    let mut data = vec![0; reader.output_buffer_size()];
    let info = reader.next_frame(&mut data)?;
    let format = match info.color_type {
        png::ColorType::Grayscale => PixelFormat::Grayscale,
        png::ColorType::Rgb => PixelFormat::Rgb,
        png::ColorType::Indexed => PixelFormat::Indexed,
        png::ColorType::GrayscaleAlpha => PixelFormat::GrayscaleAlpha,
        png::ColorType::Rgba => PixelFormat::Rgba,
    };
    Ok(Frame { width: info.width, height: info.height, format, data })
}

/// Decodes a JPEG file held in memory.
///
/// Runs `jpeg_decoder::Decoder::decode` over the bytes and hands back the
/// samples, with the width and height that `info` reports afterwards.
/// The decoder may compute its samples differently from one machine to
/// another, so nothing is claimed about the result.
#[verifier::external_body]
fn decode_jpeg(bytes: &[u8]) -> (decoded: Result<(Vec<u8>, Option<(u16, u16)>), jpeg_decoder::Error>) {
    let mut decoder = jpeg_decoder::Decoder::new(bytes);
    let data = decoder.decode()?;
    Ok((data, decoder.info().map(|info| (info.width, info.height))))
}

/// A row of `bytes` bytes, filled up to the next multiple of four.
pub open spec fn padded_row(bytes: int) -> int {
    if bytes % 4 != 0 {
        bytes + (4 - bytes % 4)
    } else {
        bytes
    }
}

/// Number of bytes that a surface of `width` by `height` pixels takes when
/// it is read back with four bytes a pixel and rows that start on
/// multiples of four bytes.
pub open spec fn readback_bytes(width: int, height: int) -> int {
    padded_row(4 * width) * height
}

/// The size of the buffer for reading a surface back. `None` where a side
/// is negative or the size does not fit in an `i32`.
pub fn readback_len(width: i32, height: i32) -> (len: Option<usize>)
    ensures
        match len {
            Some(bytes) => width >= 0 && height >= 0 && bytes == readback_bytes(
                width as int,
                height as int,
            ) && bytes == 4 * (width * height) && bytes <= i32::MAX,
            None => width < 0 || height < 0 || readback_bytes(width as int, height as int) > i32::MAX,
        },
{
    if width < 0 || height < 0 {
        return None;
    }
    let n_channels: i128 = 4;
    let mut stride: i128 = n_channels * (width as i128);
    if stride % 4 != 0 {
        stride = stride + (4 - stride % 4);
    }
    assert(stride * height == 4 * (width * height) && 0 <= stride * height <= 0x2_0000_0000 * 0x8000_0000)
        by (nonlinear_arith)
        requires
            stride == 4 * width,
            0 <= width <= 0x7fff_ffff,
            0 <= height <= 0x7fff_ffff,
    ;
    let buffer_size: i128 = stride * (height as i128);
    if buffer_size > i32::MAX as i128 {
        return None;
    }
    Some(buffer_size as usize)
}

/// A rectangle of pixels, stored row by row from the top.
#[derive(Debug)]
pub struct PixelArray {
    pub width: usize,
    pub height: usize,
    pub data: Vec<RGBA>,
}

impl PixelArray {
    /// There is one pixel for each place of the rectangle.
    pub open spec fn wf(&self) -> bool {
        self.data@.len() == self.width * self.height
    }

    /// The pixel in row `i`, column `j`.
    pub open spec fn pixel(&self, i: int, j: int) -> RGBA {
        self.data@[self.width * i + j]
    }

    /// `frame` can be turned into an image: its samples are colours or
    /// greys, and it holds exactly the bytes that its size calls for.
    pub open spec fn frame_fits(frame: FrameView) -> bool {
        &&& frame.format != PixelFormat::Indexed
        &&& frame.data.len() == frame.width * frame.height * frame.format.spec_samples()
    }

    /// `self` is the image of `frame`: same size, and every pixel made from
    /// the samples at its place.
    pub open spec fn is_image_of(&self, frame: FrameView) -> bool {
        &&& self.width == frame.width
        &&& self.height == frame.height
        &&& self.data@.len() == frame.width * frame.height
        &&& forall|k: int|
            0 <= k < self.data@.len() ==> #[trigger] self.data@[k] == frame_pixel(
                frame.format,
                frame.data,
                k,
            )
    }

    /// `self` is `before` turned upside down: row `i` of `self` is row
    /// `height - 1 - i` of `before`.
    pub open spec fn is_flip_of(&self, before: &PixelArray) -> bool {
        &&& self.wf()
        &&& self.width == before.width
        &&& self.height == before.height
        &&& forall|i: int, j: int|
            0 <= i < before.height && 0 <= j < before.width ==> #[trigger] self.pixel(i, j)
                == before.pixel(before.height - 1 - i, j)
    }

    /// A black image of the given size.
    pub fn new(width: usize, height: usize) -> (image: PixelArray)
        requires
            width * height <= usize::MAX,
        ensures
            image.wf(),
            image.width == width,
            image.height == height,
            forall|k: int| 0 <= k < image.data@.len() ==> image.data@[k] == RGBA::black(),
    {
        let count = width * height;
        let mut data: Vec<RGBA> = Vec::new();
        let mut k: usize = 0;
        while k < count
            invariant
                k <= count,
                data@.len() == k,
                forall|j: int| 0 <= j < k ==> data@[j] == RGBA::black(),
            decreases count - k,
        {
            data.push(RGBA::black());
            k += 1;
        }
        PixelArray { width, height, data }
    }

    /// Number of pixels.
    pub fn len(&self) -> (count: usize)
        ensures
            count == self.data@.len(),
    {
        self.data.len()
    }

    /// The pixel in row `i`, column `j`.
    pub fn get(&self, i: usize, j: usize) -> (pixel: RGBA)
        requires
            self.wf(),
            i < self.height,
            j < self.width,
        ensures
            pixel == self.pixel(i as int, j as int),
    {
        let count = self.data.len();
        proof {
            lemma_place_in_range(self.width as int, self.height as int, i as int, j as int);
        }
        assert(self.width * i + j < count);
        self.data[self.width * i + j]
    }

    /// Sets the pixel in column `x` of row `y`.
    pub fn set(&mut self, x: usize, y: usize, color: RGBA)
        requires
            old(self).wf(),
            x < old(self).width,
            y < old(self).height,
        ensures
            final(self).wf(),
            final(self).width == old(self).width,
            final(self).height == old(self).height,
            final(self).data@ == old(self).data@.update(old(self).width * y + x, color),
    {
        let count = self.data.len();
        proof {
            lemma_place_in_range(self.width as int, self.height as int, y as int, x as int);
        }
        assert(self.width * y + x < count);
        let place = self.width * y + x;
        self.data[place] = color;
    }

    /// The bytes of the image: four for each pixel, row by row.
    pub fn data(&self) -> (bytes: Vec<u8>)
        requires
            self.wf(),
        ensures
            bytes@ == bytes_of(self.data@),
            bytes@.len() == 4 * self.data@.len(),
    {
        let mut bytes: Vec<u8> = Vec::new();
        let mut k: usize = 0;
        assert(self.data@.take(0) =~= Seq::<RGBA>::empty());
        while k < self.data.len()
            invariant
                k <= self.data.len(),
                bytes@ == bytes_of(self.data@.take(k as int)),
            decreases self.data.len() - k,
        {
            let pixel = self.data[k];
            bytes.push(pixel.r);
            bytes.push(pixel.g);
            bytes.push(pixel.b);
            bytes.push(pixel.a);
            proof {
                let next = self.data@.take(k + 1);
                assert(next.drop_last() =~= self.data@.take(k as int));
                assert(next.last() == pixel);
                assert(bytes@ =~= bytes_of(self.data@.take(k as int)) + pixel.channels());
            }
            k += 1;
        }
        proof {
            assert(self.data@.take(self.data.len() as int) =~= self.data@);
            lemma_bytes_len(self.data@);
        }
        bytes
    }

    /// Turns the image upside down: row `i` becomes what row
    /// `height - 1 - i` was.
    pub fn flipv(&mut self)
        requires
            old(self).wf(),
        ensures
            final(self).is_flip_of(old(self)),
    {
        let width = self.width;
        let height = self.height;
        let mut flipped: Vec<RGBA> = Vec::new();
        let mut i: usize = 0;
        while i < height
            invariant
                self.wf(),
                width == self.width,
                height == self.height,
                i <= height,
                flipped@.len() == width * i,
                forall|r: int, c: int|
                    0 <= r < i && 0 <= c < width ==> #[trigger] flipped@[width * r + c]
                        == self.data@[width * (height - 1 - r) + c],
            decreases height - i,
        {
            let mut j: usize = 0;
            while j < width
                invariant
                    self.wf(),
                    width == self.width,
                    height == self.height,
                    i < height,
                    j <= width,
                    flipped@.len() == width * i + j,
                    forall|r: int, c: int|
                        0 <= r < i && 0 <= c < width ==> #[trigger] flipped@[width * r + c]
                            == self.data@[width * (height - 1 - r) + c],
                    forall|c: int|
                        0 <= c < j ==> #[trigger] flipped@[width * i + c] == self.data@[width * (
                        height - 1 - i) + c],
                decreases width - j,
            {
                proof {
                    lemma_place_in_range(
                        width as int,
                        height as int,
                        height - 1 - i,
                        j as int,
                    );
                    lemma_rows_apart(width as int, i as int, j as int);
                }
                let ghost before = flipped@;
                let count = self.data.len();
                assert(width * (height - 1 - i) + j < count);
                flipped.push(self.data[width * (height - 1 - i) + j]);
                proof {
                    assert forall|r: int, c: int| 0 <= r < i && 0 <= c < width implies #[trigger] flipped@[width
                        * r + c] == self.data@[width * (height - 1 - r) + c] by {
                        lemma_place_in_range(width as int, i as int, r, c);
                        assert(flipped@[width * r + c] == before[width * r + c]);
                    }
                }
                j += 1;
            }
            proof {
                assert(width * (i + 1) == width * i + width) by (nonlinear_arith);
                assert forall|r: int, c: int| 0 <= r < i + 1 && 0 <= c < width implies #[trigger] flipped@[width
                    * r + c] == self.data@[width * (height - 1 - r) + c] by {
                    if r == i {
                    }
                }
            }
            i += 1;
        }
        self.data = flipped;
    }

    /// The image as a plain PPM file. The colour channels are written in
    /// decimal, alpha is left out.
    pub fn write_ppm(&self) -> (text: String)
        requires
            self.wf(),
        ensures
            text@ == ppm_text(self.width as nat, self.height as nat, self.data@),
    {
        let mut body = String::new();
        let mut k: usize = 0;
        assert(self.data@.take(0) =~= Seq::<RGBA>::empty());
        while k < self.data.len()
            invariant
                k <= self.data.len(),
                body@ == pixels_text(self.data@.take(k as int)),
            decreases self.data.len() - k,
        {
            let pixel = self.data[k];
            append_decimal(&mut body, pixel.r as usize);
            append_space(&mut body);
            append_decimal(&mut body, pixel.g as usize);
            append_space(&mut body);
            append_decimal(&mut body, pixel.b as usize);
            append_space(&mut body);
            proof {
                let next = self.data@.take(k + 1);
                assert(next.drop_last() =~= self.data@.take(k as int));
                assert(next.last() == pixel);
                assert(body@ =~= pixels_text(self.data@.take(k as int)) + pixel_text(pixel));
            }
            k += 1;
        }
        assert(self.data@.take(self.data.len() as int) =~= self.data@);
        let mut text = String::new();
        text.append("P3\n# Created by elara-gfx\n");
        append_decimal(&mut text, self.width);
        append_space(&mut text);
        append_decimal(&mut text, self.height);
        text.append("\n255\n");
        text.append(body.as_str());
        assert(text@ =~= ppm_text(self.width as nat, self.height as nat, self.data@));
        text
    }

    /// Makes an image from a decoded frame of 8-bit samples. Grey samples
    /// become grey colours, and a frame without alpha gets alpha 1. A frame
    /// of palette indices, or one that does not hold exactly
    /// `width * height` pixels, is refused.
    pub fn from_frame(frame: Frame) -> (outcome: Result<PixelArray, ImageError>)
        ensures
            match outcome {
                Ok(image) => Self::frame_fits(frame@) && image.wf() && image.is_image_of(frame@),
                Err(ImageError::IndexedFrame) => frame.format == PixelFormat::Indexed,
                Err(ImageError::FrameSize) => frame.format != PixelFormat::Indexed
                    && !Self::frame_fits(frame@),
                Err(_) => false,
            },
    {
        if let PixelFormat::Indexed = frame.format {
            return Err(ImageError::IndexedFrame);
        }
        let samples = frame.format.samples();
        assert(frame.width * frame.height <= 0xffff_ffff * 0xffff_ffff) by (nonlinear_arith)
            requires
                frame.width <= 0xffff_ffff,
                frame.height <= 0xffff_ffff,
        ;
        let pixels: u128 = (frame.width as u128) * (frame.height as u128);
        assert(pixels * samples <= 0xffff_ffff * 0xffff_ffff * 4) by (nonlinear_arith)
            requires
                pixels <= 0xffff_ffff * 0xffff_ffff,
                samples <= 4,
        ;
        let wanted: u128 = pixels * (samples as u128);
        assert(wanted == frame.width * frame.height * frame.format.spec_samples()) by (nonlinear_arith)
            requires
                pixels == frame.width * frame.height,
                wanted == pixels * samples,
                samples == frame.format.spec_samples(),
        ;
        if frame.data.len() as u128 != wanted {
            return Err(ImageError::FrameSize);
        }
        let count = frame.data.len() / samples;
        assert(count == pixels) by (nonlinear_arith)
            requires
                frame.data.len() == pixels * samples,
                1 <= samples <= 4,
                count == frame.data.len() / samples,
        ;
        let mut data: Vec<RGBA> = Vec::new();
        let mut k: usize = 0;
        while k < count
            invariant
                k <= count,
                1 <= samples <= 4,
                samples == frame.format.spec_samples(),
                frame.format != PixelFormat::Indexed,
                frame.data@.len() == count * samples,
                data@.len() == k,
                forall|j: int| 0 <= j < k ==> #[trigger] data@[j] == frame_pixel(frame.format, frame.data@, j),
            decreases count - k,
        {
            let total = frame.data.len();
            assert(0 <= samples * k && samples * k + samples <= total) by (nonlinear_arith)
                requires
                    0 <= k < count,
                    1 <= samples,
                    total == count * samples,
            ;
            let at = samples * k;
            let pixel = match frame.format {
                PixelFormat::Rgb => RGBA {
                    r: frame.data[at],
                    g: frame.data[at + 1],
                    b: frame.data[at + 2],
                    a: 1,
                },
                PixelFormat::Rgba => RGBA {
                    r: frame.data[at],
                    g: frame.data[at + 1],
                    b: frame.data[at + 2],
                    a: frame.data[at + 3],
                },
                PixelFormat::GrayscaleAlpha => RGBA {
                    r: frame.data[at],
                    g: frame.data[at],
                    b: frame.data[at],
                    a: frame.data[at + 1],
                },
                _ => RGBA { r: frame.data[at], g: frame.data[at], b: frame.data[at], a: 1 },
            };
            data.push(pixel);
            k += 1;
        }
        Ok(PixelArray { width: frame.width as usize, height: frame.height as usize, data })
    }

    /// Makes an image from rows of red, green and blue bytes, three for
    /// each pixel; every pixel gets alpha 1. Data that does not hold
    /// exactly `width * height` pixels is refused.
    pub fn from_rgb(width: u16, height: u16, data: Vec<u8>) -> (outcome: Result<PixelArray, ImageError>)
        ensures
            match outcome {
                Ok(image) => data@.len() == 3 * (width * height) && image.wf() && image.is_image_of(
                    FrameView { width: width as u32, height: height as u32, format: PixelFormat::Rgb, data: data@ },
                ),
                Err(ImageError::FrameSize) => data@.len() != 3 * (width * height),
                Err(_) => false,
            },
    {
        let frame = Frame { width: width as u32, height: height as u32, format: PixelFormat::Rgb, data };
        assert(frame.width * frame.height * 3 == 3 * (width * height)) by (nonlinear_arith)
            requires
                frame.width == width,
                frame.height == height,
        ;
        match Self::from_frame(frame) {
            Ok(image) => Ok(image),
            Err(_) => Err(ImageError::FrameSize),
        }
    }

    /// Makes an image from rows of red, green, blue and alpha bytes, four
    /// for each pixel. `None` where the buffer does not hold exactly
    /// `width * height` pixels.
    pub fn from_bytearray(buffer: Vec<u8>, width: usize, height: usize) -> (outcome: Option<PixelArray>)
        ensures
            match outcome {
                Some(image) => width <= u32::MAX && height <= u32::MAX && buffer@.len() == 4 * (width
                    * height) && image.wf() && image.is_image_of(
                    FrameView { width: width as u32, height: height as u32, format: PixelFormat::Rgba, data: buffer@ },
                ),
                None => width > u32::MAX || height > u32::MAX || buffer@.len() != 4 * (width * height),
            },
    {
        if width > u32::MAX as usize || height > u32::MAX as usize {
            return None;
        }
        let frame = Frame { width: width as u32, height: height as u32, format: PixelFormat::Rgba, data: buffer };
        assert(frame.width * frame.height * 4 == 4 * (width * height)) by (nonlinear_arith)
            requires
                frame.width == width,
                frame.height == height,
        ;
        match Self::from_frame(frame) {
            Ok(image) => Some(image),
            Err(_) => None,
        }
    }

    /// Reads a PNG file held in memory. The image is the first frame of the
    /// file, its samples brought to 8 bits.
    pub fn load_png(bytes: &[u8]) -> (outcome: Result<PixelArray, ImageError>)
        ensures
            match outcome {
                Ok(image) => png_first_frame(bytes@) is Some && Self::frame_fits(
                    png_first_frame(bytes@)->0,
                ) && image.wf() && image.is_image_of(png_first_frame(bytes@)->0),
                Err(ImageError::PNGError(_)) => png_first_frame(bytes@) is None,
                Err(ImageError::IndexedFrame) => png_first_frame(bytes@) is Some && png_first_frame(
                    bytes@,
                )->0.format == PixelFormat::Indexed,
                Err(ImageError::FrameSize) => png_first_frame(bytes@) is Some && png_first_frame(
                    bytes@,
                )->0.format != PixelFormat::Indexed && !Self::frame_fits(png_first_frame(bytes@)->0),
                Err(ImageError::JPEGError(_)) => false,
            },
    {
        match decode_png(bytes) {
            Ok(frame) => Self::from_frame(frame),
            Err(refusal) => Err(ImageError::PNGError(refusal)),
        }
    }

    /// Reads a JPEG file held in memory, taking its samples as rows of red,
    /// green and blue. Whatever the decoder hands back, an image that comes
    /// out is filled, opaque, and no larger than a JPEG file can be.
    pub fn load_jpg(bytes: &[u8]) -> (outcome: Result<PixelArray, ImageError>)
        ensures
            match outcome {
                Ok(image) => image.wf() && image.is_opaque() && image.width <= u16::MAX
                    && image.height <= u16::MAX,
                Err(ImageError::JPEGError(_)) => true,
                Err(ImageError::FrameSize) => true,
                Err(ImageError::PNGError(_)) => false,
                Err(ImageError::IndexedFrame) => false,
            },
    {
        match decode_jpeg(bytes) {
            Ok((data, size)) => Self::from_decoded_rgb(data, size),
            Err(refusal) => Err(ImageError::JPEGError(refusal)),
        }
    }

    /// Every pixel has alpha 1.
    pub open spec fn is_opaque(&self) -> bool {
        forall|k: int| 0 <= k < self.data@.len() ==> (#[trigger] self.data@[k]).a == 1
    }

    /// Makes an image from what a decoder handed back: rows of red, green
    /// and blue bytes, and the size if the decoder knows one. Without a
    /// size there is no image; with one, the image is that of `from_rgb`.
    pub fn from_decoded_rgb(data: Vec<u8>, size: Option<(u16, u16)>) -> (outcome: Result<
        PixelArray,
        ImageError,
    >)
        ensures
            match size {
                Some((width, height)) => match outcome {
                    Ok(image) => data@.len() == 3 * (width * height) && image.wf() && image.is_opaque()
                        && image.is_image_of(
                        FrameView {
                            width: width as u32,
                            height: height as u32,
                            format: PixelFormat::Rgb,
                            data: data@,
                        },
                    ),
                    Err(ImageError::FrameSize) => data@.len() != 3 * (width * height),
                    Err(_) => false,
                },
                None => outcome matches Err(ImageError::FrameSize),
            },
    {
        match size {
            Some((width, height)) => Self::from_rgb(width, height, data),
            None => Err(ImageError::FrameSize),
        }
    }
}

/// Row `i`, column `j` of a rectangle lies within its `width * height`
/// places.
pub proof fn lemma_place_in_range(width: int, height: int, i: int, j: int)
    requires
        0 <= i < height,
        0 <= j < width,
    ensures
        0 <= width * i,
        0 <= width * i + j < width * height,
{
    assert(width * i + j < width * height) by (nonlinear_arith)
        requires
            0 <= i < height,
            0 <= j < width,
    {
        assert(width * (i + 1) <= width * height);
    }
    assert(0 <= width * i) by (nonlinear_arith)
        requires
            0 <= i,
            0 <= width,
    ;
}

proof fn lemma_rows_apart(width: int, i: int, j: int)
    requires
        0 <= i,
        0 <= j < width,
    ensures
        width * i + j < width * (i + 1),
        width * i >= 0,
{
    assert(width * (i + 1) == width * i + width) by (nonlinear_arith);
    assert(width * i >= 0) by (nonlinear_arith)
        requires
            0 <= i,
            0 <= width,
    ;
}

/// Turning an image upside down twice gives the image back.
pub proof fn lemma_flip_twice(image: PixelArray, once: PixelArray, twice: PixelArray)
    requires
        image.wf(),
        once.is_flip_of(&image),
        twice.is_flip_of(&once),
    ensures
        twice.data@ == image.data@,
        twice.width == image.width,
        twice.height == image.height,
{
    let width = image.width as int;
    let height = image.height as int;
    assert forall|k: int| 0 <= k < image.data@.len() implies twice.data@[k] == image.data@[k] by {
        assert(width > 0) by (nonlinear_arith)
            requires
                0 <= k < width * height,
                0 <= width,
        ;
        let i = k / width;
        let j = k % width;
        lemma_fundamental_div_mod(k, width);
        assert(0 <= i < height) by (nonlinear_arith)
            requires
                0 <= k < width * height,
                k == width * i + j,
                0 <= j < width,
        ;
        assert(twice.pixel(i, j) == once.pixel(height - 1 - i, j));
        assert(once.pixel(height - 1 - i, j) == image.pixel(height - 1 - (height - 1 - i), j));
    }
    assert(twice.data@ =~= image.data@);
}

/// An image made from rows of red, green, blue and alpha bytes holds those
/// bytes: taking its bytes gives the rows back.
pub proof fn lemma_rgba_bytes(image: PixelArray, frame: FrameView)
    requires
        frame.format == PixelFormat::Rgba,
        PixelArray::frame_fits(frame),
        image.is_image_of(frame),
    ensures
        bytes_of(image.data@) == frame.data,
{
    assert(frame.data.len() == 4 * image.data@.len()) by (nonlinear_arith)
        requires
            frame.data.len() == frame.width * frame.height * 4,
            image.data@.len() == frame.width * frame.height,
    ;
    lemma_rgba_prefix(image.data@, frame.data, image.data@.len() as int);
    assert(image.data@.take(image.data@.len() as int) =~= image.data@);
    assert(frame.data.take(4 * (image.data@.len() as int)) =~= frame.data);
}

proof fn lemma_rgba_prefix(pixels: Seq<RGBA>, data: Seq<u8>, count: int)
    requires
        0 <= count <= pixels.len(),
        data.len() == 4 * pixels.len(),
        forall|k: int|
            0 <= k < pixels.len() ==> #[trigger] pixels[k] == frame_pixel(PixelFormat::Rgba, data, k),
    ensures
        bytes_of(pixels.take(count)) == data.take(4 * count),
    decreases count,
{
    if count == 0 {
        assert(pixels.take(0) =~= Seq::<RGBA>::empty());
        assert(data.take(0) =~= Seq::<u8>::empty());
    } else {
        lemma_rgba_prefix(pixels, data, count - 1);
        let head = pixels.take(count);
        assert(head.drop_last() =~= pixels.take(count - 1));
        assert(head.last() == pixels[count - 1]);
        assert(data.take(4 * count) =~= data.take(4 * (count - 1)) + pixels[count - 1].channels());
    }
}

/// A run of pixels takes four bytes for each pixel.
pub proof fn lemma_bytes_len(pixels: Seq<RGBA>)
    ensures
        bytes_of(pixels).len() == 4 * pixels.len(),
    decreases pixels.len(),
{
    if pixels.len() > 0 {
        lemma_bytes_len(pixels.drop_last());
    }
}

} // verus!
