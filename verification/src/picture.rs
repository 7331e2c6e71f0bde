//! Pictures: reading covers, scaling them down, and writing them as JPEG.
use image::DynamicImage;
use image::Frames;
use vstd::prelude::*;
use vstd::string::*;
use crate::text::{decimal, joined3, number_text};

verus! {

// ---------------------------------------------------------------------------
// What the `image` crate does
// ---------------------------------------------------------------------------

/// A decoded picture of the `image` crate.
#[verifier::external_type_specification]
#[verifier::external_body]
pub struct ExPicture(DynamicImage);

/// The frames of an animation that are still to be read.
#[verifier::external_type_specification]
#[verifier::external_body]
pub struct ExFrames<'a>(Frames<'a>);

/// A frame of an animation, as the iterator over the frames gives it.
#[verifier::external_type_specification]
#[verifier::external_body]
pub struct ExFrame(image::Frame);

/// Why a picture cannot be read or written.
#[verifier::external_type_specification]
#[verifier::external_body]
pub struct ExImageError(image::ImageError);

/// What a picture holds: its width, its height, and then its samples and how they are coded.
pub uninterp spec fn contents(picture: DynamicImage) -> Seq<int>;

/// A frame as it is read: what its picture holds, and how long it stays up, in milliseconds
/// as a fraction; or why it could not be read.
pub type FrameView = Result<(Seq<int>, u32, u32), Seq<char>>;

/// What the frames that are still to be read hold, up to the first that cannot be read.
pub uninterp spec fn frames_left(frames: Frames<'_>) -> Seq<FrameView>;

/// Whether `guess_format` takes bytes for a GIF; or why it cannot tell what they are.
pub uninterp spec fn guessed_gif(bytes: Seq<u8>) -> Result<bool, Seq<char>>;

/// What `load_from_memory` reads.
pub uninterp spec fn still(bytes: Seq<u8>) -> Result<Seq<int>, Seq<char>>;

/// What `load_from_memory_with_format` reads from a JPEG.
pub uninterp spec fn still_jpeg(bytes: Seq<u8>) -> Result<Seq<int>, Seq<char>>;

/// What `GifDecoder` reads: the frames of a GIF, up to the first that cannot be read.
pub uninterp spec fn gif(bytes: Seq<u8>) -> Result<Seq<FrameView>, Seq<char>>;

/// What `resize_exact` makes of a picture with the triangle filter.
pub uninterp spec fn resized(picture: Seq<int>, width: u32, height: u32) -> Seq<int>;

/// The samples that `to_rgba8` makes of a picture.
pub uninterp spec fn rgba_of(picture: Seq<int>) -> Seq<u8>;

/// What `JpegEncoder` writes for samples of three colours.
pub uninterp spec fn jpeg_of(rgb: Seq<u8>, width: u32, height: u32, quality: u8) -> Result<
    Seq<u8>,
    Seq<char>,
>;

pub open spec fn width_in(picture: Seq<int>) -> int {
    picture[0]
}

pub open spec fn height_in(picture: Seq<int>) -> int {
    picture[1]
}

/// The picture behind a result, as what it holds; an error as its words.
pub open spec fn picture_result(r: Result<DynamicImage, String>) -> Result<Seq<int>, Seq<char>> {
    match r {
        Ok(picture) => Ok(contents(picture)),
        Err(why) => Err(why@),
    }
}

/// `image::guess_format`: whether the bytes start as a GIF does, or why nothing is recognized.
#[verifier::external_body]
fn guess_gif(bytes: &[u8]) -> (r: Result<bool, String>)
    ensures
        match r {
            Ok(yes) => guessed_gif(bytes@) == Ok::<bool, Seq<char>>(yes),
            Err(why) => guessed_gif(bytes@) == Err::<bool, Seq<char>>(why@),
        },
{
    match image::guess_format(bytes) {
        Ok(image::ImageFormat::Gif) => Ok(true),
        Ok(_) => Ok(false),
        Err(error) => Err(error.to_string()),
    }
}

/// `image::load_from_memory`: the picture, or why it cannot be read.
#[verifier::external_body]
fn load_still(bytes: &[u8]) -> (r: Result<DynamicImage, String>)
    ensures
        picture_result(r) == still(bytes@),
{
    image::load_from_memory(bytes).map_err(|error| error.to_string())
}

/// `image::load_from_memory_with_format` for a JPEG: the picture, or why it cannot be read.
#[verifier::external_body]
fn load_jpeg(bytes: &[u8]) -> (r: Result<DynamicImage, String>)
    ensures
        picture_result(r) == still_jpeg(bytes@),
{
    image::load_from_memory_with_format(bytes, image::ImageFormat::Jpeg)
        .map_err(|error| error.to_string())
}

/// `GifDecoder::into_frames`: the frames, to be read one by one, or why there are none.
#[verifier::external_body]
fn open_gif(bytes: &[u8]) -> (r: Result<Frames<'_>, String>)
    ensures
        match r {
            Ok(frames) => gif(bytes@) == Ok::<Seq<FrameView>, Seq<char>>(frames_left(frames)),
            Err(why) => gif(bytes@) == Err::<Seq<FrameView>, Seq<char>>(why@),
        },
{
    match image::codecs::gif::GifDecoder::new(std::io::Cursor::new(bytes)) {
        Ok(decoder) => Ok(image::AnimationDecoder::into_frames(decoder)),
        Err(error) => Err(error.to_string()),
    }
}

/// `Frames::next`: the next frame, with how long it stays up; none behind the last.
#[verifier::external_body]
fn next_frame(frames: &mut Frames<'_>) -> (r: Option<Result<(DynamicImage, u32, u32), String>>)
    ensures
        match r {
            None => frames_left(*old(frames)).len() == 0,
            Some(Ok((picture, n, d))) => {
                &&& frames_left(*old(frames)).len() > 0
                &&& frames_left(*old(frames))[0] == Ok::<(Seq<int>, u32, u32), Seq<char>>(
                    (contents(picture), n, d),
                )
                &&& frames_left(*final(frames)) == frames_left(*old(frames)).skip(1)
            },
            Some(Err(why)) => {
                &&& frames_left(*old(frames)).len() > 0
                &&& frames_left(*old(frames))[0] == Err::<(Seq<int>, u32, u32), Seq<char>>(why@)
            },
        },
{
    Some(match frames.next()? {
        Ok(frame) => {
            let (n, d) = frame.delay().numer_denom_ms();
            Ok((DynamicImage::ImageRgba8(frame.into_buffer()), n, d))
        }
        Err(error) => Err(error.to_string()),
    })
}

/// `DynamicImage::width`.
#[verifier::external_body]
fn width_of(picture: &DynamicImage) -> (r: u32)
    ensures
        r == width_in(contents(*picture)),
{
    picture.width()
}

/// `DynamicImage::height`.
#[verifier::external_body]
fn height_of(picture: &DynamicImage) -> (r: u32)
    ensures
        r == height_in(contents(*picture)),
{
    picture.height()
}

/// `DynamicImage::resize_exact` with the triangle filter: a picture of exactly that size.
#[verifier::external_body]
fn resize(picture: &DynamicImage, width: u32, height: u32) -> (r: DynamicImage)
    requires
        0 < width <= width_in(contents(*picture)),
        0 < height,
        height <= height_in(contents(*picture)) || height == 1,
    ensures
        contents(r) == resized(contents(*picture), width, height),
        width_in(contents(r)) == width,
        height_in(contents(r)) == height,
{
    picture.resize_exact(width, height, image::imageops::FilterType::Triangle)
}

/// `DynamicImage::to_rgba8`: four bytes for each pixel, row by row.
#[verifier::external_body]
fn to_rgba(picture: &DynamicImage) -> (r: Vec<u8>)
    ensures
        r@ == rgba_of(contents(*picture)),
        r@.len() == width_in(contents(*picture)) * height_in(contents(*picture)) * 4,
{
    picture.to_rgba8().into_raw()
}

/// `JpegEncoder` at a quality: the file's bytes, or why there are none.
#[verifier::external_body]
fn write_jpeg(rgb: Vec<u8>, width: u32, height: u32, quality: u8) -> (r: Result<Vec<u8>, String>)
    requires
        rgb@.len() == width * height * 3,
        1 <= quality <= 100,
    ensures
        match r {
            Ok(bytes) => jpeg_of(rgb@, width, height, quality) == Ok::<Seq<u8>, Seq<char>>(bytes@),
            Err(why) => jpeg_of(rgb@, width, height, quality) == Err::<Seq<u8>, Seq<char>>(why@),
        },
{
    let picture = image::RgbImage::from_raw(width, height, rgb).ok_or_else(String::new)?;
    let mut out = Vec::new();
    match image::codecs::jpeg::JpegEncoder::new_with_quality(&mut out, quality)
        .encode_image(&picture)
    {
        Ok(()) => Ok(out),
        Err(error) => Err(error.to_string()),
    }
}

// ---------------------------------------------------------------------------
// Scaling and colours
// ---------------------------------------------------------------------------

pub const JPEG_QUALITY: u8 = 85;

/// A picture as four bytes for each pixel, row by row.
#[derive(Debug, PartialEq, Eq)]
pub struct Picture {
    pub width: u32,
    pub height: u32,
    pub rgba: Vec<u8>,
}

impl Picture {
    /// There are four bytes for each pixel.
    pub open spec fn wf(&self) -> bool {
        self.rgba@.len() == self.width * self.height * 4
    }

    /// The picture shows what a decoded one holds.
    pub open spec fn shows(&self, picture: Seq<int>) -> bool {
        &&& self.wf()
        &&& self.width == width_in(picture)
        &&& self.height == height_in(picture)
        &&& self.rgba@ == rgba_of(picture)
    }
}

/// The height that keeps the aspect at another width; never nothing.
pub open spec fn scaled_height(width: int, height: int, to: int) -> int {
    let h = height * to / width;
    if h < 1 {
        1
    } else {
        h
    }
}

/// A picture scaled down to a width, keeping the aspect; never scaled up.
pub open spec fn scaled(picture: Seq<int>, width: u32) -> Seq<int> {
    if width_in(picture) <= width {
        picture
    } else {
        resized(
            picture,
            width,
            scaled_height(width_in(picture), height_in(picture), width as int) as u32,
        )
    }
}

fn to_picture(image: &DynamicImage) -> (r: Picture)
    ensures
        r.shows(contents(*image)),
{
    Picture { width: width_of(image), height: height_of(image), rgba: to_rgba(image) }
}

/// Scales down to `width` wide, keeping the aspect; never scales up.
fn scale(image: &DynamicImage, width: u32) -> (r: Picture)
    requires
        width > 0,
    ensures
        r.shows(scaled(contents(*image), width)),
{
    let had = width_of(image);
    if had <= width {
        return to_picture(image);
    }
    let tall = height_of(image);
    assert(0 <= tall * width <= 0xffff_ffff * 0xffff_ffff) by (nonlinear_arith)
        requires
            0 <= tall <= 0xffff_ffff,
            0 <= width <= 0xffff_ffff,
    ;
    let product: u64 = tall as u64 * width as u64;
    let h: u64 = product / had as u64;
    proof {
        assert(h <= tall) by (nonlinear_arith)
            requires
                h == product / had as u64,
                product == tall as u64 * width as u64,
                0 < width < had,
        ;
    }
    let height: u32 = if h < 1 {
        1
    } else {
        h as u32
    };
    to_picture(&resize(image, width, height))
}

/// Behind transparent cover pixels, which JPEG cannot keep.
pub open spec fn backdrop(colour: int) -> int {
    if colour == 0 {
        0x14
    } else if colour == 1 {
        0x12
    } else {
        0x1a
    }
}

/// A sample laid over the page background.
pub open spec fn laid_over(sample: int, colour: int, alpha: int) -> int {
    (sample * alpha + backdrop(colour) * (255 - alpha)) / 255
}

/// A picture without transparency: each pixel over the page background.
pub open spec fn opaque(rgba: Seq<u8>) -> Seq<u8> {
    Seq::new(
        rgba.len() / 4 * 3,
        |i: int|
            laid_over(
                rgba[i / 3 * 4 + i % 3] as int,
                i % 3,
                rgba[i / 3 * 4 + 3] as int,
            ) as u8,
    )
}

fn blend(sample: u8, back: u8, alpha: u8) -> (r: u8)
    ensures
        r == (sample * alpha + back * (255 - alpha)) / 255,
{
    let s: u32 = sample as u32;
    let a: u32 = alpha as u32;
    let b: u32 = back as u32;
    let rest: u32 = 255 - a;
    assert(s * a <= 255 * a && b * rest <= 255 * rest) by (nonlinear_arith)
        requires
            0 <= s <= 255,
            0 <= b <= 255,
            0 <= a,
            0 <= rest,
    ;
    assert(s * a + b * rest <= 255 * 255);
    let over: u32 = s * a + b * rest;
    (over / 255) as u8
}

/// The samples of a picture laid over the page background.
pub fn flatten(rgba: &Vec<u8>) -> (r: Vec<u8>)
    ensures
        r@ == opaque(rgba@),
{
    let mut r: Vec<u8> = Vec::new();
    let pixels = rgba.len() / 4;
    let mut p: usize = 0;
    assert(r@ =~= opaque(rgba@).take(0));
    while p < pixels
        invariant
            pixels == rgba@.len() / 4,
            rgba@.len() <= usize::MAX,
            p <= pixels,
            r@ == opaque(rgba@).take(3 * p),
        decreases pixels - p,
    {
        let at = p * 4;
        let alpha = rgba[at + 3];
        r.push(blend(rgba[at], 0x14, alpha));
        r.push(blend(rgba[at + 1], 0x12, alpha));
        r.push(blend(rgba[at + 2], 0x1a, alpha));
        proof {
            let all = opaque(rgba@);
            assert((3 * p) / 3 == p && (3 * p) % 3 == 0);
            assert((3 * p + 1) / 3 == p && (3 * p + 1) % 3 == 1);
            assert((3 * p + 2) / 3 == p && (3 * p + 2) % 3 == 2);
            assert(r@ =~= all.take(3 * (p + 1)));
        }
        p += 1;
    }
    assert(opaque(rgba@).take(3 * p) =~= opaque(rgba@));
    r
}

/// JPEG bytes, with transparent pixels laid over the page background.
pub fn encode_jpeg(picture: &Picture) -> (r: Result<Vec<u8>, String>)
    requires
        picture.wf(),
    ensures
        match r {
            Ok(bytes) => jpeg_of(
                opaque(picture.rgba@),
                picture.width,
                picture.height,
                JPEG_QUALITY,
            ) == Ok::<Seq<u8>, Seq<char>>(bytes@),
            Err(why) => jpeg_of(
                opaque(picture.rgba@),
                picture.width,
                picture.height,
                JPEG_QUALITY,
            ) == Err::<Seq<u8>, Seq<char>>(why@),
        },
{
    let rgb = flatten(&picture.rgba);
    assert(picture.width * picture.height * 4 / 4 * 3 == picture.width * picture.height * 3)
        by (nonlinear_arith);
    write_jpeg(rgb, picture.width, picture.height, JPEG_QUALITY)
}

/// An opaque pixel keeps its colours; a transparent one takes the page background's.
pub proof fn pixels_are_laid_over_the_page(sample: int, colour: int)
    requires
        0 <= sample <= 255,
        0 <= colour < 3,
    ensures
        laid_over(sample, colour, 255) == sample,
        laid_over(sample, colour, 0) == backdrop(colour),
{
    assert((sample * 255) / 255 == sample) by (nonlinear_arith);
    assert((backdrop(colour) * 255) / 255 == backdrop(colour)) by (nonlinear_arith);
    assert(sample * 0 == 0 && backdrop(colour) * 0 == 0) by (nonlinear_arith);
}

/// A picture that is scaled down keeps its aspect to within a pixel, and is never enlarged.
pub proof fn scaling_keeps_the_aspect(width: int, height: int, to: int)
    requires
        0 < to < width,
        0 < height,
    ensures
        1 <= scaled_height(width, height, to) <= height,
        scaled_height(width, height, to) * width <= height * to || scaled_height(width, height, to)
            == 1,
        height * to < (scaled_height(width, height, to) + 1) * width,
{
    let h = height * to / width;
    assert(h * width <= height * to < (h + 1) * width && h <= height) by (nonlinear_arith)
        requires
            h == height * to / width,
            0 < to < width,
            0 < height,
    ;
    if h < 1 {
        assert((1 + 1) * width > (h + 1) * width) by (nonlinear_arith)
            requires
                h < 1,
                width > 0,
        ;
    }
}

// ---------------------------------------------------------------------------
// Stills
// ---------------------------------------------------------------------------

/// The first frame of any supported format. Animated covers can run to
/// megabytes and hundreds of frames; one frame is all a still needs.
pub open spec fn first_of(bytes: Seq<u8>) -> Result<Seq<int>, Seq<char>> {
    match guessed_gif(bytes) {
        Err(why) => Err(why),
        Ok(false) => still(bytes),
        Ok(true) => match gif(bytes) {
            Err(why) => Err(why),
            Ok(frames) => if frames.len() == 0 {
                Err("gif has no frames"@)
            } else {
                match frames[0] {
                    Ok((picture, _, _)) => Ok(picture),
                    Err(why) => Err(why),
                }
            },
        },
    }
}

fn first_frame(bytes: &[u8]) -> (r: Result<DynamicImage, String>)
    ensures
        picture_result(r) == first_of(bytes@),
{
    match guess_gif(bytes) {
        Err(why) => Err(why),
        Ok(is_gif) => {
            if !is_gif {
                return load_still(bytes);
            }
            match open_gif(bytes) {
                Err(why) => Err(why),
                Ok(frames) => {
                    let mut frames = frames;
                    match next_frame(&mut frames) {
                        None => Err("gif has no frames".to_owned()),
                        Some(Ok((picture, _, _))) => Ok(picture),
                        Some(Err(why)) => Err(why),
                    }
                },
            }
        },
    }
}

/// A scaled copy of a cover as a file, for a width.
#[derive(Debug)]
pub struct VariantFile {
    pub width: u32,
    pub bytes: Vec<u8>,
}

/// What came of an original: the files to write, and the picture to draw.
#[derive(Debug)]
pub struct Variants {
    pub files: Vec<VariantFile>,
    pub picture: Result<Picture, String>,
    /// The original only earns its space if it can still animate.
    pub keeps_original: bool,
}

/// The file that a picture makes.
pub open spec fn file_of(picture: Seq<int>) -> Result<Seq<u8>, Seq<char>> {
    jpeg_of(
        opaque(rgba_of(picture)),
        width_in(picture) as u32,
        height_in(picture) as u32,
        JPEG_QUALITY,
    )
}

/// How many of the widths, from `from` on, can be written before one cannot.
pub open spec fn writable(picture: Seq<int>, widths: Seq<u32>, from: int) -> int
    decreases widths.len() - from,
{
    if from >= widths.len() || file_of(scaled(picture, widths[from])) is Err {
        from
    } else {
        writable(picture, widths, from + 1)
    }
}

/// The files hold the scaled copies of the first widths.
pub open spec fn holds_files(
    files: Seq<VariantFile>,
    picture: Seq<int>,
    widths: Seq<u32>,
    n: int,
) -> bool {
    &&& files.len() == n
    &&& forall|i: int|
        0 <= i < n ==> {
            &&& (#[trigger] files[i]).width == widths[i]
            &&& file_of(scaled(picture, widths[i])) == Ok::<Seq<u8>, Seq<char>>(files[i].bytes@)
        }
}

/// What is made of an original: a file for each width, up to the first that cannot be written,
/// and the picture at the width that was asked for, unless some file could not be made.
pub open spec fn makes_variants(
    bytes: Seq<u8>,
    widths: Seq<u32>,
    width: u32,
    animate: bool,
    r: Variants,
) -> bool {
    match first_of(bytes) {
        Err(why) => {
            &&& r.files@.len() == 0
            &&& (r.picture matches Err(words) && words@ == why)
            &&& r.keeps_original
        },
        Ok(first) => {
            let n = writable(first, widths, 0);
            &&& holds_files(r.files@, first, widths, n)
            &&& if n < widths.len() {
                &&& (r.picture matches Err(words) && file_of(scaled(first, widths[n])) == Err::<
                    Seq<u8>,
                    Seq<char>,
                >(words@))
                &&& r.keeps_original
            } else {
                &&& (r.picture matches Ok(picture) && picture.shows(scaled(first, width)))
                &&& r.keeps_original == (animate && guessed_gif(bytes) == Ok::<bool, Seq<char>>(
                    true,
                ))
            }
        },
    }
}

/// Makes a cover's copies of every width from its original, so the original is read once.
pub fn make_variants(bytes: &[u8], widths: &Vec<u32>, width: u32, animate: bool) -> (r: Variants)
    requires
        width > 0,
        forall|i: int| 0 <= i < widths@.len() ==> #[trigger] widths@[i] > 0,
    ensures
        makes_variants(bytes@, widths@, width, animate, r),
{
    let mut files: Vec<VariantFile> = Vec::new();
    let first = match first_frame(bytes) {
        Ok(first) => first,
        Err(why) => {
            return Variants { files, picture: Err(why), keeps_original: true };
        },
    };
    let mut wanted: Option<Picture> = None;
    let mut i: usize = 0;
    let ghost held = contents(first);
    while i < widths.len()
        invariant
            forall|i: int| 0 <= i < widths@.len() ==> #[trigger] widths@[i] > 0,
            0 <= i <= widths@.len(),
            held == contents(first),
            first_of(bytes@) == Ok::<Seq<int>, Seq<char>>(held),
            holds_files(files@, held, widths@, i as int),
            writable(held, widths@, 0) == writable(held, widths@, i as int),
            wanted matches Some(picture) ==> picture.shows(scaled(held, width)),
        decreases widths@.len() - i,
    {
        let w = widths[i];
        let picture = scale(&first, w);
        match encode_jpeg(&picture) {
            Ok(bytes) => {
                let ghost before = files@;
                files.push(VariantFile { width: w, bytes });
                assert forall|k: int| 0 <= k < i + 1 implies {
                    &&& (#[trigger] files@[k]).width == widths@[k]
                    &&& file_of(scaled(held, widths@[k])) == Ok::<Seq<u8>, Seq<char>>(
                        files@[k].bytes@,
                    )
                } by {
                    if k < i {
                        assert(files@[k] == before[k]);
                    }
                }
            },
            Err(why) => {
                return Variants { files, picture: Err(why), keeps_original: true };
            },
        }
        if w == width {
            wanted = Some(picture);
        }
        i += 1;
    }
    let is_gif = match guess_gif(bytes) {
        Ok(yes) => yes,
        Err(_) => false,
    };
    let picture = match wanted {
        Some(picture) => picture,
        None => scale(&first, width),
    };
    Variants { files, picture: Ok(picture), keeps_original: animate && is_gif }
}

/// Reads a picture that does not move, of any supported format.
pub fn read_still(bytes: &[u8]) -> (r: Result<Picture, String>)
    ensures
        match still(bytes@) {
            Ok(picture) => r matches Ok(made) && made.shows(picture),
            Err(why) => r matches Err(words) && words@ == why,
        },
{
    match load_still(bytes) {
        Ok(image) => Ok(to_picture(&image)),
        Err(why) => Err(why),
    }
}

/// Reads a cover's copy from its file.
pub fn read_variant(bytes: &[u8]) -> (r: Result<Picture, String>)
    ensures
        match still_jpeg(bytes@) {
            Ok(picture) => r matches Ok(made) && made.shows(picture),
            Err(why) => r matches Err(words) && words@ == why,
        },
{
    match load_jpeg(bytes) {
        Ok(image) => Ok(to_picture(&image)),
        Err(why) => Err(why),
    }
}

// ---------------------------------------------------------------------------
// Animations
// ---------------------------------------------------------------------------

/// Frames of an animated cover, with how long each stays up, in nanoseconds.
#[derive(Debug)]
pub struct Animation {
    pub frames: Vec<Picture>,
    pub delays: Vec<u64>,
    pub total: u128,
}

pub open spec fn sum(delays: Seq<u64>) -> int
    decreases delays.len(),
{
    if delays.len() == 0 {
        0
    } else {
        sum(delays.drop_last()) + delays.last()
    }
}

/// How long a frame stays up. Browsers treat very short delays as 100 ms, so do the same.
pub open spec fn delay_of(n: u32, d: u32) -> int {
    let whole = if d < 1 {
        1
    } else {
        d as int
    };
    if n < 20 * whole {
        100_000_000
    } else {
        (n * 2_000_000 + whole) / (2 * whole)
    }
}

/// No frame stays up longer than this.
const LONGEST: u64 = 5_000_000_000_000_000;

fn delay(n: u32, d: u32) -> (r: u64)
    ensures
        r == delay_of(n, d),
        r <= LONGEST,
{
    let whole: u64 = if d < 1 {
        1
    } else {
        d as u64
    };
    if (n as u64) < 20 * whole {
        100_000_000
    } else {
        let r = (n as u64 * 2_000_000 + whole) / (2 * whole);
        assert(r <= LONGEST) by (nonlinear_arith)
            requires
                r == (n as u64 * 2_000_000 + whole) / (2 * whole),
                n <= 0xffff_ffff,
                1 <= whole <= 0xffff_ffff,
        ;
        r
    }
}

impl Animation {
    /// As many delays as frames, at least one, and their sum.
    pub open spec fn wf(&self) -> bool {
        &&& self.frames@.len() == self.delays@.len()
        &&& self.frames@.len() > 0
        &&& self.total == sum(self.delays@)
    }

    /// The frame that shows after a time within one round, and how long it still does.
    pub open spec fn frame_from(&self, index: int, t: int) -> (int, int)
        decreases self.delays@.len() - index,
    {
        if index >= self.delays@.len() {
            (self.frames@.len() - 1, 0)
        } else if t < self.delays@[index] {
            (index, self.delays@[index] - t)
        } else {
            self.frame_from(index + 1, t - self.delays@[index])
        }
    }

    /// The time within one round of a playback that loops.
    pub open spec fn phase(&self, elapsed: u64) -> int {
        elapsed as int % (if self.total < 1 {
            1
        } else {
            self.total as int
        })
    }

    /// The frame showing `elapsed` into a looping playback, and how long
    /// until the next one.
    pub fn frame_at(&self, elapsed: u64) -> (r: (usize, u64))
        requires
            self.wf(),
        ensures
            (r.0 as int, r.1 as int) == self.frame_from(0, self.phase(elapsed)),
            r.0 < self.frames@.len(),
    {
        let round: u128 = if self.total < 1 {
            1
        } else {
            self.total
        };
        assert(elapsed as u128 % round <= elapsed) by (nonlinear_arith)
            requires
                round >= 1,
        ;
        let mut t: u64 = (elapsed as u128 % round) as u64;
        let mut index: usize = 0;
        while index < self.delays.len()
            invariant
                index <= self.delays@.len(),
                self.wf(),
                self.frame_from(index as int, t as int) == self.frame_from(
                    0,
                    self.phase(elapsed),
                ),
            decreases self.delays@.len() - index,
        {
            let delay = self.delays[index];
            if t < delay {
                return (index, delay - t);
            }
            t = t - delay;
            index += 1;
        }
        (self.frames.len() - 1, 0)
    }
}

proof fn lemma_sum_front(delays: Seq<u64>)
    requires
        delays.len() > 0,
    ensures
        sum(delays) == delays[0] + sum(delays.skip(1)),
        sum(delays) >= 0,
        sum(delays.skip(1)) >= 0,
    decreases delays.len(),
{
    let rest = delays.drop_last();
    if rest.len() > 0 {
        lemma_sum_front(rest);
        assert(delays.skip(1).drop_last() =~= rest.skip(1));
        assert(delays.skip(1).last() == delays.last());
    } else {
        assert(delays.skip(1) =~= Seq::empty());
        assert(rest =~= Seq::empty());
        assert(sum(rest) == 0);
    }
}

proof fn lemma_frame_in_round(animation: Animation, index: int, t: int)
    requires
        animation.wf(),
        0 <= index <= animation.delays@.len(),
        0 <= t < sum(animation.delays@.skip(index)),
    ensures
        ({
            let (frame, left) = animation.frame_from(index, t);
            &&& index <= frame < animation.frames@.len()
            &&& 0 < left <= animation.delays@[frame]
        }),
    decreases animation.delays@.len() - index,
{
    let rest = animation.delays@.skip(index);
    if index < animation.delays@.len() {
        lemma_sum_front(rest);
        assert(rest.skip(1) =~= animation.delays@.skip(index + 1));
        if t >= animation.delays@[index] {
            lemma_frame_in_round(animation, index + 1, t - animation.delays@[index]);
        }
    } else {
        assert(rest =~= Seq::empty());
    }
}

/// At any time of a playback that takes any time at all, some frame shows, and still does for
/// a while.
pub proof fn some_frame_always_shows(animation: Animation, elapsed: u64)
    requires
        animation.wf(),
        animation.total > 0,
    ensures
        ({
            let (frame, left) = animation.frame_from(0, animation.phase(elapsed));
            &&& 0 <= frame < animation.frames@.len()
            &&& 0 < left <= animation.delays@[frame]
        }),
{
    assert(animation.delays@.skip(0) =~= animation.delays@);
    lemma_frame_in_round(animation, 0, animation.phase(elapsed));
}

/// A playback loops: a whole round later the same frame shows.
pub proof fn playback_loops(animation: Animation, elapsed: u64)
    requires
        animation.wf(),
        animation.total > 0,
        elapsed + animation.total <= u64::MAX,
    ensures
        animation.phase((elapsed + animation.total) as u64) == animation.phase(elapsed),
{
    vstd::arithmetic::div_mod::lemma_mod_add_multiples_vanish(
        elapsed as int,
        animation.total as int,
    );
}

/// What the frames of a GIF are at a width: as pictures, and how long each stays up.
pub open spec fn pixels_in(picture: Seq<int>) -> int {
    width_in(picture) * height_in(picture)
}

/// How many bytes the first `n` frames take at a width.
pub open spec fn bytes_used(frames: Seq<FrameView>, width: u32, n: int) -> int
    decreases n,
{
    if n <= 0 {
        0
    } else {
        bytes_used(frames, width, n - 1) + pixels_in(scaled((frames[n - 1]->Ok_0).0, width)) * 4
    }
}

/// The first frame that cannot be taken, from `from` on: it could not be read, or with it the
/// frames take more than the budget. Their number if there is none.
pub open spec fn first_bad(frames: Seq<FrameView>, width: u32, budget: int, from: int) -> int
    decreases frames.len() - from,
{
    if from >= frames.len() || frames[from] is Err || bytes_used(frames, width, from + 1) > budget {
        from
    } else {
        first_bad(frames, width, budget, from + 1)
    }
}

/// The frames up to `n` are those of a GIF at a width.
pub open spec fn holds_frames(
    pictures: Seq<Picture>,
    delays: Seq<u64>,
    frames: Seq<FrameView>,
    width: u32,
    n: int,
) -> bool {
    &&& pictures.len() == n
    &&& delays.len() == n
    &&& forall|i: int|
        0 <= i < n ==> {
            let frame = frames[i]->Ok_0;
            &&& (#[trigger] pictures[i]).shows(scaled(frame.0, width))
            &&& delays[i] == delay_of(frame.1, frame.2)
        }
}

/// How long a picture that never changes stays up at a time.
pub const STILL_DELAY: u64 = 1_000_000_000;

/// What is made of the frames of a GIF, within a budget.
pub open spec fn animates(
    frames: Seq<FrameView>,
    width: u32,
    budget: int,
    r: Result<Animation, String>,
) -> bool {
    let bad = first_bad(frames, width, budget, 0);
    if bad < frames.len() {
        r matches Err(words) && words@ == (match frames[bad] {
            Err(why) => why,
            Ok(_) => "over the animation budget after "@ + decimal(bad as nat) + " frames"@,
        })
    } else if frames.len() == 0 {
        r matches Err(words) && words@ == "gif has no frames"@
    } else {
        &&& r matches Ok(animation)
        &&& animation.wf()
        &&& holds_frames(
            animation.frames@,
            animation.delays@,
            frames,
            width,
            frames.len() as int,
        )
    }
}

/// What is made of a file: every frame of a GIF within the budget; of other formats one frame
/// that never changes.
pub open spec fn decodes(
    bytes: Seq<u8>,
    width: u32,
    budget: int,
    r: Result<Animation, String>,
) -> bool {
    match guessed_gif(bytes) {
        Err(why) => r matches Err(words) && words@ == why,
        Ok(false) => match first_of(bytes) {
            Err(why) => r matches Err(words) && words@ == why,
            Ok(picture) => {
                &&& r matches Ok(animation)
                &&& animation.wf()
                &&& animation.frames@.len() == 1
                &&& animation.frames@[0].shows(scaled(picture, width))
                &&& animation.delays@ == seq![STILL_DELAY]
            },
        },
        Ok(true) => match gif(bytes) {
            Err(why) => r matches Err(words) && words@ == why,
            Ok(frames) => animates(frames, width, budget, r),
        },
    }
}

/// Every frame of a GIF at thumb size, within the animation budget. Other
/// formats yield one frame that never changes.
pub fn decode_animation(bytes: &[u8], width: u32, budget: usize) -> (r: Result<Animation, String>)
    requires
        width > 0,
    ensures
        decodes(bytes@, width, budget as int, r),
{
    let is_gif = match guess_gif(bytes) {
        Ok(yes) => yes,
        Err(why) => {
            return Err(why);
        },
    };
    if !is_gif {
        let first = match first_frame(bytes) {
            Ok(first) => first,
            Err(why) => {
                return Err(why);
            },
        };
        let mut frames: Vec<Picture> = Vec::new();
        frames.push(scale(&first, width));
        let mut delays: Vec<u64> = Vec::new();
        delays.push(STILL_DELAY);
        proof {
            assert(delays@ =~= seq![STILL_DELAY]);
            assert(delays@.drop_last() =~= Seq::empty());
            assert(sum(delays@.drop_last()) == 0);
            assert(sum(delays@) == STILL_DELAY);
        }
        return Ok(Animation { frames, delays, total: STILL_DELAY as u128 });
    }
    match open_gif(bytes) {
        Err(why) => Err(why),
        Ok(frames) => take_frames(frames, width, budget),
    }
}

fn take_frames(frames: Frames<'_>, width: u32, budget: usize) -> (r: Result<Animation, String>)
    requires
        width > 0,
    ensures
        animates(frames_left(frames), width, budget as int, r),
{
    let ghost all = frames_left(frames);
    let mut rest = frames;
    let mut pictures: Vec<Picture> = Vec::new();
    let mut delays: Vec<u64> = Vec::new();
    let mut total: u128 = 0;
    let mut used: usize = 0;
    let ghost mut n: int = 0;
    assert(all.skip(0) =~= all);
    loop
        invariant_except_break
            frames_left(rest) == all.skip(n),
        invariant
            width > 0,
            0 <= n <= all.len(),
            all == frames_left(frames),
            holds_frames(pictures@, delays@, all, width, n),
            total == sum(delays@),
            total <= n * LONGEST,
            n == pictures@.len(),
            used == bytes_used(all, width, n),
            used <= budget,
            first_bad(all, width, budget as int, n) == first_bad(all, width, budget as int, 0),
        ensures
            n == all.len(),
        decreases all.len() - n,
    {
        match next_frame(&mut rest) {
            None => {
                break;
            },
            Some(Err(why)) => {
                assert(all.skip(n)[0] == all[n]);
                return Err(why);
            },
            Some(Ok((image, num, den))) => {
                assert(all.skip(n)[0] == all[n]);
                assert(all.skip(n).skip(1) =~= all.skip(n + 1));
                let count = pictures.len();
                let wait = delay(num, den);
                let picture = scale(&image, width);
                let size = picture.rgba.len();
                proof {
                    let p = scaled((all[n]->Ok_0).0, width);
                    assert(size == width_in(p) * height_in(p) * 4);
                    assert(bytes_used(all, width, n + 1) == used + size);
                }
                if size > budget - used {
                    let words = joined3(
                        "over the animation budget after ",
                        number_text(count as u64).as_str(),
                        " frames",
                    );
                    return Err(words);
                }
                used = used + size;
                let ghost before = pictures@;
                let ghost waits = delays@;
                assert((n + 1) * LONGEST == n * LONGEST + LONGEST && n * LONGEST <= 0xffff_ffff_ffff_ffff * LONGEST)
                    by (nonlinear_arith)
                    requires
                        0 <= n == count,
                ;
                pictures.push(picture);
                delays.push(wait);
                total = total + wait as u128;
                proof {
                    assert(delays@.drop_last() =~= waits);
                    assert forall|i: int| 0 <= i < n + 1 implies {
                        let frame = all[i]->Ok_0;
                        &&& (#[trigger] pictures@[i]).shows(scaled(frame.0, width))
                        &&& delays@[i] == delay_of(frame.1, frame.2)
                    } by {
                        if i < n {
                            assert(pictures@[i] == before[i] && delays@[i] == waits[i]);
                        }
                    }
                    n = n + 1;
                }
            },
        }
    }
    if pictures.len() == 0 {
        return Err("gif has no frames".to_owned());
    }
    Ok(Animation { frames: pictures, delays, total })
}

// ---------------------------------------------------------------------------
// What holds of pictures as a whole
// ---------------------------------------------------------------------------

/// A picture that is no wider than it may be stays as it is; a wider one is brought down to that
/// width and to the height that keeps its shape.
pub proof fn only_wide_pictures_are_scaled(picture: Seq<int>, width: u32)
    requires
        width > 0,
        0 < width_in(picture) <= u32::MAX,
        0 < height_in(picture) <= u32::MAX,
    ensures
        width_in(picture) <= width ==> scaled(picture, width) == picture,
        width_in(picture) > width ==> exists|height: u32|
            {
                &&& scaled(picture, width) == #[trigger] resized(picture, width, height)
                &&& height >= 1
                &&& height as int * width_in(picture) <= height_in(picture) * width || height == 1
                &&& height_in(picture) * width < (height + 1) * width_in(picture)
            },
{
    if width_in(picture) > width {
        scaling_keeps_the_aspect(width_in(picture), height_in(picture), width as int);
        let h = scaled_height(width_in(picture), height_in(picture), width as int) as u32;
        assert(scaled(picture, width) == resized(picture, width, h));
    }
}

/// Without its transparency a picture has three samples for each four it had; an opaque pixel
/// keeps its colour, and a clear one takes that of the page.
pub proof fn clear_pixels_take_the_colour_of_the_page(rgba: Seq<u8>, i: int)
    requires
        0 <= i,
        4 * i + 3 < rgba.len(),
    ensures
        opaque(rgba).len() == rgba.len() / 4 * 3,
        rgba[4 * i + 3] == 255 ==> opaque(rgba)[3 * i] == rgba[4 * i] && opaque(rgba)[3 * i + 1]
            == rgba[4 * i + 1] && opaque(rgba)[3 * i + 2] == rgba[4 * i + 2],
        rgba[4 * i + 3] == 0 ==> opaque(rgba)[3 * i] == 0x14 && opaque(rgba)[3 * i + 1] == 0x12
            && opaque(rgba)[3 * i + 2] == 0x1a,
{
    assert((3 * i) / 3 == i && (3 * i) % 3 == 0);
    assert((3 * i + 1) / 3 == i && (3 * i + 1) % 3 == 1);
    assert((3 * i + 2) / 3 == i && (3 * i + 2) % 3 == 2);
    assert(rgba.len() / 4 >= i + 1);
    pixels_are_laid_over_the_page(rgba[4 * i] as int, 0);
    pixels_are_laid_over_the_page(rgba[4 * i + 1] as int, 1);
    pixels_are_laid_over_the_page(rgba[4 * i + 2] as int, 2);
    assert(opaque(rgba)[3 * i] == laid_over(rgba[4 * i] as int, 0, rgba[4 * i + 3] as int) as u8);
    assert(opaque(rgba)[3 * i + 1] == laid_over(
        rgba[4 * i + 1] as int,
        1,
        rgba[4 * i + 3] as int,
    ) as u8);
    assert(opaque(rgba)[3 * i + 2] == laid_over(
        rgba[4 * i + 2] as int,
        2,
        rgba[4 * i + 3] as int,
    ) as u8);
}

/// A frame shows for as long as it says, to the nearest nanosecond; one that says less than a
/// fiftieth of a second shows for a tenth.
pub proof fn frames_show_as_long_as_they_say(n: u32, d: u32)
    requires
        d > 0,
    ensures
        n < 20 * d ==> delay_of(n, d) == 100_000_000,
        n >= 20 * d ==> -(d as int) <= 2 * (delay_of(n, d) * d - n * 1_000_000) <= d,
{
    if n >= 20 * d {
        let whole = d as int;
        let top = n as int * 2_000_000 + whole;
        let r = top / (2 * whole);
        assert(r * (2 * whole) <= top < (r + 1) * (2 * whole)) by (nonlinear_arith)
            requires
                r == top / (2 * whole),
                whole > 0,
        ;
        assert(2 * (r * whole) == r * (2 * whole)) by (nonlinear_arith);
        assert((r + 1) * (2 * whole) == r * (2 * whole) + 2 * whole) by (nonlinear_arith);
    }
}

/// The frame that shows is the one in whose time the playback is, and it shows until that time
/// is over.
pub proof fn the_frame_of_the_moment_shows(animation: Animation, i: int, t: int)
    requires
        animation.wf(),
        0 <= i < animation.delays@.len(),
        sum(animation.delays@.take(i)) <= t < sum(animation.delays@.take(i + 1)),
    ensures
        animation.frame_from(0, t) == (i, sum(animation.delays@.take(i + 1)) - t),
{
    assert(animation.delays@.take(0) =~= Seq::empty());
    lemma_frame_of(animation, 0, i, t);
}

proof fn lemma_frame_of(animation: Animation, from: int, i: int, t: int)
    requires
        0 <= from <= i < animation.delays@.len(),
        sum(animation.delays@.take(i)) <= t < sum(animation.delays@.take(i + 1)),
    ensures
        animation.frame_from(from, t - sum(animation.delays@.take(from))) == (
            i,
            sum(animation.delays@.take(i + 1)) - t,
        ),
    decreases i - from,
{
    let delays = animation.delays@;
    assert(delays.take(from + 1).drop_last() =~= delays.take(from));
    if from < i {
        lemma_sum_order(delays, from + 1, i);
        lemma_frame_of(animation, from + 1, i, t);
    }
}

proof fn lemma_sum_order(delays: Seq<u64>, a: int, b: int)
    requires
        0 <= a <= b <= delays.len(),
    ensures
        sum(delays.take(a)) <= sum(delays.take(b)),
    decreases b - a,
{
    if a < b {
        lemma_sum_order(delays, a, b - 1);
        assert(delays.take(b).drop_last() =~= delays.take(b - 1));
    }
}

/// An animation has all its frames, scaled and timed, or there is none: a frame that cannot be
/// read or that goes over the budget ends it, and so does a file without frames.
pub proof fn animations_are_whole_or_none(
    frames: Seq<FrameView>,
    width: u32,
    budget: int,
    r: Result<Animation, String>,
    i: int,
)
    requires
        animates(frames, width, budget, r),
    ensures
        frames.len() == 0 ==> r is Err,
        0 <= i < frames.len() && frames[i] is Err ==> r is Err,
        r matches Ok(animation) ==> animation.frames@.len() == frames.len() && (0 <= i < frames.len()
            ==> animation.frames@[i].shows(scaled((frames[i]->Ok_0).0, width))
            && animation.delays@[i] == delay_of((frames[i]->Ok_0).1, (frames[i]->Ok_0).2)),
        r is Ok ==> bytes_used(frames, width, frames.len() as int) <= budget,
        (forall|k: int| 0 <= k < frames.len() ==> (#[trigger] frames[k]) is Ok) && (forall|k: int|
            0 < k <= frames.len() ==> #[trigger] bytes_used(frames, width, k) <= budget)
            && frames.len() > 0 ==> r is Ok,
{
    lemma_first_bad(frames, width, budget, 0);
    let bad = first_bad(frames, width, budget, 0);
    if bad < frames.len() {
        assert(r is Err);
        if frames[bad] is Ok {
            assert(bytes_used(frames, width, bad + 1) > budget);
        }
    } else {
        if 0 <= i < frames.len() {
            assert(frames[i] is Ok);
        }
        if let Ok(animation) = r {
            if 0 <= i < frames.len() {
                assert(animation.frames@[i].shows(scaled((frames[i]->Ok_0).0, width)));
            }
        }
    }
}

proof fn lemma_first_bad(frames: Seq<FrameView>, width: u32, budget: int, from: int)
    requires
        0 <= from <= frames.len(),
    ensures
        from <= first_bad(frames, width, budget, from) <= frames.len(),
        forall|k: int|
            from <= k < first_bad(frames, width, budget, from) ==> (#[trigger] frames[k]) is Ok,
        first_bad(frames, width, budget, from) < frames.len() ==> frames[first_bad(
            frames,
            width,
            budget,
            from,
        )] is Err || bytes_used(frames, width, first_bad(frames, width, budget, from) + 1) > budget,
        first_bad(frames, width, budget, from) == frames.len() && from < frames.len() ==> bytes_used(
            frames,
            width,
            frames.len() as int,
        ) <= budget,
    decreases frames.len() - from,
{
    if from < frames.len() && !(frames[from] is Err) && bytes_used(frames, width, from + 1)
        <= budget {
        lemma_first_bad(frames, width, budget, from + 1);
    }
}

/// Of a cover that can be read and written each width gets its file; its original is kept only
/// to play it, or because something went wrong.
pub proof fn covers_get_a_file_for_each_width(
    bytes: Seq<u8>,
    widths: Seq<u32>,
    width: u32,
    animate: bool,
    r: Variants,
)
    requires
        makes_variants(bytes, widths, width, animate, r),
    ensures
        r.picture is Ok ==> r.files@.len() == widths.len() && forall|i: int|
            0 <= i < widths.len() ==> (#[trigger] r.files@[i]).width == widths[i],
        r.picture is Err ==> r.keeps_original,
        r.picture is Ok ==> (r.keeps_original <==> animate && guessed_gif(bytes) == Ok::<
            bool,
            Seq<char>,
        >(true)),
        first_of(bytes) is Err ==> r.picture is Err && r.files@.len() == 0,
        r.picture matches Ok(picture) ==> (first_of(bytes) matches Ok(first) && picture.shows(
            scaled(first, width),
        )),
{
    if let Ok(first) = first_of(bytes) {
        lemma_writable(first, widths, 0);
    }
}

proof fn lemma_writable(picture: Seq<int>, widths: Seq<u32>, from: int)
    requires
        0 <= from <= widths.len(),
    ensures
        from <= writable(picture, widths, from) <= widths.len(),
    decreases widths.len() - from,
{
    if from < widths.len() && !(file_of(scaled(picture, widths[from])) is Err) {
        lemma_writable(picture, widths, from + 1);
    }
}

/// The first picture of a file is that of a still, or the first frame of a GIF.
pub proof fn first_pictures_are_first_frames(bytes: Seq<u8>, picture: Seq<int>)
    ensures
        guessed_gif(bytes) == Ok::<bool, Seq<char>>(false) ==> first_of(bytes) == still(bytes),
        guessed_gif(bytes) == Ok::<bool, Seq<char>>(true) && (gif(bytes) matches Ok(frames)
            && frames.len() > 0 && (frames[0] matches Ok(frame) && frame.0 == picture)) ==> first_of(
            bytes,
        ) == Ok::<Seq<int>, Seq<char>>(picture),
        guessed_gif(bytes) == Ok::<bool, Seq<char>>(true) && (gif(bytes) matches Ok(frames)
            && frames.len() == 0) ==> first_of(bytes) is Err,
        guessed_gif(bytes) is Err ==> first_of(bytes) is Err,
{
}

} // verus!
