//! Thumbnail generation.
//!
//! Still images are decoded, cropped to the centered square and resized to
//! the fixed edge in process; the crop geometry and the output dimensions are
//! proved here, while the pixel work itself is the image library's. Animated
//! sources go through an external conversion tool: this module builds the
//! tool's exact argument list and classifies its outcome; running the process
//! is the caller's concern.

use image::ImageDecoder;
use vstd::prelude::*;
use vstd::string::StringExecFns;

use crate::errors::WebsiteError;
use crate::text::str_eq;

verus! {

/// The fixed square edge of every thumbnail, in pixels.
pub const THUMB_SIZE: u32 = 350;

#[verifier::external_type_specification]
#[verifier::external_body]
pub struct ExDynamicImage(image::DynamicImage);

#[verifier::external_type_specification]
#[verifier::external_body]
pub struct ExImageError(image::ImageError);

/// The width and height of a decoded image; what the contracts of the image
/// wrappers below say about the pixel grid they carry through.
pub uninterp spec fn image_dims_of(img: image::DynamicImage) -> (nat, nat);

/// Whether the image library decodes these bytes (with the embedded
/// orientation applied); a pure function of the bytes.
pub uninterp spec fn decodable(b: Seq<u8>) -> bool;

/// The orientation-corrected image the library decodes from these bytes.
pub uninterp spec fn decoded_of(b: Seq<u8>) -> image::DynamicImage;

/// The cut-out of `img` at the given rectangle.
pub uninterp spec fn crop_of(img: image::DynamicImage, x: int, y: int, w: int, h: int) -> image::DynamicImage;

/// `img` resampled to exactly `w` by `h`.
pub uninterp spec fn resize_of(img: image::DynamicImage, w: int, h: int) -> image::DynamicImage;

/// Whether the image library encodes `img` in the given format.
pub uninterp spec fn encode_ok_of(img: image::DynamicImage, f: ThumbFormat) -> bool;

/// The bytes the image library encodes `img` to in the given format.
pub uninterp spec fn encoded_of(img: image::DynamicImage, f: ThumbFormat) -> Seq<u8>;

/// Relies on `image::ImageReader` over an in-memory cursor with
/// `with_guessed_format` and `into_decoder`, `ImageDecoder::orientation`,
/// `DynamicImage::from_decoder` and `DynamicImage::apply_orientation`:
/// decodes `bytes` and applies the embedded orientation, or reports the
/// image library's error. The whole chain is a pure computation on the
/// bytes, named by [`decodable`] and [`decoded_of`].
#[verifier::external_body]
fn decode_oriented(bytes: &Vec<u8>) -> (r: Result<image::DynamicImage, image::ImageError>)
    ensures
        (r is Ok) == decodable(bytes@),
        r matches Ok(img) ==> img == decoded_of(bytes@),
{
    let reader = image::ImageReader::new(std::io::Cursor::new(bytes.as_slice()))
        .with_guessed_format()
        .map_err(image::ImageError::IoError)?;
    let mut decoder = reader.into_decoder()?;
    let orientation = decoder.orientation()?;
    let mut img = image::DynamicImage::from_decoder(decoder)?;
    img.apply_orientation(orientation);
    Ok(img)
}

/// Relies on `DynamicImage::width` and `DynamicImage::height`.
#[verifier::external_body]
fn image_dims(img: &image::DynamicImage) -> (d: (u32, u32))
    ensures
        (d.0 as nat, d.1 as nat) == image_dims_of(*img),
{
    (img.width(), img.height())
}

/// Relies on `DynamicImage::crop_imm`: a rectangle that lies inside the
/// image is cut out with exactly the given dimensions (the library clamps
/// only rectangles that overhang).
#[verifier::external_body]
fn crop_image(img: &image::DynamicImage, x: u32, y: u32, w: u32, h: u32) -> (r:
    image::DynamicImage)
    requires
        x + w <= image_dims_of(*img).0,
        y + h <= image_dims_of(*img).1,
    ensures
        image_dims_of(r) == (w as nat, h as nat),
        r == crop_of(*img, x as int, y as int, w as int, h as int),
{
    img.crop_imm(x, y, w, h)
}

/// Relies on `DynamicImage::resize_exact` with the Lanczos filter: the
/// result has exactly the requested dimensions, whatever the source's.
#[verifier::external_body]
fn resize_image(img: &image::DynamicImage, w: u32, h: u32) -> (r: image::DynamicImage)
    ensures
        image_dims_of(r) == (w as nat, h as nat),
        r == resize_of(*img, w as int, h as int),
{
    img.resize_exact(w, h, image::imageops::FilterType::Lanczos3)
}

/// The still-image encoding a thumbnail is written in.
#[derive(Clone, Copy, Debug, PartialEq, Eq, Structural)]
pub enum ThumbFormat {
    Jpeg,
    WebP,
}

/// Relies on `DynamicImage::write_to` over an in-memory cursor: encodes the
/// image in the given format, or reports the image library's error. A pure
/// computation on the image and the format, named by [`encode_ok_of`] and
/// [`encoded_of`].
#[verifier::external_body]
fn encode_image(img: &image::DynamicImage, format: &ThumbFormat) -> (r: Result<
    Vec<u8>,
    image::ImageError,
>)
    ensures
        (r is Ok) == encode_ok_of(*img, *format),
        r matches Ok(v) ==> v@ == encoded_of(*img, *format),
{
    let f = match format {
        ThumbFormat::Jpeg => image::ImageFormat::Jpeg,
        ThumbFormat::WebP => image::ImageFormat::WebP,
    };
    let mut cursor = std::io::Cursor::new(Vec::new());
    img.write_to(&mut cursor, f)?;
    Ok(cursor.into_inner())
}

/// Relies on `ImageError`'s `Display` implementation for the error text.
#[verifier::external_body]
fn image_error_text(e: &image::ImageError) -> String {
    e.to_string()
}

/// The thumbnail keeps a web-optimized source format, and falls back to the
/// generic lossy still-image format for everything else.
pub open spec fn thumb_format_spec(e: Seq<char>) -> ThumbFormat {
    if e == "webp"@ {
        ThumbFormat::WebP
    } else {
        ThumbFormat::Jpeg
    }
}

pub fn thumb_format(extension: &str) -> (r: ThumbFormat)
    ensures
        r == thumb_format_spec(extension@),
{
    if str_eq(extension, "webp") {
        ThumbFormat::WebP
    } else {
        ThumbFormat::Jpeg
    }
}

/// The centered square crop of a `w` by `h` frame: offsets and edge, with
/// edge the smaller dimension and the leftover split evenly.
pub open spec fn center_square_spec(w: int, h: int) -> (int, int, int) {
    let edge: int = if w < h {
        w
    } else {
        h
    };
    ((w - edge) / 2, (h - edge) / 2, edge)
}

/// Compute the centered square crop rectangle `(x, y, edge)` of a frame.
pub fn center_square_geometry(w: u32, h: u32) -> (r: (u32, u32, u32))
    ensures
        (r.0 as int, r.1 as int, r.2 as int) == center_square_spec(w as int, h as int),
        r.2 == if w < h {
            w
        } else {
            h
        },
        r.0 + r.2 <= w,
        r.1 + r.2 <= h,
{
    let edge: u32 = if w < h {
        w
    } else {
        h
    };
    ((w - edge) / 2, (h - edge) / 2, edge)
}

/// The thumbnail of an image: its centered square crop, resampled to
/// `size`-by-`size`.
pub open spec fn square_thumb_spec(img: image::DynamicImage, size: u32) -> image::DynamicImage {
    let g = center_square_spec(image_dims_of(img).0 as int, image_dims_of(img).1 as int);
    resize_of(crop_of(img, g.0, g.1, g.2, g.2), size as int, size as int)
}

/// Crop the image to its centered square and resize that square to
/// `size`-by-`size`.
pub fn make_square_thumb(img: &image::DynamicImage, size: u32) -> (r: image::DynamicImage)
    ensures
        image_dims_of(r) == (size as nat, size as nat),
        r == square_thumb_spec(*img, size),
{
    let (w, h) = image_dims(img);
    let (x, y, edge) = center_square_geometry(w, h);
    let cropped = crop_image(img, x, y, edge, edge);
    resize_image(&cropped, size, size)
}

/// Produce the still-image thumbnail of a source: the centered square of
/// the decoded, orientation-corrected image, scaled to the fixed edge,
/// encoded in the format [`thumb_format_spec`] picks for the source's
/// extension. Succeeds exactly when the bytes decode and that thumbnail
/// encodes; any failure is an image error carrying the offending path.
pub fn static_thumb_bytes(bytes: &Vec<u8>, extension: &str, source_path: &str, thumb_path: &str)
    -> (r: Result<Vec<u8>, WebsiteError>)
    ensures
        (r is Ok) == (decodable(bytes@) && encode_ok_of(
            square_thumb_spec(decoded_of(bytes@), THUMB_SIZE),
            thumb_format_spec(extension@),
        )),
        r matches Ok(v) ==> v@ == encoded_of(
            square_thumb_spec(decoded_of(bytes@), THUMB_SIZE),
            thumb_format_spec(extension@),
        ),
        !decodable(bytes@) ==> (r matches Err(e) && e matches WebsiteError::Image(p, _)
            && p@ == source_path@),
        r matches Err(e) ==> (e matches WebsiteError::Image(p, _) && (p@ == source_path@ || p@
            == thumb_path@)),
{
    let img = match decode_oriented(bytes) {
        Ok(img) => img,
        Err(e) => {
            return Err(
                WebsiteError::Image(source_path.to_owned(), image_error_text(&e)),
            );
        },
    };
    let thumb = make_square_thumb(&img, THUMB_SIZE);
    let format = thumb_format(extension);
    match encode_image(&thumb, &format) {
        Ok(out) => Ok(out),
        Err(e) => Err(WebsiteError::Image(thumb_path.to_owned(), image_error_text(&e))),
    }
}

/// The conversion tool's fixed video filter: center-square crop, then scale
/// to the fixed thumbnail edge.
pub fn ffmpeg_filter() -> (r: String)
    ensures
        r@
            == "crop=min(iw\\,ih):min(iw\\,ih):(iw-min(iw\\,ih))/2:(ih-min(iw\\,ih))/2,scale=350:350"@,
{
    "crop=min(iw\\,ih):min(iw\\,ih):(iw-min(iw\\,ih))/2:(ih-min(iw\\,ih))/2,scale=350:350".to_owned()
}

/// The conversion tool's full argument list for one animated source: input,
/// two-second trim, the fixed crop-and-scale filter, the animated
/// still-image codec, endless loop, audio stripped, overwrite, output.
pub fn ffmpeg_args(source_path: &str, thumb_path: &str) -> (r: Vec<String>)
    ensures
        r@.len() == 13,
        r@[0]@ == "-i"@,
        r@[1]@ == source_path@,
        r@[2]@ == "-t"@,
        r@[3]@ == "2"@,
        r@[4]@ == "-vf"@,
        r@[5]@
            == "crop=min(iw\\,ih):min(iw\\,ih):(iw-min(iw\\,ih))/2:(ih-min(iw\\,ih))/2,scale=350:350"@,
        r@[6]@ == "-c:v"@,
        r@[7]@ == "libwebp_anim"@,
        r@[8]@ == "-loop"@,
        r@[9]@ == "0"@,
        r@[10]@ == "-an"@,
        r@[11]@ == "-y"@,
        r@[12]@ == thumb_path@,
{
    let mut r: Vec<String> = Vec::new();
    r.push("-i".to_owned());
    r.push(source_path.to_owned());
    r.push("-t".to_owned());
    r.push("2".to_owned());
    r.push("-vf".to_owned());
    r.push(ffmpeg_filter());
    r.push("-c:v".to_owned());
    r.push("libwebp_anim".to_owned());
    r.push("-loop".to_owned());
    r.push("0".to_owned());
    r.push("-an".to_owned());
    r.push("-y".to_owned());
    r.push(thumb_path.to_owned());
    r
}

/// How one run of the external conversion tool went, as the process layer
/// saw it.
#[derive(Debug)]
pub enum ToolOutcome {
    /// The tool is not on the system path; the rendered lookup error.
    NotFound(String),
    /// The process could not be spawned; the rendered cause.
    SpawnFailed(String),
    /// The process ran: whether it exited successfully, its rendered exit
    /// status, and its captured diagnostic stream.
    Exited(bool, String, String),
}

/// The diagnostic text for a run that exited with a failure status.
pub open spec fn ffmpeg_failure_text(status: Seq<char>, stderr: Seq<char>) -> Seq<char> {
    "ffmpeg exited with "@ + status + ": "@ + stderr
}

/// Turn a run of the conversion tool into the build's result: success when
/// the tool exited successfully, and one of the three failure modes — tool
/// absent, spawn failure, non-zero exit with captured diagnostics —
/// otherwise.
pub fn classify_ffmpeg_outcome(source_path: &str, outcome: &ToolOutcome) -> (r: Result<
    (),
    WebsiteError,
>)
    ensures
        match outcome {
            ToolOutcome::NotFound(msg) => r matches Err(e) && e matches WebsiteError::FfmpegNotFound(m)
                && m@ == msg@,
            ToolOutcome::SpawnFailed(msg) => r matches Err(e) && e matches WebsiteError::Ffmpeg(p, m)
                && p@ == source_path@ && m@ == msg@,
            ToolOutcome::Exited(success, status, stderr) => if *success {
                r is Ok
            } else {
                r matches Err(e) && e matches WebsiteError::Ffmpeg(p, m) && p@ == source_path@
                    && m@ == ffmpeg_failure_text(status@, stderr@)
            },
        },
{
    match outcome {
        ToolOutcome::NotFound(msg) => Err(WebsiteError::FfmpegNotFound(msg.clone())),
        ToolOutcome::SpawnFailed(msg) => Err(
            WebsiteError::Ffmpeg(source_path.to_owned(), msg.clone()),
        ),
        ToolOutcome::Exited(success, status, stderr) => {
            if *success {
                Ok(())
            } else {
                let mut m = String::new();
                m.append("ffmpeg exited with ");
                m.append(status.as_str());
                m.append(": ");
                m.append(stderr.as_str());
                proof {
                    assert(m@ =~= ffmpeg_failure_text(status@, stderr@));
                }
                Err(WebsiteError::Ffmpeg(source_path.to_owned(), m))
            }
        },
    }
}

} // verus!
