//! The pixels of the tray's and the window's icon.

use crate::text;
use vstd::prelude::*;

verus! {

/// The pixels of an icon, four bytes each.
#[derive(Debug)]
pub struct IconPixels {
    pub width: u32,
    pub height: u32,
    pub rgba: Vec<u8>,
}

#[derive(Debug, Clone, Copy, PartialEq, Eq, Structural)]
pub enum IconError {
    TrayIcon,
    WindowIcon,
}

impl IconError {
    pub open spec fn text(self) -> Seq<char> {
        match self {
            IconError::TrayIcon => "decode tray icon asset"@,
            IconError::WindowIcon => "decode window icon asset"@,
        }
    }

    /// The error in words.
    pub fn message(&self) -> (r: String)
        ensures
            r@ == self.text(),
    {
        match *self {
            IconError::TrayIcon => text::owned("decode tray icon asset"),
            IconError::WindowIcon => text::owned("decode window icon asset"),
        }
    }
}

/// Why the `image` crate could not decode an image.
#[verifier::external_type_specification]
#[verifier::external_body]
pub struct ExImageError(image::ImageError);

/// The image that `image::load_from_memory_with_format` reads from the bytes of a
/// PNG file, as width, height and the bytes of `DynamicImage::into_rgba8`; nothing
/// where it returns an error.
pub uninterp spec fn png_pixels(bytes: Seq<u8>) -> Option<(u32, u32, Seq<u8>)>;

/// Decodes a PNG file by `image::load_from_memory_with_format`, and turns what it
/// returns into four bytes a pixel by `DynamicImage::into_rgba8`. Claimed: the
/// outcome depends on the bytes alone, and there are four bytes for each pixel.
#[verifier::external_body]
fn decode_png(bytes: &[u8]) -> (r: Result<IconPixels, image::ImageError>)
    ensures
        match r {
            Ok(pixels) => {
                &&& png_pixels(bytes@) == Some((pixels.width, pixels.height, pixels.rgba@))
                &&& pixels.rgba@.len() == 4 * pixels.width * pixels.height
            },
            Err(_) => png_pixels(bytes@) is None,
        },
{
    let image = image::load_from_memory_with_format(bytes, image::ImageFormat::Png)?.into_rgba8();
    let (width, height) = image.dimensions();
    Ok(IconPixels { width, height, rgba: image.into_raw() })
}

/// Decodes an icon by `eframe::icon_data::from_png_bytes`. Nothing is claimed of the
/// outcome: the format is guessed from the bytes, and the `image` crate lets hooks
/// that a process has registered take part in the guess and in the decoding, so the
/// outcome does not depend on the bytes alone, nor the number of bytes of the icon on
/// its size.
#[verifier::external_body]
fn decode_icon_data(bytes: &[u8]) -> (r: Result<IconPixels, image::ImageError>) {
    let icon = eframe::icon_data::from_png_bytes(bytes)?;
    Ok(IconPixels { width: icon.width, height: icon.height, rgba: icon.rgba })
}

/// What a decoded icon comes to: its pixels, or the error `failure`.
pub open spec fn icon_outcome(
    decoded: Option<(u32, u32, Seq<u8>)>,
    failure: IconError,
    r: Result<IconPixels, IconError>,
) -> bool {
    match (decoded, r) {
        (Some((width, height, rgba)), Ok(pixels)) => pixels.width == width && pixels.height == height
            && pixels.rgba@ == rgba,
        (None, Err(error)) => error == failure,
        _ => false,
    }
}

/// The outcome of decoding an icon, with an error of this library.
pub fn icon_or_error(decoded: Option<IconPixels>, failure: IconError) -> (r: Result<
    IconPixels,
    IconError,
>)
    ensures
        r == (match decoded {
            Some(pixels) => Ok::<IconPixels, IconError>(pixels),
            None => Err::<IconPixels, IconError>(failure),
        }),
{
    match decoded {
        Some(pixels) => Ok(pixels),
        None => Err(failure),
    }
}

/// The pixels of the tray's icon. There are as many bytes as the tray asks for,
/// four for each pixel.
pub fn make_tray_icon(bytes: &[u8]) -> (r: Result<IconPixels, IconError>)
    ensures
        icon_outcome(png_pixels(bytes@), IconError::TrayIcon, r),
        r matches Ok(pixels) ==> pixels.rgba@.len() == 4 * pixels.width * pixels.height,
{
    let decoded = match decode_png(bytes) {
        Ok(pixels) => Some(pixels),
        Err(_) => None,
    };
    icon_or_error(decoded, IconError::TrayIcon)
}

/// The pixels of the window's icon, as they are decoded. Which pixels these are is
/// left open, since hooks of the process may take part in the decoding; a failure to
/// decode is always reported as the window icon's.
pub fn make_window_icon(bytes: &[u8]) -> (r: Result<IconPixels, IconError>)
    ensures
        r matches Err(error) ==> error == IconError::WindowIcon,
{
    let decoded = match decode_icon_data(bytes) {
        Ok(pixels) => Some(pixels),
        Err(_) => None,
    };
    icon_or_error(decoded, IconError::WindowIcon)
}

/// An icon comes to its pixels where it can be read, else to the error of its reading.
pub proof fn law_icon_is_its_pixels_or_the_error(
    decoded: Option<(u32, u32, Seq<u8>)>,
    failure: IconError,
    r: Result<IconPixels, IconError>,
)
    requires
        icon_outcome(decoded, failure, r),
    ensures
        r is Ok <==> decoded is Some,
        r matches Ok(pixels) ==> decoded == Some((pixels.width, pixels.height, pixels.rgba@)),
        r matches Err(error) ==> error == failure,
{
}

} // verus!
