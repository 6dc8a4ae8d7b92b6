//! The icon of the server's window.

use vstd::prelude::*;

verus! {

/// An icon: its size, and four bytes for each of its pixels.
#[derive(Debug, Clone, PartialEq, Eq)]
pub struct Icon {
    pub rgba: Vec<u8>,
    pub width: u32,
    pub height: u32,
}

impl Icon {
    /// Whether there are bytes for every pixel.
    pub open spec fn is_complete(&self) -> bool {
        self.rgba@.len() >= self.width * self.height * 4
    }
}

/// Error of the `image` crate. Nothing is assumed of its contents.
#[verifier::external_type_specification]
#[verifier::external_body]
pub struct ExImageError(image::ImageError);

/// `image::load_from_memory`, converted by `DynamicImage::into_rgba8`: the
/// image in the bytes, with bytes for every pixel, or an error. Which formats
/// are decoded depends on what the process has registered, so it is not said
/// when there is an image and which pixels it has.
#[verifier::external_body]
fn load_rgba(bytes: &[u8]) -> (icon: Result<Icon, image::ImageError>)
    ensures
        icon matches Ok(icon) ==> icon.is_complete(),
{
    let image = image::load_from_memory(bytes)?.into_rgba8();
    let (width, height) = image.dimensions();
    Ok(Icon { rgba: image.into_raw(), width, height })
}

/// The icon to show for what decoding an image file has given: the image, or
/// none if it was not decoded.
pub fn icon_of(decoded: Result<Icon, image::ImageError>) -> (icon: Option<Icon>)
    ensures
        icon == match decoded {
            Ok(icon) => Some(icon),
            Err(_) => None,
        },
{
    match decoded {
        Ok(icon) => Some(icon),
        Err(_) => None,
    }
}

/// The icon in the bytes of an image file, if they can be decoded. Whether they
/// can is for the decoder to say; an icon that there is has bytes for every
/// pixel.
pub fn window_icon(bytes: &[u8]) -> (icon: Option<Icon>)
    ensures
        icon matches Some(icon) ==> icon.is_complete(),
{
    icon_of(load_rgba(bytes))
}

} // verus!
