use vstd::prelude::*;
use image::GenericImageView;

verus! {

/// The width and height of the image that `bytes` encode in the format that
/// the extension of the file name `path` names, as the `image` crate decodes it;
/// `None` where the extension names no format or the bytes do not decode.
pub uninterp spec fn decoded_image_size(path: Seq<char>, bytes: Seq<u8>) -> Option<(u32, u32)>;

/// Decodes an image with the `image` crate: the format comes from the file
/// name's extension (`image::ImageFormat::from_path`), the image from
/// `image::io::Reader::with_format(..).decode()`, and its size from
/// `width()` and `height()`. The contract names the result and claims only
/// that it depends on the name and the bytes alone; which sizes come out is
/// left to the crate.
#[verifier::external_body]
pub(crate) fn decode_image_size(path: &str, bytes: &[u8]) -> (size: Option<(u32, u32)>)
    ensures
        size == decoded_image_size(path@, bytes@),
{
    let format = match image::ImageFormat::from_path(path) {
        Ok(format) => format,
        Err(_) => return None,
    };
    match image::io::Reader::with_format(std::io::Cursor::new(bytes), format).decode() {
        Ok(img) => Some((img.width(), img.height())),
        Err(_) => None,
    }
}

} // verus!
