//! Textures: decoding an image embedded in a `data:` URL into raw RGBA
//! pixels, and the table of loaded textures that a frame draws.
//!
//! The URL syntax and the image formats are the work of the `data-url` and
//! `image` crates. What the first makes of a text enters the proofs by name;
//! of what the second makes of the bytes nothing is assumed.

use vstd::prelude::*;

verus! {

/// `data_url::DataUrl`: a parsed URL, carried from parsing to decoding.
/// Nothing is known of its inside.
#[verifier::external_type_specification]
#[verifier::external_body]
pub struct ExDataUrl<'a>(data_url::DataUrl<'a>);

/// `data_url::DataUrlError`: why a text was refused. Only its presence is
/// used.
#[verifier::external_type_specification]
#[verifier::external_body]
pub struct ExDataUrlError(data_url::DataUrlError);

/// `data_url::forgiving_base64::InvalidBase64`: why a body was refused. Only
/// its presence is used.
#[verifier::external_type_specification]
#[verifier::external_body]
pub struct ExInvalidBase64(data_url::forgiving_base64::InvalidBase64);

/// `image::DynamicImage`: a decoded image, carried from decoding to the
/// conversion into RGBA. Nothing is known of its inside.
#[verifier::external_type_specification]
#[verifier::external_body]
pub struct ExDynamicImage(image::DynamicImage);

/// `image::ImageError`: why bytes were refused. Only its presence is used.
#[verifier::external_type_specification]
#[verifier::external_body]
pub struct ExImageError(image::ImageError);

/// What `data_url::DataUrl::process` makes of `text`: nothing where it
/// refuses the text, else what the body of the parsed URL decodes to.
pub uninterp spec fn parsed_data_url(text: Seq<char>) -> Option<Option<Seq<u8>>>;

/// The body that `data_url::DataUrl::decode_to_vec` yields for `url`; nothing
/// where its encoding is unsound.
pub uninterp spec fn decoded_body(url: data_url::DataUrl<'_>) -> Option<Seq<u8>>;

/// Calls `data_url::DataUrl::process`. Nothing is claimed of the syntax:
/// whether the text is accepted, and what the parsed URL will decode to, are
/// functions of the text alone.
#[verifier::external_body]
fn parse_data_url(input: &str) -> (parsed: Result<data_url::DataUrl<'_>, data_url::DataUrlError>)
    ensures
        match parsed {
            Ok(url) => parsed_data_url(input@) == Some(decoded_body(url)),
            Err(_) => parsed_data_url(input@).is_none(),
        },
{
    data_url::DataUrl::process(input)
}

/// Calls `data_url::DataUrl::decode_to_vec` and keeps the body, dropping the
/// fragment. Nothing is claimed of the encoding: the outcome is a function of
/// the URL alone.
#[verifier::external_body]
fn decode_body(url: &data_url::DataUrl<'_>) -> (body: Result<
    Vec<u8>,
    data_url::forgiving_base64::InvalidBase64,
>)
    ensures
        match body {
            Ok(bytes) => decoded_body(*url) == Some(bytes@),
            Err(_) => decoded_body(*url).is_none(),
        },
{
    url.decode_to_vec().map(|pair| pair.0)
}

/// Calls `image::load_from_memory`. Nothing is claimed of the outcome: which
/// formats are known, and how their bytes are read, can be changed while the
/// process runs by decoders registered with the `image` crate, so the same
/// bytes need not give the same image twice.
#[verifier::external_body]
fn load_image(encoded: &Vec<u8>) -> (loaded: Result<image::DynamicImage, image::ImageError>) {
    image::load_from_memory(encoded)
}

/// Calls `image::DynamicImage::to_rgba8` and takes the buffer apart into
/// width, height and raw bytes. The one claim is that the bytes suffice for
/// four per pixel, which the buffer type checks whenever one is made.
#[verifier::external_body]
fn rgba_bitmap(image: &image::DynamicImage) -> (bitmap: Bitmap)
    ensures
        bitmap.covers(),
{
    let buffer = image.to_rgba8();
    Bitmap { width: buffer.width(), height: buffer.height(), pixels: buffer.into_raw() }
}

/// An image as raw RGBA bytes, row by row.
pub struct Bitmap {
    pub width: u32,
    pub height: u32,
    pub pixels: Vec<u8>,
}

impl Bitmap {
    /// There are at least four bytes for each pixel.
    pub open spec fn covers(&self) -> bool {
        4 * self.width * self.height <= self.pixels@.len()
    }
}

/// Why a texture could not be decoded.
#[derive(Clone, Copy, Debug, PartialEq, Eq, Structural)]
pub enum TextureError {
    /// The text is not a `data:` URL.
    NotADataUrl,
    /// The body of the URL is not sound base64.
    BadBase64,
    /// The body is not an image in a known format.
    BadImage,
}

/// What a text gives the image decoder to read: the decoded body of the
/// `data:` URL. A text that is no `data:` URL, and a body that is not sound
/// base64, give it nothing, and have their own errors.
pub open spec fn image_bytes(text: Seq<char>) -> Result<Seq<u8>, TextureError> {
    match parsed_data_url(text) {
        None => Err(TextureError::NotADataUrl),
        Some(None) => Err(TextureError::BadBase64),
        Some(Some(body)) => Ok(body),
    }
}

/// The bytes embedded in the `data:` URL `img_data`: the body of the URL,
/// decoded.
pub fn data_url_body(img_data: &str) -> (body: Result<Vec<u8>, TextureError>)
    ensures
        match body {
            Ok(found) => image_bytes(img_data@) == Ok::<_, TextureError>(found@),
            Err(error) => image_bytes(img_data@) == Err::<Seq<u8>, _>(error),
        },
{
    let url = match parse_data_url(img_data) {
        Ok(url) => url,
        Err(_) => {
            return Err(TextureError::NotADataUrl);
        },
    };
    match decode_body(&url) {
        Ok(body) => Ok(body),
        Err(_) => Err(TextureError::BadBase64),
    }
}

/// Reads `encoded` as an image and converts it to RGBA. Whether the bytes
/// are an image is for the decoder to say: the only error is `BadImage`, and
/// a bitmap that comes back has four bytes for each pixel.
pub fn decode_image(encoded: &Vec<u8>) -> (decoded: Result<Bitmap, TextureError>)
    ensures
        match decoded {
            Ok(bitmap) => bitmap.covers(),
            Err(error) => error == TextureError::BadImage,
        },
{
    match load_image(encoded) {
        Ok(image) => Ok(rgba_bitmap(&image)),
        Err(_) => Err(TextureError::BadImage),
    }
}

/// Decodes the image embedded in the `data:` URL `img_data`. A text that
/// gives the image decoder nothing to read is refused with the error that
/// `image_bytes` names, and the decoder is not asked. For any other text the
/// decoder is given exactly `image_bytes` of it, and its verdict stands.
pub fn decode_texture(img_data: &str) -> (decoded: Result<Bitmap, TextureError>)
    ensures
        match image_bytes(img_data@) {
            Err(error) => decoded == Err::<Bitmap, _>(error),
            Ok(_) => match decoded {
                Ok(bitmap) => bitmap.covers(),
                Err(error) => error == TextureError::BadImage,
            },
        },
{
    match data_url_body(img_data) {
        Ok(body) => decode_image(&body),
        Err(error) => Err(error),
    }
}

/// One draw call: a texture of the table and where its top left corner goes.
#[derive(Clone, Copy, Debug, PartialEq, Eq, Structural)]
pub struct DrawCall {
    pub texture: usize,
    pub x: i32,
    pub y: i32,
}

/// The loaded textures, in loading order. A texture's index never changes.
pub struct Textures {
    pub bitmaps: Vec<Bitmap>,
}

impl Textures {
    /// An empty table.
    pub fn new() -> (table: Self)
        ensures
            table.bitmaps@.len() == 0,
    {
        Textures { bitmaps: Vec::new() }
    }

    /// Appends `bitmap` and returns its index.
    pub fn add(&mut self, bitmap: Bitmap) -> (index: usize)
        ensures
            index == old(self).bitmaps@.len(),
            final(self).bitmaps@ == old(self).bitmaps@.push(bitmap),
    {
        self.bitmaps.push(bitmap);
        self.bitmaps.len() - 1
    }

    /// Stores what a decoding attempt gave: a bitmap is appended and its
    /// index returned; an error is handed on and the table stays as it was.
    pub fn store(&mut self, decoded: Result<Bitmap, TextureError>) -> (index: Result<
        usize,
        TextureError,
    >)
        ensures
            match decoded {
                Ok(bitmap) => (index matches Ok(i) && i == old(self).bitmaps@.len())
                    && final(self).bitmaps@ == old(self).bitmaps@.push(bitmap),
                Err(error) => index == Err::<usize, TextureError>(error)
                    && final(self).bitmaps@ == old(self).bitmaps@,
            },
    {
        match decoded {
            Ok(bitmap) => Ok(self.add(bitmap)),
            Err(error) => Err(error),
        }
    }

    /// Decodes the image embedded in the `data:` URL `img_data` and appends
    /// it. The text is refused as `decode_texture` refuses it. Whenever an
    /// error comes back the table stays as it was; otherwise it has grown by
    /// the one bitmap, whose index is returned.
    pub fn load_texture(&mut self, img_data: &str) -> (index: Result<usize, TextureError>)
        ensures
            match image_bytes(img_data@) {
                Err(error) => index == Err::<usize, _>(error),
                Ok(_) => index is Ok || index == Err::<usize, _>(TextureError::BadImage),
            },
            match index {
                Ok(i) => i == old(self).bitmaps@.len() && final(self).bitmaps@.len() == i + 1
                    && final(self).bitmaps@.drop_last() == old(self).bitmaps@ && final(self).bitmaps@.last().covers(),
                Err(_) => final(self).bitmaps@ == old(self).bitmaps@,
            },
    {
        let decoded = decode_texture(img_data);
        let ghost outcome = decoded;
        let index = self.store(decoded);
        proof {
            if let Ok(bitmap) = outcome {
                assert(self.bitmaps@.drop_last() =~= old(self).bitmaps@);
                assert(self.bitmaps@.last() == bitmap);
            }
        }
        index
    }

    /// What a frame draws: every texture, in loading order, at the origin.
    pub fn draw_calls(&self) -> (calls: Vec<DrawCall>)
        ensures
            calls@.len() == self.bitmaps@.len(),
            forall|k: int|
                0 <= k < calls@.len() ==> #[trigger] calls@[k] == (DrawCall {
                    texture: k as usize,
                    x: 0,
                    y: 0,
                }),
    {
        let mut calls: Vec<DrawCall> = Vec::new();
        let mut k: usize = 0;
        while k < self.bitmaps.len()
            invariant
                k <= self.bitmaps.len(),
                calls@.len() == k,
                forall|n: int|
                    0 <= n < k ==> #[trigger] calls@[n] == (DrawCall {
                        texture: n as usize,
                        x: 0,
                        y: 0,
                    }),
            decreases self.bitmaps.len() - k,
        {
            calls.push(DrawCall { texture: k, x: 0, y: 0 });
            k += 1;
        }
        calls
    }
}

} // verus!
