use vstd::prelude::*;

use crate::canvas::{lemma_dims_product_fits, Canvas};
use crate::color::{from_rgba_bytes, lemma_rgba_seq_injective, lemma_rgba_seq_len, rgba_seq,
    to_rgba_bytes, Color};
use crate::error::ChartError;

verus! {

/// The PNG encoding of a `width` by `height` image whose interleaved
/// RGBA bytes are `data`. The byte stream itself is far too involved to
/// write out; the name pins down only that it is a function of the
/// dimensions and the pixel bytes alone.
pub uninterp spec fn png_bytes(width: u32, height: u32, data: Seq<u8>) -> Seq<u8>;

/// Relies on image::ImageBuffer::write_to with ImageFormat::Png (the
/// buffer built by image::RgbaImage::from_raw): the encoder is a pure
/// function of the dimensions and the RGBA bytes, named `png_bytes`,
/// and it succeeds on every buffer this contract admits — with nonzero
/// dimensions and a byte length of exactly 4 per pixel, none of the
/// encoder's error (or panic) conditions is reachable, and a write to
/// an in-memory cursor cannot fail.
#[verifier::external_body]
fn png_encode_rgba(width: u32, height: u32, data: &Vec<u8>) -> (r: Result<Vec<u8>, ()>)
    requires
        width > 0,
        height > 0,
        data@.len() == 4 * (width as int * height as int),
    ensures
        r is Ok,
        r matches Ok(b) ==> b@ == png_bytes(width, height, data@),
{
    let img = match image::RgbaImage::from_raw(width, height, data.clone()) {
        Some(i) => i,
        None => {
            return Err(());
        },
    };
    let mut cursor = std::io::Cursor::new(Vec::new());
    match img.write_to(&mut cursor, image::ImageFormat::Png) {
        Ok(()) => Ok(cursor.into_inner()),
        Err(_) => Err(()),
    }
}

/// What PNG losslessness means for a decoder result: whenever the
/// input bytes are the encoding of some RGBA image, the result is that
/// image's dimensions and bytes, exactly.
pub open spec fn decodes_every_encoding(bytes: Seq<u8>, r: Result<(u32, u32, Vec<u8>), ()>) -> bool {
    forall|w: u32, h: u32, d: Seq<u8>|
        w > 0 && h > 0 && d.len() == 4 * (w as int * h as int) && bytes == #[trigger] png_bytes(w, h, d)
            ==> (r matches Ok(t) && t.0 == w && t.1 == h && t.2@ == d)
}

/// Relies on image::ImageReader::decode with ImageFormat::Png, and on
/// PNG being lossless: decoding what `png_bytes` names recovers exactly
/// the dimensions and RGBA bytes that were encoded. The reader's
/// default allocation cap is lifted first (`no_limits`), so no
/// well-formed encoding is turned away for its size alone.
#[verifier::external_body]
fn png_decode_rgba(bytes: &Vec<u8>) -> (r: Result<(u32, u32, Vec<u8>), ()>)
    ensures
        decodes_every_encoding(bytes@, r),
{
    let mut reader = image::ImageReader::with_format(
        std::io::Cursor::new(bytes.as_slice()),
        image::ImageFormat::Png,
    );
    reader.no_limits();
    match reader.decode() {
        Ok(img) => {
            let rgba = img.into_rgba8();
            let w = rgba.width();
            let h = rgba.height();
            Ok((w, h, rgba.into_raw()))
        },
        Err(_) => Err(()),
    }
}

impl Canvas {
    /// PNG-encodes the current buffer: a pure function of the pixel
    /// contents, named `png_bytes` over the flattened RGBA bytes. On a
    /// well-formed canvas encoding always succeeds; `EncodingError`
    /// stands in the signature for the one failure the contract does
    /// not model, the encoder running out of memory.
    pub fn encode_png(&self) -> (r: Result<Vec<u8>, ChartError>)
        requires
            self.wf(),
        ensures
            r matches Ok(b) && b@ == png_bytes(self.spec_width(), self.spec_height(), rgba_seq(self.spec_pixels())),
    {
        proof {
            self.lemma_wf();
            lemma_rgba_seq_len(self.spec_pixels());
        }
        let bytes = to_rgba_bytes(self.raw_pixels());
        match png_encode_rgba(self.width(), self.height(), &bytes) {
            Ok(b) => Ok(b),
            Err(_) => Err(ChartError::EncodingError),
        }
    }
}

/// Whether a byte stream is the encoding of the pixel sequence `p`
/// under dimensions `w` by `h`.
pub open spec fn is_png_of(bytes: Seq<u8>, w: u32, h: u32, p: Seq<Color>) -> bool {
    w > 0 && h > 0 && p.len() == w as int * h as int && bytes == png_bytes(w, h, rgba_seq(p))
}

/// Decodes a PNG byte stream into a canvas. On the output of
/// `encode_png` this is exact: whenever the input is the encoding of
/// some pixel buffer, that buffer and its dimensions come back.
pub fn decode_png(bytes: &Vec<u8>) -> (r: Result<Canvas, ChartError>)
    ensures
        forall|w: u32, h: u32, p: Seq<Color>|
            #[trigger] is_png_of(bytes@, w, h, p) ==> (r matches Ok(c) && c.wf() && c.spec_width() == w
                && c.spec_height() == h && c.spec_pixels() == p),
        r matches Ok(c) ==> c.wf(),
        r matches Err(e) ==> e == ChartError::EncodingError || e == ChartError::InvalidDimensions,
{
    let decoded = match png_decode_rgba(bytes) {
        Ok(t) => t,
        Err(_) => {
            proof {
                assert forall|w0: u32, h0: u32, p0: Seq<Color>|
                    #[trigger] is_png_of(bytes@, w0, h0, p0) implies false by {
                    lemma_rgba_seq_len(p0);
                }
            }
            return Err(ChartError::EncodingError);
        },
    };
    let w = decoded.0;
    let h = decoded.1;
    let data = decoded.2;
    if w == 0 || h == 0 {
        proof {
            assert forall|w0: u32, h0: u32, p0: Seq<Color>|
                #[trigger] is_png_of(bytes@, w0, h0, p0) implies false by {
                lemma_rgba_seq_len(p0);
            }
        }
        return Err(ChartError::InvalidDimensions);
    }
    if data.len() % 4 != 0 {
        proof {
            assert forall|w0: u32, h0: u32, p0: Seq<Color>|
                #[trigger] is_png_of(bytes@, w0, h0, p0) implies false by {
                lemma_rgba_seq_len(p0);
            }
        }
        return Err(ChartError::EncodingError);
    }
    let pixels = from_rgba_bytes(&data);
    proof {
        lemma_dims_product_fits(w, h);
    }
    if pixels.len() as u64 != (w as u64) * (h as u64) {
        proof {
            assert forall|w0: u32, h0: u32, p0: Seq<Color>|
                #[trigger] is_png_of(bytes@, w0, h0, p0) implies false by {
                lemma_rgba_seq_len(p0);
            }
        }
        return Err(ChartError::EncodingError);
    }
    let c = Canvas::from_parts(w, h, pixels);
    proof {
        assert forall|w0: u32, h0: u32, p0: Seq<Color>|
            #[trigger] is_png_of(bytes@, w0, h0, p0) implies c.wf() && c.spec_width() == w0
                && c.spec_height() == h0 && c.spec_pixels() == p0 by {
            lemma_rgba_seq_len(p0);
            lemma_rgba_seq_injective(c.spec_pixels(), p0);
        }
    }
    Ok(c)
}

/// Law: the PNG round trip is faithful. Encoding a canvas and decoding
/// the result always succeeds and reproduces the same dimensions and
/// the same pixel buffer.
pub fn png_round_trip(canvas: &Canvas) -> (r: Result<Canvas, ChartError>)
    requires
        canvas.wf(),
    ensures
        r matches Ok(c) && c.wf() && c.spec_width() == canvas.spec_width() && c.spec_height()
            == canvas.spec_height() && c.spec_pixels() == canvas.spec_pixels(),
{
    let bytes = match canvas.encode_png() {
        Ok(b) => b,
        Err(e) => {
            return Err(e);
        },
    };
    proof {
        canvas.lemma_wf();
        assert(is_png_of(bytes@, canvas.spec_width(), canvas.spec_height(), canvas.spec_pixels()));
    }
    match decode_png(&bytes) {
        Ok(c) => Ok(c),
        Err(_) => {
            proof {
                assert(false);
            }
            Err(ChartError::EncodingError)
        },
    }
}

} // verus!
