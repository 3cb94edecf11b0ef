//! LZ4 frames.

use vstd::prelude::*;

verus! {

/// The bytes that the decoder reads out of an LZ4 frame stream, or `None`
/// where it meets a malformed frame. A stream that ends early is no error to
/// it: it gives what it has read so far, and nothing for the empty stream.
pub uninterp spec fn lz4_unframe(frame: Seq<u8>) -> Option<Seq<u8>>;

/// Runs an `lz4::Encoder` over `data`: `EncoderBuilder::new().level(level)
/// .build(..)` on an empty `Vec<u8>`, `write_all`, then `finish`.
///
/// Trusted: the encoder succeeds, since it compresses at most one block at
/// a time into a buffer of the size that `LZ4F_compressBound` gives for a
/// block, and writes into a `Vec<u8>`. The output is a frame that
/// decompresses to `data` again; which frame it is, of the many that do, is
/// left open. An allocation that fails is left out of account.
#[verifier::external_body]
pub(crate) fn lz4_compress(data: &[u8], level: u32) -> (out: Option<Vec<u8>>)
    ensures
        out.is_some(),
        out matches Some(frame) ==> lz4_unframe(frame@) == Some(data@),
{
    let mut encoder = match lz4::EncoderBuilder::new().level(level).build(Vec::new()) {
        Ok(encoder) => encoder,
        Err(_) => return None,
    };
    if std::io::Write::write_all(&mut encoder, data).is_err() {
        return None;
    }
    let (frame, end) = encoder.finish();
    end.ok().map(|_| frame)
}

/// Runs an `lz4::Decoder` over `frame`: `Decoder::new` on a cursor, then
/// `read_to_end`.
///
/// Trusted: the result is a function of the frame alone; the decoder fails
/// on a malformed frame and on nothing else, an allocation that fails left
/// out of account.
#[verifier::external_body]
pub(crate) fn lz4_decompress(frame: &[u8]) -> (out: Option<Vec<u8>>)
    ensures
        (match out {
            Some(data) => lz4_unframe(frame@) == Some(data@),
            None => lz4_unframe(frame@).is_none(),
        }),
{
    let mut decoder = match lz4::Decoder::new(std::io::Cursor::new(frame)) {
        Ok(decoder) => decoder,
        Err(_) => return None,
    };
    let mut data = Vec::new();
    std::io::Read::read_to_end(&mut decoder, &mut data).ok().map(|_| data)
}

} // verus!
