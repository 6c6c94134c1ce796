//! Content checksums: a streaming CRC32C over byte chunks, and the decoding
//! of the checksum field a storage listing reports for an object.
//!
//! The checksum is the engine's content-equality proxy: two payloads with
//! equal size and equal CRC32C are treated as equal content. The CRC itself
//! is computed by the `crc32c` crate; this module states only what the crate
//! documents — that the value is a function of the bytes alone and that
//! feeding the bytes in chunks yields the same value as feeding them whole —
//! and proves the streaming accumulation against that.

use vstd::prelude::*;

use base64::Engine;

use crate::errors::Error;

verus! {

/// The CRC32C value that extends `crc` by `data`: what
/// `crc32c::crc32c_append(crc, data)` returns.
pub uninterp spec fn crc_extend(crc: u32, data: Seq<u8>) -> u32;

/// The CRC32C of a whole payload, starting from the empty accumulator 0.
///
/// Extending the zero accumulator by no bytes leaves it at 0, so the empty
/// payload's checksum is written out as 0 directly.
pub open spec fn crc_of(data: Seq<u8>) -> u32 {
    if data.len() == 0 {
        0
    } else {
        crc_extend(0, data)
    }
}

/// Relies on `crc32c::crc32c_append`: the result is a function of the
/// accumulator and the bytes alone; appending no bytes returns the
/// accumulator; and appending is combinable — continuing from the checksum
/// of `s` with `data` gives the checksum of `s` followed by `data`.
#[verifier::external_body]
fn crc32c_append(crc: u32, data: &[u8]) -> (r: u32)
    ensures
        r == crc_extend(crc, data@),
        data@.len() == 0 ==> r == crc,
        forall|c: u32, s: Seq<u8>| crc == #[trigger] crc_extend(c, s) ==> r == crc_extend(
            c,
            s + data@,
        ),
{
    crc32c::crc32c_append(crc, data)
}

/// The CRC32C of a payload given in one piece.
pub fn checksum_bytes(data: &[u8]) -> (r: u32)
    ensures
        r == crc_of(data@),
{
    let mut builder = ChecksumBuilder::new();
    builder.update(data);
    proof {
        assert(Seq::<u8>::empty() + data@ =~= data@);
    }
    builder.finish()
}

/// A streaming CRC32C accumulator.
///
/// The byte source is consumed in chunks of whatever size the caller reads,
/// without the whole payload ever being held in memory; the final value is
/// the checksum of the concatenation of every chunk fed in, regardless of
/// how the bytes were split.
pub struct ChecksumBuilder {
    acc: u32,
    seen: Ghost<Seq<u8>>,
}

impl ChecksumBuilder {
    /// The bytes fed in so far.
    pub closed spec fn seen(self) -> Seq<u8> {
        self.seen@
    }

    /// The accumulator tracks the checksum of the bytes seen so far.
    pub closed spec fn wf(self) -> bool {
        if self.seen@.len() == 0 {
            self.acc == 0
        } else {
            self.acc == crc_extend(0, self.seen@)
        }
    }

    /// An accumulator that has seen no bytes.
    pub fn new() -> (r: Self)
        ensures
            r.wf(),
            r.seen() == Seq::<u8>::empty(),
    {
        ChecksumBuilder { acc: 0, seen: Ghost(Seq::empty()) }
    }

    /// Feeds the next chunk of the payload.
    pub fn update(&mut self, chunk: &[u8])
        requires
            old(self).wf(),
        ensures
            final(self).wf(),
            final(self).seen() == old(self).seen() + chunk@,
    {
        let ghost prior = self.seen@;
        self.acc = crc32c_append(self.acc, chunk);
        proof {
            self.seen@ = prior + chunk@;
            if prior.len() == 0 {
                assert(prior + chunk@ =~= chunk@);
            }
        }
    }

    /// The checksum of everything fed in.
    pub fn finish(&self) -> (r: u32)
        requires
            self.wf(),
        ensures
            r == crc_of(self.seen()),
    {
        self.acc
    }
}

/// The big-endian reading of four bytes.
pub open spec fn u32_from_be_spec(b: Seq<u8>) -> u32
    recommends
        b.len() == 4,
{
    (((b[0] as int) * 0x1000000 + (b[1] as int) * 0x10000 + (b[2] as int) * 0x100 + (
    b[3] as int)) as u32)
}

/// Reads the first four bytes of `b` as a big-endian integer.
pub fn u32_from_be(b: &[u8]) -> (r: u32)
    requires
        b@.len() >= 4,
    ensures
        r == u32_from_be_spec(b@.subrange(0, 4)),
{
    let r: u32 = (b[0] as u32) * 0x1000000 + (b[1] as u32) * 0x10000 + (b[2] as u32) * 0x100 + (
    b[3] as u32);
    proof {
        let s = b@.subrange(0, 4);
        assert(s[0] == b@[0] && s[1] == b@[1] && s[2] == b@[2] && s[3] == b@[3]);
    }
    r
}

/// What decoding standard base64 yields for an input: the decoded bytes, or
/// nothing when the input is not a valid encoding.
pub uninterp spec fn base64_decode_spec(encoded: Seq<u8>) -> Option<Seq<u8>>;

/// Relies on `base64::Engine::decode` with the standard alphabet: the result
/// depends on the input bytes alone, and decoding fails exactly on inputs
/// that are not valid base64.
#[verifier::external_body]
fn base64_decode(encoded: &Vec<u8>) -> (r: Option<Vec<u8>>)
    ensures
        match r {
            Some(v) => base64_decode_spec(encoded@) == Some(v@),
            None => base64_decode_spec(encoded@) is None,
        },
{
    match base64::engine::general_purpose::STANDARD.decode(encoded.as_slice()) {
        Ok(v) => Some(v),
        Err(_) => None,
    }
}

/// The checksum a listing reports for an object: the first four bytes of the
/// base64-decoded checksum field, read big-endian; nothing when the field is
/// not base64 or decodes to fewer than four bytes.
pub open spec fn decode_crc32c_spec(encoded: Seq<u8>) -> Option<u32> {
    match base64_decode_spec(encoded) {
        Some(bytes) => if bytes.len() >= 4 {
            Some(u32_from_be_spec(bytes.subrange(0, 4)))
        } else {
            None
        },
        None => None,
    }
}

/// Decodes the base64 checksum field of a listed object.
pub fn decode_crc32c(encoded: &Vec<u8>) -> (r: Result<u32, Error>)
    ensures
        match r {
            Ok(v) => decode_crc32c_spec(encoded@) == Some(v),
            Err(e) => decode_crc32c_spec(encoded@) is None && (e matches Error::BadChecksum {
                encoded: en,
            } && en@ == encoded@),
        },
{
    match base64_decode(encoded) {
        Some(bytes) => {
            if bytes.len() >= 4 {
                Ok(u32_from_be(bytes.as_slice()))
            } else {
                Err(Error::BadChecksum { encoded: encoded.clone() })
            }
        },
        None => Err(Error::BadChecksum { encoded: encoded.clone() }),
    }
}

} // verus!
