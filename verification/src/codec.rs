//! Compressed payloads.
use crate::primitives::to_bytes;
use vstd::prelude::*;

verus! {

/// Every zstd frame starts with these bytes.
pub const ZSTD_MAGIC: [u8; 4] = [0x28, 0xB5, 0x2F, 0xFD];

/// The compression level of payloads and packets.
pub const ZSTD_LEVEL: i32 = 3;

/// The most that a payload may decompress to.
pub const MAX_DECOMPRESSED: usize = 67_108_864;

/// The bytes start with the zstd magic.
pub open spec fn has_magic(data: Seq<u8>) -> bool {
    data.len() >= 4 && data[0] == 0x28 && data[1] == 0xB5 && data[2] == 0x2F && data[3] == 0xFD
}

/// The zstd frame that holds `data` at a level.
pub uninterp spec fn zstd_frame(data: Seq<u8>, level: i32) -> Seq<u8>;

/// What zstd data decompresses to, where it is well formed and no longer than
/// the capacity.
pub uninterp spec fn zstd_content(data: Seq<u8>, capacity: usize) -> Option<Seq<u8>>;

/// Calls `zstd::bulk::compress`. Claimed of a frame that it makes: it depends on
/// data and level alone, starts with the magic, and decompresses to the data
/// wherever the capacity holds them. Whether there is a frame is left open, and
/// with it the text of the error: the compressor may run out of memory.
#[verifier::external_body]
pub(crate) fn zstd_compress(data: &[u8], level: i32) -> (frame: Result<Vec<u8>, String>)
    ensures
        frame matches Ok(f) ==> f@ == zstd_frame(data@, level) && has_magic(f@) && forall|
            capacity: usize,
        |
            data@.len() <= capacity ==> #[trigger] zstd_content(f@, capacity) == Some(data@),
{
    zstd::bulk::compress(data, level).map_err(|e| e.to_string())
}

/// Calls `zstd::bulk::decompress`. Claimed is that the outcome depends on data
/// and capacity alone, and that what comes out is no longer than the capacity.
#[verifier::external_body]
pub(crate) fn zstd_decompress(data: &[u8], capacity: usize) -> (content: Option<Vec<u8>>)
    requires
        capacity <= 0x7fff_ffff,
    ensures
        match content {
            Some(c) => zstd_content(data@, capacity) == Some(c@) && c@.len() <= capacity,
            None => zstd_content(data@, capacity) is None,
        },
{
    zstd::bulk::decompress(data, capacity).ok()
}

/// The frame where compressing succeeded, else the payload as it is.
pub fn compressed_or_raw(json: &[u8], frame: Option<Vec<u8>>) -> (payload: Vec<u8>)
    ensures
        match frame {
            Some(f) => payload@ == f@,
            None => payload@ == json@,
        },
{
    match frame {
        Some(f) => f,
        None => to_bytes(json),
    }
}

/// Compresses a payload; where that fails the payload is sent as it is.
pub fn compress_payload(json: &[u8]) -> (payload: Vec<u8>)
    ensures
        payload@ == json@ || (payload@ == zstd_frame(json@, ZSTD_LEVEL) && has_magic(payload@)),
        json@.len() <= MAX_DECOMPRESSED && !has_magic(json@) ==> payload_content(payload@) == Some(
            json@,
        ),
{
    let frame = zstd_compress(json, ZSTD_LEVEL).ok();
    compressed_or_raw(json, frame)
}

/// What a payload stands for: a zstd frame for its content, anything else for
/// itself. There is nothing where a frame is broken or holds too much.
pub open spec fn payload_content(data: Seq<u8>) -> Option<Seq<u8>> {
    if has_magic(data) {
        zstd_content(data, MAX_DECOMPRESSED)
    } else {
        Some(data)
    }
}

/// Whether the bytes start with the zstd magic.
pub fn is_zstd(data: &[u8]) -> (is: bool)
    ensures
        is == has_magic(data@),
{
    data.len() >= 4 && data[0] == ZSTD_MAGIC[0] && data[1] == ZSTD_MAGIC[1] && data[2]
        == ZSTD_MAGIC[2] && data[3] == ZSTD_MAGIC[3]
}

/// Decompresses a payload where it is compressed, and passes it through where
/// it is not.
pub fn decompress_payload(data: &[u8]) -> (content: Option<Vec<u8>>)
    ensures
        match content {
            Some(c) => payload_content(data@) == Some(c@),
            None => payload_content(data@) is None,
        },
        !has_magic(data@) ==> content is Some,
{
    if is_zstd(data) {
        zstd_decompress(data, MAX_DECOMPRESSED)
    } else {
        Some(to_bytes(data))
    }
}

/// A payload stands for itself, unless it begins with the four bytes of a zstd
/// frame; then it stands for the frame's content, where that has at most 64 MiB.
pub proof fn frames_are_told_by_their_first_bytes(data: Seq<u8>)
    ensures
        data.len() < 4 ==> payload_content(data) == Some(data),
        data.len() >= 4 && data.take(4) != seq![0x28u8, 0xB5, 0x2F, 0xFD] ==> payload_content(data)
            == Some(data),
        data.len() >= 4 && data.take(4) == seq![0x28u8, 0xB5, 0x2F, 0xFD] ==> payload_content(data)
            == zstd_content(data, (64 * 1024 * 1024) as usize),
{
    if data.len() >= 4 {
        assert(data.take(4)[0] == data[0] && data.take(4)[1] == data[1]);
        assert(data.take(4)[2] == data[2] && data.take(4)[3] == data[3]);
        if has_magic(data) {
            assert(data.take(4) =~= seq![0x28u8, 0xB5, 0x2F, 0xFD]);
        }
    }
}

} // verus!
