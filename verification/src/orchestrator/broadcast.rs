//! What goes over the wire: block data and blob sidecars.
use crate::codec::{decompress_payload, payload_content, zstd_content, zstd_decompress, MAX_DECOMPRESSED};
use crate::primitives::{copy_bytes, B256};
use vstd::prelude::*;

verus! {

/// A block as its leader announces it.
#[derive(Debug)]
pub struct BlockDataBroadcast {
    pub block_hash: B256,
    pub view: u64,
    /// The execution payload: zstd-compressed JSON, or raw JSON.
    pub payload_json: Vec<u8>,
    /// The block's timestamp in seconds, zero where it is not known.
    pub timestamp: u64,
    /// The compressed execution output, for followers that skip execution.
    pub execution_output: Option<Vec<u8>>,
    /// When the leader had the payload ready, in Unix milliseconds.
    pub leader_ready_unix_ms: u64,
}

/// The fields of an announced block, in the order in which they go over the wire.
pub type BroadcastFields = (B256, u64, Seq<u8>, u64, Option<Seq<u8>>, u64);

/// The bytes of an optional vector.
pub open spec fn optional_bytes(bytes: Option<Vec<u8>>) -> Option<Seq<u8>> {
    match bytes {
        Some(b) => Some(b@),
        None => None,
    }
}

impl View for BlockDataBroadcast {
    type V = BroadcastFields;

    open spec fn view(&self) -> BroadcastFields {
        (
            self.block_hash,
            self.view,
            self.payload_json@,
            self.timestamp,
            optional_bytes(self.execution_output),
            self.leader_ready_unix_ms,
        )
    }
}

/// The block that announced bytes stand for, where they stand for one.
pub uninterp spec fn announced_block(data: Seq<u8>) -> Option<
    (B256, u64, Seq<u8>, u64, Option<Seq<u8>>, u64),
>;

/// Calls `bincode::deserialize` for the six fields in wire order. Claimed is
/// that the outcome depends on the bytes alone.
#[verifier::external_body]
fn bincode_block(data: &[u8]) -> (fields: Option<
    (B256, u64, Vec<u8>, u64, Option<Vec<u8>>, u64),
>)
    ensures
        match fields {
            Some(f) => announced_block(data@) == Some(
                (f.0, f.1, f.2@, f.3, optional_bytes(f.4), f.5),
            ),
            None => announced_block(data@) is None,
        },
{
    bincode::deserialize::<
        (alloy_primitives::B256, u64, Vec<u8>, u64, Option<Vec<u8>>, u64),
    >(data).ok().map(|f| (f.0.0, f.1, f.2, f.3, f.4, f.5))
}

/// Calls `bincode::serialize` on the six fields in wire order. Claimed is that
/// there are bytes, since every length is known and no size limit is set, and
/// that they read back as the same fields.
#[verifier::external_body]
fn bincode_block_bytes(
    block_hash: &B256,
    view: u64,
    payload_json: &Vec<u8>,
    timestamp: u64,
    execution_output: &Option<Vec<u8>>,
    leader_ready_unix_ms: u64,
) -> (data: Option<Vec<u8>>)
    ensures
        match data {
            Some(d) => announced_block(d@) == Some(
                (
                    *block_hash,
                    view,
                    payload_json@,
                    timestamp,
                    optional_bytes(*execution_output),
                    leader_ready_unix_ms,
                ),
            ),
            None => false,
        },
{
    let hash = alloy_primitives::B256::from(*block_hash);
    bincode::serialize(
        &(hash, view, payload_json, timestamp, execution_output, leader_ready_unix_ms),
    ).ok()
}

/// Reads an announced block.
pub fn decode_block(data: &[u8]) -> (block: Option<BlockDataBroadcast>)
    ensures
        match block {
            Some(b) => announced_block(data@) == Some(b@),
            None => announced_block(data@) is None,
        },
{
    match bincode_block(data) {
        Some((block_hash, view, payload_json, timestamp, execution_output, leader_ready_unix_ms)) =>
            Some(
                BlockDataBroadcast {
                    block_hash,
                    view,
                    payload_json,
                    timestamp,
                    execution_output,
                    leader_ready_unix_ms,
                },
            ),
        None => None,
    }
}

/// The bytes of an announced block: they read back as the same block.
pub fn encode_block(block: &BlockDataBroadcast) -> (data: Option<Vec<u8>>)
    ensures
        data matches Some(d) && announced_block(d@) == Some(block@),
{
    bincode_block_bytes(
        &block.block_hash,
        block.view,
        &block.payload_json,
        block.timestamp,
        &block.execution_output,
        block.leader_ready_unix_ms,
    )
}

impl BlockDataBroadcast {
    /// A copy of the announcement.
    pub fn duplicate(&self) -> (block: Self)
        ensures
            block@ == self@,
    {
        BlockDataBroadcast {
            block_hash: self.block_hash,
            view: self.view,
            payload_json: copy_bytes(&self.payload_json),
            timestamp: self.timestamp,
            execution_output: match &self.execution_output {
                Some(output) => Some(copy_bytes(output)),
                None => None,
            },
            leader_ready_unix_ms: self.leader_ready_unix_ms,
        }
    }
}

/// The block number and the number of transactions of a JSON execution payload,
/// where the JSON holds one.
pub uninterp spec fn execution_payload(json: Seq<u8>) -> Option<(u64, usize)>;

/// Calls `serde_json::from_slice` for alloy's `ExecutionData` and its methods
/// `block_number` and `transaction_count`. Claimed is that the outcome depends
/// on the bytes alone.
#[verifier::external_body]
pub(crate) fn parse_execution_payload(json: &[u8]) -> (summary: Option<(u64, usize)>)
    ensures
        summary == execution_payload(json@),
{
    serde_json::from_slice::<alloy_rpc_types_engine::ExecutionData>(json).ok().map(
        |data| (data.block_number(), data.transaction_count()),
    )
}

/// A payload that can be handed to the execution layer.
#[derive(Debug)]
pub struct ReadyPayload {
    pub json: Vec<u8>,
    pub block_number: u64,
    pub transaction_count: usize,
}

/// Decompresses and reads the payload of a block; there is none where either fails.
pub fn ready_payload(payload: &[u8]) -> (ready: Option<ReadyPayload>)
    ensures
        match ready {
            Some(r) => payload_content(payload@) == Some(r.json@) && execution_payload(r.json@)
                == Some((r.block_number, r.transaction_count)),
            None => match payload_content(payload@) {
                Some(json) => execution_payload(json) is None,
                None => true,
            },
        },
{
    let json = match decompress_payload(payload) {
        Some(json) => json,
        None => return None,
    };
    match parse_execution_payload(&json) {
        Some((block_number, transaction_count)) => Some(
            ReadyPayload { json, block_number, transaction_count },
        ),
        None => None,
    }
}

/// The decompressed execution output of announced bytes, where there is one.
pub open spec fn bundle_json(data: Seq<u8>) -> Option<Seq<u8>> {
    match announced_block(data) {
        Some(block) => match block.4 {
            Some(output) => zstd_content(output, MAX_DECOMPRESSED),
            None => None,
        },
        None => None,
    }
}

/// Decompresses the execution output of an announced block. There is none where
/// the bytes do not read as a block, the block carries none, or the output does
/// not decompress.
pub fn extract_bundle_state_json(data: &[u8]) -> (json: Option<Vec<u8>>)
    ensures
        match json {
            Some(j) => bundle_json(data@) == Some(j@),
            None => bundle_json(data@) is None,
        },
{
    match decode_block(data) {
        Some(block) => output_json(&block),
        None => None,
    }
}

/// Decompresses the execution output that a block carries.
pub fn output_json(block: &BlockDataBroadcast) -> (json: Option<Vec<u8>>)
    ensures
        optional_bytes(json) == match block@.4 {
            Some(output) => zstd_content(output, MAX_DECOMPRESSED),
            None => None,
        },
{
    match &block.execution_output {
        Some(output) => zstd_decompress(output, MAX_DECOMPRESSED),
        None => None,
    }
}

/// The blob sidecars of a block.
#[derive(Debug)]
pub struct BlobSidecarBroadcast {
    pub block_hash: B256,
    pub view: u64,
    /// Each blob transaction's hash with its sidecar in RLP.
    pub sidecars: Vec<(B256, Vec<u8>)>,
}

/// The contents of a list of pairs.
pub open spec fn pairs_state(pairs: Seq<(B256, Vec<u8>)>) -> Seq<(B256, Seq<u8>)> {
    pairs.map_values(|p: (B256, Vec<u8>)| (p.0, p.1@))
}

/// The block hash, view and sidecars that announced bytes stand for, where they
/// stand for any.
pub uninterp spec fn announced_sidecars(data: Seq<u8>) -> Option<(B256, u64, Seq<(B256, Seq<u8>)>)>;

/// Calls `bincode::deserialize` for the hash, the view and the list of pairs.
/// Claimed is that the outcome depends on the bytes alone.
#[verifier::external_body]
fn bincode_sidecars(data: &[u8]) -> (fields: Option<(B256, u64, Vec<(B256, Vec<u8>)>)>)
    ensures
        match fields {
            Some(f) => announced_sidecars(data@) == Some((f.0, f.1, pairs_state(f.2@))),
            None => announced_sidecars(data@) is None,
        },
{
    bincode::deserialize::<
        (alloy_primitives::B256, u64, Vec<(alloy_primitives::B256, Vec<u8>)>),
    >(data).ok().map(|f| (f.0.0, f.1, f.2.into_iter().map(|p| (p.0.0, p.1)).collect()))
}

/// Calls `bincode::serialize` on the hash, the view and the list of pairs.
/// Claimed is that there are bytes, since every length is known and no size
/// limit is set, and that they read back as the same fields.
#[verifier::external_body]
fn bincode_sidecar_bytes(
    block_hash: &B256,
    view: u64,
    sidecars: &Vec<(B256, Vec<u8>)>,
) -> (data: Option<Vec<u8>>)
    ensures
        match data {
            Some(d) => announced_sidecars(d@) == Some((*block_hash, view, pairs_state(sidecars@))),
            None => false,
        },
{
    let pairs: Vec<(alloy_primitives::B256, &Vec<u8>)> = sidecars.iter().map(
        |p| (alloy_primitives::B256::from(p.0), &p.1),
    ).collect();
    bincode::serialize(&(alloy_primitives::B256::from(*block_hash), view, pairs)).ok()
}

/// The sidecar bytes decode.
pub uninterp spec fn sidecar_decodes(rlp: Seq<u8>) -> bool;

/// Calls `alloy_rlp::Decodable::decode` for alloy's
/// `BlobTransactionSidecarVariant`. Claimed is that it depends on the bytes
/// alone whether they decode.
#[verifier::external_body]
fn check_sidecar(rlp: &[u8]) -> (decodes: bool)
    ensures
        decodes == sidecar_decodes(rlp@),
{
    let mut bytes: &[u8] = rlp;
    <alloy_eips::eip7594::BlobTransactionSidecarVariant as alloy_rlp::Decodable>::decode(
        &mut bytes,
    ).is_ok()
}

/// Reads announced sidecars.
pub fn decode_sidecars(data: &[u8]) -> (broadcast: Option<BlobSidecarBroadcast>)
    ensures
        match broadcast {
            Some(b) => announced_sidecars(data@) == Some(
                (b.block_hash, b.view, pairs_state(b.sidecars@)),
            ),
            None => announced_sidecars(data@) is None,
        },
{
    match bincode_sidecars(data) {
        Some((block_hash, view, sidecars)) => Some(
            BlobSidecarBroadcast { block_hash, view, sidecars },
        ),
        None => None,
    }
}

/// The bytes of a block's sidecars, where there are any to send: they read back
/// as the same sidecars.
pub fn broadcast_blob_sidecars(
    block_hash: &B256,
    view: u64,
    sidecars: &Vec<(B256, Vec<u8>)>,
) -> (data: Option<Vec<u8>>)
    ensures
        data is Some == (sidecars@.len() > 0),
        data matches Some(d) ==> announced_sidecars(d@) == Some(
            (*block_hash, view, pairs_state(sidecars@)),
        ),
{
    if sidecars.len() == 0 {
        return None;
    }
    bincode_sidecar_bytes(block_hash, view, sidecars)
}

/// The sidecars that decode, in order.
pub open spec fn storable(sidecars: Seq<(B256, Seq<u8>)>) -> Seq<(B256, Seq<u8>)> {
    sidecars.filter(|s: (B256, Seq<u8>)| sidecar_decodes(s.1))
}

/// The sidecars to store out of an announcement: those that decode. There are
/// none without a store, or where the announcement cannot be read.
pub fn handle_blob_sidecar(has_blob_store: bool, data: &[u8]) -> (sidecars: Vec<
    (B256, Vec<u8>),
>)
    ensures
        pairs_state(sidecars@) == match announced_sidecars(data@) {
            Some(b) => if has_blob_store {
                storable(b.2)
            } else {
                Seq::empty()
            },
            None => Seq::empty(),
        },
{
    let mut kept: Vec<(B256, Vec<u8>)> = Vec::new();
    assert(pairs_state(kept@) =~= Seq::empty());
    if !has_blob_store {
        return kept;
    }
    let broadcast = match decode_sidecars(data) {
        Some(broadcast) => broadcast,
        None => return kept,
    };
    let ghost all = pairs_state(broadcast.sidecars@);
    let ghost decodes = |s: (B256, Seq<u8>)| sidecar_decodes(s.1);
    assert(all.take(0).filter(decodes) =~= Seq::empty()) by {
        reveal(Seq::filter);
    }
    let mut i: usize = 0;
    while i < broadcast.sidecars.len()
        invariant
            i <= broadcast.sidecars@.len(),
            all == pairs_state(broadcast.sidecars@),
            decodes == (|s: (B256, Seq<u8>)| sidecar_decodes(s.1)),
            pairs_state(kept@) == all.take(i as int).filter(decodes),
        decreases broadcast.sidecars@.len() - i,
    {
        let ghost before = kept@;
        let sidecar = &broadcast.sidecars[i];
        proof {
            reveal(Seq::filter);
            assert(all.take(i + 1).drop_last() =~= all.take(i as int));
            assert(all.take(i + 1).last() == (sidecar.0, sidecar.1@));
        }
        if check_sidecar(&sidecar.1) {
            kept.push((sidecar.0, copy_bytes(&sidecar.1)));
            assert(pairs_state(kept@) =~= pairs_state(before).push(all[i as int]));
        }
        i += 1;
    }
    assert(all.take(i as int) =~= all);
    kept
}

/// The sidecars that are stored are those that decode: all of them, in order, each
/// under its hash, and no others.
pub proof fn decodable_sidecars_are_stored(sidecars: Seq<(B256, Seq<u8>)>) -> (at: Seq<int>)
    ensures
        at.len() == storable(sidecars).len(),
        forall|i: int, j: int| 0 <= i < j < at.len() ==> #[trigger] at[i] < #[trigger] at[j],
        forall|i: int|
            0 <= i < at.len() ==> 0 <= #[trigger] at[i] < sidecars.len() && storable(sidecars)[i]
                == sidecars[at[i]] && sidecar_decodes(sidecars[at[i]].1),
        forall|k: int|
            0 <= k < sidecars.len() && sidecar_decodes((#[trigger] sidecars[k]).1) ==> at.contains(
                k,
            ),
    decreases sidecars.len(),
{
    reveal(Seq::filter);
    if sidecars.len() == 0 {
        Seq::empty()
    } else {
        let rest = sidecars.drop_last();
        let last = sidecars.len() - 1;
        let kept = decodable_sidecars_are_stored(rest);
        let at = if sidecar_decodes(sidecars[last].1) {
            kept.push(last)
        } else {
            kept
        };
        assert forall|i: int| 0 <= i < kept.len() implies #[trigger] kept[i] < last
            && sidecars[kept[i]] == rest[kept[i]] && storable(sidecars)[i] == storable(rest)[i] by {
        }
        assert forall|k: int|
            0 <= k < sidecars.len() && sidecar_decodes((#[trigger] sidecars[k]).1) implies at.contains(
            k,
        ) by {
            if k < last {
                assert(rest[k] == sidecars[k]);
                let t = choose|t: int| 0 <= t < kept.len() && kept[t] == k;
                assert(at[t] == k);
            } else {
                assert(at[at.len() - 1] == k);
            }
        }
        at
    }
}

/// The execution output of an announced block is what its frame holds, no more
/// than 64 MiB; a block that does not read, or comes without output, gives none.
pub proof fn outputs_are_unpacked(data: Seq<u8>)
    ensures
        announced_block(data) is None ==> bundle_json(data) is None,
        announced_block(data) matches Some(block) ==> {
            &&& block.4 is None ==> bundle_json(data) is None
            &&& block.4 matches Some(output) ==> bundle_json(data) == zstd_content(
                output,
                (64 * 1024 * 1024) as usize,
            )
        },
{
}

} // verus!
