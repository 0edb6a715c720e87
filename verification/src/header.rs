//! Block headers.
use crate::crypto::{keccak256, keccak256_of};
use crate::primitives::{copy_bytes, Address, B256};
use vstd::prelude::*;

verus! {

/// A block header. A number of 256 bits is given by its bytes, the highest first.
#[derive(Debug)]
pub struct Header {
    pub parent_hash: B256,
    pub ommers_hash: B256,
    pub beneficiary: Address,
    pub state_root: B256,
    pub transactions_root: B256,
    pub receipts_root: B256,
    pub logs_bloom: [u8; 256],
    pub difficulty: B256,
    pub number: u64,
    pub gas_limit: u64,
    pub gas_used: u64,
    pub timestamp: u64,
    pub extra_data: Vec<u8>,
    pub mix_hash: B256,
    pub nonce: [u8; 8],
    pub base_fee_per_gas: Option<u64>,
    pub withdrawals_root: Option<B256>,
    pub blob_gas_used: Option<u64>,
    pub excess_blob_gas: Option<u64>,
    pub parent_beacon_block_root: Option<B256>,
    pub requests_hash: Option<B256>,
}

/// The contents of a header.
#[verifier::ext_equal]
pub ghost struct HeaderState {
    pub parent_hash: B256,
    pub ommers_hash: B256,
    pub beneficiary: Address,
    pub state_root: B256,
    pub transactions_root: B256,
    pub receipts_root: B256,
    pub logs_bloom: [u8; 256],
    pub difficulty: B256,
    pub number: u64,
    pub gas_limit: u64,
    pub gas_used: u64,
    pub timestamp: u64,
    pub extra_data: Seq<u8>,
    pub mix_hash: B256,
    pub nonce: [u8; 8],
    pub base_fee_per_gas: Option<u64>,
    pub withdrawals_root: Option<B256>,
    pub blob_gas_used: Option<u64>,
    pub excess_blob_gas: Option<u64>,
    pub parent_beacon_block_root: Option<B256>,
    pub requests_hash: Option<B256>,
}

impl View for Header {
    type V = HeaderState;

    open spec fn view(&self) -> HeaderState {
        HeaderState {
            parent_hash: self.parent_hash,
            ommers_hash: self.ommers_hash,
            beneficiary: self.beneficiary,
            state_root: self.state_root,
            transactions_root: self.transactions_root,
            receipts_root: self.receipts_root,
            logs_bloom: self.logs_bloom,
            difficulty: self.difficulty,
            number: self.number,
            gas_limit: self.gas_limit,
            gas_used: self.gas_used,
            timestamp: self.timestamp,
            extra_data: self.extra_data@,
            mix_hash: self.mix_hash,
            nonce: self.nonce,
            base_fee_per_gas: self.base_fee_per_gas,
            withdrawals_root: self.withdrawals_root,
            blob_gas_used: self.blob_gas_used,
            excess_blob_gas: self.excess_blob_gas,
            parent_beacon_block_root: self.parent_beacon_block_root,
            requests_hash: self.requests_hash,
        }
    }
}

/// The RLP encoding of a header.
pub uninterp spec fn header_rlp(header: HeaderState) -> Seq<u8>;

/// The hash of a header: that of its RLP encoding.
pub open spec fn header_hash(header: HeaderState) -> B256 {
    keccak256_of(header_rlp(header))
}

/// Calls `alloy_rlp::encode` on the `alloy_consensus::Header` of these fields.
/// Claimed is that the encoding depends on the fields alone.
#[verifier::external_body]
fn encode_fields(
    parent_hash: B256,
    ommers_hash: B256,
    beneficiary: Address,
    state_root: B256,
    transactions_root: B256,
    receipts_root: B256,
    logs_bloom: [u8; 256],
    difficulty: B256,
    number: u64,
    gas_limit: u64,
    gas_used: u64,
    timestamp: u64,
    extra_data: Vec<u8>,
    mix_hash: B256,
    nonce: [u8; 8],
    base_fee_per_gas: Option<u64>,
    withdrawals_root: Option<B256>,
    blob_gas_used: Option<u64>,
    excess_blob_gas: Option<u64>,
    parent_beacon_block_root: Option<B256>,
    requests_hash: Option<B256>,
) -> (rlp: Vec<u8>)
    ensures
        rlp@ == header_rlp(
            (HeaderState {
                parent_hash,
                ommers_hash,
                beneficiary,
                state_root,
                transactions_root,
                receipts_root,
                logs_bloom,
                difficulty,
                number,
                gas_limit,
                gas_used,
                timestamp,
                extra_data: extra_data@,
                mix_hash,
                nonce,
                base_fee_per_gas,
                withdrawals_root,
                blob_gas_used,
                excess_blob_gas,
                parent_beacon_block_root,
                requests_hash,
            }),
        ),
{
    alloy_rlp::encode(alloy_consensus::Header {
        parent_hash: parent_hash.into(), ommers_hash: ommers_hash.into(),
        beneficiary: beneficiary.into(), state_root: state_root.into(),
        transactions_root: transactions_root.into(), receipts_root: receipts_root.into(),
        logs_bloom: logs_bloom.into(),
        difficulty: alloy_primitives::U256::from_be_bytes(difficulty),
        number, gas_limit, gas_used, timestamp, extra_data: extra_data.into(),
        mix_hash: mix_hash.into(), nonce: nonce.into(), base_fee_per_gas,
        withdrawals_root: withdrawals_root.map(Into::into), blob_gas_used, excess_blob_gas,
        parent_beacon_block_root: parent_beacon_block_root.map(Into::into),
        requests_hash: requests_hash.map(Into::into),
    })
}

impl Header {
    /// The RLP encoding.
    pub fn encode(&self) -> (rlp: Vec<u8>)
        ensures
            rlp@ == header_rlp(self@),
    {
        encode_fields(
            self.parent_hash,
            self.ommers_hash,
            self.beneficiary,
            self.state_root,
            self.transactions_root,
            self.receipts_root,
            self.logs_bloom,
            self.difficulty,
            self.number,
            self.gas_limit,
            self.gas_used,
            self.timestamp,
            copy_bytes(&self.extra_data),
            self.mix_hash,
            self.nonce,
            self.base_fee_per_gas,
            self.withdrawals_root,
            self.blob_gas_used,
            self.excess_blob_gas,
            self.parent_beacon_block_root,
            self.requests_hash,
        )
    }

    /// The hash.
    pub fn hash_slow(&self) -> (hash: B256)
        ensures
            hash == header_hash(self@),
    {
        keccak256(&self.encode())
    }

    /// A copy of the header.
    pub fn duplicate(&self) -> (header: Self)
        ensures
            header@ == self@,
    {
        Header {
            parent_hash: self.parent_hash,
            ommers_hash: self.ommers_hash,
            beneficiary: self.beneficiary,
            state_root: self.state_root,
            transactions_root: self.transactions_root,
            receipts_root: self.receipts_root,
            logs_bloom: self.logs_bloom,
            difficulty: self.difficulty,
            number: self.number,
            gas_limit: self.gas_limit,
            gas_used: self.gas_used,
            timestamp: self.timestamp,
            extra_data: copy_bytes(&self.extra_data),
            mix_hash: self.mix_hash,
            nonce: self.nonce,
            base_fee_per_gas: self.base_fee_per_gas,
            withdrawals_root: self.withdrawals_root,
            blob_gas_used: self.blob_gas_used,
            excess_blob_gas: self.excess_blob_gas,
            parent_beacon_block_root: self.parent_beacon_block_root,
            requests_hash: self.requests_hash,
        }
    }
}

} // verus!
