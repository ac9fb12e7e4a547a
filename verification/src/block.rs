//! The record model: a block of data with its signature, and a block with the
//! status that a scan gave it.

use vstd::prelude::*;

verus! {

/// What a [`Block`] holds, as a mathematical value.
pub struct BlockView {
    /// The payload.
    pub data: Seq<char>,
    /// The authentication tag over the payload, as unpadded base64.
    pub signature: Seq<char>,
}

/// A payload with its authentication tag.
///
/// A block is valid under a key if the tag is the one that the key gives for
/// the payload. Nothing ties the two fields together inside the block itself:
/// a block may come from any source, and changing the payload without signing
/// again makes it invalid.
#[derive(Debug)]
pub struct Block {
    data: String,
    signature: String,
}

impl View for Block {
    type V = BlockView;

    closed spec fn view(&self) -> BlockView {
        BlockView { data: self.data@, signature: self.signature@ }
    }
}

impl DeepView for Block {
    type V = BlockView;

    open spec fn deep_view(&self) -> BlockView {
        self@
    }
}

impl Clone for Block {
    fn clone(&self) -> (copy: Self)
        ensures
            copy == *self,
    {
        Block { data: self.data.clone(), signature: self.signature.clone() }
    }
}

impl Block {
    /// A block from its two parts, as they come from storage or the network.
    pub fn new(data: String, signature: String) -> (block: Block)
        ensures
            block@ == (BlockView { data: data@, signature: signature@ }),
    {
        Block { data, signature }
    }

    /// The payload.
    pub fn data(&self) -> (data: String)
        ensures
            data@ == self@.data,
    {
        self.data.clone()
    }

    /// The signature.
    pub fn signature(&self) -> (signature: String)
        ensures
            signature@ == self@.signature,
    {
        self.signature.clone()
    }

    /// The payload, borrowed.
    pub(crate) fn data_str(&self) -> (data: &str)
        ensures
            data@ == self@.data,
    {
        self.data.as_str()
    }

    /// The signature, borrowed.
    pub(crate) fn signature_str(&self) -> (signature: &str)
        ensures
            signature@ == self@.signature,
    {
        self.signature.as_str()
    }

    /// Replaces the payload and keeps the signature, which then no longer
    /// vouches for the block.
    pub fn set_data(&mut self, data: String)
        ensures
            final(self)@ == (BlockView { data: data@, signature: old(self)@.signature }),
    {
        self.data = data
    }
}

/// What a scan says of one block.
#[derive(Debug, Clone, Copy, PartialEq, Eq, Structural)]
pub enum Status {
    /// The first block of the scan that verifies: trust starts here.
    Recovered,
    /// A block that verifies and was visited after the recovered one.
    Valid,
    /// A block that does not verify.
    Tampered,
}

/// What a [`BlockWithStatus`] holds, as a mathematical value.
pub struct BlockWithStatusView {
    /// The block.
    pub block: BlockView,
    /// Its status.
    pub status: Status,
}

/// A block with the status that a scan gave it.
#[derive(Debug)]
pub struct BlockWithStatus {
    block: Block,
    status: Status,
}

impl View for BlockWithStatus {
    type V = BlockWithStatusView;

    closed spec fn view(&self) -> BlockWithStatusView {
        BlockWithStatusView { block: self.block@, status: self.status }
    }
}

impl DeepView for BlockWithStatus {
    type V = BlockWithStatusView;

    open spec fn deep_view(&self) -> BlockWithStatusView {
        self@
    }
}

impl BlockWithStatus {
    /// A block with the status that a scan found for it.
    pub(crate) fn new(block: Block, status: Status) -> (classified: BlockWithStatus)
        ensures
            classified@ == (BlockWithStatusView { block: block@, status }),
    {
        BlockWithStatus { block, status }
    }

    /// The block.
    pub fn block(&self) -> (block: Block)
        ensures
            block@ == self@.block,
    {
        self.block.clone()
    }

    /// The status.
    pub fn status(&self) -> (status: Status)
        ensures
            status == self@.status,
    {
        self.status
    }
}

} // verus!
