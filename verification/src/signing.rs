//! The [`Verifier`]: signing, verification, fingerprints, and the scan of a
//! chain of blocks.

use crate::block::{Block, BlockView, BlockWithStatus, BlockWithStatusView, Status};
use crate::chain::{
    classified, classify, lemma_all_tampered, lemma_recovery_is_permanent, lemma_status_is_final,
    lemma_untampered, statuses,
};
use crate::encoding;
use crate::encoding::{base64_bytes, base64_text};
use crate::error::Error;
use crate::hashing;
use crate::hashing::{canonical_text, json_string, sha256};
use crate::mac;
use crate::mac::{hmac_sha256, TAG_LEN};
use vstd::prelude::*;
use vstd::slice::slice_to_vec;
use vstd::string::*;
use vstd::utf8::encode_utf8;

verus! {

/// The authentication tag of `data` under `key`.
pub open spec fn tag_of(key: Seq<u8>, data: Seq<char>) -> Seq<u8> {
    hmac_sha256(key, encode_utf8(data))
}

/// The signature of `data` under `key`: the tag as unpadded base64.
pub open spec fn signature_of(key: Seq<u8>, data: Seq<char>) -> Seq<char> {
    base64_text(tag_of(key, data))
}

/// Whether `signature` vouches for `data` under `key`: it decodes to a tag of
/// the right length, and that tag is the one of `data`.
pub open spec fn accepts(key: Seq<u8>, data: Seq<char>, signature: Seq<char>) -> bool {
    base64_bytes(signature) matches Some(tag) && tag.len() == TAG_LEN && tag == tag_of(key, data)
}

/// The blocks in the order in which a scan visits them: from the last to the
/// first.
pub open spec fn scan_order(blocks: Seq<BlockView>) -> Seq<BlockView> {
    Seq::new(blocks.len(), |i: int| blocks[blocks.len() - 1 - i])
}

/// The outcomes of verifying `blocks` under `key`, in the order of a scan.
pub open spec fn scan_outcomes(key: Seq<u8>, blocks: Seq<BlockView>) -> Seq<bool> {
    Seq::new(
        blocks.len(),
        |i: int| accepts(key, scan_order(blocks)[i].data, scan_order(blocks)[i].signature),
    )
}

/// The result of scanning `blocks` under `key`: the blocks from the last to
/// the first, each with its status.
pub open spec fn scan_of(key: Seq<u8>, blocks: Seq<BlockView>) -> Seq<BlockWithStatusView> {
    classified(scan_order(blocks), scan_outcomes(key, blocks))
}

/// The fingerprint of a block: the SHA-256 hash of its canonical form, as
/// unpadded base64. `None` where a field cannot be written as JSON.
pub open spec fn digest_of(block: BlockView) -> Option<Seq<char>> {
    match (json_string(block.data), json_string(block.signature)) {
        (Some(data_json), Some(signature_json)) => Some(
            base64_text(sha256(encode_utf8(canonical_text(data_json, signature_json)))),
        ),
        _ => None,
    }
}

/// Signs and verifies data with HMAC-SHA256 under a secret key, which is
/// never empty and never handed out.
pub struct Verifier {
    secret_key: Vec<u8>,
}

impl Verifier {
    #[verifier::type_invariant]
    spec fn has_key(self) -> bool {
        self.secret_key@.len() > 0
    }

    /// The secret key.
    pub closed spec fn key(&self) -> Seq<u8> {
        self.secret_key@
    }

    /// A verifier with the bytes of `secret_key` as its key. An empty key is
    /// refused; every other key is taken.
    pub fn new(secret_key: &str) -> (r: Result<Verifier, Error>)
        ensures
            match r {
                Ok(verifier) => secret_key@.len() > 0 && verifier.key() == encode_utf8(secret_key@)
                    && verifier.key().len() > 0,
                Err(e) => secret_key@.len() == 0 && e is InvalidSecretKey,
            },
    {
        if secret_key.is_empty() {
            return Err(Error::InvalidSecretKey);
        }
        let key = slice_to_vec(secret_key.as_bytes());
        proof {
            lemma_encoding_not_empty(secret_key@);
        }
        Ok(Verifier { secret_key: key })
    }

    /// Signs `data` and returns it as a block. The block verifies under this
    /// verifier.
    pub fn create_block(&self, data: &str) -> (r: Result<Block, Error>)
        ensures
            r matches Ok(block) && block@ == (BlockView {
                data: data@,
                signature: signature_of(self.key(), data@),
            }) && accepts(self.key(), block@.data, block@.signature),
    {
        let signature = self.sign_data(data)?;
        Ok(Block::new(data.to_owned(), signature))
    }

    /// The fingerprint of `block`. It depends on the block alone, not on any
    /// key.
    pub fn hash_block(block: &Block) -> (r: Result<String, Error>)
        ensures
            match digest_of(block@) {
                Some(digest) => r matches Ok(hash) && hash@ == digest,
                None => r matches Err(Error::Serialization(_)),
            },
    {
        let data_json = match hashing::to_json_string(block.data_str()) {
            Ok(json) => json,
            Err(e) => {
                return Err(Error::Serialization(e));
            },
        };
        let signature_json = match hashing::to_json_string(block.signature_str()) {
            Ok(json) => json,
            Err(e) => {
                return Err(Error::Serialization(e));
            },
        };
        let text = hashing::canonical_form(data_json.as_str(), signature_json.as_str());
        let hash = hashing::sha256_of(text.as_str().as_bytes());
        Ok(encoding::encode(hash.as_slice()))
    }

    /// Scans `blocks` from the last to the first and gives each its status.
    /// The result lists the blocks in the order of the scan. A block whose
    /// verification fails, for whatever reason, is `Tampered`; the scan itself
    /// does not fail.
    pub fn information(&self, blocks: Vec<Block>) -> (r: Result<Vec<BlockWithStatus>, Error>)
        ensures
            r matches Ok(scan) && scan.deep_view() == scan_of(self.key(), blocks.deep_view()),
    {
        let ghost given = blocks.deep_view();
        let passed = self.verify_from_last(&blocks);
        let found = classify(passed.as_slice());
        let mut rest = blocks;
        let mut scan: Vec<BlockWithStatus> = Vec::new();
        while rest.len() > 0
            invariant
                rest@.len() + scan@.len() == given.len(),
                rest.deep_view() == given.take(rest@.len() as int),
                found@ == statuses(scan_outcomes(self.key(), given)),
                forall|i: int|
                    0 <= i < scan@.len() ==> (#[trigger] scan@[i])@ == scan_of(
                        self.key(),
                        given,
                    )[i],
            decreases rest@.len(),
        {
            let ghost before = rest.deep_view();
            let status = found[scan.len()];
            let block = rest.pop().unwrap();
            proof {
                assert(block@ == before[before.len() - 1]);
                assert(rest.deep_view() =~= given.take(rest@.len() as int));
            }
            scan.push(BlockWithStatus::new(block, status));
        }
        assert(scan.deep_view() =~= scan_of(self.key(), given));
        Ok(scan)
    }

    /// Verifies each block once, from the last to the first, and lists what
    /// came of it in that order. An error counts as a failure.
    fn verify_from_last(&self, blocks: &Vec<Block>) -> (passed: Vec<bool>)
        ensures
            passed@ == scan_outcomes(self.key(), blocks.deep_view()),
    {
        let mut passed: Vec<bool> = Vec::new();
        let mut left = blocks.len();
        while left > 0
            invariant
                left + passed@.len() == blocks@.len(),
                forall|i: int|
                    0 <= i < passed@.len() ==> passed@[i] == scan_outcomes(
                        self.key(),
                        blocks.deep_view(),
                    )[i],
            decreases left,
        {
            left -= 1;
            let verified = match self.verify_block(&blocks[left]) {
                Ok(true) => true,
                _ => false,
            };
            passed.push(verified);
        }
        assert(passed@ =~= scan_outcomes(self.key(), blocks.deep_view()));
        passed
    }

    /// The signature of `data` under the key. Verifying `data` against it
    /// succeeds.
    pub fn sign_data(&self, data: &str) -> (r: Result<String, Error>)
        ensures
            r matches Ok(signature) && signature@ == signature_of(self.key(), data@) && accepts(
                self.key(),
                data@,
                signature@,
            ),
    {
        let mut state = match mac::start(self.secret_key.as_slice()) {
            Ok(state) => state,
            Err(e) => {
                return Err(Error::Hmac(e.to_string()));
            },
        };
        mac::update(&mut state, data.as_bytes());
        let tag = mac::finalize(state);
        Ok(encoding::encode(tag.as_slice()))
    }

    /// Whether the signature of `block` vouches for its data under the key.
    /// Fails as [`Verifier::verify_data`] does.
    pub fn verify_block(&self, block: &Block) -> (r: Result<bool, Error>)
        ensures
            match base64_bytes(block@.signature) {
                None => r matches Err(Error::Base64(_)),
                Some(tag) => if tag.len() != TAG_LEN {
                    r matches Err(Error::Hmac(_))
                } else {
                    r matches Ok(ok) && ok == (tag == tag_of(self.key(), block@.data))
                },
            },
            r matches Ok(true) <==> accepts(self.key(), block@.data, block@.signature),
    {
        self.verify_data(block.data_str(), block.signature_str())
    }

    /// Whether `signature` vouches for `data` under the key. A signature that
    /// is not unpadded base64 is an error, and so is one that decodes to a
    /// tag of the wrong length; a well-formed tag that differs from the one of
    /// `data` gives `false`.
    pub fn verify_data(&self, data: &str, signature: &str) -> (r: Result<bool, Error>)
        ensures
            match base64_bytes(signature@) {
                None => r matches Err(Error::Base64(_)),
                Some(tag) => if tag.len() != TAG_LEN {
                    r matches Err(Error::Hmac(_))
                } else {
                    r matches Ok(ok) && ok == (tag == tag_of(self.key(), data@))
                },
            },
            r matches Ok(true) <==> accepts(self.key(), data@, signature@),
    {
        let tag = match encoding::decode(signature) {
            Ok(tag) => tag,
            Err(e) => {
                return Err(Error::Base64(e));
            },
        };
        if tag.len() != TAG_LEN {
            return Err(Error::Hmac(String::from_str("MAC tag has the wrong length")));
        }
        let mut state = match mac::start(self.secret_key.as_slice()) {
            Ok(state) => state,
            Err(e) => {
                return Err(Error::Hmac(e.to_string()));
            },
        };
        mac::update(&mut state, data.as_bytes());
        Ok(mac::verify_slice(state, tag.as_slice()))
    }
}

/// The UTF-8 encoding of a text that is not empty is not empty.
proof fn lemma_encoding_not_empty(text: Seq<char>)
    requires
        text.len() > 0,
    ensures
        encode_utf8(text).len() > 0,
{
}

/// Blocks with the same content have the same fingerprint.
pub proof fn lemma_digest_is_deterministic(a: Block, b: Block)
    requires
        a@ == b@,
    ensures
        digest_of(a@) == digest_of(b@),
{
}

/// A scan of blocks that all verify marks the block it visits first, the last
/// of the chain, as `Recovered`, and every other block as `Valid`.
pub proof fn lemma_scan_untampered(key: Seq<u8>, blocks: Seq<BlockView>)
    requires
        forall|i: int|
            0 <= i < blocks.len() ==> accepts(key, (#[trigger] blocks[i]).data, blocks[i].signature),
    ensures
        blocks.len() > 0 ==> scan_of(key, blocks)[0] == (BlockWithStatusView {
            block: blocks.last(),
            status: Status::Recovered,
        }),
        forall|i: int|
            0 < i < blocks.len() ==> (#[trigger] scan_of(key, blocks)[i]).status == Status::Valid,
{
    let passed = scan_outcomes(key, blocks);
    assert forall|i: int| 0 <= i < passed.len() implies passed[i] by {
        let block = blocks[blocks.len() - 1 - i];
        assert(accepts(key, block.data, block.signature));
    }
    lemma_untampered(passed);
}

/// A scan of blocks of which none verifies marks every block as `Tampered`.
pub proof fn lemma_scan_all_tampered(key: Seq<u8>, blocks: Seq<BlockView>)
    requires
        forall|i: int|
            0 <= i < blocks.len() ==> !accepts(
                key,
                (#[trigger] blocks[i]).data,
                blocks[i].signature,
            ),
    ensures
        forall|i: int|
            0 <= i < blocks.len() ==> (#[trigger] scan_of(key, blocks)[i]).status
                == Status::Tampered,
{
    let passed = scan_outcomes(key, blocks);
    assert forall|i: int| 0 <= i < passed.len() implies !passed[i] by {
        let block = blocks[blocks.len() - 1 - i];
        assert(!accepts(key, block.data, block.signature));
    }
    lemma_all_tampered(passed);
}

/// In a scan, trust that was established stays: after a block that is
/// `Recovered` or `Valid`, a block visited later is `Valid` if it verifies and
/// `Tampered` if not, and never `Recovered`.
pub proof fn lemma_scan_recovery_is_permanent(key: Seq<u8>, blocks: Seq<BlockView>, i: int, k: int)
    requires
        0 <= i < k < blocks.len(),
        scan_of(key, blocks)[i].status != Status::Tampered,
    ensures
        scan_of(key, blocks)[k].status == (if accepts(
            key,
            scan_of(key, blocks)[k].block.data,
            scan_of(key, blocks)[k].block.signature,
        ) {
            Status::Valid
        } else {
            Status::Tampered
        }),
{
    lemma_recovery_is_permanent(scan_outcomes(key, blocks), i, k);
}

/// In a scan, a status that was given is final. Blocks that stand earlier in
/// the chain are visited later, and whatever they are, the scan says of the
/// blocks visited before them what it says without them.
pub proof fn lemma_scan_status_is_final(
    key: Seq<u8>,
    earlier: Seq<BlockView>,
    blocks: Seq<BlockView>,
    i: int,
)
    requires
        0 <= i < blocks.len(),
    ensures
        scan_of(key, earlier + blocks)[i] == scan_of(key, blocks)[i],
{
    let all = earlier + blocks;
    assert forall|j: int| 0 <= j <= i implies scan_outcomes(key, all)[j] == scan_outcomes(
        key,
        blocks,
    )[j] by {
        assert(all[all.len() - 1 - j] == blocks[blocks.len() - 1 - j]);
    }
    lemma_status_is_final(scan_outcomes(key, all), scan_outcomes(key, blocks), i);
    assert(all[all.len() - 1 - i] == blocks[blocks.len() - 1 - i]);
}

} // verus!
