//! Assembly of the proof that accompanies a transferred block.
//!
//! The wire carries the audit path as a list of nodes and the signature as
//! bytes. Storage wants the nodes in the order received and the signature
//! either as one that parses or not at all: whether a block is admitted is
//! storage's decision, so a signature that does not parse is dropped here, not
//! reported.

use vstd::prelude::*;
use vstd::slice::slice_to_vec;
use crate::message::DataNode;

verus! {

/// Number of bytes of a signature.
pub const SIGNATURE_BYTES: usize = 64;

/// One node of a merkle audit path: its position in the tree, its hash, and
/// the number of bytes under it.
#[derive(Clone, Debug, PartialEq, Eq)]
pub struct ProofNode {
    pub index: u64,
    pub hash: Vec<u8>,
    pub size: u64,
}

/// The evidence that storage checks before it admits block `index`.
#[derive(Clone, Debug, PartialEq, Eq)]
pub struct Proof {
    pub index: u64,
    pub nodes: Vec<ProofNode>,
    pub signature: Option<Vec<u8>>,
}

/// Mathematical value of a [`ProofNode`].
pub ghost struct ProofNodeView {
    pub index: u64,
    pub hash: Seq<u8>,
    pub size: u64,
}

/// Mathematical value of a [`Proof`].
pub ghost struct ProofView {
    pub index: u64,
    pub nodes: Seq<ProofNodeView>,
    pub signature: Option<Seq<u8>>,
}

impl View for ProofNode {
    type V = ProofNodeView;

    open spec fn view(&self) -> ProofNodeView {
        ProofNodeView { index: self.index, hash: self.hash@, size: self.size }
    }
}

impl View for Proof {
    type V = ProofView;

    open spec fn view(&self) -> ProofView {
        ProofView {
            index: self.index,
            nodes: self.nodes@.map_values(|n: ProofNode| n@),
            signature: match self.signature {
                Some(s) => Some(s@),
                None => None,
            },
        }
    }
}

/// Whether `hypercore::Signature::from_bytes` accepts `bytes`.
pub uninterp spec fn signature_accepted(bytes: Seq<u8>) -> bool;

/// The proof node that a wire node stands for.
pub open spec fn proof_node_of(node: DataNode) -> ProofNodeView {
    ProofNodeView { index: node.index, hash: node.hash@, size: node.size }
}

/// The proof for block `index` with the given audit path, where `accepted`
/// says whether the signature bytes parse.
pub open spec fn assembled(
    index: u64,
    nodes: Seq<DataNode>,
    signature: Seq<u8>,
    accepted: bool,
) -> ProofView {
    ProofView {
        index,
        nodes: nodes.map_values(|n: DataNode| proof_node_of(n)),
        signature: if accepted {
            Some(signature)
        } else {
            None
        },
    }
}

/// Calls `hypercore::Signature::from_bytes` and says whether it returned a
/// signature. That function refuses every input that is not
/// [`SIGNATURE_BYTES`] long, and accepts every input of that length whose last
/// byte has its four high bits clear; between the two it compares the second
/// half of the input with the order of the curve's base point. Its verdict is
/// named [`signature_accepted`].
#[verifier::external_body]
fn signature_parses(bytes: &[u8]) -> (accepted: bool)
    ensures
        accepted == signature_accepted(bytes@),
        bytes@.len() != SIGNATURE_BYTES ==> !accepted,
        bytes@.len() == SIGNATURE_BYTES && bytes@[SIGNATURE_BYTES - 1] < 16 ==> accepted,
{
    hypercore::Signature::from_bytes(bytes).is_ok()
}

/// Builds the proof for block `index` once it is known whether the signature
/// parses: the nodes in the order given, and the signature bytes only where
/// `accepted`.
pub fn assemble_with(index: u64, nodes: &[DataNode], signature: &[u8], accepted: bool) -> (proof:
    Proof)
    ensures
        proof@ == assembled(index, nodes@, signature@, accepted),
{
    let mut path: Vec<ProofNode> = Vec::new();
    let mut i: usize = 0;
    while i < nodes.len()
        invariant
            i <= nodes.len(),
            path@.len() == i,
            forall|k: int| 0 <= k < i ==> (#[trigger] path@[k])@ == proof_node_of(nodes@[k]),
        decreases nodes.len() - i,
    {
        let node = &nodes[i];
        let hash = slice_to_vec(node.hash.as_slice());
        path.push(ProofNode { index: node.index, hash, size: node.size });
        i = i + 1;
    }
    let kept: Option<Vec<u8>> = if accepted {
        Some(slice_to_vec(signature))
    } else {
        None
    };
    let proof = Proof { index, nodes: path, signature: kept };
    assert(proof@.nodes =~= nodes@.map_values(|n: DataNode| proof_node_of(n)));
    proof
}

/// Builds the proof for block `index` from the fields of a `Data` message.
///
/// The nodes keep their order. The signature is kept where it parses and is
/// absent where it does not; assembly itself never fails.
pub fn assemble(index: u64, nodes: &[DataNode], signature: &[u8]) -> (proof: Proof)
    ensures
        proof@ == assembled(index, nodes@, signature@, signature_accepted(signature@)),
        signature@.len() != SIGNATURE_BYTES ==> proof@.signature is None,
        signature@.len() == SIGNATURE_BYTES && signature@[SIGNATURE_BYTES - 1] < 16
            ==> proof@.signature == Some(signature@),
{
    let accepted = signature_parses(signature);
    assemble_with(index, nodes, signature, accepted)
}

} // verus!
