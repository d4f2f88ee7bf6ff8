//! Turning a sequencer block into signed blobs, one per rollup namespace and
//! one for the base namespace.
use vstd::prelude::*;
use crate::codec::lemma_skip_skip;
use crate::crypto::{
    ed25519_accepts, ed25519_key_decodes, ed25519_public_key_of, ed25519_signature_of, sha256_of,
    SequencerSigningKey,
};
use crate::namespace_data::{
    enc_envelope, enc_rollup, enc_sequencer, NamespaceData, RollupNamespaceData, RollupView,
    SequencerNamespaceData, SequencerView,
};
use crate::types::{
    base_namespace_id, blobs_view, keys_unique, namespaces_view, txs_view, Blob, BlockView,
    Namespace, SequencerBlockData,
};

verus! {

/// The encoded envelope of `payload` signed with the key of seed `seed`.
pub open spec fn signed_bytes(payload: Seq<u8>, seed: Seq<u8>) -> Seq<u8> {
    enc_envelope(
        payload,
        ed25519_public_key_of(seed),
        ed25519_signature_of(seed, sha256_of(payload)),
    )
}

/// The rollup data written for the `i`-th rollup of `block`.
pub open spec fn rollup_payload(block: BlockView, i: int) -> RollupView {
    RollupView { block_hash: block.block_hash, txs: block.rollups[i].1 }
}

/// The sequencer data written for `block`: its rollup namespaces in order.
pub open spec fn sequencer_payload(block: BlockView) -> SequencerView {
    SequencerView {
        block_hash: block.block_hash,
        header: block.header,
        last_commit: block.last_commit,
        namespaces: block.rollups.map_values(|e: (Seq<u8>, Seq<(u64, Seq<u8>)>)| e.0),
    }
}

/// The blobs of `block` signed with the key of seed `seed`: one per rollup, in
/// order, then the sequencer blob in the base namespace.
pub open spec fn assembled(block: BlockView, seed: Seq<u8>) -> Seq<(Seq<u8>, Seq<u8>)> {
    Seq::new(
        block.rollups.len(),
        |i: int| (block.rollups[i].0, signed_bytes(enc_rollup(rollup_payload(block, i)), seed)),
    ).push((base_namespace_id(), signed_bytes(enc_sequencer(sequencer_payload(block)), seed)))
}

/// Whether the sequencer key of seed `seed` is a valid verification key that
/// accepts its own signature, of signature length, on every rollup payload of `v`.
pub open spec fn signatures_hold(v: BlockView, seed: Seq<u8>) -> bool {
    &&& ed25519_key_decodes(ed25519_public_key_of(seed))
    &&& forall|i: int|
        0 <= i < v.rollups.len() ==> {
            let digest = sha256_of(enc_rollup(#[trigger] rollup_payload(v, i)));
            &&& ed25519_signature_of(seed, digest).len() == 64
            &&& ed25519_accepts(
                ed25519_public_key_of(seed),
                ed25519_signature_of(seed, digest),
                digest,
            )
        }
}

/// Why a block could not be turned into blobs.
#[derive(Debug, Clone, Copy, PartialEq, Eq, Structural)]
pub enum AssemblyError {
    /// A rollup namespace does not have the namespace width.
    MalformedNamespace,
    /// A rollup namespace appears twice in the block.
    DuplicateNamespace,
}

/// Whether every rollup namespace of `block` has the namespace width.
pub open spec fn namespaces_wf(block: SequencerBlockData) -> bool {
    forall|i: int| 0 <= i < block.rollup_txs@.len() ==> (#[trigger] block.rollup_txs@[i]).0.wf()
}

/// What checking `block` before assembly gives.
pub open spec fn block_check(block: SequencerBlockData) -> Result<(), AssemblyError> {
    if !namespaces_wf(block) {
        Err(AssemblyError::MalformedNamespace)
    } else if !keys_unique(block@.rollups) {
        Err(AssemblyError::DuplicateNamespace)
    } else {
        Ok(())
    }
}

/// Checks that the block's rollup namespaces are well formed and distinct.
pub fn check_block(block: &SequencerBlockData) -> (r: Result<(), AssemblyError>)
    ensures
        r == block_check(*block),
        r is Ok <==> block.wf(),
{
    let n = block.rollup_txs.len();
    let mut i: usize = 0;
    while i < n
        invariant
            n == block.rollup_txs@.len(),
            i <= n,
            forall|k: int| 0 <= k < i ==> (#[trigger] block.rollup_txs@[k]).0.wf(),
        decreases n - i,
    {
        if block.rollup_txs[i].0.id.len() != 8 {
            return Err(AssemblyError::MalformedNamespace);
        }
        i = i + 1;
    }
    let ghost rs = block@.rollups;
    let mut i: usize = 0;
    while i < n
        invariant
            n == block.rollup_txs@.len(),
            rs == block@.rollups,
            namespaces_wf(*block),
            i <= n,
            forall|a: int, b: int| 0 <= a < b < i ==> #[trigger] rs[a].0 != #[trigger] rs[b].0,
        decreases n - i,
    {
        let mut j: usize = 0;
        while j < i
            invariant
                n == block.rollup_txs@.len(),
                rs == block@.rollups,
                namespaces_wf(*block),
                i < n,
                j <= i,
                forall|a: int| 0 <= a < j ==> #[trigger] rs[a].0 != rs[i as int].0,
            decreases i - j,
        {
            if block.rollup_txs[j].0.same(&block.rollup_txs[i].0) {
                assert(rs[j as int].0 == rs[i as int].0);
                assert(!keys_unique(rs));
                return Err(AssemblyError::DuplicateNamespace);
            }
            j = j + 1;
        }
        i = i + 1;
    }
    Ok(())
}

/// Turns `block_data` into blobs signed with `signing_key`: for each rollup, in
/// order, its transactions with the block hash in the rollup's namespace; then
/// the block's hash, header, commit and rollup namespaces in the base namespace.
pub fn assemble_blobs_from_sequencer_block_data(
    block_data: SequencerBlockData,
    signing_key: &SequencerSigningKey,
) -> (r: Result<Vec<Blob>, AssemblyError>)
    ensures
        match r {
            Ok(blobs) => block_data.wf() && blobs_view(blobs@) == assembled(
                block_data@,
                signing_key.seed(),
            ) && signatures_hold(block_data@, signing_key.seed()),
            Err(e) => block_check(block_data) == Err::<(), AssemblyError>(e),
        },
{
    match check_block(&block_data) {
        Ok(()) => {},
        Err(e) => return Err(e),
    }
    let ghost bv = block_data@;
    let ghost seed = signing_key.seed();
    let SequencerBlockData { block_hash, header, last_commit, rollup_txs } = block_data;
    let mut rest = rollup_txs;
    let ghost all = rest@;
    let mut blobs: Vec<Blob> = Vec::new();
    let mut namespaces: Vec<Namespace> = Vec::new();
    let ghost mut i: int = 0;
    while rest.len() > 0
        invariant
            0 <= i <= bv.rollups.len(),
            all.len() == bv.rollups.len(),
            rest@ == all.skip(i),
            block_hash@ == bv.block_hash,
            forall|k: int|
                0 <= k < all.len() ==> (#[trigger] all[k]).0@ == bv.rollups[k].0 && txs_view(
                    all[k].1@,
                ) == bv.rollups[k].1,
            blobs_view(blobs@) == Seq::new(
                i as nat,
                |k: int| (bv.rollups[k].0, signed_bytes(enc_rollup(rollup_payload(bv, k)), seed)),
            ),
            namespaces_view(namespaces@) == bv.rollups.take(i).map_values(
                |e: (Seq<u8>, Seq<(u64, Seq<u8>)>)| e.0,
            ),
            signing_key.seed() == seed,
            forall|k: int|
                0 <= k < i ==> {
                    let digest = sha256_of(enc_rollup(#[trigger] rollup_payload(bv, k)));
                    &&& ed25519_signature_of(seed, digest).len() == 64
                    &&& ed25519_accepts(
                        ed25519_public_key_of(seed),
                        ed25519_signature_of(seed, digest),
                        digest,
                    )
                },
        decreases rest.len(),
    {
        assert(rest@.len() == all.len() - i);
        let (namespace, txs) = rest.remove(0);
        assert(all[i] == (namespace, txs));
        let rollup = RollupNamespaceData { block_hash: block_hash.clone(), rollup_txs: txs };
        assert(rollup@ == rollup_payload(bv, i));
        let signed = rollup.to_signed(signing_key);
        let data = signed.to_bytes();
        assert(data@ == signed_bytes(enc_rollup(rollup_payload(bv, i)), seed));
        assert(namespace@ == bv.rollups[i].0);
        let ghost old_blobs = blobs@;
        let ghost old_nss = namespaces@;
        namespaces.push(namespace.copy_of());
        blobs.push(Blob { namespace, data });
        assert(blobs_view(blobs@) == blobs_view(old_blobs).push(
            (bv.rollups[i].0, signed_bytes(enc_rollup(rollup_payload(bv, i)), seed)),
        ));
        assert(namespaces_view(namespaces@) == namespaces_view(old_nss).push(bv.rollups[i].0));
        assert(bv.rollups.take(i + 1) == bv.rollups.take(i).push(bv.rollups[i]));
        proof {
            lemma_skip_skip(all, i, 1);
            i = i + 1;
        }
        assert(blobs_view(blobs@) =~= Seq::new(
            i as nat,
            |k: int| (bv.rollups[k].0, signed_bytes(enc_rollup(rollup_payload(bv, k)), seed)),
        ));
        assert(namespaces_view(namespaces@) =~= bv.rollups.take(i).map_values(
            |e: (Seq<u8>, Seq<(u64, Seq<u8>)>)| e.0,
        ));
    }
    assert(i == bv.rollups.len());
    assert(bv.rollups.take(i) =~= bv.rollups);
    let sequencer = SequencerNamespaceData {
        block_hash,
        header,
        last_commit,
        rollup_namespaces: namespaces,
    };
    assert(sequencer@ =~= sequencer_payload(bv));
    let signed = sequencer.to_signed(signing_key);
    let data = signed.to_bytes();
    let ghost before = blobs@;
    blobs.push(Blob { namespace: Namespace::base(), data });
    assert(blobs_view(blobs@) =~= assembled(bv, seed));
    Ok(blobs)
}

/// The blobs of a batch: those of each well-formed block in order; a block
/// that is not well formed contributes none.
pub open spec fn batch_blobs(blocks: Seq<SequencerBlockData>, seed: Seq<u8>) -> Seq<
    (Seq<u8>, Seq<u8>),
>
    decreases blocks.len(),
{
    if blocks.len() == 0 {
        Seq::empty()
    } else {
        let last = blocks.last();
        batch_blobs(blocks.drop_last(), seed) + if last.wf() {
            assembled(last@, seed)
        } else {
            Seq::empty()
        }
    }
}

/// Turns every block of a batch into blobs, skipping each block that cannot
/// be assembled, so that one bad block does not hold back the others.
pub fn assemble_blobs_for_blocks(blocks: Vec<SequencerBlockData>, signing_key: &SequencerSigningKey) -> (r: Vec<Blob>)
    ensures
        blobs_view(r@) == batch_blobs(blocks@, signing_key.seed()),
{
    let ghost all = blocks@;
    let mut rest = blocks;
    let mut out: Vec<Blob> = Vec::new();
    let ghost mut i: int = 0;
    while rest.len() > 0
        invariant
            0 <= i <= all.len(),
            rest@ == all.skip(i),
            blobs_view(out@) == batch_blobs(all.take(i), signing_key.seed()),
        decreases rest.len(),
    {
        assert(rest@.len() == all.len() - i);
        let block = rest.remove(0);
        assert(all[i] == block);
        assert(all.take(i + 1).drop_last() =~= all.take(i));
        assert(all.take(i + 1).last() == block);
        match assemble_blobs_from_sequencer_block_data(block, signing_key) {
            Ok(mut blobs) => {
                let ghost before = out@;
                out.append(&mut blobs);
                assert(blobs_view(out@) =~= blobs_view(before) + assembled(
                    all[i]@,
                    signing_key.seed(),
                ));
            },
            Err(_) => {
                assert(batch_blobs(all.take(i + 1), signing_key.seed()) =~= batch_blobs(
                    all.take(i),
                    signing_key.seed(),
                ));
            },
        }
        proof {
            lemma_skip_skip(all, i, 1);
            i = i + 1;
        }
    }
    assert(all.take(i) =~= all);
    out
}

} // verus!
