//! Rebuilding a verified sequencer block from the sequencer envelope and the
//! blobs retrieved from its rollup namespaces.
use vstd::prelude::*;
use crate::crypto::{decode_verification_key, ed25519_key_decodes, sha256_of, VerifyingKey};
use crate::namespace_data::{
    check_signature, enc_rollup, parse_signed_rollup, parse_signed_sequencer, signature_check, NamespaceData,
    RollupNamespaceData, SequencerNamespaceData, SequencerView, SignedNamespaceData,
};
use crate::types::{
    blobs_view, txs_view, Blob, BlockView, IndexedTransaction, Namespace,
    SequencerBlockData,
};

verus! {

/// Rollup entries keyed by namespace: `None` marks a namespace whose data was
/// read but rejected.
pub type Entries = Seq<(Seq<u8>, Option<Seq<(u64, Seq<u8>)>>)>;

/// Whether rollup data read from a blob belongs to the block with hash
/// `block_hash` and carries a valid signature under the sequencer key `key`.
pub open spec fn accepted(
    data: crate::namespace_data::RollupView,
    sig: Seq<u8>,
    block_hash: Seq<u8>,
    key: Seq<u8>,
) -> bool {
    &&& data.block_hash == block_hash
    &&& signature_check(key, sig, sha256_of(enc_rollup(data))) is Ok
}

/// Whether `ns` is a key of `m`.
pub open spec fn has_key(m: Entries, ns: Seq<u8>) -> bool {
    exists|k: int| 0 <= k < m.len() && (#[trigger] m[k]).0 == ns
}

/// `m` with the entry of `ns` set to `v`: replaced where `ns` is a key, else added at the end.
pub open spec fn upsert(m: Entries, ns: Seq<u8>, v: Option<Seq<(u64, Seq<u8>)>>) -> Entries {
    if has_key(m, ns) {
        m.map_values(
            |e: (Seq<u8>, Option<Seq<(u64, Seq<u8>)>>)|
                if e.0 == ns {
                    (ns, v)
                } else {
                    e
                },
        )
    } else {
        m.push((ns, v))
    }
}

/// The entries of the blobs in order: a blob that does not decode as a rollup
/// envelope, or whose rollup data is not accepted for the block, is passed
/// over; an accepted one sets its namespace's entry to its transactions.
pub open spec fn keyed(blobs: Seq<(Seq<u8>, Seq<u8>)>, block_hash: Seq<u8>, key: Seq<u8>) -> Entries
    decreases blobs.len(),
{
    if blobs.len() == 0 {
        Seq::empty()
    } else {
        let prev = keyed(blobs.drop_last(), block_hash, key);
        let b = blobs.last();
        match parse_signed_rollup(b.1) {
            None => prev,
            Some((data, _pk, sig)) => if accepted(data, sig, block_hash, key) {
                upsert(prev, b.0, Some(data.txs))
            } else {
                prev
            },
        }
    }
}

/// The accepted entries, in order.
pub open spec fn present(m: Entries) -> Seq<(Seq<u8>, Seq<(u64, Seq<u8>)>)>
    decreases m.len(),
{
    if m.len() == 0 {
        Seq::empty()
    } else {
        present(m.drop_last()) + match m.last().1 {
            Some(t) => seq![(m.last().0, t)],
            None => Seq::empty(),
        }
    }
}

/// The block rebuilt from sequencer data `seq` with public key `key` and the
/// retrieved rollup blobs.
pub open spec fn rebuilt_block(seq: SequencerView, key: Seq<u8>, blobs: Seq<(Seq<u8>, Seq<u8>)>) -> BlockView {
    BlockView {
        block_hash: seq.block_hash,
        header: seq.header,
        last_commit: seq.last_commit,
        rollups: present(keyed(blobs, seq.block_hash, key)),
    }
}

/// Whether no key appears twice in `m`.
pub open spec fn entries_unique(m: Entries) -> bool {
    forall|i: int, j: int| 0 <= i < j < m.len() ==> #[trigger] m[i].0 != #[trigger] m[j].0
}

/// What the transport gave back for a fetch of the rollup namespaces.
#[derive(Debug, Clone)]
pub enum FetchOutcome {
    /// The blobs stored under the namespaces.
    Found(Vec<Blob>),
    /// The transport reported that no blob was found.
    NotFound,
    /// Any other transport failure, with its message.
    Failed(String),
}

/// Why a block could not be reconstructed.
#[derive(Debug, Clone, PartialEq, Eq)]
pub enum ReconstructError {
    /// The sequencer envelope's public key is not a valid verification key.
    MalformedKey,
    /// The transport failed for a reason other than absence.
    Transport(String),
}

type Working = Vec<(Namespace, Option<Vec<IndexedTransaction>>)>;

/// The model of an optional list of transactions.
pub open spec fn opt_txs_view(v: Option<Vec<IndexedTransaction>>) -> Option<Seq<(u64, Seq<u8>)>> {
    match v {
        Some(t) => Some(txs_view(t@)),
        None => None,
    }
}

/// The model of the working entries.
pub open spec fn working_view(m: Seq<(Namespace, Option<Vec<IndexedTransaction>>)>) -> Entries {
    m.map_values(
        |e: (Namespace, Option<Vec<IndexedTransaction>>)|
(e.0@, opt_txs_view(e.1)),
    )
}

fn find_namespace(m: &Working, ns: &Namespace) -> (r: Option<usize>)
    ensures
        match r {
            Some(k) => k < m@.len() && working_view(m@)[k as int].0 == ns@,
            None => !has_key(working_view(m@), ns@),
        },
{
    let mut j: usize = 0;
    while j < m.len()
        invariant
            j <= m@.len(),
            forall|k: int| 0 <= k < j ==> (#[trigger] working_view(m@)[k]).0 != ns@,
        decreases m.len() - j,
    {
        if m[j].0.same(ns) {
            return Some(j);
        }
        j = j + 1;
    }
    None
}

fn upsert_entry(m: &mut Working, ns: Namespace, v: Option<Vec<IndexedTransaction>>)
    requires
        entries_unique(working_view(old(m)@)),
    ensures
        working_view(final(m)@) == upsert(
            working_view(old(m)@),
            ns@,
            opt_txs_view(v),
        ),
        entries_unique(working_view(final(m)@)),
{
    let ghost w = working_view(m@);
    let ghost vv = opt_txs_view(v);
    match find_namespace(m, &ns) {
        Some(k) => {
            let ghost nsv = ns@;
            m.set(k, (ns, v));
            assert(has_key(w, nsv));
            assert forall|j: int| 0 <= j < w.len() implies working_view(m@)[j] == (if w[j].0
                == nsv {
                (nsv, vv)
            } else {
                w[j]
            }) by {
                if j != k {
                    assert(w[j].0 != w[k as int].0 || j == k);
                }
            }
            assert(working_view(m@) =~= upsert(w, nsv, vv));
        },
        None => {
            m.push((ns, v));
            assert(working_view(m@) =~= w.push((ns@, vv)));
        },
    }
}

/// Decodes a retrieved blob as rollup data, and decides whether it belongs to
/// the block with hash `block_hash` and carries a valid signature under `key`.
fn read_rollup_blob(blob: &Blob, block_hash: &Vec<u8>, key: &VerifyingKey) -> (r: Option<
    (RollupNamespaceData, bool),
>)
    ensures
        match r {
            None => parse_signed_rollup(blob.data@) is None,
            Some((d, ok)) => parse_signed_rollup(blob.data@) matches Some((dv, _pk, sig)) && dv
                == d@ && ok == accepted(dv, sig, block_hash@, key.bytes()),
        },
{
    let envelope = match SignedNamespaceData::<RollupNamespaceData>::from_bytes(&blob.data) {
        Some(e) => e,
        None => return None,
    };
    if !crate::bytes::bytes_eq(&envelope.data.block_hash, block_hash) {
        return Some((envelope.data, false));
    }
    let digest = envelope.data.hash_serialized_bytes();
    let ok = check_signature(key, &envelope.signature, &digest).is_ok();
    Some((envelope.data, ok))
}

fn copy_bytes(b: &Vec<u8>) -> (r: Vec<u8>)
    ensures
        r@ == b@,
{
    b.clone()
}

/// Rebuilds the block described by `envelope` from the rollup blobs retrieved
/// for it, keeping for each namespace the rollup data that carries the block's
/// hash and is signed by the sequencer envelope's key.
pub fn rebuild_block(envelope: &SignedNamespaceData<SequencerNamespaceData>, blobs: &Vec<Blob>) -> (r: Result<
    SequencerBlockData,
    ReconstructError,
>)
    ensures
        match r {
            Ok(b) => ed25519_key_decodes(envelope.public_key@) && b@ == rebuilt_block(
                envelope.data@,
                envelope.public_key@,
                blobs_view(blobs@),
            ),
            Err(e) => !ed25519_key_decodes(envelope.public_key@) && e is MalformedKey,
        },
{
    let key = match decode_verification_key(&envelope.public_key) {
        Some(k) => k,
        None => return Err(ReconstructError::MalformedKey),
    };
    let ghost bh = envelope.data.block_hash@;
    let ghost kb = envelope.public_key@;
    let ghost bv = blobs_view(blobs@);
    let mut m: Working = Vec::new();
    let mut i: usize = 0;
    while i < blobs.len()
        invariant
            i <= blobs@.len(),
            bv == blobs_view(blobs@),
            key.bytes() == kb,
            bh == envelope.data.block_hash@,
            working_view(m@) == keyed(bv.take(i as int), bh, kb),
            entries_unique(working_view(m@)),
        decreases blobs.len() - i,
    {
        assert(bv.take(i + 1).drop_last() =~= bv.take(i as int));
        assert(bv.take(i + 1).last() == blobs@[i as int]@);
        match read_rollup_blob(&blobs[i], &envelope.data.block_hash, &key) {
            None => {},
            Some((data, ok)) => {
                if ok {
                    let ns = blobs[i].namespace.copy_of();
                    upsert_entry(&mut m, ns, Some(data.rollup_txs));
                }
            },
        }
        i = i + 1;
    }
    assert(bv.take(i as int) =~= bv);
    let ghost w = working_view(m@);
    let mut rollup_txs: Vec<(Namespace, Vec<IndexedTransaction>)> = Vec::new();
    let mut rest = m;
    let ghost all = rest@;
    let ghost mut j: int = 0;
    while rest.len() > 0
        invariant
            0 <= j <= all.len(),
            rest@ == all.skip(j),
            w == working_view(all),
            rollup_txs@.map_values(
                |e: (Namespace, Vec<IndexedTransaction>)| (e.0@, txs_view(e.1@)),
            ) == present(w.take(j)),
        decreases rest.len(),
    {
        assert(rest@.len() == all.len() - j);
        let (ns, entry) = rest.remove(0);
        assert(all[j] == (ns, entry));
        assert(w.take(j + 1).drop_last() =~= w.take(j));
        assert(w.take(j + 1).last() == w[j]);
        let ghost before = rollup_txs@;
        match entry {
            Some(txs) => {
                rollup_txs.push((ns, txs));
            },
            None => {},
        }
        assert(rollup_txs@.map_values(
            |e: (Namespace, Vec<IndexedTransaction>)| (e.0@, txs_view(e.1@)),
        ) =~= present(w.take(j + 1)));
        proof {
            assert(all.skip(j).skip(1) =~= all.skip(j + 1));
            j = j + 1;
        }
    }
    assert(w.take(j) =~= w);
    let last_commit = match &envelope.data.last_commit {
        Some(c) => Some(copy_bytes(c)),
        None => None,
    };
    let block = SequencerBlockData {
        block_hash: copy_bytes(&envelope.data.block_hash),
        header: copy_bytes(&envelope.data.header),
        last_commit,
        rollup_txs,
    };
    assert(block@ =~= rebuilt_block(envelope.data@, envelope.public_key@, bv));
    Ok(block)
}

/// Reconstructs the block described by `envelope` from what the fetch of its
/// rollup namespaces gave: nothing when the transport found no blob, the
/// transport's error when it failed otherwise, else the rebuilt block.
pub fn reconstruct_block(
    envelope: &SignedNamespaceData<SequencerNamespaceData>,
    fetched: FetchOutcome,
) -> (r: Result<Option<SequencerBlockData>, ReconstructError>)
    ensures
        !ed25519_key_decodes(envelope.public_key@) ==> r matches Err(ReconstructError::MalformedKey),
        ed25519_key_decodes(envelope.public_key@) ==> match fetched {
            FetchOutcome::NotFound => r matches Ok(None),
            FetchOutcome::Failed(msg) => r matches Err(ReconstructError::Transport(m)) && m == msg,
            FetchOutcome::Found(blobs) => r matches Ok(Some(b)) && b@ == rebuilt_block(
                envelope.data@,
                envelope.public_key@,
                blobs_view(blobs@),
            ),
        },
{
    match decode_verification_key(&envelope.public_key) {
        Some(_) => {},
        None => return Err(ReconstructError::MalformedKey),
    }
    match fetched {
        FetchOutcome::NotFound => Ok(None),
        FetchOutcome::Failed(msg) => Err(ReconstructError::Transport(msg)),
        FetchOutcome::Found(blobs) => match rebuild_block(envelope, &blobs) {
            Ok(b) => Ok(Some(b)),
            Err(e) => Err(e),
        },
    }
}

/// The sequencer envelopes read from blobs of the base namespace, in order:
/// a blob that does not decode as one is passed over, since the namespace may
/// hold unrelated data.
pub open spec fn sequencer_envelopes(blobs: Seq<(Seq<u8>, Seq<u8>)>) -> Seq<
    (SequencerView, Seq<u8>, Seq<u8>),
>
    decreases blobs.len(),
{
    if blobs.len() == 0 {
        Seq::empty()
    } else {
        sequencer_envelopes(blobs.drop_last()) + match parse_signed_sequencer(blobs.last().1) {
            Some(x) => seq![x],
            None => Seq::empty(),
        }
    }
}

/// The model of a list of sequencer envelopes.
pub open spec fn envelopes_view(envs: Seq<SignedNamespaceData<SequencerNamespaceData>>) -> Seq<
    (SequencerView, Seq<u8>, Seq<u8>),
> {
    envs.map_values(
        |e: SignedNamespaceData<SequencerNamespaceData>| (e.data@, e.public_key@, e.signature@),
    )
}

/// Decodes every blob that holds a sequencer envelope, passing over the others.
/// The envelopes are not verified here.
pub fn sequencer_envelopes_from_blobs(blobs: &Vec<Blob>) -> (r: Vec<
    SignedNamespaceData<SequencerNamespaceData>,
>)
    ensures
        envelopes_view(r@) == sequencer_envelopes(blobs_view(blobs@)),
{
    let ghost bv = blobs_view(blobs@);
    let mut out: Vec<SignedNamespaceData<SequencerNamespaceData>> = Vec::new();
    let mut i: usize = 0;
    while i < blobs.len()
        invariant
            i <= blobs@.len(),
            bv == blobs_view(blobs@),
            envelopes_view(out@) == sequencer_envelopes(bv.take(i as int)),
        decreases blobs.len() - i,
    {
        assert(bv.take(i + 1).drop_last() =~= bv.take(i as int));
        assert(bv.take(i + 1).last() == blobs@[i as int]@);
        let ghost before = out@;
        match SignedNamespaceData::<SequencerNamespaceData>::from_bytes(&blobs[i].data) {
            Some(e) => {
                out.push(e);
            },
            None => {},
        }
        assert(envelopes_view(out@) =~= sequencer_envelopes(bv.take(i + 1)));
        i = i + 1;
    }
    assert(bv.take(i as int) =~= bv);
    out
}

} // verus!
