//! Properties that relate assembly, encoding and reconstruction.
use vstd::prelude::*;
use crate::assemble::{
    assembled, batch_blobs, rollup_payload, sequencer_payload, signed_bytes, signatures_hold,
};
use crate::crypto::{
    ed25519_accepts, ed25519_public_key_of, ed25519_signature_of, sha256_of,
};
use crate::namespace_data::{
    enc_rollup, enc_sequencer, lemma_envelope_round_trip, lemma_sequencer_round_trip,
    lemma_signed_rollup_round_trip, parse_signed_rollup, parse_signed_sequencer, txs_fit,
    SequencerView,
};
use crate::reconstruct::{
    accepted, has_key, keyed, present, rebuilt_block, upsert, Entries,
};
use crate::types::{keys_unique, BlockView, SequencerBlockData, NAMESPACE_LEN};

verus! {

/// Whether every length in `v`, and in what is written for it with the key of
/// seed `seed`, fits a length field.
pub open spec fn block_fits(v: BlockView, seed: Seq<u8>) -> bool {
    &&& v.block_hash.len() <= u64::MAX
    &&& v.header.len() <= u64::MAX
    &&& (v.last_commit matches Some(c) ==> c.len() <= u64::MAX)
    &&& v.rollups.len() <= u64::MAX
    &&& ed25519_public_key_of(seed).len() <= u64::MAX
    &&& enc_sequencer(sequencer_payload(v)).len() <= u64::MAX
    &&& ed25519_signature_of(seed, sha256_of(enc_sequencer(sequencer_payload(v)))).len()
        <= u64::MAX
    &&& forall|i: int|
        0 <= i < v.rollups.len() ==> {
            &&& txs_fit(#[trigger] v.rollups[i].1)
            &&& enc_rollup(rollup_payload(v, i)).len() <= u64::MAX
            &&& ed25519_signature_of(seed, sha256_of(enc_rollup(rollup_payload(v, i)))).len()
                <= u64::MAX
        }
}

/// Whether the namespaces of `v` are all of namespace width and distinct.
pub open spec fn block_view_wf(v: BlockView) -> bool {
    &&& keys_unique(v.rollups)
    &&& forall|i: int| 0 <= i < v.rollups.len() ==> (#[trigger] v.rollups[i]).0.len() == NAMESPACE_LEN
}

proof fn lemma_rollup_blob_decodes(v: BlockView, seed: Seq<u8>, i: int)
    requires
        0 <= i < v.rollups.len(),
        block_fits(v, seed),
        signatures_hold(v, seed),
    ensures
        assembled(v, seed)[i].0 == v.rollups[i].0,
        parse_signed_rollup(assembled(v, seed)[i].1) matches Some((d, _pk, sig)) && d
            == rollup_payload(v, i) && accepted(d, sig, v.block_hash, ed25519_public_key_of(seed)),
{
    let pk = ed25519_public_key_of(seed);
    let p = rollup_payload(v, i);
    assert(txs_fit(v.rollups[i].1));
    let digest = sha256_of(enc_rollup(p));
    let sig = ed25519_signature_of(seed, digest);
    lemma_signed_rollup_round_trip(p, pk, sig);
    assert(assembled(v, seed)[i] == (v.rollups[i].0, signed_bytes(enc_rollup(p), seed)));
    assert(ed25519_accepts(pk, sig, digest) && sig.len() == 64);
}

#[verifier::rlimit(60)]
proof fn lemma_keyed_assembled(v: BlockView, seed: Seq<u8>, n: int)
    requires
        0 <= n <= v.rollups.len(),
        block_view_wf(v),
        block_fits(v, seed),
        signatures_hold(v, seed),
    ensures
        keyed(assembled(v, seed).take(n), v.block_hash, ed25519_public_key_of(seed)) == Seq::new(
            n as nat,
            |k: int| (v.rollups[k].0, Some(v.rollups[k].1)),
        ),
    decreases n,
{
    let blobs = assembled(v, seed);
    if n == 0 {
        assert(Seq::new(0, |k: int| (v.rollups[k].0, Some(v.rollups[k].1))) =~= Seq::<
            (Seq<u8>, Option<Seq<(u64, Seq<u8>)>>),
        >::empty());
    } else {
        lemma_keyed_assembled(v, seed, n - 1);
        let i = n - 1;
        assert(blobs.take(n).drop_last() =~= blobs.take(i));
        assert(blobs.take(n).last() == blobs[i]);
        lemma_rollup_blob_decodes(v, seed, i);
        let prev: Entries = Seq::new(i as nat, |k: int| (v.rollups[k].0, Some(v.rollups[k].1)));
        assert(!has_key(prev, v.rollups[i].0)) by {
            if has_key(prev, v.rollups[i].0) {
                let k = choose|k: int| 0 <= k < prev.len() && (#[trigger] prev[k]).0 == v.rollups[i].0;
                assert(v.rollups[k].0 == v.rollups[i].0);
            }
        }
        assert(upsert(prev, v.rollups[i].0, Some(v.rollups[i].1)) =~= Seq::new(
            n as nat,
            |k: int| (v.rollups[k].0, Some(v.rollups[k].1)),
        ));
    }
}

proof fn lemma_present_all(v: BlockView, n: int)
    requires
        0 <= n <= v.rollups.len(),
    ensures
        present(Seq::new(n as nat, |k: int| (v.rollups[k].0, Some(v.rollups[k].1))))
            == v.rollups.take(n),
    decreases n,
{
    let m: Entries = Seq::new(n as nat, |k: int| (v.rollups[k].0, Some(v.rollups[k].1)));
    if n == 0 {
        assert(v.rollups.take(0) =~= Seq::<(Seq<u8>, Seq<(u64, Seq<u8>)>)>::empty());
    } else {
        lemma_present_all(v, n - 1);
        assert(m.drop_last() =~= Seq::new(
            (n - 1) as nat,
            |k: int| (v.rollups[k].0, Some(v.rollups[k].1)),
        ));
        assert(v.rollups.take(n) =~= v.rollups.take(n - 1).push(v.rollups[n - 1]));
        assert(present(m) =~= v.rollups.take(n));
    }
}

/// Round trip: the blobs assembled from a well-formed block, signed with a key
/// whose signatures verify, give back the block. The last blob decodes as the
/// sequencer envelope, and rebuilding from it and the rollup blobs yields the
/// block's hash, header, commit and every rollup's transactions in order.
pub proof fn lemma_reconstruct_assembled(v: BlockView, seed: Seq<u8>)
    requires
        block_view_wf(v),
        block_fits(v, seed),
        signatures_hold(v, seed),
    ensures
        parse_signed_sequencer(assembled(v, seed).last().1) == Some(
            (
                sequencer_payload(v),
                ed25519_public_key_of(seed),
                ed25519_signature_of(seed, sha256_of(enc_sequencer(sequencer_payload(v)))),
            ),
        ),
        rebuilt_block(
            sequencer_payload(v),
            ed25519_public_key_of(seed),
            assembled(v, seed).drop_last(),
        ) == v,
{
    let blobs = assembled(v, seed);
    let s = sequencer_payload(v);
    assert forall|i: int| 0 <= i < s.namespaces.len() implies (#[trigger] s.namespaces[i]).len()
        == NAMESPACE_LEN by {
        assert(s.namespaces[i] == v.rollups[i].0);
    }
    lemma_sequencer_round_trip(s);
    lemma_envelope_round_trip(
        enc_sequencer(s),
        ed25519_public_key_of(seed),
        ed25519_signature_of(seed, sha256_of(enc_sequencer(s))),
    );
    let n = v.rollups.len() as int;
    lemma_keyed_assembled(v, seed, n);
    assert(blobs.take(n) =~= blobs.drop_last());
    lemma_present_all(v, n);
    assert(v.rollups.take(n) =~= v.rollups);
}

/// Whether some blob of `blobs` in namespace `e.0` carries rollup data with
/// transactions `e.1` that is accepted for the block with hash `block_hash`
/// under the sequencer key `key`.
pub open spec fn backed_by_blob(
    blobs: Seq<(Seq<u8>, Seq<u8>)>,
    block_hash: Seq<u8>,
    key: Seq<u8>,
    e: (Seq<u8>, Seq<(u64, Seq<u8>)>),
) -> bool {
    exists|j: int|
        0 <= j < blobs.len() && (#[trigger] blobs[j]).0 == e.0 && (parse_signed_rollup(blobs[j].1) matches Some(
            (d, _pk, sig),
        ) && d.txs == e.1 && d.block_hash == block_hash && accepted(d, sig, block_hash, key))
}

/// Every rollup entry of a rebuilt block comes from a retrieved blob of the
/// same namespace that carries the sequencer block's hash and a signature that
/// the sequencer key accepts; so rollup data with any other block hash is never
/// part of the block.
pub proof fn lemma_rebuilt_rollups_authentic(
    blobs: Seq<(Seq<u8>, Seq<u8>)>,
    block_hash: Seq<u8>,
    key: Seq<u8>,
)
    ensures
        forall|r: int|
            0 <= r < present(keyed(blobs, block_hash, key)).len() ==> backed_by_blob(
                blobs,
                block_hash,
                key,
                #[trigger] present(keyed(blobs, block_hash, key))[r],
            ),
{
    lemma_keyed_witness(blobs, block_hash, key);
    let m = keyed(blobs, block_hash, key);
    lemma_present_from(m);
    assert forall|r: int| 0 <= r < present(m).len() implies backed_by_blob(
        blobs,
        block_hash,
        key,
        #[trigger] present(m)[r],
    ) by {
        let k = choose|k: int|
            0 <= k < m.len() && #[trigger] m[k] == (present(m)[r].0, Some(present(m)[r].1));
        assert(witnessed(blobs, block_hash, key, m[k]));
    }
}

/// Whether some blob of `blobs` stands behind the entry `e`.
pub open spec fn witnessed(
    blobs: Seq<(Seq<u8>, Seq<u8>)>,
    block_hash: Seq<u8>,
    key: Seq<u8>,
    e: (Seq<u8>, Option<Seq<(u64, Seq<u8>)>>),
) -> bool {
    e.1 matches Some(t) ==> exists|j: int|
        0 <= j < blobs.len() && (#[trigger] blobs[j]).0 == e.0 && (parse_signed_rollup(blobs[j].1) matches Some(
            (d, _pk, sig),
        ) && d.txs == t && accepted(d, sig, block_hash, key))
}

proof fn lemma_keyed_witness(blobs: Seq<(Seq<u8>, Seq<u8>)>, block_hash: Seq<u8>, key: Seq<u8>)
    ensures
        forall|k: int|
            0 <= k < keyed(blobs, block_hash, key).len() ==> witnessed(
                blobs,
                block_hash,
                key,
                #[trigger] keyed(blobs, block_hash, key)[k],
            ),
    decreases blobs.len(),
{
    if blobs.len() > 0 {
        let pre = blobs.drop_last();
        lemma_keyed_witness(pre, block_hash, key);
        let prev = keyed(pre, block_hash, key);
        let m = keyed(blobs, block_hash, key);
        let last = blobs.len() - 1;
        assert forall|k: int| 0 <= k < prev.len() && witnessed(pre, block_hash, key, prev[k])
            implies witnessed(blobs, block_hash, key, #[trigger] prev[k]) by {
            if prev[k].1 is Some {
                let j = choose|j: int|
                    0 <= j < pre.len() && (#[trigger] pre[j]).0 == prev[k].0 && (parse_signed_rollup(
                        pre[j].1,
                    ) matches Some((d, _pk, sig)) && d.txs == prev[k].1->0 && accepted(
                        d,
                        sig,
                        block_hash,
                        key,
                    ));
                assert(blobs[j] == pre[j]);
            }
        }
        assert forall|k: int| 0 <= k < m.len() implies witnessed(
            blobs,
            block_hash,
            key,
            #[trigger] m[k],
        ) by {
            assert(blobs[last] == blobs.last());
        }
    }
}

proof fn lemma_present_from(m: Entries)
    ensures
        forall|r: int|
            #![trigger present(m)[r]]
            0 <= r < present(m).len() ==> exists|k: int|
                0 <= k < m.len() && #[trigger] m[k] == (present(m)[r].0, Some(present(m)[r].1)),
    decreases m.len(),
{
    if m.len() > 0 {
        let pre = m.drop_last();
        lemma_present_from(pre);
        assert forall|r: int| #![trigger present(m)[r]] 0 <= r < present(m).len() implies exists|k: int|
            0 <= k < m.len() && #[trigger] m[k] == (present(m)[r].0, Some(present(m)[r].1)) by {
            if r < present(pre).len() {
                assert(present(m)[r] == present(pre)[r]);
                let k = choose|k: int|
                    0 <= k < pre.len() && #[trigger] pre[k] == (present(pre)[r].0, Some(
                        present(pre)[r].1,
                    ));
                assert(m[k] == pre[k]);
            } else {
                assert(m[m.len() - 1] == m.last());
            }
        }
    }
}

/// Whether `perm` reorders the indices `0..n`: each index appears once.
pub open spec fn is_permutation(perm: Seq<int>, n: int) -> bool {
    &&& perm.len() == n
    &&& forall|k: int| 0 <= k < n ==> 0 <= #[trigger] perm[k] < n
    &&& forall|a: int, b: int| 0 <= a < b < n ==> #[trigger] perm[a] != #[trigger] perm[b]
}

proof fn lemma_keyed_permuted(v: BlockView, seed: Seq<u8>, perm: Seq<int>, n: int)
    requires
        is_permutation(perm, v.rollups.len() as int),
        0 <= n <= v.rollups.len(),
        block_view_wf(v),
        block_fits(v, seed),
        signatures_hold(v, seed),
    ensures
        keyed(
            Seq::new(v.rollups.len(), |k: int| assembled(v, seed)[perm[k]]).take(n),
            v.block_hash,
            ed25519_public_key_of(seed),
        ) == Seq::new(n as nat, |k: int| (v.rollups[perm[k]].0, Some(v.rollups[perm[k]].1))),
    decreases n,
{
    let blobs = Seq::new(v.rollups.len(), |k: int| assembled(v, seed)[perm[k]]);
    if n == 0 {
        assert(Seq::new(0, |k: int| (v.rollups[perm[k]].0, Some(v.rollups[perm[k]].1))) =~= Seq::<
            (Seq<u8>, Option<Seq<(u64, Seq<u8>)>>),
        >::empty());
    } else {
        lemma_keyed_permuted(v, seed, perm, n - 1);
        let i = n - 1;
        let p = perm[i];
        assert(0 <= p < v.rollups.len());
        assert(blobs.take(n).drop_last() =~= blobs.take(i));
        assert(blobs.take(n).last() == assembled(v, seed)[p]);
        lemma_rollup_blob_decodes(v, seed, p);
        let prev: Entries = Seq::new(
            i as nat,
            |k: int| (v.rollups[perm[k]].0, Some(v.rollups[perm[k]].1)),
        );
        assert(!has_key(prev, v.rollups[p].0)) by {
            if has_key(prev, v.rollups[p].0) {
                let k = choose|k: int| 0 <= k < prev.len() && (#[trigger] prev[k]).0 == v.rollups[p].0;
                assert(perm[k] != perm[i]);
                assert(0 <= perm[k] < v.rollups.len());
                assert(v.rollups[perm[k]].0 == v.rollups[p].0);
            }
        }
        assert(upsert(prev, v.rollups[p].0, Some(v.rollups[p].1)) =~= Seq::new(
            n as nat,
            |k: int| (v.rollups[perm[k]].0, Some(v.rollups[perm[k]].1)),
        ));
    }
}

proof fn lemma_present_all_some(m: Entries)
    requires
        forall|k: int| 0 <= k < m.len() ==> (#[trigger] m[k]).1 is Some,
    ensures
        present(m) == m.map_values(
            |e: (Seq<u8>, Option<Seq<(u64, Seq<u8>)>>)| (e.0, e.1->0),
        ),
    decreases m.len(),
{
    if m.len() > 0 {
        lemma_present_all_some(m.drop_last());
        assert(m.last() == m[m.len() - 1]);
        assert(present(m) =~= m.map_values(
            |e: (Seq<u8>, Option<Seq<(u64, Seq<u8>)>>)| (e.0, e.1->0),
        ));
    } else {
        assert(present(m) =~= m.map_values(
            |e: (Seq<u8>, Option<Seq<(u64, Seq<u8>)>>)| (e.0, e.1->0),
        ));
    }
}

/// Round trip in any order: when the rollup blobs of a well-formed block come
/// back reordered, the rebuilt block has the block's hash, header and commit,
/// and its rollups are the block's, each namespace with its transactions in
/// their order, listed in the order the blobs came back.
pub proof fn lemma_reconstruct_any_order(v: BlockView, seed: Seq<u8>, perm: Seq<int>)
    requires
        block_view_wf(v),
        block_fits(v, seed),
        signatures_hold(v, seed),
        is_permutation(perm, v.rollups.len() as int),
    ensures
        ({
            let rebuilt = rebuilt_block(
                sequencer_payload(v),
                ed25519_public_key_of(seed),
                Seq::new(v.rollups.len(), |k: int| assembled(v, seed)[perm[k]]),
            );
            &&& rebuilt.block_hash == v.block_hash
            &&& rebuilt.header == v.header
            &&& rebuilt.last_commit == v.last_commit
            &&& rebuilt.rollups == Seq::new(v.rollups.len(), |k: int| v.rollups[perm[k]])
        }),
{
    let n = v.rollups.len() as int;
    let blobs = Seq::new(v.rollups.len(), |k: int| assembled(v, seed)[perm[k]]);
    lemma_keyed_permuted(v, seed, perm, n);
    assert(blobs.take(n) =~= blobs);
    let m: Entries = Seq::new(n as nat, |k: int| (v.rollups[perm[k]].0, Some(v.rollups[perm[k]].1)));
    lemma_present_all_some(m);
    assert(m.map_values(|e: (Seq<u8>, Option<Seq<(u64, Seq<u8>)>>)| (e.0, e.1->0)) =~= Seq::new(
        v.rollups.len(),
        |k: int| v.rollups[perm[k]],
    ));
}

/// Whether a blob carries no rollup data accepted for the block with hash
/// `block_hash` under the sequencer key `key`: it does not decode, or what it
/// holds has another block hash or a signature the key rejects.
pub open spec fn unrelated(blob: (Seq<u8>, Seq<u8>), block_hash: Seq<u8>, key: Seq<u8>) -> bool {
    match parse_signed_rollup(blob.1) {
        None => true,
        Some((d, _pk, sig)) => !accepted(d, sig, block_hash, key),
    }
}

/// Unrelated data: a blob that does not decode as a rollup envelope, or whose
/// rollup data is not accepted for the block, changes nothing in
/// reconstruction, wherever it stands among the retrieved blobs and whatever
/// namespace it shares.
pub proof fn lemma_unrelated_blob_ignored(
    seq: SequencerView,
    key: Seq<u8>,
    blobs: Seq<(Seq<u8>, Seq<u8>)>,
    i: int,
    junk: (Seq<u8>, Seq<u8>),
)
    requires
        0 <= i <= blobs.len(),
        unrelated(junk, seq.block_hash, key),
    ensures
        keyed(blobs.insert(i, junk), seq.block_hash, key) == keyed(blobs, seq.block_hash, key),
        rebuilt_block(seq, key, blobs.insert(i, junk)) == rebuilt_block(seq, key, blobs),
    decreases blobs.len(),
{
    if i == blobs.len() {
        assert(blobs.insert(i, junk).drop_last() =~= blobs);
    } else {
        lemma_unrelated_blob_ignored(seq, key, blobs.drop_last(), i, junk);
        assert(blobs.insert(i, junk).drop_last() =~= blobs.drop_last().insert(i, junk));
        assert(blobs.insert(i, junk).last() == blobs.last());
    }
}

/// Partial-batch resilience: of three blocks whose middle one cannot be
/// assembled, the batch holds exactly the blobs of the first and the third.
pub proof fn lemma_batch_skips_bad_block(
    b1: SequencerBlockData,
    b2: SequencerBlockData,
    b3: SequencerBlockData,
    seed: Seq<u8>,
)
    requires
        b1.wf(),
        !b2.wf(),
        b3.wf(),
    ensures
        batch_blobs(seq![b1, b2, b3], seed) == assembled(b1@, seed) + assembled(b3@, seed),
{
    let s = seq![b1, b2, b3];
    assert(s.drop_last() =~= seq![b1, b2]);
    assert(seq![b1, b2].drop_last() =~= seq![b1]);
    assert(seq![b1].drop_last() =~= Seq::<SequencerBlockData>::empty());
    assert(batch_blobs(Seq::<SequencerBlockData>::empty(), seed) == Seq::<(Seq<u8>, Seq<u8>)>::empty());
    assert(seq![b1].last() == b1);
    assert(seq![b1, b2].last() == b2);
    assert(s.last() == b3);
    assert(batch_blobs(seq![b1], seed) =~= assembled(b1@, seed));
    assert(batch_blobs(seq![b1, b2], seed) =~= assembled(b1@, seed));
}

/// Deterministic assembly: assembly results are a function of the block's
/// model and the key, so two calls on equal blocks with one key give the same
/// blobs.
pub proof fn lemma_assembly_deterministic(
    b1: SequencerBlockData,
    b2: SequencerBlockData,
    seed: Seq<u8>,
    r1: Seq<(Seq<u8>, Seq<u8>)>,
    r2: Seq<(Seq<u8>, Seq<u8>)>,
)
    requires
        b1@ == b2@,
        r1 == assembled(b1@, seed),
        r2 == assembled(b2@, seed),
    ensures
        r1 == r2,
{
}

/// A well-formed block has a well-formed model: its namespaces have the
/// namespace width and are distinct. With the signatures that assembly
/// establishes, this is what the round trip asks of the block.
pub proof fn lemma_wf_block_view(b: SequencerBlockData)
    requires
        b.wf(),
    ensures
        block_view_wf(b@),
{
    assert forall|i: int| 0 <= i < b@.rollups.len() implies (#[trigger] b@.rollups[i]).0.len()
        == NAMESPACE_LEN by {
        assert(b.rollup_txs@[i].0.wf());
    }
}

} // verus!
