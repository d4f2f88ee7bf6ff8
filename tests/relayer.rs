use astria_sequencer_relayer::assemble::{
    assemble_blobs_for_blocks, assemble_blobs_from_sequencer_block_data, AssemblyError,
};
use astria_sequencer_relayer::client::{
    contains_bytes, reports_not_found, CelestiaClientBuilder, DEFAULT_PFD_FEE,
    DEFAULT_PFD_GAS_LIMIT,
};
use astria_sequencer_relayer::crypto::SequencerSigningKey;
use astria_sequencer_relayer::namespace_data::{
    NamespaceData, RollupNamespaceData, SequencerNamespaceData, SignedNamespaceData,
    VerificationError,
};
use astria_sequencer_relayer::reconstruct::{
    rebuild_block, reconstruct_block, FetchOutcome, ReconstructError,
};
use astria_sequencer_relayer::types::{Blob, IndexedTransaction, Namespace, SequencerBlockData};
use sha2::Digest;

fn key() -> SequencerSigningKey {
    SequencerSigningKey::from_seed([7u8; 32])
}

fn other_key() -> SequencerSigningKey {
    SequencerSigningKey::from_seed([9u8; 32])
}

fn ns(b: u8) -> Namespace {
    Namespace::new(vec![b; 8]).unwrap()
}

fn tx(index: u64, bytes: &[u8]) -> IndexedTransaction {
    IndexedTransaction { index, transaction: bytes.to_vec() }
}

fn block(hash: u8, rollups: Vec<(Namespace, Vec<IndexedTransaction>)>) -> SequencerBlockData {
    SequencerBlockData {
        block_hash: vec![hash; 32],
        header: b"header bytes".to_vec(),
        last_commit: Some(b"commit bytes".to_vec()),
        rollup_txs: rollups,
    }
}

fn sequencer_envelope(blobs: &[Blob]) -> SignedNamespaceData<SequencerNamespaceData> {
    let last = blobs.last().unwrap();
    assert_eq!(last.namespace, Namespace::base());
    SignedNamespaceData::<SequencerNamespaceData>::from_bytes(&last.data).unwrap()
}

#[test]
fn example_block_assembles_and_reconstructs() {
    let r1 = ns(1);
    let b = SequencerBlockData {
        block_hash: vec![0xAA],
        header: b"header".to_vec(),
        last_commit: None,
        rollup_txs: vec![(r1.clone(), vec![tx(0, b"tx0"), tx(1, b"tx1")])],
    };
    let blobs = assemble_blobs_from_sequencer_block_data(b.clone(), &key()).unwrap();
    assert_eq!(blobs.len(), 2);
    assert_eq!(blobs[0].namespace, r1);
    assert_eq!(blobs[1].namespace, Namespace::base());

    let rollup = SignedNamespaceData::<RollupNamespaceData>::from_bytes(&blobs[0].data).unwrap();
    assert_eq!(rollup.data.block_hash, vec![0xAA]);
    assert_eq!(rollup.data.rollup_txs, vec![tx(0, b"tx0"), tx(1, b"tx1")]);
    assert_eq!(rollup.verify(), Ok(()));

    let seq = sequencer_envelope(&blobs);
    assert_eq!(seq.verify(), Ok(()));
    assert_eq!(seq.data.block_hash, vec![0xAA]);
    assert_eq!(seq.data.header, b"header".to_vec());
    assert_eq!(seq.data.rollup_namespaces, vec![r1.clone()]);

    let rebuilt = reconstruct_block(&seq, FetchOutcome::Found(vec![blobs[0].clone()]))
        .unwrap()
        .unwrap();
    assert_eq!(rebuilt, b);
}

#[test]
fn round_trip_keeps_every_rollup() {
    let b = block(
        3,
        vec![
            (ns(1), vec![tx(0, b"a"), tx(2, b"bb")]),
            (ns(2), vec![]),
            (ns(3), vec![tx(1, b""), tx(5, b"cccc"), tx(6, b"d")]),
        ],
    );
    let blobs = assemble_blobs_from_sequencer_block_data(b.clone(), &key()).unwrap();
    assert_eq!(blobs.len(), 4);
    let seq = sequencer_envelope(&blobs);
    let rebuilt = rebuild_block(&seq, &blobs[..3].to_vec()).unwrap();
    assert_eq!(rebuilt, b);
}

#[test]
fn block_without_rollups_gives_one_blob() {
    let b = block(4, vec![]);
    let blobs = assemble_blobs_from_sequencer_block_data(b.clone(), &key()).unwrap();
    assert_eq!(blobs.len(), 1);
    let seq = sequencer_envelope(&blobs);
    assert!(seq.data.rollup_namespaces.is_empty());
    let rebuilt = rebuild_block(&seq, &vec![]).unwrap();
    assert_eq!(rebuilt, b);
}

#[test]
fn altered_signature_byte_fails_verification() {
    let b = block(5, vec![(ns(1), vec![tx(0, b"x")])]);
    let blobs = assemble_blobs_from_sequencer_block_data(b, &key()).unwrap();
    let seq = sequencer_envelope(&blobs);
    assert_eq!(seq.verify(), Ok(()));
    for i in 0..seq.signature.len() {
        let mut altered = SignedNamespaceData::new(
            seq.data.clone(),
            seq.public_key.clone(),
            seq.signature.clone(),
        );
        altered.signature[i] ^= 0x01;
        assert!(altered.verify().is_err(), "byte {} altered", i);
    }
}

#[test]
fn altered_payload_fails_verification() {
    let b = block(5, vec![(ns(1), vec![tx(0, b"x")])]);
    let blobs = assemble_blobs_from_sequencer_block_data(b, &key()).unwrap();
    let mut rollup =
        SignedNamespaceData::<RollupNamespaceData>::from_bytes(&blobs[0].data).unwrap();
    rollup.data.rollup_txs[0].transaction = b"y".to_vec();
    assert_eq!(rollup.verify(), Err(VerificationError::SignatureMismatch));
}

#[test]
fn signed_envelope_has_key_and_signature_lengths() {
    let data = RollupNamespaceData { block_hash: vec![1], rollup_txs: vec![tx(0, b"a")] };
    assert_eq!(data.hash_serialized_bytes().len(), 32);
    let signed = data.to_signed(&key());
    assert_eq!(signed.public_key.len(), 32);
    assert_eq!(signed.signature.len(), 64);
    assert!(signed.has_valid_key());
    assert_eq!(signed.verify(), Ok(()));
    let mut bad = signed.clone();
    bad.public_key.push(0);
    assert!(!bad.has_valid_key());
}

#[test]
fn malformed_key_and_signature_are_reported() {
    let data = RollupNamespaceData { block_hash: vec![1], rollup_txs: vec![] };
    let signed = data.clone().to_signed(&key());
    let short_key = SignedNamespaceData::new(data.clone(), vec![1, 2, 3], signed.signature.clone());
    assert_eq!(short_key.verify(), Err(VerificationError::MalformedKey));
    let short_sig = SignedNamespaceData::new(data, signed.public_key.clone(), vec![0u8; 63]);
    assert_eq!(short_sig.verify(), Err(VerificationError::MalformedSignature));
}

#[test]
fn rollup_data_of_another_block_is_excluded() {
    let b = block(6, vec![(ns(1), vec![tx(0, b"mine")])]);
    let blobs = assemble_blobs_from_sequencer_block_data(b, &key()).unwrap();
    let seq = sequencer_envelope(&blobs);
    let foreign = RollupNamespaceData { block_hash: vec![0xEE; 32], rollup_txs: vec![tx(0, b"x")] }
        .to_signed(&key());
    assert_eq!(foreign.verify(), Ok(()));
    let foreign_blob = Blob { namespace: ns(2), data: foreign.to_bytes() };
    let rebuilt = rebuild_block(&seq, &vec![blobs[0].clone(), foreign_blob]).unwrap();
    assert_eq!(rebuilt.rollup_txs, vec![(ns(1), vec![tx(0, b"mine")])]);
}

#[test]
fn rollup_data_signed_by_another_key_is_excluded() {
    let b = block(7, vec![(ns(1), vec![tx(0, b"a")])]);
    let blobs = assemble_blobs_from_sequencer_block_data(b, &key()).unwrap();
    let seq = sequencer_envelope(&blobs);
    let forged = RollupNamespaceData { block_hash: vec![7; 32], rollup_txs: vec![tx(0, b"z")] }
        .to_signed(&other_key());
    assert_eq!(forged.verify(), Ok(()));
    let forged_blob = Blob { namespace: ns(2), data: forged.to_bytes() };
    let rebuilt = rebuild_block(&seq, &vec![blobs[0].clone(), forged_blob]).unwrap();
    assert_eq!(rebuilt.rollup_txs, vec![(ns(1), vec![tx(0, b"a")])]);
}

#[test]
fn undecodable_blob_does_not_abort_reconstruction() {
    let b = block(8, vec![(ns(1), vec![tx(0, b"a")]), (ns(2), vec![tx(1, b"b")])]);
    let blobs = assemble_blobs_from_sequencer_block_data(b.clone(), &key()).unwrap();
    let seq = sequencer_envelope(&blobs);
    let junk = Blob { namespace: ns(1), data: b"{\"not\": \"an envelope\"}".to_vec() };
    let fetched = vec![blobs[0].clone(), junk, blobs[1].clone()];
    let rebuilt = rebuild_block(&seq, &fetched).unwrap();
    assert_eq!(rebuilt, b);
}

#[test]
fn batch_skips_block_that_fails_assembly() {
    let b1 = block(1, vec![(ns(1), vec![tx(0, b"a")])]);
    let b2 = block(2, vec![(ns(1), vec![tx(0, b"a")]), (ns(1), vec![tx(1, b"b")])]);
    let b3 = block(3, vec![(ns(3), vec![tx(0, b"c")])]);
    assert_eq!(
        assemble_blobs_from_sequencer_block_data(b2.clone(), &key()),
        Err(AssemblyError::DuplicateNamespace)
    );
    let mut expected = assemble_blobs_from_sequencer_block_data(b1.clone(), &key()).unwrap();
    expected.extend(assemble_blobs_from_sequencer_block_data(b3.clone(), &key()).unwrap());
    let batch = assemble_blobs_for_blocks(vec![b1, b2, b3], &key());
    assert_eq!(batch.len(), 4);
    assert_eq!(batch, expected);
}

#[test]
fn malformed_namespace_fails_assembly() {
    let bad = Namespace { id: vec![1, 2, 3] };
    let b = block(9, vec![(bad, vec![tx(0, b"a")])]);
    assert_eq!(
        assemble_blobs_from_sequencer_block_data(b, &key()),
        Err(AssemblyError::MalformedNamespace)
    );
    assert!(Namespace::new(vec![1, 2, 3]).is_none());
}

#[test]
fn not_found_means_absent() {
    let b = block(10, vec![(ns(1), vec![tx(0, b"a")])]);
    let blobs = assemble_blobs_from_sequencer_block_data(b, &key()).unwrap();
    let seq = sequencer_envelope(&blobs);
    assert_eq!(reconstruct_block(&seq, FetchOutcome::NotFound), Ok(None));
    assert_eq!(
        reconstruct_block(&seq, FetchOutcome::Failed("connection refused".to_string())),
        Err(ReconstructError::Transport("connection refused".to_string()))
    );
}

#[test]
fn malformed_sequencer_key_is_fatal() {
    let b = block(11, vec![]);
    let blobs = assemble_blobs_from_sequencer_block_data(b, &key()).unwrap();
    let mut seq = sequencer_envelope(&blobs);
    seq.public_key = vec![0u8; 31];
    assert_eq!(reconstruct_block(&seq, FetchOutcome::NotFound), Err(ReconstructError::MalformedKey));
    assert_eq!(rebuild_block(&seq, &vec![]), Err(ReconstructError::MalformedKey));
}

#[test]
fn assembly_is_deterministic() {
    let b = block(12, vec![(ns(1), vec![tx(0, b"a")]), (ns(2), vec![tx(1, b"b")])]);
    let first = assemble_blobs_from_sequencer_block_data(b.clone(), &key()).unwrap();
    let second = assemble_blobs_from_sequencer_block_data(b, &key()).unwrap();
    assert_eq!(first, second);
}

#[test]
fn unrelated_blob_in_same_namespace_keeps_valid_data() {
    let b = block(13, vec![(ns(1), vec![tx(0, b"a")])]);
    let blobs = assemble_blobs_from_sequencer_block_data(b, &key()).unwrap();
    let seq = sequencer_envelope(&blobs);
    let unrelated = RollupNamespaceData { block_hash: vec![0; 32], rollup_txs: vec![] }
        .to_signed(&key());
    let unrelated_blob = Blob { namespace: ns(1), data: unrelated.to_bytes() };
    let rebuilt = rebuild_block(&seq, &vec![blobs[0].clone(), unrelated_blob.clone()]).unwrap();
    assert_eq!(rebuilt.rollup_txs, vec![(ns(1), vec![tx(0, b"a")])]);
    let rebuilt = rebuild_block(&seq, &vec![unrelated_blob, blobs[0].clone()]).unwrap();
    assert_eq!(rebuilt.rollup_txs, vec![(ns(1), vec![tx(0, b"a")])]);
}

#[test]
fn envelope_bytes_round_trip() {
    let data = SequencerNamespaceData {
        block_hash: vec![1, 2],
        header: vec![3],
        last_commit: Some(vec![4, 5, 6]),
        rollup_namespaces: vec![ns(1), ns(2)],
    };
    let signed = data.clone().to_signed(&key());
    let bytes = signed.to_bytes();
    let back = SignedNamespaceData::<SequencerNamespaceData>::from_bytes(&bytes).unwrap();
    assert_eq!(back, signed);
    assert!(SignedNamespaceData::<SequencerNamespaceData>::from_bytes(&bytes[..bytes.len() - 1].to_vec())
        .is_none());
    assert!(SignedNamespaceData::<RollupNamespaceData>::from_bytes(&bytes).is_none());
}

#[test]
fn payload_encoding_has_exact_layout() {
    let data = RollupNamespaceData { block_hash: vec![0xAB], rollup_txs: vec![tx(2, b"z")] };
    let expected: Vec<u8> = vec![
        0, 0, 0, 0, 0, 0, 0, 1, 0xAB, 0, 0, 0, 0, 0, 0, 0, 1, 0, 0, 0, 0, 0, 0, 0, 2, 0, 0, 0, 0,
        0, 0, 0, 1, b'z',
    ];
    assert_eq!(data.to_bytes(), expected);
}

#[test]
fn payload_hash_is_sha256_of_encoding() {
    let data = RollupNamespaceData { block_hash: vec![1, 2, 3], rollup_txs: vec![tx(0, b"q")] };
    let bytes = data.to_bytes();
    let hash = data.hash_serialized_bytes();
    assert_eq!(hash.len(), 32);
    assert_ne!(hash, bytes);
    assert_eq!(hash, sha2::Sha256::digest(&bytes).to_vec());
}

#[test]
fn signing_uses_the_key_and_its_verification_key() {
    let data = RollupNamespaceData { block_hash: vec![1], rollup_txs: vec![] };
    let hash = data.hash_serialized_bytes();
    let signed = data.to_signed(&key());
    let sk = ed25519_consensus::SigningKey::from([7u8; 32]);
    assert_eq!(signed.public_key, sk.verification_key().to_bytes().to_vec());
    assert_eq!(signed.signature, sk.sign(&hash).to_bytes().to_vec());
    assert_eq!(signed.signature.len(), 64);
}

#[test]
fn not_found_message_is_recognised() {
    assert!(reports_not_found(&b"rpc error: blob: not found".to_vec()));
    assert!(reports_not_found(&b"blob: not found".to_vec()));
    assert!(!reports_not_found(&b"blob: not foun".to_vec()));
    assert!(!reports_not_found(&b"header: not found".to_vec()));
    assert!(contains_bytes(&b"abc".to_vec(), &vec![]));
    assert!(!contains_bytes(&b"ab".to_vec(), &b"abc".to_vec()));
}

#[test]
fn builder_defaults_and_setters() {
    let b = CelestiaClientBuilder::new();
    assert_eq!(b.endpoint, None);
    assert_eq!(b.bearer_token, None);
    assert_eq!(b.gas_limit, 1_000_000);
    assert_eq!(b.fee, 100_000);
    assert_eq!(DEFAULT_PFD_GAS_LIMIT, 1_000_000);
    assert_eq!(DEFAULT_PFD_FEE, 100_000);
    let b = CelestiaClientBuilder::default()
        .endpoint("http://localhost:26658")
        .bearer_token("SECRET-REDACTED")
        .gas_limit(5)
        .fee(6);
    assert_eq!(b.endpoint.as_deref(), Some("http://localhost:26658"));
    assert_eq!(b.bearer_token.as_deref(), Some("SECRET-REDACTED"));
    assert_eq!(b.gas_limit, 5);
    assert_eq!(b.fee, 6);
}

#[test]
fn reordered_blobs_give_every_rollup_back() {
    let b = block(
        14,
        vec![(ns(1), vec![tx(0, b"a"), tx(1, b"b")]), (ns(2), vec![tx(2, b"c")])],
    );
    let blobs = assemble_blobs_from_sequencer_block_data(b.clone(), &key()).unwrap();
    let seq = sequencer_envelope(&blobs);
    let rebuilt = rebuild_block(&seq, &vec![blobs[1].clone(), blobs[0].clone()]).unwrap();
    assert_eq!(rebuilt.block_hash, b.block_hash);
    assert_eq!(rebuilt.header, b.header);
    assert_eq!(rebuilt.last_commit, b.last_commit);
    assert_eq!(
        rebuilt.rollup_txs,
        vec![(ns(2), vec![tx(2, b"c")]), (ns(1), vec![tx(0, b"a"), tx(1, b"b")])]
    );
}
