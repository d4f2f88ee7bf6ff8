//! The values that travel between the sequencer and the data-availability network.
use vstd::prelude::*;

verus! {

/// Width of a namespace identifier, in bytes.
pub const NAMESPACE_LEN: usize = 8;

/// The identifier of the base namespace, which carries sequencer-level data.
pub open spec fn base_namespace_id() -> Seq<u8> {
    seq![0x61u8, 0x73u8, 0x74u8, 0x72u8, 0x69u8, 0x61u8, 0x00u8, 0x00u8]
}

/// A namespace of the data-availability network: a fixed-width identifier.
#[derive(Debug, Clone, PartialEq, Eq, Hash)]
pub struct Namespace {
    pub id: Vec<u8>,
}

impl View for Namespace {
    type V = Seq<u8>;

    open spec fn view(&self) -> Seq<u8> {
        self.id@
    }
}

impl Namespace {
    /// A namespace has exactly `NAMESPACE_LEN` bytes.
    pub open spec fn wf(&self) -> bool {
        self.id@.len() == NAMESPACE_LEN
    }

    /// The namespace with identifier `id`, if it has the right width.
    pub fn new(id: Vec<u8>) -> (r: Option<Namespace>)
        ensures
            r is Some <==> id@.len() == NAMESPACE_LEN,
            r matches Some(n) ==> n@ == id@ && n.wf(),
    {
        if id.len() == NAMESPACE_LEN {
            Some(Namespace { id })
        } else {
            None
        }
    }

    /// The base namespace.
    pub fn base() -> (r: Namespace)
        ensures
            r@ == base_namespace_id(),
            r.wf(),
    {
        let mut id: Vec<u8> = Vec::new();
        id.push(0x61u8);
        id.push(0x73u8);
        id.push(0x74u8);
        id.push(0x72u8);
        id.push(0x69u8);
        id.push(0x61u8);
        id.push(0x00u8);
        id.push(0x00u8);
        assert(id@ =~= base_namespace_id());
        Namespace { id }
    }

    /// A copy of this namespace.
    pub fn copy_of(&self) -> (r: Namespace)
        ensures
            r@ == self@,
    {
        Namespace { id: self.id.clone() }
    }

    /// Whether two namespaces are the same identifier.
    pub fn same(&self, other: &Namespace) -> (r: bool)
        ensures
            r == (self@ == other@),
    {
        crate::bytes::bytes_eq(&self.id, &other.id)
    }
}

/// A transaction with its position in the sequencer block.
#[derive(Debug, Clone, PartialEq, Eq)]
pub struct IndexedTransaction {
    pub index: u64,
    pub transaction: Vec<u8>,
}

impl View for IndexedTransaction {
    type V = (u64, Seq<u8>);

    open spec fn view(&self) -> (u64, Seq<u8>) {
        (self.index, self.transaction@)
    }
}

/// The model of a list of transactions.
pub open spec fn txs_view(txs: Seq<IndexedTransaction>) -> Seq<(u64, Seq<u8>)> {
    txs.map_values(|t: IndexedTransaction| t@)
}

/// The model of a list of namespaces.
pub open spec fn namespaces_view(nss: Seq<Namespace>) -> Seq<Seq<u8>> {
    nss.map_values(|n: Namespace| n@)
}

/// The model of an optional byte string.
pub open spec fn opt_bytes_view(o: Option<Vec<u8>>) -> Option<Seq<u8>> {
    match o {
        Some(v) => Some(v@),
        None => None,
    }
}

/// The model of a sequencer block.
pub struct BlockView {
    pub block_hash: Seq<u8>,
    pub header: Seq<u8>,
    pub last_commit: Option<Seq<u8>>,
    pub rollups: Seq<(Seq<u8>, Seq<(u64, Seq<u8>)>)>,
}

/// Whether no namespace appears twice among the keys of `rollups`.
pub open spec fn keys_unique(rollups: Seq<(Seq<u8>, Seq<(u64, Seq<u8>)>)>) -> bool {
    forall|i: int, j: int|
        0 <= i < j < rollups.len() ==> #[trigger] rollups[i].0 != #[trigger] rollups[j].0
}

/// A sequencer block: its hash, its opaque header and commit, and the
/// transactions of each rollup keyed by the rollup's namespace.
#[derive(Debug, Clone, PartialEq, Eq)]
pub struct SequencerBlockData {
    pub block_hash: Vec<u8>,
    pub header: Vec<u8>,
    pub last_commit: Option<Vec<u8>>,
    pub rollup_txs: Vec<(Namespace, Vec<IndexedTransaction>)>,
}

impl View for SequencerBlockData {
    type V = BlockView;

    open spec fn view(&self) -> BlockView {
        BlockView {
            block_hash: self.block_hash@,
            header: self.header@,
            last_commit: opt_bytes_view(self.last_commit),
            rollups: self.rollup_txs@.map_values(
                |e: (Namespace, Vec<IndexedTransaction>)| (e.0@, txs_view(e.1@)),
            ),
        }
    }
}

impl SequencerBlockData {
    /// Every namespace has the right width and none appears twice.
    pub open spec fn wf(&self) -> bool {
        &&& forall|i: int| 0 <= i < self.rollup_txs@.len() ==> (#[trigger] self.rollup_txs@[i]).0.wf()
        &&& keys_unique(self@.rollups)
    }
}

/// A unit written to or read from the data-availability network.
#[derive(Debug, Clone, PartialEq, Eq)]
pub struct Blob {
    pub namespace: Namespace,
    pub data: Vec<u8>,
}

impl View for Blob {
    type V = (Seq<u8>, Seq<u8>);

    open spec fn view(&self) -> (Seq<u8>, Seq<u8>) {
        (self.namespace@, self.data@)
    }
}

/// The model of a list of blobs.
pub open spec fn blobs_view(blobs: Seq<Blob>) -> Seq<(Seq<u8>, Seq<u8>)> {
    blobs.map_values(|b: Blob| b@)
}

} // verus!
