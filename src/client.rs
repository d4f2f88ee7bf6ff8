//! Configuration of the data-availability client, and how its answers are read.
use vstd::prelude::*;

verus! {

/// Gas limit of a blob submission unless configured otherwise.
pub const DEFAULT_PFD_GAS_LIMIT: u64 = 1_000_000;

/// Fee of a blob submission unless configured otherwise.
pub const DEFAULT_PFD_FEE: u128 = 100_000;

/// The answer to a batch submission: the height at which the network included it.
#[derive(Debug, Clone, Copy, PartialEq, Eq, Structural)]
pub struct SubmitBlockResponse {
    pub height: u64,
}

/// The options of a data-availability client, each with its own default.
#[derive(Debug, Clone)]
pub struct CelestiaClientBuilder {
    pub endpoint: Option<String>,
    pub bearer_token: Option<String>,
    pub gas_limit: u64,
    pub fee: u128,
}

impl Default for CelestiaClientBuilder {
    fn default() -> (r: Self)
        ensures
            r.endpoint is None,
            r.bearer_token is None,
            r.gas_limit == DEFAULT_PFD_GAS_LIMIT,
            r.fee == DEFAULT_PFD_FEE,
    {
        Self::new()
    }
}

impl CelestiaClientBuilder {
    /// A builder with every option at its default: no endpoint, no bearer
    /// token, the default gas limit and fee.
    pub fn new() -> (r: Self)
        ensures
            r.endpoint is None,
            r.bearer_token is None,
            r.gas_limit == DEFAULT_PFD_GAS_LIMIT,
            r.fee == DEFAULT_PFD_FEE,
    {
        CelestiaClientBuilder {
            endpoint: None,
            bearer_token: None,
            gas_limit: DEFAULT_PFD_GAS_LIMIT,
            fee: DEFAULT_PFD_FEE,
        }
    }

    /// Sets the endpoint, keeping the other options.
    pub fn endpoint(self, endpoint: &str) -> (r: Self)
        ensures
            r.endpoint matches Some(e) && e@ == endpoint@,
            r.bearer_token == self.bearer_token,
            r.gas_limit == self.gas_limit,
            r.fee == self.fee,
    {
        Self { endpoint: Some(endpoint.to_string()), ..self }
    }

    /// Sets the bearer token, keeping the other options.
    pub fn bearer_token(self, bearer_token: &str) -> (r: Self)
        ensures
            r.bearer_token matches Some(t) && t@ == bearer_token@,
            r.endpoint == self.endpoint,
            r.gas_limit == self.gas_limit,
            r.fee == self.fee,
    {
        Self { bearer_token: Some(bearer_token.to_string()), ..self }
    }

    /// Sets the gas limit, keeping the other options.
    pub fn gas_limit(self, gas_limit: u64) -> (r: Self)
        ensures
            r.gas_limit == gas_limit,
            r.endpoint == self.endpoint,
            r.bearer_token == self.bearer_token,
            r.fee == self.fee,
    {
        Self { gas_limit, ..self }
    }

    /// Sets the fee, keeping the other options.
    pub fn fee(self, fee: u128) -> (r: Self)
        ensures
            r.fee == fee,
            r.endpoint == self.endpoint,
            r.bearer_token == self.bearer_token,
            r.gas_limit == self.gas_limit,
    {
        Self { fee, ..self }
    }
}

/// The text by which the transport reports that no blob was found.
pub open spec fn not_found_marker() -> Seq<u8> {
    seq![
        0x62u8, 0x6cu8, 0x6fu8, 0x62u8, 0x3au8, 0x20u8, 0x6eu8, 0x6fu8,
        0x74u8, 0x20u8, 0x66u8, 0x6fu8, 0x75u8, 0x6eu8, 0x64u8,
    ]
}

/// Whether `needle` occurs in `hay` starting at `i`.
pub open spec fn occurs_at(hay: Seq<u8>, needle: Seq<u8>, i: int) -> bool {
    0 <= i && i + needle.len() <= hay.len() && hay.subrange(i, i + needle.len()) == needle
}

/// Whether `needle` occurs anywhere in `hay`.
pub open spec fn occurs_in(hay: Seq<u8>, needle: Seq<u8>) -> bool {
    exists|i: int| occurs_at(hay, needle, i)
}

fn matches_at(hay: &Vec<u8>, needle: &Vec<u8>, i: usize) -> (r: bool)
    requires
        i + needle@.len() <= hay@.len(),
    ensures
        r == occurs_at(hay@, needle@, i as int),
{
    let mut j: usize = 0;
    let hl = hay.len();
    while j < needle.len()
        invariant
            hl == hay@.len(),
            i + needle@.len() <= hay@.len(),
            j <= needle@.len(),
            hay@.subrange(i as int, i + j) == needle@.subrange(0, j as int),
        decreases needle.len() - j,
    {
        if hay[i + j] != needle[j] {
            assert(hay@.subrange(i as int, i + needle@.len())[j as int] != needle@[j as int]);
            return false;
        }
        assert(hay@.subrange(i as int, i + j + 1) =~= hay@.subrange(i as int, i + j).push(
            hay@[i + j],
        ));
        assert(needle@.subrange(0, j + 1) =~= needle@.subrange(0, j as int).push(needle@[j as int]));
        j = j + 1;
    }
    assert(needle@.subrange(0, needle@.len() as int) =~= needle@);
    true
}

/// Whether `needle` occurs anywhere in `hay`.
pub fn contains_bytes(hay: &Vec<u8>, needle: &Vec<u8>) -> (r: bool)
    ensures
        r == occurs_in(hay@, needle@),
{
    if needle.len() > hay.len() {
        return false;
    }
    let last = hay.len() - needle.len();
    let mut i: usize = 0;
    loop
        invariant
            last == hay@.len() - needle@.len(),
            i <= last,
            forall|k: int| 0 <= k < i ==> !#[trigger] occurs_at(hay@, needle@, k),
        decreases last - i,
    {
        if matches_at(hay, needle, i) {
            return true;
        }
        if i == last {
            return false;
        }
        i = i + 1;
    }
}

/// Whether a transport error message reports that no blob was found.
pub fn reports_not_found(message: &Vec<u8>) -> (r: bool)
    ensures
        r == occurs_in(message@, not_found_marker()),
{
    let mut marker: Vec<u8> = Vec::new();
    marker.push(0x62u8);
    marker.push(0x6cu8);
    marker.push(0x6fu8);
    marker.push(0x62u8);
    marker.push(0x3au8);
    marker.push(0x20u8);
    marker.push(0x6eu8);
    marker.push(0x6fu8);
    marker.push(0x74u8);
    marker.push(0x20u8);
    marker.push(0x66u8);
    marker.push(0x6fu8);
    marker.push(0x75u8);
    marker.push(0x6eu8);
    marker.push(0x64u8);
    assert(marker@ =~= not_found_marker());
    contains_bytes(message, &marker)
}

} // verus!
