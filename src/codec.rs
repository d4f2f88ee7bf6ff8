//! The wire format of namespace payloads and of signed envelopes.
use vstd::prelude::*;
use crate::bytes::{
    enc_field, lemma_field_round_trip, lemma_u64_round_trip, parse_field, parse_u64, push_field,
    push_u64, read_field, read_u64, u64_be,
};
use crate::types::{IndexedTransaction, Namespace, NAMESPACE_LEN, namespaces_view, txs_view};

verus! {

/// A transaction: its index, then its bytes as a field.
pub open spec fn enc_tx(t: (u64, Seq<u8>)) -> Seq<u8> {
    u64_be(t.0) + enc_field(t.1)
}

/// Transactions, one after another.
pub open spec fn enc_txs(s: Seq<(u64, Seq<u8>)>) -> Seq<u8>
    decreases s.len(),
{
    if s.len() == 0 {
        Seq::empty()
    } else {
        enc_tx(s[0]) + enc_txs(s.skip(1))
    }
}

/// Reading one transaction from the front of `b`.
pub open spec fn parse_tx(b: Seq<u8>) -> Option<((u64, Seq<u8>), nat)> {
    match parse_u64(b) {
        Some(i) => match parse_field(b.skip(8)) {
            Some((f, k)) => Some(((i, f), 8 + k)),
            None => None,
        },
        None => None,
    }
}

/// Reading `n` transactions from the front of `b`.
pub open spec fn parse_txs(b: Seq<u8>, n: nat) -> Option<(Seq<(u64, Seq<u8>)>, nat)>
    decreases n,
{
    if n == 0 {
        Some((Seq::empty(), 0))
    } else {
        match parse_tx(b) {
            Some((t, k)) => match parse_txs(b.skip(k as int), (n - 1) as nat) {
                Some((ts, k2)) => Some((seq![t] + ts, k + k2)),
                None => None,
            },
            None => None,
        }
    }
}

/// Namespaces, each as a field, one after another.
pub open spec fn enc_nss(s: Seq<Seq<u8>>) -> Seq<u8>
    decreases s.len(),
{
    if s.len() == 0 {
        Seq::empty()
    } else {
        enc_field(s[0]) + enc_nss(s.skip(1))
    }
}

/// Reading one namespace from the front of `b`: a field of the namespace width.
pub open spec fn parse_ns(b: Seq<u8>) -> Option<(Seq<u8>, nat)> {
    match parse_field(b) {
        Some((f, k)) => if f.len() == NAMESPACE_LEN {
            Some((f, k))
        } else {
            None
        },
        None => None,
    }
}

/// Reading `n` namespaces from the front of `b`.
pub open spec fn parse_nss(b: Seq<u8>, n: nat) -> Option<(Seq<Seq<u8>>, nat)>
    decreases n,
{
    if n == 0 {
        Some((Seq::empty(), 0))
    } else {
        match parse_ns(b) {
            Some((x, k)) => match parse_nss(b.skip(k as int), (n - 1) as nat) {
                Some((xs, k2)) => Some((seq![x] + xs, k + k2)),
                None => None,
            },
            None => None,
        }
    }
}

pub proof fn lemma_skip_skip<T>(s: Seq<T>, a: int, b: int)
    requires
        0 <= a,
        0 <= b,
        a + b <= s.len(),
    ensures
        s.skip(a).skip(b) == s.skip(a + b),
{
    assert(s.skip(a).skip(b) =~= s.skip(a + b));
}

/// A transaction read from the front of its encoding comes back, whatever follows it.
pub proof fn lemma_tx_round_trip(t: (u64, Seq<u8>), rest: Seq<u8>)
    requires
        t.1.len() <= u64::MAX,
    ensures
        parse_tx(enc_tx(t) + rest) == Some((t, enc_tx(t).len())),
{
    let b = enc_tx(t) + rest;
    lemma_u64_round_trip(t.0, enc_field(t.1) + rest);
    assert(b =~= u64_be(t.0) + (enc_field(t.1) + rest));
    assert(b.skip(8) =~= enc_field(t.1) + rest);
    lemma_field_round_trip(t.1, rest);
}

/// `n` transactions read from the front of their encoding come back, whatever follows.
pub proof fn lemma_txs_round_trip(s: Seq<(u64, Seq<u8>)>, rest: Seq<u8>)
    requires
        forall|i: int| 0 <= i < s.len() ==> (#[trigger] s[i]).1.len() <= u64::MAX,
    ensures
        parse_txs(enc_txs(s) + rest, s.len()) == Some((s, enc_txs(s).len())),
    decreases s.len(),
{
    if s.len() > 0 {
        let b = enc_txs(s) + rest;
        assert(b =~= enc_tx(s[0]) + (enc_txs(s.skip(1)) + rest));
        lemma_tx_round_trip(s[0], enc_txs(s.skip(1)) + rest);
        assert(b.skip(enc_tx(s[0]).len() as int) =~= enc_txs(s.skip(1)) + rest);
        lemma_txs_round_trip(s.skip(1), rest);
        assert(seq![s[0]] + s.skip(1) =~= s);
    } else {
        assert(enc_txs(s) + rest =~= rest);
        assert(s =~= Seq::<(u64, Seq<u8>)>::empty());
    }
}

/// `n` namespaces read from the front of their encoding come back, whatever follows.
pub proof fn lemma_nss_round_trip(s: Seq<Seq<u8>>, rest: Seq<u8>)
    requires
        forall|i: int| 0 <= i < s.len() ==> (#[trigger] s[i]).len() == NAMESPACE_LEN,
    ensures
        parse_nss(enc_nss(s) + rest, s.len()) == Some((s, enc_nss(s).len())),
    decreases s.len(),
{
    if s.len() > 0 {
        let b = enc_nss(s) + rest;
        assert(b =~= enc_field(s[0]) + (enc_nss(s.skip(1)) + rest));
        lemma_field_round_trip(s[0], enc_nss(s.skip(1)) + rest);
        assert(b.skip(enc_field(s[0]).len() as int) =~= enc_nss(s.skip(1)) + rest);
        lemma_nss_round_trip(s.skip(1), rest);
        assert(seq![s[0]] + s.skip(1) =~= s);
    } else {
        assert(enc_nss(s) + rest =~= rest);
        assert(s =~= Seq::<Seq<u8>>::empty());
    }
}

proof fn lemma_enc_txs_push(s: Seq<(u64, Seq<u8>)>, t: (u64, Seq<u8>))
    ensures
        enc_txs(s.push(t)) == enc_txs(s) + enc_tx(t),
    decreases s.len(),
{
    if s.len() == 0 {
        assert(s.push(t).skip(1) =~= Seq::<(u64, Seq<u8>)>::empty());
        assert(s.push(t)[0] == t);
        assert(enc_txs(s.push(t).skip(1)) == Seq::<u8>::empty());
        assert(enc_txs(s) == Seq::<u8>::empty());
        assert(enc_txs(s.push(t)) =~= enc_txs(s) + enc_tx(t));
    } else {
        assert(s.push(t).skip(1) =~= s.skip(1).push(t));
        lemma_enc_txs_push(s.skip(1), t);
        assert(s.push(t)[0] == s[0]);
        assert(enc_txs(s.push(t)) == enc_tx(s[0]) + enc_txs(s.skip(1).push(t)));
        assert(enc_txs(s) == enc_tx(s[0]) + enc_txs(s.skip(1)));
        assert(enc_txs(s.push(t)) =~= enc_txs(s) + enc_tx(t));
    }
}

proof fn lemma_enc_nss_push(s: Seq<Seq<u8>>, x: Seq<u8>)
    ensures
        enc_nss(s.push(x)) == enc_nss(s) + enc_field(x),
    decreases s.len(),
{
    if s.len() == 0 {
        assert(s.push(x).skip(1) =~= Seq::<Seq<u8>>::empty());
        assert(s.push(x)[0] == x);
        assert(enc_nss(s.push(x).skip(1)) == Seq::<u8>::empty());
        assert(enc_nss(s) == Seq::<u8>::empty());
        assert(enc_nss(s.push(x)) =~= enc_nss(s) + enc_field(x));
    } else {
        assert(s.push(x).skip(1) =~= s.skip(1).push(x));
        lemma_enc_nss_push(s.skip(1), x);
        assert(s.push(x)[0] == s[0]);
        assert(enc_nss(s.push(x)) == enc_field(s[0]) + enc_nss(s.skip(1).push(x)));
        assert(enc_nss(s) == enc_field(s[0]) + enc_nss(s.skip(1)));
        assert(enc_nss(s.push(x)) =~= enc_nss(s) + enc_field(x));
    }
}

/// Writes the transactions, one after another, at the end of `out`.
pub fn push_txs(out: &mut Vec<u8>, txs: &Vec<IndexedTransaction>)
    ensures
        final(out)@ == old(out)@ + enc_txs(txs_view(txs@)),
{
    let ghost start = out@;
    let mut i: usize = 0;
    while i < txs.len()
        invariant
            i <= txs.len(),
            out@ == start + enc_txs(txs_view(txs@).take(i as int)),
        decreases txs.len() - i,
    {
        let ghost before = out@;
        push_u64(out, txs[i].index);
        push_field(out, &txs[i].transaction);
        proof {
            let v = txs_view(txs@);
            assert(v.take(i + 1) =~= v.take(i as int).push(v[i as int]));
            lemma_enc_txs_push(v.take(i as int), v[i as int]);
        }
        i = i + 1;
        assert(out@ =~= start + enc_txs(txs_view(txs@).take(i as int)));
    }
    assert(txs_view(txs@).take(i as int) =~= txs_view(txs@));
}

/// Writes the namespaces, one after another, at the end of `out`.
pub fn push_nss(out: &mut Vec<u8>, nss: &Vec<Namespace>)
    ensures
        final(out)@ == old(out)@ + enc_nss(namespaces_view(nss@)),
{
    let ghost start = out@;
    let mut i: usize = 0;
    while i < nss.len()
        invariant
            i <= nss.len(),
            out@ == start + enc_nss(namespaces_view(nss@).take(i as int)),
        decreases nss.len() - i,
    {
        push_field(out, &nss[i].id);
        proof {
            let v = namespaces_view(nss@);
            assert(v.take(i + 1) =~= v.take(i as int).push(v[i as int]));
            lemma_enc_nss_push(v.take(i as int), v[i as int]);
        }
        i = i + 1;
        assert(out@ =~= start + enc_nss(namespaces_view(nss@).take(i as int)));
    }
    assert(namespaces_view(nss@).take(i as int) =~= namespaces_view(nss@));
}

/// Reads `n` transactions at `pos` of `b`, and the position just after them.
pub fn read_txs(b: &Vec<u8>, pos: usize, n: u64) -> (r: Option<(Vec<IndexedTransaction>, usize)>)
    requires
        pos <= b.len(),
    ensures
        match r {
            Some((txs, next)) => parse_txs(b@.skip(pos as int), n as nat) == Some(
                (txs_view(txs@), (next - pos) as nat),
            ) && pos <= next <= b.len(),
            None => parse_txs(b@.skip(pos as int), n as nat) is None,
        },
{
    let mut txs: Vec<IndexedTransaction> = Vec::new();
    let mut p: usize = pos;
    let mut i: u64 = 0;
    while i < n
        invariant
            pos <= p <= b.len(),
            i <= n,
            parse_txs(b@.skip(pos as int), n as nat) == match parse_txs(
                b@.skip(p as int),
                (n - i) as nat,
            ) {
                Some((ts, k)) => Some((txs_view(txs@) + ts, ((p - pos) + k) as nat)),
                None => None,
            },
        decreases n - i,
    {
        let ghost s = b@.skip(p as int);
        let index = match read_u64(b, p) {
            Some(x) => x,
            None => return None,
        };
        let (transaction, next) = match read_field(b, p + 8) {
            Some(x) => x,
            None => {
                proof {
                    lemma_skip_skip(b@, p as int, 8);
                }
                return None;
            },
        };
        proof {
            lemma_skip_skip(b@, p as int, 8);
            lemma_skip_skip(b@, p as int, (next - p) as int);
            let t = (index, transaction@);
            assert(parse_tx(s) == Some((t, (next - p) as nat)));
            assert(txs_view(txs@.push(IndexedTransaction { index, transaction })) =~= txs_view(
                txs@,
            ) + seq![t]);
            match parse_txs(b@.skip(next as int), (n - i - 1) as nat) {
                Some((ts, k)) => {
                    assert(seq![t] + ts == seq![t] + ts);
                    assert(txs_view(txs@) + (seq![t] + ts) =~= (txs_view(txs@) + seq![t]) + ts);
                },
                None => {},
            }
        }
        txs.push(IndexedTransaction { index, transaction });
        p = next;
        i = i + 1;
    }
    assert(txs_view(txs@) + Seq::<(u64, Seq<u8>)>::empty() =~= txs_view(txs@));
    Some((txs, p))
}

/// Reads `n` namespaces at `pos` of `b`, and the position just after them.
pub fn read_nss(b: &Vec<u8>, pos: usize, n: u64) -> (r: Option<(Vec<Namespace>, usize)>)
    requires
        pos <= b.len(),
    ensures
        match r {
            Some((nss, next)) => parse_nss(b@.skip(pos as int), n as nat) == Some(
                (namespaces_view(nss@), (next - pos) as nat),
            ) && pos <= next <= b.len() && forall|i: int|
                0 <= i < nss@.len() ==> (#[trigger] nss@[i]).wf(),
            None => parse_nss(b@.skip(pos as int), n as nat) is None,
        },
{
    let mut nss: Vec<Namespace> = Vec::new();
    let mut p: usize = pos;
    let mut i: u64 = 0;
    while i < n
        invariant
            pos <= p <= b.len(),
            i <= n,
            forall|j: int| 0 <= j < nss@.len() ==> (#[trigger] nss@[j]).wf(),
            parse_nss(b@.skip(pos as int), n as nat) == match parse_nss(
                b@.skip(p as int),
                (n - i) as nat,
            ) {
                Some((xs, k)) => Some((namespaces_view(nss@) + xs, ((p - pos) + k) as nat)),
                None => None,
            },
        decreases n - i,
    {
        let ghost s = b@.skip(p as int);
        let (id, next) = match read_field(b, p) {
            Some(x) => x,
            None => return None,
        };
        if id.len() != NAMESPACE_LEN {
            return None;
        }
        proof {
            lemma_skip_skip(b@, p as int, (next - p) as int);
            let x = id@;
            assert(parse_ns(s) == Some((x, (next - p) as nat)));
            assert(namespaces_view(nss@.push(Namespace { id })) =~= namespaces_view(nss@) + seq![x]);
            match parse_nss(b@.skip(next as int), (n - i - 1) as nat) {
                Some((xs, k)) => {
                    assert(namespaces_view(nss@) + (seq![x] + xs) =~= (namespaces_view(nss@)
                        + seq![x]) + xs);
                },
                None => {},
            }
        }
        nss.push(Namespace { id });
        p = next;
        i = i + 1;
    }
    assert(namespaces_view(nss@) + Seq::<Seq<u8>>::empty() =~= namespaces_view(nss@));
    Some((nss, p))
}

} // verus!
