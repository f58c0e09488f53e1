//! Relay address handling and the connection handshake.
//!
//! A negotiated relay address arrives under the vendor's custom
//! scheme. The scheme is rewritten to the standard secure-transport
//! one, the address is split, and two values are extracted from it:
//! the connection identifier — the part of the final path segment
//! before a `__` marker — and a numeric client id from the
//! `client_id` query parameter, 0 when absent or unparseable. Both
//! go into a fixed 122-byte authentication record that opens the
//! relay session.
//!
//! The split itself is the url crate's; its results are functions
//! of the address text alone and carry names here, so that the
//! handshake preparation can say exactly which host, port,
//! connection id and client id it hands back for every address.

use vstd::prelude::*;

use crate::errors::LiveError;
use crate::util::{
    be32_bytes, contains_seq, find_bytes, matches_at, parse_u32_ascii, parse_u32_spec, put_be32,
    starts_with_bytes, starts_with_seq,
};

verus! {

/// The host of the address as the url crate splits it; `None` when
/// the address does not parse or has no host.
pub uninterp spec fn url_host_of(s: Seq<u8>) -> Option<Seq<u8>>;

/// The explicit, non-default port of the address as the url crate
/// splits it; `None` when the address does not parse or names
/// none.
pub uninterp spec fn url_port_of(s: Seq<u8>) -> Option<u16>;

/// The percent-encoded path of the address as the url crate splits
/// it; empty when the address does not parse.
pub uninterp spec fn url_path_of(s: Seq<u8>) -> Seq<u8>;

/// The percent-decoded query key/value pairs of the address, in
/// order, as the url crate splits them; empty when the address
/// does not parse.
pub uninterp spec fn url_query_pairs_of(s: Seq<u8>) -> Seq<(Seq<u8>, Seq<u8>)>;

/// Relies on url::Url::parse and url::Url::host_str: the host of
/// the address, `None` when the address does not parse or has no
/// host. The split depends on the text alone.
#[verifier::external_body]
fn url_host(s: &[u8]) -> (r: Option<Vec<u8>>)
    ensures
        match r {
            Some(h) => url_host_of(s@) == Some(h@),
            None => url_host_of(s@) is None,
        },
{
    core::str::from_utf8(s).ok().and_then(|t| url::Url::parse(t).ok()).and_then(
        |u| u.host_str().map(|h| h.as_bytes().to_vec()),
    )
}

/// Relies on url::Url::parse and url::Url::port: the explicitly
/// written, non-default port, `None` otherwise.
#[verifier::external_body]
fn url_port(s: &[u8]) -> (r: Option<u16>)
    ensures
        r == url_port_of(s@),
{
    core::str::from_utf8(s).ok().and_then(|t| url::Url::parse(t).ok()).and_then(|u| u.port())
}

/// Relies on url::Url::parse and url::Url::path: the
/// percent-encoded path.
#[verifier::external_body]
fn url_path(s: &[u8]) -> (r: Vec<u8>)
    ensures
        r@ == url_path_of(s@),
{
    core::str::from_utf8(s).ok().and_then(|t| url::Url::parse(t).ok()).map(
        |u| u.path().as_bytes().to_vec(),
    ).unwrap_or_default()
}

/// The byte strings of a list of query pairs.
pub open spec fn pair_views(q: Seq<(Vec<u8>, Vec<u8>)>) -> Seq<(Seq<u8>, Seq<u8>)> {
    Seq::new(q.len(), |i: int| (q[i].0@, q[i].1@))
}

/// Relies on url::Url::parse and url::Url::query_pairs: the
/// percent-decoded key/value pairs, in order.
#[verifier::external_body]
fn url_query_pairs(s: &[u8]) -> (r: Vec<(Vec<u8>, Vec<u8>)>)
    ensures
        pair_views(r@) == url_query_pairs_of(s@),
{
    core::str::from_utf8(s).ok().and_then(|t| url::Url::parse(t).ok()).map(
        |u| u.query_pairs().map(|(k, v)| (k.as_bytes().to_vec(), v.as_bytes().to_vec())).collect(),
    ).unwrap_or_default()
}

/// The vendor's custom scheme prefix, `immis://`.
pub open spec fn vendor_scheme() -> Seq<u8> {
    seq![105u8, 109u8, 109u8, 105u8, 115u8, 58u8, 47u8, 47u8]
}

/// The standard secure-transport scheme prefix, `https://`.
pub open spec fn secure_scheme() -> Seq<u8> {
    seq![104u8, 116u8, 116u8, 112u8, 115u8, 58u8, 47u8, 47u8]
}

/// The address with the vendor scheme replaced by the secure one;
/// other addresses pass unchanged.
pub open spec fn rewritten_scheme(a: Seq<u8>) -> Seq<u8> {
    if starts_with_seq(a, vendor_scheme()) {
        secure_scheme() + a.skip(8)
    } else {
        a
    }
}

/// Rewrites the vendor scheme to the secure-transport scheme.
pub fn rewrite_relay_scheme(address: &[u8]) -> (r: Vec<u8>)
    ensures
        r@ == rewritten_scheme(address@),
{
    let vendor: Vec<u8> = vec![105u8, 109u8, 109u8, 105u8, 115u8, 58u8, 47u8, 47u8];
    assert(vendor@ =~= vendor_scheme());
    if starts_with_bytes(address, vendor.as_slice()) {
        let mut out: Vec<u8> = vec![104u8, 116u8, 116u8, 112u8, 115u8, 58u8, 47u8, 47u8];
        assert(out@ =~= secure_scheme());
        let ghost scheme = out@;
        let n = address.len();
        let mut i: usize = 8;
        while i < n
            invariant
                n == address@.len(),
                8 <= i <= n,
                out@ =~= scheme + address@.subrange(8, i as int),
            decreases n - i,
        {
            out.push(address[i]);
            assert(out@ =~= scheme + address@.subrange(8, i + 1));
            i = i + 1;
        }
        assert(out@ =~= rewritten_scheme(address@));
        out
    } else {
        vstd::slice::slice_to_vec(address)
    }
}

/// The final `/`-separated segment of a path: everything after the
/// last slash, the whole path when it has none.
pub open spec fn last_segment(p: Seq<u8>) -> Seq<u8>
    decreases p.len(),
{
    if p.len() == 0 {
        p
    } else if p.last() == 47 {
        Seq::empty()
    } else {
        last_segment(p.drop_last()).push(p.last())
    }
}

proof fn lemma_last_segment_at(p: Seq<u8>, i: int)
    requires
        0 <= i <= p.len(),
        forall|k: int| i <= k < p.len() ==> p[k] != 47,
        i == 0 || p[i - 1] == 47,
    ensures
        last_segment(p) == p.subrange(i, p.len() as int),
    decreases p.len(),
{
    if i == p.len() {
        if p.len() == 0 {
            assert(p.subrange(0, 0) =~= p);
        } else {
            assert(p.last() == 47);
            assert(p.subrange(i, p.len() as int) =~= Seq::<u8>::empty());
        }
    } else {
        assert(p[p.len() - 1] != 47);
        let q = p.drop_last();
        lemma_last_segment_at(q, i);
        assert(q.subrange(i, q.len() as int).push(p.last()) =~= p.subrange(i, p.len() as int));
    }
}

/// The final path segment.
pub fn tail_segment(path: &[u8]) -> (r: Vec<u8>)
    ensures
        r@ == last_segment(path@),
{
    let n = path.len();
    let mut i: usize = n;
    while i > 0 && path[i - 1] != 47
        invariant
            n == path@.len(),
            0 <= i <= n,
            forall|k: int| i <= k < n ==> path@[k] != 47,
        decreases i,
    {
        i = i - 1;
    }
    let mut out: Vec<u8> = Vec::new();
    let mut j: usize = i;
    while j < n
        invariant
            n == path@.len(),
            i <= j <= n,
            out@ =~= path@.subrange(i as int, j as int),
        decreases n - j,
    {
        out.push(path[j]);
        assert(out@ =~= path@.subrange(i as int, j + 1));
        j = j + 1;
    }
    proof {
        lemma_last_segment_at(path@, i as int);
    }
    assert(out@ =~= path@.subrange(i as int, n as int));
    out
}

/// The `__` marker that ends a connection identifier.
pub open spec fn id_marker() -> Seq<u8> {
    seq![95u8, 95u8]
}

/// Everything before the first `__` marker; the whole string when
/// there is none.
pub open spec fn before_marker(s: Seq<u8>) -> Seq<u8>
    decreases s.len(),
{
    if s.len() < 2 {
        s
    } else if s[0] == 95 && s[1] == 95 {
        Seq::empty()
    } else {
        seq![s[0]] + before_marker(s.drop_first())
    }
}

proof fn lemma_before_marker_at(s: Seq<u8>, i: int)
    requires
        matches_at(s, id_marker(), i),
        forall|k: int| 0 <= k < i ==> !matches_at(s, id_marker(), k),
    ensures
        before_marker(s) == s.subrange(0, i),
    decreases s.len(),
{
    if i == 0 {
        assert(s.subrange(0, 2)[0] == s[0]);
        assert(s.subrange(0, 2)[1] == s[1]);
        assert(s.subrange(0, i) =~= Seq::<u8>::empty());
    } else {
        assert(s.len() >= 2);
        if s[0] == 95 && s[1] == 95 {
            assert(s.subrange(0, 2) =~= id_marker());
            assert(matches_at(s, id_marker(), 0));
            assert(false);
        }
        let t = s.drop_first();
        assert(t.subrange(i - 1, i + 1) =~= s.subrange(i, i + 2));
        assert(matches_at(t, id_marker(), i - 1));
        assert forall|k: int| 0 <= k < i - 1 implies !matches_at(t, id_marker(), k) by {
            if matches_at(t, id_marker(), k) {
                assert(s.subrange(k + 1, k + 3) =~= t.subrange(k, k + 2));
                assert(matches_at(s, id_marker(), k + 1));
            }
        }
        lemma_before_marker_at(t, i - 1);
        assert(seq![s[0]] + t.subrange(0, i - 1) =~= s.subrange(0, i));
    }
}

proof fn lemma_before_marker_none(s: Seq<u8>)
    requires
        !contains_seq(s, id_marker()),
    ensures
        before_marker(s) == s,
    decreases s.len(),
{
    if s.len() >= 2 {
        if s[0] == 95 && s[1] == 95 {
            assert(s.subrange(0, 2) =~= id_marker());
            assert(matches_at(s, id_marker(), 0));
            assert(false);
        }
        let t = s.drop_first();
        assert forall|k: int| !matches_at(t, id_marker(), k) by {
            if matches_at(t, id_marker(), k) {
                assert(s.subrange(k + 1, k + 3) =~= t.subrange(k, k + 2));
                assert(matches_at(s, id_marker(), k + 1));
            }
        }
        lemma_before_marker_none(t);
        assert(seq![s[0]] + t =~= s);
    }
}

/// Everything before the first `__` marker; the whole string when
/// there is none.
pub fn cut_at_marker(seg: &[u8]) -> (r: Vec<u8>)
    ensures
        r@ == before_marker(seg@),
{
    let marker: Vec<u8> = vec![95u8, 95u8];
    assert(marker@ =~= id_marker());
    match find_bytes(seg, marker.as_slice()) {
        Some(i) => {
            proof {
                lemma_before_marker_at(seg@, i as int);
            }
            let mut out: Vec<u8> = Vec::new();
            let mut j: usize = 0;
            proof {
                assert(i + id_marker().len() <= seg@.len());
            }
            while j < i
                invariant
                    i <= seg@.len(),
                    j <= i,
                    out@ =~= seg@.subrange(0, j as int),
                decreases i - j,
            {
                out.push(seg[j]);
                assert(out@ =~= seg@.subrange(0, j + 1));
                j = j + 1;
            }
            out
        },
        None => {
            proof {
                lemma_before_marker_none(seg@);
            }
            vstd::slice::slice_to_vec(seg)
        },
    }
}

/// The `client_id` query key.
pub open spec fn client_id_key() -> Seq<u8> {
    seq![99u8, 108u8, 105u8, 101u8, 110u8, 116u8, 95u8, 105u8, 100u8]
}

/// Value of the first pair with the given key.
pub open spec fn first_value_for(q: Seq<(Seq<u8>, Seq<u8>)>, key: Seq<u8>) -> Option<Seq<u8>>
    decreases q.len(),
{
    if q.len() == 0 {
        None
    } else if q.first().0 == key {
        Some(q.first().1)
    } else {
        first_value_for(q.drop_first(), key)
    }
}

/// The client id a query stands for: the first `client_id` value
/// read as a decimal number, 0 when the key is absent or its value
/// does not parse.
pub open spec fn client_id_of(q: Seq<(Seq<u8>, Seq<u8>)>) -> u32 {
    match first_value_for(q, client_id_key()) {
        None => 0,
        Some(v) => match parse_u32_spec(v) {
            Some(x) => x,
            None => 0,
        },
    }
}

proof fn lemma_first_value_skip(q: Seq<(Seq<u8>, Seq<u8>)>, key: Seq<u8>, i: int)
    requires
        0 <= i <= q.len(),
        forall|k: int| 0 <= k < i ==> q[k].0 != key,
    ensures
        first_value_for(q, key) == first_value_for(q.skip(i), key),
    decreases i,
{
    if i == 0 {
        assert(q.skip(0) =~= q);
    } else {
        assert(q.len() > 0);
        assert(q[0].0 != key);
        assert(forall|k: int| 0 <= k < i - 1 ==> #[trigger] q.drop_first()[k] == q[k + 1]);
        lemma_first_value_skip(q.drop_first(), key, i - 1);
        assert(q.drop_first().skip(i - 1) =~= q.skip(i));
    }
}

/// Reads the client id from the query pairs.
pub fn client_id_from_query(pairs: &Vec<(Vec<u8>, Vec<u8>)>) -> (r: u32)
    ensures
        r == client_id_of(pair_views(pairs@)),
{
    let ghost q = pair_views(pairs@);
    let key: Vec<u8> = vec![99u8, 108u8, 105u8, 101u8, 110u8, 116u8, 95u8, 105u8, 100u8];
    assert(key@ =~= client_id_key());
    let n = pairs.len();
    let mut i: usize = 0;
    while i < n
        invariant
            n == pairs@.len(),
            q == pair_views(pairs@),
            i <= n,
            key@ == client_id_key(),
            forall|k: int| 0 <= k < i ==> #[trigger] q[k].0 != client_id_key(),
        decreases n - i,
    {
        let found = crate::util::bytes_eq(pairs[i].0.as_slice(), key.as_slice());
        if found {
            proof {
                lemma_first_value_skip(q, client_id_key(), i as int);
                assert(q.skip(i as int).first() == q[i as int]);
            }
            let r = match parse_u32_ascii(pairs[i].1.as_slice()) {
                Some(x) => x,
                None => 0,
            };
            return r;
        }
        i = i + 1;
    }
    proof {
        lemma_first_value_skip(q, client_id_key(), n as int);
        assert(q.skip(n as int) =~= Seq::<(Seq<u8>, Seq<u8>)>::empty());
    }
    0
}

/// A run of `n` zero bytes.
pub open spec fn zero_bytes(n: nat) -> Seq<u8> {
    Seq::new(n, |i: int| 0u8)
}

/// `s` truncated to 16 bytes, or zero-padded up to 16.
pub open spec fn pad16(s: Seq<u8>) -> Seq<u8> {
    if s.len() >= 16 {
        s.subrange(0, 16)
    } else {
        s + zero_bytes((16 - s.len()) as nat)
    }
}

/// Appends `pad16(s)`.
fn push_padded16(out: &mut Vec<u8>, s: &[u8])
    ensures
        final(out)@ == old(out)@ + pad16(s@),
{
    let ghost base = out@;
    let n = s.len();
    let keep: usize = if n >= 16 {
        16
    } else {
        n
    };
    let mut i: usize = 0;
    while i < keep
        invariant
            n == s@.len(),
            keep <= 16,
            keep <= n,
            i <= keep,
            out@ =~= base + s@.subrange(0, i as int),
        decreases keep - i,
    {
        out.push(s[i]);
        assert(out@ =~= base + s@.subrange(0, i + 1));
        i = i + 1;
    }
    while i < 16
        invariant
            n == s@.len(),
            keep <= 16,
            keep <= n,
            keep <= i <= 16,
            keep == (if n >= 16 { 16int } else { n as int }),
            out@ =~= base + s@.subrange(0, keep as int) + zero_bytes((i - keep) as nat),
        decreases 16 - i,
    {
        out.push(0);
        assert(out@ =~= base + s@.subrange(0, keep as int) + zero_bytes((i + 1 - keep) as nat));
        i = i + 1;
    }
    proof {
        if s@.len() >= 16 {
            assert(out@ =~= base + pad16(s@));
        } else {
            assert(s@.subrange(0, s@.len() as int) =~= s@);
            assert(out@ =~= base + pad16(s@));
        }
    }
}

/// The 122-byte authentication record, field by field: a magic
/// number, the 16-byte device serial with its length, the client
/// id, a 2-byte static marker, a zeroed 64-byte auth token with its
/// length, the 16-byte connection id with its length, and a
/// trailer.
pub open spec fn auth_record_bytes(serial: Seq<u8>, client_id: u32, conn_id: Seq<u8>) -> Seq<u8> {
    be32_bytes(0x28) + be32_bytes(16) + pad16(serial) + be32_bytes(client_id) + seq![1u8, 8u8]
        + be32_bytes(64) + zero_bytes(64) + be32_bytes(16) + pad16(conn_id) + be32_bytes(1)
}

/// Builds the authentication record.
pub fn build_auth_record(serial: &[u8], client_id: u32, connection_id: &[u8]) -> (r: Vec<u8>)
    ensures
        r@ == auth_record_bytes(serial@, client_id, connection_id@),
        r@.len() == 122,
{
    let mut out: Vec<u8> = Vec::new();
    put_be32(&mut out, 0x28);
    put_be32(&mut out, 16);
    push_padded16(&mut out, serial);
    put_be32(&mut out, client_id);
    out.push(1);
    out.push(8);
    put_be32(&mut out, 64);
    let ghost before_token = out@;
    let mut i: usize = 0;
    while i < 64
        invariant
            i <= 64,
            out@ =~= before_token + zero_bytes(i as nat),
        decreases 64 - i,
    {
        out.push(0);
        assert(out@ =~= before_token + zero_bytes((i + 1) as nat));
        i = i + 1;
    }
    put_be32(&mut out, 16);
    push_padded16(&mut out, connection_id);
    put_be32(&mut out, 1);
    assert(out@ =~= auth_record_bytes(serial@, client_id, connection_id@));
    assert(pad16(serial@).len() == 16);
    assert(pad16(connection_id@).len() == 16);
    out
}

/// Law: where each field of the authentication record stands. The
/// record is 122 bytes; the serial field fills bytes 8..24, the
/// client id bytes 24..28, the connection id bytes 102..118.
pub proof fn lemma_auth_record_fields(serial: Seq<u8>, client_id: u32, conn_id: Seq<u8>)
    ensures
        auth_record_bytes(serial, client_id, conn_id).len() == 122,
        auth_record_bytes(serial, client_id, conn_id).subrange(0, 4) == be32_bytes(0x28),
        auth_record_bytes(serial, client_id, conn_id).subrange(8, 24) == pad16(serial),
        auth_record_bytes(serial, client_id, conn_id).subrange(24, 28) == be32_bytes(client_id),
        auth_record_bytes(serial, client_id, conn_id).subrange(28, 30) == seq![1u8, 8u8],
        auth_record_bytes(serial, client_id, conn_id).subrange(102, 118) == pad16(conn_id),
        auth_record_bytes(serial, client_id, conn_id).subrange(118, 122) == be32_bytes(1),
{
    let r = auth_record_bytes(serial, client_id, conn_id);
    assert(pad16(serial).len() == 16);
    assert(pad16(conn_id).len() == 16);
    assert(r.subrange(0, 4) =~= be32_bytes(0x28));
    assert(r.subrange(8, 24) =~= pad16(serial));
    assert(r.subrange(24, 28) =~= be32_bytes(client_id));
    assert(r.subrange(28, 30) =~= seq![1u8, 8u8]);
    assert(r.subrange(102, 118) =~= pad16(conn_id));
    assert(r.subrange(118, 122) =~= be32_bytes(1));
}

/// Everything the application needs to open a relay connection:
/// where to connect and the record to send first.
#[derive(Debug)]
pub struct RelayTarget {
    pub host: Vec<u8>,
    pub port: u16,
    pub connection_id: Vec<u8>,
    pub client_id: u32,
    pub auth_record: Vec<u8>,
}

/// The scheme's default port, used when the address names none.
pub const DEFAULT_RELAY_PORT: u16 = 443;

/// What a prepared target holds for a given address and serial:
/// the host and port of the rewritten address (port defaulting to
/// 443), the part of its final path segment before the `__`
/// marker, the numeric `client_id` query value, and the
/// authentication record built from exactly those.
pub open spec fn relay_target_wf(t: RelayTarget, address: Seq<u8>, serial: Seq<u8>) -> bool {
    let rw = rewritten_scheme(address);
    &&& url_host_of(rw) == Some(t.host@)
    &&& t.port == (match url_port_of(rw) {
        Some(p) => p,
        None => DEFAULT_RELAY_PORT,
    })
    &&& t.connection_id@ == before_marker(last_segment(url_path_of(rw)))
    &&& t.client_id == client_id_of(url_query_pairs_of(rw))
    &&& t.auth_record@ == auth_record_bytes(serial, t.client_id, t.connection_id@)
}

/// Splits a negotiated relay address and builds the authentication
/// record for it.
///
/// Succeeds exactly when the rewritten address splits into a URL
/// with a host; the target then holds that host, the written or
/// default port, the connection id cut from the final path
/// segment, the query's client id, and the record built from them.
/// Anything else — a malformed or host-less address — is a
/// handshake failure.
pub fn prepare_relay_handshake(address: &[u8], serial: &[u8]) -> (r: Result<
    RelayTarget,
    LiveError,
>)
    ensures
        match r {
            Ok(t) => relay_target_wf(t, address@, serial@) && t.auth_record@.len() == 122,
            Err(e) => e == LiveError::HandshakeFailed && url_host_of(rewritten_scheme(address@))
                is None,
        },
{
    let rewritten = rewrite_relay_scheme(address);
    let host = match url_host(rewritten.as_slice()) {
        Some(h) => h,
        None => {
            return Err(LiveError::HandshakeFailed);
        },
    };
    let port = match url_port(rewritten.as_slice()) {
        Some(p) => p,
        None => DEFAULT_RELAY_PORT,
    };
    let path = url_path(rewritten.as_slice());
    let segment = tail_segment(path.as_slice());
    let connection_id = cut_at_marker(segment.as_slice());
    let pairs = url_query_pairs(rewritten.as_slice());
    let client_id = client_id_from_query(&pairs);
    let auth_record = build_auth_record(serial, client_id, connection_id.as_slice());
    Ok(RelayTarget { host, port, connection_id, client_id, auth_record })
}

} // verus!
