//! Data carried between the backend, the library and the
//! application shell, and the small decisions made on it.
//!
//! The structs mirror the backend's JSON bodies; the application
//! shell owns the HTTP calls and converts to and from these plain
//! values.

use vstd::prelude::*;

use crate::util::{ends_with_seq, ends_with_bytes, starts_with_seq, starts_with_bytes};

verus! {

/// Token material returned by the login endpoints.
pub struct AuthResponse {
    pub access_token: String,
    pub refresh_token: String,
    pub expires_in: i64,
}

/// One network (site) of the account.
pub struct Network {
    pub id: i64,
    pub name: String,
    pub armed: bool,
}

/// Signal readings of a camera.
pub struct CameraSignals {
    pub wifi: Option<i64>,
    pub battery: Option<i64>,
    pub temp: Option<i64>,
}

/// One camera of the account, whatever its product family.
pub struct Camera {
    pub id: i64,
    pub name: String,
    pub thumbnail: String,
    pub status: String,
    pub battery: Option<String>,
    pub signals: Option<CameraSignals>,
    pub network_id: Option<i64>,
    pub product_type: String,
    pub serial: Option<String>,
}

/// What a granted liveview request returns: the relay address, the
/// command to poll, and how often to poll it.
pub struct LiveViewResponse {
    pub server: String,
    pub command_id: i64,
    pub polling_interval: i64,
}

/// One stored media item.
pub struct Media {
    pub id: i64,
    pub device_name: String,
    pub thumbnail: String,
    pub media: String,
    pub created_at: String,
}

/// The persisted authentication state of the backend client.
pub struct BlinkAuthState {
    pub token: Option<String>,
    pub refresh_token: Option<String>,
    pub account_id: Option<i64>,
    pub base_url: String,
    pub device_id: String,
    pub token_expiry: Option<i64>,
}

/// Query of the media proxy endpoints.
pub struct ProxyQuery {
    pub url: String,
}

/// Query of the live endpoint.
pub struct LiveQuery {
    pub serial: Option<String>,
    pub record: Option<bool>,
}

impl BlinkAuthState {
    /// The state can authenticate calls: it holds both a token and
    /// an account id.
    pub fn has_auth(&self) -> (r: bool)
        ensures
            r == (self.token is Some && self.account_id is Some),
    {
        self.token.is_some() && self.account_id.is_some()
    }
}

/// A token refresh is due: there is no known expiry, or the expiry
/// is less than a minute away.
pub fn needs_refresh(token_expiry: Option<i64>, now: i64) -> (r: bool)
    requires
        token_expiry matches Some(e) ==> e >= i64::MIN + 60,
    ensures
        r == match token_expiry {
            Some(e) => now >= e - 60,
            None => true,
        },
{
    match token_expiry {
        Some(e) => now >= e - 60,
        None => true,
    }
}

/// The `http` prefix that marks an already-absolute URL.
pub open spec fn http_prefix() -> Seq<u8> {
    seq![104u8, 116u8, 116u8, 112u8]
}

/// A backend path resolved against the base URL: an absolute URL
/// passes unchanged, anything else is appended to the base.
pub open spec fn resolved_url(base: Seq<u8>, path: Seq<u8>) -> Seq<u8> {
    if starts_with_seq(path, http_prefix()) {
        path
    } else {
        base + path
    }
}

/// Resolves a backend path against the base URL.
pub fn resolve_url(base: &[u8], path: &[u8]) -> (r: Vec<u8>)
    ensures
        r@ == resolved_url(base@, path@),
{
    let prefix: Vec<u8> = vec![104u8, 116u8, 116u8, 112u8];
    assert(prefix@ =~= http_prefix());
    if starts_with_bytes(path, prefix.as_slice()) {
        vstd::slice::slice_to_vec(path)
    } else {
        let mut out = vstd::slice::slice_to_vec(base);
        let n = path.len();
        let mut i: usize = 0;
        while i < n
            invariant
                n == path@.len(),
                i <= n,
                out@ =~= base@ + path@.subrange(0, i as int),
            decreases n - i,
        {
            out.push(path[i]);
            assert(out@ =~= base@ + path@.subrange(0, i + 1));
            i = i + 1;
        }
        assert(out@ =~= base@ + path@);
        out
    }
}

/// The vendor-controlled host suffixes that media may be fetched
/// from.
pub open spec fn allowed_media_host(h: Seq<u8>) -> bool {
    ||| ends_with_seq(
        h,
        seq![
            46u8, 105u8, 109u8, 109u8, 101u8, 100u8, 105u8, 97u8, 45u8, 115u8, 101u8, 109u8,
            105u8, 46u8, 99u8, 111u8, 109u8,
        ],
    )
    ||| ends_with_seq(
        h,
        seq![
            46u8, 98u8, 108u8, 105u8, 110u8, 107u8, 102u8, 111u8, 114u8, 104u8, 111u8, 109u8,
            101u8, 46u8, 99u8, 111u8, 109u8,
        ],
    )
    ||| ends_with_seq(h, seq![46u8, 98u8, 108u8, 105u8, 110u8, 107u8, 46u8, 99u8, 111u8, 109u8])
    ||| ends_with_seq(
        h,
        seq![
            46u8, 97u8, 109u8, 97u8, 122u8, 111u8, 110u8, 97u8, 119u8, 115u8, 46u8, 99u8, 111u8,
            109u8,
        ],
    )
    ||| ends_with_seq(
        h,
        seq![
            46u8, 99u8, 108u8, 111u8, 117u8, 100u8, 102u8, 114u8, 111u8, 110u8, 116u8, 46u8,
            110u8, 101u8, 116u8,
        ],
    )
}

/// The host may serve media: it ends in one of the vendor's
/// domains.
pub fn is_allowed_media_host(host: &[u8]) -> (r: bool)
    ensures
        r == allowed_media_host(host@),
{
    let s1: Vec<u8> = vec![
        46u8, 105u8, 109u8, 109u8, 101u8, 100u8, 105u8, 97u8, 45u8, 115u8, 101u8, 109u8, 105u8,
        46u8, 99u8, 111u8, 109u8,
    ];
    let s2: Vec<u8> = vec![
        46u8, 98u8, 108u8, 105u8, 110u8, 107u8, 102u8, 111u8, 114u8, 104u8, 111u8, 109u8, 101u8,
        46u8, 99u8, 111u8, 109u8,
    ];
    let s3: Vec<u8> = vec![46u8, 98u8, 108u8, 105u8, 110u8, 107u8, 46u8, 99u8, 111u8, 109u8];
    let s4: Vec<u8> = vec![
        46u8, 97u8, 109u8, 97u8, 122u8, 111u8, 110u8, 97u8, 119u8, 115u8, 46u8, 99u8, 111u8,
        109u8,
    ];
    let s5: Vec<u8> = vec![
        46u8, 99u8, 108u8, 111u8, 117u8, 100u8, 102u8, 114u8, 111u8, 110u8, 116u8, 46u8, 110u8,
        101u8, 116u8,
    ];
    let r = ends_with_bytes(host, s1.as_slice()) || ends_with_bytes(host, s2.as_slice())
        || ends_with_bytes(host, s3.as_slice()) || ends_with_bytes(host, s4.as_slice())
        || ends_with_bytes(host, s5.as_slice());
    r
}

/// `d` is `c` with its product type replaced by `t`.
pub open spec fn retagged(c: Camera, d: Camera, t: Seq<char>) -> bool {
    &&& d.id == c.id
    &&& d.name == c.name
    &&& d.thumbnail == c.thumbnail
    &&& d.status == c.status
    &&& d.battery == c.battery
    &&& d.signals == c.signals
    &&& d.network_id == c.network_id
    &&& d.product_type@ == t
    &&& d.serial == c.serial
}

/// Appends every camera of `src` to `out` with its product type set
/// to `tag`, in order.
fn append_retagged(out: &mut Vec<Camera>, src: Vec<Camera>, tag: &str)
    ensures
        final(out)@.len() == old(out)@.len() + src@.len(),
        forall|i: int| 0 <= i < old(out)@.len() ==> final(out)@[i] == old(out)@[i],
        forall|i: int| 0 <= i < src@.len() ==> retagged(
            src@[i],
            final(out)@[old(out)@.len() + i],
            tag@,
        ),
{
    let ghost src0 = src@;
    let ghost base = out@;
    let mut rest = src;
    while rest.len() > 0
        invariant
            rest@.len() <= src0.len(),
            rest@ == src0.skip(src0.len() - rest@.len()),
            out@.len() == base.len() + src0.len() - rest@.len(),
            forall|i: int| 0 <= i < base.len() ==> out@[i] == base[i],
            forall|i: int| 0 <= i < src0.len() - rest@.len() ==> retagged(
                src0[i],
                out@[base.len() + i],
                tag@,
            ),
        decreases rest@.len(),
    {
        let ghost done = src0.len() - rest@.len();
        let mut cam = rest.remove(0);
        proof {
            assert(src0.skip(done as int)[0] == src0[done as int]);
            assert(src0.skip(done as int).remove(0) =~= src0.skip(done + 1));
        }
        cam.product_type = String::from_str(tag);
        out.push(cam);
    }
    proof {
        assert(src0.len() - rest@.len() == src0.len());
    }
}

/// Merges the per-family camera lists into one, tagging each camera
/// with its product family: `camera`, then `owl`, then `doorbell`,
/// keeping each list's order.
pub fn merge_cameras(cameras: Vec<Camera>, owls: Vec<Camera>, doorbells: Vec<Camera>) -> (r: Vec<
    Camera,
>)
    ensures
        r@.len() == cameras@.len() + owls@.len() + doorbells@.len(),
        forall|i: int| 0 <= i < cameras@.len() ==> retagged(cameras@[i], r@[i], "camera"@),
        forall|i: int| 0 <= i < owls@.len() ==> retagged(owls@[i], r@[cameras@.len() + i], "owl"@),
        forall|i: int| 0 <= i < doorbells@.len() ==> retagged(
            doorbells@[i],
            r@[cameras@.len() + owls@.len() + i],
            "doorbell"@,
        ),
{
    let mut out: Vec<Camera> = Vec::new();
    append_retagged(&mut out, cameras, "camera");
    append_retagged(&mut out, owls, "owl");
    append_retagged(&mut out, doorbells, "doorbell");
    out
}

} // verus!
