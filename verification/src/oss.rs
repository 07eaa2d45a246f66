//! The client configuration and the URL builder: credential and endpoint
//! context, key normalization, and assembly of the final request URL.

use vstd::prelude::*;
use vstd::string::StrSliceExecFns;
use vstd::string::StringExecFns;

use crate::encode::{encode_key, encoded_key, http_date, http_date_of};
use crate::params::{join_params, join_query, pairs_view, param_order, sort_params};
use crate::request::RequestBuilder;
use crate::text::{spec_strip_prefix, starts_with_char, str_starts_with, strip_prefix_str};

verus! {

/// A key normalized to begin with `/`; an already rooted key is unchanged.
pub open spec fn normalize_key(k: Seq<char>) -> Seq<char> {
    if k.len() > 0 && k[0] == '/' {
        k
    } else {
        seq!['/'] + k
    }
}

/// Normalization is idempotent, and a normalized key always begins
/// with `/`.
pub proof fn lemma_normalize_idempotent(k: Seq<char>)
    ensures
        normalize_key(normalize_key(k)) == normalize_key(k),
        normalize_key(k).len() > 0,
        normalize_key(k)[0] == '/',
{
    if !(k.len() > 0 && k[0] == '/') {
        assert((seq!['/'] + k)[0] == '/');
    }
}

/// With a CDN override the output host is exactly the override: the URL
/// does not depend on the configured endpoint or bucket at all.
pub proof fn lemma_cdn_override_precedence(
    endpoint1: Seq<char>,
    bucket1: Seq<char>,
    endpoint2: Seq<char>,
    bucket2: Seq<char>,
    key: Seq<char>,
    cdn: Seq<char>,
)
    ensures
        spec_url(endpoint1, bucket1, key, Some(cdn)) == cdn + normalize_key(key),
        spec_url(endpoint1, bucket1, key, Some(cdn)) == spec_url(
            endpoint2,
            bucket2,
            key,
            Some(cdn),
        ),
{
}

/// The canonicalized resource string: `/` + bucket + rooted key, or the
/// bare `/` when the bucket name is empty (kept as is for compatibility).
pub open spec fn resource_str(bucket: Seq<char>, key: Seq<char>) -> Seq<char> {
    if bucket.len() == 0 {
        seq!['/']
    } else {
        seq!['/'] + bucket + key
    }
}

/// The view of an optional owned string.
pub open spec fn opt_view(o: Option<String>) -> Option<Seq<char>> {
    match o {
        Some(s) => Some(s@),
        None => None,
    }
}

/// The virtual-hosted host: scheme from the configured endpoint, then
/// `bucket.` and the endpoint with its scheme prefix removed.
pub open spec fn spec_host(endpoint: Seq<char>, bucket: Seq<char>) -> Seq<char> {
    if "https"@.is_prefix_of(endpoint) {
        "https://"@ + bucket + "."@ + spec_strip_prefix("https://"@, endpoint)
    } else {
        "http://"@ + bucket + "."@ + spec_strip_prefix("http://"@, endpoint)
    }
}

/// The final URL: the key (with any query already appended) normalized to
/// a leading `/`, behind the CDN override or the virtual-hosted host.
pub open spec fn spec_url(
    endpoint: Seq<char>,
    bucket: Seq<char>,
    key: Seq<char>,
    cdn: Option<Seq<char>>,
) -> Seq<char> {
    match cdn {
        Some(c) => c + normalize_key(key),
        None => spec_host(endpoint, bucket) + normalize_key(key),
    }
}

/// What `format_url` returns: the key with the sorted query parameters
/// appended, rooted, behind the chosen host.
pub open spec fn spec_format_url(
    endpoint: Seq<char>,
    bucket: Seq<char>,
    key: Seq<char>,
    params: Seq<(Seq<char>, Seq<char>)>,
    cdn: Option<Seq<char>>,
) -> Seq<char> {
    let k = if params.len() > 0 {
        key + seq!['?'] + join_params(params.sort_by(param_order()))
    } else {
        key
    };
    spec_url(endpoint, bucket, k, cdn)
}

/// The client's long-lived state: credential pair and endpoint context.
#[derive(Debug, Clone)]
pub struct OSS {
    key_id: String,
    key_secret: String,
    endpoint: String,
    bucket: String,
}

/// Read access to the client configuration.
pub trait OSSInfo {
    spec fn spec_endpoint(&self) -> Seq<char>;

    spec fn spec_bucket(&self) -> Seq<char>;

    spec fn spec_key_id(&self) -> Seq<char>;

    spec fn spec_key_secret(&self) -> Seq<char>;

    fn endpoint(&self) -> (r: String)
        ensures
            r@ == self.spec_endpoint(),
    ;

    fn bucket(&self) -> (r: String)
        ensures
            r@ == self.spec_bucket(),
    ;

    fn key_id(&self) -> (r: String)
        ensures
            r@ == self.spec_key_id(),
    ;

    fn key_secret(&self) -> (r: String)
        ensures
            r@ == self.spec_key_secret(),
    ;
}

impl OSSInfo for OSS {
    closed spec fn spec_endpoint(&self) -> Seq<char> {
        self.endpoint@
    }

    closed spec fn spec_bucket(&self) -> Seq<char> {
        self.bucket@
    }

    closed spec fn spec_key_id(&self) -> Seq<char> {
        self.key_id@
    }

    closed spec fn spec_key_secret(&self) -> Seq<char> {
        self.key_secret@
    }

    fn endpoint(&self) -> (r: String) {
        self.endpoint.clone()
    }

    fn bucket(&self) -> (r: String) {
        self.bucket.clone()
    }

    fn key_id(&self) -> (r: String) {
        self.key_id.clone()
    }

    fn key_secret(&self) -> (r: String) {
        self.key_secret.clone()
    }
}

/// Shaping of object keys and resource strings.
pub trait API {
    /// Percent-encodes each `/`-separated segment of a key, keeping the
    /// separators, so the path hierarchy survives encoding.
    fn key_urlencode(&self, key: &str) -> (r: String)
        ensures
            r@ == encoded_key(key@),
    ;

    /// Normalizes a key to begin with `/`; a rooted key is never altered.
    fn format_key(&self, key: &str) -> (r: String)
        ensures
            r@ == normalize_key(key@),
    ;

    /// The canonicalized resource string for a bucket and a rooted key.
    fn format_oss_resource_str(&self, bucket: &str, key: &str) -> (r: String)
        ensures
            r@ == resource_str(bucket@, key@),
    ;
}

impl API for OSS {
    fn key_urlencode(&self, key: &str) -> (r: String) {
        encode_key(key)
    }

    fn format_key(&self, key: &str) -> (r: String) {
        let rooted = starts_with_char(key, '/');
        if rooted {
            key.to_owned()
        } else {
            let mut s = String::from_str("/");
            s.append(key);
            proof {
                reveal_strlit("/");
                assert(s@ =~= seq!['/'] + key@);
            }
            s
        }
    }

    fn format_oss_resource_str(&self, bucket: &str, key: &str) -> (r: String) {
        proof {
            reveal_strlit("/");
        }
        if bucket.unicode_len() == 0 {
            let s = String::from_str("/");
            proof {
                assert(s@ =~= seq!['/']);
            }
            s
        } else {
            let mut s = String::from_str("/");
            s.append(bucket);
            s.append(key);
            proof {
                assert(s@ =~= seq!['/'] + bucket@ + key@);
            }
            s
        }
    }
}

impl OSS {
    pub fn new(key_id: &str, key_secret: &str, endpoint: &str, bucket: &str) -> (r: OSS)
        ensures
            r.spec_key_id() == key_id@,
            r.spec_key_secret() == key_secret@,
            r.spec_endpoint() == endpoint@,
            r.spec_bucket() == bucket@,
    {
        OSS {
            key_id: key_id.to_owned(),
            key_secret: key_secret.to_owned(),
            endpoint: endpoint.to_owned(),
            bucket: bucket.to_owned(),
        }
    }

    /// Kept for interface compatibility; verbose logging lives outside
    /// this library.
    pub fn open_debug(&self) {
    }

    /// The HTTP-date rendering of a Unix timestamp, as sent in the `Date`
    /// header and signed in the canonical string.
    pub fn date(&self, now: u64) -> (r: String)
        requires
            now <= 253_402_300_799,
        ensures
            r@ == http_date_of(now as int),
    {
        http_date(now)
    }

    /// The virtual-hosted host for a bucket under this client's endpoint.
    fn host_string(&self, bucket: &str) -> (r: String)
        ensures
            r@ == spec_host(self.spec_endpoint(), bucket@),
    {
        if str_starts_with(self.endpoint.as_str(), "https") {
            let mut out = String::from_str("https://");
            out.append(bucket);
            out.append(".");
            let stripped = strip_prefix_str(self.endpoint.as_str(), "https://");
            out.append(stripped.as_str());
            proof {
                assert(out@ =~= "https://"@ + bucket@ + "."@ + spec_strip_prefix(
                    "https://"@,
                    self.spec_endpoint(),
                ));
            }
            out
        } else {
            let mut out = String::from_str("http://");
            out.append(bucket);
            out.append(".");
            let stripped = strip_prefix_str(self.endpoint.as_str(), "http://");
            out.append(stripped.as_str());
            proof {
                assert(out@ =~= "http://"@ + bucket@ + "."@ + spec_strip_prefix(
                    "http://"@,
                    self.spec_endpoint(),
                ));
            }
            out
        }
    }

    /// Roots the key and places it behind the CDN override or the
    /// virtual-hosted host.
    pub(crate) fn assemble_url(&self, bucket: &str, key: &str, cdn: &Option<String>) -> (r:
        String)
        ensures
            r@ == spec_url(self.spec_endpoint(), bucket@, key@, opt_view(*cdn)),
    {
        let rooted = starts_with_char(key, '/');
        let nk: String = if rooted {
            key.to_owned()
        } else {
            let mut s = String::from_str("/");
            s.append(key);
            proof {
                reveal_strlit("/");
                assert(s@ =~= seq!['/'] + key@);
            }
            s
        };
        match cdn {
            Some(c) => {
                let mut out = c.clone();
                out.append(nk.as_str());
                out
            },
            None => {
                let mut out = self.host_string(bucket);
                out.append(nk.as_str());
                out
            },
        }
    }

    /// Builds the final URL for a key: sorted query parameters appended,
    /// the whole rooted, behind the CDN override or the virtual-hosted
    /// host. Parameters are taken as given: values meant to be
    /// percent-encoded must already be.
    pub fn format_url(&self, bucket: &str, key: &str, build: &RequestBuilder) -> (r: String)
        ensures
            r@ == spec_format_url(
                self.spec_endpoint(),
                bucket@,
                key@,
                pairs_view(build.parameters@),
                opt_view(build.cdn),
            ),
    {
        let mut k: String = key.to_owned();
        if build.parameters.len() > 0 {
            let sorted = sort_params(&build.parameters);
            let q = join_query(&sorted);
            k.append("?");
            k.append(q.as_str());
            proof {
                reveal_strlit("?");
                assert(k@ =~= key@ + seq!['?'] + q@);
            }
        }
        self.assemble_url(bucket, k.as_str(), &build.cdn)
    }
}

} // verus!
