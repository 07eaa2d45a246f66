//! The canonicalization and signing core: the canonical signable string,
//! the keyed signature over it, and assembly of the `Authorization`
//! header or the pre-signed URL.

use vstd::prelude::*;
use vstd::string::StringExecFns;
use vstd::utf8::encode_utf8;

use crate::encode::{base64_encode, base64_of, encode_pair_values, encode_param_values,
    encoded_key, hmac_sha1_of, hmac_sha1_tag, percent_encoded, url_encode};
use crate::oss::{normalize_key, opt_view, resource_str, spec_format_url, spec_url, OSS, OSSInfo,
    API};
use crate::params::{filter_prefixed, filter_prefixed_pairs, join_header_lines, join_headers,
    join_params, join_query, lemma_names_unique_permutation, lemma_param_order_total,
    lemma_remove_name_contains, lemma_remove_name_keeps, lemma_remove_name_no_name,
    lemma_remove_name_unique, lemma_upsert_unique, names_unique, pairs_view, param_le,
    param_order, remove_name, remove_param, sort_params, upsert, upsert_param};
use crate::request::{Method, RequestBuilder};
use crate::text::{dec_str_of, lex_le, u64_to_dec};

verus! {

/// The view of an optional string, the empty sequence when absent.
pub open spec fn opt_or_empty(o: Option<String>) -> Seq<char> {
    match o {
        Some(s) => s@,
        None => Seq::empty(),
    }
}

/// The canonical header block: the headers with the vendor prefix
/// `x-oss-`, sorted by name, one `name:value\n` line each.
pub open spec fn oss_header_block(hs: Seq<(Seq<char>, Seq<char>)>) -> Seq<char> {
    join_headers(filter_prefixed(hs, "x-oss-"@).sort_by(param_order()))
}

/// The exact string that is signed: method, Content-MD5, Content-Type and
/// the date slot, each `\n`-terminated, then the canonical header block
/// and the canonicalized resource.
pub open spec fn spec_canonical(
    method: Seq<char>,
    md5: Seq<char>,
    ctype: Seq<char>,
    date: Seq<char>,
    headers: Seq<(Seq<char>, Seq<char>)>,
    resource: Seq<char>,
) -> Seq<char> {
    method + seq!['\n'] + md5 + seq!['\n'] + ctype + seq!['\n'] + date + seq!['\n']
        + oss_header_block(headers) + resource
}

/// The base64 rendering of the keyed digest of a canonical string.
pub open spec fn signature_of(secret: Seq<char>, canonical: Seq<char>) -> Seq<char> {
    base64_of(hmac_sha1_of(encode_utf8(secret), encode_utf8(canonical)))
}

/// The `Authorization` header value over a canonical string.
pub open spec fn spec_auth_value(oss: OSS, canonical: Seq<char>) -> Seq<char> {
    "OSS "@ + oss.spec_key_id() + ":"@ + signature_of(oss.spec_key_secret(), canonical)
}

/// The canonical string of one operation in header mode: the HTTP-date
/// stands in the date slot.
pub open spec fn spec_header_canonical(
    oss: OSS,
    build: RequestBuilder,
    key: Seq<char>,
    date: Seq<char>,
) -> Seq<char> {
    spec_canonical(
        build.method.str_view(),
        opt_or_empty(build.content_md5),
        opt_or_empty(build.content_type),
        date,
        pairs_view(build.headers@),
        resource_str(oss.spec_bucket(), normalize_key(key)),
    )
}

/// An optional string as a borrowed slice, empty when absent.
fn opt_str(o: &Option<String>) -> (r: &str)
    ensures
        r@ == opt_or_empty(*o),
{
    match o {
        Some(s) => s.as_str(),
        None => {
            proof {
                reveal_strlit("");
                assert(""@ =~= Seq::<char>::empty());
            }
            ""
        },
    }
}

/// Builds the canonical signable string from an operation's parts. The
/// date slot holds the HTTP-date, or the expiration timestamp when a
/// pre-signed URL is being minted.
pub fn canonicalize(
    method: &Method,
    content_md5: &str,
    content_type: &str,
    date: &str,
    headers: &Vec<(String, String)>,
    resource: &str,
) -> (r: String)
    ensures
        r@ == spec_canonical(
            method.str_view(),
            content_md5@,
            content_type@,
            date@,
            pairs_view(headers@),
            resource@,
        ),
{
    let mut s = String::from_str(method.as_str());
    s.append("\n");
    s.append(content_md5);
    s.append("\n");
    s.append(content_type);
    s.append("\n");
    s.append(date);
    s.append("\n");
    let filtered = filter_prefixed_pairs(headers, "x-oss-");
    let sorted = sort_params(&filtered);
    let block = join_header_lines(&sorted);
    s.append(block.as_str());
    s.append(resource);
    proof {
        reveal_strlit("\n");
        assert(s@ =~= spec_canonical(
            method.str_view(),
            content_md5@,
            content_type@,
            date@,
            pairs_view(headers@),
            resource@,
        ));
    }
    s
}

impl OSS {
    /// The raw keyed signature over a canonical string, under this
    /// client's secret.
    pub fn sign(&self, canonical: &str) -> (r: Vec<u8>)
        ensures
            r@ == hmac_sha1_of(
                encode_utf8(self.spec_key_secret()),
                encode_utf8(canonical@),
            ),
            r@.len() == 20,
    {
        let secret = self.key_secret();
        hmac_sha1_tag(secret.as_str(), canonical)
    }

    /// The `Authorization` header value for one operation: `OSS`, the key
    /// id, and the base64 signature of the operation's canonical string.
    pub fn oss_sign(&self, key: &str, date: &str, build: &RequestBuilder) -> (r: String)
        ensures
            r@ == spec_auth_value(*self, spec_header_canonical(*self, *build, key@, date@)),
    {
        let normalized = self.format_key(key);
        let bucket = self.bucket();
        let resource = self.format_oss_resource_str(bucket.as_str(), normalized.as_str());
        let canonical = canonicalize(
            &build.method,
            opt_str(&build.content_md5),
            opt_str(&build.content_type),
            date,
            &build.headers,
            resource.as_str(),
        );
        let tag = self.sign(canonical.as_str());
        let sig = base64_encode(&tag);
        let mut out = String::from_str("OSS ");
        let kid = self.key_id();
        out.append(kid.as_str());
        out.append(":");
        out.append(sig.as_str());
        proof {
            assert(out@ =~= spec_auth_value(
                *self,
                spec_header_canonical(*self, *build, key@, date@),
            ));
        }
        out
    }

    /// Builds a header-mode request: the final URL, and the headers
    /// `Date` (exactly the signed date), `Content-Type` when the caller
    /// supplied one, and `Authorization`.
    pub fn build_request(&self, key: &str, date: &str, build: &RequestBuilder) -> (r: (
        String,
        Vec<(String, String)>,
    ))
        ensures
            r.0@ == spec_request_url(*self, *build, key@),
            pairs_view(r.1@) == spec_request_headers(*self, *build, key@, date@),
    {
        let normalized = self.format_key(key);
        let enc = self.key_urlencode(normalized.as_str());
        let bucket = self.bucket();
        let url = self.format_url(bucket.as_str(), enc.as_str(), build);
        let auth = self.oss_sign(key, date, build);
        let mut headers: Vec<(String, String)> = Vec::new();
        headers.push((String::from_str("Date"), date.to_owned()));
        match &build.content_type {
            Some(ct) => {
                headers.push((String::from_str("Content-Type"), ct.clone()));
            },
            None => {},
        }
        headers.push((String::from_str("Authorization"), auth));
        proof {
            assert(pairs_view(headers@) =~= spec_request_headers(*self, *build, key@, date@));
        }
        (url, headers)
    }

    /// Mints a pre-signed, time-limited URL for a key. The expiration
    /// `now + expire` is both signed, standing in the canonical string's
    /// date slot, and embedded as the `Expires` query parameter.
    pub fn sign_url(&self, key: &str, build: &RequestBuilder, now: u64) -> (r: String)
        requires
            build.expire is Some,
            now + build.expire->0 <= u64::MAX,
        ensures
            r@ == spec_sign_url(*self, *build, key@, now as int),
    {
        let expire: u64 = build.expire.unwrap();
        let expires: u64 = now + expire;
        let expires_str = u64_to_dec(expires);
        let normalized = self.format_key(key);
        let bucket = self.bucket();
        let resource = self.format_oss_resource_str(bucket.as_str(), normalized.as_str());
        let canonical = canonicalize(
            &build.method,
            opt_str(&build.content_md5),
            opt_str(&build.content_type),
            expires_str.as_str(),
            &build.headers,
            resource.as_str(),
        );
        let tag = self.sign(canonical.as_str());
        let sig = base64_encode(&tag);
        let sig_enc = url_encode(sig.as_str());
        let filtered = remove_param(&build.parameters, "x-oss-ac-source-ip");
        let encoded = encode_param_values(&filtered);
        let with_exp = upsert_param(&encoded, "Expires", expires_str.as_str());
        let kid = self.key_id();
        let with_kid = upsert_param(&with_exp, "OSSAccessKeyId", kid.as_str());
        let with_sig = upsert_param(&with_kid, "Signature", sig_enc.as_str());
        let sorted = sort_params(&with_sig);
        let q = join_query(&sorted);
        let mut path = self.key_urlencode(normalized.as_str());
        path.append("?");
        path.append(q.as_str());
        proof {
            reveal_strlit("?");
            assert(path@ =~= encoded_key(normalize_key(key@)) + seq!['?'] + join_params(
                presign_query(
                    pairs_view(build.parameters@),
                    now + build.expire->0,
                    self.spec_key_id(),
                    percent_encoded(
                        signature_of(
                            self.spec_key_secret(),
                            spec_presign_canonical(
                                *self,
                                *build,
                                key@,
                                now + build.expire->0,
                            ),
                        ),
                    ),
                ),
            ));
        }
        self.assemble_url(bucket.as_str(), path.as_str(), &build.cdn)
    }
}

/// What the URL of a header-mode request is: the rooted key with each
/// segment percent-encoded, the caller's parameters sorted and appended,
/// behind the chosen host.
pub open spec fn spec_request_url(oss: OSS, build: RequestBuilder, key: Seq<char>) -> Seq<char> {
    spec_format_url(
        oss.spec_endpoint(),
        oss.spec_bucket(),
        encoded_key(normalize_key(key)),
        pairs_view(build.parameters@),
        opt_view(build.cdn),
    )
}

/// The headers of a header-mode request: the `Date` that was signed, the
/// `Content-Type` when the caller supplied one, and the `Authorization`
/// value, in that order.
pub open spec fn spec_request_headers(
    oss: OSS,
    build: RequestBuilder,
    key: Seq<char>,
    date: Seq<char>,
) -> Seq<(Seq<char>, Seq<char>)> {
    let auth = spec_auth_value(oss, spec_header_canonical(oss, build, key, date));
    let base = seq![("Date"@, date)];
    let with_ct = match build.content_type {
        Some(ct) => base.push(("Content-Type"@, ct@)),
        None => base,
    };
    with_ct.push(("Authorization"@, auth))
}

/// The query parameters of a pre-signed URL: the caller's parameters with
/// the vendor-internal `x-oss-ac-source-ip` removed and values
/// percent-encoded, then `Expires`, `OSSAccessKeyId` and the
/// percent-encoded signature, all sorted by name.
pub open spec fn presign_query(
    user: Seq<(Seq<char>, Seq<char>)>,
    expires: int,
    key_id: Seq<char>,
    sig_enc: Seq<char>,
) -> Seq<(Seq<char>, Seq<char>)> {
    upsert(
        upsert(
            upsert(
                encode_pair_values(remove_name(user, "x-oss-ac-source-ip"@)),
                "Expires"@,
                dec_str_of(expires),
            ),
            "OSSAccessKeyId"@,
            key_id,
        ),
        "Signature"@,
        sig_enc,
    ).sort_by(param_order())
}

/// The canonical string of a pre-signed operation: the expiration
/// timestamp stands in the date slot.
pub open spec fn spec_presign_canonical(
    oss: OSS,
    build: RequestBuilder,
    key: Seq<char>,
    expires: int,
) -> Seq<char> {
    spec_canonical(
        build.method.str_view(),
        opt_or_empty(build.content_md5),
        opt_or_empty(build.content_type),
        dec_str_of(expires),
        pairs_view(build.headers@),
        resource_str(oss.spec_bucket(), normalize_key(key)),
    )
}

/// What `sign_url` returns.
pub open spec fn spec_sign_url(
    oss: OSS,
    build: RequestBuilder,
    key: Seq<char>,
    now: int,
) -> Seq<char> {
    let expires = now + build.expire->0;
    let sig = signature_of(oss.spec_key_secret(), spec_presign_canonical(oss, build, key, expires));
    let q = presign_query(
        pairs_view(build.parameters@),
        expires,
        oss.spec_key_id(),
        percent_encoded(sig),
    );
    spec_url(
        oss.spec_endpoint(),
        oss.spec_bucket(),
        encoded_key(normalize_key(key)) + seq!['?'] + join_params(q),
        opt_view(build.cdn),
    )
}

/// An upsert with a name other than `deny` brings no pair named `deny` in.
proof fn lemma_upsert_keeps_no_name(
    ps: Seq<(Seq<char>, Seq<char>)>,
    name: Seq<char>,
    value: Seq<char>,
    deny: Seq<char>,
)
    requires
        forall|i: int| 0 <= i < ps.len() ==> (#[trigger] ps[i]).0 != deny,
        name != deny,
    ensures
        forall|i: int|
            0 <= i < upsert(ps, name, value).len() ==> (#[trigger] upsert(ps, name, value)[i]).0
                != deny,
{
    lemma_remove_name_contains(ps, name);
    let rest = remove_name(ps, name);
    let r = upsert(ps, name, value);
    assert forall|i: int| 0 <= i < r.len() implies (#[trigger] r[i]).0 != deny by {
        if i < rest.len() {
            assert(rest.contains(rest[i]));
            assert(ps.contains(rest[i]));
            let k = choose|k: int| 0 <= k < ps.len() && ps[k] == rest[i];
            assert(ps[k].0 != deny);
        }
    }
}

/// Sorting brings no pair named `deny` in.
proof fn lemma_sort_keeps_no_name(ps: Seq<(Seq<char>, Seq<char>)>, deny: Seq<char>)
    requires
        forall|i: int| 0 <= i < ps.len() ==> (#[trigger] ps[i]).0 != deny,
    ensures
        forall|i: int|
            0 <= i < ps.sort_by(param_order()).len() ==> (#[trigger] ps.sort_by(param_order())[i]).0
                != deny,
{
    lemma_param_order_total();
    ps.lemma_sort_by_ensures(param_order());
    let s = ps.sort_by(param_order());
    assert forall|i: int| 0 <= i < s.len() implies (#[trigger] s[i]).0 != deny by {
        assert(s.contains(s[i]));
        vstd::seq_lib::to_multiset_contains(s, s[i]);
        vstd::seq_lib::to_multiset_contains(ps, s[i]);
        assert(ps.contains(s[i]));
        let k = choose|k: int| 0 <= k < ps.len() && ps[k] == s[i];
        assert(ps[k].0 != deny);
    }
}

/// Denylist enforcement: whatever the caller's parameters, no pair named
/// `x-oss-ac-source-ip` ever stands in the signed query.
pub proof fn lemma_denylist_enforced(
    user: Seq<(Seq<char>, Seq<char>)>,
    expires: int,
    key_id: Seq<char>,
    sig_enc: Seq<char>,
)
    ensures
        forall|i: int|
            0 <= i < presign_query(user, expires, key_id, sig_enc).len() ==> (
            #[trigger] presign_query(user, expires, key_id, sig_enc)[i]).0
                != "x-oss-ac-source-ip"@,
{
    let deny = "x-oss-ac-source-ip"@;
    reveal_strlit("x-oss-ac-source-ip");
    reveal_strlit("Expires");
    reveal_strlit("OSSAccessKeyId");
    reveal_strlit("Signature");
    assert("Expires"@.len() == 7);
    assert(deny.len() == 18);
    assert("Expires"@ != deny);
    assert("OSSAccessKeyId"@ != deny);
    assert("Signature"@ != deny);
    lemma_remove_name_no_name(user, deny);
    let u0 = encode_pair_values(remove_name(user, deny));
    assert forall|i: int| 0 <= i < u0.len() implies (#[trigger] u0[i]).0 != deny by {
        assert(u0[i].0 == remove_name(user, deny)[i].0);
    }
    let u1 = upsert(u0, "Expires"@, dec_str_of(expires));
    lemma_upsert_keeps_no_name(u0, "Expires"@, dec_str_of(expires), deny);
    let u2 = upsert(u1, "OSSAccessKeyId"@, key_id);
    lemma_upsert_keeps_no_name(u1, "OSSAccessKeyId"@, key_id, deny);
    let u3 = upsert(u2, "Signature"@, sig_enc);
    lemma_upsert_keeps_no_name(u2, "Signature"@, sig_enc, deny);
    lemma_sort_keeps_no_name(u3, deny);
}

/// Sort stability: when the caller's parameters form a mapping, the
/// signed query's names stand in strictly ascending lexicographic order.
pub proof fn lemma_query_strictly_sorted(
    user: Seq<(Seq<char>, Seq<char>)>,
    expires: int,
    key_id: Seq<char>,
    sig_enc: Seq<char>,
)
    requires
        names_unique(user),
    ensures
        forall|i: int, j: int|
            0 <= i < j < presign_query(user, expires, key_id, sig_enc).len() ==> lex_le(
                (#[trigger] presign_query(user, expires, key_id, sig_enc)[i]).0,
                (#[trigger] presign_query(user, expires, key_id, sig_enc)[j]).0,
            ) && presign_query(user, expires, key_id, sig_enc)[i].0 != presign_query(
                user,
                expires,
                key_id,
                sig_enc,
            )[j].0,
{
    let deny = "x-oss-ac-source-ip"@;
    let ur = remove_name(user, deny);
    lemma_remove_name_unique(user, deny);
    let u0 = encode_pair_values(ur);
    assert(names_unique(u0)) by {
        assert forall|i: int, j: int| 0 <= i < j < u0.len() implies (#[trigger] u0[i]).0 != (
        #[trigger] u0[j]).0 by {
            assert(u0[i].0 == ur[i].0);
            assert(u0[j].0 == ur[j].0);
        }
    }
    let u1 = upsert(u0, "Expires"@, dec_str_of(expires));
    lemma_upsert_unique(u0, "Expires"@, dec_str_of(expires));
    let u2 = upsert(u1, "OSSAccessKeyId"@, key_id);
    lemma_upsert_unique(u1, "OSSAccessKeyId"@, key_id);
    let u3 = upsert(u2, "Signature"@, sig_enc);
    lemma_upsert_unique(u2, "Signature"@, sig_enc);
    lemma_param_order_total();
    u3.lemma_sort_by_ensures(param_order());
    let q = u3.sort_by(param_order());
    lemma_names_unique_permutation(u3, q);
    assert forall|i: int, j: int| 0 <= i < j < q.len() implies lex_le(
        (#[trigger] q[i]).0,
        (#[trigger] q[j]).0,
    ) && q[i].0 != q[j].0 by {
        assert(param_order()(q[i], q[j]));
        assert(param_le(q[i], q[j]));
    }
}

/// Temporal coupling: the `Expires` pair embedded in the signed query
/// holds exactly the decimal rendering of the expiration that stands in
/// the canonical string's date slot.
pub proof fn lemma_temporal_coupling(
    user: Seq<(Seq<char>, Seq<char>)>,
    expires: int,
    key_id: Seq<char>,
    sig_enc: Seq<char>,
    oss: OSS,
    build: RequestBuilder,
    key: Seq<char>,
)
    ensures
        presign_query(user, expires, key_id, sig_enc).contains(
            ("Expires"@, dec_str_of(expires)),
        ),
        spec_presign_canonical(oss, build, key, expires) == spec_canonical(
            build.method.str_view(),
            opt_or_empty(build.content_md5),
            opt_or_empty(build.content_type),
            dec_str_of(expires),
            pairs_view(build.headers@),
            resource_str(oss.spec_bucket(), normalize_key(key)),
        ),
{
    reveal_strlit("Expires");
    reveal_strlit("OSSAccessKeyId");
    reveal_strlit("Signature");
    assert("Expires"@.len() == 7);
    assert("OSSAccessKeyId"@.len() == 14);
    assert("Signature"@.len() == 9);
    let p = ("Expires"@, dec_str_of(expires));
    let deny = "x-oss-ac-source-ip"@;
    let u0 = encode_pair_values(remove_name(user, deny));
    let u1 = upsert(u0, "Expires"@, dec_str_of(expires));
    assert(u1.last() == p);
    assert(u1.contains(p));
    let u2 = upsert(u1, "OSSAccessKeyId"@, key_id);
    assert("Expires"@ != "OSSAccessKeyId"@);
    lemma_remove_name_keeps(u1, "OSSAccessKeyId"@);
    assert(remove_name(u1, "OSSAccessKeyId"@).contains(p));
    assert(u2.contains(p)) by {
        let rest = remove_name(u1, "OSSAccessKeyId"@);
        let k = choose|k: int| 0 <= k < rest.len() && rest[k] == p;
        assert(u2[k] == p);
    }
    let u3 = upsert(u2, "Signature"@, sig_enc);
    assert("Expires"@ != "Signature"@);
    lemma_remove_name_keeps(u2, "Signature"@);
    assert(remove_name(u2, "Signature"@).contains(p));
    assert(u3.contains(p)) by {
        let rest = remove_name(u2, "Signature"@);
        let k = choose|k: int| 0 <= k < rest.len() && rest[k] == p;
        assert(u3[k] == p);
    }
    lemma_param_order_total();
    u3.lemma_sort_by_ensures(param_order());
    let q = u3.sort_by(param_order());
    vstd::seq_lib::to_multiset_contains(u3, p);
    vstd::seq_lib::to_multiset_contains(q, p);
}

} // verus!
