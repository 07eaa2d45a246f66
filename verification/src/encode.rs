//! Encodings at the crate's boundary: percent-encoding, base64, the keyed
//! digest and HTTP-date formatting, each behind a small trusted wrapper,
//! plus the verified per-segment encoding of object keys.

use vstd::prelude::*;
use vstd::string::StrSliceExecFns;
use vstd::string::StringExecFns;
use vstd::utf8::encode_utf8;

use crate::params::{pair_view, pairs_view};
use crate::text::dec_digit;

verus! {

/// The bytes that percent-encoding leaves as they are: ASCII letters,
/// digits, and `-`, `.`, `_`, `~`.
pub open spec fn is_url_unreserved(b: u8) -> bool {
    (0x41 <= b && b <= 0x5A)  // 'A'..='Z'
     || (0x61 <= b && b <= 0x7A)  // 'a'..='z'
     || (0x30 <= b && b <= 0x39)  // '0'..='9'
     || b == 0x2D  // '-'
     || b == 0x2E  // '.'
     || b == 0x5F  // '_'
     || b == 0x7E  // '~'

}

/// The character for one uppercase hexadecimal digit.
pub open spec fn hex_upper(d: int) -> char {
    if d < 10 {
        dec_digit(d)
    } else if d == 10 {
        'A'
    } else if d == 11 {
        'B'
    } else if d == 12 {
        'C'
    } else if d == 13 {
        'D'
    } else if d == 14 {
        'E'
    } else {
        'F'
    }
}

/// One byte of percent-encoded output: the byte itself when unreserved,
/// else `%` and two uppercase hex digits.
pub open spec fn percent_encode_byte(b: u8) -> Seq<char> {
    if is_url_unreserved(b) {
        seq![b as char]
    } else {
        seq!['%', hex_upper(b as int / 16), hex_upper(b as int % 16)]
    }
}

pub open spec fn percent_encode_bytes(bs: Seq<u8>) -> Seq<char>
    decreases bs.len(),
{
    if bs.len() == 0 {
        Seq::empty()
    } else {
        percent_encode_bytes(bs.drop_last()) + percent_encode_byte(bs.last())
    }
}

/// Percent-encoding of a string: every UTF-8 byte outside the unreserved
/// set becomes `%` plus two uppercase hex digits.
pub open spec fn percent_encoded(s: Seq<char>) -> Seq<char> {
    percent_encode_bytes(encode_utf8(s))
}

/// Relies on urlencoding::encode: percent-encodes every UTF-8 byte except
/// ASCII alphanumerics and `-`, `.`, `_`, `~`, using uppercase hex digits.
#[verifier::external_body]
pub fn url_encode(s: &str) -> (r: String)
    ensures
        r@ == percent_encoded(s@),
{
    urlencoding::encode(s).into_owned()
}

/// What the keyed HMAC-SHA-1 digest of a key and a message is.
pub uninterp spec fn hmac_sha1_of(key: Seq<u8>, msg: Seq<u8>) -> Seq<u8>;

/// Relies on hmac_sha1::hmac_sha1: the 20-byte HMAC-SHA-1 tag of the
/// message under the key, a function of the two arguments alone.
#[verifier::external_body]
pub fn hmac_sha1_tag(key: &str, msg: &str) -> (r: Vec<u8>)
    ensures
        r@ == hmac_sha1_of(encode_utf8(key@), encode_utf8(msg@)),
        r@.len() == 20,
{
    hmac_sha1::hmac_sha1(key.as_bytes(), msg.as_bytes()).to_vec()
}

/// What the base64 rendering of a byte string is.
pub uninterp spec fn base64_of(bytes: Seq<u8>) -> Seq<char>;

/// Relies on base64's standard engine with padding: the rendering depends
/// on the input bytes alone, four output characters per three input bytes.
#[verifier::external_body]
pub fn base64_encode(bytes: &Vec<u8>) -> (r: String)
    ensures
        r@ == base64_of(bytes@),
        r@.len() == ((bytes@.len() + 2) / 3) * 4,
{
    base64::Engine::encode(&base64::engine::general_purpose::STANDARD, bytes.as_slice())
}

/// What the fixed `%a, %d %b %Y %T GMT` rendering of a Unix timestamp is.
pub uninterp spec fn http_date_of(ts: int) -> Seq<char>;

/// Relies on chrono's `DateTime::<Utc>::from_timestamp` and its
/// `format`: rendering a timestamp with a fixed, locale-independent
/// format string depends on the timestamp alone. Timestamps through
/// year 9999 are in range for `from_timestamp`, so it returns `Some`.
#[verifier::external_body]
pub fn http_date(ts: u64) -> (r: String)
    requires
        ts <= 253_402_300_799,
    ensures
        r@ == http_date_of(ts as int),
{
    let dt = chrono::DateTime::<chrono::Utc>::from_timestamp(ts as i64, 0).unwrap();
    dt.format("%a, %d %b %Y %T GMT").to_string()
}

/// The view of a list of owned strings.
pub open spec fn strings_view(v: Seq<String>) -> Seq<Seq<char>> {
    v.map_values(|t: String| t@)
}

/// The `/`-separated segments of a string; separators themselves dropped,
/// empty segments kept, so the result is never empty.
pub open spec fn split_slash(s: Seq<char>) -> Seq<Seq<char>>
    decreases s.len(),
{
    if s.len() == 0 {
        seq![Seq::<char>::empty()]
    } else {
        let rest = split_slash(s.drop_last());
        if s.last() == '/' {
            rest.push(Seq::empty())
        } else {
            rest.update(rest.len() - 1, rest.last().push(s.last()))
        }
    }
}

pub proof fn lemma_split_slash_nonempty(s: Seq<char>)
    ensures
        split_slash(s).len() >= 1,
    decreases s.len(),
{
    if s.len() > 0 {
        lemma_split_slash_nonempty(s.drop_last());
    }
}

/// Segments joined back with `/` between them.
pub open spec fn join_slash(segs: Seq<Seq<char>>) -> Seq<char>
    decreases segs.len(),
{
    if segs.len() == 0 {
        Seq::empty()
    } else if segs.len() == 1 {
        segs[0]
    } else {
        join_slash(segs.drop_last()) + seq!['/'] + segs.last()
    }
}

/// Every segment in a list percent-encoded.
pub open spec fn segments_encoded(segs: Seq<Seq<char>>) -> Seq<Seq<char>> {
    segs.map_values(|seg: Seq<char>| percent_encoded(seg))
}

/// Each `/`-separated segment percent-encoded, the separators kept.
pub open spec fn encoded_key(s: Seq<char>) -> Seq<char> {
    join_slash(segments_encoded(split_slash(s)))
}

/// Splits a string at every `/`.
pub fn split_on_slash(s: &str) -> (r: Vec<String>)
    ensures
        strings_view(r@) == split_slash(s@),
{
    let len = s.unicode_len();
    let mut segs: Vec<String> = Vec::new();
    let mut start: usize = 0;
    let mut i: usize = 0;
    proof {
        assert(split_slash(s@.take(0)) =~= seq![Seq::<char>::empty()]);
        assert(s@.take(0) =~= Seq::<char>::empty());
    }
    while i < len
        invariant
            len == s@.len(),
            start <= i <= len,
            split_slash(s@.take(i as int)).len() >= 1,
            strings_view(segs@) == split_slash(s@.take(i as int)).drop_last(),
            split_slash(s@.take(i as int)).last() == s@.subrange(start as int, i as int),
        decreases len - i,
    {
        let ghost sp = split_slash(s@.take(i as int));
        proof {
            assert(s@.take(i + 1).drop_last() =~= s@.take(i as int));
            assert(s@.take(i + 1).last() == s@[i as int]);
            lemma_split_slash_nonempty(s@.take(i + 1));
        }
        let c = s.get_char(i);
        if c == '/' {
            let seg = s.substring_char(start, i);
            segs.push(seg.to_owned());
            proof {
                let sp1 = split_slash(s@.take(i + 1));
                assert(sp1 == sp.push(Seq::<char>::empty()));
                assert(sp1.drop_last() =~= sp);
                assert(strings_view(segs@) =~= sp.drop_last().push(sp.last()));
                assert(sp.drop_last().push(sp.last()) =~= sp);
                assert(sp1.last() =~= s@.subrange(i + 1, i + 1));
            }
            start = i + 1;
        } else {
            proof {
                let sp1 = split_slash(s@.take(i + 1));
                assert(sp1 == sp.update(sp.len() - 1, sp.last().push(s@[i as int])));
                assert(sp1.drop_last() =~= sp.drop_last());
                assert(sp1.last() == sp.last().push(s@[i as int]));
                assert(sp.last().push(s@[i as int]) =~= s@.subrange(start as int, i + 1));
            }
        }
        i = i + 1;
    }
    let last = s.substring_char(start, len);
    segs.push(last.to_owned());
    proof {
        assert(s@.take(len as int) =~= s@);
        let sp = split_slash(s@);
        assert(strings_view(segs@) =~= sp.drop_last().push(sp.last()));
        assert(sp.drop_last().push(sp.last()) =~= sp);
    }
    segs
}

/// Percent-encodes each string in a list.
pub fn encode_segments(segs: &Vec<String>) -> (r: Vec<String>)
    ensures
        strings_view(r@) == segments_encoded(strings_view(segs@)),
{
    let mut out: Vec<String> = Vec::new();
    let mut i: usize = 0;
    while i < segs.len()
        invariant
            i <= segs@.len(),
            strings_view(out@) == segments_encoded(strings_view(segs@.take(i as int))),
        decreases segs@.len() - i,
    {
        let ghost prev = strings_view(out@);
        let enc = url_encode(segs[i].as_str());
        let ghost ev = enc@;
        out.push(enc);
        proof {
            assert(strings_view(out@) =~= prev.push(ev));
            assert(strings_view(segs@.take(i + 1)) =~= strings_view(segs@.take(i as int)).push(
                segs@[i as int]@,
            ));
            assert(segments_encoded(strings_view(segs@.take(i as int)).push(segs@[i as int]@))
                =~= segments_encoded(strings_view(segs@.take(i as int))).push(ev));
        }
        i = i + 1;
    }
    proof {
        assert(segs@.take(segs@.len() as int) =~= segs@);
    }
    out
}

/// Joins strings with `/` between them.
pub fn join_with_slash(segs: &Vec<String>) -> (r: String)
    ensures
        r@ == join_slash(strings_view(segs@)),
{
    let mut out = String::new();
    let mut i: usize = 0;
    while i < segs.len()
        invariant
            i <= segs@.len(),
            out@ == join_slash(strings_view(segs@.take(i as int))),
        decreases segs@.len() - i,
    {
        if i > 0 {
            out.append("/");
        }
        out.append(segs[i].as_str());
        proof {
            reveal_strlit("/");
            let sv1 = strings_view(segs@.take(i + 1));
            assert(sv1.drop_last() =~= strings_view(segs@.take(i as int)));
            assert(sv1.last() == segs@[i as int]@);
            if i > 0 {
                assert(out@ =~= join_slash(sv1.drop_last()) + seq!['/'] + sv1.last());
            } else {
                assert(sv1.len() == 1);
                assert(out@ =~= sv1[0]);
            }
        }
        i = i + 1;
    }
    proof {
        assert(segs@.take(segs@.len() as int) =~= segs@);
    }
    out
}

/// Percent-encodes each `/`-separated segment of an object key, keeping
/// the separators, so the path hierarchy survives encoding.
pub fn encode_key(key: &str) -> (r: String)
    ensures
        r@ == encoded_key(key@),
{
    let segs = split_on_slash(key);
    let encoded = encode_segments(&segs);
    join_with_slash(&encoded)
}

/// Pair values percent-encoded, the names kept.
pub open spec fn encode_pair_values(
    ps: Seq<(Seq<char>, Seq<char>)>,
) -> Seq<(Seq<char>, Seq<char>)> {
    ps.map_values(|p: (Seq<char>, Seq<char>)| (p.0, percent_encoded(p.1)))
}

/// Percent-encodes the value of every pair, keeping the names.
pub fn encode_param_values(v: &Vec<(String, String)>) -> (r: Vec<(String, String)>)
    ensures
        pairs_view(r@) == encode_pair_values(pairs_view(v@)),
{
    let mut out: Vec<(String, String)> = Vec::new();
    let mut i: usize = 0;
    while i < v.len()
        invariant
            i <= v@.len(),
            pairs_view(out@) == encode_pair_values(pairs_view(v@.take(i as int))),
        decreases v@.len() - i,
    {
        let ghost prev = pairs_view(out@);
        let p = (v[i].0.clone(), url_encode(v[i].1.as_str()));
        let ghost pv = pair_view(p);
        out.push(p);
        proof {
            assert(pairs_view(out@) =~= prev.push(pv));
            assert(pairs_view(v@.take(i + 1)) =~= pairs_view(v@.take(i as int)).push(
                pair_view(v@[i as int]),
            ));
            assert(encode_pair_values(pairs_view(v@.take(i as int)).push(pair_view(v@[i as int])))
                =~= encode_pair_values(pairs_view(v@.take(i as int))).push(pv));
        }
        i = i + 1;
    }
    proof {
        assert(v@.take(v@.len() as int) =~= v@);
    }
    out
}

} // verus!
