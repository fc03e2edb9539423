//! The request signer: a canonical string is built from the timestamp and
//! the payload fields, a keyed hash of its UTF-8 bytes is taken with the
//! client secret, and the hash is rendered in base64.
//!
//! The keyed hash and the base64 rendering are outside primitives; their
//! results are named (`hmac_sha256_of`, `base64_of`) and everything built on
//! them is verified against those names.

use vstd::prelude::*;
use vstd::utf8::encode_utf8;
use crate::json::{JVal, JsonMap, JsonValue, jtext, lemma_view_entries_index, write_json};
use crate::text::{dec_nat, u64_to_decimal, lemma_dec_nat_injective, lemma_dec_nat_len};

verus! {

// ---------------------------------------------------------------------------
// The canonical string
// ---------------------------------------------------------------------------

/// How a payload value is written in the canonical string: a string value
/// stands bare, every other value as its JSON text.
pub open spec fn plain_text(v: JVal) -> Seq<char> {
    match v {
        JVal::Str(s) => s,
        _ => jtext(v),
    }
}

/// The `,name:value` renderings of the payload fields, in field order.
pub open spec fn canonical_fields(entries: Seq<(Seq<char>, JVal)>) -> Seq<char>
    decreases entries,
{
    if entries.len() == 0 {
        Seq::empty()
    } else {
        canonical_fields(entries.drop_last()) + seq![','] + entries.last().0 + seq![':']
            + plain_text(entries.last().1)
    }
}

/// The exact character string over which the keyed hash is computed:
/// `timestamp:<T>` followed by `,name:value` for every payload field.
pub open spec fn canonical_string(entries: Seq<(Seq<char>, JVal)>, ts: nat) -> Seq<char> {
    seq!['t', 'i', 'm', 'e', 's', 't', 'a', 'm', 'p', ':'] + dec_nat(ts) + canonical_fields(
        entries,
    )
}

/// The signature for a payload and timestamp under a secret: the base64
/// rendering of the HMAC-SHA256 digest of the canonical string's UTF-8
/// bytes, keyed with the secret's UTF-8 bytes.
pub open spec fn signature_chars(secret: Seq<char>, entries: Seq<(Seq<char>, JVal)>, ts: nat) -> Seq<
    char,
> {
    base64_of(hmac_sha256_of(encode_utf8(secret), encode_utf8(canonical_string(entries, ts))))
}

/// Appends the canonical rendering of one payload value to `out`.
pub fn write_plain(out: &mut String, v: &JsonValue)
    ensures
        final(out)@ == old(out)@ + plain_text(v@),
{
    match v {
        JsonValue::Str(s) => {
            out.append(s.as_str());
        },
        _ => {
            write_json(out, v);
        },
    }
}

/// Builds the canonical string for a payload and timestamp.
#[verifier::loop_isolation(false)]
pub fn canonical_of(map: &JsonMap, ts: u64) -> (r: String)
    ensures
        r@ == canonical_string(map@, ts as nat),
{
    let mut out = String::from_str("timestamp:");
    proof {
        reveal_strlit("timestamp:");
        assert(out@ =~= seq!['t', 'i', 'm', 'e', 's', 't', 'a', 'm', 'p', ':']);
        reveal_strlit(",");
        reveal_strlit(":");
        lemma_view_entries_index(map.entries@);
    }
    let digits = u64_to_decimal(ts);
    out.append(digits.as_str());
    let ghost model = map@;
    let ghost prefix = seq!['t', 'i', 'm', 'e', 's', 't', 'a', 'm', 'p', ':'] + dec_nat(
        ts as nat,
    );
    let n = map.entries.len();
    let mut i: usize = 0;
    while i < n
        invariant
            i <= n,
            out@ == prefix + canonical_fields(model.take(i as int)),
        decreases n - i,
    {
        out.append(",");
        out.append(map.entries[i].0.as_str());
        out.append(":");
        write_plain(&mut out, &map.entries[i].1);
        proof {
            let t = model.take(i + 1 as int);
            assert(t.drop_last() =~= model.take(i as int));
            assert(t.last() == model[i as int]);
            assert(out@ =~= prefix + canonical_fields(model.take(i + 1 as int)));
        }
        i = i + 1;
    }
    proof {
        assert(model.take(n as int) =~= model);
    }
    out
}

// ---------------------------------------------------------------------------
// The outside primitives
// ---------------------------------------------------------------------------

/// The HMAC-SHA256 digest of `msg` keyed with `key`; a function of the two
/// byte strings alone.
pub uninterp spec fn hmac_sha256_of(key: Seq<u8>, msg: Seq<u8>) -> Seq<u8>;

/// The standard base64 rendering of a byte string; a function of the bytes
/// alone.
pub uninterp spec fn base64_of(bytes: Seq<u8>) -> Seq<char>;

/// What standard base64 decoding yields on a character string: the bytes,
/// or nothing when the string is not valid base64.
pub uninterp spec fn base64_decode_of(s: Seq<char>) -> Option<Seq<u8>>;

/// Relies on hmac_sha256::HMAC::mac: the HMAC-SHA256 digest of `msg` keyed
/// with `key`, computed from the two arguments alone.
#[verifier::external_body]
fn hmac_sha256_mac(key: &Vec<u8>, msg: &Vec<u8>) -> (r: Vec<u8>)
    ensures
        r@ == hmac_sha256_of(key@, msg@),
{
    hmac_sha256::HMAC::mac(msg.as_slice(), key.as_slice()).to_vec()
}

/// Relies on base64::encode: the standard base64 rendering of the bytes,
/// which base64::decode maps back to them.
#[verifier::external_body]
fn base64_encode(bytes: &Vec<u8>) -> (r: String)
    ensures
        r@ == base64_of(bytes@),
        base64_decode_of(r@) == Some(bytes@),
{
    base64::encode(bytes.as_slice())
}

/// Relies on base64::decode: yields the decoded bytes exactly when the
/// input is valid standard base64.
#[verifier::external_body]
fn base64_decode(s: &str) -> (r: Option<Vec<u8>>)
    ensures
        match r {
            Some(d) => base64_decode_of(s@) == Some(d@),
            None => base64_decode_of(s@) is None,
        },
{
    match base64::decode(s) {
        Ok(d) => Some(d),
        Err(_) => None,
    }
}

/// Base64-encodes a byte string, as binary file contents are encoded for
/// JSON transport.
pub fn encode_file_data(bytes: &Vec<u8>) -> (r: String)
    ensures
        r@ == base64_of(bytes@),
        base64_decode_of(r@) == Some(bytes@),
{
    base64_encode(bytes)
}

/// Law: base64-encoding a byte string and decoding the result reproduces
/// the bytes exactly.
pub fn base64_round_trip(bytes: &Vec<u8>) -> (r: Vec<u8>)
    ensures
        r@ == bytes@,
{
    let encoded = base64_encode(bytes);
    match base64_decode(encoded.as_str()) {
        Some(d) => d,
        None => {
            proof {
                assert(false);
            }
            Vec::new()
        },
    }
}

// ---------------------------------------------------------------------------
// Signing
// ---------------------------------------------------------------------------

/// Computes the signature for a payload and timestamp under a secret.
pub fn sign(secret: &str, map: &JsonMap, ts: u64) -> (r: String)
    ensures
        r@ == signature_chars(secret@, map@, ts as nat),
{
    let canonical = canonical_of(map, ts);
    let msg = canonical.as_str().as_bytes_vec();
    let key = secret.as_bytes_vec();
    let mac = hmac_sha256_mac(&key, &msg);
    base64_encode(&mac)
}

/// Law: the signature is a pure function of the secret, the payload fields
/// and the timestamp: two signatures over identical inputs are identical.
pub proof fn lemma_sign_deterministic(
    secret: Seq<char>,
    entries: Seq<(Seq<char>, JVal)>,
    ts: nat,
    r1: Seq<char>,
    r2: Seq<char>,
)
    requires
        r1 == signature_chars(secret, entries, ts),
        r2 == signature_chars(secret, entries, ts),
    ensures
        r1 == r2,
{
}

/// Law: for distinct timestamps over the same payload, the canonical
/// strings differ, and so do the byte strings handed to the keyed hash.
pub proof fn lemma_distinct_timestamps_distinct_mac_input(
    entries: Seq<(Seq<char>, JVal)>,
    t1: nat,
    t2: nat,
)
    requires
        t1 != t2,
    ensures
        canonical_string(entries, t1) != canonical_string(entries, t2),
        encode_utf8(canonical_string(entries, t1)) != encode_utf8(canonical_string(entries, t2)),
{
    let p = seq!['t', 'i', 'm', 'e', 's', 't', 'a', 'm', 'p', ':'];
    let f = canonical_fields(entries);
    let d1 = dec_nat(t1);
    let d2 = dec_nat(t2);
    let c1 = canonical_string(entries, t1);
    let c2 = canonical_string(entries, t2);
    lemma_dec_nat_len(t1);
    lemma_dec_nat_len(t2);
    if c1 == c2 {
        assert(c1.len() == 10 + d1.len() + f.len());
        assert(c2.len() == 10 + d2.len() + f.len());
        assert(d1.len() == d2.len());
        assert(c1.subrange(10, 10 + d1.len() as int) =~= d1);
        assert(c2.subrange(10, 10 + d2.len() as int) =~= d2);
        assert(d1 == d2);
        lemma_dec_nat_injective(t1, t2);
        assert(false);
    }
    if encode_utf8(c1) == encode_utf8(c2) {
        vstd::utf8::encode_utf8_decode_utf8(c1);
        vstd::utf8::encode_utf8_decode_utf8(c2);
        assert(false);
    }
}

} // verus!
