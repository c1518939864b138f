//! The inverter-cloud client's data model and its request signature: the
//! API signs each request with an MD5 digest over path, key and timestamp.

use vstd::prelude::*;
use md5::Digest;

verus! {

broadcast use vstd::seq_lib::group_seq_properties;

/// Error of the inverter-cloud client.
#[derive(Debug)]
pub enum FoxError {
    /// The cloud service answered with a failure.
    FoxCloud(String),
    /// An answer could not be read.
    Document(String),
    /// Anything else.
    Other(String),
}

impl From<String> for FoxError {
    fn from(e: String) -> (r: Self) {
        FoxError::Other(e)
    }
}

impl vstd::std_specs::convert::FromSpecImpl<String> for FoxError {
    open spec fn obeys_from_spec() -> bool {
        true
    }

    open spec fn from_spec(e: String) -> Self {
        FoxError::Other(e)
    }
}

/// Credentials of the inverter-cloud account.
#[derive(Clone)]
pub struct FoxESS {
    /// The account's API key.
    pub api_key: String,
    /// Serial number of the inverter.
    pub inverter_sn: String,
}

/// Body of a device-history request.
#[derive(Clone)]
pub struct RequestDeviceHistoryData {
    /// Serial number of the inverter.
    pub sn: String,
    /// The variables to fetch.
    pub variables: Vec<String>,
    /// Start of the range, Unix epoch milliseconds.
    pub begin: i64,
    /// End of the range, Unix epoch milliseconds.
    pub end: i64,
}

/// The MD5 digest of a byte sequence.
pub uninterp spec fn md5_digest_of(data: Seq<u8>) -> Seq<u8>;

/// Relies on `Md5` of the md-5 crate: the digest depends on the input bytes
/// alone and is sixteen bytes long.
#[verifier::external_body]
fn md5_digest(data: &Vec<u8>) -> (r: Vec<u8>)
    ensures
        r@ == md5_digest_of(data@),
        r@.len() == 16,
{
    let mut hasher = md5::Md5::new();
    hasher.update(data.as_slice());
    hasher.finalize().to_vec()
}

/// The lower-case hexadecimal digit of a value below sixteen.
pub open spec fn spec_hex_nibble(n: int) -> u8 {
    if n < 10 {
        (48 + n) as u8
    } else {
        (87 + n) as u8
    }
}

/// A byte sequence written as lower-case hexadecimal text: two digits per
/// byte, high nibble first.
pub open spec fn spec_hex_bytes(s: Seq<u8>) -> Seq<u8>
    decreases s.len(),
{
    if s.len() == 0 {
        Seq::empty()
    } else {
        spec_hex_bytes(s.drop_last()).push(spec_hex_nibble(s.last() as int / 16)).push(
            spec_hex_nibble(s.last() as int % 16),
        )
    }
}

/// The decimal digits of a nonnegative number, most significant first.
pub open spec fn spec_dec_digits(n: int) -> Seq<u8>
    decreases n,
{
    if n < 10 {
        seq![(48 + n) as u8]
    } else {
        spec_dec_digits(n / 10).push((48 + n % 10) as u8)
    }
}

/// The signed text of a request: path, API key and decimal timestamp,
/// separated by the four characters backslash, `r`, backslash, `n`.
pub open spec fn spec_signature_text(path: Seq<u8>, key: Seq<u8>, ts: int) -> Seq<u8> {
    path + seq![92u8, 114u8, 92u8, 110u8] + key + seq![92u8, 114u8, 92u8, 110u8]
        + spec_dec_digits(ts)
}

/// Appends all bytes of `src`.
fn push_all(out: &mut Vec<u8>, src: &Vec<u8>)
    ensures
        final(out)@ == old(out)@ + src@,
{
    let mut i: usize = 0;
    while i < src.len()
        invariant
            i <= src.len(),
            out@ == old(out)@ + src@.take(i as int),
        decreases src.len() - i,
    {
        let b: u8 = src[i];
        out.push(b);
        proof {
            assert(src@.take(i as int + 1) =~= src@.take(i as int).push(b));
            assert(out@ =~= old(out)@ + src@.take(i as int + 1));
        }
        i = i + 1;
    }
    proof {
        assert(src@.take(src@.len() as int) =~= src@);
    }
}

/// The decimal digits of a nonnegative number, as bytes.
fn dec_bytes(n: u64) -> (r: Vec<u8>)
    ensures
        r@ == spec_dec_digits(n as int),
    decreases n,
{
    if n < 10 {
        let mut v: Vec<u8> = Vec::new();
        v.push(48 + (n as u8));
        proof {
            assert(v@ =~= spec_dec_digits(n as int));
        }
        v
    } else {
        let mut v: Vec<u8> = dec_bytes(n / 10);
        v.push(48 + ((n % 10) as u8));
        v
    }
}

/// Hexadecimal text of a byte sequence, lower case.
fn hex_bytes(data: &Vec<u8>) -> (r: Vec<u8>)
    ensures
        r@ == spec_hex_bytes(data@),
        r@.len() == 2 * data@.len(),
{
    let mut out: Vec<u8> = Vec::new();
    let mut i: usize = 0;
    while i < data.len()
        invariant
            i <= data.len(),
            out@ == spec_hex_bytes(data@.take(i as int)),
            out@.len() == 2 * i,
        decreases data.len() - i,
    {
        let b: u8 = data[i];
        let hi: u8 = b / 16;
        let lo: u8 = b % 16;
        let hc: u8 = if hi < 10 {
            48 + hi
        } else {
            87 + hi
        };
        let lc: u8 = if lo < 10 {
            48 + lo
        } else {
            87 + lo
        };
        out.push(hc);
        out.push(lc);
        proof {
            let t = data@.take(i as int + 1);
            assert(t.drop_last() =~= data@.take(i as int));
            assert(t.last() == b);
            assert(out@ =~= spec_hex_bytes(t));
        }
        i = i + 1;
    }
    proof {
        assert(data@.take(data@.len() as int) =~= data@);
    }
    out
}

/// The request signature of the inverter-cloud API: the lower-case
/// hexadecimal MD5 digest of path, API key and timestamp joined by the
/// literal separator.
pub fn fox_signature(path: &Vec<u8>, api_key: &Vec<u8>, timestamp: u64) -> (r: Vec<u8>)
    ensures
        r@ == spec_hex_bytes(
            md5_digest_of(spec_signature_text(path@, api_key@, timestamp as int)),
        ),
        r@.len() == 32,
{
    let mut text: Vec<u8> = Vec::new();
    push_all(&mut text, path);
    let mut sep: Vec<u8> = Vec::new();
    sep.push(92);
    sep.push(114);
    sep.push(92);
    sep.push(110);
    proof {
        assert(sep@ =~= seq![92u8, 114u8, 92u8, 110u8]);
    }
    push_all(&mut text, &sep);
    push_all(&mut text, api_key);
    push_all(&mut text, &sep);
    let ts: Vec<u8> = dec_bytes(timestamp);
    push_all(&mut text, &ts);
    proof {
        assert(text@ =~= spec_signature_text(path@, api_key@, timestamp as int));
    }
    let digest: Vec<u8> = md5_digest(&text);
    hex_bytes(&digest)
}

} // verus!
