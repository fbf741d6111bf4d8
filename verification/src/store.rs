//! Where the lists and the downloads of a market are kept: the name of the
//! snapshot file, the address of the mirror, the name of a cached download.

use crate::bing::market::Market;
use sha2::{Digest, Sha256};
use vstd::prelude::*;
use vstd::string::StringExecFns;

verus! {

/// The directory of the mirror, with a slash at its end.
pub const MIRROR_URL: &'static str = "https://raw.githubusercontent.com/fhluo/xpic/main/data/";

/// The SHA-256 digest of `data`, as the `sha2` crate computes it.
pub uninterp spec fn sha256(data: Seq<u8>) -> Seq<u8>;

/// Computes the SHA-256 digest of `data` with `Sha256::digest` of the `sha2`
/// crate; the digest has 32 bytes.
#[verifier::external_body]
fn digest(data: &[u8]) -> (r: Vec<u8>)
    ensures
        r@ == sha256(data@),
        r@.len() == 32,
{
    Sha256::digest(data).to_vec()
}

/// The hexadecimal digit of a value below sixteen, in lower case.
pub open spec fn hex_digit(n: u8) -> char {
    if n < 10 {
        (('0' as u32) + n) as char
    } else {
        (('a' as u32) + n - 10) as char
    }
}

/// The bytes written in hexadecimal: two digits for each byte, the high
/// half first, in lower case.
pub open spec fn hex(data: Seq<u8>) -> Seq<char>
    decreases data.len(),
{
    if data.len() == 0 {
        Seq::empty()
    } else {
        hex(data.drop_last()) + seq![hex_digit(data.last() / 16), hex_digit(data.last() % 16)]
    }
}

/// Writes `data` in hexadecimal with `hex::encode`: two lower-case digits
/// for each byte, the high half first.
#[verifier::external_body]
fn encode_hex(data: &[u8]) -> (r: String)
    ensures
        r@ == hex(data@),
{
    hex::encode(data)
}

/// The name under which the download of `url` is kept: the SHA-256 digest
/// of the address, in hexadecimal.
pub open spec fn spec_cache_key(url: Seq<char>) -> Seq<char> {
    hex(sha256(vstd::utf8::encode_utf8(url)))
}

/// The name of the snapshot file of a market: its code and `.json`.
pub open spec fn spec_snapshot_name(market: Market) -> Seq<char> {
    market.spec_code() + ".json"@
}

/// The address of the list of a market on the mirror.
pub open spec fn spec_mirror_url(market: Market) -> Seq<char> {
    MIRROR_URL@ + spec_snapshot_name(market)
}

/// The name under which the download of `url` is kept: 64 hexadecimal
/// digits. The same address always gives the same name, so that the cache
/// can be asked before the network.
pub fn cache_key(url: &str) -> (r: String)
    ensures
        r@ == spec_cache_key(url@),
        r@.len() == 64,
        forall|i: int| 0 <= i < 64 ==> ('0' <= #[trigger] r@[i] <= '9') || ('a' <= r@[i] <= 'f'),
{
    let digest = digest(url.as_bytes());
    proof {
        lemma_hex(digest@);
    }
    encode_hex(digest.as_slice())
}

/// The name of the snapshot file of a market: its code and `.json`.
pub fn snapshot_name(market: Market) -> (r: String)
    ensures
        r@ == spec_snapshot_name(market),
{
    let mut name = market.code().to_owned();
    name.append(".json");
    name
}

/// The address of the list of a market on the mirror.
pub fn mirror_url(market: Market) -> (r: String)
    ensures
        r@ == spec_mirror_url(market),
{
    let mut url = MIRROR_URL.to_owned();
    url.append(market.code());
    url.append(".json");
    assert(url@ =~= spec_mirror_url(market));
    url
}

/// A hexadecimal text has two digits for each byte, and only digits and
/// the letters `a` to `f`.
pub proof fn lemma_hex(data: Seq<u8>)
    ensures
        hex(data).len() == 2 * data.len(),
        forall|i: int|
            0 <= i < hex(data).len() ==> ('0' <= #[trigger] hex(data)[i] <= '9') || ('a' <= hex(
                data,
            )[i] <= 'f'),
    decreases data.len(),
{
    if data.len() > 0 {
        let head = hex(data.drop_last());
        lemma_hex(data.drop_last());
        let h = hex(data);
        assert forall|i: int| 0 <= i < h.len() implies ('0' <= #[trigger] h[i] <= '9') || ('a'
            <= h[i] <= 'f') by {
            if i < head.len() {
                assert(h[i] == head[i]);
            }
        }
    }
}

} // verus!
