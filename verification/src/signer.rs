//! Signing a token with HMAC-SHA512.

use crate::runtime_error::RuntimeError;
use vstd::prelude::*;
use vstd::string::StringExecFns;
use vstd::utf8::encode_utf8;

verus! {

/// The signature segment of a token: the HMAC-SHA512 of the header segment,
/// a dot and the claims segment under `key`, written in the URL-safe base64
/// alphabet without padding.
pub uninterp spec fn hs512_signature(key: Seq<u8>, header: Seq<char>, claims: Seq<char>) -> Seq<char>;

/// The header segment of every token: `{"alg":"HS512"}` in the URL-safe
/// base64 alphabet.
pub open spec fn header_segment() -> Seq<char> {
    "eyJhbGciOiJIUzUxMiJ9"@
}

/// The three segments of a token with a dot between them.
pub open spec fn compact(header: Seq<char>, claims: Seq<char>, signature: Seq<char>) -> Seq<char> {
    header + seq!['.'] + claims + seq!['.'] + signature
}

/// The token with the claims segment `claims`, signed with `key`.
pub open spec fn signed_token(key: Seq<u8>, claims: Seq<char>) -> Seq<char> {
    compact(header_segment(), claims, hs512_signature(key, header_segment(), claims))
}

/// Calls `jwt::ToBase64::to_base64` on the `jwt::Header` that names the
/// algorithm of SHA-512 and nothing else, as `jwt::SignWithKey` makes it
/// for a key of `Hmac<Sha512>`. `to_base64` writes the header as the JSON
/// object `{"alg":"HS512"}` and encodes that in the URL-safe base64
/// alphabet without padding. It fails only where `serde_json::to_vec`
/// does, which by its documentation is where a `Serialize` impl chooses to
/// fail or a map has a key that is no string: the header's impl is derived
/// and it holds no map, so the result is `Ok`.
#[verifier::external_body]
fn encoded_header() -> (header: Result<String, jwt::Error>)
    ensures
        header matches Ok(_),
        header matches Ok(text) ==> text@ == header_segment(),
{
    let algorithm = <sha2::Sha512 as jwt::algorithm::rust_crypto::TypeLevelAlgorithmType>::algorithm_type();
    let header = jwt::Header { algorithm, ..Default::default() };
    jwt::ToBase64::to_base64(&header).map(|text| text.into_owned())
}

/// Calls `hmac::digest::KeyInit::new_from_slice` for `Hmac<Sha512>` and
/// `jwt::SigningAlgorithm::sign` on the key it makes. An HMAC takes a key
/// of any size, as the documentation of `hmac` says: `new_from_slice` pads
/// or hashes `key` to a block and returns `Ok`. `sign` computes the MAC of
/// `header`, a dot and `claims`, encodes it and returns `Ok`. Both are
/// functions of their arguments alone.
#[verifier::external_body]
fn mac_signature(key: &[u8], header: &str, claims: &str) -> (signature: Result<Result<String, jwt::Error>, hmac::digest::InvalidLength>)
    ensures
        signature matches Ok(Ok(_)),
        signature matches Ok(Ok(text)) ==> text@ == hs512_signature(key@, header@, claims@),
{
    <hmac::Hmac<sha2::Sha512> as hmac::digest::KeyInit>::new_from_slice(key).map(
        |mac| jwt::SigningAlgorithm::sign(&mac, header, claims),
    )
}

/// The token made of `header`, `claims` and the signature of both under
/// `key`. A segment that could not be encoded fails the signing, the header
/// first.
pub fn frame_token(
    key: &str,
    header: Result<String, jwt::Error>,
    claims: Result<String, jwt::Error>,
) -> (token: Result<String, RuntimeError>)
    ensures
        match (header, claims) {
            (Ok(header), Ok(claims)) => token matches Ok(text) && text@ == compact(
                header@,
                claims@,
                hs512_signature(encode_utf8(key@), header@, claims@),
            ),
            (Ok(_), Err(error)) => token == Err::<String, _>(RuntimeError::JwtError(error)),
            (Err(error), _) => token == Err::<String, _>(RuntimeError::JwtError(error)),
        },
{
    let header = match header {
        Ok(header) => header,
        Err(error) => return Err(RuntimeError::JwtError(error)),
    };
    let claims = match claims {
        Ok(claims) => claims,
        Err(error) => return Err(RuntimeError::JwtError(error)),
    };
    let signature = match mac_signature(key.as_bytes(), header.as_str(), claims.as_str()) {
        Ok(Ok(signature)) => signature,
        Ok(Err(error)) => return Err(RuntimeError::JwtError(error)),
        Err(error) => return Err(RuntimeError::InvalidKey(error)),
    };
    proof {
        reveal_strlit(".");
        assert("."@ =~= seq!['.']);
    }
    Ok(header.concat(".").concat(claims.as_str()).concat(".").concat(signature.as_str()))
}

/// The token with the claims segment `claims`, signed with `key`: every
/// key signs, the empty one too. Claims that could not be encoded fail the
/// signing.
pub fn sign_token(key: &str, claims: Result<String, jwt::Error>) -> (token: Result<String, RuntimeError>)
    ensures
        match claims {
            Ok(segment) => token matches Ok(text) && text@ == signed_token(
                encode_utf8(key@),
                segment@,
            ),
            Err(error) => token == Err::<String, _>(RuntimeError::JwtError(error)),
        },
{
    frame_token(key, encoded_header(), claims)
}

/// No dot stands in `segment`, as in every text in the URL-safe base64
/// alphabet.
pub open spec fn dot_free(segment: Seq<char>) -> bool {
    forall|i: int| 0 <= i < segment.len() ==> segment[i] != '.'
}

/// The segments of a token can be read back from it: two tokens that are
/// equal were made of the same segments, where their headers and claims hold
/// no dot.
pub proof fn lemma_compact_segments(
    header: Seq<char>,
    claims: Seq<char>,
    signature: Seq<char>,
    other_header: Seq<char>,
    other_claims: Seq<char>,
    other_signature: Seq<char>,
)
    requires
        dot_free(header),
        dot_free(claims),
        dot_free(other_header),
        dot_free(other_claims),
        compact(header, claims, signature) == compact(other_header, other_claims, other_signature),
    ensures
        header == other_header,
        claims == other_claims,
        signature == other_signature,
{
    let token = compact(header, claims, signature);
    let other = compact(other_header, other_claims, other_signature);
    let h = header.len() as int;
    let oh = other_header.len() as int;
    assert(h == oh) by {
        if h < oh {
            assert(token[h] == '.');
            assert(other[h] == other_header[h]);
        }
        if oh < h {
            assert(other[oh] == '.');
            assert(token[oh] == header[oh]);
        }
    }
    assert(header =~= other_header) by {
        assert forall|i: int| 0 <= i < h implies header[i] == other_header[i] by {
            assert(token[i] == header[i]);
            assert(other[i] == other_header[i]);
        }
    }
    let c = claims.len() as int;
    let oc = other_claims.len() as int;
    assert(c == oc) by {
        if c < oc {
            assert(token[h + 1 + c] == '.');
            assert(other[h + 1 + c] == other_claims[c]);
        }
        if oc < c {
            assert(other[h + 1 + oc] == '.');
            assert(token[h + 1 + oc] == claims[oc]);
        }
    }
    assert(claims =~= other_claims) by {
        assert forall|i: int| 0 <= i < c implies claims[i] == other_claims[i] by {
            assert(token[h + 1 + i] == claims[i]);
            assert(other[h + 1 + i] == other_claims[i]);
        }
    }
    assert(signature =~= other_signature) by {
        assert(token.len() == h + c + 2 + signature.len());
        assert(other.len() == h + c + 2 + other_signature.len());
        assert forall|i: int| 0 <= i < signature.len() implies signature[i]
            == other_signature[i] by {
            assert(token[h + c + 2 + i] == signature[i]);
            assert(other[h + c + 2 + i] == other_signature[i]);
        }
    }
}

} // verus!
