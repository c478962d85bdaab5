//! Signed bearer tokens in jwt's compact form: `header.claim.signature`. Issued tokens carry
//! the header `{"alg":"HS256"}` and the claim `{"id":N}`, each in base64url; the signature is
//! HMAC-SHA256 of `header.claim` under the signing secret, in base64url without padding.
//! A token is accepted when its header names HS256, its signature is right and its claim
//! holds an integer `id`, as jwt reads them.

use vstd::prelude::*;
use hmac::Mac;
use jwt::SigningAlgorithm;
use crate::claims::{claim_json, encode_claim};
use crate::error::AuthError;
use crate::text::same_chars;

verus! {

/// The identity a token asserts.
#[derive(Clone, Copy, Debug, PartialEq, Eq, Structural)]
pub struct TokenClaims {
    pub id: i32,
}

/// A character of the URL-safe base64 alphabet.
pub open spec fn url_safe_char(c: char) -> bool {
    ('A' <= c && c <= 'Z') || ('a' <= c && c <= 'z') || ('0' <= c && c <= '9') || c == '-' || c == '_'
}

pub open spec fn url_safe(s: Seq<char>) -> bool {
    forall|k: int| 0 <= k < s.len() ==> url_safe_char(#[trigger] s[k])
}

/// The base64url text, without padding, of `bytes`.
pub uninterp spec fn b64url(bytes: Seq<u8>) -> Seq<char>;

/// Relies on base64's `encode_config` with `URL_SAFE_NO_PAD`, the encoding jwt gives its
/// segments: the text is made of the URL-safe alphabet, without padding.
#[verifier::external_body]
fn encode_segment(bytes: &[u8]) -> (r: String)
    ensures
        r@ == b64url(bytes@),
        url_safe(r@),
{
    base64::encode_config(bytes, base64::URL_SAFE_NO_PAD)
}

/// Whether `header` is a header segment that jwt reads as naming HS256.
pub uninterp spec fn hs256_header(header: Seq<char>) -> bool;

/// Relies on jwt's `FromBase64` for `jwt::Header` (base64url, then serde_json) and the
/// header's `alg` field: whether the segment reads as a header naming HS256. The segment
/// `{"alg":"HS256"}` in base64url does.
#[verifier::external_body]
fn header_names_hs256(header: &str) -> (r: bool)
    ensures
        r == hs256_header(header@),
        header@ == header_text() ==> r,
{
    match <jwt::Header as jwt::FromBase64>::from_base64(header) {
        Ok(h) => match h.algorithm {
            jwt::AlgorithmType::Hs256 => true,
            _ => false,
        },
        Err(_) => false,
    }
}

/// The integer in field `field` of the JSON object that claim segment `claims` encodes.
pub uninterp spec fn claim_int(claims: Seq<char>, field: Seq<char>) -> Option<int>;

/// Relies on jwt's `FromBase64` into a `BTreeMap<String, serde_json::Value>` (base64url,
/// then serde_json) and on serde_json's `Value::as_i64`: the integer in the named field of
/// the claim object. The base64url text of `{"field":N}` gives `N`.
#[verifier::external_body]
fn read_claim_int(claims: &str, field: &str) -> (r: Option<i64>)
    ensures
        r matches Some(v) ==> claim_int(claims@, field@) == Some(v as int),
        r is None ==> claim_int(claims@, field@) is None,
        r is Some || forall|x: i32| !(claims@ == b64url(claim_json(x as int)) && field@ == id_field()),
        r matches Some(v) ==> forall|x: i32| claims@ == b64url(claim_json(x as int)) && field@ == id_field() ==> v == x,
{
    let object: std::collections::BTreeMap<String, serde_json::Value> =
        match jwt::FromBase64::from_base64(claims) {
            Ok(o) => o,
            Err(_) => return None,
        };
    object.get(field).and_then(|v| v.as_i64())
}

/// The signature that jwt's HS256 algorithm gives for `header` and `claims` under `key`.
pub uninterp spec fn hs256_signature(key: Seq<u8>, header: Seq<char>, claims: Seq<char>) -> Seq<char>;

/// Relies on jwt's `SigningAlgorithm::sign` for `Hmac<Sha256>`: the base64url text, without
/// padding, of the 32-byte HMAC-SHA256 of `header.claims` under the key. It always returns
/// `Ok`, and hmac's `new_from_slice` takes a key of any length.
#[verifier::external_body]
fn sign_segments(key: &[u8], header: &str, claims: &str) -> (r: Option<String>)
    ensures
        r is Some,
        r->0@ == hs256_signature(key@, header@, claims@),
        r->0@.len() == 43,
        url_safe(r->0@),
{
    let signer: hmac::Hmac<sha2::Sha256> = match hmac::Hmac::new_from_slice(key) {
        Ok(k) => k,
        Err(_) => return None,
    };
    signer.sign(header, claims).ok()
}

/// The header segment: `{"alg":"HS256"}` in base64url.
pub open spec fn header_text() -> Seq<char> {
    seq!['e', 'y', 'J', 'h', 'b', 'G', 'c', 'i', 'O', 'i', 'J', 'I', 'U', 'z', 'I', '1', 'N', 'i', 'J', '9']
}

fn header_segment() -> (r: &'static str)
    ensures
        r@ == header_text(),
{
    proof {
        reveal_strlit("eyJhbGciOiJIUzI1NiJ9");
    }
    let r = "eyJhbGciOiJIUzI1NiJ9";
    assert(r@ =~= header_text());
    r
}

/// The name of the claim field that holds the id.
pub open spec fn id_field() -> Seq<char> {
    seq!['i', 'd']
}

fn id_field_name() -> (r: &'static str)
    ensures
        r@ == id_field(),
{
    proof {
        reveal_strlit("id");
    }
    let r = "id";
    assert(r@ =~= id_field());
    r
}

/// The claim segment for `id`.
pub open spec fn claim_segment(id: int) -> Seq<char> {
    b64url(claim_json(id))
}

/// The token issued for `id` under `key`.
pub open spec fn token_text(key: Seq<u8>, id: int) -> Seq<char> {
    header_text() + seq!['.'] + claim_segment(id) + seq!['.'] + hs256_signature(key, header_text(), claim_segment(id))
}

/// The token with the signature segment of `b`'s token in place of `a`'s own.
pub open spec fn token_with_signature_of(key: Seq<u8>, a: int, b: int) -> Seq<char> {
    header_text() + seq!['.'] + claim_segment(a) + seq!['.'] + hs256_signature(key, header_text(), claim_segment(b))
}

pub open spec fn no_dot(s: Seq<char>) -> bool {
    forall|k: int| 0 <= k < s.len() ==> s[k] != '.'
}

/// `t` is `h.p.s`, three dot-free segments, where `h` names HS256, `s` is the signature of
/// `h` and `p` under `key`, and `p`'s `id` field is `id`, an `i32`.
pub open spec fn accepted_as(key: Seq<u8>, t: Seq<char>, h: Seq<char>, p: Seq<char>, s: Seq<char>, id: int) -> bool {
    &&& t == h + seq!['.'] + p + seq!['.'] + s
    &&& no_dot(h) && no_dot(p) && no_dot(s)
    &&& hs256_header(h)
    &&& s == hs256_signature(key, h, p)
    &&& claim_int(p, id_field()) == Some(id)
    &&& -2147483648 <= id <= 2147483647
}

/// Whether `t` is a valid token under `key` that asserts `id`.
pub open spec fn accepts(key: Seq<u8>, t: Seq<char>, id: int) -> bool {
    exists|h: Seq<char>, p: Seq<char>, s: Seq<char>| #[trigger] accepted_as(key, t, h, p, s, id)
}

/// A text `h.p.s` with dot-free segments splits only at its two dots.
proof fn lemma_split(t: Seq<char>, h: Seq<char>, p: Seq<char>, s: Seq<char>, i: int, j: int)
    requires
        t == h + seq!['.'] + p + seq!['.'] + s,
        no_dot(h),
        no_dot(p),
        0 <= i < j < t.len(),
        t[i] == '.',
        t[j] == '.',
        forall|k: int| 0 <= k < i ==> t[k] != '.',
        forall|k: int| i < k < j ==> t[k] != '.',
    ensures
        i == h.len(),
        j == h.len() + 1 + p.len(),
        h == t.subrange(0, i),
        p == t.subrange(i + 1, j),
        s == t.subrange(j + 1, t.len() as int),
{
    let a = h.len() as int;
    let b = (h.len() + 1 + p.len()) as int;
    assert(t[a] == '.');
    assert(t[b] == '.');
    if i < a {
        assert(t[i] == h[i]);
    }
    if j < b {
        assert(t[j] == p[j - a - 1]);
    }
    assert(h =~= t.subrange(0, i));
    assert(p =~= t.subrange(i + 1, j));
    assert(s =~= t.subrange(j + 1, t.len() as int));
}

/// Where the dots of `token_text(key, id)` lie, for a URL-safe claim segment.
proof fn lemma_token_dots(key: Seq<u8>, id: int)
    requires
        url_safe(claim_segment(id)),
    ensures
        ({
            let t = token_text(key, id);
            let h = header_text().len() as int;
            let c = claim_segment(id).len() as int;
            &&& t[h] == '.'
            &&& t[h + 1 + c] == '.'
            &&& forall|k: int| 0 <= k < h ==> t[k] != '.'
            &&& forall|k: int| h < k < h + 1 + c ==> t[k] != '.'
        }),
{
    let t = token_text(key, id);
    let h = header_text().len() as int;
    let c = claim_segment(id).len() as int;
    assert forall|k: int| h < k < h + 1 + c implies t[k] != '.' by {
        assert(t[k] == claim_segment(id)[k - h - 1]);
        assert(url_safe_char(claim_segment(id)[k - h - 1]));
    }
}

/// Replacing one character of an issued token's signature segment gives a text that is
/// accepted as no id under that secret. (`issue` ensures that the claim segments it writes
/// are URL-safe.)
pub proof fn lemma_signature_change_rejected(key: Seq<u8>, id: i32, k: int, ch: char)
    requires
        url_safe(claim_segment(id as int)),
        header_text().len() + 2 + claim_segment(id as int).len() <= k < token_text(key, id as int).len(),
        token_text(key, id as int)[k] != ch,
    ensures
        forall|x: int| !accepts(key, token_text(key, id as int).update(k, ch), x),
{
    let t = token_text(key, id as int);
    let m = t.update(k, ch);
    let i = header_text().len() as int;
    let j = (i + 1 + claim_segment(id as int).len()) as int;
    lemma_token_dots(key, id as int);
    assert forall|x: int| !accepts(key, m, x) by {
        if accepts(key, m, x) {
            let (h, p, s) = choose|h: Seq<char>, p: Seq<char>, s: Seq<char>| #[trigger] accepted_as(key, m, h, p, s, x);
            lemma_split(m, h, p, s, i, j);
            assert(h =~= header_text());
            assert(p =~= claim_segment(id as int));
            if ch == '.' {
                assert(s[k - j - 1] == '.');
            } else {
                assert(t.subrange(j + 1, t.len() as int) =~= hs256_signature(key, header_text(), claim_segment(id as int)));
                assert(s[k - j - 1] == ch);
            }
        }
    }
}

/// A text `h.p.s` with a dot-free header and claim is accepted only when `s` is the
/// signature of exactly that header and claim: changing the header or claim of a token leaves
/// it valid only if HMAC-SHA256 gives the changed pair the old signature.
pub proof fn lemma_changed_segments_need_matching_signature(key: Seq<u8>, h: Seq<char>, p: Seq<char>, s: Seq<char>)
    requires
        no_dot(h),
        no_dot(p),
    ensures
        (exists|x: int| accepts(key, h + seq!['.'] + p + seq!['.'] + s, x)) ==> s == hs256_signature(key, h, p),
{
    let t = h + seq!['.'] + p + seq!['.'] + s;
    if exists|x: int| accepts(key, t, x) {
        let x = choose|x: int| accepts(key, t, x);
        let (h2, p2, s2) = choose|a: Seq<char>, b: Seq<char>, c: Seq<char>| #[trigger] accepted_as(key, t, a, b, c, x);
        let i = h.len() as int;
        let j = (h.len() + 1 + p.len()) as int;
        assert(t[i] == '.');
        assert(t[j] == '.');
        assert forall|k: int| 0 <= k < i implies t[k] != '.' by {
            assert(t[k] == h[k]);
        }
        assert forall|k: int| i < k < j implies t[k] != '.' by {
            assert(t[k] == p[k - i - 1]);
        }
        lemma_split(t, h2, p2, s2, i, j);
        assert(h =~= t.subrange(0, i));
        assert(p =~= t.subrange(i + 1, j));
        assert(s =~= t.subrange(j + 1, t.len() as int));
    }
}

/// A token carrying `a`'s claim with the signature segment of `b`'s token is accepted only
/// when the signatures of the two claims coincide.
pub proof fn lemma_swapped_signature_needs_equal_signatures(key: Seq<u8>, a: i32, b: i32)
    requires
        url_safe(claim_segment(a as int)),
    ensures
        (exists|x: int| accepts(key, token_with_signature_of(key, a as int, b as int), x))
            ==> hs256_signature(key, header_text(), claim_segment(a as int))
                == hs256_signature(key, header_text(), claim_segment(b as int)),
{
    let t = token_with_signature_of(key, a as int, b as int);
    let i = header_text().len() as int;
    let j = (i + 1 + claim_segment(a as int).len()) as int;
    if exists|x: int| accepts(key, t, x) {
        let x = choose|x: int| accepts(key, t, x);
        let (h, p, s) = choose|h: Seq<char>, p: Seq<char>, s: Seq<char>| #[trigger] accepted_as(key, t, h, p, s, x);
        assert forall|k: int| i < k < j implies t[k] != '.' by {
            assert(t[k] == claim_segment(a as int)[k - i - 1]);
            assert(url_safe_char(claim_segment(a as int)[k - i - 1]));
        }
        lemma_split(t, h, p, s, i, j);
        assert(h =~= header_text());
        assert(p =~= claim_segment(a as int));
        assert(s =~= hs256_signature(key, header_text(), claim_segment(b as int)));
    }
}

/// A token issued under `old_key` is accepted under `new_key` only when the two secrets give
/// its claim the same signature.
pub proof fn lemma_rotated_secret_needs_equal_signatures(old_key: Seq<u8>, new_key: Seq<u8>, id: i32)
    requires
        url_safe(claim_segment(id as int)),
    ensures
        (exists|x: int| accepts(new_key, token_text(old_key, id as int), x))
            ==> hs256_signature(old_key, header_text(), claim_segment(id as int))
                == hs256_signature(new_key, header_text(), claim_segment(id as int)),
{
    let t = token_text(old_key, id as int);
    let i = header_text().len() as int;
    let j = (i + 1 + claim_segment(id as int).len()) as int;
    lemma_token_dots(old_key, id as int);
    if exists|x: int| accepts(new_key, t, x) {
        let x = choose|x: int| accepts(new_key, t, x);
        let (h, p, s) = choose|h: Seq<char>, p: Seq<char>, s: Seq<char>| #[trigger] accepted_as(new_key, t, h, p, s, x);
        lemma_split(t, h, p, s, i, j);
        assert(h =~= header_text());
        assert(p =~= claim_segment(id as int));
        assert(s =~= hs256_signature(old_key, header_text(), claim_segment(id as int)));
    }
}

/// Issues the token for `claims`: header `{"alg":"HS256"}`, claim `{"id":N}`, and the HS256
/// signature, 43 URL-safe characters. The token reads back as `claims.id`. Without a signing
/// secret there is nothing to sign with.
pub fn issue(key: &[u8], claims: TokenClaims) -> (r: Result<String, AuthError>)
    ensures
        key@.len() == 0 ==> r == Err::<String, AuthError>(AuthError::SigningUnavailable),
        key@.len() > 0 ==> (r matches Ok(t) && t@ == token_text(key@, claims.id as int)
            && url_safe(claim_segment(claims.id as int))
            && url_safe(hs256_signature(key@, header_text(), claim_segment(claims.id as int)))
            && hs256_signature(key@, header_text(), claim_segment(claims.id as int)).len() == 43
            && accepts(key@, t@, claims.id as int)),
{
    if key.len() == 0 {
        return Err(AuthError::SigningUnavailable);
    }
    let header = header_segment();
    let json = encode_claim(claims.id);
    let claim = encode_segment(json.as_slice());
    let signature = match sign_segments(key, header, claim.as_str()) {
        Some(s) => s,
        None => return Err(AuthError::SigningUnavailable),
    };
    // The token must read back as jwt reads it.
    let names_hs256 = header_names_hs256(header);
    let read_back = read_claim_int(claim.as_str(), id_field_name());
    if !names_hs256 || read_back != Some(claims.id as i64) {
        return Err(AuthError::SigningUnavailable);
    }
    let mut token = String::from_str(header);
    token.append(".");
    token.append(claim.as_str());
    token.append(".");
    token.append(signature.as_str());
    proof {
        reveal_strlit(".");
        assert(token@ =~= token_text(key@, claims.id as int));
        assert forall|k: int| 0 <= k < header_text().len() implies header_text()[k] != '.' by {
            assert(url_safe_char(header_text()[k]));
        }
        assert forall|k: int| 0 <= k < claim@.len() implies claim@[k] != '.' by {
            assert(url_safe_char(claim@[k]));
        }
        assert forall|k: int| 0 <= k < signature@.len() implies signature@[k] != '.' by {
            assert(url_safe_char(signature@[k]));
        }
        assert(accepted_as(key@, token@, header_text(), claim@, signature@, claims.id as int));
    }
    Ok(token)
}

/// The first `.` at or after `from`.
fn find_dot(s: &str, from: usize) -> (r: Option<usize>)
    requires
        from <= s@.len(),
    ensures
        match r {
            Some(p) => from <= p < s@.len() && s@[p as int] == '.'
                && forall|k: int| from <= k < p ==> s@[k] != '.',
            None => forall|k: int| from <= k < s@.len() ==> s@[k] != '.',
        },
{
    let n = s.unicode_len();
    let mut i = from;
    while i < n
        invariant
            n == s@.len(),
            from <= i <= n,
            forall|k: int| from <= k < i ==> s@[k] != '.',
        decreases n - i,
    {
        if s.get_char(i) == '.' {
            return Some(i);
        }
        i = i + 1;
    }
    None
}

/// Checks a bearer token under `key` and reads the identity it asserts, as jwt's
/// `verify_with_key` does: exactly three segments, a header naming HS256, a right signature
/// (recomputed over the header and claim, compared without an early exit), and a claim whose
/// `id` is an `i32`.
pub fn validate(key: &[u8], token: &str) -> (r: Result<TokenClaims, AuthError>)
    ensures
        match r {
            Ok(c) => key@.len() > 0 && accepts(key@, token@, c.id as int)
                && forall|id: int| accepts(key@, token@, id) ==> id == c.id,
            Err(e) => e == AuthError::InvalidToken
                && (key@.len() == 0 || forall|id: int| !accepts(key@, token@, id)),
        },
{
    if key.len() == 0 {
        return Err(AuthError::InvalidToken);
    }
    let n = token.unicode_len();
    let ghost t = token@;
    let p1 = match find_dot(token, 0) {
        Some(p) => p,
        None => {
            proof {
                assert forall|id: int| !accepts(key@, t, id) by {
                    if accepts(key@, t, id) {
                        let (h, p, s) = choose|h: Seq<char>, p: Seq<char>, s: Seq<char>| #[trigger] accepted_as(key@, t, h, p, s, id);
                        assert(t[h.len() as int] == '.');
                    }
                }
            }
            return Err(AuthError::InvalidToken);
        }
    };
    let p2 = match find_dot(token, p1 + 1) {
        Some(p) => p,
        None => {
            proof {
                assert forall|id: int| !accepts(key@, t, id) by {
                    if accepts(key@, t, id) {
                        let (h, p, s) = choose|h: Seq<char>, p: Seq<char>, s: Seq<char>| #[trigger] accepted_as(key@, t, h, p, s, id);
                        let a = h.len() as int;
                        assert(t[a] == '.');
                        if p1 < a {
                            assert(t[p1 as int] == h[p1 as int]);
                        }
                        if a < p1 {
                        }
                        assert(t[a + 1 + p.len()] == '.');
                    }
                }
            }
            return Err(AuthError::InvalidToken);
        }
    };
    let extra = find_dot(token, p2 + 1);
    proof {
        assert forall|id: int, h: Seq<char>, p: Seq<char>, s: Seq<char>| #[trigger] accepted_as(key@, t, h, p, s, id)
            implies h == t.subrange(0, p1 as int) && p == t.subrange(p1 + 1, p2 as int)
                && s == t.subrange(p2 + 1, n as int) && extra is None by {
            lemma_split(t, h, p, s, p1 as int, p2 as int);
            if let Some(q) = extra {
                assert(s[q - p2 - 1] == '.');
            }
        }
    }
    if extra.is_some() {
        return Err(AuthError::InvalidToken);
    }
    let header = token.substring_char(0, p1);
    let claim = token.substring_char(p1 + 1, p2);
    let signature = token.substring_char(p2 + 1, n);
    let expected = match sign_segments(key, header, claim) {
        Some(s) => s,
        None => return Err(AuthError::InvalidToken),
    };
    let signed = same_chars(expected.as_str(), signature);
    let names_hs256 = header_names_hs256(header);
    let id = read_claim_int(claim, id_field_name());
    proof {
        assert(t =~= header@ + seq!['.'] + claim@ + seq!['.'] + signature@);
        assert(no_dot(header@));
        assert(no_dot(claim@));
        assert(no_dot(signature@));
    }
    match id {
        Some(v) => {
            if signed && names_hs256 && -2147483648i64 <= v && v <= 2147483647i64 {
                proof {
                    assert(accepted_as(key@, t, header@, claim@, signature@, v as int));
                }
                Ok(TokenClaims { id: v as i32 })
            } else {
                Err(AuthError::InvalidToken)
            }
        }
        None => Err(AuthError::InvalidToken),
    }
}

} // verus!
