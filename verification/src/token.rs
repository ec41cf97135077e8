use vstd::prelude::*;
use crate::errors::ForgeError;
use base64::Engine;

verus! {

use vstd::string::StrSliceExecFns;
use vstd::utf8::encode_utf8;

/// The byte a token is split on: `'.'`.
pub const SEGMENT_SEPARATOR: u8 = 46;

/// What base64 decoding (standard alphabet, no padding) yields on the given
/// input: `None` when the input is not valid base64 text.
pub uninterp spec fn base64_nopad_decode(input: Seq<u8>) -> Option<Seq<u8>>;

/// Relies on base64's `Engine::decode` with the `STANDARD_NO_PAD`
/// general-purpose engine: the result is a pure function of the input bytes.
#[verifier::external_body]
fn b64_decode(input: &Vec<u8>) -> (r: Option<Vec<u8>>)
    ensures
        r is Some <==> base64_nopad_decode(input@) is Some,
        r matches Some(v) ==> Some(v@) == base64_nopad_decode(input@),
{
    base64::engine::general_purpose::STANDARD_NO_PAD.decode(input.as_slice()).ok()
}

/// How a token payload answers for its subject claim.
pub enum SubClaim {
    /// The payload is not valid encoded structured data.
    Invalid,
    /// The payload decodes, but carries no subject claim.
    Missing,
    /// The subject claim's text.
    Found(String),
}

/// What parsing the given bytes as structured claim data and reading the
/// subject field yields: `None` when the bytes are not valid claim data,
/// `Some(None)` when they are but hold no subject, `Some(Some(id))` otherwise.
pub uninterp spec fn json_sub_claim(payload: Seq<u8>) -> Option<Option<Seq<char>>>;

/// Relies on serde_json: `from_slice` to parse the payload into a value,
/// `Value::get` to look up the `sub` field, and `Value::as_str` to read it as
/// text. All three are pure functions of the payload bytes.
#[verifier::external_body]
fn parse_sub_claim(payload: &Vec<u8>) -> (r: SubClaim)
    ensures
        r is Invalid <==> json_sub_claim(payload@) is None,
        r is Missing <==> json_sub_claim(payload@) == Some(Option::<Seq<char>>::None),
        r matches SubClaim::Found(id) ==> Some(Some(id@)) == json_sub_claim(payload@),
{
    match serde_json::from_slice::<serde_json::Value>(payload.as_slice()) {
        Err(_) => SubClaim::Invalid,
        Ok(value) => match value.get("sub").and_then(|f| f.as_str()) {
            None => SubClaim::Missing,
            Some(id) => SubClaim::Found(id.to_string()),
        },
    }
}

/// How many `b` bytes the sequence holds.
pub open spec fn count_byte(s: Seq<u8>, b: u8) -> nat
    decreases s.len(),
{
    if s.len() == 0 {
        0
    } else {
        count_byte(s.drop_last(), b) + (if s.last() == b {
            1nat
        } else {
            0nat
        })
    }
}

/// How many dot-separated segments the token bytes form.
pub open spec fn segment_count(s: Seq<u8>) -> nat {
    count_byte(s, SEGMENT_SEPARATOR) + 1
}

/// The segment count as a token parser can report it: capped at the machine
/// word, which only matters for inputs no machine can hold anyway.
pub open spec fn reported_segments(s: Seq<u8>) -> nat {
    if segment_count(s) > usize::MAX as nat {
        usize::MAX as nat
    } else {
        segment_count(s)
    }
}

/// `i` and `j` are the only separator positions of `s`, in order: `s` has
/// exactly three segments and the middle one lies strictly between them.
pub open spec fn is_dot_positions(s: Seq<u8>, i: int, j: int) -> bool {
    &&& 0 <= i < j < s.len()
    &&& s[i] == SEGMENT_SEPARATOR
    &&& s[j] == SEGMENT_SEPARATOR
    &&& forall|k: int| 0 <= k < s.len() && k != i && k != j ==> s[k] != SEGMENT_SEPARATOR
}

/// The middle segment of a three-segment token.
pub open spec fn token_payload(s: Seq<u8>) -> Seq<u8>
    recommends
        exists|p: int, q: int| is_dot_positions(s, p, q),
{
    let (p, q) = choose|p: int, q: int| is_dot_positions(s, p, q);
    s.subrange(p + 1, q)
}

/// Separator positions are unique, so `token_payload` is exactly the bytes
/// between any pair of witnessed positions.
pub proof fn lemma_token_payload(s: Seq<u8>, i: int, j: int)
    requires
        is_dot_positions(s, i, j),
    ensures
        token_payload(s) == s.subrange(i + 1, j),
{
    assert(exists|p: int, q: int| is_dot_positions(s, p, q)) by {
        assert(is_dot_positions(s, i, j));
    }
    let (p, q) = choose|p: int, q: int| is_dot_positions(s, p, q);
    assert(p == i && q == j) by {
        assert(is_dot_positions(s, p, q));
    }
}

/// The subject identity a signed token embeds, when it can be read at all:
/// the second dot-separated segment, base64-decoded and parsed as structured
/// claim data, must carry a subject field.
pub open spec fn spec_subject_id(jwt: Seq<char>) -> Option<Seq<char>> {
    let b = encode_utf8(jwt);
    if segment_count(b) == 3 {
        match base64_nopad_decode(token_payload(b)) {
            Some(p) => match json_sub_claim(p) {
                Some(Some(id)) => Some(id),
                _ => None,
            },
            None => None,
        }
    } else {
        None
    }
}

proof fn lemma_count_byte_step(s: Seq<u8>, b: u8, k: int)
    requires
        0 <= k < s.len(),
    ensures
        count_byte(s.take(k + 1), b) == count_byte(s.take(k), b) + (if s[k] == b {
            1int
        } else {
            0int
        }),
{
    assert(s.take(k + 1).drop_last() =~= s.take(k));
    assert(s.take(k + 1).last() == s[k]);
}

/// Splits the token on `.`, decodes the middle segment, and returns the
/// subject claim embedded in it. Fails with `MalformedToken` when the token
/// does not have exactly three segments, with `ClaimDecodeError` when the
/// payload is not valid encoded structured data, and with
/// `MissingSubjectClaim` when the claims hold no subject.
pub fn extract_account_id(jwt: &str) -> (r: Result<String, ForgeError>)
    ensures
        r is Ok <==> spec_subject_id(jwt@) is Some,
        r matches Ok(id) ==> Some(id@) == spec_subject_id(jwt@),
        r matches Err(e) ==> ({
            let b = encode_utf8(jwt@);
            match e {
                ForgeError::MalformedToken { segments } => segment_count(b) != 3 && segments
                    as nat == reported_segments(b),
                ForgeError::ClaimDecodeError => segment_count(b) == 3 && (match base64_nopad_decode(
                    token_payload(b),
                ) {
                    None => true,
                    Some(p) => json_sub_claim(p) is None,
                }),
                ForgeError::MissingSubjectClaim => segment_count(b) == 3 && (match
                    base64_nopad_decode(token_payload(b)) {
                    None => false,
                    Some(p) => json_sub_claim(p) == Some(Option::<Seq<char>>::None),
                }),
                _ => false,
            }
        }),
{
    let bv: Vec<u8> = jwt.as_bytes_vec();
    let ghost b = encode_utf8(jwt@);
    proof {
        assert(bv@ == b);
    }

    let mut dots: Vec<usize> = Vec::new();
    let mut k: usize = 0;
    while k < bv.len()
        invariant
            k <= bv@.len(),
            dots@.len() == count_byte(bv@.take(k as int), SEGMENT_SEPARATOR),
            forall|t: int|
                0 <= t < dots@.len() ==> #[trigger] dots@[t] < k && bv@[dots@[t] as int]
                    == SEGMENT_SEPARATOR,
            forall|t1: int, t2: int| 0 <= t1 < t2 < dots@.len() ==> dots@[t1] < dots@[t2],
            forall|m: int|
                0 <= m < k && bv@[m] == SEGMENT_SEPARATOR ==> dots@.contains(m as usize),
        decreases bv@.len() - k,
    {
        proof {
            lemma_count_byte_step(bv@, SEGMENT_SEPARATOR, k as int);
        }
        if bv[k] == SEGMENT_SEPARATOR {
            let ghost pre = dots@;
            dots.push(k);
            proof {
                assert forall|m: int|
                    0 <= m < k + 1 && bv@[m] == SEGMENT_SEPARATOR implies dots@.contains(
                    m as usize,
                ) by {
                    if m < k {
                        let t = choose|t: int| 0 <= t < pre.len() && pre[t] == m as usize;
                        assert(pre.contains(m as usize));
                        assert(dots@[t] == m as usize);
                    } else {
                        assert(dots@[dots@.len() - 1] == k);
                    }
                }
            }
        }
        k = k + 1;
    }
    proof {
        assert(bv@.take(bv@.len() as int) =~= bv@);
    }

    if dots.len() != 2 {
        let segments: usize = if dots.len() < usize::MAX {
            dots.len() + 1
        } else {
            usize::MAX
        };
        return Err(ForgeError::MalformedToken { segments });
    }

    let i = dots[0];
    let j = dots[1];
    proof {
        assert(dots@.contains(i) && dots@.contains(j));
        assert(is_dot_positions(b, i as int, j as int)) by {
            assert(forall|m: int|
                0 <= m < b.len() && b[m] == SEGMENT_SEPARATOR ==> dots@.contains(m as usize));
            assert(forall|m: int|
                0 <= m < b.len() && m != i && m != j ==> b[m] != SEGMENT_SEPARATOR) by {
                assert forall|m: int|
                    0 <= m < b.len() && b[m] == SEGMENT_SEPARATOR implies m == i || m == j by {
                    let t = choose|t: int| 0 <= t < dots@.len() && dots@[t] == m as usize;
                    assert(dots@.contains(m as usize));
                    assert(t == 0 || t == 1);
                }
            }
        }
        lemma_token_payload(b, i as int, j as int);
    }

    let mut payload: Vec<u8> = Vec::new();
    let mut m: usize = i + 1;
    while m < j
        invariant
            i < m <= j <= bv@.len(),
            payload@ == bv@.subrange(i as int + 1, m as int),
        decreases j - m,
    {
        payload.push(bv[m]);
        proof {
            assert(payload@ =~= bv@.subrange(i as int + 1, m as int + 1));
        }
        m = m + 1;
    }
    proof {
        assert(payload@ == token_payload(b));
    }

    match b64_decode(&payload) {
        None => Err(ForgeError::ClaimDecodeError),
        Some(decoded) => match parse_sub_claim(&decoded) {
            SubClaim::Invalid => Err(ForgeError::ClaimDecodeError),
            SubClaim::Missing => Err(ForgeError::MissingSubjectClaim),
            SubClaim::Found(id) => Ok(id),
        },
    }
}

} // verus!
