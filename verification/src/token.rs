//! Public-key tokens: a token is an Ed25519 signature, in base64, of a
//! challenge that the bridge handed out less than an hour ago, made with the
//! private key of one of the trusted public keys. The module also has the
//! clock and the UTC date strings of the days around it.
use base64::Engine;
use vstd::prelude::*;
use vstd::string::StringSliceAdditionalSpecFns;

use crate::challenge::{challenge_live, ChallengeStore};
use crate::keys::KeyRing;

use crate::date::{date_of_secs, date_text, civil_date, day_of_secs, unix_secs_to_date};

verus! {

// ---------------------------------------------------------------------------
// Base64
// ---------------------------------------------------------------------------

#[verifier::external_type_specification]
#[verifier::external_body]
pub struct ExDecodeError(base64::DecodeError);

/// What `base64`'s `STANDARD` engine decodes `input` to (`None` when it
/// rejects it).
pub uninterp spec fn standard_base64_decoded(input: Seq<u8>) -> Option<Seq<u8>>;

/// What `base64`'s `URL_SAFE_NO_PAD` engine decodes `input` to (`None` when it
/// rejects it).
pub uninterp spec fn url_safe_no_pad_base64_decoded(input: Seq<u8>) -> Option<Seq<u8>>;

/// Calls `Engine::decode` on `base64::engine::general_purpose::STANDARD`
/// (base64 0.22). Claimed: decoding is a function of the input bytes alone,
/// named `standard_base64_decoded`; `Ok` carries the decoded bytes.
#[verifier::external_body]
pub(crate) fn decode_standard(input: &[u8]) -> (r: Result<Vec<u8>, base64::DecodeError>)
    ensures
        match r {
            Ok(bytes) => standard_base64_decoded(input@) == Some(bytes@),
            Err(_) => standard_base64_decoded(input@) is None,
        },
{
    base64::engine::general_purpose::STANDARD.decode(input)
}

/// Calls `Engine::decode` on `base64::engine::general_purpose::URL_SAFE_NO_PAD`
/// (base64 0.22). Claimed: decoding is a function of the input bytes alone,
/// named `url_safe_no_pad_base64_decoded`; `Ok` carries the decoded bytes.
#[verifier::external_body]
fn decode_url_safe_no_pad(input: &[u8]) -> (r: Result<Vec<u8>, base64::DecodeError>)
    ensures
        match r {
            Ok(bytes) => url_safe_no_pad_base64_decoded(input@) == Some(bytes@),
            Err(_) => url_safe_no_pad_base64_decoded(input@) is None,
        },
{
    base64::engine::general_purpose::URL_SAFE_NO_PAD.decode(input)
}

// ---------------------------------------------------------------------------
// Ed25519
// ---------------------------------------------------------------------------

#[verifier::external_type_specification]
#[verifier::external_body]
pub struct ExSignatureError(ed25519_dalek::SignatureError);

/// Whether `ed25519_dalek::VerifyingKey::from_bytes` accepts the 32 bytes
/// `key` (they decompress to a curve point).
pub uninterp spec fn ed25519_key_accepted(key: Seq<u8>) -> bool;

/// Whether `VerifyingKey::verify_strict` accepts the 64-byte `signature` of
/// `message` under the 32-byte public key `key`.
pub uninterp spec fn ed25519_strict_accepts(key: Seq<u8>, message: Seq<u8>, signature: Seq<u8>) -> bool;

/// Calls `ed25519_dalek::VerifyingKey::from_bytes` (ed25519-dalek 2.2) on the
/// 32 bytes of `key` and keeps only whether it succeeded. Claimed: that is a
/// function of the bytes alone, named `ed25519_key_accepted`.
#[verifier::external_body]
pub(crate) fn check_verifying_key(key: &[u8]) -> (r: Result<(), ed25519_dalek::SignatureError>)
    requires
        key@.len() == 32,
    ensures
        r is Ok == ed25519_key_accepted(key@),
{
    let bytes: [u8; 32] = key.try_into().unwrap();
    match ed25519_dalek::VerifyingKey::from_bytes(&bytes) {
        Ok(_) => Ok(()),
        Err(e) => Err(e),
    }
}

/// Calls `ed25519_dalek::VerifyingKey::verify_strict` (ed25519-dalek 2.2) for
/// the key made from `key` by `VerifyingKey::from_bytes` and the signature
/// made from `signature` by `Signature::from_bytes`. Claimed: the outcome is
/// a function of the three byte strings alone, named
/// `ed25519_strict_accepts`, and it is never `Ok` for a key that
/// `from_bytes` rejects (that call's error is returned then).
#[verifier::external_body]
fn verify_signature_strict(key: &[u8], message: &[u8], signature: &[u8]) -> (r: Result<
    (),
    ed25519_dalek::SignatureError,
>)
    requires
        key@.len() == 32,
        signature@.len() == 64,
    ensures
        r is Ok == ed25519_strict_accepts(key@, message@, signature@),
        r is Ok ==> ed25519_key_accepted(key@),
{
    let key_bytes: [u8; 32] = key.try_into().unwrap();
    let signature_bytes: [u8; 64] = signature.try_into().unwrap();
    match ed25519_dalek::VerifyingKey::from_bytes(&key_bytes) {
        Ok(k) => k.verify_strict(message, &ed25519_dalek::Signature::from_bytes(&signature_bytes)),
        Err(e) => Err(e),
    }
}

// ---------------------------------------------------------------------------
// The clock
// ---------------------------------------------------------------------------

/// `std::time::SystemTime`, a reading of the system clock.
#[verifier::external_type_specification]
#[verifier::external_body]
pub struct ExSystemTime(std::time::SystemTime);

/// `std::time::SystemTimeError`, the error of a clock reading before the
/// epoch asked about.
#[verifier::external_type_specification]
#[verifier::external_body]
pub struct ExSystemTimeError(std::time::SystemTimeError);

/// Calls `std::time::SystemTime::now`. Nothing is claimed of the reading: it
/// is the time.
#[verifier::external_body]
fn system_time_now() -> (now: std::time::SystemTime) {
    std::time::SystemTime::now()
}

/// Calls `SystemTime::duration_since` with `std::time::UNIX_EPOCH`: the time
/// elapsed since the epoch, or an error for a reading before it. Nothing is
/// claimed of which comes back, since the reading is opaque here.
#[verifier::external_body]
fn since_unix_epoch(time: &std::time::SystemTime) -> (elapsed: Result<
    std::time::Duration,
    std::time::SystemTimeError,
>) {
    time.duration_since(std::time::UNIX_EPOCH)
}

/// Calls `std::time::Duration::as_secs`: the whole seconds of `duration`.
/// Nothing is claimed, since the duration is opaque here.
#[verifier::external_body]
fn whole_seconds(duration: &std::time::Duration) -> (secs: u64) {
    duration.as_secs()
}

/// The whole seconds since the Unix epoch on the system clock, 0 for a clock
/// set before it.
fn unix_time_now() -> u64 {
    let now = system_time_now();
    match since_unix_epoch(&now) {
        Ok(elapsed) => whole_seconds(&elapsed),
        Err(_) => 0,
    }
}

/// The latest time for which the day after can still be counted in `i64`
/// seconds.
pub open spec fn latest_time() -> int {
    i64::MAX - 86400
}

/// The current Unix time in seconds, held below `latest_time()` so that the
/// next day's time can be computed.
pub fn current_unix_secs() -> (secs: i64)
    ensures
        0 <= secs <= latest_time(),
{
    let now = unix_time_now();
    if now > (i64::MAX - 86400) as u64 {
        i64::MAX - 86400
    } else {
        now as i64
    }
}

// ---------------------------------------------------------------------------
// Candidate dates
// ---------------------------------------------------------------------------

/// The date texts a token may sign at time `now`: yesterday, today and
/// tomorrow (UTC), to tolerate clock skew.
pub open spec fn candidate_date_texts(now: int) -> Seq<Seq<char>> {
    seq![date_of_secs(now - 86400), date_of_secs(now), date_of_secs(now + 86400)]
}

/// `dates` are the candidate date texts of `now`, in order.
pub open spec fn are_candidate_dates(dates: [String; 3], now: int) -> bool {
    forall|i: int| 0 <= i < 3 ==> #[trigger] dates@[i]@ == candidate_date_texts(now)[i]
}

/// The UTC date strings of the day of `now` and of the days before and after.
pub fn candidate_dates_at(now: i64) -> (dates: [String; 3])
    requires
        i64::MIN + 86400 <= now <= latest_time(),
    ensures
        are_candidate_dates(dates, now as int),
{
    let dates = [
        unix_secs_to_date(now - 86400),
        unix_secs_to_date(now),
        unix_secs_to_date(now + 86400),
    ];
    dates
}

/// The UTC date strings for today and the adjacent days.
pub fn candidate_dates() -> (dates: [String; 3])
    ensures
        exists|now: int| 0 <= now <= latest_time() && #[trigger] are_candidate_dates(dates, now),
{
    candidate_dates_at(current_unix_secs())
}

/// The three candidate dates are those of three consecutive days: the day of
/// `now`, the day before and the day after.
pub proof fn lemma_candidate_dates_consecutive(now: int)
    ensures
        ({
            let day = day_of_secs(now);
            let texts = candidate_date_texts(now);
            &&& day_of_secs(now - 86400) == day - 1
            &&& day_of_secs(now + 86400) == day + 1
            &&& forall|i: int|
                0 <= i < 3 ==> {
                    let (y, m, d) = civil_date(day + i - 1);
                    #[trigger] texts[i] == date_text(y, m, d)
                }
        }),
{
    let day = day_of_secs(now);
    assert(day_of_secs(now - 86400) == day - 1);
    assert(day_of_secs(now + 86400) == day + 1);
}

// ---------------------------------------------------------------------------
// Tokens
// ---------------------------------------------------------------------------

/// The signature bytes in a token: its URL-safe unpadded base64 decoding, or
/// else its standard base64 decoding.
pub open spec fn signature_of_token(token: Seq<u8>) -> Option<Seq<u8>> {
    match url_safe_no_pad_base64_decoded(token) {
        Some(bytes) => Some(bytes),
        None => standard_base64_decoded(token),
    }
}

/// One of `keys` strictly verifies `signature` of `message`.
pub open spec fn signed_by_a_key(
    keys: Seq<(Seq<char>, Seq<u8>)>,
    message: Seq<u8>,
    signature: Seq<u8>,
) -> bool {
    exists|i: int| 0 <= i < keys.len() && ed25519_strict_accepts(#[trigger] keys[i].1, message, signature)
}

/// Whether `token` is accepted at `now` for `challenge`: the challenge was
/// issued and can be used at `now`, and the token decodes to a 64-byte
/// signature of the challenge's UTF-8 bytes that one of the trusted keys
/// strictly verifies.
pub open spec fn token_accepted(
    keys: Seq<(Seq<char>, Seq<u8>)>,
    issued: Seq<(Seq<char>, int)>,
    challenge: Seq<char>,
    token: Seq<u8>,
    now: int,
) -> bool {
    &&& challenge_live(issued, challenge, now)
    &&& match signature_of_token(token) {
        None => false,
        Some(signature) => signature.len() == 64 && signed_by_a_key(
            keys,
            vstd::utf8::encode_utf8(challenge),
            signature,
        ),
    }
}

/// Checks at time `now` a token for `challenge` against the trusted keys and
/// the challenges handed out.
pub fn verify_token_at(
    keys: &KeyRing,
    challenges: &ChallengeStore,
    challenge: &str,
    token: &str,
    now: i64,
) -> (ok: bool)
    ensures
        ok == token_accepted(keys@, challenges@, challenge@, token.spec_bytes(), now as int),
{
    if !challenges.is_live_challenge(challenge, now) {
        return false;
    }
    let token_bytes = token.as_bytes();
    let signature = match decode_url_safe_no_pad(token_bytes) {
        Ok(s) => s,
        Err(_) => match decode_standard(token_bytes) {
            Ok(s) => s,
            Err(_) => return false,
        },
    };
    if signature.len() != 64 {
        return false;
    }
    let message = challenge.as_bytes();
    let n = keys.len();
    let mut i: usize = 0;
    while i < n
        invariant
            i <= n,
            n == keys@.len(),
            challenge_live(challenges@, challenge@, now as int),
            signature_of_token(token.spec_bytes()) == Some(signature@),
            signature@.len() == 64,
            message@ == vstd::utf8::encode_utf8(challenge@),
            forall|j: int|
                0 <= j < i ==> !ed25519_strict_accepts(#[trigger] keys@[j].1, message@, signature@),
        decreases n - i,
    {
        let key = keys.key_bytes(i);
        if verify_signature_strict(key.as_slice(), message, signature.as_slice()).is_ok() {
            assert(ed25519_strict_accepts(keys@[i as int].1, message@, signature@));
            return true;
        }
        i = i + 1;
    }
    false
}

/// Checks now a token for `challenge`. The result is the token's acceptance
/// at the time the clock read, a time between the epoch and
/// `latest_time()`.
pub fn verify_token(keys: &KeyRing, challenges: &ChallengeStore, challenge: &str, token: &str) -> (ok:
    bool)
    ensures
        exists|now: int|
            0 <= now <= latest_time() && ok == #[trigger] token_accepted(
                keys@,
                challenges@,
                challenge@,
                token.spec_bytes(),
                now,
            ),
{
    let now = current_unix_secs();
    verify_token_at(keys, challenges, challenge, token, now)
}

/// No token is accepted when no key is trusted.
pub proof fn lemma_no_key_no_token(
    issued: Seq<(Seq<char>, int)>,
    challenge: Seq<char>,
    token: Seq<u8>,
    now: int,
)
    ensures
        !token_accepted(Seq::empty(), issued, challenge, token, now),
{
}

/// No token is accepted for a text that was never handed out as a
/// challenge, nor for a challenge an hour or more after it was issued.
pub proof fn lemma_only_live_challenges(
    keys: Seq<(Seq<char>, Seq<u8>)>,
    issued: Seq<(Seq<char>, int)>,
    challenge: Seq<char>,
    token: Seq<u8>,
    now: int,
)
    requires
        forall|i: int|
            0 <= i < issued.len() && (#[trigger] issued[i]).0 == challenge ==> !(issued[i].1 <= now
                < issued[i].1 + 3600),
    ensures
        !token_accepted(keys, issued, challenge, token, now),
{
}

/// A token that decodes to a 64-byte signature of a challenge by a trusted
/// key is accepted at every time in the hour after that challenge was
/// issued, and at any time only while some issue of the challenge is less
/// than an hour old.
pub proof fn lemma_token_accepted_for_the_hour(
    keys: Seq<(Seq<char>, Seq<u8>)>,
    issued: Seq<(Seq<char>, int)>,
    i: int,
    token: Seq<u8>,
    signature: Seq<u8>,
    now: int,
)
    requires
        0 <= i < issued.len(),
        signature_of_token(token) == Some(signature),
        signature.len() == 64,
        signed_by_a_key(keys, vstd::utf8::encode_utf8(issued[i].0), signature),
    ensures
        issued[i].1 <= now < issued[i].1 + 3600 ==> token_accepted(
            keys,
            issued,
            issued[i].0,
            token,
            now,
        ),
        token_accepted(keys, issued, issued[i].0, token, now) <==> exists|j: int|
            0 <= j < issued.len() && (#[trigger] issued[j]).0 == issued[i].0 && issued[j].1 <= now
                < issued[j].1 + 3600,
{
}

} // verus!
