//! Whether a request carries a valid credential: a public-key `token` that
//! signs a live `challenge`, or the `pin`. Either one is enough.
use vstd::prelude::*;

use crate::params::QueryParams;
use crate::pin::{pin_matches, verify_pin, PinStore};
use crate::challenge::ChallengeStore;
use crate::keys::KeyRing;
use crate::token::{current_unix_secs, latest_time, token_accepted, verify_token_at};

verus! {

/// The request's `pin` parameter is the PIN that the cell holds.
pub open spec fn pin_param_accepted(
    cell: Option<Seq<char>>,
    params: Map<Seq<char>, Seq<char>>,
) -> bool {
    params.contains_key("pin"@) && pin_matches(cell, params["pin"@])
}

/// The request's `token` parameter is accepted at time `now` for its
/// `challenge` parameter.
pub open spec fn token_param_accepted(
    keys: Seq<(Seq<char>, Seq<u8>)>,
    issued: Seq<(Seq<char>, int)>,
    params: Map<Seq<char>, Seq<char>>,
    now: int,
) -> bool {
    &&& params.contains_key("challenge"@)
    &&& params.contains_key("token"@)
    &&& token_accepted(
        keys,
        issued,
        params["challenge"@],
        vstd::utf8::encode_utf8(params["token"@]),
        now,
    )
}

/// Whether the parameters hold, at time `now`, a valid `token` for their
/// `challenge`, or the `pin`.
pub fn is_authenticated_at(
    store: &PinStore,
    keys: &KeyRing,
    challenges: &ChallengeStore,
    params: &QueryParams,
    now: i64,
) -> (ok: bool)
    ensures
        ok == (token_param_accepted(keys@, challenges@, params@, now as int) || pin_param_accepted(
            store@,
            params@,
        )),
{
    proof {
        reveal_strlit("token");
        reveal_strlit("challenge");
        reveal_strlit("pin");
    }
    if let Some(token) = params.get("token") {
        if let Some(challenge) = params.get("challenge") {
            if verify_token_at(keys, challenges, challenge.as_str(), token.as_str(), now) {
                return true;
            }
        }
    }
    if let Some(pin) = params.get("pin") {
        if verify_pin(store, pin.as_str()) {
            return true;
        }
    }
    false
}

/// Whether the parameters hold a valid `token` for their `challenge`
/// (public-key authentication) or the `pin` (PIN authentication). The PIN is
/// always accepted; a token is judged at the time the clock reads.
pub fn is_authenticated(
    store: &PinStore,
    keys: &KeyRing,
    challenges: &ChallengeStore,
    params: &QueryParams,
) -> (ok: bool)
    ensures
        pin_param_accepted(store@, params@) ==> ok,
        exists|now: int|
            0 <= now <= latest_time() && ok == (#[trigger] token_param_accepted(
                keys@,
                challenges@,
                params@,
                now,
            ) || pin_param_accepted(store@, params@)),
{
    let now = current_unix_secs();
    is_authenticated_at(store, keys, challenges, params, now)
}

/// A request that carries the PIN the cell holds is accepted, whatever else
/// it carries.
pub proof fn lemma_current_pin_authenticates(
    cell: Option<Seq<char>>,
    params: Map<Seq<char>, Seq<char>>,
)
    requires
        cell is Some,
        params.contains_key("pin"@),
        params["pin"@] == cell.unwrap(),
    ensures
        pin_param_accepted(cell, params),
{
}

/// A request with neither a `token` nor a `pin` is refused.
pub proof fn lemma_no_credential_refused(
    cell: Option<Seq<char>>,
    keys: Seq<(Seq<char>, Seq<u8>)>,
    issued: Seq<(Seq<char>, int)>,
    params: Map<Seq<char>, Seq<char>>,
    now: int,
)
    requires
        !params.contains_key("token"@),
        !params.contains_key("pin"@),
    ensures
        !token_param_accepted(keys, issued, params, now),
        !pin_param_accepted(cell, params),
{
}

/// Without a trusted key only the PIN authenticates.
pub proof fn lemma_without_key_only_pin(
    issued: Seq<(Seq<char>, int)>,
    params: Map<Seq<char>, Seq<char>>,
    now: int,
)
    ensures
        !token_param_accepted(Seq::empty(), issued, params, now),
{
}

/// Before startup sets the PIN, no PIN authenticates.
pub proof fn lemma_unset_pin_refused(params: Map<Seq<char>, Seq<char>>)
    ensures
        !pin_param_accepted(None, params),
{
}

} // verus!
