//! Challenges: random texts that the bridge hands out and that a token must
//! sign. Each one may be used for an hour after it was issued.
use base64::Engine;
use rand::Rng;
use vstd::prelude::*;

verus! {

/// Seconds for which a challenge can be used after it was issued.
pub const CHALLENGE_TTL: i64 = 3600;

/// Random bytes in a challenge.
pub const CHALLENGE_BYTES: usize = 16;

/// Calls `rand::rng().fill` (rand 0.9) on a buffer of `n` zero bytes.
/// Claimed: `n` bytes come back. Which bytes is chance and is not stated.
#[verifier::external_body]
fn random_bytes(n: usize) -> (bytes: Vec<u8>)
    ensures
        bytes@.len() == n,
{
    let mut bytes = vec![0u8; n];
    rand::rng().fill(&mut bytes[..]);
    bytes
}

/// What `base64`'s `URL_SAFE_NO_PAD` engine encodes `bytes` to.
pub uninterp spec fn url_safe_no_pad_base64_encoded(bytes: Seq<u8>) -> Seq<char>;

/// Calls `Engine::encode` on `base64::engine::general_purpose::URL_SAFE_NO_PAD`
/// (base64 0.22). Claimed: the text is a function of the bytes alone, named
/// `url_safe_no_pad_base64_encoded`, with the length that `encoded_len` gives
/// without padding: four characters for every three bytes, two for one byte
/// left over and three for two. `encode` panics only when that length
/// overflows `usize`, which the bound in `requires` leaves out.
#[verifier::external_body]
fn encode_url_safe_no_pad(bytes: &[u8]) -> (text: String)
    requires
        bytes@.len() <= 1024,
    ensures
        text@ == url_safe_no_pad_base64_encoded(bytes@),
        text@.len() == (4 * bytes@.len() + 2) / 3,
{
    base64::engine::general_purpose::URL_SAFE_NO_PAD.encode(bytes)
}

/// The text of a challenge: some 16 bytes in URL-safe unpadded base64.
pub open spec fn is_challenge_text(text: Seq<char>) -> bool {
    exists|bytes: Seq<u8>| bytes.len() == 16 && text == #[trigger] url_safe_no_pad_base64_encoded(bytes)
}

/// The challenge text for the drawn `bytes`: their URL-safe unpadded base64,
/// 22 characters.
pub fn challenge_text(bytes: &[u8]) -> (text: String)
    requires
        bytes@.len() == CHALLENGE_BYTES,
    ensures
        text@ == url_safe_no_pad_base64_encoded(bytes@),
        text@.len() == 22,
        is_challenge_text(text@),
{
    let text = encode_url_safe_no_pad(bytes);
    assert(text@ == url_safe_no_pad_base64_encoded(bytes@));
    text
}

/// A challenge issued at `issued` can be used at `now`.
pub open spec fn is_live(issued: int, now: int) -> bool {
    issued <= now < issued + 3600
}

/// The challenges of `issued` that can still be used at `now`, in order.
pub open spec fn live_only(issued: Seq<(Seq<char>, int)>, now: int) -> Seq<(Seq<char>, int)>
    decreases issued.len(),
{
    if issued.len() == 0 {
        Seq::empty()
    } else {
        let prev = live_only(issued.drop_last(), now);
        if is_live(issued.last().1, now) {
            prev.push(issued.last())
        } else {
            prev
        }
    }
}

/// `challenge` was issued, and can be used at `now`.
pub open spec fn challenge_live(issued: Seq<(Seq<char>, int)>, challenge: Seq<char>, now: int) -> bool {
    exists|i: int| 0 <= i < issued.len() && (#[trigger] issued[i]).0 == challenge && is_live(issued[i].1, now)
}

/// Dropping the challenges that cannot be used at `now` keeps every one that
/// can.
pub proof fn lemma_live_only_keeps_live(issued: Seq<(Seq<char>, int)>, challenge: Seq<char>, now: int)
    ensures
        challenge_live(live_only(issued, now), challenge, now) == challenge_live(issued, challenge, now),
    decreases issued.len(),
{
    if issued.len() > 0 {
        let prev = issued.drop_last();
        lemma_live_only_keeps_live(prev, challenge, now);
        let p = live_only(prev, now);
        if challenge_live(issued, challenge, now) {
            let i = choose|i: int| 0 <= i < issued.len() && (#[trigger] issued[i]).0 == challenge && is_live(issued[i].1, now);
            if i < issued.len() - 1 {
                assert(prev[i] == issued[i]);
                assert(challenge_live(prev, challenge, now));
                if is_live(issued.last().1, now) {
                    let j = choose|j: int| 0 <= j < p.len() && (#[trigger] p[j]).0 == challenge && is_live(p[j].1, now);
                    assert(p.push(issued.last())[j] == p[j]);
                }
            } else {
                assert(live_only(issued, now).last() == issued.last());
            }
        }
        if challenge_live(live_only(issued, now), challenge, now) {
            let l = live_only(issued, now);
            let j = choose|j: int| 0 <= j < l.len() && (#[trigger] l[j]).0 == challenge && is_live(l[j].1, now);
            if j < p.len() {
                assert(l[j] == p[j]);
                assert(challenge_live(p, challenge, now));
                let i = choose|i: int| 0 <= i < prev.len() && (#[trigger] prev[i]).0 == challenge && is_live(prev[i].1, now);
                assert(issued[i] == prev[i]);
            } else {
                assert(issued[issued.len() - 1] == l[j]);
            }
        }
    }
}

/// A challenge just issued at `now` can be used until `now + 3599` and no
/// later.
pub proof fn lemma_fresh_challenge_lifetime(
    issued: Seq<(Seq<char>, int)>,
    challenge: Seq<char>,
    now: int,
    later: int,
)
    requires
        now <= later < now + 3600,
    ensures
        challenge_live(issued.push((challenge, now)), challenge, later),
{
    let s = issued.push((challenge, now));
    assert(s[s.len() - 1] == (challenge, now));
}

/// The challenges handed out, each with the time it was issued.
pub struct ChallengeStore {
    issued: Vec<(String, i64)>,
}

impl View for ChallengeStore {
    type V = Seq<(Seq<char>, int)>;

    closed spec fn view(&self) -> Seq<(Seq<char>, int)> {
        self.issued@.map_values(|c: (String, i64)| (c.0@, c.1 as int))
    }
}

fn live_at(issued: i64, now: i64) -> (live: bool)
    ensures
        live == is_live(issued as int, now as int),
{
    issued <= now && (now as i128) - (issued as i128) < CHALLENGE_TTL as i128
}

impl ChallengeStore {
    /// No challenge issued yet.
    pub fn new() -> (store: ChallengeStore)
        ensures
            store@ == Seq::<(Seq<char>, int)>::empty(),
    {
        let store = ChallengeStore { issued: Vec::new() };
        assert(store@ =~= Seq::<(Seq<char>, int)>::empty());
        store
    }

    /// Issues a new random challenge at time `now`: 16 random bytes in
    /// URL-safe unpadded base64, 22 characters. Challenges that can no longer
    /// be used are dropped.
    pub fn issue_challenge(&mut self, now: i64) -> (challenge: String)
        ensures
            final(self)@ == live_only(old(self)@, now as int).push((challenge@, now as int)),
            challenge@.len() == 22,
            is_challenge_text(challenge@),
    {
        let ghost all = self@;
        let mut kept: Vec<(String, i64)> = Vec::new();
        let mut i: usize = 0;
        assert(all.subrange(0, 0) =~= Seq::<(Seq<char>, int)>::empty());
        while i < self.issued.len()
            invariant
                i <= self.issued.len(),
                all == self@,
                kept@.map_values(|c: (String, i64)| (c.0@, c.1 as int)) == live_only(
                    all.subrange(0, i as int),
                    now as int,
                ),
            decreases self.issued.len() - i,
        {
            let ghost before = kept@.map_values(|c: (String, i64)| (c.0@, c.1 as int));
            let ghost sub = all.subrange(0, i + 1);
            assert(sub.drop_last() =~= all.subrange(0, i as int));
            assert(sub.last() == all[i as int]);
            if live_at(self.issued[i].1, now) {
                kept.push((self.issued[i].0.clone(), self.issued[i].1));
                assert(kept@.map_values(|c: (String, i64)| (c.0@, c.1 as int)) =~= before.push(
                    all[i as int],
                ));
            }
            i = i + 1;
        }
        assert(all.subrange(0, i as int) =~= all);
        let bytes = random_bytes(CHALLENGE_BYTES);
        let challenge = challenge_text(bytes.as_slice());
        let ghost before = kept@.map_values(|c: (String, i64)| (c.0@, c.1 as int));
        kept.push((challenge.clone(), now));
        assert(kept@.map_values(|c: (String, i64)| (c.0@, c.1 as int)) =~= before.push(
            (challenge@, now as int),
        ));
        self.issued = kept;
        challenge
    }

    /// Whether `challenge` was issued and can be used at `now`.
    pub fn is_live_challenge(&self, challenge: &str, now: i64) -> (live: bool)
        ensures
            live == challenge_live(self@, challenge@, now as int),
    {
        let wanted = challenge.to_owned();
        let mut i: usize = 0;
        while i < self.issued.len()
            invariant
                i <= self.issued.len(),
                wanted@ == challenge@,
                forall|j: int|
                    0 <= j < i ==> !((#[trigger] self@[j]).0 == challenge@ && is_live(
                        self@[j].1,
                        now as int,
                    )),
            decreases self.issued.len() - i,
        {
            if self.issued[i].0 == wanted && live_at(self.issued[i].1, now) {
                assert(self@[i as int] == (self.issued@[i as int].0@, self.issued@[i as int].1 as int));
                return true;
            }
            assert(self@[i as int] == (self.issued@[i as int].0@, self.issued@[i as int].1 as int));
            i = i + 1;
        }
        false
    }
}

} // verus!
