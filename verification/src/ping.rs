//! The answer to `GET /bridge/ping`: a JSON object with the bridge's version,
//! a fresh challenge, the trusted public keys and the challenges' lifetime.
use vstd::prelude::*;

use crate::challenge::{is_challenge_text, live_only, ChallengeStore};
use crate::keys::KeyRing;
use crate::text::{decimal, push_decimal};

verus! {

/// The version the bridge reports.
pub const BRIDGE_VERSION: &'static str = "0.3.0";

pub open spec fn hex_char(n: int) -> char {
    if n < 10 {
        crate::text::digit_char(n)
    } else if n == 10 {
        'a'
    } else if n == 11 {
        'b'
    } else if n == 12 {
        'c'
    } else if n == 13 {
        'd'
    } else if n == 14 {
        'e'
    } else {
        'f'
    }
}

/// A character as it stands inside a JSON string: a quote and a backslash
/// behind a backslash, a control character as `\u00XX`.
pub open spec fn json_escaped_char(c: char) -> Seq<char> {
    if c == '"' {
        seq!['\\', '"']
    } else if c == '\\' {
        seq!['\\', '\\']
    } else if (c as int) < 32 {
        seq!['\\', 'u', '0', '0', hex_char((c as int) / 16), hex_char((c as int) % 16)]
    } else {
        seq![c]
    }
}

pub open spec fn json_escaped(s: Seq<char>) -> Seq<char>
    decreases s.len(),
{
    if s.len() == 0 {
        Seq::empty()
    } else {
        json_escaped(s.drop_last()) + json_escaped_char(s.last())
    }
}

/// `s` as a JSON string.
pub open spec fn json_string(s: Seq<char>) -> Seq<char> {
    seq!['"'] + json_escaped(s) + seq!['"']
}

/// The JSON strings of `items`, separated by commas.
pub open spec fn json_string_list(items: Seq<Seq<char>>) -> Seq<char>
    decreases items.len(),
{
    if items.len() == 0 {
        Seq::empty()
    } else if items.len() == 1 {
        json_string(items[0])
    } else {
        json_string_list(items.drop_last()) + seq![','] + json_string(items.last())
    }
}

/// `{"version":…,"challenge":…,"publicKeys":[…],"challengeTtl":3600}`.
pub open spec fn ping_body(version: Seq<char>, challenge: Seq<char>, keys: Seq<Seq<char>>) -> Seq<
    char,
> {
    "{\"version\":"@ + json_string(version) + ",\"challenge\":"@ + json_string(challenge)
        + ",\"publicKeys\":["@ + json_string_list(keys) + "],\"challengeTtl\":"@ + decimal(3600)
        + "}"@
}

fn hex_str(n: u32) -> (s: &'static str)
    requires
        n < 16,
    ensures
        s@ == seq![hex_char(n as int)],
{
    proof {
        reveal_strlit("0");
        reveal_strlit("1");
        reveal_strlit("2");
        reveal_strlit("3");
        reveal_strlit("4");
        reveal_strlit("5");
        reveal_strlit("6");
        reveal_strlit("7");
        reveal_strlit("8");
        reveal_strlit("9");
        reveal_strlit("a");
        reveal_strlit("b");
        reveal_strlit("c");
        reveal_strlit("d");
        reveal_strlit("e");
        reveal_strlit("f");
    }
    if n == 0 {
        "0"
    } else if n == 1 {
        "1"
    } else if n == 2 {
        "2"
    } else if n == 3 {
        "3"
    } else if n == 4 {
        "4"
    } else if n == 5 {
        "5"
    } else if n == 6 {
        "6"
    } else if n == 7 {
        "7"
    } else if n == 8 {
        "8"
    } else if n == 9 {
        "9"
    } else if n == 10 {
        "a"
    } else if n == 11 {
        "b"
    } else if n == 12 {
        "c"
    } else if n == 13 {
        "d"
    } else if n == 14 {
        "e"
    } else {
        "f"
    }
}

/// Appends `s` as a JSON string.
pub fn push_json_string(out: &mut String, s: &str)
    ensures
        final(out)@ == old(out)@ + json_string(s@),
{
    proof {
        reveal_strlit("\"");
        reveal_strlit("\\\"");
        reveal_strlit("\\\\");
        reveal_strlit("\\u00");
    }
    out.append("\"");
    let len = s.unicode_len();
    let mut i: usize = 0;
    assert(s@.subrange(0, 0) =~= Seq::<char>::empty());
    while i < len
        invariant
            len == s@.len(),
            i <= len,
            out@ == old(out)@ + seq!['"'] + json_escaped(s@.subrange(0, i as int)),
        decreases len - i,
    {
        let c = s.get_char(i);
        proof {
            reveal_strlit("\\\"");
            reveal_strlit("\\\\");
            reveal_strlit("\\u00");
        }
        let ghost prefix = s@.subrange(0, i + 1);
        assert(prefix.drop_last() =~= s@.subrange(0, i as int));
        assert(prefix.last() == c);
        let ghost before = out@;
        if c == '"' {
            out.append("\\\"");
        } else if c == '\\' {
            out.append("\\\\");
        } else if (c as u32) < 32 {
            let code = c as u32;
            out.append("\\u00");
            out.append(hex_str(code / 16));
            out.append(hex_str(code % 16));
        } else {
            let one = s.substring_char(i, i + 1);
            assert(one@ =~= seq![c]);
            out.append(one);
        }
        assert(out@ =~= before + json_escaped_char(c));
        i = i + 1;
    }
    assert(s@.subrange(0, len as int) =~= s@);
    out.append("\"");
    assert(out@ =~= old(out)@ + json_string(s@));
}

/// Issues a fresh challenge at `now` and gives the JSON answer to a ping:
/// the version, that challenge, the texts of the trusted keys and the
/// challenges' lifetime in seconds.
pub fn ping_response(challenges: &mut ChallengeStore, keys: &KeyRing, now: i64) -> (body: String)
    ensures
        final(challenges)@.len() > 0,
        final(challenges)@ == live_only(old(challenges)@, now as int).push(
            (final(challenges)@.last().0, now as int),
        ),
        final(challenges)@.last().0.len() == 22,
        is_challenge_text(final(challenges)@.last().0),
        body@ == ping_body(
            BRIDGE_VERSION@,
            final(challenges)@.last().0,
            keys@.map_values(|k: (Seq<char>, Seq<u8>)| k.0),
        ),
{
    let challenge = challenges.issue_challenge(now);
    let texts = keys.key_texts();
    let ghost items = texts@.map_values(|t: String| t@);
    proof {
        reveal_strlit("{\"version\":");
        reveal_strlit(",\"challenge\":");
        reveal_strlit(",\"publicKeys\":[");
        reveal_strlit(",");
        reveal_strlit("],\"challengeTtl\":");
        reveal_strlit("}");
    }
    let mut body = String::new();
    body.append("{\"version\":");
    push_json_string(&mut body, BRIDGE_VERSION);
    body.append(",\"challenge\":");
    push_json_string(&mut body, challenge.as_str());
    body.append(",\"publicKeys\":[");
    let ghost head = body@;
    let mut i: usize = 0;
    assert(items.subrange(0, 0) =~= Seq::<Seq<char>>::empty());
    while i < texts.len()
        invariant
            i <= texts.len(),
            items == texts@.map_values(|t: String| t@),
            body@ == head + json_string_list(items.subrange(0, i as int)),
        decreases texts.len() - i,
    {
        let ghost sub = items.subrange(0, i + 1);
        assert(sub.drop_last() =~= items.subrange(0, i as int));
        assert(sub.last() == texts@[i as int]@);
        proof {
            reveal_strlit(",");
        }
        if i > 0 {
            body.append(",");
        }
        push_json_string(&mut body, texts[i].as_str());
        proof {
            if i == 0 {
                assert(sub[0] == texts@[0]@);
            }
        }
        assert(body@ =~= head + json_string_list(sub));
        i = i + 1;
    }
    assert(items.subrange(0, texts.len() as int) =~= items);
    body.append("],\"challengeTtl\":");
    push_decimal(&mut body, 3600);
    body.append("}");
    assert(body@ =~= ping_body(
        BRIDGE_VERSION@,
        challenge@,
        keys@.map_values(|k: (Seq<char>, Seq<u8>)| k.0),
    ));
    body
}

/// `parts` with a comma between each two.
pub open spec fn comma_joined(parts: Seq<Seq<char>>) -> Seq<char>
    decreases parts.len(),
{
    if parts.len() == 0 {
        Seq::empty()
    } else if parts.len() == 1 {
        parts[0]
    } else {
        parts[0] + seq![','] + comma_joined(parts.drop_first())
    }
}

proof fn lemma_comma_joined_push(parts: Seq<Seq<char>>, part: Seq<char>)
    requires
        parts.len() > 0,
    ensures
        comma_joined(parts.push(part)) == comma_joined(parts) + seq![','] + part,
    decreases parts.len(),
{
    let all = parts.push(part);
    assert(all[0] == parts[0]);
    if parts.len() == 1 {
        assert(all.drop_first() =~= seq![part]);
        assert(comma_joined(seq![part]) == part);
        assert(comma_joined(all) == parts[0] + seq![','] + part);
    } else {
        lemma_comma_joined_push(parts.drop_first(), part);
        assert(all.drop_first() =~= parts.drop_first().push(part));
        assert(comma_joined(all) =~= parts[0] + seq![','] + (comma_joined(parts.drop_first())
            + seq![','] + part));
    }
}

proof fn lemma_json_string_list_joined(items: Seq<Seq<char>>)
    ensures
        json_string_list(items) == comma_joined(items.map_values(|k: Seq<char>| json_string(k))),
    decreases items.len(),
{
    let strings = items.map_values(|k: Seq<char>| json_string(k));
    if items.len() == 1 {
        assert(strings[0] == json_string(items[0]));
    } else if items.len() > 1 {
        let prev = items.drop_last();
        lemma_json_string_list_joined(prev);
        let prev_strings = prev.map_values(|k: Seq<char>| json_string(k));
        assert(strings =~= prev_strings.push(json_string(items.last())));
        lemma_comma_joined_push(prev_strings, json_string(items.last()));
    }
}

/// The answer to a ping lists every trusted key: between the brackets of
/// `publicKeys` stand the JSON strings of all the key texts, in order, with
/// a comma between each two, whatever their number; and it gives the
/// challenges' lifetime as 3600 seconds.
pub proof fn lemma_ping_lists_every_key(
    version: Seq<char>,
    challenge: Seq<char>,
    keys: Seq<Seq<char>>,
)
    ensures
        ping_body(version, challenge, keys) == "{\"version\":"@ + json_string(version)
            + ",\"challenge\":"@ + json_string(challenge) + ",\"publicKeys\":["@ + comma_joined(
            keys.map_values(|k: Seq<char>| json_string(k)),
        ) + "],\"challengeTtl\":3600}"@,
{
    lemma_json_string_list_joined(keys);
    reveal_with_fuel(decimal, 5);
    reveal_strlit("],\"challengeTtl\":");
    reveal_strlit("}");
    reveal_strlit("],\"challengeTtl\":3600}");
    assert("],\"challengeTtl\":"@ + decimal(3600) + "}"@ =~= "],\"challengeTtl\":3600}"@);
    assert(ping_body(version, challenge, keys) =~= "{\"version\":"@ + json_string(version)
        + ",\"challenge\":"@ + json_string(challenge) + ",\"publicKeys\":["@ + comma_joined(
        keys.map_values(|k: Seq<char>| json_string(k)),
    ) + ("],\"challengeTtl\":"@ + decimal(3600) + "}"@));
}

} // verus!
