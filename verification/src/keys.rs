//! The trusted public keys: Ed25519 keys in standard base64, given as
//! comma-separated lists at build time and at run time. A piece of a list
//! that is not the base64 of a valid key is not trusted.
use vstd::prelude::*;
use vstd::string::StringSliceAdditionalSpecFns;

use crate::token::{check_verifying_key, decode_standard, ed25519_key_accepted, standard_base64_decoded};

verus! {

/// The pieces of `s` between its commas, in order (one piece for a text
/// without commas, an empty piece at each end that is a comma).
pub open spec fn split_commas(s: Seq<char>) -> Seq<Seq<char>>
    decreases s.len(),
{
    if s.len() == 0 {
        seq![Seq::empty()]
    } else {
        let rest = split_commas(s.drop_last());
        if s.last() == ',' {
            rest.push(Seq::empty())
        } else {
            rest.update(rest.len() - 1, rest.last().push(s.last()))
        }
    }
}

proof fn lemma_split_commas_nonempty(s: Seq<char>)
    ensures
        split_commas(s).len() >= 1,
    decreases s.len(),
{
    if s.len() > 0 {
        lemma_split_commas_nonempty(s.drop_last());
    }
}

/// The pieces of a list that may be absent.
pub open spec fn list_pieces(list: Option<Seq<char>>) -> Seq<Seq<char>> {
    match list {
        Some(s) => split_commas(s),
        None => Seq::empty(),
    }
}

/// The key that `text` is the standard base64 of, if it is a valid
/// Ed25519 public key.
pub open spec fn key_of_text(text: Seq<char>) -> Option<Seq<u8>> {
    match standard_base64_decoded(vstd::utf8::encode_utf8(text)) {
        Some(k) => if k.len() == 32 && ed25519_key_accepted(k) {
            Some(k)
        } else {
            None
        },
        None => None,
    }
}

/// The valid keys among `pieces`, each with its text, in order.
pub open spec fn valid_keys(pieces: Seq<Seq<char>>) -> Seq<(Seq<char>, Seq<u8>)>
    decreases pieces.len(),
{
    if pieces.len() == 0 {
        Seq::empty()
    } else {
        let prev = valid_keys(pieces.drop_last());
        match key_of_text(pieces.last()) {
            Some(k) => prev.push((pieces.last(), k)),
            None => prev,
        }
    }
}

/// The trusted keys of the build-time list followed by the run-time list.
pub open spec fn trusted_keys(build: Option<Seq<char>>, runtime: Option<Seq<char>>) -> Seq<
    (Seq<char>, Seq<u8>),
> {
    valid_keys(list_pieces(build) + list_pieces(runtime))
}

/// Every trusted key is 32 bytes that Ed25519 accepts, and is the key of its
/// text.
pub proof fn lemma_valid_keys_are_keys(pieces: Seq<Seq<char>>)
    ensures
        forall|i: int|
            0 <= i < valid_keys(pieces).len() ==> {
                let (text, key) = #[trigger] valid_keys(pieces)[i];
                &&& key_of_text(text) == Some(key)
                &&& key.len() == 32
                &&& ed25519_key_accepted(key)
            },
    decreases pieces.len(),
{
    if pieces.len() > 0 {
        lemma_valid_keys_are_keys(pieces.drop_last());
    }
}

proof fn lemma_valid_keys_append(first: Seq<Seq<char>>, second: Seq<Seq<char>>)
    ensures
        valid_keys(first + second) == valid_keys(first) + valid_keys(second),
    decreases second.len(),
{
    if second.len() == 0 {
        assert(first + second =~= first);
        assert(valid_keys(first) + valid_keys(second) =~= valid_keys(first));
    } else {
        let all = first + second;
        assert(all.drop_last() =~= first + second.drop_last());
        assert(all.last() == second.last());
        lemma_valid_keys_append(first, second.drop_last());
        match key_of_text(second.last()) {
            Some(k) => {
                assert(valid_keys(first) + valid_keys(second) =~= (valid_keys(first) + valid_keys(
                    second.drop_last(),
                )).push((second.last(), k)));
            },
            None => {},
        }
    }
}

proof fn lemma_split_commas_join(a: Seq<char>, c: Seq<char>)
    ensures
        split_commas(a + seq![','] + c) == split_commas(a) + split_commas(c),
    decreases c.len(),
{
    let s = a + seq![','] + c;
    if c.len() == 0 {
        assert(s =~= a.push(','));
        assert(s.drop_last() =~= a);
        assert(split_commas(a) + split_commas(c) =~= split_commas(a).push(Seq::empty()));
    } else {
        let c1 = c.drop_last();
        assert(s.drop_last() =~= a + seq![','] + c1);
        assert(s.last() == c.last());
        lemma_split_commas_join(a, c1);
        lemma_split_commas_nonempty(c1);
        let left = split_commas(a);
        let right = split_commas(c1);
        if c.last() == ',' {
            assert(left + split_commas(c) =~= (left + right).push(Seq::empty()));
        } else {
            let rest = left + right;
            assert(rest.last() == right.last());
            assert(left + split_commas(c) =~= rest.update(
                rest.len() - 1,
                rest.last().push(c.last()),
            ));
        }
    }
}

/// A list means the same keys whether it is given at build time or at run
/// time, the run-time keys follow the build-time ones, and two lists joined
/// by a comma give the keys of the first followed by those of the second.
pub proof fn lemma_lists_add_keys(build: Option<Seq<char>>, first: Seq<char>, second: Seq<char>)
    ensures
        trusted_keys(None, Some(first)) == trusted_keys(Some(first), None),
        trusted_keys(build, Some(first)) == trusted_keys(build, None) + trusted_keys(
            Some(first),
            None,
        ),
        trusted_keys(Some(first + seq![','] + second), None) == trusted_keys(Some(first), None)
            + trusted_keys(Some(second), None),
{
    assert(list_pieces(None) + list_pieces(Some(first)) =~= list_pieces(Some(first))
        + list_pieces(None));
    lemma_valid_keys_append(list_pieces(build), list_pieces(Some(first)));
    assert(list_pieces(build) + list_pieces(None) =~= list_pieces(build));
    assert(list_pieces(Some(first)) + list_pieces(None) =~= list_pieces(Some(first)));
    assert(list_pieces(Some(second)) + list_pieces(None) =~= list_pieces(Some(second)));
    lemma_split_commas_join(first, second);
    lemma_valid_keys_append(split_commas(first), split_commas(second));
}

/// The pieces of `s` between its commas.
pub fn split_list(s: &str) -> (pieces: Vec<String>)
    ensures
        pieces@.map_values(|p: String| p@) == split_commas(s@),
{
    let len = s.unicode_len();
    let mut pieces: Vec<String> = Vec::new();
    let mut start: usize = 0;
    let mut i: usize = 0;
    assert(s@.subrange(0, 0) =~= Seq::<char>::empty());
    assert(pieces@.map_values(|p: String| p@).push(s@.subrange(0, 0)) =~= split_commas(
        s@.subrange(0, 0),
    ));
    while i < len
        invariant
            len == s@.len(),
            start <= i <= len,
            pieces@.map_values(|p: String| p@).push(s@.subrange(start as int, i as int))
                == split_commas(s@.subrange(0, i as int)),
        decreases len - i,
    {
        let c = s.get_char(i);
        let ghost before = pieces@.map_values(|p: String| p@);
        let ghost prefix = s@.subrange(0, i + 1);
        assert(prefix.drop_last() =~= s@.subrange(0, i as int));
        assert(prefix.last() == c);
        if c == ',' {
            let piece = s.substring_char(start, i).to_owned();
            pieces.push(piece);
            assert(pieces@.map_values(|p: String| p@) =~= before.push(
                s@.subrange(start as int, i as int),
            ));
            start = i + 1;
            assert(s@.subrange(start as int, (i + 1) as int) =~= Seq::<char>::empty());
        } else {
            assert(s@.subrange(start as int, (i + 1) as int) =~= s@.subrange(
                start as int,
                i as int,
            ).push(c));
            assert(before.push(s@.subrange(start as int, (i + 1) as int)) =~= before.push(
                s@.subrange(start as int, i as int),
            ).update(before.len() as int, s@.subrange(start as int, i as int).push(c)));
        }
        i = i + 1;
    }
    let ghost before = pieces@.map_values(|p: String| p@);
    let last = s.substring_char(start, len).to_owned();
    pieces.push(last);
    assert(pieces@.map_values(|p: String| p@) =~= before.push(
        s@.subrange(start as int, len as int),
    ));
    assert(s@.subrange(0, len as int) =~= s@);
    pieces
}

/// The trusted public keys, each with the text it was given as.
pub struct KeyRing {
    keys: Vec<(String, Vec<u8>)>,
}

impl View for KeyRing {
    type V = Seq<(Seq<char>, Seq<u8>)>;

    closed spec fn view(&self) -> Seq<(Seq<char>, Seq<u8>)> {
        self.keys@.map_values(|k: (String, Vec<u8>)| (k.0@, k.1@))
    }
}

impl KeyRing {
    #[verifier::type_invariant]
    spec fn keys_are_32_bytes(self) -> bool {
        forall|i: int| 0 <= i < self.keys@.len() ==> (#[trigger] self.keys@[i]).1@.len() == 32
    }

    /// The keys of the comma-separated lists `build` (given when the bridge
    /// was built) and `runtime` (given when it started), in that order.
    pub fn from_config(build: Option<&str>, runtime: Option<&str>) -> (ring: KeyRing)
        ensures
            ring@ == trusted_keys(
                match build {
                    Some(b) => Some(b@),
                    None => None,
                },
                match runtime {
                    Some(r) => Some(r@),
                    None => None,
                },
            ),
    {
        let mut pieces: Vec<String> = match build {
            Some(b) => split_list(b),
            None => Vec::new(),
        };
        let mut more: Vec<String> = match runtime {
            Some(r) => split_list(r),
            None => Vec::new(),
        };
        let ghost first = pieces@;
        let ghost second = more@;
        pieces.append(&mut more);
        let ghost all = pieces@.map_values(|p: String| p@);
        assert(all =~= first.map_values(|p: String| p@) + second.map_values(|p: String| p@));
        let mut keys: Vec<(String, Vec<u8>)> = Vec::new();
        let mut i: usize = 0;
        assert(all.subrange(0, 0) =~= Seq::<Seq<char>>::empty());
        while i < pieces.len()
            invariant
                i <= pieces.len(),
                all == pieces@.map_values(|p: String| p@),
                keys@.map_values(|k: (String, Vec<u8>)| (k.0@, k.1@)) == valid_keys(
                    all.subrange(0, i as int),
                ),
                forall|j: int| 0 <= j < keys@.len() ==> (#[trigger] keys@[j]).1@.len() == 32,
            decreases pieces.len() - i,
        {
            let ghost before = keys@.map_values(|k: (String, Vec<u8>)| (k.0@, k.1@));
            let ghost sub = all.subrange(0, i + 1);
            assert(sub.drop_last() =~= all.subrange(0, i as int));
            assert(sub.last() == pieces@[i as int]@);
            let text = &pieces[i];
            let decoded = decode_standard(text.as_str().as_bytes());
            match decoded {
                Ok(k) => {
                    if k.len() == 32 {
                        if check_verifying_key(k.as_slice()).is_ok() {
                            keys.push((text.clone(), k));
                            assert(keys@.map_values(|k: (String, Vec<u8>)| (k.0@, k.1@)) =~= before.push(
                                (pieces@[i as int]@, keys@.last().1@),
                            ));
                        }
                    }
                },
                Err(_) => {},
            }
            i = i + 1;
        }
        assert(all.subrange(0, pieces.len() as int) =~= all);
        KeyRing { keys }
    }

    /// The texts of the trusted keys, in order.
    pub fn key_texts(&self) -> (texts: Vec<String>)
        ensures
            texts@.map_values(|t: String| t@) == self@.map_values(|k: (Seq<char>, Seq<u8>)| k.0),
    {
        let mut texts: Vec<String> = Vec::new();
        let mut i: usize = 0;
        while i < self.keys.len()
            invariant
                i <= self.keys.len(),
                texts@.map_values(|t: String| t@) == self@.map_values(
                    |k: (Seq<char>, Seq<u8>)| k.0,
                ).subrange(0, i as int),
            decreases self.keys.len() - i,
        {
            let ghost before = texts@.map_values(|t: String| t@);
            let ghost names = self@.map_values(|k: (Seq<char>, Seq<u8>)| k.0);
            texts.push(self.keys[i].0.clone());
            assert(self@[i as int] == (self.keys@[i as int].0@, self.keys@[i as int].1@));
            assert(names[i as int] == self.keys@[i as int].0@);
            assert(texts@.map_values(|t: String| t@) =~= before.push(self.keys@[i as int].0@));
            assert(texts@.map_values(|t: String| t@) =~= self@.map_values(
                |k: (Seq<char>, Seq<u8>)| k.0,
            ).subrange(0, i + 1));
            i = i + 1;
        }
        assert(self@.map_values(|k: (Seq<char>, Seq<u8>)| k.0).subrange(0, i as int) =~= self@.map_values(
            |k: (Seq<char>, Seq<u8>)| k.0,
        ));
        texts
    }

    /// The key bytes of trusted key `i`.
    pub fn key_bytes(&self, i: usize) -> (key: &Vec<u8>)
        requires
            i < self@.len(),
        ensures
            key@ == self@[i as int].1,
            key@.len() == 32,
    {
        proof {
            use_type_invariant(self);
        }
        &self.keys[i].1
    }

    pub fn len(&self) -> (n: usize)
        ensures
            n == self@.len(),
    {
        self.keys.len()
    }
}

} // verus!
