//! The PIN: its text, how it is generated, where it is kept on disk, how it is
//! loaded at startup, and the cell that holds it while the bridge runs.
use rand::Rng;
use vstd::prelude::*;

use crate::text::{is_digit_char, lemma_zero_padded_digits, push_padded, zero_padded};

verus! {

/// A PIN is a number below one million.
pub const PIN_BOUND: u32 = 1_000_000;

/// The text of a PIN: a number below one million, zero-padded to six digits.
pub open spec fn is_pin_text(s: Seq<char>) -> bool {
    exists|n: nat| n < 1_000_000 && s == zero_padded(n, 6)
}

/// Every PIN text is six ASCII digits.
pub proof fn lemma_pin_text_is_six_digits(s: Seq<char>)
    requires
        is_pin_text(s),
    ensures
        s.len() == 6,
        forall|i: int| 0 <= i < 6 ==> is_digit_char(#[trigger] s[i]),
{
    let n = choose|n: nat| n < 1_000_000 && s == zero_padded(n, 6);
    assert(vstd::arithmetic::power::pow(10, 6) == 1_000_000) by {
        reveal_with_fuel(vstd::arithmetic::power::pow, 7);
    }
    lemma_zero_padded_digits(n, 6, 1_000_000);
}

/// A number drawn uniformly from `0..bound` by `rand`'s thread-local
/// generator.
///
/// Calls `rand::rng().random_range(0..bound)` (rand 0.9). Claimed: the result
/// lies in `0..bound`, as the range argument of `random_range` promises; it
/// panics only on an empty range, which `requires` leaves out. Which number
/// comes back is chance and is not stated.
#[verifier::external_body]
fn random_below(bound: u32) -> (n: u32)
    requires
        bound > 0,
    ensures
        n < bound,
{
    rand::rng().random_range(0..bound)
}

/// The six-digit, zero-padded text of PIN number `n`.
pub fn format_pin(n: u32) -> (pin: String)
    requires
        n < PIN_BOUND,
    ensures
        pin@ == zero_padded(n as nat, 6),
        is_pin_text(pin@),
{
    let mut pin = String::new();
    push_padded(&mut pin, n as u64, 6);
    assert(pin@ =~= zero_padded(n as nat, 6));
    pin
}

/// A fresh random PIN.
pub fn generate_pin() -> (pin: String)
    ensures
        is_pin_text(pin@),
        is_clean_pin(pin@),
{
    let n = random_below(PIN_BOUND);
    let pin = format_pin(n);
    proof {
        lemma_pin_text_is_clean(pin@);
    }
    pin
}

// ---------------------------------------------------------------------------
// Where the PIN is kept
// ---------------------------------------------------------------------------

/// `base` joined with the relative path `part`, with one `/` between them as
/// `Path::join` puts it.
pub open spec fn path_join(base: Seq<char>, part: Seq<char>) -> Seq<char> {
    if base.len() == 0 {
        part
    } else if base.last() == '/' {
        base + part
    } else {
        base + seq!['/'] + part
    }
}

/// `<home>/.android/tango-bridge.pin`.
pub open spec fn pin_file_location(home: Seq<char>) -> Seq<char> {
    path_join(path_join(home, seq!['.', 'a', 'n', 'd', 'r', 'o', 'i', 'd']), seq![
        't', 'a', 'n', 'g', 'o', '-', 'b', 'r', 'i', 'd', 'g', 'e', '.', 'p', 'i', 'n'
    ])
}

fn push_path_part(path: &mut String, part: &str)
    ensures
        final(path)@ == path_join(old(path)@, part@),
{
    let len = path.as_str().unicode_len();
    if len > 0 {
        let last = path.as_str().get_char(len - 1);
        if last != '/' {
            proof {
                reveal_strlit("/");
            }
            path.append("/");
        }
    }
    path.append(part);
    assert(path@ =~= path_join(old(path)@, part@));
}

/// The home directory, from the values of the variables that name it (each
/// `None` when unset): the first one, else the second, else the empty text.
pub fn home_from(primary: Option<String>, fallback: Option<String>) -> (home: String)
    ensures
        home@ == match primary {
            Some(p) => p@,
            None => match fallback {
                Some(f) => f@,
                None => Seq::<char>::empty(),
            },
        },
{
    match primary {
        Some(p) => p,
        None => match fallback {
            Some(f) => f,
            None => String::new(),
        },
    }
}

/// The file that holds the PIN, below the home directory `home`.
pub fn pin_file_path(home: &str) -> (path: String)
    ensures
        path@ == pin_file_location(home@),
{
    let mut path = home.to_owned();
    push_path_part(&mut path, ".android");
    push_path_part(&mut path, "tango-bridge.pin");
    proof {
        reveal_strlit(".android");
        reveal_strlit("tango-bridge.pin");
        assert(".android"@ =~= seq!['.', 'a', 'n', 'd', 'r', 'o', 'i', 'd']);
        assert("tango-bridge.pin"@ =~= seq![
            't', 'a', 'n', 'g', 'o', '-', 'b', 'r', 'i', 'd', 'g', 'e', '.', 'p', 'i', 'n'
        ]);
    }
    path
}

// ---------------------------------------------------------------------------
// Loading the PIN at startup
// ---------------------------------------------------------------------------

/// The characters with the Unicode `White_Space` property, which
/// `char::is_whitespace` tests for: U+0009 to U+000D, U+0020, U+0085,
/// U+00A0, U+1680, U+2000 to U+200A, U+2028, U+2029, U+202F, U+205F and
/// U+3000.
pub open spec fn is_whitespace_char(c: char) -> bool {
    ||| '\u{9}' <= c <= '\u{d}'
    ||| c == ' '
    ||| c == '\u{85}'
    ||| c == '\u{a0}'
    ||| c == '\u{1680}'
    ||| '\u{2000}' <= c <= '\u{200a}'
    ||| c == '\u{2028}'
    ||| c == '\u{2029}'
    ||| c == '\u{202f}'
    ||| c == '\u{205f}'
    ||| c == '\u{3000}'
}

/// `s` without its leading whitespace.
pub open spec fn trim_start_text(s: Seq<char>) -> Seq<char>
    decreases s.len(),
{
    if s.len() > 0 && is_whitespace_char(s[0]) {
        trim_start_text(s.drop_first())
    } else {
        s
    }
}

/// `s` without its trailing whitespace.
pub open spec fn trim_end_text(s: Seq<char>) -> Seq<char>
    decreases s.len(),
{
    if s.len() > 0 && is_whitespace_char(s.last()) {
        trim_end_text(s.drop_last())
    } else {
        s
    }
}

/// `s` without its leading and trailing whitespace, as `str::trim` gives it.
pub open spec fn trimmed(s: Seq<char>) -> Seq<char> {
    trim_end_text(trim_start_text(s))
}

/// Whether `c` has the Unicode `White_Space` property.
fn is_whitespace(c: char) -> (ws: bool)
    ensures
        ws == is_whitespace_char(c),
{
    let code = c as u32;
    (0x9 <= code && code <= 0xd) || code == 0x20 || code == 0x85 || code == 0xa0 || code
        == 0x1680 || (0x2000 <= code && code <= 0x200a) || code == 0x2028 || code == 0x2029
        || code == 0x202f || code == 0x205f || code == 0x3000
}

/// `s` without its leading and trailing whitespace, as `str::trim` gives it.
fn trim_text(s: &str) -> (t: &str)
    ensures
        t@ == trimmed(s@),
{
    let len = s.unicode_len();
    let mut start: usize = 0;
    assert(s@.subrange(0, len as int) =~= s@);
    while start < len && is_whitespace(s.get_char(start))
        invariant
            len == s@.len(),
            start <= len,
            trim_start_text(s@) == trim_start_text(s@.subrange(start as int, len as int)),
        decreases len - start,
    {
        assert(s@.subrange(start as int, len as int).drop_first() =~= s@.subrange(
            start + 1,
            len as int,
        ));
        start = start + 1;
    }
    let ghost rest = s@.subrange(start as int, len as int);
    assert(trim_start_text(s@) == rest) by {
        if rest.len() > 0 {
            assert(rest[0] == s@[start as int]);
        }
    }
    let mut end: usize = len;
    assert(s@.subrange(start as int, end as int) == rest);
    while end > start && is_whitespace(s.get_char(end - 1))
        invariant
            len == s@.len(),
            start <= end <= len,
            rest == s@.subrange(start as int, len as int),
            trim_end_text(rest) == trim_end_text(s@.subrange(start as int, end as int)),
        decreases end - start,
    {
        let ghost cur = s@.subrange(start as int, end as int);
        assert(cur.last() == s@[end - 1]);
        assert(cur.drop_last() =~= s@.subrange(start as int, end - 1));
        end = end - 1;
    }
    let ghost kept = s@.subrange(start as int, end as int);
    assert(trim_end_text(kept) == kept) by {
        if kept.len() > 0 {
            assert(kept.last() == s@[end - 1]);
        }
    }
    s.substring_char(start, end)
}

proof fn lemma_trim_start_shape(s: Seq<char>)
    ensures
        trim_start_text(s).len() == 0 || !is_whitespace_char(trim_start_text(s)[0]),
    decreases s.len(),
{
    if s.len() > 0 && is_whitespace_char(s[0]) {
        lemma_trim_start_shape(s.drop_first());
    }
}

proof fn lemma_trim_end_shape(s: Seq<char>)
    ensures
        trim_end_text(s).len() <= s.len(),
        trim_end_text(s) == s.subrange(0, trim_end_text(s).len() as int),
        trim_end_text(s).len() == 0 || !is_whitespace_char(trim_end_text(s).last()),
    decreases s.len(),
{
    if s.len() > 0 && is_whitespace_char(s.last()) {
        lemma_trim_end_shape(s.drop_last());
        assert(s.drop_last().subrange(0, trim_end_text(s).len() as int) =~= s.subrange(
            0,
            trim_end_text(s).len() as int,
        ));
    } else {
        assert(s.subrange(0, s.len() as int) =~= s);
    }
}

/// Trimming a trimmed text changes nothing.
pub proof fn lemma_trimmed_is_trimmed(s: Seq<char>)
    ensures
        trimmed(trimmed(s)) == trimmed(s),
{
    let u = trim_start_text(s);
    let t = trim_end_text(u);
    lemma_trim_start_shape(s);
    lemma_trim_end_shape(u);
    if t.len() > 0 {
        assert(t[0] == u[0]);
    }
    assert(trim_start_text(t) == t);
    assert(trim_end_text(t) == t);
}

/// A text of digits is its own trim.
pub proof fn lemma_digits_are_trimmed(s: Seq<char>)
    requires
        forall|i: int| 0 <= i < s.len() ==> is_digit_char(#[trigger] s[i]),
    ensures
        trimmed(s) == s,
{
    if s.len() > 0 {
        assert(is_digit_char(s[0]));
        assert(is_digit_char(s[s.len() - 1]));
    }
}

/// A PIN text that the cell can hold: not empty, and its own trim.
pub open spec fn is_clean_pin(p: Seq<char>) -> bool {
    p.len() > 0 && trimmed(p) == p
}

/// Every PIN text is clean.
pub proof fn lemma_pin_text_is_clean(p: Seq<char>)
    requires
        is_pin_text(p),
    ensures
        is_clean_pin(p),
{
    lemma_pin_text_is_six_digits(p);
    lemma_digits_are_trimmed(p);
}

/// A PIN saved to the file is loaded back as it is: the file's content trims
/// to itself and is not blank, so `plan_init` uses it.
pub proof fn lemma_saved_pin_loads_back(p: Seq<char>)
    requires
        is_pin_text(p),
    ensures
        trimmed(p) == p,
        trimmed(p).len() > 0,
{
    lemma_pin_text_is_clean(p);
}

/// What to do at startup, given what reading the PIN file gave.
pub enum InitPlan {
    /// The file holds a PIN: use it as it is.
    UseStored(String),
    /// Save this new PIN to the file (creating its directory first when
    /// `create_dir` is set) and use it.
    SaveNew { pin: String, create_dir: bool },
}

/// Decides, from the content of the PIN file (`None` when it could not be
/// read), which PIN to use and whether to save one: the trimmed content when
/// it is not blank, else a fresh PIN to be saved, in a directory to be
/// created when the file could not be read.
pub fn plan_init(file_content: Option<&str>) -> (plan: InitPlan)
    ensures
        match file_content {
            Some(content) => if trimmed(content@).len() > 0 {
                plan matches InitPlan::UseStored(pin) && pin@ == trimmed(content@)
            } else {
                plan matches InitPlan::SaveNew { pin, create_dir } && !create_dir && is_pin_text(
                    pin@,
                )
            },
            None => plan matches InitPlan::SaveNew { pin, create_dir } && create_dir
                && is_pin_text(pin@),
        },
        match plan {
            InitPlan::UseStored(pin) => is_clean_pin(pin@),
            InitPlan::SaveNew { pin, .. } => is_clean_pin(pin@),
        },
{
    match file_content {
        Some(content) => {
            let stored = trim_text(content);
            proof {
                lemma_trimmed_is_trimmed(content@);
            }
            if stored.is_empty() {
                InitPlan::SaveNew { pin: generate_pin(), create_dir: false }
            } else {
                InitPlan::UseStored(stored.to_owned())
            }
        },
        None => InitPlan::SaveNew { pin: generate_pin(), create_dir: true },
    }
}

// ---------------------------------------------------------------------------
// The PIN cell
// ---------------------------------------------------------------------------

/// The cell that holds the PIN once startup has set it. It is set once; a
/// later `init_pin` leaves it as it is, and `regenerate_pin` replaces it.
/// Whatever it holds is a clean PIN, whichever calls came before.
pub struct PinStore {
    pin: Option<String>,
}

impl PinStore {
    /// The PIN held, if any, is clean.
    #[verifier::type_invariant]
    spec fn holds_clean_pin(self) -> bool {
        match self.pin {
            Some(p) => is_clean_pin(p@),
            None => true,
        }
    }
}

impl View for PinStore {
    type V = Option<Seq<char>>;

    closed spec fn view(&self) -> Option<Seq<char>> {
        match self.pin {
            Some(p) => Some(p@),
            None => None,
        }
    }
}

/// The cell after setting it to `pin` if it was not set yet.
pub open spec fn installed(cell: Option<Seq<char>>, pin: Seq<char>) -> Option<Seq<char>> {
    match cell {
        Some(p) => Some(p),
        None => Some(pin),
    }
}

/// The cell after a new PIN replaces the one it holds (a cell not set yet
/// stays unset).
pub open spec fn regenerated(cell: Option<Seq<char>>, pin: Seq<char>) -> Option<Seq<char>> {
    match cell {
        Some(_) => Some(pin),
        None => None,
    }
}

/// `candidate` is the PIN that the cell holds.
pub open spec fn pin_matches(cell: Option<Seq<char>>, candidate: Seq<char>) -> bool {
    cell == Some(candidate)
}

impl PinStore {
    /// A cell that startup has not set yet.
    pub fn new() -> (store: PinStore)
        ensures
            store@ == None::<Seq<char>>,
    {
        PinStore { pin: None }
    }

    /// Sets the cell to `pin` unless it is set already. The PIN must be
    /// clean, as every PIN that `plan_init` gives is.
    pub fn init_pin(&mut self, pin: String)
        requires
            is_clean_pin(pin@),
        ensures
            final(self)@ == installed(old(self)@, pin@),
    {
        if self.pin.is_none() {
            self.pin = Some(pin);
        }
    }

    pub fn is_initialized(&self) -> (set: bool)
        ensures
            set == (self@ is Some),
    {
        self.pin.is_some()
    }
}

/// The PIN the cell holds; startup must have set it. It is never empty and
/// never has leading or trailing whitespace.
pub fn get_pin(store: &PinStore) -> (pin: String)
    requires
        store@ is Some,
    ensures
        store@ == Some(pin@),
        is_clean_pin(pin@),
{
    proof {
        use_type_invariant(store);
    }
    match &store.pin {
        Some(p) => p.clone(),
        None => String::new(),
    }
}

/// Draws a new PIN, puts it in the cell if the cell is set, and returns it
/// (the caller saves it to the PIN file).
pub fn regenerate_pin(store: &mut PinStore) -> (pin: String)
    ensures
        is_pin_text(pin@),
        is_clean_pin(pin@),
        final(store)@ == regenerated(old(store)@, pin@),
{
    let pin = generate_pin();
    if store.pin.is_some() {
        store.pin = Some(pin.clone());
    }
    pin
}

/// Whether `pin` is the PIN the cell holds (never, when the cell is unset).
pub fn verify_pin(store: &PinStore, pin: &str) -> (ok: bool)
    ensures
        ok == pin_matches(store@, pin@),
{
    match &store.pin {
        Some(p) => {
            let candidate = pin.to_owned();
            *p == candidate
        },
        None => false,
    }
}

// ---------------------------------------------------------------------------
// Laws of the cell
// ---------------------------------------------------------------------------

/// The PIN set at startup is the one the cell holds, and a second setting
/// does not replace it.
pub proof fn lemma_init_pin_once(cell: Option<Seq<char>>, first: Seq<char>, second: Seq<char>)
    requires
        cell is None,
    ensures
        installed(cell, first) == Some(first),
        installed(installed(cell, first), second) == Some(first),
{
}

/// After a PIN is regenerated in a set cell, the cell holds the new PIN: it
/// is the one that `get_pin` returns and the only one `verify_pin` accepts.
pub proof fn lemma_regenerated_pin_verifies(
    cell: Option<Seq<char>>,
    new_pin: Seq<char>,
    candidate: Seq<char>,
)
    requires
        cell is Some,
    ensures
        regenerated(cell, new_pin) == Some(new_pin),
        pin_matches(regenerated(cell, new_pin), candidate) <==> candidate == new_pin,
{
}

/// The PIN that the cell holds is accepted, and no other text is.
pub proof fn lemma_stored_pin_verifies(cell: Option<Seq<char>>, candidate: Seq<char>)
    requires
        cell is Some,
    ensures
        pin_matches(cell, cell.unwrap()),
        pin_matches(cell, candidate) <==> candidate == cell.unwrap(),
{
}

/// A cell that holds a clean PIN keeps holding one when startup sets it or
/// a clean PIN is regenerated, so the PIN read back is never empty and never
/// has leading or trailing whitespace.
pub proof fn lemma_clean_cell_stays_clean(cell: Option<Seq<char>>, pin: Seq<char>)
    requires
        cell matches Some(p) ==> is_clean_pin(p),
        is_clean_pin(pin),
    ensures
        installed(cell, pin) matches Some(p) && is_clean_pin(p),
        regenerated(cell, pin) matches Some(p) ==> is_clean_pin(p),
{
}

/// A cell that is not set accepts no PIN.
pub proof fn lemma_unset_cell_rejects(candidate: Seq<char>)
    ensures
        !pin_matches(None, candidate),
        regenerated(None, candidate) is None,
{
}

} // verus!
