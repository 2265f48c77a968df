//! The client's identity towards the server: an 8-character client id and a
//! UUID token, each reused from storage when the stored value is acceptable and
//! freshly generated otherwise.
use vstd::prelude::*;
use vstd::utf8::{encode_utf8, is_ascii_chars, is_ascii_chars_encode_utf8};
use vstd::string::StrSliceExecFns;
use rand::Rng;

verus! {

/// Length of a generated client id.
pub const CLIENT_ID_LEN: usize = 8;

/// Number of characters a generated client id draws from (digits, then
/// upper-case letters).
pub const CLIENT_ID_ALPHABET: u8 = 36;

/// ASCII letter or digit.
pub open spec fn is_ascii_alnum(c: char) -> bool {
    ('0' <= c <= '9') || ('a' <= c <= 'z') || ('A' <= c <= 'Z')
}

/// Printable ASCII other than the space.
pub open spec fn is_ascii_graphic(c: char) -> bool {
    '!' <= c <= '~'
}

/// The `i`-th character of the client-id alphabet: `0`-`9`, then `A`-`Z`.
pub open spec fn spec_id_char(i: u8) -> char {
    if i < 10 {
        (48 + i) as char
    } else {
        (65 + i - 10) as char
    }
}

/// A character of the client-id alphabet.
pub open spec fn is_id_char(c: char) -> bool {
    ('0' <= c <= '9') || ('A' <= c <= 'Z')
}

/// Unicode `White_Space`: the characters `str::trim` removes.
pub open spec fn is_unicode_whitespace(c: char) -> bool {
    ||| '\u{9}' <= c <= '\u{d}'
    ||| c == ' '
    ||| c == '\u{85}'
    ||| c == '\u{a0}'
    ||| c == '\u{1680}'
    ||| '\u{2000}' <= c <= '\u{200a}'
    ||| c == '\u{2028}'
    ||| c == '\u{2029}'
    ||| c == '\u{202f}'
    ||| c == '\u{205f}'
    ||| c == '\u{3000}'
}

/// The text without its leading whitespace.
pub open spec fn trim_start(s: Seq<char>) -> Seq<char>
    decreases s.len(),
{
    if s.len() > 0 && is_unicode_whitespace(s[0]) {
        trim_start(s.drop_first())
    } else {
        s
    }
}

/// The text without its trailing whitespace.
pub open spec fn trim_end(s: Seq<char>) -> Seq<char>
    decreases s.len(),
{
    if s.len() > 0 && is_unicode_whitespace(s.last()) {
        trim_end(s.drop_last())
    } else {
        s
    }
}

/// The text without leading and trailing whitespace.
pub open spec fn spec_trim(s: Seq<char>) -> Seq<char> {
    trim_end(trim_start(s))
}

/// An ASCII hexadecimal digit, either case, as a byte.
pub open spec fn is_hex_byte(b: u8) -> bool {
    (0x30 <= b <= 0x39) || (0x41 <= b <= 0x46) || (0x61 <= b <= 0x66)
}

/// 32 hexadecimal digits in four hyphen-separated groups: 8-4-4-4-12.
pub open spec fn is_hyphenated_uuid(b: Seq<u8>) -> bool {
    &&& b.len() == 36
    &&& forall|i: int|
        0 <= i < 36 ==> if i == 8 || i == 13 || i == 18 || i == 23 {
            #[trigger] b[i] == 0x2d
        } else {
            is_hex_byte(b[i])
        }
}

/// Byte `a` equals byte `b` up to ASCII case (`b` lower-case).
pub open spec fn eq_ignore_case(a: u8, b: u8) -> bool {
    a == b || (0x41 <= a <= 0x5a && a + 0x20 == b)
}

/// The URN prefix `urn:uuid:` in any ASCII case.
pub open spec fn is_urn_prefix(b: Seq<u8>) -> bool {
    let p = seq![0x75u8, 0x72, 0x6e, 0x3a, 0x75, 0x75, 0x69, 0x64, 0x3a];
    b.len() == 9 && forall|i: int| 0 <= i < 9 ==> eq_ignore_case(#[trigger] b[i], p[i])
}

/// The forms `uuid::Uuid::parse_str` accepts, over the UTF-8 bytes: 32 hex
/// digits; the hyphenated form; the hyphenated form in braces; the hyphenated
/// form after `urn:uuid:`.
pub open spec fn uuid_bytes_parse(b: Seq<u8>) -> bool {
    ||| b.len() == 32 && forall|i: int| 0 <= i < 32 ==> is_hex_byte(#[trigger] b[i])
    ||| is_hyphenated_uuid(b)
    ||| b.len() == 38 && b[0] == 0x7b && b[37] == 0x7d && is_hyphenated_uuid(b.subrange(1, 37))
    ||| b.len() == 45 && is_urn_prefix(b.subrange(0, 9)) && is_hyphenated_uuid(b.subrange(9, 45))
}

/// Whether `uuid::Uuid::parse_str` accepts a string.
pub open spec fn spec_uuid_parses(s: Seq<char>) -> bool {
    uuid_bytes_parse(encode_utf8(s))
}

/// A lower-case hyphenated UUID as text.
pub open spec fn is_lower_hyphenated(s: Seq<char>) -> bool {
    &&& s.len() == 36
    &&& forall|i: int|
        0 <= i < 36 ==> if i == 8 || i == 13 || i == 18 || i == 23 {
            #[trigger] s[i] == '-'
        } else {
            ('0' <= s[i] <= '9') || ('a' <= s[i] <= 'f')
        }
}

/// Whether a character is Unicode whitespace.
pub fn is_whitespace_char(c: char) -> (r: bool)
    ensures
        r == is_unicode_whitespace(c),
{
    ('\u{9}' <= c && c <= '\u{d}') || c == ' ' || c == '\u{85}' || c == '\u{a0}' || c
        == '\u{1680}' || ('\u{2000}' <= c && c <= '\u{200a}') || c == '\u{2028}' || c
        == '\u{2029}' || c == '\u{202f}' || c == '\u{205f}' || c == '\u{3000}'
}

/// Leading whitespace can be skipped before trimming the start.
proof fn lemma_trim_start_skip(s: Seq<char>, k: int)
    requires
        0 <= k <= s.len(),
        forall|j: int| 0 <= j < k ==> is_unicode_whitespace(#[trigger] s[j]),
    ensures
        trim_start(s) == trim_start(s.subrange(k, s.len() as int)),
    decreases k,
{
    if k > 0 {
        assert(is_unicode_whitespace(s[0]));
        let t = s.drop_first();
        assert forall|j: int| 0 <= j < k - 1 implies is_unicode_whitespace(#[trigger] t[j]) by {
            assert(t[j] == s[j + 1]);
        }
        lemma_trim_start_skip(t, k - 1);
        assert(t.subrange(k - 1, t.len() as int) =~= s.subrange(k, s.len() as int));
    } else {
        assert(s.subrange(0, s.len() as int) =~= s);
    }
}

/// Trailing whitespace can be dropped before trimming the end.
proof fn lemma_trim_end_skip(s: Seq<char>, k: int)
    requires
        0 <= k <= s.len(),
        forall|j: int| k <= j < s.len() ==> is_unicode_whitespace(#[trigger] s[j]),
    ensures
        trim_end(s) == trim_end(s.subrange(0, k)),
    decreases s.len() - k,
{
    if k < s.len() {
        assert(is_unicode_whitespace(s[s.len() - 1]));
        let t = s.drop_last();
        assert forall|j: int| k <= j < t.len() implies is_unicode_whitespace(#[trigger] t[j]) by {
            assert(t[j] == s[j]);
        }
        lemma_trim_end_skip(t, k);
        assert(t.subrange(0, k) =~= s.subrange(0, k));
    } else {
        assert(s.subrange(0, k) =~= s);
    }
}

/// `str::trim`: the string without leading and trailing Unicode whitespace.
pub fn str_trim(s: &str) -> (r: &str)
    ensures
        r@ == spec_trim(s@),
{
    let ghost t = s@;
    let n = s.unicode_len();
    let mut k: usize = 0;
    let mut seen = false;
    let mut start: usize = 0;
    let mut end: usize = 0;
    for c in it: s.chars()
        invariant
            t == s@,
            it.seq() == t,
            n == t.len(),
            k == it.index(),
            k <= n,
            seen <==> exists|j: int| 0 <= j < k && !is_unicode_whitespace(#[trigger] t[j]),
            seen ==> start < end <= k && !is_unicode_whitespace(t[start as int])
                && !is_unicode_whitespace(t[end - 1]),
            seen ==> forall|j: int| 0 <= j < start ==> is_unicode_whitespace(#[trigger] t[j]),
            seen ==> forall|j: int| end <= j < k ==> is_unicode_whitespace(#[trigger] t[j]),
            !seen ==> forall|j: int| 0 <= j < k ==> is_unicode_whitespace(#[trigger] t[j]),
    {
        assert(k < n);
        if !is_whitespace_char(c) {
            if !seen {
                start = k;
                seen = true;
            }
            end = k + 1;
        }
        k = k + 1;
    }
    if !seen {
        proof {
            lemma_trim_start_skip(t, t.len() as int);
            assert(t.subrange(t.len() as int, t.len() as int) =~= Seq::<char>::empty());
        }
        return s.substring_char(0, 0);
    }
    proof {
        lemma_trim_start_skip(t, start as int);
        let u = t.subrange(start as int, t.len() as int);
        assert(trim_start(u) == u);
        assert forall|j: int| end - start <= j < u.len() implies is_unicode_whitespace(
            #[trigger] u[j],
        ) by {
            assert(u[j] == t[j + start]);
        }
        lemma_trim_end_skip(u, end - start);
        let v = u.subrange(0, end - start);
        assert(v.last() == t[end - 1]);
        assert(trim_end(v) == v);
        assert(v =~= t.subrange(start as int, end as int));
    }
    s.substring_char(start, end)
}

/// Text without whitespace at either end is its own trim.
proof fn lemma_trim_identity(s: Seq<char>)
    requires
        s.len() == 0 || (!is_unicode_whitespace(s[0]) && !is_unicode_whitespace(s.last())),
    ensures
        spec_trim(s) == s,
{
}

/// Printable ASCII text other than spaces is its own trim.
pub proof fn lemma_trim_keeps_graphic(s: Seq<char>)
    requires
        forall|i: int| 0 <= i < s.len() ==> is_ascii_graphic(#[trigger] s[i]),
    ensures
        spec_trim(s) == s,
{
    if s.len() > 0 {
        assert(is_ascii_graphic(s[0]));
        assert(is_ascii_graphic(s[s.len() - 1]));
    }
    lemma_trim_identity(s);
}

/// A lower-case hyphenated UUID is accepted by the parser.
pub proof fn lemma_lower_hyphenated_parses(s: Seq<char>)
    requires
        is_lower_hyphenated(s),
    ensures
        spec_uuid_parses(s),
{
    assert forall|i: int| 0 <= i < s.len() implies is_ascii_graphic(#[trigger] s[i]) by {
        if i == 8 || i == 13 || i == 18 || i == 23 {
            assert(s[i] == '-');
        } else {
            assert(('0' <= s[i] <= '9') || ('a' <= s[i] <= 'f'));
        }
    }
    assert(is_ascii_chars(s));
    is_ascii_chars_encode_utf8(s);
    let b = encode_utf8(s);
    assert forall|i: int| 0 <= i < 36 implies if i == 8 || i == 13 || i == 18 || i == 23 {
        #[trigger] b[i] == 0x2d
    } else {
        is_hex_byte(b[i])
    } by {
        assert(s[i] as u8 == b[i]);
        if i == 8 || i == 13 || i == 18 || i == 23 {
            assert(s[i] == '-');
        } else {
            assert(('0' <= s[i] <= '9') || ('a' <= s[i] <= 'f'));
        }
    }
    assert(is_hyphenated_uuid(b));
}

/// `String::push`: appends a character.
#[verifier::external_body]
fn string_push(s: &mut String, c: char)
    ensures
        final(s)@ == old(s)@.push(c),
{
    s.push(c)
}

/// `rand::Rng::gen_range` on the thread-local generator, over `0..n`. Claimed:
/// the result is below `n`; which value comes is left to chance.
#[verifier::external_body]
fn random_below(n: u8) -> (r: u8)
    requires
        n > 0,
    ensures
        r < n,
{
    rand::thread_rng().gen_range(0..n)
}

/// `uuid::Uuid::parse_str` (used only for whether it succeeds). Claimed: it
/// succeeds exactly on the forms of `uuid_bytes_parse`.
#[verifier::external_body]
fn uuid_parses(s: &str) -> (r: bool)
    ensures
        r == spec_uuid_parses(s@),
{
    uuid::Uuid::parse_str(s).is_ok()
}

/// `uuid::Uuid::new_v4` rendered with `to_string`. Claimed: a random version-4
/// UUID in lower-case hyphenated form; which UUID comes is left to chance.
#[verifier::external_body]
fn new_token() -> (r: String)
    ensures
        is_lower_hyphenated(r@),
{
    uuid::Uuid::new_v4().to_string()
}

/// The character for an index of the client-id alphabet.
pub fn client_id_char(idx: u8) -> (c: char)
    requires
        idx < CLIENT_ID_ALPHABET,
    ensures
        c == spec_id_char(idx),
        is_id_char(c),
{
    if idx < 10 {
        (48u8 + idx) as char
    } else {
        (65u8 + idx - 10) as char
    }
}

/// The client id spelled by alphabet indices: character `i` is
/// `spec_id_char(draws[i])`.
pub open spec fn spec_id_from_draws(draws: Seq<u8>) -> Seq<char> {
    Seq::new(draws.len(), |i: int| spec_id_char(draws[i]))
}

/// Spells a client id from alphabet indices, one character per index.
pub fn client_id_from_draws(draws: &Vec<u8>) -> (id: String)
    requires
        forall|i: int| 0 <= i < draws@.len() ==> #[trigger] draws@[i] < CLIENT_ID_ALPHABET,
    ensures
        id@ == spec_id_from_draws(draws@),
{
    let mut id = String::new();
    let mut k: usize = 0;
    while k < draws.len()
        invariant
            k <= draws@.len(),
            forall|i: int| 0 <= i < draws@.len() ==> #[trigger] draws@[i] < CLIENT_ID_ALPHABET,
            id@ == spec_id_from_draws(draws@.subrange(0, k as int)),
        decreases draws@.len() - k,
    {
        let c = client_id_char(draws[k]);
        string_push(&mut id, c);
        proof {
            assert(spec_id_from_draws(draws@.subrange(0, k + 1)) =~= spec_id_from_draws(
                draws@.subrange(0, k as int),
            ).push(c));
        }
        k = k + 1;
    }
    assert(draws@.subrange(0, draws@.len() as int) =~= draws@);
    id
}

/// A fresh random client id: 8 independent draws from the 36-character
/// alphabet `0`-`9`, `A`-`Z`, spelled in order.
pub fn generate_client_id() -> (id: String)
    ensures
        id@.len() == CLIENT_ID_LEN,
        forall|i: int| 0 <= i < id@.len() ==> is_id_char(#[trigger] id@[i]),
        exists|draws: Seq<u8>|
            {
                &&& draws.len() == CLIENT_ID_LEN
                &&& forall|i: int| 0 <= i < draws.len() ==> #[trigger] draws[i] < CLIENT_ID_ALPHABET
                &&& id@ == spec_id_from_draws(draws)
            },
{
    let mut draws: Vec<u8> = Vec::new();
    while draws.len() < CLIENT_ID_LEN
        invariant
            draws@.len() <= CLIENT_ID_LEN,
            forall|i: int| 0 <= i < draws@.len() ==> #[trigger] draws@[i] < CLIENT_ID_ALPHABET,
        decreases CLIENT_ID_LEN - draws@.len(),
    {
        draws.push(random_below(CLIENT_ID_ALPHABET));
    }
    let id = client_id_from_draws(&draws);
    proof {
        assert forall|i: int| 0 <= i < id@.len() implies is_id_char(#[trigger] id@[i]) by {
            assert(draws@[i] < CLIENT_ID_ALPHABET);
        }
    }
    id
}

/// A client id: exactly 8 ASCII letters or digits.
pub open spec fn spec_valid_client_id(t: Seq<char>) -> bool {
    &&& t.len() == CLIENT_ID_LEN
    &&& forall|i: int| 0 <= i < t.len() ==> is_ascii_alnum(#[trigger] t[i])
}

/// The client id to reuse from stored text: the trimmed text, when it is a
/// client id.
pub fn accept_stored_client_id(stored: &str) -> (r: Option<String>)
    ensures
        r is Some <==> spec_valid_client_id(spec_trim(stored@)),
        r matches Some(id) ==> id@ == spec_trim(stored@),
        spec_valid_client_id(stored@) ==> (r matches Some(id) && id@ == stored@),
{
    let trimmed = str_trim(stored);
    proof {
        if spec_valid_client_id(stored@) {
            assert forall|i: int| 0 <= i < stored@.len() implies is_ascii_graphic(
                #[trigger] stored@[i],
            ) by {
                assert(is_ascii_alnum(stored@[i]));
            }
            lemma_trim_keeps_graphic(stored@);
        }
    }
    let ghost t = trimmed@;
    if trimmed.unicode_len() != CLIENT_ID_LEN {
        return None;
    }
    let mut all_alnum = true;
    for c in it: trimmed.chars()
        invariant
            t == trimmed@,
            it.seq() == t,
            t.len() == CLIENT_ID_LEN,
            all_alnum <==> forall|j: int| 0 <= j < it.index() ==> is_ascii_alnum(#[trigger] t[j]),
    {
        if !(('0' <= c && c <= '9') || ('a' <= c && c <= 'z') || ('A' <= c && c <= 'Z')) {
            all_alnum = false;
        }
    }
    if all_alnum {
        Some(String::from_str(trimmed))
    } else {
        None
    }
}

/// The client id to use: the stored one when acceptable, else a fresh one; the
/// flag tells whether it is fresh (and so should be stored).
pub fn choose_client_id(stored: Option<&str>) -> (r: (String, bool))
    ensures
        spec_valid_client_id(r.0@),
        (match stored {
            Some(s) => spec_valid_client_id(spec_trim(s@)),
            None => false,
        }) ==> !r.1 && r.0@ == spec_trim(stored->0@),
        !(match stored {
            Some(s) => spec_valid_client_id(spec_trim(s@)),
            None => false,
        }) ==> r.1 && forall|i: int| 0 <= i < r.0@.len() ==> is_id_char(#[trigger] r.0@[i]),
{
    if let Some(s) = stored {
        if let Some(id) = accept_stored_client_id(s) {
            return (id, false);
        }
    }
    let id = generate_client_id();
    assert forall|i: int| 0 <= i < id@.len() implies is_ascii_alnum(#[trigger] id@[i]) by {
        assert(is_id_char(id@[i]));
    }
    (id, true)
}

/// The token to reuse from stored text: the trimmed text, when it parses as a
/// UUID.
pub fn accept_stored_token(stored: &str) -> (r: Option<String>)
    ensures
        r is Some <==> spec_uuid_parses(spec_trim(stored@)),
        r matches Some(t) ==> t@ == spec_trim(stored@),
        is_lower_hyphenated(stored@) ==> (r matches Some(t) && t@ == stored@),
{
    let trimmed = str_trim(stored);
    proof {
        if is_lower_hyphenated(stored@) {
            assert(forall|i: int| 0 <= i < stored@.len() ==> is_ascii_graphic(#[trigger] stored@[i]));
            lemma_trim_keeps_graphic(stored@);
            lemma_lower_hyphenated_parses(stored@);
        }
    }
    if uuid_parses(trimmed) {
        Some(String::from_str(trimmed))
    } else {
        None
    }
}

/// The token to use: the stored one when it parses, else a fresh UUID; the
/// flag tells whether it is fresh (and so should be stored).
pub fn choose_token(stored: Option<&str>) -> (r: (String, bool))
    ensures
        spec_uuid_parses(r.0@),
        (match stored {
            Some(s) => spec_uuid_parses(spec_trim(s@)),
            None => false,
        }) ==> !r.1 && r.0@ == spec_trim(stored->0@),
        !(match stored {
            Some(s) => spec_uuid_parses(spec_trim(s@)),
            None => false,
        }) ==> r.1 && is_lower_hyphenated(r.0@),
{
    if let Some(s) = stored {
        if let Some(token) = accept_stored_token(s) {
            return (token, false);
        }
    }
    let token = new_token();
    proof {
        lemma_lower_hyphenated_parses(token@);
    }
    (token, true)
}

} // verus!
