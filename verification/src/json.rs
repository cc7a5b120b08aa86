//! A verified codec for the JSON subset that the API speaks.

use vstd::prelude::*;

verus! {

/// A JSON value. Every numeric field of the API's responses is a count or
/// a timestamp, so a number token that is a plain unsigned integer fitting
/// 64 bits is read as its value (`UInt`); any other well-formed number
/// token — negative, fractional, with an exponent, or too large — is kept
/// as written (`Number`), so that a document carrying one in a field the
/// library does not read is still accepted.
pub enum Json {
    Null,
    Bool(bool),
    UInt(u64),
    Number(String),
    Str(String),
    Arr(Vec<Json>),
    Obj(Vec<Member>),
}

/// One `key: value` pair of a JSON object.
pub struct Member {
    pub key: String,
    pub value: Json,
}

/// The character for a single decimal digit.
pub open spec fn digit_char(d: nat) -> char {
    if d == 0 {
        '0'
    } else if d == 1 {
        '1'
    } else if d == 2 {
        '2'
    } else if d == 3 {
        '3'
    } else if d == 4 {
        '4'
    } else if d == 5 {
        '5'
    } else if d == 6 {
        '6'
    } else if d == 7 {
        '7'
    } else if d == 8 {
        '8'
    } else {
        '9'
    }
}

/// The decimal representation of a number, most significant digit first,
/// without leading zeros (`0` itself is the single digit `0`).
pub open spec fn dec_rep(n: nat) -> Seq<char>
    decreases n,
{
    if n < 10 {
        seq![digit_char(n)]
    } else {
        dec_rep(n / 10) + seq![digit_char(n % 10)]
    }
}

/// The character for a single hexadecimal digit.
pub open spec fn hex_char(d: nat) -> char {
    if d < 10 {
        digit_char(d)
    } else if d == 10 {
        'a'
    } else if d == 11 {
        'b'
    } else if d == 12 {
        'c'
    } else if d == 13 {
        'd'
    } else if d == 14 {
        'e'
    } else {
        'f'
    }
}

/// How one character of a JSON string is written on the wire: the two-letter
/// escapes for the quote, the backslash and the common control characters, a
/// `\u00XX` escape for the remaining control characters, and the character
/// itself otherwise.
pub open spec fn escape_char(c: char) -> Seq<char> {
    if c == '"' {
        seq!['\\', '"']
    } else if c == '\\' {
        seq!['\\', '\\']
    } else if c == '\n' {
        seq!['\\', 'n']
    } else if c == '\r' {
        seq!['\\', 'r']
    } else if c == '\t' {
        seq!['\\', 't']
    } else if (c as nat) < 0x20 {
        seq!['\\', 'u', '0', '0', hex_char(c as nat / 16), hex_char(c as nat % 16)]
    } else {
        seq![c]
    }
}

/// A whole string escaped for the wire, character by character.
pub open spec fn escape_seq(s: Seq<char>) -> Seq<char>
    decreases s.len(),
{
    if s.len() == 0 {
        Seq::empty()
    } else {
        escape_char(s[0]) + escape_seq(s.drop_first())
    }
}

/// A string as it stands in a JSON document: escaped, between quotes.
pub open spec fn quoted(s: Seq<char>) -> Seq<char> {
    seq!['"'] + escape_seq(s) + seq!['"']
}

/// The digit character for `d`, executable side of [`digit_char`].
pub fn digit_char_of(d: u64) -> (c: char)
    requires
        d < 10,
    ensures
        c == digit_char(d as nat),
{
    if d == 0 {
        '0'
    } else if d == 1 {
        '1'
    } else if d == 2 {
        '2'
    } else if d == 3 {
        '3'
    } else if d == 4 {
        '4'
    } else if d == 5 {
        '5'
    } else if d == 6 {
        '6'
    } else if d == 7 {
        '7'
    } else if d == 8 {
        '8'
    } else {
        '9'
    }
}

/// The hexadecimal digit character for `d`, executable side of [`hex_char`].
pub fn hex_char_of(d: u64) -> (c: char)
    requires
        d < 16,
    ensures
        c == hex_char(d as nat),
{
    if d < 10 {
        digit_char_of(d)
    } else if d == 10 {
        'a'
    } else if d == 11 {
        'b'
    } else if d == 12 {
        'c'
    } else if d == 13 {
        'd'
    } else if d == 14 {
        'e'
    } else {
        'f'
    }
}

/// Appends the decimal representation of `n` to `out`.
pub fn push_u64(out: &mut Vec<char>, n: u64)
    ensures
        final(out)@ == old(out)@ + dec_rep(n as nat),
    decreases n,
{
    if n < 10 {
        out.push(digit_char_of(n));
    } else {
        push_u64(out, n / 10);
        out.push(digit_char_of(n % 10));
    }
    assert(out@ =~= old(out)@ + dec_rep(n as nat));
}

/// Appends every character of `s` to `out`.
pub fn push_str_chars(out: &mut Vec<char>, s: &str)
    ensures
        final(out)@ == old(out)@ + s@,
{
    let n = s.unicode_len();
    let mut i: usize = 0;
    while i < n
        invariant
            n == s@.len(),
            i <= n,
            out@ == old(out)@ + s@.subrange(0, i as int),
        decreases n - i,
    {
        out.push(s.get_char(i));
        i = i + 1;
        assert(out@ =~= old(out)@ + s@.subrange(0, i as int));
    }
    assert(old(out)@ + s@.subrange(0, n as int) =~= old(out)@ + s@);
}

/// Appends the escaped form of one character to `out`.
pub fn push_escaped_char(out: &mut Vec<char>, c: char)
    ensures
        final(out)@ == old(out)@ + escape_char(c),
{
    if c == '"' {
        out.push('\\');
        out.push('"');
    } else if c == '\\' {
        out.push('\\');
        out.push('\\');
    } else if c == '\n' {
        out.push('\\');
        out.push('n');
    } else if c == '\r' {
        out.push('\\');
        out.push('r');
    } else if c == '\t' {
        out.push('\\');
        out.push('t');
    } else if (c as u32) < 0x20 {
        let code: u64 = (c as u32) as u64;
        out.push('\\');
        out.push('u');
        out.push('0');
        out.push('0');
        out.push(hex_char_of(code / 16));
        out.push(hex_char_of(code % 16));
    } else {
        out.push(c);
    }
    assert(out@ =~= old(out)@ + escape_char(c));
}

/// Appends the quoted, escaped form of `s` to `out`.
pub fn push_quoted(out: &mut Vec<char>, s: &str)
    ensures
        final(out)@ == old(out)@ + quoted(s@),
{
    out.push('"');
    let n = s.unicode_len();
    let mut i: usize = 0;
    while i < n
        invariant
            n == s@.len(),
            i <= n,
            out@ == old(out)@ + seq!['"'] + escape_seq(s@.subrange(0, i as int)),
        decreases n - i,
    {
        push_escaped_char(out, s.get_char(i));
        i = i + 1;
        proof {
            lemma_escape_seq_snoc(s@.subrange(0, i as int));
            assert(s@.subrange(0, i as int).drop_last() =~= s@.subrange(0, i - 1));
            assert(out@ =~= old(out)@ + seq!['"'] + escape_seq(s@.subrange(0, i as int)));
        }
    }
    out.push('"');
    assert(s@.subrange(0, n as int) =~= s@);
    assert(out@ =~= old(out)@ + quoted(s@));
}

/// A JSON value as mathematics: strings are sequences of characters, arrays
/// and objects are sequences. This is the shape that contracts speak of; it
/// is the view of [`Json`].
pub enum SpecJson {
    Null,
    Bool(bool),
    UInt(u64),
    Number(Seq<char>),
    Str(Seq<char>),
    Arr(Seq<SpecJson>),
    Obj(Seq<(Seq<char>, SpecJson)>),
}

/// The view of a tree of members, key by key, value by value.
pub open spec fn view_members(ms: Seq<Member>) -> Seq<(Seq<char>, SpecJson)>
    decreases ms,
{
    if ms.len() == 0 {
        Seq::empty()
    } else {
        seq![(ms[0].key@, view_json(ms[0].value))] + view_members(ms.drop_first())
    }
}

/// The view of a sequence of values, element by element.
pub open spec fn view_arr(elems: Seq<Json>) -> Seq<SpecJson>
    decreases elems,
{
    if elems.len() == 0 {
        Seq::empty()
    } else {
        seq![view_json(elems[0])] + view_arr(elems.drop_first())
    }
}

/// The view of a single value.
pub open spec fn view_json(j: Json) -> SpecJson
    decreases j,
{
    match j {
        Json::Null => SpecJson::Null,
        Json::Bool(b) => SpecJson::Bool(b),
        Json::UInt(n) => SpecJson::UInt(n),
        Json::Number(s) => SpecJson::Number(s@),
        Json::Str(s) => SpecJson::Str(s@),
        Json::Arr(v) => SpecJson::Arr(view_arr(v@)),
        Json::Obj(ms) => SpecJson::Obj(view_members(ms@)),
    }
}

impl View for Json {
    type V = SpecJson;

    open spec fn view(&self) -> SpecJson {
        view_json(*self)
    }
}

impl View for Member {
    type V = (Seq<char>, SpecJson);

    open spec fn view(&self) -> (Seq<char>, SpecJson) {
        (self.key@, view_json(self.value))
    }
}

/// The view of members, taken one member at a time.
pub proof fn lemma_view_members(ms: Seq<Member>)
    ensures
        view_members(ms).len() == ms.len(),
        forall|k: int|
            0 <= k < ms.len() ==> view_members(ms)[k] == (ms[k].key@, view_json(ms[k].value)),
    decreases ms.len(),
{
    if ms.len() > 0 {
        lemma_view_members(ms.drop_first());
    }
}

/// The view of elements, taken one element at a time.
pub proof fn lemma_view_arr(elems: Seq<Json>)
    ensures
        view_arr(elems).len() == elems.len(),
        forall|k: int| 0 <= k < elems.len() ==> view_arr(elems)[k] == view_json(elems[k]),
    decreases elems.len(),
{
    if elems.len() > 0 {
        lemma_view_arr(elems.drop_first());
    }
}

/// Escaping a string and then one more character is escaping the whole.
proof fn lemma_escape_seq_snoc(s: Seq<char>)
    requires
        s.len() > 0,
    ensures
        escape_seq(s) == escape_seq(s.drop_last()) + escape_char(s.last()),
    decreases s.len(),
{
    if s.len() == 1 {
        assert(s.drop_first() =~= Seq::empty());
        assert(s.drop_last() =~= Seq::empty());
        assert(escape_seq(s) =~= escape_seq(s.drop_last()) + escape_char(s.last()));
    } else {
        lemma_escape_seq_snoc(s.drop_first());
        assert(s.drop_first().drop_last() =~= s.drop_last().drop_first());
        assert(s.drop_first().last() == s.last());
        assert(escape_seq(s) =~= escape_seq(s.drop_last()) + escape_char(s.last()));
    }
}

// ---------------------------------------------------------------------------
// The grammar, as spec functions over a sequence of characters.
//
// Each function takes the document and the position it starts reading at and
// yields what it read together with the position just past it, or `None`
// where the document does not match the grammar. The executable parser below
// mirrors these functions one to one.
// ---------------------------------------------------------------------------

/// JSON insignificant whitespace.
pub open spec fn is_ws(c: char) -> bool {
    c == ' ' || c == '\n' || c == '\r' || c == '\t'
}

/// A decimal digit.
pub open spec fn is_digit(c: char) -> bool {
    '0' <= c && c <= '9'
}

/// The numeric value of a decimal digit.
pub open spec fn digit_val(c: char) -> u64 {
    ((c as u32) - ('0' as u32)) as u64
}

/// The numeric value of a hexadecimal digit, in either case.
pub open spec fn hex_val(c: char) -> Option<u32> {
    if '0' <= c && c <= '9' {
        Some(((c as u32) - ('0' as u32)) as u32)
    } else if 'a' <= c && c <= 'f' {
        Some(((c as u32) - ('a' as u32) + 10) as u32)
    } else if 'A' <= c && c <= 'F' {
        Some(((c as u32) - ('A' as u32) + 10) as u32)
    } else {
        None
    }
}

/// The position of the first non-whitespace character at or after `i`.
pub open spec fn spec_skip_ws(s: Seq<char>, i: int) -> int
    decreases s.len() - i,
{
    if 0 <= i < s.len() && is_ws(s[i]) {
        spec_skip_ws(s, i + 1)
    } else {
        i
    }
}

/// Skipping whitespace never moves backwards nor past the end.
pub proof fn lemma_skip_ws_bounds(s: Seq<char>, i: int)
    ensures
        0 <= i <= s.len() ==> i <= spec_skip_ws(s, i) <= s.len(),
    decreases s.len() - i,
{
    if 0 <= i < s.len() && is_ws(s[i]) {
        lemma_skip_ws_bounds(s, i + 1);
    }
}

/// The character a two-letter escape stands for, or `None` where the letter
/// is not one of the eight short escapes.
pub open spec fn simple_escape(e: char) -> Option<char> {
    if e == '"' {
        Some('"')
    } else if e == '\\' {
        Some('\\')
    } else if e == '/' {
        Some('/')
    } else if e == 'b' {
        Some('\u{8}')
    } else if e == 'f' {
        Some('\u{c}')
    } else if e == 'n' {
        Some('\n')
    } else if e == 'r' {
        Some('\r')
    } else if e == 't' {
        Some('\t')
    } else {
        None
    }
}

/// Four hexadecimal digits starting at `i`, as one number.
pub open spec fn spec_hex4(s: Seq<char>, i: int) -> Option<u32> {
    if 0 <= i && i + 4 <= s.len() {
        match (hex_val(s[i]), hex_val(s[i + 1]), hex_val(s[i + 2]), hex_val(s[i + 3])) {
            (Some(a), Some(b), Some(c), Some(d)) => Some(
                (a * 0x1000 + b * 0x100 + c * 0x10 + d) as u32,
            ),
            _ => None,
        }
    } else {
        None
    }
}

/// Whether a code from a `\u` escape is by itself a Unicode scalar value.
/// The escape gives at most four digits, so only the surrogate range is
/// ruled out; a high surrogate may still pair with a following low one.
pub open spec fn scalar_ok(code: u32) -> bool {
    code < 0xD800 || 0xE000 <= code
}

/// The scalar value a surrogate pair stands for: an astral code point.
pub open spec fn surrogate_scalar(hi: u32, lo: u32) -> u32
    recommends
        0xD800 <= hi < 0xDC00,
        0xDC00 <= lo < 0xE000,
{
    (0x10000 + (hi - 0xD800) * 0x400 + (lo - 0xDC00)) as u32
}

/// The body of a string, read from just after the opening quote to just
/// after the closing one. Unescaped control characters are not accepted.
pub open spec fn spec_string_body(s: Seq<char>, i: int) -> Option<(Seq<char>, int)>
    decreases s.len() - i,
{
    if !(0 <= i < s.len()) {
        None
    } else if s[i] == '"' {
        Some((Seq::empty(), i + 1))
    } else if s[i] == '\\' {
        if !(i + 1 < s.len()) {
            None
        } else if s[i + 1] == 'u' {
            if i + 6 <= s.len() {
                match spec_hex4(s, i + 2) {
                    Some(code) => if scalar_ok(code) {
                        match spec_string_body(s, i + 6) {
                            Some((rest, j)) => Some((seq![code as char] + rest, j)),
                            None => None,
                        }
                    } else if code < 0xDC00 {
                        // a high surrogate: only a following low one completes it
                        if i + 12 <= s.len() && s[i + 6] == '\\' && s[i + 7] == 'u' {
                            match spec_hex4(s, i + 8) {
                                Some(lo) => if 0xDC00 <= lo < 0xE000 {
                                    match spec_string_body(s, i + 12) {
                                        Some((rest, j)) => Some(
                                            (seq![surrogate_scalar(code, lo) as char] + rest, j),
                                        ),
                                        None => None,
                                    }
                                } else {
                                    None
                                },
                                None => None,
                            }
                        } else {
                            None
                        }
                    } else {
                        None
                    },
                    None => None,
                }
            } else {
                None
            }
        } else {
            match simple_escape(s[i + 1]) {
                Some(c) => match spec_string_body(s, i + 2) {
                    Some((rest, j)) => Some((seq![c] + rest, j)),
                    None => None,
                },
                None => None,
            }
        }
    } else if (s[i] as u32) < 0x20 {
        None
    } else {
        match spec_string_body(s, i + 1) {
            Some((rest, j)) => Some((seq![s[i]] + rest, j)),
            None => None,
        }
    }
}

/// A string body that is read ends past where it began, within the document.
pub proof fn lemma_string_body_advances(s: Seq<char>, i: int)
    ensures
        spec_string_body(s, i) is Some ==> i < (spec_string_body(s, i)->0).1 <= s.len(),
    decreases s.len() - i,
{
    if !(0 <= i < s.len()) {
    } else if s[i] == '"' {
    } else if s[i] == '\\' && i + 1 < s.len() && s[i + 1] == 'u' && i + 6 <= s.len() {
        lemma_string_body_advances(s, i + 6);
        if i + 12 <= s.len() {
            lemma_string_body_advances(s, i + 12);
        }
    } else if s[i] == '\\' && i + 1 < s.len() {
        lemma_string_body_advances(s, i + 2);
    } else if !((s[i] as u32) < 0x20) {
        lemma_string_body_advances(s, i + 1);
    }
}

/// A run of digits starting at `i`, folded onto `acc`; `None` where the
/// number does not fit in a `u64`.
pub open spec fn spec_digits(s: Seq<char>, i: int, acc: u64) -> Option<(u64, int)>
    decreases s.len() - i,
{
    if 0 <= i < s.len() && is_digit(s[i]) {
        if acc > (u64::MAX - digit_val(s[i])) / 10 {
            None
        } else {
            spec_digits(s, i + 1, (acc * 10 + digit_val(s[i])) as u64)
        }
    } else {
        Some((acc, i))
    }
}

/// The position of the first non-digit at or after `i`.
pub open spec fn spec_digits_end(s: Seq<char>, i: int) -> int
    decreases s.len() - i,
{
    if 0 <= i < s.len() && is_digit(s[i]) {
        spec_digits_end(s, i + 1)
    } else {
        i
    }
}

/// Scanning digits never moves backwards nor past the end.
pub proof fn lemma_digits_end_bounds(s: Seq<char>, i: int)
    ensures
        0 <= i <= s.len() ==> i <= spec_digits_end(s, i) <= s.len(),
    decreases s.len() - i,
{
    if 0 <= i < s.len() && is_digit(s[i]) {
        lemma_digits_end_bounds(s, i + 1);
    }
}

/// The end of an optional fraction part at `j`: `None` where a point is
/// not followed by a digit.
pub open spec fn spec_frac_end(s: Seq<char>, j: int) -> Option<int> {
    if 0 <= j < s.len() && s[j] == '.' {
        if j + 1 < s.len() && is_digit(s[j + 1]) {
            Some(spec_digits_end(s, j + 1))
        } else {
            None
        }
    } else {
        Some(j)
    }
}

/// The end of an optional exponent part at `j`: `None` where an exponent
/// letter is not followed by digits (after an optional sign).
pub open spec fn spec_exp_end(s: Seq<char>, j: int) -> Option<int> {
    if 0 <= j < s.len() && (s[j] == 'e' || s[j] == 'E') {
        let k = if j + 1 < s.len() && (s[j + 1] == '+' || s[j + 1] == '-') {
            j + 2
        } else {
            j + 1
        };
        if k < s.len() && is_digit(s[k]) {
            Some(spec_digits_end(s, k))
        } else {
            None
        }
    } else {
        Some(j)
    }
}

/// A number token: an optional minus, an integer part without a leading
/// zero, an optional fraction and an optional exponent. A token that is a
/// plain unsigned integer fitting 64 bits is read as its value; any other
/// well-formed token is kept as written.
pub open spec fn spec_number(s: Seq<char>, i: int) -> Option<(SpecJson, int)> {
    if !(0 <= i < s.len()) {
        None
    } else {
        let j0 = if s[i] == '-' {
            i + 1
        } else {
            i
        };
        if !(j0 < s.len() && is_digit(s[j0])) {
            None
        } else {
            let j1 = if s[j0] == '0' {
                j0 + 1
            } else {
                spec_digits_end(s, j0)
            };
            match spec_frac_end(s, j1) {
                None => None,
                Some(j2) => match spec_exp_end(s, j2) {
                    None => None,
                    Some(j3) => if s[i] != '-' && j1 == j3 {
                        if s[j0] == '0' {
                            Some((SpecJson::UInt(0), j1))
                        } else {
                            match spec_digits(s, j0, 0) {
                                Some((n, _end)) => Some((SpecJson::UInt(n), j1)),
                                None => Some((SpecJson::Number(s.subrange(i, j1)), j1)),
                            }
                        }
                    } else {
                        Some((SpecJson::Number(s.subrange(i, j3)), j3))
                    },
                },
            }
        }
    }
}

/// A number that is read ends past where it began, within the document.
pub proof fn lemma_number_advances(s: Seq<char>, i: int)
    ensures
        spec_number(s, i) is Some ==> i < (spec_number(s, i)->0).1 <= s.len(),
{
    if 0 <= i < s.len() {
        let j0 = if s[i] == '-' {
            i + 1
        } else {
            i
        };
        if j0 < s.len() && is_digit(s[j0]) {
            lemma_digits_end_bounds(s, j0 + 1);
            assert(spec_digits_end(s, j0) == spec_digits_end(s, j0 + 1));
            let j1 = if s[j0] == '0' {
                j0 + 1
            } else {
                spec_digits_end(s, j0)
            };
            if j1 < s.len() && s[j1] == '.' && j1 + 1 < s.len() && is_digit(s[j1 + 1]) {
                lemma_digits_end_bounds(s, j1 + 2);
                assert(spec_digits_end(s, j1 + 1) == spec_digits_end(s, j1 + 2));
            }
            match spec_frac_end(s, j1) {
                None => {},
                Some(j2) => {
                    if 0 <= j2 < s.len() && (s[j2] == 'e' || s[j2] == 'E') {
                        let k = if j2 + 1 < s.len() && (s[j2 + 1] == '+' || s[j2 + 1] == '-') {
                            j2 + 2
                        } else {
                            j2 + 1
                        };
                        if k < s.len() && is_digit(s[k]) {
                            lemma_digits_end_bounds(s, k + 1);
                            assert(spec_digits_end(s, k) == spec_digits_end(s, k + 1));
                        }
                    }
                },
            }
        }
    }
}

/// One JSON value starting exactly at `i`.
///
/// In this and the three functions below, a recursive call stands behind a
/// test of the position it is made at, so that each call visibly moves
/// forward; the advancement lemmas further down show that the tested bounds
/// in fact always hold of a position the grammar yields.
pub open spec fn spec_value(s: Seq<char>, i: int) -> Option<(SpecJson, int)>
    decreases s.len() - i, 0int,
{
    if !(0 <= i < s.len()) {
        None
    } else if s[i] == '{' {
        match spec_object_rest(s, i + 1) {
            Some((ms, j)) => Some((SpecJson::Obj(ms), j)),
            None => None,
        }
    } else if s[i] == '[' {
        match spec_array_rest(s, i + 1) {
            Some((es, j)) => Some((SpecJson::Arr(es), j)),
            None => None,
        }
    } else if s[i] == '"' {
        match spec_string_body(s, i + 1) {
            Some((cs, j)) => Some((SpecJson::Str(cs), j)),
            None => None,
        }
    } else if s[i] == 't' {
        if i + 4 <= s.len() && s[i + 1] == 'r' && s[i + 2] == 'u' && s[i + 3] == 'e' {
            Some((SpecJson::Bool(true), i + 4))
        } else {
            None
        }
    } else if s[i] == 'f' {
        if i + 5 <= s.len() && s[i + 1] == 'a' && s[i + 2] == 'l' && s[i + 3] == 's' && s[i + 4]
            == 'e' {
            Some((SpecJson::Bool(false), i + 5))
        } else {
            None
        }
    } else if s[i] == 'n' {
        if i + 4 <= s.len() && s[i + 1] == 'u' && s[i + 2] == 'l' && s[i + 3] == 'l' {
            Some((SpecJson::Null, i + 4))
        } else {
            None
        }
    } else if s[i] == '-' || is_digit(s[i]) {
        spec_number(s, i)
    } else {
        None
    }
}

/// What follows the `{` of an object: whitespace and `}`, or its members.
pub open spec fn spec_object_rest(s: Seq<char>, i: int) -> Option<
    (Seq<(Seq<char>, SpecJson)>, int),
>
    decreases s.len() - i, 3int,
{
    if !(0 <= i <= s.len()) {
        None
    } else {
        let j = spec_skip_ws(s, i);
        if j < s.len() && s[j] == '}' {
            Some((Seq::empty(), j + 1))
        } else if i <= j <= s.len() {
            spec_members(s, j)
        } else {
            None
        }
    }
}

/// One or more `key: value` pairs, read from the opening quote of the first
/// key to just after the closing `}` of the object.
pub open spec fn spec_members(s: Seq<char>, i: int) -> Option<(Seq<(Seq<char>, SpecJson)>, int)>
    decreases s.len() - i, 2int,
{
    if 0 <= i < s.len() && s[i] == '"' {
        match spec_string_body(s, i + 1) {
            Some((key, j)) => {
                let k = spec_skip_ws(s, j);
                if i < k < s.len() && s[k] == ':' {
                    let m = spec_skip_ws(s, k + 1);
                    if i < m <= s.len() {
                        match spec_value(s, m) {
                            Some((v, p)) => {
                                let q = spec_skip_ws(s, p);
                                if m < q < s.len() && s[q] == ',' {
                                    let t = spec_skip_ws(s, q + 1);
                                    if i < t <= s.len() {
                                        match spec_members(s, t) {
                                            Some((rest, e)) => Some((seq![(key, v)] + rest, e)),
                                            None => None,
                                        }
                                    } else {
                                        None
                                    }
                                } else if m < q < s.len() && s[q] == '}' {
                                    Some((seq![(key, v)], q + 1))
                                } else {
                                    None
                                }
                            },
                            None => None,
                        }
                    } else {
                        None
                    }
                } else {
                    None
                }
            },
            None => None,
        }
    } else {
        None
    }
}

/// What follows the `[` of an array: whitespace and `]`, or its elements.
pub open spec fn spec_array_rest(s: Seq<char>, i: int) -> Option<(Seq<SpecJson>, int)>
    decreases s.len() - i, 3int,
{
    if !(0 <= i <= s.len()) {
        None
    } else {
        let j = spec_skip_ws(s, i);
        if j < s.len() && s[j] == ']' {
            Some((Seq::empty(), j + 1))
        } else if i <= j <= s.len() {
            spec_elements(s, j)
        } else {
            None
        }
    }
}

/// One or more values, read from the first value to just after the closing
/// `]` of the array.
pub open spec fn spec_elements(s: Seq<char>, i: int) -> Option<(Seq<SpecJson>, int)>
    decreases s.len() - i, 2int,
{
    match spec_value(s, i) {
        Some((v, p)) => {
            let q = spec_skip_ws(s, p);
            if i < q < s.len() && s[q] == ',' {
                let t = spec_skip_ws(s, q + 1);
                if i < t <= s.len() {
                    match spec_elements(s, t) {
                        Some((rest, e)) => Some((seq![v] + rest, e)),
                        None => None,
                    }
                } else {
                    None
                }
            } else if i < q < s.len() && s[q] == ']' {
                Some((seq![v], q + 1))
            } else {
                None
            }
        },
        None => None,
    }
}

/// A value that is read ends past where it began, within the document.
pub proof fn lemma_value_advances(s: Seq<char>, i: int)
    ensures
        spec_value(s, i) is Some ==> i < (spec_value(s, i)->0).1 <= s.len(),
    decreases s.len() - i, 1int,
{
    if 0 <= i < s.len() {
        if s[i] == '{' {
            lemma_object_rest_advances(s, i + 1);
        } else if s[i] == '[' {
            lemma_array_rest_advances(s, i + 1);
        } else if s[i] == '"' {
            lemma_string_body_advances(s, i + 1);
        } else if s[i] == 't' || s[i] == 'f' || s[i] == 'n' {
        } else if s[i] == '-' || is_digit(s[i]) {
            lemma_number_advances(s, i);
        }
    }
}

/// An object rest that is read ends past the brace, within the document.
pub proof fn lemma_object_rest_advances(s: Seq<char>, i: int)
    ensures
        spec_object_rest(s, i) is Some ==> i <= (spec_object_rest(s, i)->0).1 <= s.len(),
    decreases s.len() - i, 3int,
{
    if 0 <= i <= s.len() {
        lemma_skip_ws_bounds(s, i);
        let j = spec_skip_ws(s, i);
        if j < s.len() && s[j] == '}' {
        } else {
            lemma_members_advances(s, j);
        }
    }
}

/// Members that are read end past where they began, within the document.
pub proof fn lemma_members_advances(s: Seq<char>, i: int)
    ensures
        spec_members(s, i) is Some ==> i < (spec_members(s, i)->0).1 <= s.len(),
    decreases s.len() - i, 2int,
{
    if 0 <= i < s.len() && s[i] == '"' {
        lemma_string_body_advances(s, i + 1);
        if spec_string_body(s, i + 1) is Some {
            let j = (spec_string_body(s, i + 1)->0).1;
            lemma_skip_ws_bounds(s, j);
            let k = spec_skip_ws(s, j);
            if i < k < s.len() && s[k] == ':' {
                let m = spec_skip_ws(s, k + 1);
                lemma_skip_ws_bounds(s, k + 1);
                if i < m <= s.len() {
                    lemma_value_advances(s, m);
                    if spec_value(s, m) is Some {
                        let p = (spec_value(s, m)->0).1;
                        lemma_skip_ws_bounds(s, p);
                        let q = spec_skip_ws(s, p);
                        if m < q < s.len() && s[q] == ',' {
                            let t = spec_skip_ws(s, q + 1);
                            lemma_skip_ws_bounds(s, q + 1);
                            if i < t <= s.len() {
                                lemma_members_advances(s, t);
                            }
                        }
                    }
                }
            }
        }
    }
}

/// An array rest that is read ends past the bracket, within the document.
pub proof fn lemma_array_rest_advances(s: Seq<char>, i: int)
    ensures
        spec_array_rest(s, i) is Some ==> i <= (spec_array_rest(s, i)->0).1 <= s.len(),
    decreases s.len() - i, 3int,
{
    if 0 <= i <= s.len() {
        lemma_skip_ws_bounds(s, i);
        let j = spec_skip_ws(s, i);
        if j < s.len() && s[j] == ']' {
        } else {
            lemma_elements_advances(s, j);
        }
    }
}

/// Elements that are read end past where they began, within the document.
pub proof fn lemma_elements_advances(s: Seq<char>, i: int)
    ensures
        spec_elements(s, i) is Some ==> i < (spec_elements(s, i)->0).1 <= s.len(),
    decreases s.len() - i, 2int,
{
    lemma_value_advances(s, i);
    if spec_value(s, i) is Some {
        let p = (spec_value(s, i)->0).1;
        lemma_skip_ws_bounds(s, p);
        let q = spec_skip_ws(s, p);
        if i < q < s.len() && s[q] == ',' {
            let t = spec_skip_ws(s, q + 1);
            lemma_skip_ws_bounds(s, q + 1);
            if i < t <= s.len() {
                lemma_elements_advances(s, t);
            }
        }
    }
}

/// A whole document: one value, possibly between whitespace, and nothing
/// after it.
pub open spec fn spec_document(s: Seq<char>) -> Option<SpecJson> {
    let i = spec_skip_ws(s, 0);
    match spec_value(s, i) {
        Some((v, j)) => if spec_skip_ws(s, j) == s.len() {
            Some(v)
        } else {
            None
        },
        None => None,
    }
}

// ---------------------------------------------------------------------------
// The executable parser: one function per grammar function above, each
// proved to read exactly what its spec-level twin describes.
// ---------------------------------------------------------------------------

/// Relies on `String: FromIterator<char>` of std: collecting characters
/// yields the string of exactly those characters, in order.
#[verifier::external_body]
pub(crate) fn string_from_chars(v: Vec<char>) -> (r: String)
    ensures
        r@ == v@,
{
    v.into_iter().collect()
}

/// Relies on `char::from_u32` of std: it returns the character of the given
/// code point whenever that code point is a Unicode scalar value, which the
/// caller must have checked.
#[verifier::external_body]
pub(crate) fn char_from_code(code: u32) -> (r: char)
    requires
        code < 0xD800 || (0xE000 <= code <= 0x10FFFF),
    ensures
        r == (code as char),
{
    match char::from_u32(code) {
        Some(c) => c,
        None => ' ',
    }
}

/// Whitespace test, executable side of [`is_ws`].
pub fn is_ws_of(c: char) -> (r: bool)
    ensures
        r == is_ws(c),
{
    c == ' ' || c == '\n' || c == '\r' || c == '\t'
}

/// Digit test, executable side of [`is_digit`].
pub fn is_digit_of(c: char) -> (r: bool)
    ensures
        r == is_digit(c),
{
    '0' <= c && c <= '9'
}

/// Digit value, executable side of [`digit_val`].
pub fn digit_val_of(c: char) -> (r: u64)
    requires
        is_digit(c),
    ensures
        r == digit_val(c),
{
    ((c as u32) - ('0' as u32)) as u64
}

/// Hexadecimal digit value, executable side of [`hex_val`].
pub fn hex_val_of(c: char) -> (r: Option<u32>)
    ensures
        r == hex_val(c),
{
    if '0' <= c && c <= '9' {
        Some((c as u32) - ('0' as u32))
    } else if 'a' <= c && c <= 'f' {
        Some((c as u32) - ('a' as u32) + 10)
    } else if 'A' <= c && c <= 'F' {
        Some((c as u32) - ('A' as u32) + 10)
    } else {
        None
    }
}

/// Escape letter lookup, executable side of [`simple_escape`].
pub fn simple_escape_of(e: char) -> (r: Option<char>)
    ensures
        r == simple_escape(e),
{
    if e == '"' {
        Some('"')
    } else if e == '\\' {
        Some('\\')
    } else if e == '/' {
        Some('/')
    } else if e == 'b' {
        Some('\u{8}')
    } else if e == 'f' {
        Some('\u{c}')
    } else if e == 'n' {
        Some('\n')
    } else if e == 'r' {
        Some('\r')
    } else if e == 't' {
        Some('\t')
    } else {
        None
    }
}

/// The position of the first non-whitespace character at or after `i`.
pub fn skip_ws(s: &Vec<char>, i: usize) -> (j: usize)
    requires
        i <= s@.len(),
    ensures
        j as int == spec_skip_ws(s@, i as int),
        i <= j <= s@.len(),
    decreases s@.len() - i,
{
    if i < s.len() && is_ws_of(s[i]) {
        skip_ws(s, i + 1)
    } else {
        i
    }
}

/// Four hexadecimal digits as one number, executable side of [`spec_hex4`].
pub fn hex4(s: &Vec<char>, i: usize) -> (r: Option<u32>)
    requires
        i + 4 <= s@.len(),
    ensures
        r == spec_hex4(s@, i as int),
{
    let n = s.len();
    assert(i + 4 <= n);
    let a = hex_val_of(s[i]);
    let b = hex_val_of(s[i + 1]);
    let c = hex_val_of(s[i + 2]);
    let d = hex_val_of(s[i + 3]);
    match (a, b, c, d) {
        (Some(a), Some(b), Some(c), Some(d)) => Some(a * 0x1000 + b * 0x100 + c * 0x10 + d),
        _ => None,
    }
}

/// The body of a string, executable side of [`spec_string_body`].
#[verifier::rlimit(60)]
pub fn parse_string_body(s: &Vec<char>, i: usize) -> (r: Option<(Vec<char>, usize)>)
    requires
        i <= s@.len(),
    ensures
        ({
            match (r, spec_string_body(s@, i as int)) {
                (Some((cs, j)), Some((sc, sj))) => cs@ == sc && j as int == sj && i < j <= s@.len(),
                (None, None) => true,
                _ => false,
            }
        }),
    decreases s@.len() - i,
{
    if i >= s.len() {
        return None;
    }
    let c = s[i];
    if c == '"' {
        Some((Vec::new(), i + 1))
    } else if c == '\\' {
        if !(i + 1 < s.len()) {
            None
        } else if s[i + 1] == 'u' {
            if s.len() - (i + 2) >= 4 {
                match hex4(s, i + 2) {
                    Some(code) => {
                        if code < 0xD800 || 0xE000 <= code {
                            let c2 = char_from_code(code);
                            match parse_string_body(s, i + 6) {
                                Some((mut rest, j)) => {
                                    rest.insert(0, c2);
                                    assert(rest@ =~= seq![code as char]
                                        + (spec_string_body(s@, i + 6)->0).0);
                                    Some((rest, j))
                                },
                                None => None,
                            }
                        } else if code < 0xDC00 {
                            // a high surrogate: only a following low one completes it
                            if s.len() - (i + 6) >= 6 && s[i + 6] == '\\' && s[i + 7] == 'u' {
                                match hex4(s, i + 8) {
                                    Some(lo) => {
                                        if 0xDC00 <= lo && lo < 0xE000 {
                                            let c2 = char_from_code(
                                                0x10000 + (code - 0xD800) * 0x400 + (lo - 0xDC00),
                                            );
                                            assert(c2 == (surrogate_scalar(code, lo) as char));
                                            match parse_string_body(s, i + 12) {
                                                Some((mut rest, j)) => {
                                                    rest.insert(0, c2);
                                                    assert(rest@ =~= seq![
                                                        surrogate_scalar(code, lo) as char,
                                                    ] + (spec_string_body(s@, i + 12)->0).0);
                                                    Some((rest, j))
                                                },
                                                None => None,
                                            }
                                        } else {
                                            None
                                        }
                                    },
                                    None => None,
                                }
                            } else {
                                None
                            }
                        } else {
                            None
                        }
                    },
                    None => None,
                }
            } else {
                None
            }
        } else {
            match simple_escape_of(s[i + 1]) {
                Some(c2) => match parse_string_body(s, i + 2) {
                    Some((mut rest, j)) => {
                        rest.insert(0, c2);
                        assert(rest@ =~= seq![c2] + (spec_string_body(s@, i + 2)->0).0);
                        Some((rest, j))
                    },
                    None => None,
                },
                None => None,
            }
        }
    } else if (c as u32) < 0x20 {
        None
    } else {
        match parse_string_body(s, i + 1) {
            Some((mut rest, j)) => {
                rest.insert(0, c);
                assert(rest@ =~= seq![c] + (spec_string_body(s@, i + 1)->0).0);
                Some((rest, j))
            },
            None => None,
        }
    }
}

/// A run of digits, executable side of [`spec_digits`].
pub fn parse_digits(s: &Vec<char>, i: usize, acc: u64) -> (r: Option<(u64, usize)>)
    requires
        i <= s@.len(),
    ensures
        ({
            match (r, spec_digits(s@, i as int, acc)) {
                (Some((n, j)), Some((sn, sj))) => n == sn && j as int == sj && i <= j <= s@.len(),
                (None, None) => true,
                _ => false,
            }
        }),
    decreases s@.len() - i,
{
    if i < s.len() && is_digit_of(s[i]) {
        let d = digit_val_of(s[i]);
        if acc > (u64::MAX - d) / 10 {
            None
        } else {
            parse_digits(s, i + 1, acc * 10 + d)
        }
    } else {
        Some((acc, i))
    }
}

/// The first non-digit position, executable side of [`spec_digits_end`].
pub fn digits_end(s: &Vec<char>, i: usize) -> (j: usize)
    requires
        i <= s@.len(),
    ensures
        j as int == spec_digits_end(s@, i as int),
        i <= j <= s@.len(),
    decreases s@.len() - i,
{
    if i < s.len() && is_digit_of(s[i]) {
        digits_end(s, i + 1)
    } else {
        i
    }
}

/// The characters from `i` to `j`, copied out.
fn copy_range(s: &Vec<char>, i: usize, j: usize) -> (r: Vec<char>)
    requires
        i <= j <= s@.len(),
    ensures
        r@ == s@.subrange(i as int, j as int),
{
    let mut out: Vec<char> = Vec::new();
    let mut k: usize = i;
    while k < j
        invariant
            i <= k <= j <= s@.len(),
            out@ == s@.subrange(i as int, k as int),
        decreases j - k,
    {
        out.push(s[k]);
        k = k + 1;
        assert(out@ =~= s@.subrange(i as int, k as int));
    }
    out
}

/// A number, executable side of [`spec_number`].
pub fn parse_number(s: &Vec<char>, i: usize) -> (r: Option<(Json, usize)>)
    requires
        i <= s@.len(),
    ensures
        ({
            match (r, spec_number(s@, i as int)) {
                (Some((v, j)), Some((sv, sj))) => v@ == sv && j as int == sj && i < j <= s@.len(),
                (None, None) => true,
                _ => false,
            }
        }),
{
    proof {
        lemma_number_advances(s@, i as int);
    }
    if i >= s.len() {
        return None;
    }
    let j0 = if s[i] == '-' {
        i + 1
    } else {
        i
    };
    if !(j0 < s.len() && is_digit_of(s[j0])) {
        return None;
    }
    let j1 = if s[j0] == '0' {
        j0 + 1
    } else {
        digits_end(s, j0)
    };
    let j2: usize;
    if j1 < s.len() && s[j1] == '.' {
        if j1 + 1 < s.len() && is_digit_of(s[j1 + 1]) {
            j2 = digits_end(s, j1 + 1);
        } else {
            return None;
        }
    } else {
        j2 = j1;
    }
    let j3: usize;
    if j2 < s.len() && (s[j2] == 'e' || s[j2] == 'E') {
        let k = if j2 + 1 < s.len() && (s[j2 + 1] == '+' || s[j2 + 1] == '-') {
            j2 + 2
        } else {
            j2 + 1
        };
        if k < s.len() && is_digit_of(s[k]) {
            j3 = digits_end(s, k);
        } else {
            return None;
        }
    } else {
        j3 = j2;
    }
    if s[i] != '-' && j1 == j3 {
        if s[j0] == '0' {
            Some((Json::UInt(0), j1))
        } else {
            match parse_digits(s, j0, 0) {
                Some((n, _end)) => Some((Json::UInt(n), j1)),
                None => Some((Json::Number(string_from_chars(copy_range(s, i, j1))), j1)),
            }
        }
    } else {
        Some((Json::Number(string_from_chars(copy_range(s, i, j3))), j3))
    }
}

/// One JSON value, executable side of [`spec_value`].
pub fn parse_value(s: &Vec<char>, i: usize) -> (r: Option<(Json, usize)>)
    requires
        i <= s@.len(),
    ensures
        ({
            match (r, spec_value(s@, i as int)) {
                (Some((v, j)), Some((sv, sj))) => v@ == sv && j as int == sj && i < j <= s@.len(),
                (None, None) => true,
                _ => false,
            }
        }),
    decreases s@.len() - i, 0int,
{
    proof {
        lemma_value_advances(s@, i as int);
    }
    if i >= s.len() {
        return None;
    }
    let c = s[i];
    if c == '{' {
        match parse_object_rest(s, i + 1) {
            Some((ms, j)) => Some((Json::Obj(ms), j)),
            None => None,
        }
    } else if c == '[' {
        match parse_array_rest(s, i + 1) {
            Some((es, j)) => Some((Json::Arr(es), j)),
            None => None,
        }
    } else if c == '"' {
        match parse_string_body(s, i + 1) {
            Some((cs, j)) => Some((Json::Str(string_from_chars(cs)), j)),
            None => None,
        }
    } else if c == 't' {
        if s.len() - i >= 4 && s[i + 1] == 'r' && s[i + 2] == 'u' && s[i + 3] == 'e' {
            Some((Json::Bool(true), i + 4))
        } else {
            None
        }
    } else if c == 'f' {
        if s.len() - i >= 5 && s[i + 1] == 'a' && s[i + 2] == 'l' && s[i + 3] == 's' && s[i + 4]
            == 'e' {
            Some((Json::Bool(false), i + 5))
        } else {
            None
        }
    } else if c == 'n' {
        if s.len() - i >= 4 && s[i + 1] == 'u' && s[i + 2] == 'l' && s[i + 3] == 'l' {
            Some((Json::Null, i + 4))
        } else {
            None
        }
    } else if c == '-' || is_digit_of(c) {
        parse_number(s, i)
    } else {
        None
    }
}

/// An object after its `{`, executable side of [`spec_object_rest`].
pub fn parse_object_rest(s: &Vec<char>, i: usize) -> (r: Option<(Vec<Member>, usize)>)
    requires
        i <= s@.len(),
    ensures
        ({
            match (r, spec_object_rest(s@, i as int)) {
                (Some((ms, j)), Some((sms, sj))) => view_members(ms@) == sms && j as int == sj && i
                    <= j <= s@.len(),
                (None, None) => true,
                _ => false,
            }
        }),
    decreases s@.len() - i, 3int,
{
    proof {
        lemma_object_rest_advances(s@, i as int);
    }
    let j = skip_ws(s, i);
    if j < s.len() && s[j] == '}' {
        assert(view_members(Seq::<Member>::empty()) =~= Seq::<(Seq<char>, SpecJson)>::empty());
        Some((Vec::new(), j + 1))
    } else {
        parse_members(s, j)
    }
}

/// Members of an object, executable side of [`spec_members`].
pub fn parse_members(s: &Vec<char>, i: usize) -> (r: Option<(Vec<Member>, usize)>)
    requires
        i <= s@.len(),
    ensures
        ({
            match (r, spec_members(s@, i as int)) {
                (Some((ms, j)), Some((sms, sj))) => view_members(ms@) == sms && j as int == sj && i
                    < j <= s@.len(),
                (None, None) => true,
                _ => false,
            }
        }),
    decreases s@.len() - i, 2int,
{
    proof {
        lemma_members_advances(s@, i as int);
    }
    if !(i < s.len() && s[i] == '"') {
        return None;
    }
    match parse_string_body(s, i + 1) {
        Some((key, j)) => {
            let k = skip_ws(s, j);
            if i < k && k < s.len() && s[k] == ':' {
                let m = skip_ws(s, k + 1);
                if i < m {
                    match parse_value(s, m) {
                        Some((v, p)) => {
                            let q = skip_ws(s, p);
                            let member = Member { key: string_from_chars(key), value: v };
                            if m < q && q < s.len() && s[q] == ',' {
                                let t = skip_ws(s, q + 1);
                                if i < t {
                                    match parse_members(s, t) {
                                        Some((mut rest, e)) => {
                                            let ghost rest0 = rest@;
                                            rest.insert(0, member);
                                            proof {
                                                assert(rest@.drop_first() =~= rest0);
                                                assert(rest@[0] == member);
                                                lemma_view_members_cons(rest@);
                                                assert(view_members(rest@) =~= seq![
                                                    (member.key@, view_json(member.value)),
                                                ] + view_members(rest0));
                                            }
                                            Some((rest, e))
                                        },
                                        None => None,
                                    }
                                } else {
                                    None
                                }
                            } else if m < q && q < s.len() && s[q] == '}' {
                                let mut ms: Vec<Member> = Vec::new();
                                ms.push(member);
                                proof {
                                    lemma_view_members_cons(ms@);
                                    assert(view_members(ms@.drop_first()) =~= Seq::<
                                        (Seq<char>, SpecJson),
                                    >::empty());
                                }
                                Some((ms, q + 1))
                            } else {
                                None
                            }
                        },
                        None => None,
                    }
                } else {
                    None
                }
            } else {
                None
            }
        },
        None => None,
    }
}

/// An array after its `[`, executable side of [`spec_array_rest`].
pub fn parse_array_rest(s: &Vec<char>, i: usize) -> (r: Option<(Vec<Json>, usize)>)
    requires
        i <= s@.len(),
    ensures
        ({
            match (r, spec_array_rest(s@, i as int)) {
                (Some((es, j)), Some((ses, sj))) => view_arr(es@) == ses && j as int == sj && i <= j
                    <= s@.len(),
                (None, None) => true,
                _ => false,
            }
        }),
    decreases s@.len() - i, 3int,
{
    proof {
        lemma_array_rest_advances(s@, i as int);
    }
    let j = skip_ws(s, i);
    if j < s.len() && s[j] == ']' {
        assert(view_arr(Seq::<Json>::empty()) =~= Seq::<SpecJson>::empty());
        Some((Vec::new(), j + 1))
    } else {
        parse_elements(s, j)
    }
}

/// Elements of an array, executable side of [`spec_elements`].
pub fn parse_elements(s: &Vec<char>, i: usize) -> (r: Option<(Vec<Json>, usize)>)
    requires
        i <= s@.len(),
    ensures
        ({
            match (r, spec_elements(s@, i as int)) {
                (Some((es, j)), Some((ses, sj))) => view_arr(es@) == ses && j as int == sj && i < j
                    <= s@.len(),
                (None, None) => true,
                _ => false,
            }
        }),
    decreases s@.len() - i, 2int,
{
    proof {
        lemma_elements_advances(s@, i as int);
    }
    match parse_value(s, i) {
        Some((v, p)) => {
            let q = skip_ws(s, p);
            if i < q && q < s.len() && s[q] == ',' {
                let t = skip_ws(s, q + 1);
                if i < t {
                    match parse_elements(s, t) {
                        Some((mut rest, e)) => {
                            let ghost rest0 = rest@;
                            rest.insert(0, v);
                            proof {
                                assert(rest@.drop_first() =~= rest0);
                                assert(rest@[0] == v);
                                lemma_view_arr_cons(rest@);
                                assert(view_arr(rest@) =~= seq![view_json(v)] + view_arr(rest0));
                            }
                            Some((rest, e))
                        },
                        None => None,
                    }
                } else {
                    None
                }
            } else if i < q && q < s.len() && s[q] == ']' {
                let mut es: Vec<Json> = Vec::new();
                es.push(v);
                proof {
                    lemma_view_arr_cons(es@);
                    assert(view_arr(es@.drop_first()) =~= Seq::<SpecJson>::empty());
                }
                Some((es, q + 1))
            } else {
                None
            }
        },
        None => None,
    }
}

/// The view of a non-empty member list, split at its head.
proof fn lemma_view_members_cons(ms: Seq<Member>)
    requires
        ms.len() > 0,
    ensures
        view_members(ms) == seq![(ms[0].key@, view_json(ms[0].value))] + view_members(
            ms.drop_first(),
        ),
{
}

/// The view of a non-empty element list, split at its head.
proof fn lemma_view_arr_cons(elems: Seq<Json>)
    requires
        elems.len() > 0,
    ensures
        view_arr(elems) == seq![view_json(elems[0])] + view_arr(elems.drop_first()),
{
}

/// A whole document, executable side of [`spec_document`].
pub fn parse_document(s: &Vec<char>) -> (r: Option<Json>)
    ensures
        ({
            match (r, spec_document(s@)) {
                (Some(v), Some(sv)) => v@ == sv,
                (None, None) => true,
                _ => false,
            }
        }),
{
    let i = skip_ws(s, 0);
    match parse_value(s, i) {
        Some((v, j)) => {
            let k = skip_ws(s, j);
            if k == s.len() {
                Some(v)
            } else {
                None
            }
        },
        None => None,
    }
}

/// The characters of a string, in order.
pub fn chars_of(s: &str) -> (r: Vec<char>)
    ensures
        r@ == s@,
{
    let n = s.unicode_len();
    let mut out: Vec<char> = Vec::new();
    let mut i: usize = 0;
    while i < n
        invariant
            n == s@.len(),
            i <= n,
            out@ == s@.subrange(0, i as int),
        decreases n - i,
    {
        out.push(s.get_char(i));
        i = i + 1;
        assert(out@ =~= s@.subrange(0, i as int));
    }
    assert(s@.subrange(0, n as int) =~= s@);
    out
}

/// A whole document, read from a string.
pub fn parse_text(text: &str) -> (r: Option<Json>)
    ensures
        ({
            match (r, spec_document(text@)) {
                (Some(v), Some(sv)) => v@ == sv,
                (None, None) => true,
                _ => false,
            }
        }),
{
    let cs = chars_of(text);
    parse_document(&cs)
}

// ---------------------------------------------------------------------------
// Reading typed values out of a parsed tree.
// ---------------------------------------------------------------------------

/// Whether two strings hold the same characters.
pub fn str_eq(a: &str, b: &str) -> (r: bool)
    ensures
        r == (a@ == b@),
{
    let na = a.unicode_len();
    let nb = b.unicode_len();
    if na != nb {
        return false;
    }
    let mut i: usize = 0;
    while i < na
        invariant
            na == a@.len(),
            nb == b@.len(),
            na == nb,
            i <= na,
            forall|k: int| 0 <= k < i ==> a@[k] == b@[k],
        decreases na - i,
    {
        if a.get_char(i) != b.get_char(i) {
            return false;
        }
        i = i + 1;
    }
    proof {
        assert(a@ =~= b@);
    }
    true
}

/// The value under the first member with the given key, or `None` where no
/// member carries it.
pub open spec fn spec_obj_get(ms: Seq<(Seq<char>, SpecJson)>, key: Seq<char>) -> Option<SpecJson>
    decreases ms.len(),
{
    if ms.len() == 0 {
        None
    } else if ms[0].0 == key {
        Some(ms[0].1)
    } else {
        spec_obj_get(ms.drop_first(), key)
    }
}

/// Looks a key up in an object's members, executable side of
/// [`spec_obj_get`].
pub fn obj_get<'a>(ms: &'a Vec<Member>, key: &str) -> (r: Option<&'a Json>)
    ensures
        ({
            match (r, spec_obj_get(view_members(ms@), key@)) {
                (Some(v), Some(sv)) => v@ == sv,
                (None, None) => true,
                _ => false,
            }
        }),
{
    proof {
        lemma_view_members(ms@);
        assert(view_members(ms@).skip(0) =~= view_members(ms@));
    }
    let n = ms.len();
    let mut idx: usize = 0;
    while idx < n
        invariant
            n == ms@.len(),
            idx <= n,
            view_members(ms@).len() == n,
            forall|k: int|
                0 <= k < n ==> view_members(ms@)[k] == (ms@[k].key@, view_json(ms@[k].value)),
            spec_obj_get(view_members(ms@), key@) == spec_obj_get(
                view_members(ms@).skip(idx as int),
                key@,
            ),
        decreases n - idx,
    {
        let hit = str_eq(ms[idx].key.as_str(), key);
        proof {
            assert(view_members(ms@).skip(idx as int).len() == n - idx);
            assert(view_members(ms@).skip(idx as int)[0] == view_members(ms@)[idx as int]);
        }
        if hit {
            return Some(&ms[idx].value);
        }
        idx = idx + 1;
        proof {
            assert(view_members(ms@).skip(idx - 1).drop_first() =~= view_members(ms@).skip(
                idx as int,
            ));
        }
    }
    proof {
        assert(view_members(ms@).skip(n as int) =~= Seq::<(Seq<char>, SpecJson)>::empty());
    }
    None
}

/// A string-valued member.
pub open spec fn spec_str_field(ms: Seq<(Seq<char>, SpecJson)>, key: Seq<char>) -> Option<
    Seq<char>,
> {
    match spec_obj_get(ms, key) {
        Some(SpecJson::Str(s)) => Some(s),
        _ => None,
    }
}

/// Reads a string-valued member, executable side of [`spec_str_field`].
pub fn str_field(ms: &Vec<Member>, key: &str) -> (r: Option<String>)
    ensures
        ({
            match (r, spec_str_field(view_members(ms@), key@)) {
                (Some(x), Some(sx)) => x@ == sx,
                (None, None) => true,
                _ => false,
            }
        }),
{
    match obj_get(ms, key) {
        Some(Json::Str(s)) => Some(s.clone()),
        _ => None,
    }
}

/// A member holding a count that fits in 64 bits.
pub open spec fn spec_u64_field(ms: Seq<(Seq<char>, SpecJson)>, key: Seq<char>) -> Option<u64> {
    match spec_obj_get(ms, key) {
        Some(SpecJson::UInt(n)) => Some(n),
        _ => None,
    }
}

/// Reads a 64-bit count, executable side of [`spec_u64_field`].
pub fn u64_field(ms: &Vec<Member>, key: &str) -> (r: Option<u64>)
    ensures
        r == spec_u64_field(view_members(ms@), key@),
{
    match obj_get(ms, key) {
        Some(Json::UInt(n)) => Some(*n),
        _ => None,
    }
}

/// A member holding a count that fits in 32 bits.
pub open spec fn spec_u32_field(ms: Seq<(Seq<char>, SpecJson)>, key: Seq<char>) -> Option<u32> {
    match spec_obj_get(ms, key) {
        Some(SpecJson::UInt(n)) => if n <= u32::MAX {
            Some(n as u32)
        } else {
            None
        },
        _ => None,
    }
}

/// Reads a 32-bit count, executable side of [`spec_u32_field`].
pub fn u32_field(ms: &Vec<Member>, key: &str) -> (r: Option<u32>)
    ensures
        r == spec_u32_field(view_members(ms@), key@),
{
    match obj_get(ms, key) {
        Some(Json::UInt(n)) => if *n <= u32::MAX as u64 {
            Some(*n as u32)
        } else {
            None
        },
        _ => None,
    }
}

/// A member holding a count that may be absent or `null`: the outer `None`
/// is a malformed member, `Some(None)` an absent one.
pub open spec fn spec_opt_u32_field(ms: Seq<(Seq<char>, SpecJson)>, key: Seq<char>) -> Option<
    Option<u32>,
> {
    match spec_obj_get(ms, key) {
        None => Some(None),
        Some(SpecJson::Null) => Some(None),
        Some(SpecJson::UInt(n)) => if n <= u32::MAX {
            Some(Some(n as u32))
        } else {
            None
        },
        Some(_) => None,
    }
}

/// Reads an optional 32-bit count, executable side of
/// [`spec_opt_u32_field`].
pub fn opt_u32_field(ms: &Vec<Member>, key: &str) -> (r: Option<Option<u32>>)
    ensures
        r == spec_opt_u32_field(view_members(ms@), key@),
{
    match obj_get(ms, key) {
        None => Some(None),
        Some(Json::Null) => Some(None),
        Some(Json::UInt(n)) => if *n <= u32::MAX as u64 {
            Some(Some(*n as u32))
        } else {
            None
        },
        Some(_) => None,
    }
}

/// An array-valued member.
pub open spec fn spec_arr_field(ms: Seq<(Seq<char>, SpecJson)>, key: Seq<char>) -> Option<
    Seq<SpecJson>,
> {
    match spec_obj_get(ms, key) {
        Some(SpecJson::Arr(es)) => Some(es),
        _ => None,
    }
}

/// Reads an array-valued member, executable side of [`spec_arr_field`].
pub fn arr_field<'a>(ms: &'a Vec<Member>, key: &str) -> (r: Option<&'a Vec<Json>>)
    ensures
        ({
            match (r, spec_arr_field(view_members(ms@), key@)) {
                (Some(es), Some(ses)) => view_arr(es@) == ses,
                (None, None) => true,
                _ => false,
            }
        }),
{
    match obj_get(ms, key) {
        Some(Json::Arr(es)) => Some(es),
        _ => None,
    }
}

/// An object-valued member.
pub open spec fn spec_sub_obj(ms: Seq<(Seq<char>, SpecJson)>, key: Seq<char>) -> Option<
    Seq<(Seq<char>, SpecJson)>,
> {
    match spec_obj_get(ms, key) {
        Some(SpecJson::Obj(sub)) => Some(sub),
        _ => None,
    }
}

/// Reads an object-valued member, executable side of [`spec_sub_obj`].
pub fn sub_obj<'a>(ms: &'a Vec<Member>, key: &str) -> (r: Option<&'a Vec<Member>>)
    ensures
        ({
            match (r, spec_sub_obj(view_members(ms@), key@)) {
                (Some(sub), Some(ssub)) => view_members(sub@) == ssub,
                (None, None) => true,
                _ => false,
            }
        }),
{
    match obj_get(ms, key) {
        Some(Json::Obj(sub)) => Some(sub),
        _ => None,
    }
}

} // verus!
