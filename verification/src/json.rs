//! A small JSON document model with a verified parser and renderer.
//!
//! The client-secret documents, the token-cache files and the request bodies
//! this crate builds are all JSON; this module owns that format.

use vstd::prelude::*;

verus! {

/// Executable JSON document: the shapes this crate reads and writes.
///
/// Numbers that are plain integers fitting `i64` are held as `Int`; any other
/// number form (fractions, exponents, out-of-range magnitudes) is carried
/// through verbatim as `NumText`.
pub enum JsonVal {
    Null,
    Bool(bool),
    Int(i64),
    NumText(String),
    Text(String),
    Arr(Vec<JsonVal>),
    Obj(Vec<(String, JsonVal)>),
}

/// Mathematical model of a JSON document, used in contracts.
pub enum JsonModel {
    Null,
    Bool(bool),
    Int(int),
    NumText(Seq<char>),
    Text(Seq<char>),
    Arr(Seq<JsonModel>),
    Obj(Seq<(Seq<char>, JsonModel)>),
}

pub open spec fn view_seq(s: Seq<JsonVal>) -> Seq<JsonModel>
    decreases s,
{
    if s.len() == 0 {
        Seq::empty()
    } else {
        view_seq(s.drop_last()).push(s.last()@)
    }
}

pub open spec fn view_members(s: Seq<(String, JsonVal)>) -> Seq<(Seq<char>, JsonModel)>
    decreases s,
{
    if s.len() == 0 {
        Seq::empty()
    } else {
        view_members(s.drop_last()).push((s.last().0@, s.last().1@))
    }
}

impl View for JsonVal {
    type V = JsonModel;

    open spec fn view(&self) -> JsonModel
        decreases self,
    {
        match self {
            JsonVal::Null => JsonModel::Null,
            JsonVal::Bool(b) => JsonModel::Bool(*b),
            JsonVal::Int(n) => JsonModel::Int(*n as int),
            JsonVal::NumText(t) => JsonModel::NumText(t@),
            JsonVal::Text(t) => JsonModel::Text(t@),
            JsonVal::Arr(items) => JsonModel::Arr(view_seq(items@)),
            JsonVal::Obj(members) => JsonModel::Obj(view_members(members@)),
        }
    }
}

// ---------------------------------------------------------------------------
// Character classes
// ---------------------------------------------------------------------------

pub open spec fn is_ws_char(c: char) -> bool {
    c == ' ' || c == '\n' || c == '\r' || c == '\t'
}

pub open spec fn is_digit_char(c: char) -> bool {
    '0' as u32 <= c as u32 <= '9' as u32
}

pub open spec fn digit_val(c: char) -> int {
    c as u32 - '0' as u32
}

pub open spec fn hex_val(c: char) -> Option<int> {
    if is_digit_char(c) {
        Some(digit_val(c))
    } else if 'a' as u32 <= c as u32 <= 'f' as u32 {
        Some(c as u32 - 'a' as u32 + 10)
    } else if 'A' as u32 <= c as u32 <= 'F' as u32 {
        Some(c as u32 - 'A' as u32 + 10)
    } else {
        None
    }
}

/// Number of consecutive whitespace characters starting at `i`.
pub open spec fn ws_len(s: Seq<char>, i: int) -> nat
    decreases s.len() - i,
{
    if 0 <= i < s.len() && is_ws_char(s[i]) {
        (1 + ws_len(s, i + 1)) as nat
    } else {
        0
    }
}

pub open spec fn valid_scalar(n: int) -> bool {
    (0 <= n < 0xD800) || (0xE000 <= n < 0x110000)
}

pub open spec fn char_of(n: int) -> char {
    choose|c: char| (#[trigger] (c as u32)) == n
}

/// The character a single-letter JSON escape stands for.
pub open spec fn esc_short(c: char) -> Option<char> {
    if c == '"' {
        Some('"')
    } else if c == '\\' {
        Some('\\')
    } else if c == '/' {
        Some('/')
    } else if c == 'b' {
        Some('\u{0008}')
    } else if c == 'f' {
        Some('\u{000C}')
    } else if c == 'n' {
        Some('\n')
    } else if c == 'r' {
        Some('\r')
    } else if c == 't' {
        Some('\t')
    } else {
        None
    }
}

// ---------------------------------------------------------------------------
// The parser, at the specification level.  Indexes are positions in the text;
// each function returns what it parsed and the position just after it.
// ---------------------------------------------------------------------------

/// Value of the four hex digits at `i`, if they are hex digits.
pub open spec fn hex4_val(s: Seq<char>, i: int) -> Option<int> {
    if 0 <= i && i + 4 <= s.len() {
        match (hex_val(s[i]), hex_val(s[i + 1]), hex_val(s[i + 2]), hex_val(s[i + 3])) {
            (Some(a), Some(b), Some(c), Some(d)) => Some(a * 0x1000 + b * 0x100 + c * 0x10 + d),
            _ => None,
        }
    } else {
        None
    }
}

/// Parse a string body starting at `i` (just after the opening quote);
/// the position returned is just after the closing quote.
pub open spec fn parse_string(s: Seq<char>, i: int) -> Option<(Seq<char>, int)>
    decreases s.len() - i,
{
    if i < 0 || i >= s.len() {
        None
    } else if s[i] == '"' {
        Some((Seq::empty(), i + 1))
    } else if s[i] == '\\' {
        if i + 1 >= s.len() {
            None
        } else if s[i + 1] == 'u' {
            match hex4_val(s, i + 2) {
                Some(code) => if valid_scalar(code) {
                    match parse_string(s, i + 6) {
                        Some((rest, j)) => Some((seq![char_of(code)] + rest, j)),
                        None => None,
                    }
                } else {
                    None
                },
                None => None,
            }
        } else {
            match esc_short(s[i + 1]) {
                Some(c) => match parse_string(s, i + 2) {
                    Some((rest, j)) => Some((seq![c] + rest, j)),
                    None => None,
                },
                None => None,
            }
        }
    } else if (s[i] as u32) < 0x20 {
        None
    } else {
        match parse_string(s, i + 1) {
            Some((rest, j)) => Some((seq![s[i]] + rest, j)),
            None => None,
        }
    }
}

/// First position at or after `i` holding a non-digit.
pub open spec fn digits_end(s: Seq<char>, i: int) -> int
    decreases s.len() - i,
{
    if 0 <= i < s.len() && is_digit_char(s[i]) {
        digits_end(s, i + 1)
    } else {
        i
    }
}

/// Numeric value of the digit run `s[i..j)`.
pub open spec fn digits_val(s: Seq<char>, i: int, j: int) -> int
    decreases j - i,
{
    if i < j {
        digits_val(s, i, j - 1) * 10 + digit_val(s[j - 1])
    } else {
        0
    }
}

pub open spec fn is_num_tail_char(c: char) -> bool {
    is_digit_char(c) || c == '.' || c == 'e' || c == 'E' || c == '+' || c == '-'
}

/// First position at or after `i` outside a number's character set.
pub open spec fn num_end(s: Seq<char>, i: int) -> int
    decreases s.len() - i,
{
    if 0 <= i < s.len() && is_num_tail_char(s[i]) {
        num_end(s, i + 1)
    } else {
        i
    }
}

pub open spec fn i64_range(n: int) -> bool {
    i64::MIN <= n <= i64::MAX
}

/// Parse a number starting at `i` (at its `-` or first digit).
pub open spec fn parse_number(s: Seq<char>, i: int) -> Option<(JsonModel, int)> {
    if !(0 <= i < s.len()) {
        None
    } else {
        let k = if s[i] == '-' { i + 1 } else { i };
        if !(k < s.len() && is_digit_char(s[k])) {
            None
        } else {
            let e = digits_end(s, k);
            if e < s.len() && (s[e] == '.' || s[e] == 'e' || s[e] == 'E') {
                Some((JsonModel::NumText(s.subrange(i, num_end(s, e))), num_end(s, e)))
            } else {
                let mag = digits_val(s, k, e);
                let n = if s[i] == '-' { -mag } else { mag };
                if i64_range(n) {
                    Some((JsonModel::Int(n), e))
                } else {
                    Some((JsonModel::NumText(s.subrange(i, e)), e))
                }
            }
        }
    }
}

/// True when `s[i..i+w.len())` is exactly `w`.
pub open spec fn has_word(s: Seq<char>, i: int, w: Seq<char>) -> bool {
    0 <= i && i + w.len() <= s.len() && s.subrange(i, i + w.len()) == w
}

pub open spec fn lit_null() -> Seq<char> {
    seq!['n', 'u', 'l', 'l']
}

pub open spec fn lit_true() -> Seq<char> {
    seq!['t', 'r', 'u', 'e']
}

pub open spec fn lit_false() -> Seq<char> {
    seq!['f', 'a', 'l', 's', 'e']
}

/// Parse one JSON value starting exactly at `i` (no leading whitespace).
pub open spec fn parse_value(s: Seq<char>, i: int) -> Option<(JsonModel, int)>
    decreases s.len() - i, 0int,
{
    if !(0 <= i < s.len()) {
        None
    } else if s[i] == 'n' {
        if has_word(s, i, lit_null()) {
            Some((JsonModel::Null, i + 4))
        } else {
            None
        }
    } else if s[i] == 't' {
        if has_word(s, i, lit_true()) {
            Some((JsonModel::Bool(true), i + 4))
        } else {
            None
        }
    } else if s[i] == 'f' {
        if has_word(s, i, lit_false()) {
            Some((JsonModel::Bool(false), i + 5))
        } else {
            None
        }
    } else if s[i] == '"' {
        match parse_string(s, i + 1) {
            Some((t, j)) => Some((JsonModel::Text(t), j)),
            None => None,
        }
    } else if s[i] == '-' || is_digit_char(s[i]) {
        parse_number(s, i)
    } else if s[i] == '[' {
        match parse_items(s, i + 1, true) {
            Some((items, j)) => Some((JsonModel::Arr(items), j)),
            None => None,
        }
    } else if s[i] == '{' {
        match parse_members(s, i + 1, true) {
            Some((members, j)) => Some((JsonModel::Obj(members), j)),
            None => None,
        }
    } else {
        None
    }
}

/// Parse the remainder of an array body: elements (preceded by a comma when
/// `first` is false) up to and including the closing bracket.
pub open spec fn parse_items(s: Seq<char>, i: int, first: bool) -> Option<(Seq<JsonModel>, int)>
    decreases s.len() - i, 2int,
{
    if i < 0 {
        None
    } else {
        let j = i + ws_len(s, i);
        if !(j < s.len()) {
            None
        } else if s[j] == ']' {
            if first {
                Some((Seq::empty(), j + 1))
            } else {
                None
            }
        } else {
            match parse_value(s, j) {
                Some((v, m)) => if j < m <= s.len() {
                    match parse_after_item(s, m) {
                        Some((rest, j2)) => Some((seq![v] + rest, j2)),
                        None => None,
                    }
                } else {
                    None
                },
                None => None,
            }
        }
    }
}

/// After an array element: either the closing bracket, or a comma and more
/// elements.
pub open spec fn parse_after_item(s: Seq<char>, i: int) -> Option<(Seq<JsonModel>, int)>
    decreases s.len() - i, 3int,
{
    if i < 0 {
        None
    } else {
        let j = i + ws_len(s, i);
        if !(j < s.len()) {
            None
        } else if s[j] == ']' {
            Some((Seq::empty(), j + 1))
        } else if s[j] == ',' {
            parse_items(s, j + 1, false)
        } else {
            None
        }
    }
}

/// Parse the remainder of an object body: `"key": value` members (preceded by
/// a comma when `first` is false) up to and including the closing brace.
pub open spec fn parse_members(s: Seq<char>, i: int, first: bool) -> Option<
    (Seq<(Seq<char>, JsonModel)>, int),
>
    decreases s.len() - i, 2int,
{
    if i < 0 {
        None
    } else {
        let j = i + ws_len(s, i);
        if !(j < s.len()) {
            None
        } else if s[j] == '}' {
            if first {
                Some((Seq::empty(), j + 1))
            } else {
                None
            }
        } else if s[j] != '"' {
            None
        } else {
            match parse_string(s, j + 1) {
                Some((key, m)) => if j < m <= s.len() {
                    let c = m + ws_len(s, m);
                    if c < s.len() && s[c] == ':' && c + 1 + ws_len(s, c + 1) <= s.len() {
                        let vstart = c + 1 + ws_len(s, c + 1);
                        match parse_value(s, vstart) {
                            Some((v, m2)) => if c < m2 <= s.len() {
                                match parse_after_member(s, m2) {
                                    Some((rest, j2)) => Some((seq![(key, v)] + rest, j2)),
                                    None => None,
                                }
                            } else {
                                None
                            },
                            None => None,
                        }
                    } else {
                        None
                    }
                } else {
                    None
                },
                None => None,
            }
        }
    }
}

/// After an object member: either the closing brace, or a comma and more
/// members.
pub open spec fn parse_after_member(s: Seq<char>, i: int) -> Option<
    (Seq<(Seq<char>, JsonModel)>, int),
>
    decreases s.len() - i, 3int,
{
    if i < 0 {
        None
    } else {
        let j = i + ws_len(s, i);
        if !(j < s.len()) {
            None
        } else if s[j] == '}' {
            Some((Seq::empty(), j + 1))
        } else if s[j] == ',' {
            parse_members(s, j + 1, false)
        } else {
            None
        }
    }
}

/// Parse a whole document: one value, possibly surrounded by whitespace.
pub open spec fn json_parse(s: Seq<char>) -> Option<JsonModel> {
    let i = ws_len(s, 0) as int;
    match parse_value(s, i) {
        Some((v, j)) => if j + ws_len(s, j) == s.len() {
            Some(v)
        } else {
            None
        },
        None => None,
    }
}

// ---------------------------------------------------------------------------
// The renderer, at the specification level.
// ---------------------------------------------------------------------------

/// The character for one decimal digit value.
pub open spec fn digit_char(d: int) -> char {
    if d == 0 {
        '0'
    } else if d == 1 {
        '1'
    } else if d == 2 {
        '2'
    } else if d == 3 {
        '3'
    } else if d == 4 {
        '4'
    } else if d == 5 {
        '5'
    } else if d == 6 {
        '6'
    } else if d == 7 {
        '7'
    } else if d == 8 {
        '8'
    } else {
        '9'
    }
}

/// The lower-case character for one hex digit value.
pub open spec fn hex_char(d: int) -> char {
    if d < 10 {
        digit_char(d)
    } else if d == 10 {
        'a'
    } else if d == 11 {
        'b'
    } else if d == 12 {
        'c'
    } else if d == 13 {
        'd'
    } else if d == 14 {
        'e'
    } else {
        'f'
    }
}

/// How one character is written inside a JSON string.
pub open spec fn esc_seq(c: char) -> Seq<char> {
    if c == '"' {
        seq!['\\', '"']
    } else if c == '\\' {
        seq!['\\', '\\']
    } else if (c as u32) < 0x20 {
        seq!['\\', 'u', '0', '0', hex_char(c as u32 as int / 16), hex_char(c as u32 as int % 16)]
    } else {
        seq![c]
    }
}

/// A string body, escaped (without the surrounding quotes).
pub open spec fn render_text(s: Seq<char>) -> Seq<char>
    decreases s.len(),
{
    if s.len() == 0 {
        Seq::empty()
    } else {
        esc_seq(s[0]) + render_text(s.drop_first())
    }
}

/// Decimal digits of a non-negative integer.
pub open spec fn render_nat(n: int) -> Seq<char>
    decreases n,
{
    if n < 10 {
        seq![digit_char(n)]
    } else {
        render_nat(n / 10).push(digit_char(n % 10))
    }
}

pub open spec fn render_int(n: int) -> Seq<char> {
    if n < 0 {
        seq!['-'] + render_nat(-n)
    } else {
        render_nat(n)
    }
}

/// Compact rendering of a JSON document.
pub open spec fn render(v: JsonModel) -> Seq<char>
    decreases v, 0int,
{
    match v {
        JsonModel::Null => lit_null(),
        JsonModel::Bool(b) => if b {
            lit_true()
        } else {
            lit_false()
        },
        JsonModel::Int(n) => render_int(n),
        JsonModel::NumText(t) => t,
        JsonModel::Text(t) => seq!['"'] + render_text(t) + seq!['"'],
        JsonModel::Arr(items) => seq!['['] + render_items(items) + seq![']'],
        JsonModel::Obj(members) => seq!['{'] + render_members(members) + seq!['}'],
    }
}

pub open spec fn render_items(items: Seq<JsonModel>) -> Seq<char>
    decreases items, 1int,
{
    if items.len() == 0 {
        Seq::empty()
    } else if items.len() == 1 {
        render(items[0])
    } else {
        render(items[0]) + seq![','] + render_items(items.drop_first())
    }
}

pub open spec fn render_members(members: Seq<(Seq<char>, JsonModel)>) -> Seq<char>
    decreases members, 1int,
{
    if members.len() == 0 {
        Seq::empty()
    } else {
        let head = seq!['"'] + render_text(members[0].0) + seq!['"', ':'] + render(
            members[0].1,
        );
        if members.len() == 1 {
            head
        } else {
            head + seq![','] + render_members(members.drop_first())
        }
    }
}

} // verus!



verus! {

// ---------------------------------------------------------------------------
// Small verified text utilities shared across the crate.
// ---------------------------------------------------------------------------

pub proof fn lemma_char_of(c: char)
    ensures
        char_of(c as u32 as int) == c,
{
}

/// Relies on char::from_u32: `Some` exactly for valid Unicode scalar values,
/// and the returned character has the given value.
#[verifier::external_body]
pub(crate) fn char_from_u32(n: u32) -> (r: Option<char>)
    ensures
        r is Some <==> valid_scalar(n as int),
        r matches Some(c) ==> c as u32 == n,
{
    char::from_u32(n)
}

/// Relies on String::push: appends one character.
#[verifier::external_body]
fn push_char(s: &mut String, c: char)
    ensures
        final(s)@ == old(s)@.push(c),
{
    s.push(c)
}

/// The characters of a string, as a vector.
pub fn chars_vec(s: &str) -> (r: Vec<char>)
    ensures
        r@ == s@,
{
    let n: usize = s.unicode_len();
    let mut out: Vec<char> = Vec::new();
    let mut i: usize = 0;
    while i < n
        invariant
            n == s@.len(),
            i <= n,
            out@ == s@.subrange(0, i as int),
        decreases n - i,
    {
        let c = s.get_char(i);
        out.push(c);
        i = i + 1;
        proof {
            assert(out@ =~= s@.subrange(0, i as int));
        }
    }
    proof {
        assert(s@.subrange(0, n as int) =~= s@);
    }
    out
}

/// A string holding exactly the given characters.
pub fn string_of_chars(v: &Vec<char>) -> (r: String)
    ensures
        r@ == v@,
{
    let mut out = String::new();
    let mut i: usize = 0;
    while i < v.len()
        invariant
            i <= v@.len(),
            out@ == v@.subrange(0, i as int),
        decreases v@.len() - i,
    {
        push_char(&mut out, v[i]);
        i = i + 1;
        proof {
            assert(out@ =~= v@.subrange(0, i as int));
        }
    }
    proof {
        assert(v@.subrange(0, v@.len() as int) =~= v@);
    }
    out
}

// ---------------------------------------------------------------------------
// The executable parser.  Each function is proved to return exactly what its
// specification-level counterpart describes.
// ---------------------------------------------------------------------------

/// Index just after the whitespace run starting at `i`.
fn skip_ws_idx(s: &Vec<char>, i: usize) -> (j: usize)
    requires
        i <= s@.len(),
    ensures
        j as int == i + ws_len(s@, i as int),
        i <= j <= s@.len(),
{
    let mut j: usize = i;
    while j < s.len() && (s[j] == ' ' || s[j] == '\n' || s[j] == '\r' || s[j] == '\t')
        invariant
            i <= j <= s@.len(),
            i + ws_len(s@, i as int) == j + ws_len(s@, j as int),
        decreases s@.len() - j,
    {
        j = j + 1;
    }
    j
}

fn hex_val_x(c: char) -> (r: Option<u32>)
    ensures
        match r {
            Some(v) => hex_val(c) == Some(v as int) && v < 16,
            None => hex_val(c) is None,
        },
{
    let n = c as u32;
    if '0' as u32 <= n && n <= '9' as u32 {
        Some(n - '0' as u32)
    } else if 'a' as u32 <= n && n <= 'f' as u32 {
        Some(n - 'a' as u32 + 10)
    } else if 'A' as u32 <= n && n <= 'F' as u32 {
        Some(n - 'A' as u32 + 10)
    } else {
        None
    }
}

/// Parse a string body, `i` standing just after the opening quote.
fn parse_string_x(s: &Vec<char>, i: usize) -> (r: Option<(Vec<char>, usize)>)
    requires
        i <= s@.len(),
    ensures
        match r {
            None => parse_string(s@, i as int) is None,
            Some((t, j)) => parse_string(s@, i as int) == Some((t@, j as int)) && i < j
                <= s@.len(),
        },
    decreases s@.len() - i,
{
    if i >= s.len() {
        None
    } else if s[i] == '"' {
        Some((Vec::new(), i + 1))
    } else if s[i] == '\\' {
        if i + 1 >= s.len() {
            None
        } else if s[i + 1] == 'u' {
            if s.len() - i < 6 {
                None
            } else {
                let h0 = hex_val_x(s[i + 2]);
                let h1 = hex_val_x(s[i + 3]);
                let h2 = hex_val_x(s[i + 4]);
                let h3 = hex_val_x(s[i + 5]);
                match (h0, h1, h2, h3) {
                    (Some(a), Some(b), Some(c), Some(d)) => {
                        let code: u32 = a * 0x1000 + b * 0x100 + c * 0x10 + d;
                        match char_from_u32(code) {
                            Some(ch) => {
                                proof {
                                    lemma_char_of(ch);
                                }
                                match parse_string_x(s, i + 6) {
                                    Some((rest, j)) => {
                                        let mut rest = rest;
                                        let ghost prior = rest@;
                                        rest.insert(0, ch);
                                        proof {
                                            assert(rest@ =~= seq![char_of(code as int)] + prior);
                                        }
                                        Some((rest, j))
                                    },
                                    None => None,
                                }
                            },
                            None => None,
                        }
                    },
                    _ => None,
                }
            }
        } else {
            let e = s[i + 1];
            let esc: Option<char> = if e == '"' {
                Some('"')
            } else if e == '\\' {
                Some('\\')
            } else if e == '/' {
                Some('/')
            } else if e == 'b' {
                Some('\u{0008}')
            } else if e == 'f' {
                Some('\u{000C}')
            } else if e == 'n' {
                Some('\n')
            } else if e == 'r' {
                Some('\r')
            } else if e == 't' {
                Some('\t')
            } else {
                None
            };
            match esc {
                Some(c) => match parse_string_x(s, i + 2) {
                    Some((rest, j)) => {
                        let mut rest = rest;
                        let ghost prior = rest@;
                        rest.insert(0, c);
                        proof {
                            assert(rest@ =~= seq![c] + prior);
                        }
                        Some((rest, j))
                    },
                    None => None,
                },
                None => None,
            }
        }
    } else if (s[i] as u32) < 0x20 {
        None
    } else {
        match parse_string_x(s, i + 1) {
            Some((rest, j)) => {
                let mut rest = rest;
                let c = s[i];
                let ghost prior = rest@;
                rest.insert(0, c);
                proof {
                    assert(rest@ =~= seq![s@[i as int]] + prior);
                }
                Some((rest, j))
            },
            None => None,
        }
    }
}

fn digits_end_x(s: &Vec<char>, i: usize) -> (e: usize)
    requires
        i <= s@.len(),
    ensures
        e as int == digits_end(s@, i as int),
        i <= e <= s@.len(),
        i < s@.len() && is_digit_char(s@[i as int]) ==> e > i,
{
    let mut e: usize = i;
    while e < s.len() && '0' as u32 <= s[e] as u32 && s[e] as u32 <= '9' as u32
        invariant
            i <= e <= s@.len(),
            digits_end(s@, i as int) == digits_end(s@, e as int),
        decreases s@.len() - e,
    {
        e = e + 1;
    }
    e
}

fn num_end_x(s: &Vec<char>, i: usize) -> (e: usize)
    requires
        i <= s@.len(),
    ensures
        e as int == num_end(s@, i as int),
        i <= e <= s@.len(),
{
    let mut e: usize = i;
    while e < s.len() && (('0' as u32 <= s[e] as u32 && s[e] as u32 <= '9' as u32) || s[e] == '.'
        || s[e] == 'e' || s[e] == 'E' || s[e] == '+' || s[e] == '-')
        invariant
            i <= e <= s@.len(),
            num_end(s@, i as int) == num_end(s@, e as int),
        decreases s@.len() - e,
    {
        e = e + 1;
    }
    e
}

proof fn lemma_digits_val_nonneg(s: Seq<char>, i: int, j: int)
    requires
        forall|m: int| i <= m < j ==> is_digit_char(s[m]),
    ensures
        digits_val(s, i, j) >= 0,
    decreases j - i,
{
    if i < j {
        lemma_digits_val_nonneg(s, i, j - 1);
    }
}

proof fn lemma_digits_val_mono(s: Seq<char>, i: int, j: int, j2: int)
    requires
        i <= j <= j2,
        forall|m: int| i <= m < j2 ==> is_digit_char(s[m]),
    ensures
        digits_val(s, i, j2) >= digits_val(s, i, j),
    decreases j2 - j,
{
    if j < j2 {
        lemma_digits_val_mono(s, i, j, j2 - 1);
        lemma_digits_val_nonneg(s, i, j2 - 1);
    }
}

proof fn lemma_digits_end_digits(s: Seq<char>, i: int, m: int)
    requires
        0 <= i <= m < digits_end(s, i),
    ensures
        is_digit_char(s[m]),
    decreases m - i,
{
    if i < m {
        lemma_digits_end_digits(s, i + 1, m);
    }
}

/// Numeric value of the digit run `s[k..e)`, when it fits a `u64`.
fn digits_val_x(s: &Vec<char>, k: usize, e: usize) -> (r: Option<u64>)
    requires
        k <= e <= s@.len(),
        forall|m: int| k <= m < e ==> is_digit_char(s@[m]),
    ensures
        match r {
            Some(a) => a as int == digits_val(s@, k as int, e as int),
            None => digits_val(s@, k as int, e as int) > u64::MAX,
        },
{
    let mut m: usize = k;
    let mut acc: u64 = 0;
    let mut overflowed: bool = false;
    while m < e
        invariant
            k <= m <= e <= s@.len(),
            forall|q: int| k <= q < e ==> is_digit_char(s@[q]),
            !overflowed ==> acc as int == digits_val(s@, k as int, m as int),
            overflowed ==> digits_val(s@, k as int, m as int) > u64::MAX,
        decreases e - m,
    {
        let d: u64 = (s[m] as u32 - '0' as u32) as u64;
        if !overflowed {
            match acc.checked_mul(10) {
                Some(t) => match t.checked_add(d) {
                    Some(t2) => {
                        acc = t2;
                    },
                    None => {
                        overflowed = true;
                    },
                },
                None => {
                    overflowed = true;
                },
            }
        }
        proof {
            lemma_digits_val_nonneg(s@, k as int, m as int);
        }
        m = m + 1;
    }
    if overflowed {
        None
    } else {
        Some(acc)
    }
}

/// Copy of `s[a..b)`.
pub fn subrange_vec(s: &Vec<char>, a: usize, b: usize) -> (r: Vec<char>)
    requires
        a <= b <= s@.len(),
    ensures
        r@ == s@.subrange(a as int, b as int),
{
    let mut out: Vec<char> = Vec::new();
    let mut m: usize = a;
    while m < b
        invariant
            a <= m <= b <= s@.len(),
            out@ == s@.subrange(a as int, m as int),
        decreases b - m,
    {
        out.push(s[m]);
        m = m + 1;
        proof {
            assert(out@ =~= s@.subrange(a as int, m as int));
        }
    }
    out
}

/// Parse a number starting at `i`.
fn parse_number_x(s: &Vec<char>, i: usize) -> (r: Option<(JsonVal, usize)>)
    requires
        i < s@.len(),
    ensures
        match r {
            None => parse_number(s@, i as int) is None,
            Some((v, j)) => parse_number(s@, i as int) == Some((v@, j as int)) && i < j
                <= s@.len(),
        },
{
    let slen = s.len();
    let neg = s[i] == '-';
    let k: usize = if neg {
        i + 1
    } else {
        i
    };
    if !(k < s.len() && '0' as u32 <= s[k] as u32 && s[k] as u32 <= '9' as u32) {
        None
    } else {
        let e = digits_end_x(s, k);
        proof {
            assert forall|m: int| k <= m < e implies is_digit_char(s@[m]) by {
                lemma_digits_end_digits(s@, k as int, m);
            }
        }
        if e < s.len() && (s[e] == '.' || s[e] == 'e' || s[e] == 'E') {
            let ne = num_end_x(s, e);
            let t = subrange_vec(s, i, ne);
            let txt = string_of_chars(&t);
            Some((JsonVal::NumText(txt), ne))
        } else {
            let mag = digits_val_x(s, k, e);
            match mag {
                Some(a) => {
                    if neg {
                        if a <= 0x8000_0000_0000_0000u64 {
                            let n: i64 = if a == 0x8000_0000_0000_0000u64 {
                                i64::MIN
                            } else {
                                -(a as i64)
                            };
                            Some((JsonVal::Int(n), e))
                        } else {
                            let t = subrange_vec(s, i, e);
                            let txt = string_of_chars(&t);
                            Some((JsonVal::NumText(txt), e))
                        }
                    } else {
                        if a <= i64::MAX as u64 {
                            Some((JsonVal::Int(a as i64), e))
                        } else {
                            let t = subrange_vec(s, i, e);
                            let txt = string_of_chars(&t);
                            Some((JsonVal::NumText(txt), e))
                        }
                    }
                },
                None => {
                    proof {
                        lemma_digits_val_mono(s@, k as int, k as int, e as int);
                    }
                    let t = subrange_vec(s, i, e);
                    let txt = string_of_chars(&t);
                    Some((JsonVal::NumText(txt), e))
                },
            }
        }
    }
}

/// Whether the four characters at `i` are exactly `w0 w1 w2 w3`.
fn word4_at(s: &Vec<char>, i: usize, w0: char, w1: char, w2: char, w3: char) -> (r: bool)
    requires
        i < s@.len(),
    ensures
        r == has_word(s@, i as int, seq![w0, w1, w2, w3]),
{
    if s.len() - i >= 4 {
        let m = s[i] == w0 && s[i + 1] == w1 && s[i + 2] == w2 && s[i + 3] == w3;
        proof {
            let w = seq![w0, w1, w2, w3];
            let sub = s@.subrange(i as int, i as int + 4);
            if m {
                assert(sub =~= w);
            } else {
                assert(sub[0] == s@[i as int] && sub[1] == s@[i as int + 1] && sub[2] == s@[
                    i as int + 2
                ] && sub[3] == s@[i as int + 3]);
            }
        }
        m
    } else {
        false
    }
}

/// Whether the five characters at `i` are exactly `w0 w1 w2 w3 w4`.
fn word5_at(s: &Vec<char>, i: usize, w0: char, w1: char, w2: char, w3: char, w4: char) -> (r:
    bool)
    requires
        i < s@.len(),
    ensures
        r == has_word(s@, i as int, seq![w0, w1, w2, w3, w4]),
{
    if s.len() - i >= 5 {
        let m = s[i] == w0 && s[i + 1] == w1 && s[i + 2] == w2 && s[i + 3] == w3 && s[i + 4]
            == w4;
        proof {
            let w = seq![w0, w1, w2, w3, w4];
            let sub = s@.subrange(i as int, i as int + 5);
            if m {
                assert(sub =~= w);
            } else {
                assert(sub[0] == s@[i as int] && sub[1] == s@[i as int + 1] && sub[2] == s@[
                    i as int + 2
                ] && sub[3] == s@[i as int + 3] && sub[4] == s@[i as int + 4]);
            }
        }
        m
    } else {
        false
    }
}

pub proof fn lemma_view_seq(s: Seq<JsonVal>)
    ensures
        view_seq(s).len() == s.len(),
        forall|i: int| 0 <= i < s.len() ==> view_seq(s)[i] == s[i]@,
    decreases s,
{
    if s.len() > 0 {
        lemma_view_seq(s.drop_last());
        assert(view_seq(s) == view_seq(s.drop_last()).push(s.last()@));
        assert forall|i: int| 0 <= i < s.len() implies view_seq(s)[i] == s[i]@ by {
            let d = s.drop_last();
            assert(view_seq(s) == view_seq(d).push(s.last()@));
            if i < s.len() - 1 {
                assert(view_seq(d).push(s.last()@)[i] == view_seq(d)[i]);
                assert(view_seq(d)[i] == d[i]@);
                assert(d[i] == s[i]);
            } else {
                assert(view_seq(d).push(s.last()@)[i] == s.last()@);
                assert(s.last() == s[i]);
            }
        }
    }
}

pub proof fn lemma_view_members(s: Seq<(String, JsonVal)>)
    ensures
        view_members(s).len() == s.len(),
        forall|i: int|
            0 <= i < s.len() ==> view_members(s)[i] == (s[i].0@, s[i].1@),
    decreases s,
{
    if s.len() > 0 {
        lemma_view_members(s.drop_last());
        assert(view_members(s) == view_members(s.drop_last()).push((s.last().0@, s.last().1@)));
        assert forall|i: int|
            0 <= i < s.len() implies view_members(s)[i] == (s[i].0@, s[i].1@) by {
            let d = s.drop_last();
            assert(view_members(s) == view_members(d).push((s.last().0@, s.last().1@)));
            if i < s.len() - 1 {
                assert(view_members(d).push((s.last().0@, s.last().1@))[i] == view_members(d)[i]);
                assert(view_members(d)[i] == (d[i].0@, d[i].1@));
                assert(d[i] == s[i]);
            } else {
                assert(view_members(d).push((s.last().0@, s.last().1@))[i] == (s.last().0@, s.last().1@));
                assert(s.last() == s[i]);
            }
        }
    }
}

/// Parse one JSON value starting exactly at `i`.
fn parse_value_x(s: &Vec<char>, i: usize) -> (r: Option<(JsonVal, usize)>)
    requires
        i <= s@.len(),
    ensures
        match r {
            None => parse_value(s@, i as int) is None,
            Some((v, j)) => parse_value(s@, i as int) == Some((v@, j as int)) && i < j
                <= s@.len(),
        },
    decreases s@.len() - i, 0int,
{
    if i >= s.len() {
        None
    } else if s[i] == 'n' {
        if word4_at(s, i, 'n', 'u', 'l', 'l') {
            Some((JsonVal::Null, i + 4))
        } else {
            None
        }
    } else if s[i] == 't' {
        if word4_at(s, i, 't', 'r', 'u', 'e') {
            Some((JsonVal::Bool(true), i + 4))
        } else {
            None
        }
    } else if s[i] == 'f' {
        if word5_at(s, i, 'f', 'a', 'l', 's', 'e') {
            Some((JsonVal::Bool(false), i + 5))
        } else {
            None
        }
    } else if s[i] == '"' {
        match parse_string_x(s, i + 1) {
            Some((t, j)) => {
                let txt = string_of_chars(&t);
                Some((JsonVal::Text(txt), j))
            },
            None => None,
        }
    } else if s[i] == '-' || ('0' as u32 <= s[i] as u32 && s[i] as u32 <= '9' as u32) {
        parse_number_x(s, i)
    } else if s[i] == '[' {
        match parse_items_x(s, i + 1, true) {
            Some((items, j)) => Some((JsonVal::Arr(items), j)),
            None => None,
        }
    } else if s[i] == '{' {
        match parse_members_x(s, i + 1, true) {
            Some((members, j)) => Some((JsonVal::Obj(members), j)),
            None => None,
        }
    } else {
        None
    }
}

/// Parse an array body from `i` (just after `[` or a comma).
fn parse_items_x(s: &Vec<char>, i: usize, first: bool) -> (r: Option<(Vec<JsonVal>, usize)>)
    requires
        i <= s@.len(),
    ensures
        match r {
            None => parse_items(s@, i as int, first) is None,
            Some((items, j)) => parse_items(s@, i as int, first) == Some(
                (view_seq(items@), j as int),
            ) && i < j <= s@.len(),
        },
    decreases s@.len() - i, 2int,
{
    let j = skip_ws_idx(s, i);
    if j >= s.len() {
        None
    } else if s[j] == ']' {
        if first {
            proof {
                assert(view_seq(Seq::<JsonVal>::empty()) =~= Seq::<JsonModel>::empty());
            }
            Some((Vec::new(), j + 1))
        } else {
            None
        }
    } else {
        match parse_value_x(s, j) {
            Some((v, m)) => {
                match parse_after_item_x(s, m) {
                    Some((rest, j2)) => {
                        let mut rest = rest;
                        let ghost prior = rest@;
                        rest.insert(0, v);
                        proof {
                            lemma_view_seq(rest@);
                            lemma_view_seq(prior);
                            assert(rest@ =~= seq![v] + prior);
                            assert(view_seq(rest@) =~= seq![v@] + view_seq(prior));
                        }
                        Some((rest, j2))
                    },
                    None => None,
                }
            },
            None => None,
        }
    }
}

/// After an array element: the closing bracket or a comma and more elements.
fn parse_after_item_x(s: &Vec<char>, i: usize) -> (r: Option<(Vec<JsonVal>, usize)>)
    requires
        i <= s@.len(),
    ensures
        match r {
            None => parse_after_item(s@, i as int) is None,
            Some((items, j)) => parse_after_item(s@, i as int) == Some(
                (view_seq(items@), j as int),
            ) && i < j <= s@.len(),
        },
    decreases s@.len() - i, 3int,
{
    let j = skip_ws_idx(s, i);
    if j >= s.len() {
        None
    } else if s[j] == ']' {
        proof {
            assert(view_seq(Seq::<JsonVal>::empty()) =~= Seq::<JsonModel>::empty());
        }
        Some((Vec::new(), j + 1))
    } else if s[j] == ',' {
        parse_items_x(s, j + 1, false)
    } else {
        None
    }
}

/// Parse an object body from `i` (just after `{` or a comma).
fn parse_members_x(s: &Vec<char>, i: usize, first: bool) -> (r: Option<
    (Vec<(String, JsonVal)>, usize),
>)
    requires
        i <= s@.len(),
    ensures
        match r {
            None => parse_members(s@, i as int, first) is None,
            Some((members, j)) => parse_members(s@, i as int, first) == Some(
                (view_members(members@), j as int),
            ) && i < j <= s@.len(),
        },
    decreases s@.len() - i, 2int,
{
    let j = skip_ws_idx(s, i);
    if j >= s.len() {
        None
    } else if s[j] == '}' {
        if first {
            proof {
                assert(view_members(Seq::<(String, JsonVal)>::empty())
                    =~= Seq::<(Seq<char>, JsonModel)>::empty());
            }
            Some((Vec::new(), j + 1))
        } else {
            None
        }
    } else {
        if !(s[j] == '"') {
            None
        } else {
            match parse_string_x(s, j + 1) {
                Some((key, m)) => {
                    let c = skip_ws_idx(s, m);
                    if c < s.len() && s[c] == ':' {
                        let vstart = skip_ws_idx(s, c + 1);
                        match parse_value_x(s, vstart) {
                            Some((v, m2)) => {
                                match parse_after_member_x(s, m2) {
                                    Some((rest, j2)) => {
                                        let keytxt = string_of_chars(&key);
                                        let mut rest = rest;
                                        let ghost prior = rest@;
                                        rest.insert(0, (keytxt, v));
                                        proof {
                                            lemma_view_members(rest@);
                                            lemma_view_members(prior);
                                            assert(rest@ =~= seq![(keytxt, v)] + prior);
                                            assert(view_members(rest@) =~= seq![
                                                (keytxt@, v@),
                                            ] + view_members(prior));
                                        }
                                        Some((rest, j2))
                                    },
                                    None => None,
                                }
                            },
                            None => None,
                        }
                    } else {
                        None
                    }
                },
                None => None,
            }
        }
    }
}

/// After an object member: the closing brace or a comma and more members.
fn parse_after_member_x(s: &Vec<char>, i: usize) -> (r: Option<
    (Vec<(String, JsonVal)>, usize),
>)
    requires
        i <= s@.len(),
    ensures
        match r {
            None => parse_after_member(s@, i as int) is None,
            Some((members, j)) => parse_after_member(s@, i as int) == Some(
                (view_members(members@), j as int),
            ) && i < j <= s@.len(),
        },
    decreases s@.len() - i, 3int,
{
    let j = skip_ws_idx(s, i);
    if j >= s.len() {
        None
    } else if s[j] == '}' {
        proof {
            assert(view_members(Seq::<(String, JsonVal)>::empty())
                =~= Seq::<(Seq<char>, JsonModel)>::empty());
        }
        Some((Vec::new(), j + 1))
    } else if s[j] == ',' {
        parse_members_x(s, j + 1, false)
    } else {
        None
    }
}

// ---------------------------------------------------------------------------
// The executable renderer.
// ---------------------------------------------------------------------------

proof fn lemma_render_text_push(a: Seq<char>, c: char)
    ensures
        render_text(a.push(c)) == render_text(a) + esc_seq(c),
    decreases a.len(),
{
    if a.len() == 0 {
        assert(a.push(c).drop_first() =~= a);
        assert(render_text(a.push(c)) =~= render_text(a) + esc_seq(c));
    } else {
        lemma_render_text_push(a.drop_first(), c);
        assert(a.push(c).drop_first() =~= a.drop_first().push(c));
        assert(render_text(a.push(c)) =~= render_text(a) + esc_seq(c));
    }
}

fn digit_char_x(d: u64) -> (r: char)
    requires
        d < 10,
    ensures
        r == digit_char(d as int),
{
    if d == 0 {
        '0'
    } else if d == 1 {
        '1'
    } else if d == 2 {
        '2'
    } else if d == 3 {
        '3'
    } else if d == 4 {
        '4'
    } else if d == 5 {
        '5'
    } else if d == 6 {
        '6'
    } else if d == 7 {
        '7'
    } else if d == 8 {
        '8'
    } else {
        '9'
    }
}

fn hex_char_x(d: u32) -> (r: char)
    requires
        d < 16,
    ensures
        r == hex_char(d as int),
{
    if d < 10 {
        digit_char_x(d as u64)
    } else if d == 10 {
        'a'
    } else if d == 11 {
        'b'
    } else if d == 12 {
        'c'
    } else if d == 13 {
        'd'
    } else if d == 14 {
        'e'
    } else {
        'f'
    }
}

/// Write one string character, escaped as JSON asks.
fn esc_onto(c: char, out: &mut Vec<char>)
    ensures
        final(out)@ == old(out)@ + esc_seq(c),
{
    if c == '"' {
        out.push('\\');
        out.push('"');
    } else if c == '\\' {
        out.push('\\');
        out.push('\\');
    } else if (c as u32) < 0x20 {
        out.push('\\');
        out.push('u');
        out.push('0');
        out.push('0');
        out.push(hex_char_x(c as u32 / 16));
        out.push(hex_char_x(c as u32 % 16));
    } else {
        out.push(c);
    }
    proof {
        assert(out@ =~= old(out)@ + esc_seq(c));
    }
}

/// Write a string body, escaped (no surrounding quotes).
fn render_text_onto(t: &String, out: &mut Vec<char>)
    ensures
        final(out)@ == old(out)@ + render_text(t@),
{
    let cv = chars_vec(t.as_str());
    let mut i: usize = 0;
    while i < cv.len()
        invariant
            i <= cv@.len(),
            cv@ == t@,
            out@ == old(out)@ + render_text(t@.subrange(0, i as int)),
        decreases cv@.len() - i,
    {
        esc_onto(cv[i], out);
        i = i + 1;
        proof {
            let a = t@.subrange(0, i as int - 1);
            assert(t@.subrange(0, i as int) =~= a.push(t@[i as int - 1]));
            lemma_render_text_push(a, t@[i as int - 1]);
            assert(out@ =~= old(out)@ + render_text(t@.subrange(0, i as int)));
        }
    }
    proof {
        assert(t@.subrange(0, t@.len() as int) =~= t@);
    }
}

/// Write every character of `t`.
fn push_all(t: &Vec<char>, out: &mut Vec<char>)
    ensures
        final(out)@ == old(out)@ + t@,
{
    let mut i: usize = 0;
    while i < t.len()
        invariant
            i <= t@.len(),
            out@ == old(out)@ + t@.subrange(0, i as int),
        decreases t@.len() - i,
    {
        out.push(t[i]);
        i = i + 1;
        proof {
            assert(out@ =~= old(out)@ + t@.subrange(0, i as int));
        }
    }
    proof {
        assert(t@.subrange(0, t@.len() as int) =~= t@);
    }
}

/// Write the decimal digits of `n`.
fn render_nat_onto(n: u64, out: &mut Vec<char>)
    ensures
        final(out)@ == old(out)@ + render_nat(n as int),
    decreases n,
{
    if n < 10 {
        out.push(digit_char_x(n));
        proof {
            assert(out@ =~= old(out)@ + render_nat(n as int));
        }
    } else {
        render_nat_onto(n / 10, out);
        out.push(digit_char_x(n % 10));
        proof {
            assert(out@ =~= old(out)@ + render_nat(n as int));
        }
    }
}

/// Write a signed integer in decimal.
fn render_int_onto(n: i64, out: &mut Vec<char>)
    ensures
        final(out)@ == old(out)@ + render_int(n as int),
{
    if n < 0 {
        out.push('-');
        let m: u64 = ((-(n + 1)) as u64) + 1;
        proof {
            assert(m as int == -(n as int));
        }
        render_nat_onto(m, out);
        proof {
            assert(out@ =~= old(out)@ + render_int(n as int));
        }
    } else {
        render_nat_onto(n as u64, out);
    }
}

/// Write the compact rendering of `v`.
fn render_onto(v: &JsonVal, out: &mut Vec<char>)
    ensures
        final(out)@ == old(out)@ + render(v@),
    decreases v, 0int, 0int,
{
    match v {
        JsonVal::Null => {
            out.push('n');
            out.push('u');
            out.push('l');
            out.push('l');
            proof {
                assert(out@ =~= old(out)@ + lit_null());
            }
        },
        JsonVal::Bool(b) => {
            if *b {
                out.push('t');
                out.push('r');
                out.push('u');
                out.push('e');
                proof {
                    assert(out@ =~= old(out)@ + lit_true());
                }
            } else {
                out.push('f');
                out.push('a');
                out.push('l');
                out.push('s');
                out.push('e');
                proof {
                    assert(out@ =~= old(out)@ + lit_false());
                }
            }
        },
        JsonVal::Int(n) => {
            render_int_onto(*n, out);
        },
        JsonVal::NumText(t) => {
            let cv = chars_vec(t.as_str());
            push_all(&cv, out);
        },
        JsonVal::Text(t) => {
            out.push('"');
            render_text_onto(t, out);
            out.push('"');
            proof {
                assert(out@ =~= old(out)@ + (seq!['"'] + render_text(t@) + seq!['"']));
            }
        },
        JsonVal::Arr(items) => {
            out.push('[');
            render_items_onto(items, 0, out);
            out.push(']');
            proof {
                lemma_view_seq(items@);
                assert(view_seq(items@).skip(0) =~= view_seq(items@));
                assert(out@ =~= old(out)@ + (seq!['['] + render_items(view_seq(items@))
                    + seq![']']));
            }
        },
        JsonVal::Obj(members) => {
            out.push('{');
            render_members_onto(members, 0, out);
            out.push('}');
            proof {
                lemma_view_members(members@);
                assert(view_members(members@).skip(0) =~= view_members(members@));
                assert(out@ =~= old(out)@ + (seq!['{'] + render_members(view_members(members@))
                    + seq!['}']));
            }
        },
    }
}

/// Write the elements of `items` from `idx` on, comma-separated.
fn render_items_onto(items: &Vec<JsonVal>, idx: usize, out: &mut Vec<char>)
    requires
        idx <= items@.len(),
    ensures
        final(out)@ == old(out)@ + render_items(view_seq(items@).skip(idx as int)),
    decreases items, 1int, items@.len() - idx,
{
    proof {
        lemma_view_seq(items@);
    }
    if idx < items.len() {
        render_onto(&items[idx], out);
        if idx + 1 < items.len() {
            out.push(',');
            let ghost mid = out@;
            render_items_onto(items, idx + 1, out);
            proof {
                let vs = view_seq(items@);
                assert(vs.skip(idx as int).drop_first() =~= vs.skip(idx as int + 1));
                assert(vs.skip(idx as int)[0] == items@[idx as int]@);
                assert(out@ =~= old(out)@ + render_items(vs.skip(idx as int)));
            }
        } else {
            proof {
                let vs = view_seq(items@);
                assert(vs.skip(idx as int).len() == 1);
                assert(vs.skip(idx as int)[0] == items@[idx as int]@);
                assert(out@ =~= old(out)@ + render_items(vs.skip(idx as int)));
            }
        }
    } else {
        proof {
            assert(view_seq(items@).skip(idx as int).len() == 0);
            assert(out@ =~= old(out)@ + render_items(view_seq(items@).skip(idx as int)));
        }
    }
}

/// Write the members of `members` from `idx` on, comma-separated.
fn render_members_onto(members: &Vec<(String, JsonVal)>, idx: usize, out: &mut Vec<char>)
    requires
        idx <= members@.len(),
    ensures
        final(out)@ == old(out)@ + render_members(view_members(members@).skip(idx as int)),
    decreases members, 1int, members@.len() - idx,
{
    proof {
        lemma_view_members(members@);
    }
    if idx < members.len() {
        out.push('"');
        render_text_onto(&members[idx].0, out);
        out.push('"');
        out.push(':');
        render_onto(&members[idx].1, out);
        let ghost head_done = out@;
        proof {
            let vm = view_members(members@);
            assert(vm.skip(idx as int)[0] == (members@[idx as int].0@, members@[idx as int].1@));
            assert(head_done =~= old(out)@ + (seq!['"'] + render_text(
                members@[idx as int].0@,
            ) + seq!['"', ':'] + render(members@[idx as int].1@)));
        }
        if idx + 1 < members.len() {
            out.push(',');
            render_members_onto(members, idx + 1, out);
            proof {
                let vm = view_members(members@);
                assert(vm.skip(idx as int).drop_first() =~= vm.skip(idx as int + 1));
                assert(out@ =~= old(out)@ + render_members(vm.skip(idx as int)));
            }
        } else {
            proof {
                let vm = view_members(members@);
                assert(vm.skip(idx as int).len() == 1);
                assert(out@ =~= old(out)@ + render_members(vm.skip(idx as int)));
            }
        }
    } else {
        proof {
            assert(view_members(members@).skip(idx as int).len() == 0);
            assert(out@ =~= old(out)@ + render_members(view_members(members@).skip(idx as int)));
        }
    }
}

/// Render a document as compact JSON text.
pub fn render_json(v: &JsonVal) -> (r: String)
    ensures
        r@ == render(v@),
{
    let mut out: Vec<char> = Vec::new();
    render_onto(v, &mut out);
    string_of_chars(&out)
}

/// Parse a whole JSON document.
pub fn parse_json(text: &str) -> (r: Option<JsonVal>)
    ensures
        match r {
            None => json_parse(text@) is None,
            Some(v) => json_parse(text@) == Some(v@),
        },
{
    let s = chars_vec(text);
    let i = skip_ws_idx(&s, 0);
    match parse_value_x(&s, i) {
        Some((v, j)) => {
            let j2 = skip_ws_idx(&s, j);
            if j2 == s.len() {
                Some(v)
            } else {
                None
            }
        },
        None => None,
    }
}

} // verus!

verus! {

// ---------------------------------------------------------------------------
// Reading parsed documents.
// ---------------------------------------------------------------------------

/// Value bound to `key` in an object member list (first match).
pub open spec fn obj_lookup(members: Seq<(Seq<char>, JsonModel)>, key: Seq<char>) -> Option<
    JsonModel,
>
    decreases members.len(),
{
    if members.len() == 0 {
        None
    } else if members[0].0 == key {
        Some(members[0].1)
    } else {
        obj_lookup(members.drop_first(), key)
    }
}

/// Member lookup on a document: `None` when `v` is not an object or lacks the key.
pub open spec fn json_get(v: JsonModel, key: Seq<char>) -> Option<JsonModel> {
    match v {
        JsonModel::Obj(members) => obj_lookup(members, key),
        _ => None,
    }
}

/// The member bound to `key`, when `v` is an object that has one.
pub fn get_member<'a>(v: &'a JsonVal, key: &str) -> (r: Option<&'a JsonVal>)
    ensures
        match r {
            Some(u) => json_get(v@, key@) == Some(u@),
            None => json_get(v@, key@) is None,
        },
{
    match v {
        JsonVal::Obj(members) => {
            proof {
                lemma_view_members(members@);
                assert(v@ == JsonModel::Obj(view_members(members@)));
            }
            let key_string = String::from_str(key);
            let ghost vm = view_members(members@);
            proof {
                assert(vm.skip(0) =~= vm);
            }
            let mut i: usize = 0;
            while i < members.len()
                invariant
                    i <= members@.len(),
                    vm == view_members(members@),
                    v@ == JsonModel::Obj(vm),
                    vm.len() == members@.len(),
                    forall|q: int| 0 <= q < members@.len() ==> vm[q] == (
                        members@[q].0@,
                        members@[q].1@,
                    ),
                    key_string@ == key@,
                    obj_lookup(vm, key@) == obj_lookup(vm.skip(i as int), key@),
                decreases members@.len() - i,
            {
                proof {
                    assert(vm.skip(i as int).len() == vm.len() - i);
                    assert(vm.skip(i as int)[0] == (members@[i as int].0@, members@[i as int].1@));
                }
                if members[i].0.eq(&key_string) {
                    proof {
                        assert(obj_lookup(vm.skip(i as int), key@) == Some(
                            vm.skip(i as int)[0].1,
                        ));
                        assert(json_get(v@, key@) == obj_lookup(vm, key@));
                    }
                    return Some(&members[i].1);
                }
                proof {
                    assert(vm.skip(i as int)[0].0 != key@);
                    assert(obj_lookup(vm.skip(i as int), key@) == obj_lookup(
                        vm.skip(i as int).drop_first(),
                        key@,
                    ));
                    assert(vm.skip(i as int).drop_first() =~= vm.skip(i as int + 1));
                }
                i = i + 1;
            }
            proof {
                assert(vm.skip(i as int).len() == 0);
            }
            None
        },
        _ => None,
    }
}

/// The text of a JSON string value.
pub fn as_text<'a>(v: &'a JsonVal) -> (r: Option<&'a String>)
    ensures
        match r {
            Some(t) => v@ == JsonModel::Text(t@),
            None => !(v@ is Text),
        },
{
    match v {
        JsonVal::Text(t) => Some(t),
        _ => None,
    }
}

/// The value of a JSON integer.
pub fn as_int(v: &JsonVal) -> (r: Option<i64>)
    ensures
        match r {
            Some(n) => v@ == JsonModel::Int(n as int),
            None => !(v@ is Int),
        },
{
    match v {
        JsonVal::Int(n) => Some(*n),
        _ => None,
    }
}

/// The elements of a JSON array.
pub fn as_array<'a>(v: &'a JsonVal) -> (r: Option<&'a Vec<JsonVal>>)
    ensures
        match r {
            Some(items) => v@ == JsonModel::Arr(view_seq(items@)),
            None => !(v@ is Arr),
        },
{
    match v {
        JsonVal::Arr(items) => Some(items),
        _ => None,
    }
}

} // verus!

verus! {

// ---------------------------------------------------------------------------
// Plain decimal integers, outside any document.
// ---------------------------------------------------------------------------

proof fn lemma_digits_val_congruent(a: Seq<char>, b: Seq<char>, i: int, j: int)
    requires
        0 <= i,
        j <= a.len(),
        j <= b.len(),
        forall|q: int| i <= q < j ==> a[q] == b[q],
    ensures
        digits_val(a, i, j) == digits_val(b, i, j),
    decreases j - i,
{
    if i < j {
        lemma_digits_val_congruent(a, b, i, j - 1);
        assert(a[j - 1] == b[j - 1]);
    }
}

/// The value of a decimal run is a matter of its window alone.
pub proof fn lemma_digits_val_window(s: Seq<char>, i: int, j: int)
    requires
        0 <= i <= j <= s.len(),
    ensures
        digits_val(s, i, j) == digits_val(s.subrange(i, j), 0, j - i),
    decreases j - i,
{
    if i < j {
        lemma_digits_val_window(s, i, j - 1);
        let a = s.subrange(i, j - 1);
        let b = s.subrange(i, j);
        assert(a =~= b.subrange(0, j - 1 - i));
        lemma_digits_val_congruent(a, b, 0, j - 1 - i);
    }
}

/// Only decimal digits.
pub open spec fn all_digits(s: Seq<char>) -> bool {
    forall|i: int| 0 <= i < s.len() ==> is_digit_char(s[i])
}

/// What `str::parse::<i64>` accepts: an optional sign, then only decimal
/// digits, at least one, with the value in range.
pub open spec fn spec_parse_i64(s: Seq<char>) -> Option<int> {
    let neg = s.len() > 0 && s[0] == '-';
    let ds = if s.len() > 0 && (s[0] == '+' || s[0] == '-') {
        s.drop_first()
    } else {
        s
    };
    if ds.len() > 0 && all_digits(ds) {
        let mag = digits_val(ds, 0, ds.len() as int);
        let n = if neg {
            -mag
        } else {
            mag
        };
        if i64_range(n) {
            Some(n)
        } else {
            None
        }
    } else {
        None
    }
}

/// Parse a plain decimal integer.
pub fn parse_i64(s: &str) -> (r: Option<i64>)
    ensures
        match r {
            Some(n) => spec_parse_i64(s@) == Some(n as int),
            None => spec_parse_i64(s@) is None,
        },
{
    let v = chars_vec(s);
    if v.len() == 0 {
        return None;
    }
    let neg = v[0] == '-';
    let start: usize = if v[0] == '+' || v[0] == '-' {
        1
    } else {
        0
    };
    let ghost ds = if s@[0] == '+' || s@[0] == '-' {
        s@.drop_first()
    } else {
        s@
    };
    proof {
        assert(ds =~= s@.subrange(start as int, s@.len() as int));
    }
    if v.len() == start {
        return None;
    }
    let mut i: usize = start;
    while i < v.len()
        invariant
            start <= i <= v@.len(),
            start < v@.len(),
            v@ == s@,
            s@.len() > 0,
            (start == 1 || start == 0) && (start == 1 <==> (s@[0] == '+' || s@[0] == '-')),
            ds == s@.subrange(start as int, s@.len() as int),
            ds == (if s@[0] == '+' || s@[0] == '-' {
                s@.drop_first()
            } else {
                s@
            }),
            forall|q: int| start <= q < i ==> is_digit_char(v@[q]),
        decreases v@.len() - i,
    {
        let c = v[i] as u32;
        if !('0' as u32 <= c && c <= '9' as u32) {
            proof {
                assert(ds[i - start] == s@[i as int]);
                assert(exists|q: int|
                    0 <= q < ds.len() && !(#[trigger] is_digit_char(ds[q]))) by {
                    assert(0 <= i - start < ds.len() && !is_digit_char(ds[i - start]));
                }
                assert(!all_digits(ds));
                assert(spec_parse_i64(s@) is None);
            }
            return None;
        }
        i = i + 1;
    }
    proof {
        assert forall|q: int| 0 <= q < ds.len() implies is_digit_char(ds[q]) by {
            assert(ds[q] == v@[q + start]);
        }
    }
    let mag = digits_val_x(&v, start, v.len());
    proof {
        lemma_digits_val_window(s@, start as int, s@.len() as int);
    }
    match mag {
        Some(a) => {
            if neg {
                if a <= 0x8000_0000_0000_0000u64 {
                    let n: i64 = if a == 0x8000_0000_0000_0000u64 {
                        i64::MIN
                    } else {
                        -(a as i64)
                    };
                    Some(n)
                } else {
                    None
                }
            } else {
                if a <= i64::MAX as u64 {
                    Some(a as i64)
                } else {
                    None
                }
            }
        },
        None => {
            proof {
                lemma_digits_val_mono(s@, start as int, start as int, s@.len() as int);
            }
            None
        },
    }
}

/// A signed integer written in decimal.
pub fn int_string(n: i64) -> (r: String)
    ensures
        r@ == render_int(n as int),
{
    let mut out: Vec<char> = Vec::new();
    render_int_onto(n, &mut out);
    string_of_chars(&out)
}

/// An unsigned integer written in decimal.
pub fn u32_string(n: u32) -> (r: String)
    ensures
        r@ == render_nat(n as int),
{
    let mut out: Vec<char> = Vec::new();
    render_nat_onto(n as u64, &mut out);
    string_of_chars(&out)
}

} // verus!

verus! {

/// Whether two strings hold the same characters.
pub fn str_eq(a: &str, b: &str) -> (r: bool)
    ensures
        r == (a@ == b@),
{
    let sa = String::from_str(a);
    let sb = String::from_str(b);
    sa.eq(&sb)
}

/// `p` is a prefix of `s`.
pub open spec fn starts_with(s: Seq<char>, p: Seq<char>) -> bool {
    s.len() >= p.len() && s.subrange(0, p.len() as int) == p
}

/// Whether the string starts with the prefix.
pub fn has_prefix(s: &str, p: &str) -> (r: bool)
    ensures
        r == starts_with(s@, p@),
{
    let sv = chars_vec(s);
    let pv = chars_vec(p);
    if sv.len() < pv.len() {
        return false;
    }
    let mut i: usize = 0;
    while i < pv.len()
        invariant
            i <= pv@.len() <= sv@.len(),
            sv@ == s@,
            pv@ == p@,
            forall|q: int| 0 <= q < i ==> sv@[q] == pv@[q],
        decreases pv@.len() - i,
    {
        if sv[i] != pv[i] {
            proof {
                assert(s@.subrange(0, p@.len() as int)[i as int] != p@[i as int]);
            }
            return false;
        }
        i = i + 1;
    }
    proof {
        assert(s@.subrange(0, p@.len() as int) =~= p@);
    }
    true
}

} // verus!

verus! {

/// A structural copy of a document.
pub fn clone_json(v: &JsonVal) -> (r: JsonVal)
    ensures
        r@ == v@,
    decreases v,
{
    match v {
        JsonVal::Null => JsonVal::Null,
        JsonVal::Bool(b) => JsonVal::Bool(*b),
        JsonVal::Int(n) => JsonVal::Int(*n),
        JsonVal::NumText(t) => JsonVal::NumText(t.clone()),
        JsonVal::Text(t) => JsonVal::Text(t.clone()),
        JsonVal::Arr(items) => {
            proof {
                lemma_view_seq(items@);
            }
            let mut out: Vec<JsonVal> = Vec::new();
            let mut i: usize = 0;
            while i < items.len()
                invariant
                    *v == JsonVal::Arr(*items),
                    i <= items@.len(),
                    out@.len() == i,
                    forall|q: int| 0 <= q < i ==> out@[q]@ == items@[q]@,
                decreases items@.len() - i,
            {
                proof {
                    assert(decreases_to!(*v => v->Arr_0));
                    assert(v->Arr_0 == *items);
                    assert(decreases_to!(*items => items@[i as int]));
                }
                out.push(clone_json(&items[i]));
                i = i + 1;
            }
            let r = JsonVal::Arr(out);
            proof {
                lemma_view_seq(r->Arr_0@);
                assert(view_seq(r->Arr_0@) =~= view_seq(items@));
            }
            r
        },
        JsonVal::Obj(members) => {
            proof {
                lemma_view_members(members@);
            }
            let mut out: Vec<(String, JsonVal)> = Vec::new();
            let mut i: usize = 0;
            while i < members.len()
                invariant
                    *v == JsonVal::Obj(*members),
                    i <= members@.len(),
                    out@.len() == i,
                    forall|q: int|
                        0 <= q < i ==> out@[q].0@ == members@[q].0@ && out@[q].1@
                            == members@[q].1@,
                decreases members@.len() - i,
            {
                proof {
                    assert(decreases_to!(*v => v->Obj_0));
                    assert(v->Obj_0 == *members);
                    assert(decreases_to!(*members => members@[i as int]));
                    assert(decreases_to!(members@[i as int] => members@[i as int].1));
                }
                out.push((members[i].0.clone(), clone_json(&members[i].1)));
                i = i + 1;
            }
            let r = JsonVal::Obj(out);
            proof {
                lemma_view_members(r->Obj_0@);
                assert(view_members(r->Obj_0@) =~= view_members(members@));
            }
            r
        },
    }
}

} // verus!

verus! {

// ---------------------------------------------------------------------------
// Reading rendered text back: the facts tying the renderer to the parser.
// ---------------------------------------------------------------------------

/// `w` is exactly what stands at position `i`.
pub open spec fn window(s: Seq<char>, i: int, w: Seq<char>) -> bool {
    0 <= i && i + w.len() <= s.len() && s.subrange(i, i + w.len()) == w
}

pub proof fn lemma_window_index(s: Seq<char>, i: int, w: Seq<char>, q: int)
    requires
        window(s, i, w),
        0 <= q < w.len(),
    ensures
        s[i + q] == w[q],
{
    assert(s.subrange(i, i + w.len())[q] == w[q]);
}

pub proof fn lemma_window_split(s: Seq<char>, i: int, a: Seq<char>, b: Seq<char>)
    requires
        window(s, i, a + b),
    ensures
        window(s, i, a),
        window(s, i + a.len(), b),
{
    assert forall|q: int| 0 <= q < a.len() implies s[i + q] == a[q] by {
        lemma_window_index(s, i, a + b, q);
    }
    assert(s.subrange(i, i + a.len()) =~= a);
    assert forall|q: int| 0 <= q < b.len() implies s[i + a.len() + q] == b[q] by {
        lemma_window_index(s, i, a + b, a.len() + q);
    }
    assert(s.subrange(i + a.len(), i + a.len() + b.len()) =~= b);
}

/// A character that passes through string escaping unchanged.
pub open spec fn is_plain_char(c: char) -> bool {
    c != '"' && c != '\\' && c as u32 >= 0x20
}

/// Text of plain characters renders as itself.
pub proof fn lemma_render_text_plain(t: Seq<char>)
    requires
        forall|q: int| 0 <= q < t.len() ==> is_plain_char(t[q]),
    ensures
        render_text(t) == t,
    decreases t.len(),
{
    if t.len() > 0 {
        lemma_render_text_plain(t.drop_first());
        assert(esc_seq(t[0]) =~= seq![t[0]]);
        assert(render_text(t) =~= t);
    } else {
        assert(render_text(t) =~= t);
    }
}

pub proof fn lemma_hex_char_val(d: int)
    requires
        0 <= d < 16,
    ensures
        hex_val(hex_char(d)) == Some(d),
{
}

pub proof fn lemma_digit_char_val(d: int)
    requires
        0 <= d < 10,
    ensures
        is_digit_char(digit_char(d)),
        digit_val(digit_char(d)) == d,
{
}

/// A rendered string body followed by its closing quote parses back to the
/// original content, ending just after the quote.
pub proof fn lemma_parse_rendered_string(s: Seq<char>, i: int, content: Seq<char>)
    requires
        window(s, i, render_text(content) + seq!['"']),
    ensures
        parse_string(s, i) == Some((content, i + render_text(content).len() + 1)),
    decreases content.len(),
{
    if content.len() == 0 {
        assert(render_text(content) + seq!['"'] =~= seq!['"']);
        lemma_window_index(s, i, seq!['"'], 0);
        assert(content =~= Seq::<char>::empty());
    } else {
        let c = content[0];
        let rest = content.drop_first();
        assert(render_text(content) == esc_seq(c) + render_text(rest));
        assert((esc_seq(c) + render_text(rest)) + seq!['"'] =~= esc_seq(c) + (render_text(rest)
            + seq!['"']));
        lemma_window_split(s, i, esc_seq(c), render_text(rest) + seq!['"']);
        let after = i + esc_seq(c).len();
        lemma_parse_rendered_string(s, after, rest);
        assert(seq![c] + rest =~= content);
        if c == '"' {
            lemma_window_index(s, i, esc_seq(c), 0);
            lemma_window_index(s, i, esc_seq(c), 1);
            assert(s[i] == '\\' && s[i + 1] == '"');
        } else if c == '\\' {
            lemma_window_index(s, i, esc_seq(c), 0);
            lemma_window_index(s, i, esc_seq(c), 1);
            assert(s[i] == '\\' && s[i + 1] == '\\');
        } else if (c as u32) < 0x20 {
            let hi = c as u32 as int / 16;
            let lo = c as u32 as int % 16;
            lemma_window_index(s, i, esc_seq(c), 0);
            lemma_window_index(s, i, esc_seq(c), 1);
            lemma_window_index(s, i, esc_seq(c), 2);
            lemma_window_index(s, i, esc_seq(c), 3);
            lemma_window_index(s, i, esc_seq(c), 4);
            lemma_window_index(s, i, esc_seq(c), 5);
            assert(s[i] == '\\' && s[i + 1] == 'u' && s[i + 2] == '0' && s[i + 3] == '0' && s[i
                + 4] == hex_char(hi) && s[i + 5] == hex_char(lo));
            lemma_hex_char_val(hi);
            lemma_hex_char_val(lo);
            assert(hex_val('0') == Some(0int));
            let code = 0 * 0x1000 + 0 * 0x100 + hi * 0x10 + lo;
            assert(hex4_val(s, i + 2) == Some(code));
            assert(code == c as u32) by {
                assert(hi * 16 + lo == c as u32);
            }
            lemma_char_of(c);
            assert(valid_scalar(code));
            assert(char_of(code) == c);
        } else {
            lemma_window_index(s, i, esc_seq(c), 0);
            assert(s[i] == c);
        }
    }
}

/// Digits of a rendered non-negative number are digits.
pub proof fn lemma_render_nat_digits(m: int)
    requires
        m >= 0,
    ensures
        render_nat(m).len() >= 1,
        forall|q: int| 0 <= q < render_nat(m).len() ==> is_digit_char(#[trigger] render_nat(m)[q]),
    decreases m,
{
    if m < 10 {
        lemma_digit_char_val(m);
    } else {
        lemma_render_nat_digits(m / 10);
        lemma_digit_char_val(m % 10);
    }
}

/// A rendered non-negative number's digits evaluate back to it.
pub proof fn lemma_digits_val_render(s: Seq<char>, i: int, m: int)
    requires
        m >= 0,
        window(s, i, render_nat(m)),
    ensures
        digits_val(s, i, i + render_nat(m).len()) == m,
    decreases m,
{
    if m < 10 {
        lemma_window_index(s, i, render_nat(m), 0);
        lemma_digit_char_val(m);
        assert(render_nat(m) == seq![digit_char(m)]);
        assert(s[i] == digit_char(m));
        assert(digits_val(s, i, i) == 0);
        assert(digits_val(s, i, i + 1) == digits_val(s, i, i) * 10 + digit_val(s[i]));
    } else {
        assert(render_nat(m) =~= render_nat(m / 10) + seq![digit_char(m % 10)]);
        lemma_window_split(s, i, render_nat(m / 10), seq![digit_char(m % 10)]);
        lemma_digits_val_render(s, i, m / 10);
        lemma_window_index(s, i + render_nat(m / 10).len(), seq![digit_char(m % 10)], 0);
        lemma_digit_char_val(m % 10);
        let e = i + render_nat(m).len();
        assert(e - 1 == i + render_nat(m / 10).len());
        assert(s[e - 1] == digit_char(m % 10));
        assert(digits_val(s, i, e - 1) == m / 10);
        assert(digits_val(s, i, e) == digits_val(s, i, e - 1) * 10 + digit_val(s[e - 1]));
        assert(m / 10 * 10 + m % 10 == m);
        assert(digits_val(s, i, i + render_nat(m).len()) == m);
    }
}

pub proof fn lemma_digits_end_run(s: Seq<char>, k: int, e: int)
    requires
        0 <= k <= e <= s.len(),
        forall|q: int| k <= q < e ==> is_digit_char(s[q]),
        e < s.len() ==> !is_digit_char(s[e]),
    ensures
        digits_end(s, k) == e,
    decreases e - k,
{
    if k < e {
        lemma_digits_end_run(s, k + 1, e);
    }
}

/// A rendered integer, not followed by anything number-like, parses back.
pub proof fn lemma_parse_rendered_int(s: Seq<char>, i: int, n: int)
    requires
        i64_range(n),
        window(s, i, render_int(n)),
        i + render_int(n).len() < s.len() ==> !is_num_tail_char(
            s[i + render_int(n).len()],
        ),
    ensures
        parse_number(s, i) == Some((JsonModel::Int(n), i + render_int(n).len())),
{
    let e = i + render_int(n).len();
    if n >= 0 {
        assert(render_int(n) == render_nat(n));
        lemma_render_nat_digits(n);
        assert forall|q: int| i <= q < e implies is_digit_char(s[q]) by {
            lemma_window_index(s, i, render_nat(n), q - i);
        }
        lemma_window_index(s, i, render_nat(n), 0);
        assert(is_digit_char(s[i]));
        assert(s[i] != '-');
        lemma_digits_end_run(s, i, e);
        lemma_digits_val_render(s, i, n);
        assert(e < s.len() ==> !(s[e] == '.' || s[e] == 'e' || s[e] == 'E'));
    } else {
        assert(render_int(n) == seq!['-'] + render_nat(-n));
        lemma_window_split(s, i, seq!['-'], render_nat(-n));
        lemma_window_index(s, i, seq!['-'], 0);
        assert(s[i] == '-');
        let k = i + 1;
        lemma_render_nat_digits(-n);
        assert forall|q: int| k <= q < e implies is_digit_char(s[q]) by {
            lemma_window_index(s, k, render_nat(-n), q - k);
        }
        lemma_window_index(s, k, render_nat(-n), 0);
        assert(is_digit_char(s[k]));
        lemma_digits_end_run(s, k, e);
        lemma_digits_val_render(s, k, -n);
        assert(e < s.len() ==> !(s[e] == '.' || s[e] == 'e' || s[e] == 'E'));
    }
}

} // verus!

verus! {

/// A rendered `null`, `true`, `false`, string or in-range integer parses
/// back to itself; for an integer the following character must not look
/// numeric.
pub proof fn lemma_parse_rendered_value(s: Seq<char>, i: int, m: JsonModel)
    requires
        m is Null || m is Bool || m is Text || (m matches JsonModel::Int(n) && i64_range(n)),
        window(s, i, render(m)),
        m is Int ==> (i + render(m).len() < s.len() ==> !is_num_tail_char(
            s[i + render(m).len()],
        )),
    ensures
        parse_value(s, i) == Some((m, i + render(m).len())),
{
    reveal_strlit("");
    match m {
        JsonModel::Null => {
            lemma_window_index(s, i, lit_null(), 0);
            lemma_window_index(s, i, lit_null(), 1);
            lemma_window_index(s, i, lit_null(), 2);
            lemma_window_index(s, i, lit_null(), 3);
            assert(s.subrange(i, i + 4) =~= lit_null());
            assert(has_word(s, i, lit_null()));
        },
        JsonModel::Bool(b) => {
            if b {
                lemma_window_index(s, i, lit_true(), 0);
                lemma_window_index(s, i, lit_true(), 1);
                lemma_window_index(s, i, lit_true(), 2);
                lemma_window_index(s, i, lit_true(), 3);
                assert(s.subrange(i, i + 4) =~= lit_true());
                assert(has_word(s, i, lit_true()));
            } else {
                lemma_window_index(s, i, lit_false(), 0);
                lemma_window_index(s, i, lit_false(), 1);
                lemma_window_index(s, i, lit_false(), 2);
                lemma_window_index(s, i, lit_false(), 3);
                lemma_window_index(s, i, lit_false(), 4);
                assert(s.subrange(i, i + 5) =~= lit_false());
                assert(has_word(s, i, lit_false()));
            }
        },
        JsonModel::Int(n) => {
            lemma_parse_rendered_int(s, i, n);
            if n >= 0 {
                lemma_render_nat_digits(n);
                lemma_window_index(s, i, render_nat(n), 0);
            } else {
                lemma_window_index(s, i, seq!['-'] + render_nat(-n), 0);
            }
        },
        JsonModel::Text(t) => {
            assert(render(m) =~= seq!['"'] + (render_text(t) + seq!['"']));
            lemma_window_split(s, i, seq!['"'], render_text(t) + seq!['"']);
            lemma_window_index(s, i, seq!['"'], 0);
            lemma_parse_rendered_string(s, i + 1, t);
        },
        _ => {},
    }
}

} // verus!

verus! {

/// A run of `n` whitespace characters, ended by the text or a non-space.
pub proof fn lemma_ws_run(s: Seq<char>, p: int, n: int)
    requires
        0 <= p,
        0 <= n,
        p + n <= s.len(),
        forall|q: int| p <= q < p + n ==> is_ws_char(s[q]),
        p + n < s.len() ==> !is_ws_char(s[p + n]),
    ensures
        ws_len(s, p) == n,
    decreases n,
{
    if n > 0 {
        lemma_ws_run(s, p + 1, n - 1);
    }
}

} // verus!

verus! {

/// Documents the renderer writes canonically: no carried-through number
/// text, and every integer within machine range.
pub open spec fn canonical(m: JsonModel) -> bool
    decreases m, 0int,
{
    match m {
        JsonModel::NumText(_) => false,
        JsonModel::Int(n) => i64_range(n),
        JsonModel::Arr(items) => canonical_seq(items),
        JsonModel::Obj(members) => canonical_members(members),
        _ => true,
    }
}

pub open spec fn canonical_seq(items: Seq<JsonModel>) -> bool
    decreases items, 1int,
{
    items.len() == 0 || (canonical(items[0]) && canonical_seq(items.drop_first()))
}

pub open spec fn canonical_members(members: Seq<(Seq<char>, JsonModel)>) -> bool
    decreases members, 1int,
{
    members.len() == 0 || (canonical(members[0].1) && canonical_members(members.drop_first()))
}

/// The first character of a canonical rendering: never whitespace, never a
/// separator or closer.
proof fn lemma_render_head(m: JsonModel)
    requires
        canonical(m),
    ensures
        render(m).len() > 0,
        !is_ws_char(render(m)[0]),
        render(m)[0] != ']',
        render(m)[0] != '}',
        render(m)[0] != ',',
        render(m)[0] != ':',
{
    match m {
        JsonModel::Int(n) => {
            if n >= 0 {
                lemma_render_nat_digits(n);
            } else {
                assert(render(m) =~= seq!['-'] + render_nat(-n));
            }
        },
        JsonModel::Text(t) => {
            assert(render(m) =~= seq!['"'] + (render_text(t) + seq!['"']));
        },
        JsonModel::Arr(items) => {
            assert(render(m) =~= seq!['['] + (render_items(items) + seq![']']));
        },
        JsonModel::Obj(members) => {
            assert(render(m) =~= seq!['{'] + (render_members(members) + seq!['}']));
        },
        _ => {},
    }
}

/// A canonically rendered value, not followed by anything number-like,
/// parses back to itself.
pub proof fn lemma_parse_render(s: Seq<char>, i: int, m: JsonModel)
    requires
        canonical(m),
        window(s, i, render(m)),
        m is Int ==> (i + render(m).len() < s.len() ==> !is_num_tail_char(
            s[i + render(m).len()],
        )),
    ensures
        parse_value(s, i) == Some((m, i + render(m).len())),
    decreases m, 0int,
{
    match m {
        JsonModel::Arr(items) => {
            assert(render(m) =~= seq!['['] + (render_items(items) + seq![']']));
            lemma_window_split(s, i, seq!['['], render_items(items) + seq![']']);
            lemma_window_index(s, i, seq!['['], 0);
            assert(s[i] == '[');
            if items.len() == 0 {
                assert(render_items(items) + seq![']'] =~= seq![']']);
                lemma_window_index(s, i + 1, seq![']'], 0);
                assert(s[i + 1] == ']');
                lemma_ws_run(s, i + 1, 0);
                assert(parse_items(s, i + 1, true) == Some((Seq::<JsonModel>::empty(), i + 2)));
                assert(items =~= Seq::<JsonModel>::empty());
            } else {
                lemma_parse_render_items(s, i + 1, items, true);
            }
        },
        JsonModel::Obj(members) => {
            assert(render(m) =~= seq!['{'] + (render_members(members) + seq!['}']));
            lemma_window_split(s, i, seq!['{'], render_members(members) + seq!['}']);
            lemma_window_index(s, i, seq!['{'], 0);
            assert(s[i] == '{');
            if members.len() == 0 {
                assert(render_members(members) + seq!['}'] =~= seq!['}']);
                lemma_window_index(s, i + 1, seq!['}'], 0);
                assert(s[i + 1] == '}');
                lemma_ws_run(s, i + 1, 0);
                assert(parse_members(s, i + 1, true) == Some(
                    (Seq::<(Seq<char>, JsonModel)>::empty(), i + 2),
                ));
                assert(members =~= Seq::<(Seq<char>, JsonModel)>::empty());
            } else {
                lemma_parse_render_members(s, i + 1, members, true);
            }
        },
        _ => {
            lemma_parse_rendered_value(s, i, m);
        },
    }
}

/// A canonically rendered non-empty element list followed by `]` parses
/// back, whether or not it opens the array.
proof fn lemma_parse_render_items(s: Seq<char>, i: int, items: Seq<JsonModel>, first: bool)
    requires
        canonical_seq(items),
        items.len() > 0,
        window(s, i, render_items(items) + seq![']']),
    ensures
        parse_items(s, i, first) == Some((items, i + render_items(items).len() + 1)),
    decreases items, 1int,
{
    let head = items[0];
    let rest = items.drop_first();
    lemma_render_head(head);
    if items.len() == 1 {
        assert(render_items(items) == render(head));
        assert(render(head) + seq![']'] =~= render_items(items) + seq![']']);
        lemma_window_split(s, i, render(head), seq![']']);
        lemma_window_index(s, i, render(head), 0);
        lemma_ws_run(s, i, 0);
        let m1 = i + render(head).len();
        lemma_window_index(s, m1, seq![']'], 0);
        assert(s[m1] == ']');
        assert(head is Int ==> !is_num_tail_char(s[m1]));
        lemma_parse_render(s, i, head);
        lemma_ws_run(s, m1, 0);
        assert(parse_after_item(s, m1) == Some((Seq::<JsonModel>::empty(), m1 + 1)));
        assert(seq![head] + Seq::<JsonModel>::empty() =~= items);
    } else {
        assert(render_items(items) == render(head) + seq![','] + render_items(rest));
        assert((render(head) + seq![','] + render_items(rest)) + seq![']'] =~= render(head) + (
        seq![','] + (render_items(rest) + seq![']'])));
        lemma_window_split(s, i, render(head), seq![','] + (render_items(rest) + seq![']']));
        let m1 = i + render(head).len();
        lemma_window_split(s, m1, seq![','], render_items(rest) + seq![']']);
        lemma_window_index(s, m1, seq![','], 0);
        assert(s[m1] == ',');
        lemma_window_index(s, i, render(head), 0);
        lemma_ws_run(s, i, 0);
        assert(head is Int ==> !is_num_tail_char(s[m1]));
        lemma_parse_render(s, i, head);
        lemma_ws_run(s, m1, 0);
        lemma_parse_render_items(s, m1 + 1, rest, false);
        assert(parse_after_item(s, m1) == parse_items(s, m1 + 1, false));
        assert(seq![head] + rest =~= items);
    }
}

/// A canonically rendered non-empty member list followed by `}` parses
/// back, whether or not it opens the object.
proof fn lemma_parse_render_members(
    s: Seq<char>,
    i: int,
    members: Seq<(Seq<char>, JsonModel)>,
    first: bool,
)
    requires
        canonical_members(members),
        members.len() > 0,
        window(s, i, render_members(members) + seq!['}']),
    ensures
        parse_members(s, i, first) == Some((members, i + render_members(members).len() + 1)),
    decreases members, 1int,
{
    let key = members[0].0;
    let val = members[0].1;
    let rest = members.drop_first();
    let head = seq!['"'] + render_text(key) + seq!['"', ':'] + render(val);
    lemma_render_head(val);
    let kq = i + 1 + render_text(key).len();  // position of the key's closing quote
    let vstart = kq + 2;
    let m1 = vstart + render(val).len();
    if members.len() == 1 {
        assert(render_members(members) == head);
        assert(head + seq!['}'] =~= seq!['"'] + ((render_text(key) + seq!['"']) + (seq![':']
            + (render(val) + seq!['}']))));
        lemma_window_split(s, i, seq!['"'], (render_text(key) + seq!['"']) + (seq![':'] + (
        render(val) + seq!['}'])));
        lemma_window_split(s, i + 1, render_text(key) + seq!['"'], seq![':'] + (render(val)
            + seq!['}']));
        lemma_window_split(s, kq + 1, seq![':'], render(val) + seq!['}']);
        lemma_window_split(s, vstart, render(val), seq!['}']);
        lemma_window_index(s, i, seq!['"'], 0);
        lemma_window_index(s, kq + 1, seq![':'], 0);
        lemma_window_index(s, vstart, render(val), 0);
        lemma_window_index(s, m1, seq!['}'], 0);
        assert(s[i] == '"' && s[kq + 1] == ':' && s[m1] == '}');
        lemma_ws_run(s, i, 0);
        lemma_parse_rendered_string(s, i + 1, key);
        lemma_ws_run(s, kq + 1, 0);
        lemma_ws_run(s, vstart, 0);
        assert(val is Int ==> !is_num_tail_char(s[m1]));
        lemma_parse_render(s, vstart, val);
        lemma_ws_run(s, m1, 0);
        assert(parse_after_member(s, m1) == Some(
            (Seq::<(Seq<char>, JsonModel)>::empty(), m1 + 1),
        ));
        assert(seq![(key, val)] + Seq::<(Seq<char>, JsonModel)>::empty() =~= members);
    } else {
        assert(render_members(members) == head + seq![','] + render_members(rest));
        assert((head + seq![','] + render_members(rest)) + seq!['}'] =~= seq!['"'] + ((
        render_text(key) + seq!['"']) + (seq![':'] + (render(val) + (seq![','] + (
        render_members(rest) + seq!['}']))))));
        lemma_window_split(s, i, seq!['"'], (render_text(key) + seq!['"']) + (seq![':'] + (
        render(val) + (seq![','] + (render_members(rest) + seq!['}'])))));
        lemma_window_split(s, i + 1, render_text(key) + seq!['"'], seq![':'] + (render(val) + (
        seq![','] + (render_members(rest) + seq!['}']))));
        lemma_window_split(s, kq + 1, seq![':'], render(val) + (seq![','] + (render_members(
            rest,
        ) + seq!['}'])));
        lemma_window_split(s, vstart, render(val), seq![','] + (render_members(rest)
            + seq!['}']));
        lemma_window_split(s, m1, seq![','], render_members(rest) + seq!['}']);
        lemma_window_index(s, i, seq!['"'], 0);
        lemma_window_index(s, kq + 1, seq![':'], 0);
        lemma_window_index(s, vstart, render(val), 0);
        lemma_window_index(s, m1, seq![','], 0);
        assert(s[i] == '"' && s[kq + 1] == ':' && s[m1] == ',');
        lemma_ws_run(s, i, 0);
        lemma_parse_rendered_string(s, i + 1, key);
        lemma_ws_run(s, kq + 1, 0);
        lemma_ws_run(s, vstart, 0);
        assert(val is Int ==> !is_num_tail_char(s[m1]));
        lemma_parse_render(s, vstart, val);
        lemma_ws_run(s, m1, 0);
        lemma_parse_render_members(s, m1 + 1, rest, false);
        assert(parse_after_member(s, m1) == parse_members(s, m1 + 1, false));
        assert(seq![(key, val)] + rest =~= members);
    }
}

/// Rendering a canonical document and parsing the text back is the
/// identity.
pub proof fn lemma_json_round_trip(m: JsonModel)
    requires
        canonical(m),
    ensures
        json_parse(render(m)) == Some(m),
{
    let s = render(m);
    assert(s.subrange(0, s.len() as int) =~= s);
    assert(window(s, 0, render(m)));
    lemma_render_head(m);
    lemma_ws_run(s, 0, 0);
    lemma_parse_render(s, 0, m);
    lemma_ws_run(s, s.len() as int, 0);
}

} // verus!
