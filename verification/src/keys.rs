//! Keys, chords and their textual form in key binding specifications.
use vstd::prelude::*;

use crate::text::{
    chars_of, lemma_word_ranges, push_char, push_range, push_str, string_of, string_of_range, trim,
    trim_bounds, word_ranges, word_ranges_exec, words,
};

verus! {

/// A key of the keyboard.
#[derive(Debug, Clone, Copy, PartialEq, Eq, Structural, Hash)]
pub enum KeyCode {
    Backspace,
    Enter,
    Left,
    Right,
    Up,
    Down,
    Home,
    End,
    PageUp,
    PageDown,
    Tab,
    BackTab,
    Delete,
    Insert,
    F(u8),
    Char(char),
    Null,
    Esc,
    CapsLock,
    ScrollLock,
    NumLock,
    PrintScreen,
    Pause,
    Menu,
    KeypadBegin,
}

/// Modifier bit of the Shift key.
pub const SHIFT: u8 = 1;

/// Modifier bit of the Control key.
pub const CONTROL: u8 = 2;

/// Modifier bit of the Alt key.
pub const ALT: u8 = 4;

/// Modifier bit of the Super key.
pub const SUPER: u8 = 8;

/// Modifier bit of the Hyper key.
pub const HYPER: u8 = 16;

/// Modifier bit of the Meta key.
pub const META: u8 = 32;

/// A key press: the key and the bits of the modifiers held.
#[derive(Debug, Clone, Copy, PartialEq, Eq, Structural)]
pub struct KeyEvent {
    pub code: KeyCode,
    pub modifiers: u8,
}

impl KeyEvent {
    /// A key press of `code` with `modifiers` held.
    pub fn new(code: KeyCode, modifiers: u8) -> (e: KeyEvent)
        ensures
            e == (KeyEvent { code, modifiers }),
    {
        KeyEvent { code, modifiers }
    }
}

/// One key with the modifiers that matter for bindings.
#[derive(Debug, Clone, Copy, PartialEq, Eq, Structural, Hash)]
pub struct KeyChord {
    pub code: KeyCode,
    pub modifiers: u8,
}

/// `c` is an ASCII capital letter.
pub open spec fn is_ascii_upper(c: char) -> bool {
    'A' <= c <= 'Z'
}

/// The ASCII lowercase of a character: capital letters map to small ones,
/// everything else to itself.
pub open spec fn ascii_lower_char(c: char) -> char {
    if is_ascii_upper(c) {
        (((c as u8) + 32) as u8) as char
    } else {
        c
    }
}

/// `str::to_ascii_lowercase` on characters.
pub open spec fn ascii_lowercase(s: Seq<char>) -> Seq<char> {
    s.map_values(|c: char| ascii_lower_char(c))
}

/// `char::is_alphabetic`: the Unicode `Alphabetic` property.
pub uninterp spec fn unicode_alphabetic(c: char) -> bool;

/// Calls `char::is_alphabetic`. Claims: the result is the named property
/// [`unicode_alphabetic`] of `c`.
#[verifier::external_body]
fn is_alphabetic(c: char) -> (b: bool)
    ensures
        b == unicode_alphabetic(c),
{
    c.is_alphabetic()
}

/// The chord a key press stands for: only Control, Alt, Shift and Super
/// count; Back-Tab is Shift+Tab; a capital ASCII letter is Shift and the small
/// letter; Shift is dropped from characters that are not letters.
pub open spec fn normalized_chord(code: KeyCode, modifiers: u8) -> KeyChord {
    let m = modifiers & 15u8;
    match code {
        KeyCode::BackTab => KeyChord { code: KeyCode::Tab, modifiers: m | 1u8 },
        KeyCode::Char(ch) => if is_ascii_upper(ch) {
            KeyChord { code: KeyCode::Char(ascii_lower_char(ch)), modifiers: m | 1u8 }
        } else if !unicode_alphabetic(ch) {
            KeyChord { code, modifiers: m & 14u8 }
        } else {
            KeyChord { code, modifiers: m }
        },
        _ => KeyChord { code, modifiers: m },
    }
}

/// The ASCII lowercase of a character.
fn ascii_lower(c: char) -> (r: char)
    ensures
        r == ascii_lower_char(c),
{
    if 'A' <= c && c <= 'Z' {
        ((c as u8) + 32) as char
    } else {
        c
    }
}

/// The ASCII lowercase of `cs[a..b]`.
fn ascii_lowercase_range(cs: &[char], a: usize, b: usize) -> (out: Vec<char>)
    requires
        a <= b <= cs@.len(),
    ensures
        out@ == ascii_lowercase(cs@.subrange(a as int, b as int)),
{
    let mut out: Vec<char> = Vec::new();
    let mut i = a;
    while i < b
        invariant
            a <= i <= b <= cs@.len(),
            out@ == ascii_lowercase(cs@.subrange(a as int, i as int)),
        decreases b - i,
    {
        out.push(ascii_lower(cs[i]));
        assert(ascii_lowercase(cs@.subrange(a as int, i + 1)) =~= ascii_lowercase(
            cs@.subrange(a as int, i as int),
        ).push(ascii_lower_char(cs@[i as int])));
        i += 1;
    }
    out
}

impl KeyChord {
    /// The chord of a key press, as [`normalized_chord`] describes it.
    pub fn normalized(code: KeyCode, modifiers: u8) -> (c: KeyChord)
        ensures
            c == normalized_chord(code, modifiers),
    {
        let m = modifiers & 15u8;
        match code {
            KeyCode::BackTab => KeyChord { code: KeyCode::Tab, modifiers: m | 1u8 },
            KeyCode::Char(ch) => {
                if 'A' <= ch && ch <= 'Z' {
                    KeyChord { code: KeyCode::Char(ascii_lower(ch)), modifiers: m | 1u8 }
                } else if !is_alphabetic(ch) {
                    KeyChord { code, modifiers: m & 14u8 }
                } else {
                    KeyChord { code, modifiers: m }
                }
            },
            _ => KeyChord { code, modifiers: m },
        }
    }

    /// The chord of a key press event.
    pub fn from_event(event: KeyEvent) -> (c: KeyChord)
        ensures
            c == normalized_chord(event.code, event.modifiers),
    {
        KeyChord::normalized(event.code, event.modifiers)
    }
}

/// `c` is an ASCII digit.
pub open spec fn is_digit(c: char) -> bool {
    '0' <= c <= '9'
}

/// Value of a string of decimal digits.
pub open spec fn decimal_value(s: Seq<char>) -> int
    decreases s.len(),
{
    if s.len() == 0 {
        0
    } else {
        decimal_value(s.drop_last()) * 10 + ((s.last() as int) - 48)
    }
}

/// `s` without one leading `+`.
pub open spec fn sign_stripped(s: Seq<char>) -> Seq<char> {
    if s.len() > 0 && s[0] == '+' {
        s.drop_first()
    } else {
        s
    }
}

/// Every character of `s` is a decimal digit.
pub open spec fn all_digits(s: Seq<char>) -> bool {
    forall|i: int| 0 <= i < s.len() ==> is_digit(#[trigger] s[i])
}

/// `u8::from_str`: an optional `+` and at least one decimal digit, with a
/// value that fits a byte.
pub open spec fn parse_u8_decimal(s: Seq<char>) -> Option<u8> {
    let body = sign_stripped(s);
    if body.len() == 0 || !all_digits(body) {
        None
    } else if decimal_value(body) <= 255 {
        Some(decimal_value(body) as u8)
    } else {
        None
    }
}

/// Decimal digits only grow a number.
proof fn lemma_decimal_value_nonneg(s: Seq<char>)
    requires
        forall|i: int| 0 <= i < s.len() ==> is_digit(#[trigger] s[i]),
    ensures
        decimal_value(s) >= 0,
    decreases s.len(),
{
    if s.len() > 0 {
        lemma_decimal_value_nonneg(s.drop_last());
    }
}

/// [`parse_u8_decimal`] on `cs[a..b]`.
fn parse_u8_range(cs: &[char], a: usize, b: usize) -> (r: Option<u8>)
    requires
        a <= b <= cs@.len(),
    ensures
        r == parse_u8_decimal(cs@.subrange(a as int, b as int)),
{
    let ghost s = cs@.subrange(a as int, b as int);
    let start = if a < b && cs[a] == '+' {
        a + 1
    } else {
        a
    };
    let ghost body = cs@.subrange(start as int, b as int);
    assert(body =~= sign_stripped(s));
    if start == b {
        return None;
    }
    let mut j = start;
    while j < b
        invariant
            start <= j <= b <= cs@.len(),
            body == cs@.subrange(start as int, b as int),
            s == cs@.subrange(a as int, b as int),
            body == sign_stripped(s),
            forall|k: int| start <= k < j ==> is_digit(#[trigger] cs@[k]),
        decreases b - j,
    {
        if !('0' <= cs[j] && cs[j] <= '9') {
            assert(!is_digit(body[j - start]));
            assert(!all_digits(body));
            return None;
        }
        j += 1;
    }
    assert forall|k: int| 0 <= k < body.len() implies is_digit(#[trigger] body[k]) by {
        assert(body[k] == cs@[start + k]);
    }
    let mut value: u32 = 0;
    let mut i = start;
    while i < b
        invariant
            start <= i <= b <= cs@.len(),
            body == cs@.subrange(start as int, b as int),
            s == cs@.subrange(a as int, b as int),
            body == sign_stripped(s),
            body.len() > 0,
            forall|k: int| 0 <= k < body.len() ==> is_digit(#[trigger] body[k]),
            forall|k: int| start <= k < b ==> is_digit(#[trigger] cs@[k]),
            value == decimal_value(cs@.subrange(start as int, i as int)),
            value <= 255,
        decreases b - i,
    {
        let c = cs[i];
        assert(is_digit(cs@[i as int]));
        let d = (c as u32) - 48;
        assert(cs@.subrange(start as int, i + 1).drop_last() =~= cs@.subrange(start as int, i as int));
        let next = value * 10 + d;
        if next > 255 {
            proof {
                let rest = cs@.subrange(i + 1, b as int);
                let pre = cs@.subrange(start as int, i + 1);
                assert forall|k: int| 0 <= k < pre.len() implies is_digit(#[trigger] pre[k]) by {
                    assert(pre[k] == cs@[start + k]);
                }
                assert forall|k: int| 0 <= k < rest.len() implies is_digit(#[trigger] rest[k]) by {
                    assert(rest[k] == cs@[i + 1 + k]);
                }
                lemma_decimal_grows(pre, rest);
                assert(pre + rest =~= body);
            }
            return None;
        }
        value = next;
        i += 1;
    }
    Some(value as u8)
}

/// Appending digits never makes a decimal number smaller.
proof fn lemma_decimal_grows(pre: Seq<char>, rest: Seq<char>)
    requires
        forall|i: int| 0 <= i < pre.len() ==> is_digit(#[trigger] pre[i]),
        forall|i: int| 0 <= i < rest.len() ==> is_digit(#[trigger] rest[i]),
    ensures
        decimal_value(pre + rest) >= decimal_value(pre),
    decreases rest.len(),
{
    lemma_decimal_value_nonneg(pre);
    if rest.len() > 0 {
        lemma_decimal_grows(pre, rest.drop_last());
        assert((pre + rest).drop_last() =~= pre + rest.drop_last());
        assert((pre + rest).last() == rest.last());
    }
}

/// The key a lowercase name stands for.
pub open spec fn named_key(l: Seq<char>) -> Option<KeyCode> {
    if l == "backspace"@ {
        Some(KeyCode::Backspace)
    } else if l == "enter"@ || l == "return"@ {
        Some(KeyCode::Enter)
    } else if l == "left"@ {
        Some(KeyCode::Left)
    } else if l == "right"@ {
        Some(KeyCode::Right)
    } else if l == "up"@ {
        Some(KeyCode::Up)
    } else if l == "down"@ {
        Some(KeyCode::Down)
    } else if l == "home"@ {
        Some(KeyCode::Home)
    } else if l == "end"@ {
        Some(KeyCode::End)
    } else if l == "pageup"@ || l == "page_up"@ {
        Some(KeyCode::PageUp)
    } else if l == "pagedown"@ || l == "page_down"@ {
        Some(KeyCode::PageDown)
    } else if l == "tab"@ {
        Some(KeyCode::Tab)
    } else if l == "backtab"@ {
        Some(KeyCode::BackTab)
    } else if l == "delete"@ || l == "del"@ {
        Some(KeyCode::Delete)
    } else if l == "insert"@ || l == "ins"@ {
        Some(KeyCode::Insert)
    } else if l == "esc"@ || l == "escape"@ {
        Some(KeyCode::Esc)
    } else if l == "space"@ {
        Some(KeyCode::Char(' '))
    } else if l == "plus"@ {
        Some(KeyCode::Char('+'))
    } else if l == "minus"@ {
        Some(KeyCode::Char('-'))
    } else {
        None
    }
}

/// The key a token of a binding names: a key name (in any ASCII case), `f`
/// and a number from 1 to 24, or a single character.
pub open spec fn key_code_of(token: Seq<char>) -> Result<KeyCode, Seq<char>> {
    let l = ascii_lowercase(token);
    match named_key(l) {
        Some(c) => Ok(c),
        None => if l.len() > 0 && l[0] == 'f' && parse_u8_decimal(l.drop_first()) is Some && 1
            <= parse_u8_decimal(l.drop_first())->0 <= 24 {
            Ok(KeyCode::F(parse_u8_decimal(l.drop_first())->0))
        } else if token.len() == 1 {
            Ok(KeyCode::Char(token[0]))
        } else {
            Err("unknown key '"@ + token + "'"@)
        },
    }
}

/// Whether the characters equal those of `lit`.
fn is_text(cs: &[char], lit: &str) -> (b: bool)
    ensures
        b == (cs@ == lit@),
{
    let l = chars_of(lit);
    if cs.len() != l.len() {
        return false;
    }
    let mut i: usize = 0;
    while i < cs.len()
        invariant
            cs@.len() == l@.len(),
            i <= cs@.len(),
            l@ == lit@,
            forall|k: int| 0 <= k < i ==> cs@[k] == l@[k],
        decreases cs@.len() - i,
    {
        if cs[i] != l[i] {
            return false;
        }
        i += 1;
    }
    assert(cs@ =~= l@);
    true
}

/// The key named by a lowercase name, if any.
fn named_key_exec(l: &[char]) -> (r: Option<KeyCode>)
    ensures
        r == named_key(l@),
{
    if is_text(l, "backspace") {
        Some(KeyCode::Backspace)
    } else if is_text(l, "enter") || is_text(l, "return") {
        Some(KeyCode::Enter)
    } else if is_text(l, "left") {
        Some(KeyCode::Left)
    } else if is_text(l, "right") {
        Some(KeyCode::Right)
    } else if is_text(l, "up") {
        Some(KeyCode::Up)
    } else if is_text(l, "down") {
        Some(KeyCode::Down)
    } else if is_text(l, "home") {
        Some(KeyCode::Home)
    } else if is_text(l, "end") {
        Some(KeyCode::End)
    } else if is_text(l, "pageup") || is_text(l, "page_up") {
        Some(KeyCode::PageUp)
    } else if is_text(l, "pagedown") || is_text(l, "page_down") {
        Some(KeyCode::PageDown)
    } else if is_text(l, "tab") {
        Some(KeyCode::Tab)
    } else if is_text(l, "backtab") {
        Some(KeyCode::BackTab)
    } else if is_text(l, "delete") || is_text(l, "del") {
        Some(KeyCode::Delete)
    } else if is_text(l, "insert") || is_text(l, "ins") {
        Some(KeyCode::Insert)
    } else if is_text(l, "esc") || is_text(l, "escape") {
        Some(KeyCode::Esc)
    } else if is_text(l, "space") {
        Some(KeyCode::Char(' '))
    } else if is_text(l, "plus") {
        Some(KeyCode::Char('+'))
    } else if is_text(l, "minus") {
        Some(KeyCode::Char('-'))
    } else {
        None
    }
}

/// The key a token of a binding names, or why it names none.
pub fn parse_key_code(token: &str) -> (r: Result<KeyCode, String>)
    ensures
        match key_code_of(token@) {
            Ok(c) => r == Ok::<KeyCode, String>(c),
            Err(e) => r matches Err(m) && m@ == e,
        },
{
    let cs = chars_of(token);
    let n = cs.len();
    let lower = ascii_lowercase_range(cs.as_slice(), 0, n);
    assert(cs@.subrange(0, n as int) =~= cs@);
    match named_key_exec(lower.as_slice()) {
        Some(c) => {
            return Ok(c);
        },
        None => {},
    }
    if lower.len() > 0 && lower[0] == 'f' {
        assert(lower@.subrange(1, lower@.len() as int) =~= lower@.drop_first());
        match parse_u8_range(lower.as_slice(), 1, lower.len()) {
            Some(number) => {
                if 1 <= number && number <= 24 {
                    return Ok(KeyCode::F(number));
                }
            },
            None => {},
        }
    }
    if n == 1 {
        return Ok(KeyCode::Char(cs[0]));
    }
    let mut message = String::new();
    push_str(&mut message, "unknown key '");
    push_str(&mut message, token);
    push_str(&mut message, "'");
    assert(message@ =~= "unknown key '"@ + token@ + "'"@);
    Err(message)
}

/// The pieces of `s` between copies of `sep` (as `str::split` yields them),
/// scanning from `i` with the current piece begun at `start`.
pub open spec fn split_pieces(s: Seq<char>, sep: char, start: int, i: int) -> Seq<Seq<char>>
    decreases s.len() - i,
{
    if i < 0 || i >= s.len() {
        seq![s.subrange(start, s.len() as int)]
    } else if s[i] == sep {
        seq![s.subrange(start, i)] + split_pieces(s, sep, i + 1, i + 1)
    } else {
        split_pieces(s, sep, start, i + 1)
    }
}

/// The `(start, end)` ranges of the pieces of `cs` between copies of `sep`.
pub(crate) fn split_ranges(cs: &[char], sep: char) -> (out: Vec<(usize, usize)>)
    ensures
        out@.len() == split_pieces(cs@, sep, 0, 0).len(),
        forall|k: int|
            0 <= k < out@.len() ==> (#[trigger] out@[k]).0 <= out@[k].1 <= cs@.len()
                && cs@.subrange(out@[k].0 as int, out@[k].1 as int) == split_pieces(cs@, sep, 0, 0)[k],
{
    let n = cs.len();
    let mut out: Vec<(usize, usize)> = Vec::new();
    let ghost mut done: Seq<Seq<char>> = Seq::empty();
    let mut start: usize = 0;
    let mut i: usize = 0;
    while i < n
        invariant
            start <= i <= n == cs@.len(),
            split_pieces(cs@, sep, 0, 0) == done + split_pieces(cs@, sep, start as int, i as int),
            out@.len() == done.len(),
            forall|k: int|
                0 <= k < out@.len() ==> (#[trigger] out@[k]).0 <= out@[k].1 <= cs@.len()
                    && cs@.subrange(out@[k].0 as int, out@[k].1 as int) == done[k],
        decreases n - i,
    {
        if cs[i] == sep {
            proof {
                assert(done + split_pieces(cs@, sep, start as int, i as int) =~= done.push(
                    cs@.subrange(start as int, i as int),
                ) + split_pieces(cs@, sep, i + 1, i + 1));
                done = done.push(cs@.subrange(start as int, i as int));
            }
            out.push((start, i));
            start = i + 1;
        }
        i += 1;
    }
    proof {
        assert(done + split_pieces(cs@, sep, start as int, i as int) =~= done.push(
            cs@.subrange(start as int, n as int),
        ));
        done = done.push(cs@.subrange(start as int, n as int));
    }
    out.push((start, n));
    out
}

/// Reads the tokens `pieces[k..]` (trimmed) of a chord specification,
/// given the modifier bits and key read so far.
pub open spec fn chord_scan(
    text: Seq<char>,
    pieces: Seq<Seq<char>>,
    k: int,
    m: u8,
    key: Option<KeyCode>,
) -> Result<KeyChord, Seq<char>>
    decreases pieces.len() - k,
{
    if k < 0 || k >= pieces.len() {
        match key {
            None => Err("missing key in chord '"@ + text + "'"@),
            Some(code) => Ok(normalized_chord(code, m)),
        }
    } else {
        let t = trim(pieces[k]);
        let l = ascii_lowercase(t);
        if t.len() == 0 {
            Err("use the name 'plus' for the + key"@)
        } else if l == "ctrl"@ || l == "control"@ {
            chord_scan(text, pieces, k + 1, m | 2u8, key)
        } else if l == "alt"@ || l == "option"@ {
            chord_scan(text, pieces, k + 1, m | 4u8, key)
        } else if l == "shift"@ {
            chord_scan(text, pieces, k + 1, m | 1u8, key)
        } else if l == "super"@ || l == "cmd"@ || l == "command"@ {
            chord_scan(text, pieces, k + 1, m | 8u8, key)
        } else if key is None {
            match key_code_of(t) {
                Ok(c) => chord_scan(text, pieces, k + 1, m, Some(c)),
                Err(e) => Err(e),
            }
        } else {
            Err("more than one key in chord '"@ + text + "'"@)
        }
    }
}

/// The chord a specification such as `ctrl+shift+g` names: `+`-separated
/// modifier names (in any ASCII case) and exactly one key.
pub open spec fn chord_of(text: Seq<char>) -> Result<KeyChord, Seq<char>> {
    chord_scan(text, split_pieces(text, '+', 0, 0), 0, 0, None)
}

/// A message that ends with the specification in quotes.
fn quoted_message(prefix: &str, text: &str, suffix: &str) -> (m: String)
    ensures
        m@ == prefix@ + text@ + suffix@,
{
    let mut m = String::new();
    push_str(&mut m, prefix);
    push_str(&mut m, text);
    push_str(&mut m, suffix);
    assert(m@ =~= prefix@ + text@ + suffix@);
    m
}

impl KeyChord {
    /// Read a chord specification such as `ctrl+shift+g`, or say what is
    /// wrong with it.
    pub fn parse(spec: &str) -> (r: Result<KeyChord, String>)
        ensures
            match chord_of(spec@) {
                Ok(c) => r == Ok::<KeyChord, String>(c),
                Err(e) => r matches Err(m) && m@ == e,
            },
    {
        let cs = chars_of(spec);
        let ranges = split_ranges(cs.as_slice(), '+');
        let ghost pieces = split_pieces(cs@, '+', 0, 0);
        let mut modifiers: u8 = 0;
        let mut key: Option<KeyCode> = None;
        let mut k: usize = 0;
        while k < ranges.len()
            invariant
                k <= ranges@.len() == pieces.len(),
                cs@ == spec@,
                pieces == split_pieces(cs@, '+', 0, 0),
                forall|j: int|
                    0 <= j < ranges@.len() ==> (#[trigger] ranges@[j]).0 <= ranges@[j].1 <= cs@.len()
                        && cs@.subrange(ranges@[j].0 as int, ranges@[j].1 as int) == pieces[j],
                chord_of(spec@) == chord_scan(spec@, pieces, k as int, modifiers, key),
            decreases ranges@.len() - k,
        {
            let (a, b) = ranges[k];
            let piece = slice_chars(cs.as_slice(), a, b);
            let (ta, tb) = trim_bounds(piece.as_slice());
            let ghost t = trim(pieces[k as int]);
            assert(piece@ == pieces[k as int]);
            let token = string_of_range(piece.as_slice(), ta, tb);
            let lower = ascii_lowercase_range(piece.as_slice(), ta, tb);
            assert(token@ == t);
            if ta == tb {
                let mut m = String::new();
                push_str(&mut m, "use the name 'plus' for the + key");
                assert(m@ =~= "use the name 'plus' for the + key"@);
                return Err(m);
            } else if is_text(lower.as_slice(), "ctrl") || is_text(lower.as_slice(), "control") {
                modifiers = modifiers | 2u8;
            } else if is_text(lower.as_slice(), "alt") || is_text(lower.as_slice(), "option") {
                modifiers = modifiers | 4u8;
            } else if is_text(lower.as_slice(), "shift") {
                modifiers = modifiers | 1u8;
            } else if is_text(lower.as_slice(), "super") || is_text(lower.as_slice(), "cmd") || is_text(
                lower.as_slice(),
                "command",
            ) {
                modifiers = modifiers | 8u8;
            } else if key.is_none() {
                match parse_key_code(token.as_str()) {
                    Ok(c) => {
                        key = Some(c);
                    },
                    Err(e) => {
                        return Err(e);
                    },
                }
            } else {
                return Err(quoted_message("more than one key in chord '", spec, "'"));
            }
            k += 1;
        }
        match key {
            None => Err(quoted_message("missing key in chord '", spec, "'")),
            Some(code) => Ok(KeyChord::normalized(code, modifiers)),
        }
    }
}

/// `cs[a..b]` as a vector.
pub(crate) fn slice_chars(cs: &[char], a: usize, b: usize) -> (out: Vec<char>)
    requires
        a <= b <= cs@.len(),
    ensures
        out@ == cs@.subrange(a as int, b as int),
{
    let mut out: Vec<char> = Vec::new();
    let mut i = a;
    while i < b
        invariant
            a <= i <= b <= cs@.len(),
            out@ == cs@.subrange(a as int, i as int),
        decreases b - i,
    {
        out.push(cs[i]);
        i += 1;
    }
    out
}

/// The character of a decimal digit.
pub open spec fn digit_char(d: int) -> char {
    if d == 0 {
        '0'
    } else if d == 1 {
        '1'
    } else if d == 2 {
        '2'
    } else if d == 3 {
        '3'
    } else if d == 4 {
        '4'
    } else if d == 5 {
        '5'
    } else if d == 6 {
        '6'
    } else if d == 7 {
        '7'
    } else if d == 8 {
        '8'
    } else {
        '9'
    }
}

/// Decimal text of a number.
pub open spec fn decimal_text(n: nat) -> Seq<char>
    decreases n,
{
    if n < 10 {
        seq![digit_char(n as int)]
    } else {
        decimal_text(n / 10).push(digit_char((n % 10) as int))
    }
}

/// The character of a decimal digit.
fn digit(d: u8) -> (c: char)
    requires
        d < 10,
    ensures
        c == digit_char(d as int),
{
    if d == 0 {
        '0'
    } else if d == 1 {
        '1'
    } else if d == 2 {
        '2'
    } else if d == 3 {
        '3'
    } else if d == 4 {
        '4'
    } else if d == 5 {
        '5'
    } else if d == 6 {
        '6'
    } else if d == 7 {
        '7'
    } else if d == 8 {
        '8'
    } else {
        '9'
    }
}

/// Appends the decimal text of `n`.
pub fn push_decimal_usize(out: &mut String, n: usize)
    ensures
        final(out)@ == old(out)@ + decimal_text(n as nat),
    decreases n,
{
    if n < 10 {
        push_char(out, digit(n as u8));
        assert(old(out)@.push(digit_char(n as int)) =~= old(out)@ + decimal_text(n as nat));
    } else {
        push_decimal_usize(out, n / 10);
        let ghost mid = out@;
        push_char(out, digit((n % 10) as u8));
        assert(mid.push(digit_char((n % 10) as int)) =~= old(out)@ + decimal_text(n as nat));
    }
}

proof fn lemma_digit_char(d: int)
    requires
        0 <= d < 10,
    ensures
        digit_char(d) as int - 48 == d,
        is_digit(digit_char(d)),
{
}

/// The decimal text of a number consists of digits and reads back as the
/// number.
pub proof fn lemma_decimal_text(n: nat)
    ensures
        all_digits(decimal_text(n)),
        decimal_text(n).len() > 0,
        decimal_value(decimal_text(n)) == n,
    decreases n,
{
    lemma_digit_char((n % 10) as int);
    if n < 10 {
        assert(decimal_text(n).drop_last() =~= Seq::<char>::empty());
        assert(n % 10 == n);
        assert(decimal_value(decimal_text(n)) == decimal_value(Seq::<char>::empty()) * 10 + ((digit_char(n as int) as int) - 48));
    } else {
        lemma_decimal_text(n / 10);
        let t = decimal_text(n / 10);
        let u = t.push(digit_char((n % 10) as int));
        assert(u.drop_last() =~= t);
        assert(u.last() == digit_char((n % 10) as int));
        assert(decimal_value(u) == decimal_value(t) * 10 + ((u.last() as int) - 48));
        assert(n == (n / 10) * 10 + n % 10);
        assert(decimal_value(u) == n);
        assert forall|i: int| 0 <= i < u.len() implies is_digit(#[trigger] u[i]) by {
            if i < t.len() {
                assert(u[i] == t[i]);
            }
        }
    }
}

/// Appends the decimal text of `n`.
fn push_decimal(out: &mut String, n: u8)
    ensures
        final(out)@ == old(out)@ + decimal_text(n as nat),
{
    proof {
        reveal_with_fuel(decimal_text, 3);
    }
    if n < 10 {
        push_char(out, digit(n));
        assert(old(out)@.push(digit_char(n as int)) =~= old(out)@ + decimal_text(n as nat));
    } else if n < 100 {
        push_char(out, digit(n / 10));
        push_char(out, digit(n % 10));
        assert(old(out)@.push(digit_char((n / 10) as int)).push(digit_char((n % 10) as int)) =~= old(out)@
            + decimal_text(n as nat));
    } else {
        push_char(out, digit(n / 100));
        push_char(out, digit((n / 10) % 10));
        push_char(out, digit(n % 10));
        assert(decimal_text((n / 10) as nat) == decimal_text((n / 100) as nat).push(
            digit_char(((n / 10) % 10) as int),
        ));
        assert(old(out)@.push(digit_char((n / 100) as int)).push(digit_char(((n / 10) % 10) as int)).push(
            digit_char((n % 10) as int),
        ) =~= old(out)@ + decimal_text(n as nat));
    }
}

/// How a key is written in labels.
pub open spec fn key_label(code: KeyCode) -> Seq<char> {
    match code {
        KeyCode::Backspace => "Backspace"@,
        KeyCode::Enter => "Enter"@,
        KeyCode::Left => "Left"@,
        KeyCode::Right => "Right"@,
        KeyCode::Up => "Up"@,
        KeyCode::Down => "Down"@,
        KeyCode::Home => "Home"@,
        KeyCode::End => "End"@,
        KeyCode::PageUp => "PageUp"@,
        KeyCode::PageDown => "PageDown"@,
        KeyCode::Tab => "Tab"@,
        KeyCode::Delete => "Delete"@,
        KeyCode::Insert => "Insert"@,
        KeyCode::Esc => "Esc"@,
        KeyCode::Null => "Null"@,
        KeyCode::CapsLock => "CapsLock"@,
        KeyCode::ScrollLock => "ScrollLock"@,
        KeyCode::NumLock => "NumLock"@,
        KeyCode::PrintScreen => "PrintScreen"@,
        KeyCode::Pause => "Pause"@,
        KeyCode::Menu => "Menu"@,
        KeyCode::KeypadBegin => "KeypadBegin"@,
        KeyCode::BackTab => "Shift+Tab"@,
        KeyCode::F(n) => seq!['F'] + decimal_text(n as nat),
        KeyCode::Char(c) => if c == ' ' {
            "Space"@
        } else if c == '+' {
            "Plus"@
        } else {
            seq![c]
        },
    }
}

/// The modifier names of a chord label, each followed by `+`, in the order
/// Ctrl, Alt, Shift, Super.
pub open spec fn modifier_prefix(m: u8) -> Seq<char> {
    (if m & 2u8 != 0 {
        "Ctrl+"@
    } else {
        Seq::empty()
    }) + (if m & 4u8 != 0 {
        "Alt+"@
    } else {
        Seq::empty()
    }) + (if m & 1u8 != 0 {
        "Shift+"@
    } else {
        Seq::empty()
    }) + (if m & 8u8 != 0 {
        "Super+"@
    } else {
        Seq::empty()
    })
}

/// How a chord is written in labels and messages, e.g. `Ctrl+Shift+g`.
pub open spec fn chord_label(c: KeyChord) -> Seq<char> {
    modifier_prefix(c.modifiers) + key_label(c.code)
}

/// The labels of the chords of a sequence, separated by spaces.
pub open spec fn sequence_label(cs: Seq<KeyChord>) -> Seq<char>
    decreases cs.len(),
{
    if cs.len() == 0 {
        Seq::empty()
    } else if cs.len() == 1 {
        chord_label(cs[0])
    } else {
        sequence_label(cs.drop_last()) + seq![' '] + chord_label(cs.last())
    }
}

/// Appends `lit` when `on` holds.
fn push_if(out: &mut String, on: bool, lit: &str)
    ensures
        final(out)@ == old(out)@ + if on {
            lit@
        } else {
            Seq::empty()
        },
{
    if on {
        push_str(out, lit);
    } else {
        assert(old(out)@ + Seq::<char>::empty() =~= old(out)@);
    }
}

/// Appends the label of a key.
fn push_key_label(out: &mut String, code: KeyCode)
    ensures
        final(out)@ == old(out)@ + key_label(code),
{
    match code {
        KeyCode::Backspace => push_str(out, "Backspace"),
        KeyCode::Enter => push_str(out, "Enter"),
        KeyCode::Left => push_str(out, "Left"),
        KeyCode::Right => push_str(out, "Right"),
        KeyCode::Up => push_str(out, "Up"),
        KeyCode::Down => push_str(out, "Down"),
        KeyCode::Home => push_str(out, "Home"),
        KeyCode::End => push_str(out, "End"),
        KeyCode::PageUp => push_str(out, "PageUp"),
        KeyCode::PageDown => push_str(out, "PageDown"),
        KeyCode::Tab => push_str(out, "Tab"),
        KeyCode::Delete => push_str(out, "Delete"),
        KeyCode::Insert => push_str(out, "Insert"),
        KeyCode::Esc => push_str(out, "Esc"),
        KeyCode::Null => push_str(out, "Null"),
        KeyCode::CapsLock => push_str(out, "CapsLock"),
        KeyCode::ScrollLock => push_str(out, "ScrollLock"),
        KeyCode::NumLock => push_str(out, "NumLock"),
        KeyCode::PrintScreen => push_str(out, "PrintScreen"),
        KeyCode::Pause => push_str(out, "Pause"),
        KeyCode::Menu => push_str(out, "Menu"),
        KeyCode::KeypadBegin => push_str(out, "KeypadBegin"),
        KeyCode::BackTab => push_str(out, "Shift+Tab"),
        KeyCode::F(n) => {
            push_char(out, 'F');
            push_decimal(out, n);
            assert(old(out)@.push('F') + decimal_text(n as nat) =~= old(out)@ + (seq!['F']
                + decimal_text(n as nat)));
        },
        KeyCode::Char(c) => {
            if c == ' ' {
                push_str(out, "Space");
            } else if c == '+' {
                push_str(out, "Plus");
            } else {
                push_char(out, c);
                assert(old(out)@.push(c) =~= old(out)@ + seq![c]);
            }
        },
    }
}

impl KeyChord {
    /// Appends the label of the chord.
    pub fn push_label(&self, out: &mut String)
        ensures
            final(out)@ == old(out)@ + chord_label(*self),
    {
        let m = self.modifiers;
        push_if(out, m & 2u8 != 0, "Ctrl+");
        push_if(out, m & 4u8 != 0, "Alt+");
        push_if(out, m & 1u8 != 0, "Shift+");
        push_if(out, m & 8u8 != 0, "Super+");
        let ghost mid = out@;
        push_key_label(out, self.code);
        assert(old(out)@ + chord_label(*self) =~= mid + key_label(self.code));
    }

    /// The label of the chord, e.g. `Ctrl+Shift+g`.
    pub fn label(&self) -> (s: String)
        ensures
            s@ == chord_label(*self),
    {
        let mut s = String::new();
        self.push_label(&mut s);
        assert(Seq::<char>::empty() + chord_label(*self) =~= chord_label(*self));
        s
    }
}

/// The chords of the words `ws[k..]`, or the first error among them.
pub open spec fn chords_from(ws: Seq<Seq<char>>, k: int) -> Result<Seq<KeyChord>, Seq<char>>
    decreases ws.len() - k,
{
    if k < 0 || k >= ws.len() {
        Ok(Seq::empty())
    } else {
        match chord_of(ws[k]) {
            Err(e) => Err(e),
            Ok(c) => match chords_from(ws, k + 1) {
                Ok(r) => Ok(seq![c] + r),
                Err(e) => Err(e),
            },
        }
    }
}

/// The key sequence a binding specification names: whitespace-separated
/// chords, at least one.
pub open spec fn sequence_of(text: Seq<char>) -> Result<Seq<KeyChord>, Seq<char>> {
    match chords_from(words(text), 0) {
        Err(e) => Err(e),
        Ok(cs) => if cs.len() == 0 {
            Err("binding cannot be empty"@)
        } else {
            Ok(cs)
        },
    }
}

/// A sequence of chords pressed one after another.
#[derive(Debug, Clone)]
pub struct KeySequence(pub Vec<KeyChord>);

impl KeySequence {
    /// Read a binding specification such as `z shift+m`, or say what is wrong
    /// with it.
    pub fn parse(spec: &str) -> (r: Result<KeySequence, String>)
        ensures
            match sequence_of(spec@) {
                Ok(cs) => r matches Ok(q) && q.0@ == cs,
                Err(e) => r matches Err(m) && m@ == e,
            },
    {
        let cs = chars_of(spec);
        let ranges = word_ranges_exec(cs.as_slice(), 0);
        proof {
            lemma_word_ranges(cs@, 0);
        }
        let ghost ws = words(cs@);
        let mut chords: Vec<KeyChord> = Vec::new();
        let mut k: usize = 0;
        while k < ranges.len()
            invariant
                k <= ranges@.len() == ws.len(),
                cs@ == spec@,
                ws == words(cs@),
                ranges@.len() == word_ranges(cs@, 0).len(),
                forall|j: int|
                    0 <= j < ranges@.len() ==> (#[trigger] ranges@[j]).0 as int == word_ranges(cs@, 0)[j].0
                        && ranges@[j].1 as int == word_ranges(cs@, 0)[j].1,
                forall|j: int|
                    0 <= j < word_ranges(cs@, 0).len() ==> 0 <= (#[trigger] word_ranges(cs@, 0)[j]).0
                        < word_ranges(cs@, 0)[j].1 <= cs@.len(),
                chords_from(ws, 0) == match chords_from(ws, k as int) {
                    Ok(r) => Ok(chords@ + r),
                    Err(e) => Err(e),
                },
            decreases ranges@.len() - k,
        {
            let (a, b) = ranges[k];
            let word = string_of_range(cs.as_slice(), a, b);
            assert(word@ == ws[k as int]);
            match KeyChord::parse(word.as_str()) {
                Ok(c) => {
                    proof {
                        match chords_from(ws, k + 1) {
                            Ok(r) => {
                                assert(chords@ + (seq![c] + r) =~= chords@.push(c) + r);
                            },
                            Err(_) => {},
                        }
                    }
                    chords.push(c);
                },
                Err(e) => {
                    return Err(e);
                },
            }
            k += 1;
        }
        assert(chords@ + Seq::<KeyChord>::empty() =~= chords@);
        if chords.len() == 0 {
            let mut m = String::new();
            push_str(&mut m, "binding cannot be empty");
            assert(m@ =~= "binding cannot be empty"@);
            return Err(m);
        }
        Ok(KeySequence(chords))
    }

    /// Appends the label of the sequence: its chords' labels separated by
    /// spaces.
    pub fn push_label(&self, out: &mut String)
        ensures
            final(out)@ == old(out)@ + sequence_label(self.0@),
    {
        let ghost base = old(out)@;
        let mut i: usize = 0;
        while i < self.0.len()
            invariant
                i <= self.0@.len(),
                out@ == base + sequence_label(self.0@.take(i as int)),
            decreases self.0@.len() - i,
        {
            let ghost before = out@;
            if i > 0 {
                push_char(out, ' ');
            }
            self.0[i].push_label(out);
            proof {
                let t = self.0@.take(i + 1);
                assert(t.drop_last() =~= self.0@.take(i as int));
                assert(t.last() == self.0@[i as int]);
                if i == 0 {
                    assert(sequence_label(self.0@.take(0)) =~= Seq::<char>::empty());
                    assert(out@ =~= base + sequence_label(t));
                } else {
                    assert(out@ =~= base + sequence_label(t));
                }
            }
            i += 1;
        }
        assert(self.0@.take(self.0@.len() as int) =~= self.0@);
    }

    /// The label of the sequence, e.g. `z Shift+m`.
    pub fn label(&self) -> (s: String)
        ensures
            s@ == sequence_label(self.0@),
    {
        let mut s = String::new();
        self.push_label(&mut s);
        assert(Seq::<char>::empty() + sequence_label(self.0@) =~= sequence_label(self.0@));
        s
    }
}

} // verus!
