//! Small Markdown helpers: image destinations, heading slugs, inline code
//! detection and fuzzy matching of note names.
use vstd::prelude::*;
use vstd::utf8::{decode_utf8, encode_utf8, valid_utf8};

use crate::text::{
    byte_cut, char_len_utf8, chars_of, find_from, find_from_exec, is_alphanumeric, is_whitespace,
    lemma_find_from, lemma_utf8_len_concat, lemma_utf8_len_prefix, lemma_utf8_len_push, push_char,
    string_of, string_of_range, to_lowercase, trim, trim_bounds, unicode_alphanumeric,
    unicode_lowercase, unicode_white_space, skip_white, trim_white_end, utf8_len, utf8_len_range, lemma_utf8_len_le_4x,
    lemma_utf8_len_ge_len, same_chars,
};

verus! {

/// `s` begins with `p`.
pub open spec fn starts_with(s: Seq<char>, p: Seq<char>) -> bool {
    p.len() <= s.len() && s.take(p.len() as int) =~= p
}

/// Value of an ASCII hexadecimal digit byte.
pub open spec fn hex_digit_value(b: u8) -> Option<u8> {
    if 48 <= b <= 57 {
        Some((b - 48) as u8)
    } else if 97 <= b <= 102 {
        Some((b - 87) as u8)
    } else if 65 <= b <= 70 {
        Some((b - 55) as u8)
    } else {
        None
    }
}

/// `bs[i..]` with every `%XX` escape (two hex digits) replaced by its byte.
pub open spec fn percent_decoded(bs: Seq<u8>, i: int) -> Seq<u8>
    decreases bs.len() - i,
{
    if i < 0 || i >= bs.len() {
        Seq::empty()
    } else if bs[i] == 37 && i + 2 < bs.len() && hex_digit_value(bs[i + 1]) is Some && hex_digit_value(
        bs[i + 2],
    ) is Some {
        seq![(hex_digit_value(bs[i + 1])->0 * 16 + hex_digit_value(bs[i + 2])->0) as u8] + percent_decoded(
            bs,
            i + 3,
        )
    } else {
        seq![bs[i]] + percent_decoded(bs, i + 1)
    }
}

/// Hex digits are read without regard to case: `0`-`9` are 0 to 9, and
/// `a`-`f` and `A`-`F` alike are 10 to 15; no other byte is a digit.
pub proof fn lemma_hex_digits_case_insensitive(b: u8)
    ensures
        48 <= b <= 57 ==> hex_digit_value(b) == Some((b - 48) as u8),
        97 <= b <= 102 ==> hex_digit_value(b) == Some((b - 87) as u8) && hex_digit_value(b) == hex_digit_value(
            (b - 32) as u8,
        ),
        65 <= b <= 70 ==> hex_digit_value(b) == Some((b - 55) as u8),
        hex_digit_value(b) is Some <==> (48 <= b <= 57 || 97 <= b <= 102 || 65 <= b <= 70),
{
}

proof fn lemma_percent_same_tail(bs: Seq<u8>, cs: Seq<u8>, k: int)
    requires
        bs.len() == cs.len(),
        0 <= k,
        forall|m: int| k <= m < bs.len() ==> bs[m] == cs[m],
    ensures
        percent_decoded(bs, k) == percent_decoded(cs, k),
    decreases bs.len() - k,
{
    if k < bs.len() {
        lemma_percent_same_tail(bs, cs, k + 1);
        if k + 3 <= bs.len() {
            lemma_percent_same_tail(bs, cs, k + 3);
        }
    }
}

/// An escape decodes to the same byte whichever case its hex letters are
/// written in: writing an upper-case digit of the escape at `i` in lower
/// case leaves the decoding unchanged (`%4a` and `%4A` both give `J`).
pub proof fn lemma_escape_case_insensitive(bs: Seq<u8>, i: int, j: int)
    requires
        0 <= i,
        i + 2 < bs.len(),
        bs[i] == 37,
        hex_digit_value(bs[i + 1]) is Some,
        hex_digit_value(bs[i + 2]) is Some,
        j == i + 1 || j == i + 2,
        65 <= bs[j] <= 70,
    ensures
        percent_decoded(bs.update(j, (bs[j] + 32) as u8), i) == percent_decoded(bs, i),
{
    let cs = bs.update(j, (bs[j] + 32) as u8);
    lemma_percent_same_tail(bs, cs, i + 3);
    assert(hex_digit_value(cs[j]) == hex_digit_value(bs[j]));
}

/// Appending a letter or digit to a heading appends its lowercase to the
/// slug; appending any other character that breaks no word (punctuation)
/// leaves the slug as it was.
pub proof fn lemma_slug_appends(x: Seq<char>, c: char)
    ensures
        unicode_alphanumeric(c) ==> slug_from(x.push(c), 0, Seq::empty(), true) == slug_from(
            x,
            0,
            Seq::empty(),
            true,
        ) + unicode_char_lowercase(c),
        !unicode_alphanumeric(c) && !breaks_word(c) ==> slug_from(x.push(c), 0, Seq::empty(), true)
            == slug_from(x, 0, Seq::empty(), true),
{
    let one = seq![c];
    assert(x.push(c) =~= x + one);
    lemma_slug_concat(x, one, 0, Seq::empty(), true);
    lemma_slug_state_text(x, 0, Seq::empty(), true);
    let st = slug_state(x, 0, Seq::empty(), true);
    assert(one[0] == c);
    assert(slug_from(one, 1, st.0 + unicode_char_lowercase(c), false) == st.0 + unicode_char_lowercase(c));
    assert(slug_from(one, 1, st.0, st.1) == st.0);
}

/// Word breaks at the start of a heading leave no mark in its slug.
pub proof fn lemma_leading_word_breaks_vanish(r: Seq<char>, y: Seq<char>)
    requires
        forall|i: int| 0 <= i < r.len() ==> is_word_break(#[trigger] r[i]),
    ensures
        slug_from(r + y, 0, Seq::empty(), true) == slug_from(y, 0, Seq::empty(), true),
{
    lemma_slug_concat(r, y, 0, Seq::empty(), true);
    if r.len() > 0 {
        assert(is_word_break(r[0]));
        lemma_slug_state_run(r, 1, Seq::empty());
        assert(slug_state(r, 0, Seq::empty(), true) == slug_state(r, 1, Seq::empty(), true));
    }
}

/// Bytes other than `%` pass through decoding unchanged.
pub proof fn lemma_plain_bytes_pass_through(bs: Seq<u8>, i: int)
    requires
        0 <= i <= bs.len(),
        forall|m: int| i <= m < bs.len() ==> #[trigger] bs[m] != 37,
    ensures
        percent_decoded(bs, i) == bs.skip(i),
    decreases bs.len() - i,
{
    if i < bs.len() {
        lemma_plain_bytes_pass_through(bs, i + 1);
        assert(seq![bs[i]] + bs.skip(i + 1) =~= bs.skip(i));
    } else {
        assert(bs.skip(i) =~= Seq::<u8>::empty());
    }
}

/// An escape `%` then two decimal digits `X` and `Y` decodes to the byte
/// `16 * X + Y`: the first digit is the high one.
pub proof fn lemma_decimal_escape(bs: Seq<u8>, i: int)
    requires
        0 <= i,
        i + 2 < bs.len(),
        bs[i] == 37,
        48 <= bs[i + 1] <= 57,
        48 <= bs[i + 2] <= 57,
    ensures
        percent_decoded(bs, i) == seq![((bs[i + 1] - 48) * 16 + (bs[i + 2] - 48)) as u8] + percent_decoded(bs, i + 3),
{
}

/// The text with its `%XX` escapes decoded, or the text unchanged when the
/// decoded bytes are not UTF-8.
pub open spec fn percent_decoded_text(s: Seq<char>) -> Seq<char> {
    let pd = percent_decoded(encode_utf8(s), 0);
    if valid_utf8(pd) {
        decode_utf8(pd)
    } else {
        s
    }
}

/// `String::from_utf8`: the string whose UTF-8 encoding is `bytes`, if the
/// bytes are valid UTF-8.
#[verifier::external_body]
fn string_from_utf8(bytes: Vec<u8>) -> (r: Option<String>)
    ensures
        r is Some <==> valid_utf8(bytes@),
        r matches Some(s) ==> s@ == decode_utf8(bytes@),
{
    String::from_utf8(bytes).ok()
}

/// The value of a hex digit byte.
fn hex_value(b: u8) -> (r: Option<u8>)
    ensures
        r == hex_digit_value(b),
{
    if 48 <= b && b <= 57 {
        Some(b - 48)
    } else if 97 <= b && b <= 102 {
        Some(b - 87)
    } else if 65 <= b && b <= 70 {
        Some(b - 55)
    } else {
        None
    }
}

/// Decode `%XX` escapes in a URL fragment, leaving other bytes intact; the
/// text comes back unchanged when the decoded bytes are not UTF-8.
pub fn percent_decode(s: &str) -> (r: String)
    ensures
        r@ == percent_decoded_text(s@),
{
    let bytes = s.as_bytes();
    let n = bytes.len();
    let mut out: Vec<u8> = Vec::new();
    let mut i: usize = 0;
    let ghost bs = bytes@;
    while i < n
        invariant
            i <= n == bs.len(),
            bs == bytes@,
            percent_decoded(bs, 0) == out@ + percent_decoded(bs, i as int),
        decreases n - i,
    {
        if bytes[i] == 37 && n - i > 2 {
            let hi = hex_value(bytes[i + 1]);
            let lo = hex_value(bytes[i + 2]);
            match (hi, lo) {
                (Some(h), Some(l)) => {
                    let v: u8 = h * 16 + l;
                    proof {
                        assert(out@.push(v) + percent_decoded(bs, i + 3) =~= out@ + percent_decoded(
                            bs,
                            i as int,
                        ));
                    }
                    out.push(v);
                    i += 3;
                    continue;
                },
                _ => {},
            }
        }
        proof {
            assert(out@.push(bs[i as int]) + percent_decoded(bs, i + 1) =~= out@ + percent_decoded(
                bs,
                i as int,
            ));
        }
        out.push(bytes[i]);
        i += 1;
    }
    assert(out@ + percent_decoded(bs, n as int) =~= out@);
    match string_from_utf8(out) {
        Some(decoded) => decoded,
        None => s.to_owned(),
    }
}

/// A destination with one pair of enclosing angle brackets removed.
pub open spec fn strip_angles(d: Seq<char>) -> Seq<char> {
    if d.len() >= 2 && d[0] == '<' && d[d.len() - 1] == '>' {
        d.subrange(1, d.len() - 1)
    } else {
        d
    }
}

/// The destination names a remote `http://` or `https://` resource.
pub open spec fn is_remote(d: Seq<char>) -> bool {
    starts_with(d, seq!['h', 't', 't', 'p', ':', '/', '/']) || starts_with(
        d,
        seq!['h', 't', 't', 'p', 's', ':', '/', '/'],
    )
}

/// What [`normalize_image_destination`] makes of a destination.
pub open spec fn normalized_destination(d: Seq<char>) -> Seq<char> {
    let inner = strip_angles(d);
    if is_remote(inner) {
        inner
    } else {
        percent_decoded_text(inner)
    }
}

/// Whether `cs[from..]` starts with the characters of `p`.
fn starts_with_at(cs: &[char], from: usize, p: &[char]) -> (b: bool)
    requires
        from <= cs@.len(),
    ensures
        b == starts_with(cs@.skip(from as int), p@),
{
    let n = cs.len();
    if p.len() > n - from {
        return false;
    }
    let mut k: usize = 0;
    while k < p.len()
        invariant
            n == cs@.len(),
            from + p@.len() <= n,
            k <= p@.len(),
            forall|m: int| 0 <= m < k ==> cs@[from + m] == p@[m],
        decreases p@.len() - k,
    {
        if cs[from + k] != p[k] {
            assert(cs@.skip(from as int).take(p@.len() as int)[k as int] != p@[k as int]);
            return false;
        }
        k += 1;
    }
    assert(cs@.skip(from as int).take(p@.len() as int) =~= p@);
    true
}

/// Whether the characters name a remote resource.
fn is_remote_chars(cs: &[char]) -> (b: bool)
    ensures
        b == is_remote(cs@),
{
    let http = ['h', 't', 't', 'p', ':', '/', '/'];
    let https = ['h', 't', 't', 'p', 's', ':', '/', '/'];
    assert(http@ =~= seq!['h', 't', 't', 'p', ':', '/', '/']);
    assert(https@ =~= seq!['h', 't', 't', 'p', 's', ':', '/', '/']);
    assert(cs@.skip(0) =~= cs@);
    starts_with_at(cs, 0, &http) || starts_with_at(cs, 0, &https)
}

/// Normalize a Markdown image destination before using it for I/O.
///
/// CommonMark permits destinations containing spaces when they are enclosed
/// in angle brackets, and paths are commonly URL-encoded. Remote URLs keep
/// their percent escapes because the HTTP client expects a URL rather than a
/// local filesystem path.
pub fn normalize_image_destination(destination: &str) -> (r: String)
    ensures
        r@ == normalized_destination(destination@),
{
    let cs = chars_of(destination);
    let n = cs.len();
    let inner = if n >= 2 && cs[0] == '<' && cs[n - 1] == '>' {
        string_of_range(cs.as_slice(), 1, n - 1)
    } else {
        string_of(cs.as_slice())
    };
    let inner_chars = chars_of(inner.as_str());
    if is_remote_chars(inner_chars.as_slice()) {
        inner
    } else {
        percent_decode(inner.as_str())
    }
}

/// The destination of the one Markdown image that makes up the whole
/// (trimmed) line: it starts with `![` (not `!![`), the first `](` after it
/// opens the destination, the first `)` after that closes it at the very end
/// of the line, and the destination is not empty.
pub open spec fn standalone_path(line: Seq<char>) -> Option<Seq<char>> {
    let t = trim(line);
    if !starts_with(t, seq!['!', '[']) || starts_with(t, seq!['!', '!', '[']) {
        None
    } else {
        match find_from(t, seq![']', '('], 1) {
            None => None,
            Some(p) => match find_from(t, seq![')'], p + 2) {
                None => None,
                Some(e) => if e + 1 != t.len() || e == p + 2 {
                    None
                } else {
                    Some(t.subrange(p + 2, e))
                },
            },
        }
    }
}

/// Return the destination when a source line contains exactly one Markdown
/// image. Images mixed with text or followed by another image stay on the
/// prose line so the content renderer can lay them out as inline, wrapping
/// thumbnails.
pub fn standalone_image_path(line: &str) -> (r: Option<String>)
    ensures
        match standalone_path(line@) {
            None => r is None,
            Some(p) => r matches Some(s) && s@ == p,
        },
{
    let cs = chars_of(line);
    let (a, b) = trim_bounds(cs.as_slice());
    let t = slice_chars(cs.as_slice(), a, b);
    let ghost tt = t@;
    assert(tt == trim(line@));
    let open = ['!', '['];
    let double = ['!', '!', '['];
    assert(open@ =~= seq!['!', '[']);
    assert(double@ =~= seq!['!', '!', '[']);
    assert(t@.skip(0) =~= t@);
    if !starts_with_at(t.as_slice(), 0, &open) || starts_with_at(t.as_slice(), 0, &double) {
        return None;
    }
    let close = [']', '('];
    assert(close@ =~= seq![']', '(']);
    let p = match find_from_exec(t.as_slice(), &close, 1) {
        None => {
            return None;
        },
        Some(p) => p,
    };
    proof {
        lemma_find_from(tt, seq![']', '('], 1);
    }
    let paren = [')'];
    assert(paren@ =~= seq![')']);
    let e = match find_from_exec(t.as_slice(), &paren, p + 2) {
        None => {
            return None;
        },
        Some(e) => e,
    };
    proof {
        lemma_find_from(tt, seq![')'], p + 2);
    }
    if e + 1 != t.len() || e == p + 2 {
        return None;
    }
    Some(string_of_range(t.as_slice(), p + 2, e))
}

/// `cs[a..b]` as a vector.
fn slice_chars(cs: &[char], a: usize, b: usize) -> (out: Vec<char>)
    requires
        a <= b <= cs@.len(),
    ensures
        out@ == cs@.subrange(a as int, b as int),
{
    let mut out: Vec<char> = Vec::new();
    let mut i = a;
    while i < b
        invariant
            a <= i <= b <= cs@.len(),
            out@ == cs@.subrange(a as int, i as int),
        decreases b - i,
    {
        out.push(cs[i]);
        i += 1;
    }
    out
}

/// Number of backticks in `s`.
pub open spec fn backtick_count(s: Seq<char>) -> nat
    decreases s.len(),
{
    if s.len() == 0 {
        0
    } else {
        backtick_count(s.drop_last()) + if s.last() == '`' {
            1nat
        } else {
            0nat
        }
    }
}

/// Whether byte offset `position` of `text` lies inside an inline code span:
/// an odd number of backticks precede it.
pub fn is_inside_inline_code(text: &str, position: usize) -> (b: bool)
    requires
        byte_cut(text@, 0, position as int) matches Some(Some(_)),
    ensures
        b == (backtick_count(text@.take(byte_cut(text@, 0, position as int)->0->0)) % 2 == 1),
{
    let cs = chars_of(text);
    let n = cs.len();
    let mut k: usize = 0;
    let mut left = position;
    let mut count: usize = 0;
    assert(cs@.take(0) =~= Seq::<char>::empty());
    while left > 0 && k < n
        invariant
            k <= n == cs@.len(),
            left <= position,
            byte_cut(cs@, 0, position as int) == byte_cut(cs@, k as int, left as int),
            byte_cut(cs@, 0, position as int) matches Some(Some(_)),
            count == backtick_count(cs@.take(k as int)),
            count <= k,
        decreases n - k,
    {
        let w = char_len_utf8(cs[k]);
        assert(w <= left);
        proof {
            assert(cs@.take(k + 1).drop_last() =~= cs@.take(k as int));
        }
        if cs[k] == '`' {
            count += 1;
        }
        left -= w;
        k += 1;
    }
    count % 2 == 1
}

/// `char::to_lowercase`: the Unicode lowercase mapping of one character
/// (possibly several characters).
pub uninterp spec fn unicode_char_lowercase(c: char) -> Seq<char>;

/// Calls `char::to_lowercase` and collects the characters it yields.
/// Claims: they are the named mapping [`unicode_char_lowercase`] of `c`.
#[verifier::external_body]
fn char_lowercase(c: char) -> (r: Vec<char>)
    ensures
        r@ == unicode_char_lowercase(c),
{
    c.to_lowercase().collect()
}

/// Slug characters produced from `cs[k..]`, given the output so far and
/// whether it ends in a separator (or is still empty).
pub open spec fn slug_from(cs: Seq<char>, k: int, out: Seq<char>, last_dash: bool) -> Seq<char>
    decreases cs.len() - k,
{
    if k < 0 || k >= cs.len() {
        out
    } else if unicode_alphanumeric(cs[k]) {
        slug_from(cs, k + 1, out + unicode_char_lowercase(cs[k]), false)
    } else if (unicode_white_space(cs[k]) || cs[k] == '-' || cs[k] == '_') && !last_dash {
        slug_from(cs, k + 1, out.push('-'), true)
    } else {
        slug_from(cs, k + 1, out, last_dash)
    }
}

/// The slug text and separator state after reading `cs[k..]`, as
/// [`slug_from`] reads it.
pub open spec fn slug_state(cs: Seq<char>, k: int, out: Seq<char>, last_dash: bool) -> (Seq<char>, bool)
    decreases cs.len() - k,
{
    if k < 0 || k >= cs.len() {
        (out, last_dash)
    } else if unicode_alphanumeric(cs[k]) {
        slug_state(cs, k + 1, out + unicode_char_lowercase(cs[k]), false)
    } else if breaks_word(cs[k]) && !last_dash {
        slug_state(cs, k + 1, out.push('-'), true)
    } else {
        slug_state(cs, k + 1, out, last_dash)
    }
}

/// Whitespace, `-` or `_`.
pub open spec fn breaks_word(c: char) -> bool {
    unicode_white_space(c) || c == '-' || c == '_'
}

/// A separator of words in a heading: whitespace, `-` or `_`, and no
/// letter or digit.
pub open spec fn is_word_break(c: char) -> bool {
    breaks_word(c) && !unicode_alphanumeric(c)
}

proof fn lemma_slug_out_prefix(cs: Seq<char>, k: int, out: Seq<char>, last_dash: bool)
    ensures
        slug_from(cs, k, out, last_dash) == out + slug_from(cs, k, Seq::empty(), last_dash),
    decreases cs.len() - k,
{
    if 0 <= k < cs.len() {
        if unicode_alphanumeric(cs[k]) {
            let l = unicode_char_lowercase(cs[k]);
            lemma_slug_out_prefix(cs, k + 1, out + l, false);
            lemma_slug_out_prefix(cs, k + 1, Seq::empty() + l, false);
            assert(out + l + slug_from(cs, k + 1, Seq::empty(), false) =~= out + ((Seq::empty() + l) + slug_from(
                cs,
                k + 1,
                Seq::empty(),
                false,
            )));
        } else if breaks_word(cs[k]) && !last_dash {
            lemma_slug_out_prefix(cs, k + 1, out.push('-'), true);
            lemma_slug_out_prefix(cs, k + 1, Seq::empty().push('-'), true);
            assert(out.push('-') + slug_from(cs, k + 1, Seq::empty(), true) =~= out + (Seq::empty().push('-')
                + slug_from(cs, k + 1, Seq::empty(), true)));
        } else {
            lemma_slug_out_prefix(cs, k + 1, out, last_dash);
        }
    } else {
        assert(out + Seq::<char>::empty() =~= out);
    }
}

proof fn lemma_slug_shift(a: Seq<char>, b: Seq<char>, j: int, out: Seq<char>, last_dash: bool)
    requires
        0 <= j,
    ensures
        slug_from(a + b, a.len() + j, out, last_dash) == slug_from(b, j, out, last_dash),
    decreases b.len() - j,
{
    if j < b.len() {
        assert((a + b)[a.len() + j] == b[j]);
        let c = b[j];
        if unicode_alphanumeric(c) {
            lemma_slug_shift(a, b, j + 1, out + unicode_char_lowercase(c), false);
        } else if breaks_word(c) && !last_dash {
            lemma_slug_shift(a, b, j + 1, out.push('-'), true);
        } else {
            lemma_slug_shift(a, b, j + 1, out, last_dash);
        }
    }
}

proof fn lemma_slug_concat(a: Seq<char>, b: Seq<char>, k: int, out: Seq<char>, last_dash: bool)
    requires
        0 <= k <= a.len(),
    ensures
        slug_from(a + b, k, out, last_dash) == slug_from(
            b,
            0,
            slug_state(a, k, out, last_dash).0,
            slug_state(a, k, out, last_dash).1,
        ),
    decreases a.len() - k,
{
    if k < a.len() {
        assert((a + b)[k] == a[k]);
        let c = a[k];
        if unicode_alphanumeric(c) {
            lemma_slug_concat(a, b, k + 1, out + unicode_char_lowercase(c), false);
        } else if breaks_word(c) && !last_dash {
            lemma_slug_concat(a, b, k + 1, out.push('-'), true);
        } else {
            lemma_slug_concat(a, b, k + 1, out, last_dash);
        }
    } else {
        lemma_slug_shift(a, b, 0, out, last_dash);
    }
}

proof fn lemma_slug_state_text(cs: Seq<char>, k: int, out: Seq<char>, last_dash: bool)
    ensures
        slug_state(cs, k, out, last_dash).0 == slug_from(cs, k, out, last_dash),
    decreases cs.len() - k,
{
    if 0 <= k < cs.len() {
        let c = cs[k];
        if unicode_alphanumeric(c) {
            lemma_slug_state_text(cs, k + 1, out + unicode_char_lowercase(c), false);
        } else if breaks_word(c) && !last_dash {
            lemma_slug_state_text(cs, k + 1, out.push('-'), true);
        } else {
            lemma_slug_state_text(cs, k + 1, out, last_dash);
        }
    }
}

proof fn lemma_slug_state_after_word(cs: Seq<char>, k: int, out: Seq<char>, last_dash: bool)
    requires
        0 <= k < cs.len(),
        unicode_alphanumeric(cs.last()),
    ensures
        !slug_state(cs, k, out, last_dash).1,
    decreases cs.len() - k,
{
    let c = cs[k];
    if k + 1 < cs.len() {
        if unicode_alphanumeric(c) {
            lemma_slug_state_after_word(cs, k + 1, out + unicode_char_lowercase(c), false);
        } else if breaks_word(c) && !last_dash {
            lemma_slug_state_after_word(cs, k + 1, out.push('-'), true);
        } else {
            lemma_slug_state_after_word(cs, k + 1, out, last_dash);
        }
    } else {
        assert(c == cs.last());
        assert(slug_state(cs, k + 1, out + unicode_char_lowercase(c), false) == (
            out + unicode_char_lowercase(c),
            false,
        ));
    }
}

proof fn lemma_slug_state_run(r: Seq<char>, k: int, out: Seq<char>)
    requires
        1 <= k <= r.len(),
        forall|i: int| 0 <= i < r.len() ==> is_word_break(#[trigger] r[i]),
    ensures
        slug_state(r, k, out, true) == (out, true),
    decreases r.len() - k,
{
    if k < r.len() {
        assert(is_word_break(r[k]));
        lemma_slug_state_run(r, k + 1, out);
    }
}

/// A run of word breaks (whitespace, `-` or `_`) after a letter or digit
/// becomes exactly one `-` in the slug: the slug of `x`, then the run,
/// then `y` is the slug of `x`, a `-`, and the slug of `y`. So the slug of
/// `a-b` or `a b` is `a-b`, and `a - b` gives `a-b` too.
pub proof fn lemma_word_breaks_become_one_dash(x: Seq<char>, r: Seq<char>, y: Seq<char>)
    requires
        x.len() > 0,
        unicode_alphanumeric(x.last()),
        r.len() > 0,
        forall|i: int| 0 <= i < r.len() ==> is_word_break(#[trigger] r[i]),
    ensures
        slug_from(x + r + y, 0, Seq::empty(), true) == slug_from(x, 0, Seq::empty(), true) + seq!['-'] + slug_from(
            y,
            0,
            Seq::empty(),
            true,
        ),
{
    let xs = slug_from(x, 0, Seq::empty(), true);
    assert(x + r + y =~= x + (r + y));
    lemma_slug_concat(x, r + y, 0, Seq::empty(), true);
    lemma_slug_state_text(x, 0, Seq::empty(), true);
    lemma_slug_state_after_word(x, 0, Seq::empty(), true);
    lemma_slug_concat(r, y, 0, xs, false);
    assert(is_word_break(r[0]));
    lemma_slug_state_run(r, 1, xs.push('-'));
    lemma_slug_out_prefix(y, 0, xs.push('-'), true);
    assert(xs.push('-') + slug_from(y, 0, Seq::empty(), true) =~= xs + seq!['-'] + slug_from(y, 0, Seq::empty(), true));
}

/// The heading slug of `x`, a run of word breaks, and `y` (with no blanks
/// at either end of the heading) puts exactly one `-` between the slugs of
/// `x` and `y`; e.g. the slug of `Auto-save Settings` is `auto-save-settings`.
pub proof fn lemma_heading_slug_word_breaks(x: Seq<char>, r: Seq<char>, y: Seq<char>)
    requires
        x.len() > 0,
        unicode_alphanumeric(x.last()),
        !unicode_white_space(x[0]),
        r.len() > 0,
        forall|i: int| 0 <= i < r.len() ==> is_word_break(#[trigger] r[i]),
        y.len() > 0,
        !unicode_white_space(y.last()),
    ensures
        heading_slug(x + r + y) == strip_trailing_dashes(
            slug_from(x, 0, Seq::empty(), true) + seq!['-'] + slug_from(y, 0, Seq::empty(), true),
        ),
{
    let s = x + r + y;
    assert(s[0] == x[0]);
    assert(s[s.len() - 1] == y.last());
    assert(skip_white(s, 0) == 0);
    assert(trim_white_end(s, s.len() as int) == s.len());
    assert(s.subrange(0, s.len() as int) =~= s);
    assert(trim(s) == s);
    lemma_word_breaks_become_one_dash(x, r, y);
}

/// `s` without its trailing dashes.
pub open spec fn strip_trailing_dashes(s: Seq<char>) -> Seq<char>
    decreases s.len(),
{
    if s.len() > 0 && s.last() == '-' {
        strip_trailing_dashes(s.drop_last())
    } else {
        s
    }
}

/// The link-fragment slug of a heading.
pub open spec fn heading_slug(s: Seq<char>) -> Seq<char> {
    strip_trailing_dashes(slug_from(trim(s), 0, Seq::empty(), true))
}

/// Convert a heading into a link-fragment slug: lowercased, whitespace
/// collapsed to dashes, punctuation stripped (GitHub-style).
pub fn slugify_heading(s: &str) -> (r: String)
    ensures
        r@ == heading_slug(s@),
{
    let cs = chars_of(s);
    let (a, b) = trim_bounds(cs.as_slice());
    let t = slice_chars(cs.as_slice(), a, b);
    let mut out: Vec<char> = Vec::new();
    let mut last_dash = true;
    let mut k: usize = 0;
    while k < t.len()
        invariant
            k <= t@.len(),
            t@ == trim(s@),
            slug_from(t@, 0, Seq::empty(), true) == slug_from(t@, k as int, out@, last_dash),
        decreases t@.len() - k,
    {
        let ch = t[k];
        if is_alphanumeric(ch) {
            let lower = char_lowercase(ch);
            let ghost before = out@;
            let mut j: usize = 0;
            while j < lower.len()
                invariant
                    j <= lower@.len(),
                    out@ == before + lower@.take(j as int),
                decreases lower@.len() - j,
            {
                out.push(lower[j]);
                assert(before + lower@.take(j + 1) =~= (before + lower@.take(j as int)).push(lower@[j as int]));
                j += 1;
            }
            assert(lower@.take(lower@.len() as int) =~= lower@);
            last_dash = false;
        } else if (is_whitespace(ch) || ch == '-' || ch == '_') && !last_dash {
            out.push('-');
            last_dash = true;
        }
        k += 1;
    }
    let mut end = out.len();
    assert(out@.take(end as int) =~= out@);
    while end > 0 && out[end - 1] == '-'
        invariant
            end <= out@.len(),
            strip_trailing_dashes(out@) == strip_trailing_dashes(out@.take(end as int)),
        decreases end,
    {
        assert(out@.take(end as int).drop_last() =~= out@.take(end - 1));
        end -= 1;
    }
    assert(out@.take(end as int) =~= out@.subrange(0, end as int));
    string_of_range(out.as_slice(), 0, end)
}

/// Characters after which a match counts as the start of a word.
pub open spec fn is_word_separator(c: char) -> bool {
    c == ' ' || c == '_' || c == '-'
}

/// Points for matching the character at index `ti`: more for earlier
/// characters (at least one), and 30 more at the start of a word.
pub open spec fn match_gain(t: Seq<char>, ti: int) -> int {
    (if 100 - ti > 1 {
        100 - ti
    } else {
        1
    }) + (if ti == 0 || is_word_separator(t[ti - 1]) {
        30int
    } else {
        0int
    })
}

/// Greedy in-order match of the characters of `q[qi..]` in `t[ti..]`:
/// `score` accumulates [`match_gain`], `bonus` 20 for every match that
/// directly follows another. `None` when some query character is left over.
pub open spec fn fuzzy_scan(
    t: Seq<char>,
    q: Seq<char>,
    ti: int,
    qi: int,
    score: int,
    prev: bool,
    bonus: int,
) -> Option<int>
    decreases t.len() - ti,
{
    if ti < 0 || ti >= t.len() || qi >= q.len() {
        if qi >= q.len() {
            Some(score + bonus)
        } else {
            None
        }
    } else if t[ti] == q[qi] {
        fuzzy_scan(
            t,
            q,
            ti + 1,
            qi + 1,
            score + match_gain(t, ti),
            true,
            if prev {
                bonus + 20
            } else {
                bonus
            },
        )
    } else {
        fuzzy_scan(t, q, ti + 1, qi, score, false, bonus)
    }
}

/// The larger of `x` and zero.
pub open spec fn nonneg(x: int) -> int {
    if x > 0 {
        x
    } else {
        0
    }
}

/// The highest score of a match that is not exact.
pub const MAX_INEXACT_SCORE: i32 = 999;

/// Score of `text` against `query`, compared lowercased: an empty query
/// scores 0, an exact match 1000, a prefix 900 plus a bonus for short texts,
/// a substring 500 plus a bonus for early positions, and otherwise the
/// in-order character match of [`fuzzy_scan`], if there is one, held below
/// the exact-match score.
pub open spec fn fuzzy_score(text: Seq<char>, query: Seq<char>) -> Option<int> {
    let t = unicode_lowercase(text);
    let q = unicode_lowercase(query);
    if query.len() == 0 {
        Some(0)
    } else if t == q {
        Some(1000)
    } else if starts_with(t, q) {
        Some(900 + nonneg(100 - utf8_len(text)))
    } else if find_from(t, q, 0) is Some {
        Some(500 + nonneg(50 - utf8_len(t.take(find_from(t, q, 0)->0))))
    } else {
        match fuzzy_scan(t, q, 0, 0, 0, false, 0) {
            Some(v) => Some(if v > MAX_INEXACT_SCORE {
                MAX_INEXACT_SCORE as int
            } else {
                v
            }),
            None => None,
        }
    }
}

/// An exact match scores highest: a nonempty query against itself scores
/// 1000 and no text scores more than 1000, nor any text that is not an
/// exact match more than 999; a prefix that is not the whole text scores
/// from 900 to 999, a substring that is not a prefix from 500 to 549. (An
/// empty text is taken with its lowercase, which is empty too.)
pub proof fn lemma_fuzzy_exact_highest(text: Seq<char>, query: Seq<char>)
    ensures
        query.len() > 0 ==> fuzzy_score(query, query) == Some(1000int),
        fuzzy_score(text, query) matches Some(s) ==> 0 <= s <= 1000,
        query.len() > 0 && (text.len() > 0 || unicode_lowercase(text).len() == 0) && unicode_lowercase(text)
            != unicode_lowercase(query) ==> (fuzzy_score(text, query) matches Some(
            s,
        ) ==> s <= MAX_INEXACT_SCORE),
        ({
            let t = unicode_lowercase(text);
            let q = unicode_lowercase(query);
            query.len() > 0 && (text.len() > 0 || t.len() == 0) && t != q && starts_with(t, q) ==> (fuzzy_score(text, query) matches Some(s)
                && 900 <= s <= 999)
        }),
        ({
            let t = unicode_lowercase(text);
            let q = unicode_lowercase(query);
            query.len() > 0 && t != q && !starts_with(t, q) && find_from(t, q, 0) is Some ==> (fuzzy_score(
                text,
                query,
            ) matches Some(s) && 500 <= s <= 549)
        }),
{
    let t = unicode_lowercase(text);
    let q = unicode_lowercase(query);
    lemma_utf8_len_ge_len(text);
    if t.len() == 0 && q.len() == 0 {
        assert(t =~= q);
    }
    if query.len() > 0 && t != q && !starts_with(t, q) {
        lemma_find_from(t, q, 0);
        if let Some(p) = find_from(t, q, 0) {
            if p == 0 {
                assert(t.subrange(0, q.len() as int) =~= t.take(q.len() as int));
            }
            lemma_utf8_len_ge_len(t.take(p));
        } else {
            lemma_fuzzy_scan_nonneg(t, q, 0, 0, 0, false, 0);
        }
    }
}

/// A scan started from non-negative totals ends non-negative.
proof fn lemma_fuzzy_scan_nonneg(t: Seq<char>, q: Seq<char>, ti: int, qi: int, score: int, prev: bool, bonus: int)
    requires
        score >= 0,
        bonus >= 0,
    ensures
        fuzzy_scan(t, q, ti, qi, score, prev, bonus) matches Some(v) ==> v >= 0,
    decreases t.len() - ti,
{
    if ti < 0 || ti >= t.len() || qi >= q.len() {
    } else if t[ti] == q[qi] {
        lemma_fuzzy_scan_nonneg(
            t,
            q,
            ti + 1,
            qi + 1,
            score + match_gain(t, ti),
            true,
            if prev {
                bonus + 20
            } else {
                bonus
            },
        );
    } else {
        lemma_fuzzy_scan_nonneg(t, q, ti + 1, qi, score, false, bonus);
    }
}

/// Fuzzy matching that scores matches based on: an empty query matches
/// everything with base score; an exact match scores highest (every other
/// match scores at most [`MAX_INEXACT_SCORE`]); then a prefix match;
/// consecutive character matches and earlier matches earn bonus points.
/// Returns `None` if no match, or the match score otherwise.
pub fn fuzzy_match(text: &str, query: &str) -> (r: Option<i32>)
    requires
        utf8_len(text@) <= i32::MAX,
        utf8_len(unicode_lowercase(text@)) <= i32::MAX,
        150 * unicode_lowercase(query@).len() <= i32::MAX,
    ensures
        match fuzzy_score(text@, query@) {
            None => r is None,
            Some(v) => r matches Some(x) && x as int == v,
        },
        r matches Some(s) ==> 0 <= s <= 1000,
        query@.len() > 0 && unicode_lowercase(text@) != unicode_lowercase(query@) ==> (r matches Some(s) ==> s
            <= MAX_INEXACT_SCORE),
        ({
            let t = unicode_lowercase(text@);
            let q = unicode_lowercase(query@);
            query@.len() > 0 && t != q && starts_with(t, q) ==> (r matches Some(s) && 900 <= s <= 999)
        }),
        ({
            let t = unicode_lowercase(text@);
            let q = unicode_lowercase(query@);
            query@.len() > 0 && t != q && !starts_with(t, q) && find_from(t, q, 0) is Some ==> (r matches Some(s)
                && 500 <= s <= 549)
        }),
{
    proof {
        lemma_fuzzy_exact_highest(text@, query@);
    }
    let query_chars = chars_of(query);
    if query_chars.len() == 0 {
        return Some(0);
    }
    let lower_text = to_lowercase(text);
    let lower_query = to_lowercase(query);
    let t = chars_of(lower_text.as_str());
    proof {
        lemma_utf8_len_ge_len(t@);
    }
    let q = chars_of(lower_query.as_str());
    if same_chars(t.as_slice(), q.as_slice()) {
        return Some(1000);
    }
    assert(t@.skip(0) =~= t@);
    if starts_with_at(t.as_slice(), 0, q.as_slice()) {
        let text_chars = chars_of(text);
        assert(text_chars@.subrange(0, text_chars@.len() as int) =~= text_chars@);
        let len = utf8_len_range(text_chars.as_slice(), 0, text_chars.len()) as i32;
        let bonus = if 100 - len > 0 {
            100 - len
        } else {
            0
        };
        return Some(900 + bonus);
    }
    match find_from_exec(t.as_slice(), q.as_slice(), 0) {
        Some(p) => {
            proof {
                lemma_find_from(t@, q@, 0);
                lemma_utf8_len_prefix(t@, p as int);
                lemma_utf8_len_le_4x(t@);
                assert(t@.subrange(0, p as int) =~= t@.take(p as int));
            }
            let pos = utf8_len_range(t.as_slice(), 0, p) as i32;
            let bonus = if 50 - pos > 0 {
                50 - pos
            } else {
                0
            };
            return Some(500 + bonus);
        },
        None => {},
    }
    let mut ti: usize = 0;
    let mut qi: usize = 0;
    let mut score: i32 = 0;
    let mut prev = false;
    let mut bonus: i32 = 0;
    while ti < t.len() && qi < q.len()
        invariant
            ti <= t@.len(),
            qi <= q@.len(),
            t@.len() <= i32::MAX,
            150 * q@.len() <= i32::MAX,
            0 <= score <= 130 * qi,
            0 <= bonus <= 20 * qi,
            fuzzy_scan(t@, q@, 0, 0, 0, false, 0) == fuzzy_scan(
                t@,
                q@,
                ti as int,
                qi as int,
                score as int,
                prev,
                bonus as int,
            ),
        decreases t@.len() - ti,
    {
        if t[ti] == q[qi] {
            let tix = ti as i32;
            let base = if 100 - tix > 1 {
                100 - tix
            } else {
                1
            };
            score = score + base;
            if prev {
                bonus = bonus + 20;
            }
            if ti == 0 || (t[ti - 1] == ' ' || t[ti - 1] == '_' || t[ti - 1] == '-') {
                score = score + 30;
            }
            prev = true;
            qi += 1;
        } else {
            prev = false;
        }
        ti += 1;
    }
    if qi == q.len() {
        let total = score + bonus;
        Some(
            if total > MAX_INEXACT_SCORE {
                MAX_INEXACT_SCORE
            } else {
                total
            },
        )
    } else {
        None
    }
}

/// [`fuzzy_match`] for any text and query: `None` when a position or
/// score would not fit the `i32` the match counts in (the text has more
/// than `i32::MAX` bytes, or its lowercase form has, or the lowercase query
/// has more than `i32::MAX / 150` characters, each matching one of which
/// may add up to 150 points), otherwise the match result.
pub fn fuzzy_match_within_limits(text: &str, query: &str) -> (r: Option<Option<i32>>)
    ensures
        r is Some <==> (utf8_len(text@) <= i32::MAX && utf8_len(unicode_lowercase(text@)) <= i32::MAX && 150
            * unicode_lowercase(query@).len() <= i32::MAX),
        r matches Some(m) ==> match fuzzy_score(text@, query@) {
            None => m is None,
            Some(v) => m matches Some(x) && x as int == v,
        },
{
    let lower = to_lowercase(text);
    let lower_chars = chars_of(lower.as_str());
    if lower_chars.len() > 2_147_483_647 {
        proof {
            lemma_utf8_len_ge_len(lower@);
        }
        return None;
    }
    proof {
        lemma_utf8_len_le_4x(lower@);
    }
    if lower_chars.len() > 536_870_911 {
        let lower_bytes = utf8_len_capped(lower_chars.as_slice());
        if lower_bytes > 2_147_483_647 {
            return None;
        }
    }
    let lower_query = to_lowercase(query);
    let query_chars = chars_of(lower_query.as_str());
    if query_chars.len() > 14_316_557 {
        return None;
    }
    let text_chars = chars_of(text);
    if text_chars.len() > 2_147_483_647 {
        proof {
            lemma_utf8_len_ge_len(text@);
        }
        return None;
    }
    proof {
        lemma_utf8_len_le_4x(text@);
    }
    if text_chars.len() > 536_870_911 {
        let bytes = utf8_len_capped(text_chars.as_slice());
        if bytes > 2_147_483_647 {
            return None;
        }
    }
    Some(fuzzy_match(text, query))
}

/// UTF-8 byte length of `cs`, or a value above `i32::MAX` once it exceeds
/// that.
fn utf8_len_capped(cs: &[char]) -> (n: u64)
    ensures
        n <= i32::MAX <==> utf8_len(cs@) <= i32::MAX,
        n <= i32::MAX ==> n == utf8_len(cs@),
{
    let mut n: u64 = 0;
    let mut i: usize = 0;
    while i < cs.len()
        invariant
            i <= cs@.len(),
            n == utf8_len(cs@.take(i as int)),
            n <= i32::MAX,
        decreases cs@.len() - i,
    {
        proof {
            assert(cs@.take(i + 1) =~= cs@.take(i as int).push(cs@[i as int]));
            lemma_utf8_len_push(cs@.take(i as int), cs@[i as int]);
        }
        n = n + char_len_utf8(cs[i]) as u64;
        if n > 2_147_483_647 {
            proof {
                lemma_utf8_len_prefix(cs@, i + 1);
            }
            return n;
        }
        i += 1;
    }
    assert(cs@.take(cs@.len() as int) =~= cs@);
    n
}

/// Index of the first character at or after `i` that is not a space.
pub open spec fn spaces_end(s: Seq<char>, i: int) -> int
    decreases s.len() - i,
{
    if i < 0 || i >= s.len() || s[i] != ' ' {
        i
    } else {
        spaces_end(s, i + 1)
    }
}

/// [`spaces_end`] never moves backwards and stays in bounds.
pub proof fn lemma_spaces_end(s: Seq<char>, i: int)
    requires
        0 <= i <= s.len(),
    ensures
        i <= spaces_end(s, i) <= s.len(),
    decreases s.len() - i,
{
    if i < s.len() && s[i] == ' ' {
        lemma_spaces_end(s, i + 1);
    }
}

/// End of an HTML line break tag at `i`: `<`, `b` or `B`, `r` or `R`, any
/// spaces, an optional `/`, then `>`.
pub open spec fn br_tag_end(s: Seq<char>, i: int) -> Option<int> {
    if 0 <= i && i + 3 <= s.len() && s[i] == '<' && (s[i + 1] == 'b' || s[i + 1] == 'B') && (s[i + 2]
        == 'r' || s[i + 2] == 'R') {
        let j = spaces_end(s, i + 3);
        let k = if j < s.len() && s[j] == '/' {
            j + 1
        } else {
            j
        };
        if k < s.len() && s[k] == '>' {
            Some(k + 1)
        } else {
            None
        }
    } else {
        None
    }
}

/// The pieces of `s` between line break tags, scanning from `i` with the
/// current piece begun at `start`.
pub open spec fn br_segments(s: Seq<char>, start: int, i: int) -> Seq<Seq<char>>
    decreases s.len() - i,
{
    if i < 0 || i >= s.len() {
        seq![s.subrange(start, s.len() as int)]
    } else {
        match br_tag_end(s, i) {
            Some(e) => {
                proof {
                    lemma_spaces_end(s, i + 3);
                }
                seq![s.subrange(start, i)] + br_segments(s, e, e)
            },
            None => br_segments(s, start, i + 1),
        }
    }
}

/// The end of the line break tag at `i`, as [`br_tag_end`] says.
fn br_tag_end_exec(s: &[char], i: usize) -> (r: Option<usize>)
    requires
        i <= s@.len(),
    ensures
        match br_tag_end(s@, i as int) {
            None => r is None,
            Some(e) => r == Some(e as usize) && i < e <= s@.len(),
        },
{
    let n = s.len();
    if n - i < 3 || s[i] != '<' || !(s[i + 1] == 'b' || s[i + 1] == 'B') || !(s[i + 2] == 'r' || s[i
        + 2] == 'R') {
        return None;
    }
    let mut j = i + 3;
    while j < n && s[j] == ' '
        invariant
            i + 3 <= j <= n == s@.len(),
            spaces_end(s@, i + 3) == spaces_end(s@, j as int),
        decreases n - j,
    {
        j += 1;
    }
    let k = if j < n && s[j] == '/' {
        j + 1
    } else {
        j
    };
    if k < n && s[k] == '>' {
        Some(k + 1)
    } else {
        None
    }
}

/// Split a table cell at its HTML line breaks (`<br>`, `<br/>`, `<br />`, in
/// any letter case). A malformed tag stays in the text.
pub fn split_cell_by_br(cell: &str) -> (out: Vec<String>)
    ensures
        out@.len() == br_segments(cell@, 0, 0).len(),
        forall|k: int| 0 <= k < out@.len() ==> (#[trigger] out@[k])@ == br_segments(cell@, 0, 0)[k],
{
    let cs = chars_of(cell);
    let n = cs.len();
    let mut out: Vec<String> = Vec::new();
    let ghost mut done: Seq<Seq<char>> = Seq::empty();
    let mut start: usize = 0;
    let mut i: usize = 0;
    while i < n
        invariant
            start <= i <= n == cs@.len(),
            cs@ == cell@,
            br_segments(cs@, 0, 0) == done + br_segments(cs@, start as int, i as int),
            out@.len() == done.len(),
            forall|k: int| 0 <= k < out@.len() ==> (#[trigger] out@[k])@ == done[k],
        decreases n - i,
    {
        match br_tag_end_exec(cs.as_slice(), i) {
            Some(e) => {
                let piece = string_of_range(cs.as_slice(), start, i);
                proof {
                    lemma_spaces_end(cs@, i + 3);
                    assert(done + br_segments(cs@, start as int, i as int) =~= done.push(
                        cs@.subrange(start as int, i as int),
                    ) + br_segments(cs@, e as int, e as int));
                    done = done.push(cs@.subrange(start as int, i as int));
                }
                out.push(piece);
                start = e;
                i = e;
            },
            None => {
                i += 1;
            },
        }
    }
    let last = string_of_range(cs.as_slice(), start, n);
    proof {
        done = done.push(cs@.subrange(start as int, n as int));
    }
    out.push(last);
    out
}

/// Characters that end a bare URL.
pub open spec fn url_stop(c: char) -> bool {
    unicode_white_space(c) || c == '<' || c == '>' || c == '(' || c == ')' || c == '[' || c == ']'
        || c == '"' || c == '\'' || c == '`'
}

/// Punctuation that does not belong to a URL when it ends one.
pub open spec fn url_trailing(c: char) -> bool {
    c == '.' || c == ',' || c == ';' || c == ':' || c == '!' || c == '?'
}

/// Index of the first character at or after `i` that ends a URL.
pub open spec fn url_scan_end(s: Seq<char>, i: int) -> int
    decreases s.len() - i,
{
    if i < 0 || i >= s.len() || url_stop(s[i]) {
        i
    } else {
        url_scan_end(s, i + 1)
    }
}

/// End of `s[a..e]` once trailing punctuation is dropped.
pub open spec fn url_trim_end(s: Seq<char>, a: int, e: int) -> int
    decreases e - a,
{
    if e > a && url_trailing(s[e - 1]) {
        url_trim_end(s, a, e - 1)
    } else {
        e
    }
}

/// Length of the scheme (`https://` or `http://`) that `s[k..]` starts with.
pub open spec fn url_scheme_len(s: Seq<char>, k: int) -> int {
    if starts_with(s.skip(k), seq!['h', 't', 't', 'p', 's', ':', '/', '/']) {
        8
    } else if starts_with(s.skip(k), seq!['h', 't', 't', 'p', ':', '/', '/']) {
        7
    } else {
        0
    }
}

/// End index of the bare URL starting at character `k`: a scheme, then at
/// least one character up to the first stop character, without trailing
/// punctuation.
pub open spec fn bare_url_end(s: Seq<char>, k: int) -> Option<int> {
    let m = url_scheme_len(s, k);
    if m == 0 {
        None
    } else {
        let e = url_trim_end(s, k + m, url_scan_end(s, k + m));
        if e > k + m {
            Some(e)
        } else {
            None
        }
    }
}

pub proof fn lemma_url_scan_end(s: Seq<char>, i: int)
    requires
        0 <= i <= s.len(),
    ensures
        i <= url_scan_end(s, i) <= s.len(),
    decreases s.len() - i,
{
    if i < s.len() && !url_stop(s[i]) {
        lemma_url_scan_end(s, i + 1);
    }
}

pub proof fn lemma_url_trim_end(s: Seq<char>, a: int, e: int)
    requires
        a <= e,
    ensures
        a <= url_trim_end(s, a, e) <= e,
    decreases e - a,
{
    if e > a && url_trailing(s[e - 1]) {
        lemma_url_trim_end(s, a, e - 1);
    }
}

/// A bare URL ends after its start and within the text.
pub proof fn lemma_bare_url_end(s: Seq<char>, k: int)
    requires
        0 <= k <= s.len(),
    ensures
        bare_url_end(s, k) matches Some(e) ==> k < e <= s.len(),
{
    let m = url_scheme_len(s, k);
    if m != 0 {
        lemma_url_scan_end(s, k + m);
        lemma_url_trim_end(s, k + m, url_scan_end(s, k + m));
    }
}

/// End index of the bare URL starting at character `k` of `cs`.
pub fn bare_url_end_exec(cs: &[char], k: usize) -> (r: Option<usize>)
    requires
        k <= cs@.len(),
    ensures
        r matches Some(e) ==> bare_url_end(cs@, k as int) == Some(e as int),
        r is None ==> bare_url_end(cs@, k as int) is None,
{
    let n = cs.len();
    let https = ['h', 't', 't', 'p', 's', ':', '/', '/'];
    let http = ['h', 't', 't', 'p', ':', '/', '/'];
    assert(http@ =~= seq!['h', 't', 't', 'p', ':', '/', '/']);
    assert(https@ =~= seq!['h', 't', 't', 'p', 's', ':', '/', '/']);
    let m: usize = if starts_with_at(cs, k, &https) {
        8
    } else if starts_with_at(cs, k, &http) {
        7
    } else {
        return None;
    };
    let a = k + m;
    let mut e = a;
    while e < n && !(is_whitespace(cs[e]) || cs[e] == '<' || cs[e] == '>' || cs[e] == '(' || cs[e] == ')'
        || cs[e] == '[' || cs[e] == ']' || cs[e] == '"' || cs[e] == '\'' || cs[e] == '`')
        invariant
            a <= e <= n == cs@.len(),
            url_scan_end(cs@, a as int) == url_scan_end(cs@, e as int),
        decreases n - e,
    {
        e += 1;
    }
    while e > a && (cs[e - 1] == '.' || cs[e - 1] == ',' || cs[e - 1] == ';' || cs[e - 1] == ':' || cs[e
        - 1] == '!' || cs[e - 1] == '?')
        invariant
            a <= e <= n == cs@.len(),
            url_trim_end(cs@, a as int, url_scan_end(cs@, a as int)) == url_trim_end(cs@, a as int, e as int),
        decreases e,
    {
        e -= 1;
    }
    if e <= a {
        return None;
    }
    Some(e)
}

/// Byte length of the bare `http://` or `https://` URL starting at byte
/// offset `pos` of `text`, if one starts there.
pub fn detect_bare_url_len(text: &str, pos: usize) -> (r: Option<usize>)
    requires
        byte_cut(text@, 0, pos as int) matches Some(Some(_)),
        utf8_len(text@) <= usize::MAX,
    ensures
        ({
            let k = byte_cut(text@, 0, pos as int)->0->0;
            match bare_url_end(text@, k) {
                None => r is None,
                Some(e) => r matches Some(n) && n == utf8_len(text@.subrange(k, e)),
            }
        }),
{
    let cs = chars_of(text);
    let n = cs.len();
    let mut k: usize = 0;
    let mut left = pos;
    while left > 0 && k < n
        invariant
            k <= n == cs@.len(),
            cs@ == text@,
            byte_cut(cs@, 0, pos as int) == byte_cut(cs@, k as int, left as int),
            byte_cut(cs@, 0, pos as int) matches Some(Some(_)),
        decreases n - k,
    {
        let w = char_len_utf8(cs[k]);
        left -= w;
        k += 1;
    }
    assert(byte_cut(cs@, 0, pos as int) == Some(Some(k as int)));
    let e = match bare_url_end_exec(cs.as_slice(), k) {
        None => return None,
        Some(e) => e,
    };
    proof {
        lemma_bare_url_end(cs@, k as int);
    }
    proof {
        lemma_utf8_len_prefix(cs@.skip(k as int), (e - k) as int);
        assert(cs@.skip(k as int).take((e - k) as int) =~= cs@.subrange(k as int, e as int));
        lemma_utf8_len_concat(cs@.take(k as int), cs@.skip(k as int));
        assert(cs@.take(k as int) + cs@.skip(k as int) =~= cs@);
    }
    Some(utf8_len_range(cs.as_slice(), k, e))
}

} // verus!
