//! Character-level helpers shared by the rest of the library.
//!
//! Text is handled as sequences of `char`; where a caller speaks of
//! byte offsets the conversion goes through [`utf8_len`].
use vstd::prelude::*;

verus! {

/// Number of UTF-8 bytes a character occupies.
pub open spec fn char_utf8_len(c: char) -> nat {
    if (c as u32) < 0x80 {
        1
    } else if (c as u32) < 0x800 {
        2
    } else if (c as u32) < 0x10000 {
        3
    } else {
        4
    }
}

/// Byte length of the UTF-8 encoding of a character sequence.
pub open spec fn utf8_len(cs: Seq<char>) -> nat
    decreases cs.len(),
{
    if cs.len() == 0 {
        0
    } else {
        utf8_len(cs.drop_last()) + char_utf8_len(cs.last())
    }
}

/// The UTF-8 length of a concatenation is the sum of the lengths.
pub proof fn lemma_utf8_len_concat(a: Seq<char>, b: Seq<char>)
    ensures
        utf8_len(a + b) == utf8_len(a) + utf8_len(b),
    decreases b.len(),
{
    if b.len() == 0 {
        assert(a + b =~= a);
    } else {
        lemma_utf8_len_concat(a, b.drop_last());
        assert((a + b).drop_last() =~= a + b.drop_last());
    }
}

/// Appending one character adds its encoded width.
pub proof fn lemma_utf8_len_push(a: Seq<char>, c: char)
    ensures
        utf8_len(a.push(c)) == utf8_len(a) + char_utf8_len(c),
{
    assert(a.push(c).drop_last() =~= a);
}

/// A prefix never encodes to more bytes than the whole.
pub proof fn lemma_utf8_len_prefix(a: Seq<char>, i: int)
    requires
        0 <= i <= a.len(),
    ensures
        utf8_len(a.take(i)) <= utf8_len(a),
{
    lemma_utf8_len_concat(a.take(i), a.skip(i));
    assert(a.take(i) + a.skip(i) =~= a);
}

/// Every character needs at least one byte.
pub proof fn lemma_utf8_len_ge_len(a: Seq<char>)
    ensures
        utf8_len(a) >= a.len(),
    decreases a.len(),
{
    if a.len() > 0 {
        lemma_utf8_len_ge_len(a.drop_last());
    }
}

/// Width in bytes of one character.
pub fn char_len_utf8(c: char) -> (n: usize)
    ensures
        n == char_utf8_len(c),
        1 <= n <= 4,
{
    let v = c as u32;
    if v < 0x80 {
        1
    } else if v < 0x800 {
        2
    } else if v < 0x10000 {
        3
    } else {
        4
    }
}

/// The characters of `s`, in order.
pub fn chars_of(s: &str) -> (out: Vec<char>)
    ensures
        out@ == s@,
{
    let mut out: Vec<char> = Vec::new();
    for c in it: s.chars()
        invariant
            out@ == it.seq().take(it.index() as int),
            it.seq() == s@,
    {
        out.push(c);
    }
    out
}

/// `String::push`: appends one character.
#[verifier::external_body]
pub fn push_char(s: &mut String, c: char)
    ensures
        final(s)@ == old(s)@.push(c),
{
    s.push(c);
}

/// A string holding exactly the given characters.
pub fn string_of(cs: &[char]) -> (out: String)
    ensures
        out@ == cs@,
{
    let mut out = String::new();
    let mut i: usize = 0;
    while i < cs.len()
        invariant
            i <= cs@.len(),
            out@ == cs@.take(i as int),
        decreases cs@.len() - i,
    {
        push_char(&mut out, cs[i]);
        assert(cs@.take(i as int).push(cs@[i as int]) =~= cs@.take(i + 1));
        i += 1;
    }
    assert(cs@.take(cs@.len() as int) =~= cs@);
    out
}

/// A string holding the characters `cs[start..end]`.
pub fn string_of_range(cs: &[char], start: usize, end: usize) -> (out: String)
    requires
        start <= end <= cs@.len(),
    ensures
        out@ == cs@.subrange(start as int, end as int),
{
    let mut out = String::new();
    let mut i: usize = start;
    while i < end
        invariant
            start <= i <= end <= cs@.len(),
            out@ == cs@.subrange(start as int, i as int),
        decreases end - i,
    {
        push_char(&mut out, cs[i]);
        assert(cs@.subrange(start as int, i as int).push(cs@[i as int]) =~= cs@.subrange(
            start as int,
            i + 1,
        ));
        i += 1;
    }
    out
}

/// Appends `cs[start..end]` to `out`.
pub fn push_range(out: &mut String, cs: &[char], start: usize, end: usize)
    requires
        start <= end <= cs@.len(),
    ensures
        final(out)@ == old(out)@ + cs@.subrange(start as int, end as int),
{
    let ghost base = out@;
    let mut i: usize = start;
    while i < end
        invariant
            start <= i <= end <= cs@.len(),
            out@ == base + cs@.subrange(start as int, i as int),
        decreases end - i,
    {
        push_char(out, cs[i]);
        assert(base + cs@.subrange(start as int, i as int).push(cs@[i as int]) =~= base
            + cs@.subrange(start as int, i + 1));
        i += 1;
    }
}

/// Appends the whole of `s` to `out`.
pub fn push_str(out: &mut String, s: &str)
    ensures
        final(out)@ == old(out)@ + s@,
{
    let cs = chars_of(s);
    push_range(out, cs.as_slice(), 0, cs.len());
    assert(cs@.subrange(0, cs@.len() as int) =~= s@);
}

/// `pat` occurs in `s` starting at index `i`.
pub open spec fn matches_at(s: Seq<char>, pat: Seq<char>, i: int) -> bool {
    0 <= i && i + pat.len() <= s.len() && s.subrange(i, i + pat.len()) =~= pat
}

/// First index `>= from` where `pat` occurs in `s`.
pub open spec fn find_from(s: Seq<char>, pat: Seq<char>, from: int) -> Option<int>
    decreases s.len() - from,
{
    if from < 0 || from + pat.len() > s.len() {
        None
    } else if matches_at(s, pat, from) {
        Some(from)
    } else {
        find_from(s, pat, from + 1)
    }
}

/// What `find_from` returns is a match and nothing earlier matches.
pub proof fn lemma_find_from(s: Seq<char>, pat: Seq<char>, from: int)
    requires
        0 <= from,
    ensures
        find_from(s, pat, from) matches Some(i) ==> from <= i && matches_at(s, pat, i) && forall|
            j: int,
        |
            from <= j < i ==> !matches_at(s, pat, j),
        find_from(s, pat, from) is None ==> forall|j: int| from <= j ==> !matches_at(s, pat, j),
    decreases s.len() - from,
{
    if from + pat.len() > s.len() {
    } else if matches_at(s, pat, from) {
    } else {
        lemma_find_from(s, pat, from + 1);
    }
}

/// Whether `pat` occurs in `s` at `i`.
pub fn matches_at_exec(s: &[char], pat: &[char], i: usize) -> (b: bool)
    ensures
        b == matches_at(s@, pat@, i as int),
{
    if i > s.len() || pat.len() > s.len() - i {
        return false;
    }
    let mut k: usize = 0;
    while k < pat.len()
        invariant
            i + pat@.len() <= s@.len(),
            k <= pat@.len(),
            forall|m: int| 0 <= m < k ==> s@[i + m] == pat@[m],
        decreases pat@.len() - k,
    {
        assert(i + k < s.len());
        if s[i + k] != pat[k] {
            assert(s@.subrange(i as int, i + pat@.len())[k as int] != pat@[k as int]);
            return false;
        }
        k += 1;
    }
    assert(s@.subrange(i as int, i + pat@.len()) =~= pat@);
    true
}

/// First index `>= from` where `pat` occurs in `s`.
pub fn find_from_exec(s: &[char], pat: &[char], from: usize) -> (r: Option<usize>)
    ensures
        r matches Some(i) ==> find_from(s@, pat@, from as int) == Some(i as int),
        r is None ==> find_from(s@, pat@, from as int) is None,
{
    let mut i = from;
    while i <= s.len() && pat.len() <= s.len() - i
        invariant
            from <= i,
            find_from(s@, pat@, from as int) == find_from(s@, pat@, i as int),
        decreases s@.len() + 1 - i,
    {
        if matches_at_exec(s, pat, i) {
            return Some(i);
        }
        i += 1;
    }
    None
}

/// The Unicode `White_Space` property, which `char::is_whitespace` tests:
/// the controls U+0009 to U+000D, the space, U+0085, the no-break space,
/// the Ogham space mark, the spaces U+2000 to U+200A, the line and
/// paragraph separators, the narrow no-break and medium mathematical
/// spaces, and the ideographic space.
pub open spec fn unicode_white_space(c: char) -> bool {
    let n = c as u32;
    ||| 0x9 <= n <= 0xD
    ||| n == 0x20
    ||| n == 0x85
    ||| n == 0xA0
    ||| n == 0x1680
    ||| 0x2000 <= n <= 0x200A
    ||| n == 0x2028
    ||| n == 0x2029
    ||| n == 0x202F
    ||| n == 0x205F
    ||| n == 0x3000
}

/// Whether `c` has the Unicode `White_Space` property.
pub fn is_whitespace(c: char) -> (b: bool)
    ensures
        b == unicode_white_space(c),
{
    match c {
        '\u{9}'..='\u{D}' | ' ' | '\u{85}' | '\u{A0}' | '\u{1680}' | '\u{2000}'..='\u{200A}' | '\u{2028}'
        | '\u{2029}' | '\u{202F}' | '\u{205F}' | '\u{3000}' => true,
        _ => false,
    }
}

/// `char::is_alphanumeric`: the Unicode `Alphabetic` or `Numeric` property.
pub uninterp spec fn unicode_alphanumeric(c: char) -> bool;

/// `char::is_alphanumeric`, whose result is named [`unicode_alphanumeric`].
#[verifier::external_body]
pub fn is_alphanumeric(c: char) -> (b: bool)
    ensures
        b == unicode_alphanumeric(c),
{
    c.is_alphanumeric()
}

/// `str::to_lowercase`: the full Unicode lowercase mapping of a string.
pub uninterp spec fn unicode_lowercase(s: Seq<char>) -> Seq<char>;

/// `str::to_lowercase`, whose result is named [`unicode_lowercase`]; the
/// lowercase of the empty text is empty, since the result is built from the
/// mappings of the characters of `s`.
#[verifier::external_body]
pub fn to_lowercase(s: &str) -> (r: String)
    ensures
        r@ == unicode_lowercase(s@),
        s@.len() == 0 ==> r@.len() == 0,
{
    s.to_lowercase()
}


/// End of the run of non-whitespace characters starting at `i`.
pub open spec fn word_end(s: Seq<char>, i: int) -> int
    decreases s.len() - i,
{
    if i < 0 || i >= s.len() || unicode_white_space(s[i]) {
        i
    } else {
        word_end(s, i + 1)
    }
}

/// `word_end` never moves backwards, stays in bounds, and only crosses
/// non-whitespace characters.
pub proof fn lemma_word_end(s: Seq<char>, i: int)
    requires
        0 <= i <= s.len(),
    ensures
        i <= word_end(s, i) <= s.len(),
        forall|k: int| i <= k < word_end(s, i) ==> !unicode_white_space(#[trigger] s[k]),
        word_end(s, i) < s.len() ==> unicode_white_space(s[word_end(s, i)]),
    decreases s.len() - i,
{
    if i < s.len() && !unicode_white_space(s[i]) {
        lemma_word_end(s, i + 1);
    }
}

/// Byte-free model of `str::split_whitespace`: the `(start, end)` index
/// ranges of the whitespace-separated words of `s` at or after `i`.
pub open spec fn word_ranges(s: Seq<char>, i: int) -> Seq<(int, int)>
    decreases s.len() - i,
{
    if i < 0 || i >= s.len() {
        Seq::empty()
    } else if unicode_white_space(s[i]) {
        word_ranges(s, i + 1)
    } else {
        let e = word_end(s, i + 1);
        proof {
            lemma_word_end(s, i + 1);
        }
        seq![(i, e)] + word_ranges(s, e)
    }
}

/// The words of `s`, as `str::split_whitespace` yields them.
pub open spec fn words(s: Seq<char>) -> Seq<Seq<char>> {
    word_ranges(s, 0).map_values(|r: (int, int)| s.subrange(r.0, r.1))
}

/// The first word of `s` at or after index `i`, if any.
pub open spec fn first_word_from(s: Seq<char>, i: int) -> Option<Seq<char>> {
    let rs = word_ranges(s, i);
    if rs.len() == 0 {
        None
    } else {
        Some(s.subrange(rs[0].0, rs[0].1))
    }
}

/// Ranges produced by `word_ranges` are well-formed and increasing.
pub proof fn lemma_word_ranges(s: Seq<char>, i: int)
    requires
        0 <= i <= s.len(),
    ensures
        forall|k: int|
            0 <= k < word_ranges(s, i).len() ==> i <= (#[trigger] word_ranges(s, i)[k]).0 < word_ranges(
                s,
                i,
            )[k].1 <= s.len(),
    decreases s.len() - i,
{
    if i < s.len() {
        if unicode_white_space(s[i]) {
            lemma_word_ranges(s, i + 1);
            assert(word_ranges(s, i) == word_ranges(s, i + 1));
        } else {
            lemma_word_end(s, i + 1);
            let e = word_end(s, i + 1);
            lemma_word_ranges(s, e);
            let rs = word_ranges(s, i);
            assert(rs == seq![(i, e)] + word_ranges(s, e));
            assert forall|k: int| 0 <= k < rs.len() implies i <= (#[trigger] rs[k]).0 < rs[k].1 <= s.len() by {
                if k > 0 {
                    assert(rs[k] == word_ranges(s, e)[k - 1]);
                }
            }
        }
    }
}

/// Index of the end of the word that starts at `i` (exclusive).
pub fn word_end_exec(s: &[char], i: usize) -> (e: usize)
    requires
        i <= s@.len(),
    ensures
        e == word_end(s@, i as int),
{
    let mut k = i;
    while k < s.len() && !is_whitespace(s[k])
        invariant
            i <= k <= s@.len(),
            word_end(s@, i as int) == word_end(s@, k as int),
        decreases s@.len() - k,
    {
        k += 1;
    }
    k
}

/// The word ranges of `s` at or after `i`.
pub fn word_ranges_exec(s: &[char], i: usize) -> (out: Vec<(usize, usize)>)
    requires
        i <= s@.len(),
    ensures
        out@.len() == word_ranges(s@, i as int).len(),
        forall|k: int|
            0 <= k < out@.len() ==> (#[trigger] out@[k]).0 as int == word_ranges(s@, i as int)[k].0
                && out@[k].1 as int == word_ranges(s@, i as int)[k].1,
{
    let mut out: Vec<(usize, usize)> = Vec::new();
    let mut k = i;
    let ghost done: Seq<(int, int)> = Seq::empty();
    while k < s.len()
        invariant
            i <= k <= s@.len(),
            word_ranges(s@, i as int) == done + word_ranges(s@, k as int),
            out@.len() == done.len(),
            forall|m: int|
                0 <= m < out@.len() ==> (#[trigger] out@[m]).0 as int == done[m].0 && out@[m].1 as int
                    == done[m].1,
        decreases s@.len() - k,
    {
        if is_whitespace(s[k]) {
            k += 1;
        } else {
            let e = word_end_exec(s, k + 1);
            proof {
                lemma_word_end(s@, k + 1);
                assert(word_ranges(s@, k as int) == seq![(k as int, e as int)] + word_ranges(s@, e as int));
                assert(done + word_ranges(s@, k as int) =~= done.push((k as int, e as int)) + word_ranges(s@, e as int));
                done = done.push((k as int, e as int));
            }
            out.push((k, e));
            k = e;
        }
    }
    assert(done + word_ranges(s@, k as int) =~= done);
    out
}

/// Index of the first character at or after `i` that is not whitespace.
pub open spec fn skip_white(s: Seq<char>, i: int) -> int
    decreases s.len() - i,
{
    if i < 0 || i >= s.len() || !unicode_white_space(s[i]) {
        i
    } else {
        skip_white(s, i + 1)
    }
}

/// Index just past the last character before `e` that is not whitespace.
pub open spec fn trim_white_end(s: Seq<char>, e: int) -> int
    decreases e,
{
    if e <= 0 || e > s.len() || !unicode_white_space(s[e - 1]) {
        e
    } else {
        trim_white_end(s, e - 1)
    }
}

/// `str::trim`: `s` without leading and trailing whitespace.
pub open spec fn trim(s: Seq<char>) -> Seq<char> {
    let a = skip_white(s, 0);
    let b = trim_white_end(s, s.len() as int);
    if a >= b {
        Seq::empty()
    } else {
        s.subrange(a, b)
    }
}

/// Bounds of what `trim` keeps, as `(start, end)`.
pub fn trim_bounds(s: &[char]) -> (r: (usize, usize))
    ensures
        r.0 <= r.1 <= s@.len(),
        s@.subrange(r.0 as int, r.1 as int) == trim(s@),
{
    let mut a: usize = 0;
    while a < s.len() && is_whitespace(s[a])
        invariant
            a <= s@.len(),
            skip_white(s@, 0) == skip_white(s@, a as int),
        decreases s@.len() - a,
    {
        a += 1;
    }
    let mut b: usize = s.len();
    while b > 0 && is_whitespace(s[b - 1])
        invariant
            b <= s@.len(),
            trim_white_end(s@, s@.len() as int) == trim_white_end(s@, b as int),
        decreases b,
    {
        b -= 1;
    }
    if a >= b {
        (0, 0)
    } else {
        (a, b)
    }
}

/// Where the next `n` bytes of UTF-8 from character `i` end: `Some(Some(k))`
/// when that byte offset is the start of character `k` (or the end),
/// `Some(None)` when fewer than `n` bytes remain, and `None` when a character
/// straddles it.
pub open spec fn byte_cut(s: Seq<char>, i: int, n: int) -> Option<Option<int>>
    decreases s.len() - i,
{
    if n <= 0 {
        Some(Some(i))
    } else if i < 0 || i >= s.len() {
        Some(None)
    } else if char_utf8_len(s[i]) > n {
        None
    } else {
        byte_cut(s, i + 1, n - char_utf8_len(s[i]))
    }
}

/// UTF-8 byte length of `cs[a..b]`.
pub fn utf8_len_range(cs: &[char], a: usize, b: usize) -> (n: usize)
    requires
        a <= b <= cs@.len(),
        utf8_len(cs@.subrange(a as int, b as int)) <= usize::MAX,
    ensures
        n == utf8_len(cs@.subrange(a as int, b as int)),
{
    let mut n: usize = 0;
    let mut i = a;
    while i < b
        invariant
            a <= i <= b <= cs@.len(),
            n == utf8_len(cs@.subrange(a as int, i as int)),
            utf8_len(cs@.subrange(a as int, b as int)) <= usize::MAX,
        decreases b - i,
    {
        proof {
            assert(cs@.subrange(a as int, i + 1) =~= cs@.subrange(a as int, i as int).push(cs@[i as int]));
            lemma_utf8_len_push(cs@.subrange(a as int, i as int), cs@[i as int]);
            assert(cs@.subrange(a as int, i + 1) + cs@.subrange(i + 1, b as int) =~= cs@.subrange(
                a as int,
                b as int,
            ));
            lemma_utf8_len_concat(cs@.subrange(a as int, i + 1), cs@.subrange(i + 1, b as int));
        }
        n = n + char_len_utf8(cs[i]);
        i += 1;
    }
    n
}

/// A character takes at most four bytes.
pub proof fn lemma_utf8_len_le_4x(a: Seq<char>)
    ensures
        utf8_len(a) <= 4 * a.len(),
    decreases a.len(),
{
    if a.len() > 0 {
        lemma_utf8_len_le_4x(a.drop_last());
    }
}

/// Lexicographic order of character sequences by code point: negative when
/// `a` sorts first, zero when equal, positive when `b` sorts first. On UTF-8
/// text this is the byte order that `String` comparison uses.
pub open spec fn text_order(a: Seq<char>, b: Seq<char>) -> int
    decreases a.len(),
{
    if a.len() == 0 {
        if b.len() == 0 {
            0
        } else {
            -1
        }
    } else if b.len() == 0 {
        1
    } else if (a[0] as int) < (b[0] as int) {
        -1
    } else if (a[0] as int) > (b[0] as int) {
        1
    } else {
        text_order(a.drop_first(), b.drop_first())
    }
}

/// Swapping the operands negates [`text_order`], and only equal sequences
/// compare equal.
pub proof fn lemma_text_order_antisymmetric(a: Seq<char>, b: Seq<char>)
    ensures
        text_order(a, b) == -text_order(b, a),
        text_order(a, b) == 0 ==> a == b,
    decreases a.len(),
{
    if a.len() > 0 && b.len() > 0 && a[0] == b[0] {
        lemma_text_order_antisymmetric(a.drop_first(), b.drop_first());
        if text_order(a, b) == 0 {
            assert(a =~= seq![a[0]] + a.drop_first());
            assert(b =~= seq![b[0]] + b.drop_first());
        }
    }
}

/// [`text_order`] is transitive.
pub proof fn lemma_text_order_transitive(a: Seq<char>, b: Seq<char>, c: Seq<char>)
    requires
        text_order(a, b) <= 0,
        text_order(b, c) <= 0,
    ensures
        text_order(a, c) <= 0,
    decreases a.len(),
{
    if a.len() > 0 && b.len() > 0 && c.len() > 0 && a[0] == b[0] && b[0] == c[0] {
        lemma_text_order_transitive(a.drop_first(), b.drop_first(), c.drop_first());
    }
}

/// [`text_order`] on two character slices, as -1, 0 or 1.
pub fn text_order_exec(a: &[char], b: &[char]) -> (r: i8)
    ensures
        r as int == if text_order(a@, b@) < 0 {
            -1int
        } else if text_order(a@, b@) > 0 {
            1int
        } else {
            0int
        },
{
    let mut i: usize = 0;
    assert(a@.skip(0) =~= a@ && b@.skip(0) =~= b@);
    loop
        invariant
            i <= a@.len(),
            i <= b@.len(),
            text_order(a@, b@) == text_order(a@.skip(i as int), b@.skip(i as int)),
        decreases a@.len() - i,
    {
        let ghost sa = a@.skip(i as int);
        let ghost sb = b@.skip(i as int);
        if i == a.len() {
            return if i == b.len() {
                0
            } else {
                -1
            };
        }
        if i == b.len() {
            return 1;
        }
        assert(sa[0] == a@[i as int] && sb[0] == b@[i as int]);
        if a[i] < b[i] {
            assert((a@[i as int] as int) < (b@[i as int] as int));
            return -1;
        }
        if a[i] > b[i] {
            return 1;
        }
        assert(sa.drop_first() =~= a@.skip(i + 1));
        assert(sb.drop_first() =~= b@.skip(i + 1));
        i += 1;
    }
}

/// Membership after appending one element.
pub proof fn lemma_push_contains<A>(s: Seq<A>, x: A, m: A)
    ensures
        s.push(x).contains(m) <==> (s.contains(m) || m == x),
{
    if s.push(x).contains(m) {
        let i = choose|i: int| 0 <= i < s.push(x).len() && s.push(x)[i] == m;
        if i < s.len() {
            assert(s[i] == m);
        }
    }
    if s.contains(m) {
        let i = choose|i: int| 0 <= i < s.len() && s[i] == m;
        assert(s.push(x)[i] == m);
    }
    if m == x {
        assert(s.push(x)[s.len() as int] == x);
    }
}

/// Membership after inserting one element.
pub proof fn lemma_insert_contains<A>(s: Seq<A>, p: int, x: A, m: A)
    requires
        0 <= p <= s.len(),
    ensures
        s.insert(p, x).contains(m) <==> (s.contains(m) || m == x),
{
    let t = s.insert(p, x);
    if t.contains(m) {
        let i = choose|i: int| 0 <= i < t.len() && t[i] == m;
        if i < p {
            assert(s[i] == m);
        } else if i > p {
            assert(s[i - 1] == m);
        }
    }
    if s.contains(m) {
        let i = choose|i: int| 0 <= i < s.len() && s[i] == m;
        if i < p {
            assert(t[i] == m);
        } else {
            assert(t[i + 1] == m);
        }
    }
    if m == x {
        assert(t[p] == x);
    }
}

/// The character sequences of a list of strings.
pub open spec fn string_views(v: Seq<String>) -> Seq<Seq<char>> {
    v.map_values(|s: String| s@)
}

/// Strictly increasing in [`text_order`]: sorted, without repeats.
pub open spec fn strictly_sorted(ts: Seq<Seq<char>>) -> bool {
    forall|i: int, j: int| 0 <= i < j < ts.len() ==> text_order(#[trigger] ts[i], #[trigger] ts[j]) < 0
}

/// [`text_order`] of two strings, as -1, 0 or 1.
fn string_order(a: &String, b: &String) -> (r: i8)
    ensures
        r as int == if text_order(a@, b@) < 0 {
            -1int
        } else if text_order(a@, b@) > 0 {
            1int
        } else {
            0int
        },
{
    let ca = chars_of(a.as_str());
    let cb = chars_of(b.as_str());
    text_order_exec(ca.as_slice(), cb.as_slice())
}

/// The distinct strings of `items` in increasing order (what `sort` then
/// `dedup` leave).
pub fn sorted_unique(items: &Vec<String>) -> (out: Vec<String>)
    ensures
        strictly_sorted(string_views(out@)),
        forall|m: Seq<char>| string_views(out@).contains(m) <==> string_views(items@).contains(m),
{
    let mut out: Vec<String> = Vec::new();
    let mut k: usize = 0;
    while k < items.len()
        invariant
            k <= items@.len(),
            strictly_sorted(string_views(out@)),
            forall|m: Seq<char>| string_views(out@).contains(m) <==> string_views(items@.take(k as int)).contains(m),
        decreases items@.len() - k,
    {
        let x = items[k].clone();
        let ghost xv = x@;
        let ghost before = string_views(out@);
        let mut p: usize = 0;
        while p < out.len() && string_order(&out[p], &x) < 0
            invariant
                p <= out@.len(),
                before == string_views(out@),
                xv == x@,
                forall|m: int| 0 <= m < p ==> text_order(#[trigger] before[m], xv) < 0,
            decreases out@.len() - p,
        {
            p += 1;
        }
        let duplicate = p < out.len() && string_order(&out[p], &x) == 0;
        proof {
            assert(items@.take(k + 1) =~= items@.take(k as int).push(items@[k as int]));
            assert(string_views(items@.take(k + 1)) =~= string_views(items@.take(k as int)).push(xv));
        }
        if duplicate {
            proof {
                lemma_text_order_antisymmetric(before[p as int], xv);
                assert(before[p as int] == xv);
                assert forall|m: Seq<char>| string_views(out@).contains(m) <==> string_views(
                    items@.take(k + 1),
                ).contains(m) by {
                    lemma_push_contains(string_views(items@.take(k as int)), xv, m);
                    if m == xv {
                        assert(before[p as int] == xv);
                        assert(before.contains(xv));
                    }
                }
            }
        } else {
            proof {
                if p < out@.len() {
                    lemma_text_order_antisymmetric(before[p as int], xv);
                }
            }
            out.insert(p, x);
            proof {
                let after = string_views(out@);
                assert(after =~= before.insert(p as int, xv));
                assert forall|i: int, j: int| 0 <= i < j < after.len() implies text_order(
                    #[trigger] after[i],
                    #[trigger] after[j],
                ) < 0 by {
                    if j < p {
                        assert(after[i] == before[i] && after[j] == before[j]);
                    } else if j == p {
                        assert(after[i] == before[i] && after[j] == xv);
                    } else if i == p {
                        assert(after[i] == xv && after[j] == before[j - 1]);
                        assert(text_order(xv, before[p as int]) < 0);
                        if j - 1 > p {
                            assert(text_order(before[p as int], before[j - 1]) < 0);
                            lemma_text_order_transitive(xv, before[p as int], before[j - 1]);
                            lemma_text_order_antisymmetric(xv, before[j - 1]);
                            if text_order(xv, before[j - 1]) == 0 {
                                lemma_text_order_antisymmetric(before[p as int], before[j - 1]);
                            }
                        }
                    } else if i < p {
                        assert(after[i] == before[i] && after[j] == before[j - 1]);
                        assert(text_order(before[i], xv) < 0);
                        assert(text_order(xv, before[p as int]) < 0);
                        lemma_text_order_transitive(before[i], xv, before[p as int]);
                        if j - 1 > p {
                            assert(text_order(before[p as int], before[j - 1]) < 0);
                        }
                        assert(text_order(before[i], before[j - 1]) < 0);
                    } else {
                        assert(after[i] == before[i - 1] && after[j] == before[j - 1]);
                    }
                }
                assert forall|m: Seq<char>| after.contains(m) <==> string_views(items@.take(k + 1)).contains(
                    m,
                ) by {
                    lemma_push_contains(string_views(items@.take(k as int)), xv, m);
                    lemma_insert_contains(before, p as int, xv, m);
                }
            }
        }
        k += 1;
    }
    assert(items@.take(items@.len() as int) =~= items@);
    out
}

/// Whether two character slices are equal.
pub fn same_chars(a: &[char], b: &[char]) -> (r: bool)
    ensures
        r == (a@ == b@),
{
    if a.len() != b.len() {
        return false;
    }
    let mut i: usize = 0;
    while i < a.len()
        invariant
            a@.len() == b@.len(),
            i <= a@.len(),
            forall|k: int| 0 <= k < i ==> a@[k] == b@[k],
        decreases a@.len() - i,
    {
        if a[i] != b[i] {
            return false;
        }
        i += 1;
    }
    assert(a@ =~= b@);
    true
}

} // verus!
