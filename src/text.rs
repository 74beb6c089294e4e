//! Character classes and small string helpers shared by the scanner, the
//! registry and the URL builder.
use vstd::prelude::*;
use vstd::utf8::{char_is_scalar, encode_utf8};

verus! {

/// An ASCII letter, `a` to `z` or `A` to `Z`.
pub open spec fn is_letter(c: char) -> bool {
    ('a' <= c && c <= 'z') || ('A' <= c && c <= 'Z')
}

/// An ASCII decimal digit.
pub open spec fn is_digit(c: char) -> bool {
    '0' <= c && c <= '9'
}

/// A digit that may open a numbered book name ("1 John", "2Ki").
pub open spec fn is_numeral(c: char) -> bool {
    '1' <= c && c <= '4'
}

/// A range dash: hyphen-minus, en dash or em dash.
pub open spec fn is_dash(c: char) -> bool {
    c == '-' || c == '\u{2013}' || c == '\u{2014}'
}

/// A character of the Unicode `White_Space` property.
pub open spec fn is_space(c: char) -> bool {
    ('\u{9}' <= c && c <= '\u{d}') || c == ' ' || c == '\u{85}' || c == '\u{a0}'
        || c == '\u{1680}' || ('\u{2000}' <= c && c <= '\u{200a}') || c == '\u{2028}'
        || c == '\u{2029}' || c == '\u{202f}' || c == '\u{205f}' || c == '\u{3000}'
}

/// The lower-case mapping of one character, which may be several characters.
pub uninterp spec fn char_lower(c: char) -> Seq<char>;

/// The lower case of a text: each character replaced by its lower-case
/// mapping.
pub open spec fn lower_seq(s: Seq<char>) -> Seq<char>
    decreases s.len(),
{
    if s.len() == 0 {
        Seq::empty()
    } else {
        lower_seq(s.drop_last()) + char_lower(s.last())
    }
}

/// Relies on `char::to_lowercase`: the characters of the lower-case mapping of
/// `c`, which depend on `c` alone.
#[verifier::external_body]
pub(crate) fn lower_of(c: char) -> (r: Vec<char>)
    ensures
        r@ == char_lower(c),
{
    c.to_lowercase().collect()
}

/// Whether `c` is an ASCII letter.
pub fn letter(c: char) -> (r: bool)
    ensures
        r == is_letter(c),
{
    ('a' <= c && c <= 'z') || ('A' <= c && c <= 'Z')
}

/// Whether `c` is an ASCII digit.
pub fn digit(c: char) -> (r: bool)
    ensures
        r == is_digit(c),
{
    '0' <= c && c <= '9'
}

/// Whether `c` may open a numbered book name.
pub fn numeral(c: char) -> (r: bool)
    ensures
        r == is_numeral(c),
{
    '1' <= c && c <= '4'
}

/// Whether `c` is a range dash.
pub fn dash(c: char) -> (r: bool)
    ensures
        r == is_dash(c),
{
    c == '-' || c == '\u{2013}' || c == '\u{2014}'
}

/// Whether `c` is white space.
pub fn space(c: char) -> (r: bool)
    ensures
        r == is_space(c),
{
    ('\u{9}' <= c && c <= '\u{d}') || c == ' ' || c == '\u{85}' || c == '\u{a0}'
        || c == '\u{1680}' || ('\u{2000}' <= c && c <= '\u{200a}') || c == '\u{2028}'
        || c == '\u{2029}' || c == '\u{202f}' || c == '\u{205f}' || c == '\u{3000}'
}

/// The characters of `s`, one per element.
pub fn chars_of(s: &str) -> (r: Vec<char>)
    ensures
        r@ == s@,
{
    let mut out: Vec<char> = Vec::new();
    for c in it: s.chars()
        invariant
            out@ == it.history(),
    {
        out.push(c);
    }
    proof {
        assert(out@ =~= s@);
    }
    out
}

/// The lower case of `s`, as characters.
pub fn lower_chars(s: &str) -> (r: Vec<char>)
    ensures
        r@ == lower_seq(s@),
{
    let cs = chars_of(s);
    let mut out: Vec<char> = Vec::new();
    let mut i: usize = 0;
    proof {
        assert(s@.take(0) =~= Seq::<char>::empty());
    }
    while i < cs.len()
        invariant
            i <= cs.len(),
            cs@ == s@,
            out@ == lower_seq(s@.take(i as int)),
        decreases cs.len() - i,
    {
        let mut low = lower_of(cs[i]);
        out.append(&mut low);
        proof {
            assert(s@.take(i + 1).drop_last() =~= s@.take(i as int));
            assert(s@.take(i + 1).last() == s@[i as int]);
        }
        i = i + 1;
    }
    proof {
        assert(s@.take(cs.len() as int) =~= s@);
    }
    out
}

/// Whether the characters `a` spell out `lit`.
pub fn spells(a: &Vec<char>, lit: &str) -> (r: bool)
    ensures
        r == (a@ == lit@),
{
    let n = lit.unicode_len();
    if n != a.len() {
        return false;
    }
    let mut i: usize = 0;
    while i < n
        invariant
            n == lit@.len(),
            n == a@.len(),
            i <= n,
            forall|k: int| 0 <= k < i ==> a@[k] == lit@[k],
        decreases n - i,
    {
        if a[i] != lit.get_char(i) {
            return false;
        }
        i = i + 1;
    }
    proof {
        assert(a@ =~= lit@);
    }
    true
}

/// A kind of character that a search stops at.
#[derive(Clone, Copy, PartialEq, Eq, Debug)]
pub enum Stop {
    /// A comma or a semicolon, which end a verse item.
    Separator,
    /// A range dash.
    Dash,
    /// A semicolon, which opens a further chapter group.
    Semicolon,
}

/// Whether `c` is a stop of kind `k`.
pub open spec fn is_stop(c: char, k: Stop) -> bool {
    match k {
        Stop::Separator => c == ',' || c == ';',
        Stop::Dash => is_dash(c),
        Stop::Semicolon => c == ';',
    }
}

/// The first position at or after `i` that holds a stop of kind `k`, or the
/// length when there is none.
pub open spec fn first_stop(v: Seq<char>, i: int, k: Stop) -> int
    decreases v.len() - i,
{
    if 0 <= i < v.len() && !is_stop(v[i], k) {
        first_stop(v, i + 1, k)
    } else {
        i
    }
}

/// The first stop of kind `k` at or after `i`.
pub fn first_stop_exec(v: &Vec<char>, i: usize, k: Stop) -> (r: usize)
    requires
        i <= v.len(),
    ensures
        r as int == first_stop(v@, i as int, k),
        i <= r <= v.len(),
{
    let mut j = i;
    loop
        invariant
            i <= j <= v.len(),
            first_stop(v@, j as int, k) == first_stop(v@, i as int, k),
        decreases v.len() - j,
    {
        if j >= v.len() {
            return j;
        }
        let c = v[j];
        let hit = match k {
            Stop::Separator => c == ',' || c == ';',
            Stop::Dash => dash(c),
            Stop::Semicolon => c == ';',
        };
        if hit {
            return j;
        }
        j = j + 1;
    }
}

/// The character of the decimal digit `d`.
pub open spec fn digit_char(d: nat) -> char {
    "0123456789"@[d as int]
}

/// `n` in decimal, without leading zeros.
pub open spec fn decimal(n: nat) -> Seq<char>
    decreases n,
{
    if n < 10 {
        seq![digit_char(n)]
    } else {
        decimal(n / 10).push(digit_char(n % 10))
    }
}

/// Appends the decimal digit `d`.
pub fn push_digit(out: &mut String, d: u8)
    requires
        d < 10,
    ensures
        final(out)@ == old(out)@.push(digit_char(d as nat)),
{
    let digits = "0123456789";
    proof {
        reveal_strlit("0123456789");
    }
    let one = digits.substring_char(d as usize, d as usize + 1);
    proof {
        assert(one@ =~= seq![digit_char(d as nat)]);
    }
    out.append(one);
}

/// `n` in decimal.
pub fn decimal_text(n: u8) -> (r: String)
    ensures
        r@ == decimal(n as nat),
{
    let mut out = String::new();
    if n >= 100 {
        push_digit(&mut out, n / 100);
        push_digit(&mut out, (n / 10) % 10);
        push_digit(&mut out, n % 10);
        proof {
            assert((n as nat / 10) / 10 == n as nat / 100);
            assert(decimal(n as nat / 100) =~= seq![digit_char(n as nat / 100)]);
            assert(decimal(n as nat / 10) =~= seq![digit_char(n as nat / 100)].push(
                digit_char((n as nat / 10) % 10),
            ));
            assert(out@ =~= decimal(n as nat));
        }
    } else if n >= 10 {
        push_digit(&mut out, n / 10);
        push_digit(&mut out, n % 10);
        proof {
            assert(decimal(n as nat / 10) =~= seq![digit_char(n as nat / 10)]);
            assert(out@ =~= decimal(n as nat));
        }
    } else {
        push_digit(&mut out, n);
        proof {
            assert(out@ =~= decimal(n as nat));
        }
    }
    out
}

/// How many bytes UTF-8 takes for `c`.
pub open spec fn width(c: char) -> int {
    if (c as u32) <= 0x7f {
        1
    } else if (c as u32) <= 0x7ff {
        2
    } else if (c as u32) <= 0xffff {
        3
    } else {
        4
    }
}

/// The byte offset, in UTF-8, of the character position `i` of `s`.
pub open spec fn byte_pos(s: Seq<char>, i: int) -> int {
    encode_utf8(s.take(i)).len() as int
}

/// Encoding a concatenation concatenates the encodings.
pub proof fn lemma_encode_concat(a: Seq<char>, b: Seq<char>)
    ensures
        encode_utf8(a + b) == encode_utf8(a) + encode_utf8(b),
    decreases a.len(),
{
    if a.len() == 0 {
        assert(a + b =~= b);
        assert(encode_utf8(a) =~= Seq::<u8>::empty());
        assert(encode_utf8(a) + encode_utf8(b) =~= encode_utf8(b));
    } else {
        assert((a + b).drop_first() =~= a.drop_first() + b);
        lemma_encode_concat(a.drop_first(), b);
        assert((a + b)[0] == a[0]);
        assert(encode_utf8(a + b) =~= encode_utf8(a) + encode_utf8(b));
    }
}

/// One character takes its width in bytes.
pub proof fn lemma_encode_char_len(c: char)
    ensures
        encode_utf8(seq![c]).len() == width(c),
{
    char_is_scalar(c);
    assert(seq![c].drop_first() =~= Seq::<char>::empty());
    assert(encode_utf8(seq![c].drop_first()) =~= Seq::<u8>::empty());
}

/// One character further on, the byte offset grows by that character's width.
pub proof fn lemma_byte_pos_step(s: Seq<char>, i: int)
    requires
        0 <= i < s.len(),
    ensures
        byte_pos(s, i + 1) == byte_pos(s, i) + width(s[i]),
{
    assert(s.take(i + 1) =~= s.take(i) + seq![s[i]]);
    lemma_encode_concat(s.take(i), seq![s[i]]);
    lemma_encode_char_len(s[i]);
}

/// Byte offsets grow strictly with character positions, up to the text's
/// byte length.
pub proof fn lemma_byte_pos_mono(s: Seq<char>, i: int, j: int)
    requires
        0 <= i <= j <= s.len(),
    ensures
        byte_pos(s, i) <= byte_pos(s, j) <= encode_utf8(s).len(),
        i < j ==> byte_pos(s, i) < byte_pos(s, j),
    decreases j - i,
{
    assert(s =~= s.take(j) + s.skip(j));
    lemma_encode_concat(s.take(j), s.skip(j));
    if i < j {
        lemma_byte_pos_mono(s, i, j - 1);
        lemma_byte_pos_step(s, j - 1);
    }
}

/// Two character positions with the same byte offset are the same.
pub proof fn lemma_byte_pos_injective(s: Seq<char>, x: int, y: int)
    requires
        0 <= x <= s.len(),
        0 <= y <= s.len(),
        byte_pos(s, x) == byte_pos(s, y),
    ensures
        x == y,
{
    if x < y {
        lemma_byte_pos_mono(s, x, y);
    } else if y < x {
        lemma_byte_pos_mono(s, y, x);
    }
}

/// How many bytes UTF-8 takes for `c`.
pub fn width_exec(c: char) -> (r: usize)
    ensures
        r == width(c),
{
    if (c as u32) <= 0x7f {
        1
    } else if (c as u32) <= 0x7ff {
        2
    } else if (c as u32) <= 0xffff {
        3
    } else {
        4
    }
}

/// The byte offset of every character position of `text`, its end included.
pub fn byte_positions(text: &str, cs: &Vec<char>) -> (r: Vec<usize>)
    requires
        cs@ == text@,
    ensures
        r@.len() == cs@.len() + 1,
        forall|i: int| 0 <= i <= cs@.len() ==> r@[i] == byte_pos(text@, i),
{
    let total = text.as_bytes().len();
    let mut out: Vec<usize> = Vec::new();
    out.push(0);
    let mut pos: usize = 0;
    let mut i: usize = 0;
    proof {
        assert(text@.take(0) =~= Seq::<char>::empty());
        assert(encode_utf8(text@.take(0)) =~= Seq::<u8>::empty());
    }
    while i < cs.len()
        invariant
            cs@ == text@,
            total == encode_utf8(text@).len(),
            i <= cs.len(),
            pos == byte_pos(text@, i as int),
            out@.len() == i + 1,
            forall|k: int| 0 <= k <= i ==> out@[k] == byte_pos(text@, k),
        decreases cs.len() - i,
    {
        proof {
            lemma_byte_pos_step(text@, i as int);
            lemma_byte_pos_mono(text@, i + 1, cs@.len() as int);
        }
        pos = pos + width_exec(cs[i]);
        out.push(pos);
        i = i + 1;
    }
    out
}

} // verus!
