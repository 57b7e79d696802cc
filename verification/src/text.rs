//! Text as sequences of characters: the character classes the scanner asks
//! for, and the few string operations the rest of the library is built from.

use vstd::prelude::*;

verus! {

/// Whether a character beyond ASCII has the Unicode property White_Space, as
/// `char::is_whitespace` decides it.
pub uninterp spec fn white_space_beyond_ascii(c: char) -> bool;

/// Whether a character beyond ASCII has the Unicode property Alphabetic, as
/// `char::is_alphabetic` decides it.
pub uninterp spec fn alphabetic_beyond_ascii(c: char) -> bool;

/// Whether a character beyond ASCII is of one of the Unicode general
/// categories Nd, Nl and No, as `char::is_numeric` decides it.
pub uninterp spec fn numeric_beyond_ascii(c: char) -> bool;

/// Whether a character is one of the 128 of ASCII.
pub open spec fn is_ascii_char(c: char) -> bool {
    (c as u32) < 128
}

/// The whitespace characters: in ASCII the space and the characters from the
/// tabulator to the carriage return, beyond ASCII those with the Unicode
/// property White_Space.
pub open spec fn is_whitespace_char(c: char) -> bool {
    if is_ascii_char(c) {
        c == ' ' || 9 <= (c as u32) <= 13
    } else {
        white_space_beyond_ascii(c)
    }
}

/// The alphabetic characters: in ASCII the letters `a` to `z` and `A` to `Z`,
/// beyond ASCII those with the Unicode property Alphabetic.
pub open spec fn is_alphabetic_char(c: char) -> bool {
    if is_ascii_char(c) {
        97 <= (c as u32) <= 122 || 65 <= (c as u32) <= 90
    } else {
        alphabetic_beyond_ascii(c)
    }
}

/// The numeric characters: in ASCII the digits `0` to `9`, beyond ASCII those
/// of the Unicode general categories Nd, Nl and No.
pub open spec fn is_numeric_char(c: char) -> bool {
    if is_ascii_char(c) {
        48 <= (c as u32) <= 57
    } else {
        numeric_beyond_ascii(c)
    }
}

/// What `{:?}` prints for a string: the text between double quotes, with the
/// escapes of `str`'s `Debug` implementation.
pub uninterp spec fn debug_quoted(s: Seq<char>) -> Seq<char>;

/// What `str::to_lowercase` returns: the lowercase mapping of Unicode, applied
/// to the whole text.
pub uninterp spec fn lowercase_of(s: Seq<char>) -> Seq<char>;

/// `char::is_whitespace` holds in ASCII of the space and of the characters
/// from the tabulator to the carriage return, and beyond ASCII of the
/// characters with the Unicode property White_Space, which
/// [`white_space_beyond_ascii`] names.
pub assume_specification[ char::is_whitespace ](c: char) -> (b: bool)
    ensures
        b == (if is_ascii_char(c) {
            c == ' ' || 9 <= (c as u32) <= 13
        } else {
            white_space_beyond_ascii(c)
        }),
;

/// `char::is_alphabetic` holds in ASCII of the letters, and beyond ASCII of
/// the characters with the Unicode property Alphabetic, which
/// [`alphabetic_beyond_ascii`] names.
pub assume_specification[ char::is_alphabetic ](c: char) -> (b: bool)
    ensures
        b == (if is_ascii_char(c) {
            97 <= (c as u32) <= 122 || 65 <= (c as u32) <= 90
        } else {
            alphabetic_beyond_ascii(c)
        }),
;

/// `char::is_numeric` holds in ASCII of the digits, and beyond ASCII of the
/// characters of the Unicode general categories Nd, Nl and No, which
/// [`numeric_beyond_ascii`] names.
pub assume_specification[ char::is_numeric ](c: char) -> (b: bool)
    ensures
        b == (if is_ascii_char(c) {
            48 <= (c as u32) <= 57
        } else {
            numeric_beyond_ascii(c)
        }),
;

/// `char::is_alphanumeric` holds of exactly the characters that are
/// alphabetic or numeric, as its documentation defines it.
pub assume_specification[ char::is_alphanumeric ](c: char) -> (b: bool)
    ensures
        b == (is_alphabetic_char(c) || is_numeric_char(c)),
;

/// `String::push` appends one character at the end and changes nothing else.
pub assume_specification[ std::string::String::push ](s: &mut std::string::String, c: char)
    ensures
        final(s)@ == old(s)@.push(c),
;

/// `str`'s `Debug` formatting, reached through `format!("{:?}", ..)`. The
/// result is the one named [`debug_quoted`]: a function of the text alone.
#[verifier::external_body]
pub(crate) fn debug_quote(s: &str) -> (r: String)
    ensures
        r@ == debug_quoted(s@),
{
    format!("{:?}", s)
}

/// `str::to_lowercase`. The result is the one named [`lowercase_of`]: a
/// function of the text alone.
#[verifier::external_body]
pub(crate) fn lowercase(s: &str) -> (r: String)
    ensures
        r@ == lowercase_of(s@),
{
    s.to_lowercase()
}

/// The characters of `s`, in order.
pub fn chars_of(s: &str) -> (v: Vec<char>)
    ensures
        v@ == s@,
{
    let mut v: Vec<char> = Vec::new();
    for c in it: s.chars()
        invariant
            v@ == it.seq().take(it.index() as int),
            it.seq() == s@,
    {
        v.push(c);
    }
    v
}

/// Whether both texts hold the same characters in the same order.
pub fn same_text(a: &str, b: &str) -> (r: bool)
    ensures
        r == (a@ == b@),
{
    let left = chars_of(a);
    let right = chars_of(b);
    if left.len() != right.len() {
        return false;
    }
    let mut i: usize = 0;
    while i < left.len()
        invariant
            i <= left.len() == right.len(),
            left@ == a@,
            right@ == b@,
            forall|j: int| 0 <= j < i ==> left@[j] == right@[j],
        decreases left.len() - i,
    {
        if left[i] != right[i] {
            assert(a@[i as int] != b@[i as int]);
            return false;
        }
        i += 1;
    }
    assert(a@ =~= b@);
    true
}

/// The string made of `chars[from..to]`.
pub fn text_of(chars: &Vec<char>, from: usize, to: usize) -> (s: String)
    requires
        from <= to <= chars.len(),
    ensures
        s@ == chars@.subrange(from as int, to as int),
{
    let mut s = String::new();
    let mut i: usize = from;
    while i < to
        invariant
            from <= i <= to <= chars.len(),
            s@ == chars@.subrange(from as int, i as int),
        decreases to - i,
    {
        s.push(chars[i]);
        proof {
            assert(chars@.subrange(from as int, i as int).push(chars@[i as int])
                =~= chars@.subrange(from as int, i as int + 1));
        }
        i += 1;
    }
    s
}

/// Whether `s` starts with the character `c`.
pub fn starts_with(s: &str, c: char) -> (r: bool)
    ensures
        r == (s@.len() > 0 && s@[0] == c),
{
    if s.unicode_len() == 0 {
        false
    } else {
        s.get_char(0) == c
    }
}

/// The decimal digit for `d`.
pub open spec fn digit_char(d: nat) -> char
    recommends
        d < 10,
{
    ((48 + d) as u8) as char
}

/// `n` written in decimal, without sign or leading zeros.
pub open spec fn decimal(n: nat) -> Seq<char>
    decreases n,
{
    if n < 10 {
        seq![digit_char(n)]
    } else {
        decimal(n / 10).push(digit_char(n % 10))
    }
}

/// Appends `n` in decimal to `out`.
pub fn push_decimal(out: &mut String, n: usize)
    ensures
        final(out)@ == old(out)@ + decimal(n as nat),
    decreases n,
{
    if n >= 10 {
        push_decimal(out, n / 10);
    }
    let d: u8 = (n % 10) as u8;
    out.push((48u8 + d) as char);
    proof {
        if n >= 10 {
            assert(old(out)@ + decimal(n as nat / 10).push(digit_char(n as nat % 10)) =~= (old(out)@
                + decimal(n as nat / 10)).push(digit_char(n as nat % 10)));
        } else {
            assert(old(out)@ + seq![digit_char(n as nat)] =~= old(out)@.push(digit_char(n as nat)));
        }
    }
}

/// `s` without the characters equal to `c` at its start.
pub open spec fn strip_leading(s: Seq<char>, c: char) -> Seq<char>
    decreases s.len(),
{
    if s.len() > 0 && s[0] == c {
        strip_leading(s.drop_first(), c)
    } else {
        s
    }
}

/// `s` without the characters equal to `c` at its end.
pub open spec fn strip_trailing(s: Seq<char>, c: char) -> Seq<char>
    decreases s.len(),
{
    if s.len() > 0 && s.last() == c {
        strip_trailing(s.drop_last(), c)
    } else {
        s
    }
}

/// `s` without the characters equal to `c` at either end.
pub open spec fn trim_matching(s: Seq<char>, c: char) -> Seq<char> {
    strip_trailing(strip_leading(s, c), c)
}

/// `s` without the characters equal to `c` at either end.
pub fn trim(s: &str, c: char) -> (r: String)
    ensures
        r@ == trim_matching(s@, c),
{
    let chars = chars_of(s);
    let n: usize = chars.len();
    let mut i: usize = 0;
    assert(chars@.skip(0) =~= chars@);
    while i < n && chars[i] == c
        invariant
            i <= n == chars.len(),
            strip_leading(chars@, c) == strip_leading(chars@.skip(i as int), c),
        decreases n - i,
    {
        proof {
            assert(chars@.skip(i as int).drop_first() =~= chars@.skip(i as int + 1));
        }
        i += 1;
    }
    assert(strip_leading(chars@, c) == chars@.skip(i as int));
    assert(chars@.skip(i as int) =~= chars@.subrange(i as int, n as int));
    let mut j: usize = n;
    while j > i && chars[j - 1] == c
        invariant
            i <= j <= n == chars.len(),
            trim_matching(chars@, c) == strip_trailing(chars@.subrange(i as int, j as int), c),
        decreases j,
    {
        proof {
            assert(chars@.subrange(i as int, j as int).drop_last() =~= chars@.subrange(
                i as int,
                j as int - 1,
            ));
        }
        j -= 1;
    }
    text_of(&chars, i, j)
}

/// The parts one after another, with `sep` between each two.
pub open spec fn join(parts: Seq<Seq<char>>, sep: Seq<char>) -> Seq<char>
    decreases parts.len(),
{
    if parts.len() == 0 {
        Seq::empty()
    } else if parts.len() == 1 {
        parts[0]
    } else {
        join(parts.drop_last(), sep) + sep + parts.last()
    }
}

/// The texts of a sequence of strings.
pub open spec fn texts(v: Seq<String>) -> Seq<Seq<char>> {
    v.map_values(|s: String| s@)
}

/// Whether one of the strings holds the text `s`.
pub fn contains_text(v: &Vec<String>, s: &str) -> (r: bool)
    ensures
        r == texts(v@).contains(s@),
{
    let mut i: usize = 0;
    while i < v.len()
        invariant
            i <= v.len(),
            forall|j: int| 0 <= j < i ==> texts(v@)[j] != s@,
        decreases v.len() - i,
    {
        if same_text(v[i].as_str(), s) {
            assert(texts(v@)[i as int] == s@);
            return true;
        }
        i += 1;
    }
    false
}

/// The strings joined with `sep` between each two.
pub fn join_strings(parts: &Vec<String>, sep: &str) -> (r: String)
    ensures
        r@ == join(texts(parts@), sep@),
{
    let mut r = String::new();
    let mut i: usize = 0;
    while i < parts.len()
        invariant
            i <= parts.len(),
            r@ == join(texts(parts@).take(i as int), sep@),
        decreases parts.len() - i,
    {
        if i > 0 {
            r.append(sep);
        }
        r.append(parts[i].as_str());
        proof {
            let t = texts(parts@);
            assert(t.take(i as int + 1).drop_last() =~= t.take(i as int));
            assert(t.take(i as int + 1).last() == parts@[i as int]@);
            if i == 0 {
                assert(r@ =~= parts@[0]@);
            }
        }
        i += 1;
    }
    proof {
        assert(texts(parts@).take(i as int) =~= texts(parts@));
    }
    r
}

} // verus!
