use vstd::prelude::*;
use vstd::string::StrSliceExecFns;

verus! {

/// Calls `String::push` from std, which appends one character to the end of the string.
/// Trusted: the contract restates that documentation, nothing here is proved.
#[verifier::external_body]
pub(crate) fn push_char(s: &mut String, c: char)
    ensures
        final(s)@ == old(s)@.push(c),
{
    s.push(c);
}

/// Calls `String::pop` from std, which removes the last character of the string and returns
/// it, or returns `None` when the string is empty.
/// Trusted: the contract restates that documentation, nothing here is proved.
#[verifier::external_body]
pub(crate) fn pop_char(s: &mut String) -> (r: Option<char>)
    ensures
        old(s)@.len() > 0 ==> r == Some(old(s)@.last()) && final(s)@ == old(s)@.drop_last(),
        old(s)@.len() == 0 ==> r is None && final(s)@ == old(s)@,
{
    s.pop()
}

/// The character of an ASCII byte.
pub(crate) fn ascii_char(b: u8) -> (c: char)
    requires
        b < 128,
    ensures
        c as int == b as int,
{
    b as char
}

/// The character of a digit value below 16: `0`..`9`, then `a`..`f`.
pub open spec fn digit_char(d: int) -> char {
    if d < 10 {
        (48 + d) as char
    } else {
        (87 + d) as char
    }
}

/// `v` in lower-case hexadecimal, without leading zeros.
pub open spec fn hex_digits(v: nat) -> Seq<char>
    decreases v,
{
    if v < 16 {
        seq![digit_char(v as int)]
    } else {
        hex_digits(v / 16).push(digit_char((v % 16) as int))
    }
}

/// The low `width` hexadecimal digits of `v`, zero-padded.
pub open spec fn padded_hex(v: nat, width: nat) -> Seq<char>
    decreases width,
{
    if width == 0 {
        Seq::empty()
    } else {
        padded_hex(v / 16, (width - 1) as nat).push(digit_char((v % 16) as int))
    }
}

/// `v` in decimal, without leading zeros.
pub open spec fn decimal(v: nat) -> Seq<char>
    decreases v,
{
    if v < 10 {
        seq![digit_char(v as int)]
    } else {
        decimal(v / 10).push(digit_char((v % 10) as int))
    }
}

pub(crate) fn digit(d: u32) -> (c: char)
    requires
        d < 16,
    ensures
        c == digit_char(d as int),
{
    if d < 10 {
        ascii_char((48 + d) as u8)
    } else {
        ascii_char((87 + d) as u8)
    }
}

/// Appends `t`.
pub(crate) fn push_str(s: &mut String, t: &str)
    ensures
        final(s)@ == old(s)@ + t@,
{
    let n = t.unicode_len();
    let mut i: usize = 0;
    while i < n
        invariant
            n == t@.len(),
            i <= n,
            s@ == old(s)@ + t@.subrange(0, i as int),
        decreases n - i,
    {
        push_char(s, t.get_char(i));
        i = i + 1;
        assert(t@.subrange(0, i as int) =~= t@.subrange(0, (i - 1) as int).push(t@[i - 1]));
    }
    assert(t@.subrange(0, n as int) =~= t@);
}

/// Appends `v` in hexadecimal.
pub(crate) fn push_hex(s: &mut String, v: u32)
    ensures
        final(s)@ == old(s)@ + hex_digits(v as nat),
    decreases v,
{
    if v >= 16 {
        push_hex(s, v / 16);
    }
    push_char(s, digit(v % 16));
    assert(final(s)@ =~= old(s)@ + hex_digits(v as nat)) by {
        if v >= 16 {
            assert(hex_digits(v as nat) == hex_digits((v / 16) as nat).push(digit_char((v % 16) as int)));
        }
    }
}

/// Appends the low `width` hexadecimal digits of `v`, zero-padded.
pub(crate) fn push_padded_hex(s: &mut String, v: u32, width: u32)
    ensures
        final(s)@ == old(s)@ + padded_hex(v as nat, width as nat),
    decreases width,
{
    if width > 0 {
        push_padded_hex(s, v / 16, width - 1);
        push_char(s, digit(v % 16));
        assert(final(s)@ =~= old(s)@ + padded_hex(v as nat, width as nat));
    } else {
        assert(final(s)@ =~= old(s)@ + padded_hex(v as nat, width as nat));
    }
}

/// Appends `v` in decimal.
pub(crate) fn push_decimal(s: &mut String, v: u64)
    ensures
        final(s)@ == old(s)@ + decimal(v as nat),
    decreases v,
{
    if v >= 10 {
        push_decimal(s, v / 10);
    }
    push_char(s, digit((v % 10) as u32));
    assert(final(s)@ =~= old(s)@ + decimal(v as nat)) by {
        if v >= 10 {
            assert(decimal(v as nat) == decimal((v / 10) as nat).push(digit_char((v % 10) as int)));
        }
    }
}

/// `v` in binary, zero-padded to at least `width` digits.
pub open spec fn binary_padded(v: nat, width: nat) -> Seq<char>
    decreases v + width,
{
    if v == 0 && width == 0 {
        Seq::empty()
    } else {
        binary_padded(v / 2, if width > 0 { (width - 1) as nat } else { 0 }).push(digit_char((v % 2) as int))
    }
}

/// Appends `v` in binary, zero-padded to at least `width` digits.
pub(crate) fn push_binary_padded(s: &mut String, v: u32, width: u32)
    ensures
        final(s)@ == old(s)@ + binary_padded(v as nat, width as nat),
    decreases v + width,
{
    if v == 0 && width == 0 {
        assert(final(s)@ =~= old(s)@ + binary_padded(v as nat, width as nat));
        return;
    }
    push_binary_padded(s, v / 2, if width > 0 { width - 1 } else { 0 });
    push_char(s, digit(v % 2));
    assert(final(s)@ =~= old(s)@ + binary_padded(v as nat, width as nat));
}

/// Drops trailing spaces.
pub open spec fn trim_end_spaces(s: Seq<char>) -> Seq<char>
    decreases s.len(),
{
    if s.len() > 0 && s.last() == ' ' {
        trim_end_spaces(s.drop_last())
    } else {
        s
    }
}

/// Removes the trailing spaces of `s`.
pub(crate) fn trim_end(s: &mut String)
    ensures
        final(s)@ == trim_end_spaces(old(s)@),
{
    loop
        invariant
            trim_end_spaces(s@) == trim_end_spaces(old(s)@),
        ensures
            s@ == trim_end_spaces(old(s)@),
        decreases s@.len(),
    {
        let ghost before = s@;
        match pop_char(s) {
            Some(c) => {
                if c != ' ' {
                    push_char(s, c);
                    assert(s@ =~= before);
                    break;
                }
            },
            None => {
                break;
            },
        }
    }
}

/// `s` padded with spaces on the right to `width` characters.
pub open spec fn pad_right(s: Seq<char>, width: nat) -> Seq<char> {
    if s.len() >= width {
        s
    } else {
        s + Seq::new((width - s.len()) as nat, |k: int| ' ')
    }
}

/// Appends `t` padded with spaces on the right to `width` characters.
pub(crate) fn push_padded(s: &mut String, t: &str, width: usize)
    ensures
        final(s)@ == old(s)@ + pad_right(t@, width as nat),
{
    push_str(s, t);
    let ghost base = old(s)@;
    let mut n = t.unicode_len();
    while n < width
        invariant
            t@.len() <= n <= width || (t@.len() > width && n == t@.len()),
            s@ == base + t@ + Seq::new((n - t@.len()) as nat, |k: int| ' '),
        decreases width - n,
    {
        push_char(s, ' ');
        n = n + 1;
        assert(s@ =~= base + t@ + Seq::new((n - t@.len()) as nat, |k: int| ' '));
    }
    assert(s@ =~= base + pad_right(t@, width as nat));
}

/// Padded hexadecimal has exactly its width, and ends with the lowest digit.
pub proof fn lemma_padded_hex_len(v: nat, width: nat)
    ensures
        padded_hex(v, width).len() == width,
        width > 0 ==> padded_hex(v, width).last() == digit_char((v % 16) as int),
    decreases width,
{
    if width > 0 {
        lemma_padded_hex_len(v / 16, (width - 1) as nat);
    }
}

/// No digit is a space.
pub proof fn lemma_digit_not_space(d: int)
    requires
        0 <= d < 16,
    ensures
        digit_char(d) != ' ',
{
    assert(' ' as int == 32);
    if d < 10 {
        assert(((48 + d) as char) as int == 48 + d);
    } else {
        assert(((87 + d) as char) as int == 87 + d);
    }
}

/// Trimming trailing spaces keeps everything up to the last character that is not a space.
pub proof fn lemma_trim_keeps_prefix(s: Seq<char>, k: int)
    requires
        0 <= k < s.len(),
        s[k] != ' ',
    ensures
        trim_end_spaces(s).len() > k,
        trim_end_spaces(s).subrange(0, k + 1) == s.subrange(0, k + 1),
    decreases s.len(),
{
    if s.len() > 0 && s.last() == ' ' {
        let t = s.drop_last();
        assert(k < t.len());
        lemma_trim_keeps_prefix(t, k);
        assert(t.subrange(0, k + 1) =~= s.subrange(0, k + 1));
    }
}

} // verus!
