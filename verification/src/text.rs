//! Text building blocks: decimal and hexadecimal rendering, and the few
//! string operations of std that the contract relies on.
use vstd::prelude::*;

verus! {

/// The ASCII character for a single decimal or hexadecimal digit (lower case).
pub open spec fn digit_char(d: nat) -> char {
    if d < 10 {
        (48 + d) as char
    } else {
        (87 + d) as char
    }
}

/// The decimal rendering of `n`, without sign or leading zeros ("0" for zero).
pub open spec fn decimal(n: nat) -> Seq<char>
    decreases n,
{
    if n < 10 {
        seq![digit_char(n)]
    } else {
        decimal(n / 10) + seq![digit_char(n % 10)]
    }
}

/// Two lower-case hexadecimal digits per byte, most significant nibble first.
pub open spec fn hex_lower(bytes: Seq<u8>) -> Seq<char>
    decreases bytes.len(),
{
    if bytes.len() == 0 {
        seq![]
    } else {
        seq![digit_char((bytes[0] / 16) as nat), digit_char((bytes[0] % 16) as nat)]
            + hex_lower(bytes.drop_first())
    }
}

/// What `str::to_lowercase` gives back for a text (Unicode lower-case mapping).
pub uninterp spec fn lowercase_of(text: Seq<char>) -> Seq<char>;

/// What the `Debug` formatting of a `str` gives back for a text: the text in
/// double quotes, with the characters that `Debug` escapes escaped.
pub uninterp spec fn debug_quoted(text: Seq<char>) -> Seq<char>;

/// Appends one character with `String::push`, which std documents as
/// appending the given `char` to the end of the string.
#[verifier::external_body]
pub(crate) fn push_char(s: &mut String, c: char)
    ensures
        final(s)@ == old(s)@.push(c),
{
    s.push(c)
}

/// Calls `str::to_lowercase`. Its result is a function of the text alone and
/// is named `lowercase_of`; nothing more is stated of the Unicode mapping.
#[verifier::external_body]
pub(crate) fn to_lowercase(text: &str) -> (lower: String)
    ensures
        lower@ == lowercase_of(text@),
{
    text.to_lowercase()
}

/// Renders a text with the `Debug` formatting of `str` (`format!("{:?}", ..)`).
/// Its result is a function of the text alone and is named `debug_quoted`;
/// the escaping rules are not restated.
#[verifier::external_body]
pub(crate) fn debug_str(text: &str) -> (quoted: String)
    ensures
        quoted@ == debug_quoted(text@),
{
    format!("{:?}", text)
}

fn digit(d: u8) -> (c: char)
    requires
        d < 16,
    ensures
        c == digit_char(d as nat),
{
    if d < 10 {
        (48 + d) as char
    } else {
        (87 + d) as char
    }
}

/// Appends the decimal rendering of `n`.
pub fn push_decimal(out: &mut String, n: u128)
    ensures
        final(out)@ == old(out)@ + decimal(n as nat),
    decreases n,
{
    if n >= 10 {
        push_decimal(out, n / 10);
    }
    let d = (n % 10) as u8;
    push_char(out, digit(d));
    assert(final(out)@ =~= old(out)@ + decimal(n as nat)) by {
        reveal_with_fuel(decimal, 2);
    }
}

/// The decimal rendering of `n` as a new string.
pub fn decimal_string(n: u128) -> (s: String)
    ensures
        s@ == decimal(n as nat),
{
    let mut s = String::new();
    push_decimal(&mut s, n);
    assert(s@ =~= decimal(n as nat));
    s
}

/// The lower-case hexadecimal rendering of a byte string.
pub fn hex_string(bytes: &[u8]) -> (s: String)
    ensures
        s@ == hex_lower(bytes@),
{
    let mut s = String::new();
    let n = bytes.len();
    let mut i: usize = 0;
    proof {
        assert(bytes@.skip(0) =~= bytes@);
        assert(s@ + hex_lower(bytes@.skip(0)) =~= hex_lower(bytes@));
    }
    while i < n
        invariant
            n == bytes@.len(),
            i <= n,
            s@ + hex_lower(bytes@.skip(i as int)) == hex_lower(bytes@),
        decreases n - i,
    {
        let b = bytes[i];
        proof {
            assert(bytes@.skip(i as int).drop_first() =~= bytes@.skip(i + 1));
        }
        push_char(&mut s, digit(b / 16));
        push_char(&mut s, digit(b % 16));
        i = i + 1;
        proof {
            let rest = hex_lower(bytes@.skip(i as int));
            assert(s@ + rest =~= hex_lower(bytes@));
        }
    }
    proof {
        assert(bytes@.skip(n as int) =~= Seq::<u8>::empty());
        assert(s@ =~= hex_lower(bytes@));
    }
    s
}

/// Appends a text to a string.
pub fn push_str(out: &mut String, text: &str)
    ensures
        final(out)@ == old(out)@ + text@,
{
    out.append(text);
}

/// A new string holding the given text.
pub fn owned(text: &str) -> (s: String)
    ensures
        s@ == text@,
{
    String::from_str(text)
}

} // verus!
