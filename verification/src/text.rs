//! Text building blocks: decimal numerals, path joining and string assembly.

use vstd::prelude::*;
use vstd::string::*;

verus! {

/// The decimal digit character for a digit value.
pub open spec fn digit_char(d: int) -> char {
    if d == 0 { '0' }
    else if d == 1 { '1' }
    else if d == 2 { '2' }
    else if d == 3 { '3' }
    else if d == 4 { '4' }
    else if d == 5 { '5' }
    else if d == 6 { '6' }
    else if d == 7 { '7' }
    else if d == 8 { '8' }
    else { '9' }
}

/// The decimal numeral of a natural number, without leading zeros.
pub open spec fn decimal(n: nat) -> Seq<char>
    decreases n,
{
    if n < 10 {
        seq![digit_char(n as int)]
    } else {
        decimal(n / 10) + seq![digit_char((n % 10) as int)]
    }
}

/// Appends `other` to a path the way a file system path is extended: an
/// absolute `other` replaces the path, and a separator is put between a
/// non-empty path that does not already end in one and `other`.
pub open spec fn path_push(path: Seq<char>, other: Seq<char>) -> Seq<char> {
    if other.len() > 0 && other[0] == '/' {
        other
    } else if path.len() > 0 && path.last() != '/' {
        path + seq!['/'] + other
    } else {
        path + other
    }
}

/// `String::push`: appends one character.
#[verifier::external_body]
pub(crate) fn string_push(s: &mut String, c: char)
    ensures
        final(s)@ == old(s)@.push(c),
{
    s.push(c);
}

/// The character of a digit value below ten.
pub fn digit_to_char(d: u64) -> (c: char)
    requires
        d < 10,
    ensures
        c == digit_char(d as int),
{
    if d == 0 { '0' }
    else if d == 1 { '1' }
    else if d == 2 { '2' }
    else if d == 3 { '3' }
    else if d == 4 { '4' }
    else if d == 5 { '5' }
    else if d == 6 { '6' }
    else if d == 7 { '7' }
    else if d == 8 { '8' }
    else { '9' }
}

/// Appends the decimal numeral of `n` to `s`.
pub fn push_decimal(s: &mut String, n: u64)
    ensures
        final(s)@ == old(s)@ + decimal(n as nat),
    decreases n,
{
    if n < 10 {
        string_push(s, digit_to_char(n));
        assert(decimal(n as nat) =~= seq![digit_char(n as int)]);
    } else {
        push_decimal(s, n / 10);
        string_push(s, digit_to_char(n % 10));
        assert(old(s)@ + decimal((n / 10) as nat) + seq![digit_char((n % 10) as int)]
            =~= old(s)@ + decimal(n as nat));
    }
}

/// Extends the path `path` by `other`, as `path_push` describes.
pub fn push_path(path: &mut String, other: &str)
    ensures
        final(path)@ == path_push(old(path)@, other@),
{
    let other_len = other.unicode_len();
    let absolute = other_len > 0 && other.get_char(0) == '/';
    if absolute {
        *path = String::from_str(other);
    } else {
        let path_len = path.as_str().unicode_len();
        if path_len > 0 && path.as_str().get_char(path_len - 1) != '/' {
            string_push(path, '/');
        }
        path.append(other);
    }
}

} // verus!
