use vstd::prelude::*;
use vstd::string::*;

verus! {

/// White space as the Unicode `White_Space` property lists it.
pub open spec fn is_space(c: char) -> bool {
    let u = c as u32;
    (9 <= u <= 13) || u == 32 || u == 0x85 || u == 0xA0 || u == 0x1680 || (0x2000 <= u
        <= 0x200A) || u == 0x2028 || u == 0x2029 || u == 0x202F || u == 0x205F || u == 0x3000
}

pub open spec fn is_digit(c: char) -> bool {
    '0' <= c <= '9'
}

/// An upper-case hexadecimal digit.
pub open spec fn is_hex(c: char) -> bool {
    ('0' <= c <= '9') || ('A' <= c <= 'F')
}

pub fn space(c: char) -> (r: bool)
    ensures
        r == is_space(c),
{
    let u = c as u32;
    (9 <= u && u <= 13) || u == 32 || u == 0x85 || u == 0xA0 || u == 0x1680 || (0x2000 <= u && u
        <= 0x200A) || u == 0x2028 || u == 0x2029 || u == 0x202F || u == 0x205F || u == 0x3000
}

pub fn digit(c: char) -> (r: bool)
    ensures
        r == is_digit(c),
{
    '0' <= c && c <= '9'
}

pub fn hex(c: char) -> (r: bool)
    ensures
        r == is_hex(c),
{
    ('0' <= c && c <= '9') || ('A' <= c && c <= 'F')
}

/// The characters of `s`, one by one.
pub fn chars_of(s: &str) -> (r: Vec<char>)
    ensures
        r@ == s@,
{
    let n = s.unicode_len();
    let mut r: Vec<char> = Vec::new();
    let mut i: usize = 0;
    while i < n
        invariant
            n == s@.len(),
            i <= n,
            r@ == s@.subrange(0, i as int),
        decreases n - i,
    {
        r.push(s.get_char(i));
        i += 1;
        assert(r@ =~= s@.subrange(0, i as int));
    }
    assert(s@.subrange(0, n as int) =~= s@);
    r
}

/// `path` ends with `suffix`.
pub open spec fn ends_with(path: Seq<char>, suffix: Seq<char>) -> bool {
    suffix.len() <= path.len() && path.subrange(path.len() - suffix.len(), path.len() as int)
        == suffix
}

/// `path` without the trailing `suffix`, or all of `path` where it does not
/// end with it.
pub fn basename<'a>(path: &'a str, suffix: &str) -> (r: &'a str)
    ensures
        r@ == if ends_with(path@, suffix@) {
            path@.subrange(0, path@.len() - suffix@.len())
        } else {
            path@
        },
{
    let p = chars_of(path);
    let s = chars_of(suffix);
    if s.len() > p.len() {
        return path;
    }
    let start = p.len() - s.len();
    let mut j: usize = 0;
    while j < s.len()
        invariant
            p@ == path@,
            s@ == suffix@,
            start == p.len() - s.len(),
            j <= s.len(),
            p@.subrange(start as int, start + j) == s@.subrange(0, j as int),
        decreases s.len() - j,
    {
        if p[start + j] != s[j] {
            assert(p@.subrange(start as int, p.len() as int)[j as int] != s@[j as int]);
            return path;
        }
        j += 1;
        assert(p@.subrange(start as int, start + j) =~= s@.subrange(0, j as int));
    }
    assert(s@.subrange(0, s.len() as int) =~= s@);
    path.substring_char(0, start)
}

} // verus!
