use vstd::prelude::*;
use vstd::string::StrSliceExecFns;
use vstd::string::StringExecFns;

use crate::store::chars_of;

verus! {

/// The sentinel that opens a redirect definition: `@@@LINK=`.
pub open spec fn link_marker() -> Seq<char> {
    seq!['@', '@', '@', 'L', 'I', 'N', 'K', '=']
}

/// A definition that points at another headword.
pub open spec fn is_redirect(d: Seq<char>) -> bool {
    d.len() >= 8 && d.take(8) == link_marker()
}

/// Unicode's White_Space property, as `char::is_whitespace` tests it.
pub open spec fn is_white(c: char) -> bool {
    let u = c as u32;
    (0x09 <= u && u <= 0x0d) || u == 0x20 || u == 0x85 || u == 0xa0 || u == 0x1680 || (0x2000 <= u
        && u <= 0x200a) || u == 0x2028 || u == 0x2029 || u == 0x202f || u == 0x205f || u == 0x3000
}

pub open spec fn trim_start(s: Seq<char>) -> Seq<char>
    decreases s.len(),
{
    if s.len() > 0 && is_white(s[0]) {
        trim_start(s.drop_first())
    } else {
        s
    }
}

pub open spec fn trim_end(s: Seq<char>) -> Seq<char>
    decreases s.len(),
{
    if s.len() > 0 && is_white(s.last()) {
        trim_end(s.drop_last())
    } else {
        s
    }
}

/// Whitespace removed from both ends.
pub open spec fn trim(s: Seq<char>) -> Seq<char> {
    trim_end(trim_start(s))
}

/// Trailing NUL padding removed.
pub open spec fn trim_end_nul(s: Seq<char>) -> Seq<char>
    decreases s.len(),
{
    if s.len() > 0 && s.last() == '\0' {
        trim_end_nul(s.drop_last())
    } else {
        s
    }
}

/// The headword a redirect definition points at: the rest after the marker,
/// trimmed, stripped of trailing NULs, trimmed again.
pub open spec fn redirect_target(d: Seq<char>) -> Seq<char> {
    trim(trim_end_nul(trim(d.skip(8))))
}

/// Whether `c` is whitespace.
pub fn is_white_char(c: char) -> (r: bool)
    ensures
        r == is_white(c),
{
    let u = c as u32;
    (0x09 <= u && u <= 0x0d) || u == 0x20 || u == 0x85 || u == 0xa0 || u == 0x1680 || (0x2000 <= u
        && u <= 0x200a) || u == 0x2028 || u == 0x2029 || u == 0x202f || u == 0x205f || u == 0x3000
}

/// Whether the definition `d` is a redirect.
pub fn is_redirect_def(d: &String) -> (r: bool)
    ensures
        r == is_redirect(d@),
{
    proof {
        reveal_strlit("@@@LINK=");
    }
    let s = d.as_str();
    let n = s.unicode_len();
    if n < 8 {
        return false;
    }
    let m = "@@@LINK=";
    let mut i: usize = 0;
    while i < 8
        invariant
            n == d@.len(),
            n >= 8,
            s@ == d@,
            m@ == link_marker(),
            i <= 8,
            forall|k: int| 0 <= k < i ==> d@[k] == link_marker()[k],
        decreases 8 - i,
    {
        if s.get_char(i) != m.get_char(i) {
            assert(d@.take(8)[i as int] != link_marker()[i as int]);
            return false;
        }
        i = i + 1;
    }
    assert(d@.take(8) =~= link_marker());
    true
}

/// Skips whitespace forward from `a` within `v[a..b]`.
fn skip_white_front(v: &Vec<char>, a: usize, b: usize) -> (r: usize)
    requires
        a <= b <= v@.len(),
    ensures
        a <= r <= b,
        trim_start(v@.subrange(a as int, b as int)) == v@.subrange(r as int, b as int),
{
    let mut i = a;
    while i < b && is_white_char(v[i])
        invariant
            a <= i <= b,
            b <= v@.len(),
            trim_start(v@.subrange(a as int, b as int)) == trim_start(v@.subrange(i as int, b as int)),
        decreases b - i,
    {
        assert(v@.subrange(i as int, b as int).drop_first() =~= v@.subrange(i + 1, b as int));
        i = i + 1;
    }
    i
}

fn skippable(c: char, white: bool) -> (r: bool)
    ensures
        r == (if white { is_white(c) } else { c == '\0' }),
{
    if white {
        is_white_char(c)
    } else {
        c == '\0'
    }
}

/// Skips trailing characters of `v[a..b]` backward: whitespace when `white`,
/// NULs otherwise.
fn skip_back(v: &Vec<char>, a: usize, b: usize, white: bool) -> (r: usize)
    requires
        a <= b <= v@.len(),
    ensures
        a <= r <= b,
        white ==> trim_end(v@.subrange(a as int, b as int)) == v@.subrange(a as int, r as int),
        !white ==> trim_end_nul(v@.subrange(a as int, b as int)) == v@.subrange(a as int, r as int),
{
    let mut j = b;
    while a < j && skippable(v[j - 1], white)
        invariant
            a <= j <= b,
            b <= v@.len(),
            white ==> trim_end(v@.subrange(a as int, b as int)) == trim_end(v@.subrange(a as int, j as int)),
            !white ==> trim_end_nul(v@.subrange(a as int, b as int)) == trim_end_nul(
                v@.subrange(a as int, j as int),
            ),
        decreases j - a,
    {
        assert(v@.subrange(a as int, j as int).drop_last() =~= v@.subrange(a as int, j - 1));
        j = j - 1;
    }
    j
}

/// The headword that the redirect definition `d` points at.
pub fn redirect_target_of(d: &String) -> (r: String)
    requires
        is_redirect(d@),
    ensures
        r@ == redirect_target(d@),
{
    let v = chars_of(d.as_str());
    let n = v.len();
    assert(v@.subrange(8, n as int) =~= d@.skip(8));
    let a1 = skip_white_front(&v, 8, n);
    let b1 = skip_back(&v, a1, n, true);
    let b2 = skip_back(&v, a1, b1, false);
    let a3 = skip_white_front(&v, a1, b2);
    let b3 = skip_back(&v, a3, b2, true);
    let s = d.as_str().substring_char(a3, b3);
    String::from_str(s)
}

} // verus!
