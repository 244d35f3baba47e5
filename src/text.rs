use vstd::prelude::*;

verus! {

/// The characters with the Unicode `White_Space` property.
pub open spec fn is_white_space(c: char) -> bool {
    let u = c as u32;
    ||| 0x09 <= u <= 0x0d
    ||| u == 0x20
    ||| u == 0x85
    ||| u == 0xa0
    ||| u == 0x1680
    ||| 0x2000 <= u <= 0x200a
    ||| u == 0x2028
    ||| u == 0x2029
    ||| u == 0x202f
    ||| u == 0x205f
    ||| u == 0x3000
}

/// Relies on `char::is_whitespace`: true exactly for the characters with
/// the Unicode `White_Space` property.
#[verifier::external_body]
pub(crate) fn is_whitespace(c: char) -> (r: bool)
    ensures
        r == is_white_space(c),
{
    c.is_whitespace()
}

/// The text without its leading whitespace.
pub open spec fn trim_start(s: Seq<char>) -> Seq<char>
    decreases s.len(),
{
    if s.len() > 0 && is_white_space(s[0]) {
        trim_start(s.drop_first())
    } else {
        s
    }
}

/// The text without its trailing whitespace.
pub open spec fn trim_end(s: Seq<char>) -> Seq<char>
    decreases s.len(),
{
    if s.len() > 0 && is_white_space(s.last()) {
        trim_end(s.drop_last())
    } else {
        s
    }
}

/// The text without its leading and trailing whitespace.
pub open spec fn trimmed(s: Seq<char>) -> Seq<char> {
    trim_end(trim_start(s))
}

/// Returns a copy of `s` with leading and trailing whitespace removed.
pub fn trim(s: &String) -> (r: String)
    ensures
        r@ == trimmed(s@),
{
    let t = s.as_str();
    let n = t.unicode_len();
    let mut i: usize = 0;
    proof {
        assert(t@.subrange(0, n as int) =~= t@);
    }
    while i < n && is_whitespace(t.get_char(i))
        invariant
            n == t@.len(),
            t@ == s@,
            i <= n,
            trim_start(s@) == trim_start(t@.subrange(i as int, n as int)),
        decreases n - i,
    {
        proof {
            assert(t@.subrange(i as int, n as int).drop_first() =~= t@.subrange(i + 1, n as int));
        }
        i = i + 1;
    }
    let mut j: usize = n;
    proof {
        if i < n {
            assert(t@.subrange(i as int, n as int)[0] == t@[i as int]);
        }
    }
    while j > i && is_whitespace(t.get_char(j - 1))
        invariant
            n == t@.len(),
            t@ == s@,
            i <= j <= n,
            trim_start(s@) == t@.subrange(i as int, n as int),
            trimmed(s@) == trim_end(t@.subrange(i as int, j as int)),
        decreases j - i,
    {
        proof {
            assert(t@.subrange(i as int, j as int).drop_last() =~= t@.subrange(i as int, j - 1));
        }
        j = j - 1;
    }
    proof {
        if j > i {
            assert(t@.subrange(i as int, j as int).last() == t@[j - 1]);
        }
    }
    String::from_str(t.substring_char(i, j))
}

} // verus!
