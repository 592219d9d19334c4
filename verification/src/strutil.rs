//! Small verified helpers on strings: equality and trimming of spaces.

use vstd::prelude::*;
use vstd::string::*;

verus! {

/// Character-for-character equality of two string slices.
pub fn str_eq(a: &str, b: &str) -> (r: bool)
    ensures
        r == (a@ == b@),
{
    let a_len: usize = a.unicode_len();
    let b_len: usize = b.unicode_len();
    if a_len != b_len {
        return false;
    }
    let mut i: usize = 0;
    while i < a_len
        invariant
            a_len == a@.len(),
            b_len == b@.len(),
            a_len == b_len,
            i <= a_len,
            forall|j: int| 0 <= j < i ==> a@[j] == b@[j],
        decreases a_len - i,
    {
        if a.get_char(i) != b.get_char(i) {
            return false;
        }
        i = i + 1;
    }
    proof {
        assert(a@ =~= b@);
    }
    true
}

/// What remains of `s` once its leading spaces are removed.
pub open spec fn trim_start_spec(s: Seq<char>) -> Seq<char>
    decreases s.len(),
{
    if s.len() == 0 {
        s
    } else if s[0] == ' ' {
        trim_start_spec(s.drop_first())
    } else {
        s
    }
}

/// What remains of `s` once its trailing spaces are removed.
pub open spec fn trim_end_spec(s: Seq<char>) -> Seq<char>
    decreases s.len(),
{
    if s.len() == 0 {
        s
    } else if s[s.len() - 1] == ' ' {
        trim_end_spec(s.drop_last())
    } else {
        s
    }
}

/// `s` without its leading and trailing spaces.
pub open spec fn trim_spec(s: Seq<char>) -> Seq<char> {
    trim_end_spec(trim_start_spec(s))
}

/// Copy of `s` with leading and trailing spaces removed.
pub fn trim_spaces(s: &str) -> (r: String)
    ensures
        r@ == trim_spec(s@),
{
    let len: usize = s.unicode_len();
    proof {
        assert(s@.subrange(0, len as int) =~= s@);
    }
    let mut start: usize = 0;
    while start < len && s.get_char(start) == ' '
        invariant
            len == s@.len(),
            start <= len,
            trim_start_spec(s@) == trim_start_spec(s@.subrange(start as int, len as int)),
        decreases len - start,
    {
        proof {
            let tail = s@.subrange(start as int, len as int);
            assert(tail.drop_first() =~= s@.subrange(start as int + 1, len as int));
        }
        start = start + 1;
    }
    proof {
        let tail = s@.subrange(start as int, len as int);
        assert(trim_start_spec(tail) == tail);
    }
    let mut end: usize = len;
    while end > start && s.get_char(end - 1) == ' '
        invariant
            len == s@.len(),
            start <= end <= len,
            trim_start_spec(s@) == s@.subrange(start as int, len as int),
            trim_spec(s@) == trim_end_spec(s@.subrange(start as int, end as int)),
        decreases end,
    {
        proof {
            let part = s@.subrange(start as int, end as int);
            assert(part.drop_last() =~= s@.subrange(start as int, end as int - 1));
        }
        end = end - 1;
    }
    proof {
        let part = s@.subrange(start as int, end as int);
        assert(trim_end_spec(part) == part);
    }
    let sub: &str = s.substring_char(start, end);
    String::from_str(sub)
}

} // verus!
