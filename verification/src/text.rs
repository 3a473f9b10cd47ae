//! Searching and trimming of character sequences.

use vstd::prelude::*;
use vstd::string::*;

verus! {

/// `needle` stands in `hay` starting at index `at`.
pub open spec fn occurs_at(hay: Seq<char>, needle: Seq<char>, at: int) -> bool {
    &&& 0 <= at
    &&& at + needle.len() <= hay.len()
    &&& forall|k: int| 0 <= k < needle.len() ==> hay[at + k] == #[trigger] needle[k]
}

/// `at` is the leftmost index at which `needle` stands in `hay`.
pub open spec fn first_at(hay: Seq<char>, needle: Seq<char>, at: int) -> bool {
    &&& occurs_at(hay, needle, at)
    &&& forall|j: int| 0 <= j < at ==> !occurs_at(hay, needle, j)
}

/// The leftmost index at which `needle` stands in `hay`, if it stands there at all.
pub open spec fn position(hay: Seq<char>, needle: Seq<char>) -> Option<int> {
    if exists|i: int| first_at(hay, needle, i) {
        Some(choose|i: int| first_at(hay, needle, i))
    } else {
        None
    }
}

/// `needle` stands somewhere in `hay`.
pub open spec fn contains(hay: Seq<char>, needle: Seq<char>) -> bool {
    exists|i: int| occurs_at(hay, needle, i)
}

/// The leftmost occurrence is unique, so `position` names it.
pub proof fn lemma_position_is(hay: Seq<char>, needle: Seq<char>, at: int)
    requires
        first_at(hay, needle, at),
    ensures
        position(hay, needle) == Some(at),
{
    let c = choose|i: int| first_at(hay, needle, i);
    assert(first_at(hay, needle, c));
    if c < at {
        assert(!occurs_at(hay, needle, c));
    }
    if at < c {
        assert(!occurs_at(hay, needle, at));
    }
}

/// Where `needle` stands nowhere, `position` is `None`.
pub proof fn lemma_position_none(hay: Seq<char>, needle: Seq<char>)
    requires
        forall|j: int| !occurs_at(hay, needle, j),
    ensures
        position(hay, needle) is None,
        !contains(hay, needle),
{
}

/// Unicode's White_Space characters, the ones that trimming removes.
pub open spec fn is_space(c: char) -> bool {
    let u = c as u32;
    ||| 0x09 <= u <= 0x0D
    ||| u == 0x20
    ||| u == 0x85
    ||| u == 0xA0
    ||| u == 0x1680
    ||| 0x2000 <= u <= 0x200A
    ||| u == 0x2028
    ||| u == 0x2029
    ||| u == 0x202F
    ||| u == 0x205F
    ||| u == 0x3000
}

/// `[from, to)` is `s` without its leading and trailing white space.
pub open spec fn trim_bounds(s: Seq<char>, from: int, to: int) -> bool {
    &&& 0 <= from <= to <= s.len()
    &&& forall|k: int| 0 <= k < from ==> is_space(#[trigger] s[k])
    &&& forall|k: int| to <= k < s.len() ==> is_space(#[trigger] s[k])
    &&& from < to ==> !is_space(s[from]) && !is_space(s[to - 1])
}

/// `s` without its leading and trailing white space.
pub open spec fn trimmed(s: Seq<char>) -> Seq<char> {
    let (from, to) = choose|from: int, to: int| trim_bounds(s, from, to);
    s.subrange(from, to)
}

/// Every text has trim bounds.
pub proof fn lemma_trim_bounds_exist(s: Seq<char>)
    ensures
        exists|from: int, to: int| trim_bounds(s, from, to),
    decreases s.len(),
{
    if s.len() == 0 {
        assert(trim_bounds(s, 0, 0));
    } else {
        let front = s.drop_last();
        lemma_trim_bounds_exist(front);
        let (a, b) = choose|a: int, b: int| trim_bounds(front, a, b);
        assert(forall|k: int| 0 <= k < front.len() ==> front[k] == s[k]);
        if is_space(s.last()) {
            assert(trim_bounds(s, a, b));
        } else if a < b {
            assert(trim_bounds(s, a, s.len() as int));
        } else {
            assert(trim_bounds(s, s.len() - 1, s.len() as int));
        }
    }
}

/// A trimmed text is a part of the text it was cut from.
pub proof fn lemma_trimmed_is_part(s: Seq<char>) -> (bounds: (int, int))
    ensures
        trim_bounds(s, bounds.0, bounds.1),
        trimmed(s) == s.subrange(bounds.0, bounds.1),
{
    lemma_trim_bounds_exist(s);
    let (a, b) = choose|a: int, b: int| trim_bounds(s, a, b);
    (a, b)
}

/// Whatever bounds satisfy `trim_bounds` cut out the same text.
pub proof fn lemma_trimmed_is(s: Seq<char>, from: int, to: int)
    requires
        trim_bounds(s, from, to),
    ensures
        trimmed(s) == s.subrange(from, to),
{
    let (a, b) = choose|a: int, b: int| trim_bounds(s, a, b);
    assert(trim_bounds(s, a, b));
    if from < to {
        assert(!is_space(s[from]) && !is_space(s[to - 1]));
        if a == b {
            if from < a {
                assert(is_space(s[from]));
            } else {
                assert(is_space(s[from]));
            }
        }
        assert(a < b);
        assert(!is_space(s[a]) && !is_space(s[b - 1]));
        if a < from {
            assert(is_space(s[a]));
        }
        if from < a {
            assert(is_space(s[from]));
        }
        if b < to {
            assert(is_space(s[to - 1]));
        }
        if to < b {
            assert(is_space(s[b - 1]));
        }
    } else {
        if a < b {
            if a < from {
                assert(is_space(s[a]));
            } else {
                assert(is_space(s[a]));
            }
        }
        assert(s.subrange(a, b) =~= s.subrange(from, to));
    }
}

/// Every character is an ASCII decimal digit.
pub open spec fn all_digits(s: Seq<char>) -> bool {
    forall|k: int| 0 <= k < s.len() ==> '0' <= #[trigger] s[k] <= '9'
}

/// The characters of a string, one by one.
pub fn chars_of(text: &str) -> (chars: Vec<char>)
    ensures
        chars@ == text@,
{
    let n: usize = text.unicode_len();
    let mut chars: Vec<char> = Vec::new();
    let mut i: usize = 0;
    while i < n
        invariant
            i <= n,
            n == text@.len(),
            chars@ == text@.subrange(0, i as int),
        decreases n - i,
    {
        chars.push(text.get_char(i));
        i += 1;
        proof {
            assert(chars@ =~= text@.subrange(0, i as int));
        }
    }
    proof {
        assert(chars@ =~= text@);
    }
    chars
}

/// A copy of the characters in `[from, to)`.
pub fn slice_of(chars: &Vec<char>, from: usize, to: usize) -> (part: Vec<char>)
    requires
        from <= to <= chars.len(),
    ensures
        part@ == chars@.subrange(from as int, to as int),
{
    let mut part: Vec<char> = Vec::new();
    let mut i: usize = from;
    while i < to
        invariant
            from <= i <= to <= chars.len(),
            part@ == chars@.subrange(from as int, i as int),
        decreases to - i,
    {
        part.push(chars[i]);
        i += 1;
        proof {
            assert(part@ =~= chars@.subrange(from as int, i as int));
        }
    }
    part
}

/// Whether two strings hold the same characters.
pub fn same_text(a: &Vec<char>, b: &Vec<char>) -> (same: bool)
    ensures
        same == (a@ == b@),
{
    if a.len() != b.len() {
        return false;
    }
    let mut i: usize = 0;
    while i < a.len()
        invariant
            i <= a.len(),
            a.len() == b.len(),
            forall|k: int| 0 <= k < i ==> a@[k] == b@[k],
        decreases a.len() - i,
    {
        if a[i] != b[i] {
            return false;
        }
        i += 1;
    }
    proof {
        assert(a@ =~= b@);
    }
    true
}

fn matches_at(hay: &Vec<char>, needle: &Vec<char>, at: usize) -> (found: bool)
    requires
        at + needle.len() <= hay.len(),
    ensures
        found == occurs_at(hay@, needle@, at as int),
{
    let mut k: usize = 0;
    while k < needle.len()
        invariant
            k <= needle.len(),
            at + needle.len() <= hay.len(),
            forall|j: int| 0 <= j < k ==> hay@[at + j] == #[trigger] needle@[j],
        decreases needle.len() - k,
    {
        if hay[at + k] != needle[k] {
            return false;
        }
        k += 1;
    }
    true
}

/// The leftmost index at which `needle` stands in `hay`.
pub fn find(hay: &Vec<char>, needle: &Vec<char>) -> (found: Option<usize>)
    ensures
        match found {
            Some(i) => position(hay@, needle@) == Some(i as int) && first_at(
                hay@,
                needle@,
                i as int,
            ),
            None => position(hay@, needle@) is None && !contains(hay@, needle@),
        },
{
    if needle.len() > hay.len() {
        proof {
            lemma_position_none(hay@, needle@);
        }
        return None;
    }
    let last: usize = hay.len() - needle.len();
    let mut i: usize = 0;
    loop
        invariant
            i <= last,
            last == hay.len() - needle.len(),
            forall|j: int| 0 <= j < i ==> !occurs_at(hay@, needle@, j),
        decreases last - i,
    {
        if matches_at(hay, needle, i) {
            proof {
                lemma_position_is(hay@, needle@, i as int);
            }
            return Some(i);
        }
        if i == last {
            proof {
                lemma_position_none(hay@, needle@);
            }
            return None;
        }
        i += 1;
    }
}

/// Whether `c` is a white-space character.
pub fn is_whitespace(c: char) -> (space: bool)
    ensures
        space == is_space(c),
{
    let u: u32 = c as u32;
    (0x09 <= u && u <= 0x0D) || u == 0x20 || u == 0x85 || u == 0xA0 || u == 0x1680 || (0x2000 <= u
        && u <= 0x200A) || u == 0x2028 || u == 0x2029 || u == 0x202F || u == 0x205F || u == 0x3000
}

/// The bounds of the first `len` characters without their leading and
/// trailing white space.
pub fn trim_range(chars: &Vec<char>, len: usize) -> (bounds: (usize, usize))
    requires
        len <= chars.len(),
    ensures
        trim_bounds(chars@.take(len as int), bounds.0 as int, bounds.1 as int),
        chars@.take(len as int).subrange(bounds.0 as int, bounds.1 as int) == trimmed(
            chars@.take(len as int),
        ),
{
    let ghost s = chars@.take(len as int);
    let mut from: usize = 0;
    while from < len && is_whitespace(chars[from])
        invariant
            from <= len <= chars.len(),
            s == chars@.take(len as int),
            forall|k: int| 0 <= k < from ==> is_space(#[trigger] s[k]),
        decreases len - from,
    {
        from += 1;
    }
    let mut to: usize = len;
    while to > from && is_whitespace(chars[to - 1])
        invariant
            from <= to <= len <= chars.len(),
            s == chars@.take(len as int),
            forall|k: int| to <= k < len ==> is_space(#[trigger] s[k]),
        decreases to,
    {
        to -= 1;
    }
    proof {
        assert(trim_bounds(s, from as int, to as int));
        lemma_trimmed_is(s, from as int, to as int);
    }
    (from, to)
}

/// Whether every character is an ASCII decimal digit.
pub fn is_number(chars: &Vec<char>) -> (digits: bool)
    ensures
        digits == all_digits(chars@),
{
    let mut i: usize = 0;
    while i < chars.len()
        invariant
            i <= chars.len(),
            forall|k: int| 0 <= k < i ==> '0' <= #[trigger] chars@[k] <= '9',
        decreases chars.len() - i,
    {
        let c: char = chars[i];
        if !('0' <= c && c <= '9') {
            return false;
        }
        i += 1;
    }
    true
}

} // verus!
