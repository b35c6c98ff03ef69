//! Helpers on strings, taken character by character.

use vstd::prelude::*;
use vstd::string::StringExecFns;

verus! {

/// Whether `c` is a blank: a space, a tab or the end of a line.
pub open spec fn is_space(c: char) -> bool {
    c == ' ' || c == '\t' || c == '\n' || c == '\r'
}

/// `s` without the blanks it starts with.
pub open spec fn strip_start(s: Seq<char>) -> Seq<char>
    decreases s.len(),
{
    if s.len() > 0 && is_space(s[0]) {
        strip_start(s.skip(1))
    } else {
        s
    }
}

/// `s` without the blanks it ends with.
pub open spec fn strip_end(s: Seq<char>) -> Seq<char>
    decreases s.len(),
{
    if s.len() > 0 && is_space(s.last()) {
        strip_end(s.drop_last())
    } else {
        s
    }
}

/// `s` without the blanks around it.
pub open spec fn trimmed(s: Seq<char>) -> Seq<char> {
    strip_end(strip_start(s))
}

/// `s` without any blank.
pub open spec fn squeezed(s: Seq<char>) -> Seq<char>
    decreases s.len(),
{
    if s.len() == 0 {
        Seq::empty()
    } else if is_space(s.last()) {
        squeezed(s.drop_last())
    } else {
        squeezed(s.drop_last()).push(s.last())
    }
}

/// `k` is the first place at which `c` stands in `s`.
pub open spec fn is_first_at(s: Seq<char>, c: char, k: int) -> bool {
    &&& 0 <= k < s.len()
    &&& s[k] == c
    &&& forall|j: int| 0 <= j < k ==> s[j] != c
}

/// The first place at which `c` stands in `s`, if it stands anywhere.
pub open spec fn position(s: Seq<char>, c: char) -> Option<int> {
    if exists|k: int| is_first_at(s, c, k) {
        Some(choose|k: int| is_first_at(s, c, k))
    } else {
        None
    }
}

/// There is at most one first place.
pub proof fn lemma_first_is_unique(s: Seq<char>, c: char, k: int)
    requires
        is_first_at(s, c, k),
    ensures
        position(s, c) == Some(k),
{
    let other = choose|j: int| is_first_at(s, c, j);
    if other < k {
        assert(s[other] != c);
    }
    if k < other {
        assert(s[k] != c);
    }
}

/// `value`, with the string taken by its view.
pub open spec fn str_view(value: Option<String>) -> Option<Seq<char>> {
    match value {
        Some(value) => Some(value@),
        None => None,
    }
}

/// Whether two strings hold the same characters.
pub fn str_eq(a: &str, b: &str) -> (same: bool)
    ensures
        same == (a@ == b@),
{
    let a = a.to_owned();
    let b = b.to_owned();
    a == b
}

/// `head` followed by `tail`.
pub fn joined(head: &str, tail: &str) -> (s: String)
    ensures
        s@ == head@ + tail@,
{
    let mut s = String::from_str(head);
    s.append(tail);
    s
}

/// Whether `c` is a blank.
pub fn is_blank(c: char) -> (blank: bool)
    ensures
        blank == is_space(c),
{
    c == ' ' || c == '\t' || c == '\n' || c == '\r'
}

/// The number of blanks that `s` starts with.
fn leading_blanks(s: &str) -> (k: usize)
    ensures
        k <= s@.len(),
        strip_start(s@) == s@.skip(k as int),
{
    let n = s.unicode_len();
    let mut k: usize = 0;
    proof {
        assert(s@.skip(0) == s@);
    }
    while k < n
        invariant
            k <= n,
            n == s@.len(),
            strip_start(s@) == strip_start(s@.skip(k as int)),
        decreases n - k,
    {
        if !is_blank(s.get_char(k)) {
            return k;
        }
        proof {
            assert(s@.skip(k as int).skip(1) == s@.skip(k + 1));
        }
        k += 1;
    }
    k
}

/// The number of blanks that `s` ends with.
fn trailing_blanks(s: &str) -> (k: usize)
    ensures
        k <= s@.len(),
        strip_end(s@) == s@.take(s@.len() - k),
{
    let n = s.unicode_len();
    let mut k: usize = 0;
    proof {
        assert(s@.take(n as int) == s@);
    }
    while k < n
        invariant
            k <= n,
            n == s@.len(),
            strip_end(s@) == strip_end(s@.take(n - k)),
        decreases n - k,
    {
        if !is_blank(s.get_char(n - k - 1)) {
            return k;
        }
        proof {
            assert(s@.take(n - k).drop_last() == s@.take(n - k - 1));
        }
        k += 1;
    }
    k
}

/// `s` without the blanks around it.
pub fn trim(s: &str) -> (t: &str)
    ensures
        t@ == trimmed(s@),
{
    let n = s.unicode_len();
    let from = leading_blanks(s);
    let rest = s.substring_char(from, n);
    proof {
        assert(rest@ == s@.skip(from as int));
    }
    let m = rest.unicode_len();
    let cut = trailing_blanks(rest);
    rest.substring_char(0, m - cut)
}

/// `s` without any blank.
pub fn squeeze(s: &str) -> (t: String)
    ensures
        t@ == squeezed(s@),
{
    let n = s.unicode_len();
    let mut t = String::from_str("");
    proof {
        reveal_strlit("");
        assert(s@.take(0) == Seq::<char>::empty());
        assert(t@ == Seq::<char>::empty());
    }
    let mut i: usize = 0;
    while i < n
        invariant
            i <= n,
            n == s@.len(),
            t@ == squeezed(s@.take(i as int)),
        decreases n - i,
    {
        proof {
            assert(s@.take(i + 1).drop_last() == s@.take(i as int));
        }
        if !is_blank(s.get_char(i)) {
            let one = s.substring_char(i, i + 1);
            proof {
                assert(one@ == seq![s@[i as int]]);
                assert(t@ + one@ == t@.push(s@[i as int]));
            }
            t.append(one);
        }
        i += 1;
    }
    proof {
        assert(s@.take(n as int) == s@);
    }
    t
}

/// The first place at which `c` stands in `s`, if it stands anywhere.
pub fn find(s: &str, c: char) -> (found: Option<usize>)
    ensures
        match found {
            Some(k) => position(s@, c) == Some(k as int),
            None => position(s@, c) is None,
        },
{
    let n = s.unicode_len();
    let mut k: usize = 0;
    while k < n
        invariant
            k <= n,
            n == s@.len(),
            forall|j: int| 0 <= j < k ==> s@[j] != c,
        decreases n - k,
    {
        if s.get_char(k) == c {
            proof {
                lemma_first_is_unique(s@, c, k as int);
            }
            return Some(k);
        }
        k += 1;
    }
    None
}

} // verus!
