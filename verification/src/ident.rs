//! Identifier occurrence inside type text.
//!
//! A declaration's field types and the author's hint targets are carried as
//! plain text. Whether a generic parameter is "used" by a field type, and
//! whether it is the root of a hint target, are questions about identifier
//! tokens inside that text: a parameter occurs in a type exactly when its name
//! appears delimited by non-identifier characters, and it is the root of a
//! target exactly when the first identifier token of the target is its name.

use vstd::prelude::*;

verus! {

/// A character that may be part of an identifier token:
/// `_`, `a`..`z`, `A`..`Z` or `0`..`9` by code point.
pub open spec fn is_ident_char(c: char) -> bool {
    let u = c as u32;
    ||| u == 95
    ||| 97 <= u && u <= 122
    ||| 65 <= u && u <= 90
    ||| 48 <= u && u <= 57
}

/// A decimal digit, which may not open an identifier token.
pub open spec fn is_digit_char(c: char) -> bool {
    48 <= c as u32 && c as u32 <= 57
}

/// A non-empty run of identifier characters that does not open with a digit.
pub open spec fn is_valid_ident(s: Seq<char>) -> bool {
    &&& s.len() >= 1
    &&& !is_digit_char(s[0])
    &&& forall|k: int| 0 <= k < s.len() ==> is_ident_char(#[trigger] s[k])
}

/// `id` stands at position `i` of `s` as a whole identifier token: the
/// characters match and both neighbours, where present, cannot extend the
/// token.
pub open spec fn occurs_ident_at(s: Seq<char>, id: Seq<char>, i: int) -> bool {
    &&& 0 <= i
    &&& i + id.len() <= s.len()
    &&& s.subrange(i, i + id.len() as int) == id
    &&& (i == 0 || !is_ident_char(s[i - 1]))
    &&& (i + id.len() == s.len() || !is_ident_char(s[i + id.len()]))
}

/// `id` occurs somewhere in `s` as a whole identifier token.
pub open spec fn contains_ident(s: Seq<char>, id: Seq<char>) -> bool {
    exists|i: int| occurs_ident_at(s, id, i)
}

/// Position of the first identifier character of `s` at or after `i`;
/// `s.len()` when there is none.
pub open spec fn first_ident_pos_from(s: Seq<char>, i: int) -> int
    decreases s.len() - i,
{
    if i < 0 || i >= s.len() {
        s.len() as int
    } else if is_ident_char(s[i]) {
        i
    } else {
        first_ident_pos_from(s, i + 1)
    }
}

/// Position where the first identifier token of `s` opens.
pub open spec fn first_ident_pos(s: Seq<char>) -> int {
    first_ident_pos_from(s, 0)
}

/// The first identifier token of `s` — its root, when `s` is read as a type
/// expression — is exactly `id`.
pub open spec fn root_is(s: Seq<char>, id: Seq<char>) -> bool {
    let i = first_ident_pos(s);
    &&& i + id.len() <= s.len()
    &&& s.subrange(i, i + id.len() as int) == id
    &&& (i + id.len() == s.len() || !is_ident_char(s[i + id.len()]))
}

/// Whether `c` may be part of an identifier token.
pub fn ident_char(c: char) -> (r: bool)
    ensures
        r == is_ident_char(c),
{
    let u = c as u32;
    u == 95 || (97 <= u && u <= 122) || (65 <= u && u <= 90) || (48 <= u && u <= 57)
}

/// Whether `s` is a well-formed identifier.
pub fn valid_ident(s: &str) -> (r: bool)
    ensures
        r == is_valid_ident(s@),
{
    let n = s.unicode_len();
    if n == 0 {
        return false;
    }
    let c0 = s.get_char(0);
    if 48 <= c0 as u32 && c0 as u32 <= 57 {
        return false;
    }
    let mut k: usize = 0;
    while k < n
        invariant
            0 <= k <= n,
            n == s@.len(),
            !is_digit_char(s@[0]),
            forall|j: int| 0 <= j < k ==> is_ident_char(#[trigger] s@[j]),
        decreases n - k,
    {
        if !ident_char(s.get_char(k)) {
            return false;
        }
        k += 1;
    }
    true
}

/// Whether the characters of `id` stand at position `i` of `s`.
pub(crate) fn matches_at(s: &str, id: &str, i: usize, n: usize, m: usize) -> (r: bool)
    requires
        n == s@.len(),
        m == id@.len(),
        i + m <= n,
    ensures
        r == (s@.subrange(i as int, i + m) == id@),
{
    let mut j: usize = 0;
    while j < m
        invariant
            0 <= j <= m,
            n == s@.len(),
            m == id@.len(),
            i + m <= n,
            forall|k: int| 0 <= k < j ==> s@[i + k] == id@[k],
        decreases m - j,
    {
        if s.get_char(i + j) != id.get_char(j) {
            assert(s@.subrange(i as int, i + m)[j as int] == s@[i + j]);
            return false;
        }
        j += 1;
    }
    assert(s@.subrange(i as int, i + m) =~= id@);
    true
}

/// Whether `id` occurs in `s` as a whole identifier token.
pub fn str_contains_ident(s: &str, id: &str) -> (r: bool)
    ensures
        r == contains_ident(s@, id@),
{
    let n = s.unicode_len();
    let m = id.unicode_len();
    if m > n {
        assert forall|i: int| !occurs_ident_at(s@, id@, i) by {}
        return false;
    }
    let nm = n - m;
    let mut i: usize = 0;
    loop
        invariant
            0 <= i <= nm,
            nm == n - m,
            m <= n,
            n == s@.len(),
            m == id@.len(),
            forall|j: int| 0 <= j < i ==> !occurs_ident_at(s@, id@, j),
        decreases nm - i,
    {
        let mut hit = matches_at(s, id, i, n, m);
        if hit && i > 0 {
            if ident_char(s.get_char(i - 1)) {
                hit = false;
            }
        }
        if hit && i < nm {
            if ident_char(s.get_char(i + m)) {
                hit = false;
            }
        }
        if hit {
            assert(occurs_ident_at(s@, id@, i as int));
            return true;
        }
        assert(!occurs_ident_at(s@, id@, i as int));
        if i == nm {
            assert forall|j: int| !occurs_ident_at(s@, id@, j) by {
                if j > i {
                    assert(j + m > n);
                }
            }
            return false;
        }
        i += 1;
    }
}

/// Position where the first identifier token of `s` opens.
fn find_first_ident_pos(s: &str, n: usize) -> (i: usize)
    requires
        n == s@.len(),
    ensures
        i as int == first_ident_pos(s@),
        i <= n,
{
    let mut i: usize = 0;
    while i < n
        invariant
            0 <= i <= n,
            n == s@.len(),
            first_ident_pos(s@) == first_ident_pos_from(s@, i as int),
        decreases n - i,
    {
        if ident_char(s.get_char(i)) {
            return i;
        }
        i += 1;
    }
    i
}

/// Whether the first identifier token of `s` is exactly `id`.
pub fn str_root_is(s: &str, id: &str) -> (r: bool)
    ensures
        r == root_is(s@, id@),
{
    let n = s.unicode_len();
    let i = find_first_ident_pos(s, n);
    let m = id.unicode_len();
    if m > n - i {
        return false;
    }
    if !matches_at(s, id, i, n, m) {
        return false;
    }
    if i + m < n {
        if ident_char(s.get_char(i + m)) {
            return false;
        }
    }
    true
}

} // verus!
