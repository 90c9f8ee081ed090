//! Verified text utilities: whitespace trimming of task titles and the
//! case-insensitive ordering used by the by-title list sort. Case folding
//! covers the ASCII letters, matching the store's collation.

use vstd::prelude::*;
use vstd::string::StrSliceExecFns;

verus! {

/// The whitespace characters stripped from the ends of a title.
pub open spec fn is_space(c: char) -> bool {
    c == ' ' || c == '\t' || c == '\n' || c == '\r'
}

fn is_space_char(c: char) -> (r: bool)
    ensures
        r == is_space(c),
{
    c == ' ' || c == '\t' || c == '\n' || c == '\r'
}

/// Index of the first character that is not whitespace; the length when every
/// character is.
pub open spec fn first_non_space(s: Seq<char>) -> int
    decreases s.len(),
{
    if s.len() == 0 {
        0
    } else if is_space(s[0]) {
        1 + first_non_space(s.drop_first())
    } else {
        0
    }
}

/// One past the last character that is not whitespace; 0 when every character
/// is.
pub open spec fn last_non_space_end(s: Seq<char>) -> int
    decreases s.len(),
{
    if s.len() == 0 {
        0
    } else if is_space(s.last()) {
        last_non_space_end(s.drop_last())
    } else {
        s.len() as int
    }
}

/// The sequence with leading and trailing whitespace removed.
pub open spec fn spec_trim(s: Seq<char>) -> Seq<char> {
    if first_non_space(s) >= last_non_space_end(s) {
        Seq::empty()
    } else {
        s.subrange(first_non_space(s), last_non_space_end(s))
    }
}

proof fn lemma_first_non_space_at(s: Seq<char>, i: int)
    requires
        0 <= i <= s.len(),
        forall|k: int| 0 <= k < i ==> is_space(s[k]),
        i == s.len() || !is_space(s[i]),
    ensures
        first_non_space(s) == i,
    decreases s.len(),
{
    if i == 0 {
    } else {
        assert(is_space(s[0]));
        lemma_first_non_space_at(s.drop_first(), i - 1);
    }
}

proof fn lemma_last_non_space_end_at(s: Seq<char>, j: int)
    requires
        0 <= j <= s.len(),
        forall|k: int| j <= k < s.len() ==> is_space(s[k]),
        j == 0 || !is_space(s[j - 1]),
    ensures
        last_non_space_end(s) == j,
    decreases s.len(),
{
    if j == s.len() {
        if s.len() > 0 {
            assert(!is_space(s.last()));
        }
    } else {
        assert(is_space(s.last()));
        lemma_last_non_space_end_at(s.drop_last(), j);
    }
}

/// Removes leading and trailing whitespace.
pub fn trim(s: &str) -> (r: String)
    ensures
        r@ == spec_trim(s@),
{
    let n = s.unicode_len();
    let mut i: usize = 0;
    while i < n && is_space_char(s.get_char(i))
        invariant
            i <= n,
            n == s@.len(),
            forall|k: int| 0 <= k < i ==> is_space(s@[k]),
        decreases n - i,
    {
        i = i + 1;
    }
    let mut j: usize = n;
    while j > i && is_space_char(s.get_char(j - 1))
        invariant
            i <= j <= n,
            n == s@.len(),
            i == n || !is_space(s@[i as int]),
            forall|k: int| 0 <= k < i ==> is_space(s@[k]),
            forall|k: int| j <= k < n ==> is_space(s@[k]),
        decreases j,
    {
        j = j - 1;
    }
    if j == i {
        proof {
            lemma_first_non_space_at(s@, s@.len() as int);
            lemma_last_non_space_end_at(s@, 0);
        }
        String::new()
    } else {
        proof {
            lemma_first_non_space_at(s@, i as int);
            lemma_last_non_space_end_at(s@, j as int);
        }
        let piece = s.substring_char(i, j);
        piece.to_owned()
    }
}

/// An ASCII upper-case letter folded to lower case, as a code point; any
/// other character is its own code point.
pub open spec fn fold_code(c: char) -> int {
    if 65 <= c as int && c as int <= 90 {
        c as int + 32
    } else {
        c as int
    }
}

fn fold_char(c: char) -> (r: u32)
    ensures
        r as int == fold_code(c),
{
    let v = c as u32;
    if 65 <= v && v <= 90 {
        v + 32
    } else {
        v
    }
}

/// Case-insensitive lexicographic "less or equal" on titles.
pub open spec fn title_le(a: Seq<char>, b: Seq<char>) -> bool
    decreases a.len(),
{
    if a.len() == 0 {
        true
    } else if b.len() == 0 {
        false
    } else if fold_code(a[0]) != fold_code(b[0]) {
        fold_code(a[0]) < fold_code(b[0])
    } else {
        title_le(a.drop_first(), b.drop_first())
    }
}

/// The title ordering is total.
pub proof fn lemma_title_le_total(a: Seq<char>, b: Seq<char>)
    ensures
        title_le(a, b) || title_le(b, a),
    decreases a.len(),
{
    if a.len() > 0 && b.len() > 0 && fold_code(a[0]) == fold_code(b[0]) {
        lemma_title_le_total(a.drop_first(), b.drop_first());
    }
}

/// The title ordering is transitive.
pub proof fn lemma_title_le_trans(a: Seq<char>, b: Seq<char>, c: Seq<char>)
    requires
        title_le(a, b),
        title_le(b, c),
    ensures
        title_le(a, c),
    decreases a.len(),
{
    if a.len() > 0 {
        assert(b.len() > 0);
        assert(c.len() > 0);
        if fold_code(a[0]) == fold_code(b[0]) && fold_code(b[0]) == fold_code(c[0]) {
            lemma_title_le_trans(a.drop_first(), b.drop_first(), c.drop_first());
        }
    }
}

/// Compares two titles case-insensitively.
pub fn title_le_exec(a: &str, b: &str) -> (r: bool)
    ensures
        r == title_le(a@, b@),
{
    let na = a.unicode_len();
    let nb = b.unicode_len();
    let mut i: usize = 0;
    proof {
        assert(a@.skip(0) =~= a@);
        assert(b@.skip(0) =~= b@);
    }
    while i < na && i < nb
        invariant
            i <= na,
            i <= nb,
            na == a@.len(),
            nb == b@.len(),
            title_le(a@, b@) == title_le(a@.skip(i as int), b@.skip(i as int)),
        decreases na - i,
    {
        let ca = fold_char(a.get_char(i));
        let cb = fold_char(b.get_char(i));
        proof {
            assert(a@.skip(i as int)[0] == a@[i as int]);
            assert(b@.skip(i as int)[0] == b@[i as int]);
        }
        if ca < cb {
            return true;
        }
        if ca > cb {
            return false;
        }
        proof {
            assert(a@.skip(i as int).drop_first() =~= a@.skip(i + 1));
            assert(b@.skip(i as int).drop_first() =~= b@.skip(i + 1));
        }
        i = i + 1;
    }
    proof {
        if i == na {
            assert(a@.skip(i as int).len() == 0);
        } else {
            assert(b@.skip(i as int).len() == 0);
            assert(a@.skip(i as int).len() > 0);
        }
    }
    i == na
}

} // verus!
