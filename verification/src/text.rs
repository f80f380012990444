//! Verified string utilities shared by the path filter, the dispatcher and
//! the help renderer: equality, prefix/suffix tests, substring search and
//! joining, all specified over `Seq<char>` views.

use vstd::prelude::*;
use vstd::string::StrSliceExecFns;

verus! {

/// `p` is an initial run of `s`.
pub open spec fn is_prefix_of(p: Seq<char>, s: Seq<char>) -> bool {
    p.len() <= s.len() && s.subrange(0, p.len() as int) == p
}

/// `p` is a final run of `s`.
pub open spec fn is_suffix_of(p: Seq<char>, s: Seq<char>) -> bool {
    p.len() <= s.len() && s.subrange(s.len() - p.len(), s.len() as int) == p
}

/// `sub` occurs in `s` starting at position `i`.
pub open spec fn matches_at(s: Seq<char>, sub: Seq<char>, i: int) -> bool {
    0 <= i && i + sub.len() <= s.len() && s.subrange(i, i + sub.len()) == sub
}

/// `sub` occurs somewhere in `s`.
pub open spec fn contains_seq(s: Seq<char>, sub: Seq<char>) -> bool {
    exists|i: int| matches_at(s, sub, i)
}

/// Character-for-character equality of two string slices.
pub fn eq_str(a: &str, b: &str) -> (r: bool)
    ensures
        r == (a@ == b@),
{
    let a_len = a.unicode_len();
    let b_len = b.unicode_len();
    if a_len != b_len {
        return false;
    }
    let mut i: usize = 0;
    while i < a_len
        invariant
            a_len == a@.len(),
            b_len == b@.len(),
            a_len == b_len,
            0 <= i <= a_len,
            forall|k: int| 0 <= k < i ==> a@[k] == b@[k],
        decreases a_len - i,
    {
        if a.get_char(i) != b.get_char(i) {
            return false;
        }
        i = i + 1;
    }
    proof {
        assert(a@ =~= b@);
    }
    true
}

/// Whether `s` starts with `p`.
pub fn str_has_prefix(s: &str, p: &str) -> (r: bool)
    ensures
        r == is_prefix_of(p@, s@),
{
    let s_len = s.unicode_len();
    let p_len = p.unicode_len();
    if p_len > s_len {
        return false;
    }
    let mut i: usize = 0;
    while i < p_len
        invariant
            s_len == s@.len(),
            p_len == p@.len(),
            p_len <= s_len,
            0 <= i <= p_len,
            forall|k: int| 0 <= k < i ==> s@[k] == p@[k],
        decreases p_len - i,
    {
        if s.get_char(i) != p.get_char(i) {
            proof {
                assert(s@.subrange(0, p@.len() as int)[i as int] == s@[i as int]);
            }
            return false;
        }
        i = i + 1;
    }
    proof {
        assert(s@.subrange(0, p@.len() as int) =~= p@);
    }
    true
}

/// Whether `s` ends with `p`.
pub fn str_has_suffix(s: &str, p: &str) -> (r: bool)
    ensures
        r == is_suffix_of(p@, s@),
{
    let s_len = s.unicode_len();
    let p_len = p.unicode_len();
    if p_len > s_len {
        return false;
    }
    let off: usize = s_len - p_len;
    let mut i: usize = 0;
    while i < p_len
        invariant
            s_len == s@.len(),
            p_len == p@.len(),
            p_len <= s_len,
            off == s_len - p_len,
            0 <= i <= p_len,
            forall|k: int| 0 <= k < i ==> s@[off + k] == p@[k],
        decreases p_len - i,
    {
        if s.get_char(off + i) != p.get_char(i) {
            proof {
                assert(s@.subrange(s@.len() - p@.len(), s@.len() as int)[i as int]
                    == s@[off + i]);
            }
            return false;
        }
        i = i + 1;
    }
    proof {
        assert(s@.subrange(s@.len() - p@.len(), s@.len() as int) =~= p@);
    }
    true
}

/// Whether `sub` occurs in `s` starting at position `i`.
fn matches_at_exec(s: &str, sub: &str, i: usize) -> (r: bool)
    requires
        i + sub@.len() <= s@.len() <= usize::MAX,
    ensures
        r == matches_at(s@, sub@, i as int),
{
    let sub_len = sub.unicode_len();
    let mut k: usize = 0;
    while k < sub_len
        invariant
            sub_len == sub@.len(),
            i + sub_len <= s@.len() <= usize::MAX,
            0 <= k <= sub_len,
            forall|m: int| 0 <= m < k ==> s@[i + m] == sub@[m],
        decreases sub_len - k,
    {
        if s.get_char(i + k) != sub.get_char(k) {
            proof {
                assert(s@.subrange(i as int, i + sub@.len())[k as int] == s@[i + k]);
            }
            return false;
        }
        k = k + 1;
    }
    proof {
        assert(s@.subrange(i as int, i + sub@.len()) =~= sub@);
    }
    true
}

/// Whether `sub` occurs anywhere in `s`.
pub fn str_contains(s: &str, sub: &str) -> (r: bool)
    ensures
        r == contains_seq(s@, sub@),
{
    let s_len = s.unicode_len();
    let sub_len = sub.unicode_len();
    if sub_len > s_len {
        proof {
            assert(forall|i: int| !matches_at(s@, sub@, i));
        }
        return false;
    }
    let last: usize = s_len - sub_len;
    let mut i: usize = 0;
    while i < last
        invariant
            s_len == s@.len(),
            sub_len == sub@.len(),
            sub_len <= s_len,
            last == s_len - sub_len,
            0 <= i <= last,
            forall|m: int| 0 <= m < i ==> !matches_at(s@, sub@, m),
        decreases last - i,
    {
        if matches_at_exec(s, sub, i) {
            return true;
        }
        i = i + 1;
    }
    if matches_at_exec(s, sub, last) {
        return true;
    }
    proof {
        assert(forall|m: int| matches_at(s@, sub@, m) ==> 0 <= m <= last);
    }
    false
}

/// Position `i` opens a path segment: it is the start of `s` or follows a
/// separator.
pub open spec fn seg_boundary_start(s: Seq<char>, i: int) -> bool {
    0 <= i <= s.len() && (i == 0 || s[i - 1] == '/')
}

/// Position `j` closes a path segment: it is the end of `s` or holds a
/// separator.
pub open spec fn seg_boundary_end(s: Seq<char>, j: int) -> bool {
    0 <= j <= s.len() && (j == s.len() || s[j] == '/')
}

/// `[i, j)` spans one whole separator-free segment of `s`.
pub open spec fn is_segment(s: Seq<char>, i: int, j: int) -> bool {
    seg_boundary_start(s, i) && seg_boundary_end(s, j) && i <= j
        && (forall|k: int| i <= k < j ==> s[k] != '/')
}

/// Some whole segment of `s` equals `tok`.
pub open spec fn has_segment(s: Seq<char>, tok: Seq<char>) -> bool {
    exists|i: int, j: int| is_segment(s, i, j) && s.subrange(i, j) == tok
}

/// Some segment of `s` begins with a `.` character.
pub open spec fn starts_dotted_segment(s: Seq<char>, i: int) -> bool {
    0 <= i < s.len() && (i == 0 || s[i - 1] == '/') && s[i] == '.'
}

/// `s` holds a hidden (dot-led) segment.
pub open spec fn has_dotted_segment(s: Seq<char>) -> bool {
    exists|i: int| starts_dotted_segment(s, i)
}

/// Whether some segment of `s` begins with `.`.
pub fn str_has_dotted_segment(s: &str) -> (r: bool)
    ensures
        r == has_dotted_segment(s@),
{
    let len = s.unicode_len();
    let mut i: usize = 0;
    while i < len
        invariant
            len == s@.len(),
            0 <= i <= len,
            forall|m: int| 0 <= m < i ==> !starts_dotted_segment(s@, m),
        decreases len - i,
    {
        if s.get_char(i) == '.' {
            if i == 0 {
                proof {
                    assert(starts_dotted_segment(s@, 0));
                }
                return true;
            }
            if s.get_char(i - 1) == '/' {
                proof {
                    assert(starts_dotted_segment(s@, i as int));
                }
                return true;
            }
        }
        i = i + 1;
    }
    false
}

/// Whether the span `[a, b)` of `s` reads exactly as `tok`.
fn span_equals(s: &str, a: usize, b: usize, tok: &str) -> (r: bool)
    requires
        a <= b,
        b <= s@.len(),
    ensures
        r == (s@.subrange(a as int, b as int) == tok@),
{
    let span = s.substring_char(a, b);
    eq_str(span, tok)
}

/// Whether some whole segment of `s` equals `tok`.
pub fn str_has_segment(s: &str, tok: &str) -> (r: bool)
    ensures
        r == has_segment(s@, tok@),
{
    let len = s.unicode_len();
    let mut start: usize = 0;
    let mut i: usize = 0;
    while i < len
        invariant
            len == s@.len(),
            0 <= start <= i <= len,
            seg_boundary_start(s@, start as int),
            forall|k: int| start <= k < i ==> s@[k] != '/',
            forall|a: int, b: int|
                is_segment(s@, a, b) && b < i ==> s@.subrange(a, b) != tok@,
        decreases len - i,
    {
        if s.get_char(i) == '/' {
            if span_equals(s, start, i, tok) {
                proof {
                    assert(is_segment(s@, start as int, i as int));
                }
                return true;
            }
            proof {
                assert forall|a: int, b: int|
                    is_segment(s@, a, b) && b == i implies s@.subrange(a, b) != tok@ by {
                    if a < start as int {
                        assert(s@[start - 1] == '/');
                    } else if a > start as int {
                        assert(s@[a - 1] == '/');
                    }
                }
            }
            start = i + 1;
        } else {
            proof {
                assert(forall|a: int, b: int| is_segment(s@, a, b) ==> !(b == i));
            }
        }
        i = i + 1;
    }
    if span_equals(s, start, len, tok) {
        proof {
            assert(is_segment(s@, start as int, len as int));
        }
        return true;
    }
    proof {
        assert forall|a: int, b: int|
            is_segment(s@, a, b) implies s@.subrange(a, b) != tok@ by {
            if b == len as int {
                if a < start as int {
                    assert(s@[start - 1] == '/');
                } else if a > start as int {
                    assert(s@[a - 1] == '/');
                }
            }
        }
    }
    false
}

/// The elements of `items` laid end to end with `sep` between neighbours.
pub open spec fn join_with(items: Seq<Seq<char>>, sep: Seq<char>) -> Seq<char>
    decreases items.len(),
{
    if items.len() == 0 {
        Seq::empty()
    } else if items.len() == 1 {
        items[0]
    } else {
        items[0] + sep + join_with(items.drop_first(), sep)
    }
}

/// Appending one element to a joined sequence extends it by a separator and
/// that element.
proof fn lemma_join_with_push(items: Seq<Seq<char>>, sep: Seq<char>, last: Seq<char>)
    ensures
        items.len() == 0 ==> join_with(items.push(last), sep) == last,
        items.len() > 0 ==> join_with(items.push(last), sep) =~= join_with(items, sep) + sep
            + last,
    decreases items.len(),
{
    if items.len() == 0 {
        assert(items.push(last)[0] == last);
    } else if items.len() == 1 {
        let pushed = items.push(last);
        assert(pushed.len() == 2);
        assert(pushed.drop_first() =~= seq![last]);
        assert(join_with(seq![last], sep) == seq![last][0]);
        assert(pushed[0] == items[0]);
        assert(join_with(pushed, sep) == pushed[0] + sep + join_with(pushed.drop_first(), sep));
    } else {
        lemma_join_with_push(items.drop_first(), sep, last);
        assert(items.push(last).drop_first() =~= items.drop_first().push(last));
        assert(items.push(last)[0] == items[0]);
    }
}

/// The views of the strings in `items`.
pub open spec fn views_of(items: Seq<String>) -> Seq<Seq<char>> {
    items.map_values(|s: String| s@)
}

/// Joins `items` with `sep` between neighbours.
pub fn join_strings(items: &Vec<String>, sep: &str) -> (r: String)
    ensures
        r@ == join_with(views_of(items@), sep@),
{
    let mut out = String::new();
    let mut i: usize = 0;
    while i < items.len()
        invariant
            0 <= i <= items@.len(),
            out@ == join_with(views_of(items@).take(i as int), sep@),
        decreases items@.len() - i,
    {
        if i > 0 {
            out.append(sep);
        }
        out.append(items[i].as_str());
        proof {
            let prefix = views_of(items@).take(i as int);
            lemma_join_with_push(prefix, sep@, items@[i as int]@);
            assert(views_of(items@).take(i + 1) =~= prefix.push(items@[i as int]@));
        }
        i = i + 1;
    }
    proof {
        assert(views_of(items@).take(items@.len() as int) =~= views_of(items@));
    }
    out
}

/// The lower-case folding of `s`, as `str::to_lowercase` computes it: a
/// function of the characters alone.
pub uninterp spec fn lower_of(s: Seq<char>) -> Seq<char>;

/// Relies on `str::to_lowercase`: the result depends on the characters of
/// `s` alone.
#[verifier::external_body]
pub(crate) fn lowercase(s: &str) -> (r: String)
    ensures
        r@ == lower_of(s@),
{
    s.to_lowercase()
}

/// A run of `n` spaces.
pub fn spaces(n: usize) -> (r: String)
    ensures
        r@.len() == n,
        forall|k: int| 0 <= k < n ==> r@[k] == ' ',
{
    proof {
        reveal_strlit(" ");
    }
    let mut out = String::new();
    let mut i: usize = 0;
    while i < n
        invariant
            0 <= i <= n,
            out@.len() == i,
            forall|k: int| 0 <= k < i ==> out@[k] == ' ',
        decreases n - i,
    {
        proof {
            reveal_strlit(" ");
        }
        out.append(" ");
        i = i + 1;
    }
    out
}

} // verus!
