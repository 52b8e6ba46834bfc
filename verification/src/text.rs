//! Text primitives on sequences of characters: searching, splitting, trimming
//! and placeholder expansion. Every path rule of the locator is built on these.

use vstd::prelude::*;

verus! {

/// `pat` occurs in `s` starting at index `i`.
pub open spec fn occurs_at(s: Seq<char>, pat: Seq<char>, i: int) -> bool {
    0 <= i && i + pat.len() <= s.len() && s.subrange(i, i + pat.len()) == pat
}

/// `pat` occurs somewhere in `s`.
pub open spec fn has_infix(s: Seq<char>, pat: Seq<char>) -> bool {
    exists|i: int| occurs_at(s, pat, i)
}

/// `s` ends with `pat`.
pub open spec fn has_suffix(s: Seq<char>, pat: Seq<char>) -> bool {
    occurs_at(s, pat, s.len() - pat.len())
}

/// The least index at or after `from` that holds `c`; the length of `s` if none does.
pub open spec fn index_of(s: Seq<char>, c: char, from: int) -> int
    decreases s.len() - from,
{
    if 0 <= from < s.len() && s[from] != c {
        index_of(s, c, from + 1)
    } else if from < s.len() {
        from
    } else {
        s.len() as int
    }
}

/// The pieces of `s` between occurrences of `sep`. A text without `sep` is one piece;
/// a separator at either end, or two in a row, give an empty piece.
pub open spec fn split(s: Seq<char>, sep: char) -> Seq<Seq<char>>
    decreases s.len(),
{
    let i = index_of(s, sep, 0);
    if 0 <= i < s.len() {
        seq![s.subrange(0, i)] + split(s.subrange(i + 1, s.len() as int), sep)
    } else {
        seq![s]
    }
}

/// Whether `c` is white space. This is the name of what `char::is_whitespace` answers:
/// the Unicode property `White_Space`.
pub uninterp spec fn is_whitespace(c: char) -> bool;

/// `char::is_whitespace` depends on the character alone; its answer is `is_whitespace`.
pub assume_specification[ char::is_whitespace ](c: char) -> (b: bool)
    ensures
        b == is_whitespace(c),
;

/// `s` in lower case. This is the name of what `str::to_lowercase` returns: each
/// character replaced by its Unicode lower-case mapping, which may be several
/// characters long.
pub uninterp spec fn lowercase(s: Seq<char>) -> Seq<char>;

/// `str::to_lowercase` depends on the text alone; its result is `lowercase`.
#[verifier::external_body]
pub(crate) fn to_lowercase(s: &str) -> (r: String)
    ensures
        r@ == lowercase(s@),
{
    s.to_lowercase()
}

/// The least index at or after `from` that holds no white space.
pub open spec fn skip_whitespace(s: Seq<char>, from: int) -> int
    decreases s.len() - from,
{
    if 0 <= from < s.len() && is_whitespace(s[from]) {
        skip_whitespace(s, from + 1)
    } else {
        from
    }
}

/// The least end `e` with `lo <= e <= hi` such that `s[e..hi]` is white space only.
pub open spec fn drop_whitespace(s: Seq<char>, lo: int, hi: int) -> int
    decreases hi - lo,
{
    if lo < hi <= s.len() && is_whitespace(s[hi - 1]) {
        drop_whitespace(s, lo, hi - 1)
    } else {
        hi
    }
}

/// `s` without its leading and trailing white space.
pub open spec fn trimmed(s: Seq<char>) -> Seq<char> {
    let from = skip_whitespace(s, 0);
    s.subrange(from, drop_whitespace(s, from, s.len() as int))
}

/// `template` with every occurrence of `placeholder` replaced by `value`, reading
/// from the left; occurrences do not overlap. An empty placeholder occurs nowhere.
pub open spec fn expand(template: Seq<char>, placeholder: Seq<char>, value: Seq<char>) -> Seq<
    char,
>
    decreases template.len(),
{
    if template.len() == 0 {
        template
    } else if placeholder.len() > 0 && occurs_at(template, placeholder, 0) {
        value + expand(template.skip(placeholder.len() as int), placeholder, value)
    } else {
        seq![template[0]] + expand(template.skip(1), placeholder, value)
    }
}

/// The characters of `s`, in order.
pub fn chars_of(s: &str) -> (v: Vec<char>)
    ensures
        v@ == s@,
{
    let mut v: Vec<char> = Vec::new();
    for c in it: s.chars()
        invariant
            v@ == it.seq().take(it.index() as int),
    {
        v.push(c);
    }
    v
}

/// The text `s[from..to]`.
pub fn slice_of(s: &str, from: usize, to: usize) -> (r: String)
    requires
        from <= to <= s@.len(),
    ensures
        r@ == s@.subrange(from as int, to as int),
{
    String::from_str(s.substring_char(from, to))
}

/// Whether `pat` occurs in `s` at index `i`.
pub fn matches_at(s: &Vec<char>, pat: &Vec<char>, i: usize) -> (r: bool)
    ensures
        r == occurs_at(s@, pat@, i as int),
{
    if i > s.len() || pat.len() > s.len() - i {
        return false;
    }
    let mut k: usize = 0;
    while k < pat.len()
        invariant
            i + pat.len() <= s.len(),
            k <= pat.len(),
            forall|j: int| 0 <= j < k ==> s@[i + j] == pat@[j],
        decreases pat.len() - k,
    {
        if s[i + k] != pat[k] {
            assert(s@.subrange(i as int, i + pat.len())[k as int] == s@[i + k]);
            return false;
        }
        k += 1;
    }
    assert(s@.subrange(i as int, i + pat.len()) =~= pat@);
    true
}

/// Whether `pat` occurs somewhere in `s`.
pub fn contains(s: &Vec<char>, pat: &Vec<char>) -> (r: bool)
    ensures
        r == has_infix(s@, pat@),
{
    let mut i: usize = 0;
    while i < s.len()
        invariant
            i <= s.len(),
            forall|j: int| 0 <= j < i ==> !occurs_at(s@, pat@, j),
        decreases s.len() - i,
    {
        if matches_at(s, pat, i) {
            return true;
        }
        i += 1;
    }
    matches_at(s, pat, i)
}

/// Whether `s` ends with `pat`.
pub fn ends_with(s: &Vec<char>, pat: &Vec<char>) -> (r: bool)
    ensures
        r == has_suffix(s@, pat@),
{
    if pat.len() > s.len() {
        return false;
    }
    matches_at(s, pat, s.len() - pat.len())
}

/// Below the first occurrence of `c` at or after `from`, nothing holds `c`.
pub proof fn lemma_index_of(s: Seq<char>, c: char, from: int)
    requires
        0 <= from <= s.len(),
    ensures
        from <= index_of(s, c, from) <= s.len(),
        index_of(s, c, from) < s.len() ==> s[index_of(s, c, from)] == c,
        forall|j: int| from <= j < index_of(s, c, from) ==> s[j] != c,
    decreases s.len() - from,
{
    if from < s.len() && s[from] != c {
        lemma_index_of(s, c, from + 1);
    }
}

/// A text whose first `k` characters differ from `c` has its first `c` at or after `k`,
/// where the search from `k` finds it.
pub proof fn lemma_index_of_skips(s: Seq<char>, c: char, from: int, k: int)
    requires
        0 <= from <= k <= s.len(),
        forall|j: int| from <= j < k ==> s[j] != c,
    ensures
        index_of(s, c, from) == index_of(s, c, k),
    decreases k - from,
{
    if from < k {
        lemma_index_of_skips(s, c, from + 1, k);
    }
}

/// The pieces of `s` between occurrences of `sep`.
pub fn split_text(s: &str, sep: char) -> (pieces: Vec<String>)
    ensures
        pieces.deep_view() == split(s@, sep),
{
    let chars = chars_of(s);
    let mut pieces: Vec<String> = Vec::new();
    let mut start: usize = 0;
    let mut i: usize = 0;
    proof {
        assert(s@.subrange(0, s@.len() as int) =~= s@);
        assert(pieces.deep_view() + split(s@, sep) =~= split(s@, sep));
    }
    while i < chars.len()
        invariant
            chars@ == s@,
            start <= i <= chars.len(),
            forall|j: int| start <= j < i ==> chars@[j] != sep,
            split(s@, sep) == pieces.deep_view() + split(
                s@.subrange(start as int, s@.len() as int),
                sep,
            ),
        decreases chars.len() - i,
    {
        if chars[i] == sep {
            let ghost rest = s@.subrange(start as int, s@.len() as int);
            let ghost before = pieces.deep_view();
            proof {
                lemma_index_of_skips(rest, sep, 0, i - start);
                lemma_index_of(rest, sep, i - start);
                assert(index_of(rest, sep, 0) == i - start);
                assert(rest.subrange(0, i - start) =~= s@.subrange(start as int, i as int));
                assert(rest.subrange(i - start + 1, rest.len() as int) =~= s@.subrange(
                    i + 1,
                    s@.len() as int,
                ));
            }
            pieces.push(slice_of(s, start, i));
            proof {
                assert(pieces.deep_view() =~= before + seq![s@.subrange(start as int, i as int)]);
            }
            start = i + 1;
        }
        i += 1;
    }
    let ghost rest = s@.subrange(start as int, s@.len() as int);
    let ghost before = pieces.deep_view();
    proof {
        lemma_index_of_skips(rest, sep, 0, rest.len() as int);
        assert(index_of(rest, sep, rest.len() as int) == rest.len());
    }
    pieces.push(slice_of(s, start, chars.len()));
    proof {
        assert(pieces.deep_view() =~= before + seq![rest]);
    }
    pieces
}

/// `s` without its leading and trailing white space.
pub fn trim(s: &str) -> (r: String)
    ensures
        r@ == trimmed(s@),
{
    let chars = chars_of(s);
    let mut from: usize = 0;
    while from < chars.len() && chars[from].is_whitespace()
        invariant
            from <= chars.len(),
            skip_whitespace(chars@, 0) == skip_whitespace(chars@, from as int),
        decreases chars.len() - from,
    {
        from += 1;
    }
    let mut to: usize = chars.len();
    while from < to && chars[to - 1].is_whitespace()
        invariant
            from <= to <= chars.len(),
            drop_whitespace(chars@, from as int, chars@.len() as int) == drop_whitespace(
                chars@,
                from as int,
                to as int,
            ),
        decreases to - from,
    {
        to -= 1;
    }
    slice_of(s, from, to)
}

/// `template` with every occurrence of `placeholder` replaced by `value`.
pub fn expand_placeholder(template: &str, placeholder: &str, value: &str) -> (r: String)
    ensures
        r@ == expand(template@, placeholder@, value@),
{
    let chars = chars_of(template);
    let pat = chars_of(placeholder);
    let mut out = String::new();
    let mut copied: usize = 0;
    let mut i: usize = 0;
    proof {
        assert(template@.skip(0) =~= template@);
        assert(out@ + template@.subrange(0, 0) + expand(template@, placeholder@, value@)
            =~= expand(template@, placeholder@, value@));
    }
    while i < chars.len()
        invariant
            chars@ == template@,
            pat@ == placeholder@,
            copied <= i <= chars.len(),
            expand(template@, placeholder@, value@) == out@ + template@.subrange(
                copied as int,
                i as int,
            ) + expand(template@.skip(i as int), placeholder@, value@),
        decreases chars.len() - i,
    {
        let ghost rest = template@.skip(i as int);
        let ghost done = out@;
        if pat.len() > 0 && matches_at(&chars, &pat, i) {
            proof {
                assert(rest.subrange(0, pat@.len() as int) =~= template@.subrange(
                    i as int,
                    i + pat@.len(),
                ));
                assert(rest.skip(pat@.len() as int) =~= template@.skip(i + pat@.len()));
            }
            let run = slice_of(template, copied, i);
            out.append(run.as_str());
            out.append(value);
            i += pat.len();
            copied = i;
            proof {
                assert(template@.subrange(copied as int, i as int) =~= Seq::<char>::empty());
                assert(out@ + template@.subrange(copied as int, i as int) =~= done + run@
                    + value@);
                assert(done + run@ + (value@ + expand(
                    template@.skip(i as int),
                    placeholder@,
                    value@,
                )) =~= done + run@ + value@ + expand(
                    template@.skip(i as int),
                    placeholder@,
                    value@,
                ));
            }
        } else {
            proof {
                if pat@.len() > 0 && i + pat@.len() <= template@.len() {
                    assert(rest.subrange(0, pat@.len() as int) =~= template@.subrange(
                        i as int,
                        i + pat@.len(),
                    ));
                }
                assert(!(placeholder@.len() > 0 && occurs_at(rest, placeholder@, 0)));
                assert(rest.skip(1) =~= template@.skip(i + 1));
                assert(template@.subrange(copied as int, i as int) + seq![rest[0]]
                    =~= template@.subrange(copied as int, i + 1));
            }
            i += 1;
            proof {
                let tail = expand(template@.skip(i as int), placeholder@, value@);
                assert(out@ + template@.subrange(copied as int, i - 1) + (seq![rest[0]] + tail)
                    =~= out@ + template@.subrange(copied as int, i as int) + tail);
            }
        }
    }
    let run = slice_of(template, copied, i);
    proof {
        assert(template@.skip(i as int) =~= Seq::<char>::empty());
        assert(out@ + run@ + Seq::<char>::empty() =~= out@ + run@);
    }
    out.append(run.as_str());
    out
}

/// Adds the texts of `more` behind those of `all`.
pub fn append_all(all: &mut Vec<String>, more: &Vec<String>)
    ensures
        final(all).deep_view() == old(all).deep_view() + more.deep_view(),
{
    let mut i: usize = 0;
    assert(all.deep_view() =~= old(all).deep_view() + more.deep_view().take(0));
    while i < more.len()
        invariant
            i <= more.len(),
            all.deep_view() == old(all).deep_view() + more.deep_view().take(i as int),
        decreases more.len() - i,
    {
        let ghost before = all.deep_view();
        all.push(more[i].clone());
        assert(all.deep_view() =~= before.push(more@[i as int]@));
        assert(more.deep_view().take(i + 1) =~= more.deep_view().take(i as int).push(
            more@[i as int]@,
        ));
        i += 1;
    }
    assert(more.deep_view().take(i as int) =~= more.deep_view());
}

/// Whether `a` and `b` are the same text.
pub fn same_text(a: &str, b: &str) -> (r: bool)
    ensures
        r == (a@ == b@),
{
    String::from_str(a) == String::from_str(b)
}

} // verus!
