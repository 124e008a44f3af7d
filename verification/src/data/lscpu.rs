//! Reading the L3 cache size out of the report that `lscpu` prints.
//!
//! The report is read line by line, as `str::lines` splits it; a `'\r'`
//! before a line's `'\n'` is whitespace, so it changes no word found here.

use vstd::prelude::*;
use crate::order::has_prefix;

verus! {

/// `char::is_whitespace`: the Unicode `White_Space` property.
pub open spec fn is_ws(c: char) -> bool {
    let n = c as u32;
    ||| 0x09 <= n <= 0x0D
    ||| n == 0x20
    ||| n == 0x85
    ||| n == 0xA0
    ||| n == 0x1680
    ||| 0x2000 <= n <= 0x200A
    ||| n == 0x2028
    ||| n == 0x2029
    ||| n == 0x202F
    ||| n == 0x205F
    ||| n == 0x3000
}

/// Whether a character is whitespace, as `char::is_whitespace` tells.
pub fn is_ws_char(c: char) -> (r: bool)
    ensures
        r == is_ws(c),
{
    let n = c as u32;
    (0x09 <= n && n <= 0x0D) || n == 0x20 || n == 0x85 || n == 0xA0 || n == 0x1680 || (0x2000 <= n
        && n <= 0x200A) || n == 0x2028 || n == 0x2029 || n == 0x202F || n == 0x205F || n == 0x3000
}

/// The label of the line that gives the L3 cache: `L3 cache:`.
pub open spec fn l3_label() -> Seq<char> {
    seq!['L', '3', ' ', 'c', 'a', 'c', 'h', 'e', ':']
}

/// Where the line that starts at `i` ends: at the next `'\n'`, or at the end.
pub open spec fn line_end(s: Seq<char>, i: int) -> int
    decreases s.len() - i,
{
    if i >= s.len() {
        s.len() as int
    } else if s[i] == '\n' {
        i
    } else {
        line_end(s, i + 1)
    }
}

/// Where the word that starts at `i` ends: at the next whitespace, or at
/// the end.
pub open spec fn word_end(t: Seq<char>, i: int) -> int
    decreases t.len() - i,
{
    if i >= t.len() {
        t.len() as int
    } else if is_ws(t[i]) {
        i
    } else {
        word_end(t, i + 1)
    }
}

/// Where the field that starts at `i` ends: at the next `':'`, or at the end.
pub open spec fn colon_end(t: Seq<char>, i: int) -> int
    decreases t.len() - i,
{
    if i >= t.len() {
        t.len() as int
    } else if t[i] == ':' {
        i
    } else {
        colon_end(t, i + 1)
    }
}

pub proof fn lemma_line_end_bounds(s: Seq<char>, i: int)
    requires
        0 <= i <= s.len(),
    ensures
        i <= line_end(s, i) <= s.len(),
    decreases s.len() - i,
{
    if i < s.len() && s[i] != '\n' {
        lemma_line_end_bounds(s, i + 1);
    }
}

pub proof fn lemma_word_end_bounds(t: Seq<char>, i: int)
    requires
        0 <= i <= t.len(),
    ensures
        i <= word_end(t, i) <= t.len(),
        i < t.len() && !is_ws(t[i]) ==> i < word_end(t, i),
    decreases t.len() - i,
{
    if i < t.len() && !is_ws(t[i]) {
        lemma_word_end_bounds(t, i + 1);
    }
}

/// The words of `t` from `i` on, as `split_whitespace` yields them: the
/// longest runs of characters that are not whitespace.
pub open spec fn words_from(t: Seq<char>, i: int) -> Seq<Seq<char>>
    decreases t.len() - i,
{
    if i < 0 || i >= t.len() {
        Seq::empty()
    } else if is_ws(t[i]) {
        words_from(t, i + 1)
    } else {
        proof {
            lemma_word_end_bounds(t, i);
        }
        seq![t.subrange(i, word_end(t, i))] + words_from(t, word_end(t, i))
    }
}

/// The first two words of `t` joined by one space, as `take(2)` and
/// `join(" ")` put them; empty where `t` has no word.
pub open spec fn first_two_words(t: Seq<char>) -> Seq<char> {
    let w = words_from(t, 0);
    if w.len() == 0 {
        Seq::empty()
    } else if w.len() == 1 {
        w[0]
    } else {
        w[0] + seq![' '] + w[1]
    }
}

/// What follows `L3 cache:` on the first line, from the line that starts
/// at `i` on, that begins with it.
pub open spec fn l3_rest_from(s: Seq<char>, i: int) -> Option<Seq<char>>
    decreases s.len() + 1 - i,
{
    if i < 0 || i >= s.len() {
        None
    } else {
        proof {
            lemma_line_end_bounds(s, i);
        }
        let line = s.subrange(i, line_end(s, i));
        if has_prefix(line, l3_label()) {
            Some(line.subrange(9, line.len() as int))
        } else {
            l3_rest_from(s, line_end(s, i) + 1)
        }
    }
}

/// The size on the first `L3 cache:` line of a report: the first two
/// words after the label, or `None` where there is no such line or no word
/// on it.
pub open spec fn l3_first_line_size(s: Seq<char>) -> Option<Seq<char>> {
    match l3_rest_from(s, 0) {
        None => None,
        Some(rest) => if first_two_words(rest).len() == 0 {
            None
        } else {
            Some(first_two_words(rest))
        },
    }
}

/// The field of a line between its first and its second `:`, as
/// `split(':').nth(1)` gives it, for a line that begins with `L3 cache:`.
pub open spec fn l3_field(line: Seq<char>) -> Seq<char> {
    line.subrange(9, colon_end(line, 9))
}

/// The size on the first `L3 cache:` line, from the line that starts at
/// `i` on, whose field holds a word: the first two words of that field.
pub open spec fn l3_field_size_from(s: Seq<char>, i: int) -> Option<Seq<char>>
    decreases s.len() + 1 - i,
{
    if i < 0 || i >= s.len() {
        None
    } else {
        proof {
            lemma_line_end_bounds(s, i);
        }
        let line = s.subrange(i, line_end(s, i));
        if has_prefix(line, l3_label()) && first_two_words(l3_field(line)).len() > 0 {
            Some(first_two_words(l3_field(line)))
        } else {
            l3_field_size_from(s, line_end(s, i) + 1)
        }
    }
}

/// The index where the line that starts at `i` ends.
fn find_line_end(s: &Vec<char>, i: usize) -> (e: usize)
    requires
        i <= s.len(),
    ensures
        e == line_end(s@, i as int),
        i <= e <= s.len(),
{
    let mut k = i;
    while k < s.len() && s[k] != '\n'
        invariant
            i <= k <= s.len(),
            line_end(s@, k as int) == line_end(s@, i as int),
        decreases s.len() - k,
    {
        k = k + 1;
    }
    k
}

/// The index where the word that starts at `i` ends.
fn find_word_end(t: &Vec<char>, i: usize) -> (e: usize)
    requires
        i <= t.len(),
    ensures
        e == word_end(t@, i as int),
        i <= e <= t.len(),
{
    let mut k = i;
    while k < t.len() && !is_ws_char(t[k])
        invariant
            i <= k <= t.len(),
            word_end(t@, k as int) == word_end(t@, i as int),
        decreases t.len() - k,
    {
        k = k + 1;
    }
    k
}

/// The index where the field that starts at `i` ends.
fn find_colon_end(t: &Vec<char>, i: usize) -> (e: usize)
    requires
        i <= t.len(),
    ensures
        e == colon_end(t@, i as int),
        i <= e <= t.len(),
{
    let mut k = i;
    while k < t.len() && t[k] != ':'
        invariant
            i <= k <= t.len(),
            colon_end(t@, k as int) == colon_end(t@, i as int),
        decreases t.len() - k,
    {
        k = k + 1;
    }
    k
}

/// The characters of `s` from `lo` up to `hi`.
fn slice_chars(s: &Vec<char>, lo: usize, hi: usize) -> (v: Vec<char>)
    requires
        lo <= hi <= s.len(),
    ensures
        v@ == s@.subrange(lo as int, hi as int),
{
    let mut v: Vec<char> = Vec::new();
    let mut k = lo;
    while k < hi
        invariant
            lo <= k <= hi <= s.len(),
            v@ == s@.subrange(lo as int, k as int),
        decreases hi - k,
    {
        v.push(s[k]);
        assert(s@.subrange(lo as int, k + 1) =~= s@.subrange(lo as int, k as int).push(s@[k as int]));
        k = k + 1;
    }
    v
}

/// The first two words of `t`, joined by one space.
pub fn two_words(t: &Vec<char>) -> (w: Vec<char>)
    ensures
        w@ == first_two_words(t@),
{
    let mut out: Vec<char> = Vec::new();
    let mut count: usize = 0;
    let mut pos: usize = 0;
    let ghost mut acc: Seq<Seq<char>> = Seq::empty();
    while pos < t.len() && count < 2
        invariant
            pos <= t.len(),
            count == acc.len() <= 2,
            words_from(t@, 0) == acc + words_from(t@, pos as int),
            count == 0 ==> out@ == Seq::<char>::empty(),
            count == 1 ==> out@ == acc[0],
            count == 2 ==> out@ == acc[0] + seq![' '] + acc[1],
        decreases t.len() - pos,
    {
        if is_ws_char(t[pos]) {
            assert(words_from(t@, pos as int) == words_from(t@, pos + 1));
            pos = pos + 1;
        } else {
            let e = find_word_end(t, pos);
            proof {
                lemma_word_end_bounds(t@, pos as int);
            }
            let word = slice_chars(t, pos, e);
            if count == 1 {
                out.push(' ');
            }
            let mut j: usize = 0;
            let ghost before = out@;
            while j < word.len()
                invariant
                    j <= word.len(),
                    out@ == before + word@.take(j as int),
                decreases word.len() - j,
            {
                out.push(word[j]);
                assert(word@.take(j + 1) =~= word@.take(j as int).push(word@[j as int]));
                j = j + 1;
            }
            assert(word@.take(word.len() as int) =~= word@);
            proof {
                let rest = words_from(t@, e as int);
                assert(words_from(t@, pos as int) == seq![word@] + rest);
                assert(acc + (seq![word@] + rest) =~= acc.push(word@) + rest);
                acc = acc.push(word@);
            }
            count = count + 1;
            pos = e;
        }
    }
    proof {
        if count < 2 {
            assert(words_from(t@, pos as int) == Seq::<Seq<char>>::empty());
            assert(words_from(t@, 0) =~= acc);
        } else {
            let w = words_from(t@, 0);
            assert(w[0] == acc[0]);
            assert(w[1] == acc[1]);
        }
    }
    out
}

/// The size on the first `L3 cache:` line of a report, if that line has a
/// word after the label.
pub fn first_line_l3(s: &Vec<char>) -> (r: Option<Vec<char>>)
    ensures
        r matches Some(v) ==> l3_first_line_size(s@) == Some(v@),
        r is None ==> l3_first_line_size(s@) is None,
{
    let label: Vec<char> = vec!['L', '3', ' ', 'c', 'a', 'c', 'h', 'e', ':'];
    assert(label@ =~= l3_label());
    let mut i: usize = 0;
    while i < s.len()
        invariant
            i <= s.len(),
            label@ == l3_label(),
            l3_rest_from(s@, 0) == l3_rest_from(s@, i as int),
        decreases s.len() - i,
    {
        let e = find_line_end(s, i);
        let line = slice_chars(s, i, e);
        if crate::order::chars_start_with(&line, &label) {
            let rest = slice_chars(&line, 9, line.len());
            let w = two_words(&rest);
            if w.len() == 0 {
                return None;
            }
            return Some(w);
        }
        if e == s.len() {
            assert(l3_rest_from(s@, e + 1) is None);
            return None;
        }
        i = e + 1;
    }
    None
}

/// The size on the first `L3 cache:` line whose field holds a word.
pub fn any_line_l3(s: &Vec<char>) -> (r: Option<Vec<char>>)
    ensures
        r matches Some(v) ==> l3_field_size_from(s@, 0) == Some(v@),
        r is None ==> l3_field_size_from(s@, 0) is None,
{
    let label: Vec<char> = vec!['L', '3', ' ', 'c', 'a', 'c', 'h', 'e', ':'];
    assert(label@ =~= l3_label());
    let mut i: usize = 0;
    while i < s.len()
        invariant
            i <= s.len(),
            label@ == l3_label(),
            l3_field_size_from(s@, 0) == l3_field_size_from(s@, i as int),
        decreases s.len() - i,
    {
        let e = find_line_end(s, i);
        let line = slice_chars(s, i, e);
        if crate::order::chars_start_with(&line, &label) {
            let f_end = find_colon_end(&line, 9);
            let field = slice_chars(&line, 9, f_end);
            let w = two_words(&field);
            if w.len() > 0 {
                return Some(w);
            }
        }
        if e == s.len() {
            assert(l3_field_size_from(s@, e + 1) is None);
            return None;
        }
        i = e + 1;
    }
    None
}

} // verus!
