//! What holds of texts: their lines and pieces, numbers, and order.
use crate::text::{
    comes_first, decimal, decimal_of, digit_char, find_str, first_index, first_match,
    lemma_digit_char, lemma_first_index, lemma_first_index_unique, lemma_trimmed_fixed, lines,
    pad_left, pad_right, parse_u32, parse_usize, signed_of, sort_strings, split, split_char,
    split_lines, strs, text_le, trim, trim_end_char, without_trailing,
};
use vstd::prelude::*;

verus! {

/// A text is read line by line: each line ends where a line feed stands, with or without a
/// carriage return before it, and what follows the last line feed is a line where it is
/// not empty.
pub proof fn texts_are_read_line_by_line(s: &str, r: Vec<String>, a: Seq<char>, rest: Seq<char>)
    requires
        !a.contains('\n'),
        call_ensures(split_lines, (s,), r),
    ensures
        s@.len() == 0 ==> r@.len() == 0,
        s@ == a && a.len() > 0 ==> strs(r@) == seq![a],
        s@ == a + seq!['\n'] + rest && (a.len() == 0 || a.last() != '\r') ==> strs(r@) == seq![a]
            + lines(rest),
        s@ == a + seq!['\r', '\n'] + rest ==> strs(r@) == seq![a] + lines(rest),
{
    reveal_strlit("\n");
    assert("\n"@ =~= seq!['\n']);
    assert(strs(r@).len() == r@.len());
    if s@ == a && a.len() > 0 {
        lemma_first_index(a, '\n');
        let i = first_index(a, '\n');
        if i < a.len() {
            assert(a[i] == '\n');
            assert(a.contains('\n'));
        }
        assert(lines(a) =~= seq![a]);
    }
    if s@ == a + seq!['\n'] + rest {
        crate::m3u::lemma_lines_first(a, rest);
    }
    if s@ == a + seq!['\r', '\n'] + rest {
        let b = a.push('\r');
        assert(!b.contains('\n')) by {
            if b.contains('\n') {
                let k = choose|k: int| 0 <= k < b.len() && b[k] == '\n';
                assert(a[k] == '\n');
                assert(a.contains('\n'));
            }
        }
        assert(a + seq!['\r', '\n'] + rest =~= b + "\n"@ + rest);
        crate::m3u::lemma_lines_first(b, rest);
        assert(b.drop_last() =~= a);
    }
}

/// A text is cut at each occurrence of a character, and the pieces hold all the rest.
pub proof fn texts_are_cut_at_a_character(
    s: &str,
    c: char,
    r: Vec<String>,
    a: Seq<char>,
    rest: Seq<char>,
)
    requires
        !a.contains(c),
        call_ensures(split_char, (s, c), r),
    ensures
        s@ == a ==> strs(r@) == seq![a],
        s@ == a + seq![c] + rest ==> strs(r@) == seq![a] + split(rest, c),
{
    if s@ == a {
        lemma_first_index(a, c);
        let i = first_index(a, c);
        if i < a.len() {
            assert(a[i] == c);
            assert(a.contains(c));
        }
        assert(split(a, c) =~= seq![a]);
    }
    if s@ == a + seq![c] + rest {
        let t = a + seq![c] + rest;
        let k = a.len() as int;
        assert forall|j: int| 0 <= j < k implies t[j] != c by {
            assert(t[j] == a[j]);
            if a[j] == c {
                assert(a.contains(c));
            }
        }
        assert(t[k] == c);
        lemma_first_index_unique(t, c, k);
        assert(t.take(k) =~= a);
        assert(t.skip(k + 1) =~= rest);
    }
}

/// White space is taken off both ends of a text and from nowhere else.
pub proof fn white_space_is_taken_off(s: &str, r: &str, a: Seq<char>, m: Seq<char>, b: Seq<char>)
    requires
        call_ensures(trim, (s,), r),
        m.len() > 0,
        m[0] != ' ' && m[0] != '\t' && m[0] != '\n' && m[0] != '\r',
        !crate::text::is_space(m[0]),
        !crate::text::is_space(m.last()),
        forall|i: int|
            0 <= i < a.len() ==> #[trigger] a[i] == ' ' || a[i] == '\t' || a[i] == '\n' || a[i]
                == '\r',
        forall|i: int|
            0 <= i < b.len() ==> #[trigger] b[i] == ' ' || b[i] == '\t' || b[i] == '\n' || b[i]
                == '\r',
        s@ == a + m + b,
    ensures
        r@ == m,
{
    assert forall|i: int| 0 <= i < a.len() implies crate::text::is_space(#[trigger] a[i]) by {}
    assert forall|i: int| 0 <= i < b.len() implies crate::text::is_space(#[trigger] b[i]) by {}
    crate::text::lemma_trim_around(a, m, b);
    lemma_trimmed_fixed(m);
}

/// A run of one character is taken off the end of a text.
pub proof fn runs_are_taken_off(s: &str, c: char, r: &str, m: Seq<char>, n: nat)
    requires
        m.len() == 0 || m.last() != c,
        s@ == m + Seq::new(n, |i: int| c),
        call_ensures(trim_end_char, (s, c), r),
    ensures
        r@ == m,
{
    lemma_run(m, c, n);
}

proof fn lemma_run(m: Seq<char>, c: char, n: nat)
    requires
        m.len() == 0 || m.last() != c,
    ensures
        without_trailing(m + Seq::new(n, |i: int| c), c) == m,
    decreases n,
{
    let s = m + Seq::new(n, |i: int| c);
    if n > 0 {
        lemma_run(m, c, (n - 1) as nat);
        assert(s.drop_last() =~= m + Seq::new((n - 1) as nat, |i: int| c));
        assert(s.last() == c);
    } else {
        assert(s =~= m);
    }
}

/// A number is written in digits without zeros before it, and read back.
pub proof fn numbers_are_written_and_read(n: usize, w: String, t: &str, r: Option<usize>)
    requires
        call_ensures(decimal_of, (n,), w),
        t@ == w@,
        call_ensures(parse_usize, (t,), r),
    ensures
        r == Some(n),
        w@.len() > 1 ==> w@[0] != '0',
        forall|i: int| 0 <= i < w@.len() ==> '0' <= #[trigger] w@[i] <= '9',
        n < 10 ==> w@.len() == 1,
        n >= 10 ==> w@.len() > 1 && w@.last() == digit_char(n as int % 10),
{
    crate::text::lemma_decimal_value(n as int);
    lemma_no_zero(n as int);
}

proof fn lemma_no_zero(n: int)
    requires
        0 <= n,
    ensures
        decimal(n).len() > 0,
        n >= 10 ==> decimal(n).len() > 1,
        n > 0 ==> decimal(n)[0] != '0',
        forall|i: int| 0 <= i < decimal(n).len() ==> '0' <= #[trigger] decimal(n)[i] <= '9',
    decreases n,
{
    if n < 10 {
        lemma_digit_char(n);
        assert(n > 0 ==> digit_char(n) as u32 != '0' as u32);
    } else {
        lemma_no_zero(n / 10);
        lemma_digit_char(n % 10);
    }
}

/// What is no row of digits is no number; a plus sign may stand before one.
pub proof fn only_digits_are_numbers(s: &str, r: Option<u32>, i: int)
    requires
        call_ensures(parse_u32, (s,), r),
    ensures
        s@.len() == 0 ==> r is None,
        1 <= i < s@.len() && !('0' <= s@[i] <= '9') ==> r is None,
        s@.len() > 0 && !('0' <= s@[0] <= '9') && s@[0] != '+' ==> r is None,
{
    if 1 <= i < s@.len() && !('0' <= s@[i] <= '9') {
        assert(!crate::text::is_digit(s@[i]));
        assert(s@.skip(1)[i - 1] == s@[i]);
    }
    if s@.len() > 0 && !('0' <= s@[0] <= '9') {
        assert(!crate::text::is_digit(s@[0]));
    }
}

/// Texts are in the order of a dictionary: by the first character in which they differ,
/// and a text before any that it begins.
pub proof fn texts_are_in_dictionary_order(
    a: &str,
    b: &str,
    r: bool,
    p: Seq<char>,
    x: char,
    s: Seq<char>,
    y: char,
    t: Seq<char>,
)
    requires
        call_ensures(comes_first, (a, b), r),
    ensures
        a@ == p + seq![x] + s && b@ == p + seq![y] + t && x != y ==> r == (x < y),
        b@ == a@ + s ==> r,
        a@ == b@ + seq![x] + s ==> !r,
{
    if a@ == p + seq![x] + s && b@ == p + seq![y] + t && x != y {
        lemma_order(p, seq![x] + s, seq![y] + t);
        assert(a@ =~= p + (seq![x] + s));
        assert(b@ =~= p + (seq![y] + t));
        assert((seq![x] + s)[0] == x && (seq![y] + t)[0] == y);
    }
    if b@ == a@ + s {
        lemma_order(a@, Seq::empty(), s);
        assert(a@ + Seq::<char>::empty() =~= a@);
    }
    if a@ == b@ + seq![x] + s {
        lemma_order(b@, seq![x] + s, Seq::empty());
        assert(a@ =~= b@ + (seq![x] + s));
        assert(b@ + Seq::<char>::empty() =~= b@);
    }
}

proof fn lemma_order(p: Seq<char>, s: Seq<char>, t: Seq<char>)
    ensures
        text_le(p + s, p + t) == text_le(s, t),
    decreases p.len(),
{
    if p.len() == 0 {
        assert(p + s =~= s);
        assert(p + t =~= t);
    } else {
        let q = p.skip(1);
        lemma_order(q, s, t);
        assert((p + s)[0] == p[0] && (p + t)[0] == p[0]);
        assert((p + s).skip(1) =~= q + s);
        assert((p + t).skip(1) =~= q + t);
    }
}

/// Sorting puts texts in order and loses none.
pub proof fn sorting_keeps_all_texts(v: &Vec<String>, r: Vec<String>)
    requires
        call_ensures(sort_strings, (v,), r),
    ensures
        strs(r@).to_multiset() == strs(v@).to_multiset(),
        forall|i: int, j: int|
            0 <= i < j < r@.len() ==> text_le((#[trigger] r@[i])@, (#[trigger] r@[j])@),
{
    let s = strs(r@);
    assert forall|i: int, j: int| 0 <= i < j < r@.len() implies text_le(
        (#[trigger] r@[i])@,
        (#[trigger] r@[j])@,
    ) by {
        assert(s[i] == r@[i]@ && s[j] == r@[j]@);
    }
}

/// Spaces fill a text up to a width, behind it or before it; a longer text stays.
pub proof fn spaces_fill_up(s: &str, width: usize, r: String, l: String)
    requires
        call_ensures(pad_right, (s, width), r),
        call_ensures(pad_left, (s, width), l),
    ensures
        s@.len() >= width ==> r@ == s@ && l@ == s@,
        s@.len() < width ==> r@ == s@ + Seq::new((width - s@.len()) as nat, |i: int| ' '),
        s@.len() < width ==> l@ == Seq::new((width - s@.len()) as nat, |i: int| ' ') + s@,
{
}

/// A search finds where a text first occurs in another, and finds it wherever it occurs.
pub proof fn searches_find_the_first_place(s: &str, p: &str, r: Option<usize>, k: int)
    requires
        call_ensures(find_str, (s, p), r),
    ensures
        r matches Some(i) ==> i + p@.len() <= s@.len() && s@.subrange(i as int, i + p@.len()) == p@
            && (0 <= k < i ==> s@.subrange(k, k + p@.len()) != p@),
        r is None && 0 <= k && k + p@.len() <= s@.len() ==> s@.subrange(k, k + p@.len()) != p@,
{
    lemma_match(s@, p@, k);
}

/// The first match is the first place where the text occurs.
pub proof fn lemma_match(s: Seq<char>, p: Seq<char>, k: int)
    ensures
        first_match(s, p) matches Some(i) ==> 0 <= i && i + p.len() <= s.len() && s.subrange(
            i,
            i + p.len(),
        ) == p && (0 <= k < i ==> s.subrange(k, k + p.len()) != p),
        first_match(s, p) is None && 0 <= k && k + p.len() <= s.len() ==> s.subrange(
            k,
            k + p.len(),
        ) != p,
    decreases s.len(),
{
    if p.is_prefix_of(s) {
        assert(s.subrange(0, p.len() as int) =~= p);
    } else if s.len() == 0 {
        if k == 0 && p.len() == 0 {
            assert(p =~= s.subrange(0, 0));
        }
    } else {
        let t = s.skip(1);
        lemma_match(t, p, k - 1);
        if let Some(i) = first_match(t, p) {
            assert(s.subrange(i + 1, i + 1 + p.len()) =~= t.subrange(i, i + p.len()));
        }
        if k > 0 && k + p.len() <= s.len() {
            assert(s.subrange(k, k + p.len()) =~= t.subrange(k - 1, k - 1 + p.len()));
        }
        if k == 0 && p.len() <= s.len() && s.subrange(0, p.len() as int) == p {
            assert(p.is_prefix_of(s));
        }
    }
}

/// A number below zero is written behind a minus sign.
pub proof fn signs_are_written(n: i64, r: String)
    requires
        call_ensures(signed_of, (n,), r),
    ensures
        n >= 0 ==> r@ == decimal(n as int),
        n < 0 ==> r@ == seq!['-'] + decimal(-(n as int)),
{
    reveal_strlit("-");
    assert("-"@ =~= seq!['-']);
}

} // verus!
