//! Strings as sequences of characters: the small vocabulary that every parser,
//! path and label of the crate is stated in.
use vstd::prelude::*;

verus! {

/// `String::push` appends one character to the string.
pub assume_specification[ String::push ](s: &mut String, c: char)
    ensures
        final(s)@ == old(s)@.push(c),
;

/// `String::pop` takes the last character off; an empty string stays empty.
pub assume_specification[ String::pop ](s: &mut String) -> (r: Option<char>)
    ensures
        match r {
            Some(c) => old(s)@.len() > 0 && c == old(s)@.last() && final(s)@ == old(s)@.drop_last(),
            None => old(s)@.len() == 0 && final(s)@ == old(s)@,
        },
;

/// What `str::to_lowercase` makes of a text (Unicode's full lower-case mapping).
pub uninterp spec fn lowercase(s: Seq<char>) -> Seq<char>;

/// What `str::to_uppercase` makes of a text (Unicode's full upper-case mapping).
pub uninterp spec fn uppercase(s: Seq<char>) -> Seq<char>;

/// Calls `str::to_lowercase`: the result depends on the characters alone.
#[verifier::external_body]
pub(crate) fn lower(s: &str) -> (r: String)
    ensures
        r@ == lowercase(s@),
{
    s.to_lowercase()
}

/// Calls `str::to_uppercase`: the result depends on the characters alone.
#[verifier::external_body]
pub(crate) fn upper(s: &str) -> (r: String)
    ensures
        r@ == uppercase(s@),
{
    s.to_uppercase()
}

/// The characters of each string, in order.
pub open spec fn strs(v: Seq<String>) -> Seq<Seq<char>> {
    Seq::new(v.len(), |i: int| v[i]@)
}

/// The characters of an optional string.
pub open spec fn opt(s: Option<String>) -> Option<Seq<char>> {
    match s {
        Some(t) => Some(t@),
        None => None,
    }
}

/// Unicode's `White_Space` property.
pub open spec fn is_space(c: char) -> bool {
    let n = c as u32;
    ||| 0x09 <= n <= 0x0d
    ||| n == 0x20
    ||| n == 0x85
    ||| n == 0xa0
    ||| n == 0x1680
    ||| 0x2000 <= n <= 0x200a
    ||| n == 0x2028
    ||| n == 0x2029
    ||| n == 0x202f
    ||| n == 0x205f
    ||| n == 0x3000
}

/// `s` without its leading white space.
pub open spec fn trim_start(s: Seq<char>) -> Seq<char>
    decreases s.len(),
{
    if s.len() > 0 && is_space(s[0]) {
        trim_start(s.skip(1))
    } else {
        s
    }
}

/// `s` without its trailing white space.
pub open spec fn trim_end(s: Seq<char>) -> Seq<char>
    decreases s.len(),
{
    if s.len() > 0 && is_space(s.last()) {
        trim_end(s.drop_last())
    } else {
        s
    }
}

/// `s` without white space at either end.
pub open spec fn trimmed(s: Seq<char>) -> Seq<char> {
    trim_end(trim_start(s))
}

/// `s` without the run of `c` at its end.
pub open spec fn without_trailing(s: Seq<char>, c: char) -> Seq<char>
    decreases s.len(),
{
    if s.len() > 0 && s.last() == c {
        without_trailing(s.drop_last(), c)
    } else {
        s
    }
}

/// `s` without the run of `p` at its end.
pub open spec fn without_suffixes(s: Seq<char>, p: Seq<char>) -> Seq<char>
    decreases s.len(),
{
    if 0 < p.len() && p.is_suffix_of(s) {
        without_suffixes(s.take(s.len() - p.len()), p)
    } else {
        s
    }
}

/// The order of texts: by the first character in which they differ, a text before
/// those that it begins.
pub open spec fn text_le(a: Seq<char>, b: Seq<char>) -> bool
    decreases a.len(),
{
    if a.len() == 0 {
        true
    } else if b.len() == 0 {
        false
    } else if a[0] == b[0] {
        text_le(a.skip(1), b.skip(1))
    } else {
        a[0] < b[0]
    }
}

/// In order.
pub open spec fn in_order(v: Seq<Seq<char>>) -> bool {
    forall|i: int, j: int| 0 <= i < j < v.len() ==> text_le(#[trigger] v[i], #[trigger] v[j])
}

/// Where `c` first stands in `s`; the length of `s` where it does not occur.
pub open spec fn first_index(s: Seq<char>, c: char) -> int
    decreases s.len(),
{
    if s.len() == 0 || s[0] == c {
        0
    } else {
        1 + first_index(s.skip(1), c)
    }
}

/// Where `c` last stands in `s`; -1 where it does not occur.
pub open spec fn last_index(s: Seq<char>, c: char) -> int
    decreases s.len(),
{
    if s.len() == 0 {
        -1
    } else if s.last() == c {
        s.len() - 1
    } else {
        last_index(s.drop_last(), c)
    }
}

/// What follows the last `c` of `s`: all of `s` where there is none.
pub open spec fn after_last(s: Seq<char>, c: char) -> Seq<char> {
    s.skip(last_index(s, c) + 1)
}

/// `s` cut at each `c`; one piece more than there are occurrences.
pub open spec fn split(s: Seq<char>, c: char) -> Seq<Seq<char>>
    decreases s.len(),
{
    let i = first_index(s, c);
    if 0 <= i < s.len() {
        seq![s.take(i)] + split(s.skip(i + 1), c)
    } else {
        seq![s]
    }
}

/// Where `p` first stands in `s`; nothing where it does not occur.
pub open spec fn first_match(s: Seq<char>, p: Seq<char>) -> Option<int>
    decreases s.len(),
{
    if p.is_prefix_of(s) {
        Some(0int)
    } else if s.len() == 0 {
        None
    } else {
        match first_match(s.skip(1), p) {
            Some(i) => Some(i + 1),
            None => None,
        }
    }
}

/// How many characters of `s` come before its first white space.
pub open spec fn word_length(s: Seq<char>) -> int
    decreases s.len(),
{
    if s.len() == 0 || is_space(s[0]) {
        0
    } else {
        1 + word_length(s.skip(1))
    }
}

/// The stretches of `s` between white space.
pub open spec fn words(s: Seq<char>) -> Seq<Seq<char>>
    decreases s.len(),
    via words_get_shorter
{
    let t = trim_start(s);
    if t.len() == 0 {
        Seq::empty()
    } else {
        seq![t.take(word_length(t))] + words(t.skip(word_length(t)))
    }
}

#[via_fn]
proof fn words_get_shorter(s: Seq<char>) {
    let t = trim_start(s);
    lemma_trim_start_shape(s);
    lemma_word_length(t);
    if t.len() > 0 {
        assert(!is_space(t[0]));
        assert(word_length(t) >= 1) by {
            lemma_word_length(t.skip(1));
        }
    }
}

/// A line without the carriage return that stood before its line feed.
pub open spec fn without_cr(s: Seq<char>) -> Seq<char> {
    if s.len() > 0 && s.last() == '\r' {
        s.drop_last()
    } else {
        s
    }
}

/// The lines of a text: each ends in a line feed, with or without a carriage
/// return before it, or at the end of the text; no empty line follows the last
/// line feed.
pub open spec fn lines(s: Seq<char>) -> Seq<Seq<char>>
    decreases s.len(),
{
    let i = first_index(s, '\n');
    if s.len() == 0 {
        Seq::empty()
    } else if 0 <= i < s.len() {
        seq![without_cr(s.take(i))] + lines(s.skip(i + 1))
    } else {
        seq![s]
    }
}

/// `s` with spaces added on the right up to `width` characters.
pub open spec fn padded(s: Seq<char>, width: nat) -> Seq<char> {
    if s.len() < width {
        s + Seq::new((width - s.len()) as nat, |i: int| ' ')
    } else {
        s
    }
}

/// `s` with spaces added on the left up to `width` characters.
pub open spec fn padded_left(s: Seq<char>, width: nat) -> Seq<char> {
    if s.len() < width {
        Seq::new((width - s.len()) as nat, |i: int| ' ') + s
    } else {
        s
    }
}

/// The decimal digits of `n`, behind a minus sign where it is negative.
pub open spec fn signed(n: int) -> Seq<char> {
    if n < 0 {
        "-"@ + decimal(-n)
    } else {
        decimal(n)
    }
}

/// A decimal digit.
pub open spec fn is_digit(c: char) -> bool {
    '0' <= c && c <= '9'
}

/// The digit that stands for `d`.
pub open spec fn digit_char(d: int) -> char {
    (('0' as u32) + d) as char
}

/// The number that a string of decimal digits writes.
pub open spec fn digits_value(s: Seq<char>) -> int
    decreases s.len(),
{
    if s.len() == 0 {
        0
    } else {
        digits_value(s.drop_last()) * 10 + (s.last() as u32 - '0' as u32)
    }
}

/// Nothing but decimal digits.
pub open spec fn all_digits(s: Seq<char>) -> bool {
    forall|i: int| 0 <= i < s.len() ==> is_digit(#[trigger] s[i])
}

/// The unsigned number that `s` writes: decimal digits, at least one, behind an
/// optional plus sign.
pub open spec fn number_value(s: Seq<char>) -> Option<int> {
    let d = if s.len() > 0 && s[0] == '+' {
        s.skip(1)
    } else {
        s
    };
    if d.len() > 0 && all_digits(d) {
        Some(digits_value(d))
    } else {
        None
    }
}

/// The decimal digits of `n`.
pub open spec fn decimal(n: int) -> Seq<char>
    decreases n,
{
    if n < 10 {
        seq![digit_char(n)]
    } else {
        decimal(n / 10).push(digit_char(n % 10))
    }
}

// ---------------------------------------------------------------------------
// Facts
// ---------------------------------------------------------------------------

pub proof fn lemma_strs_push(v: Seq<String>, s: String)
    ensures
        strs(v.push(s)) == strs(v).push(s@),
{
    assert(strs(v.push(s)) =~= strs(v).push(s@));
}

pub proof fn lemma_strs_remove(v: Seq<String>, i: int)
    requires
        0 <= i < v.len(),
    ensures
        strs(v.remove(i)) == strs(v).remove(i),
{
    assert(strs(v.remove(i)) =~= strs(v).remove(i));
}

pub proof fn lemma_first_index(s: Seq<char>, c: char)
    ensures
        0 <= first_index(s, c) <= s.len(),
        first_index(s, c) < s.len() ==> s[first_index(s, c)] == c,
        forall|j: int| 0 <= j < first_index(s, c) ==> s[j] != c,
    decreases s.len(),
{
    if s.len() > 0 && s[0] != c {
        lemma_first_index(s.skip(1), c);
        assert forall|j: int| 0 <= j < first_index(s, c) implies s[j] != c by {
            if j > 0 {
                assert(s.skip(1)[j - 1] == s[j]);
            }
        }
    }
}

/// The first occurrence is the only place with nothing but other characters
/// before it.
pub proof fn lemma_first_index_unique(s: Seq<char>, c: char, i: int)
    requires
        0 <= i <= s.len(),
        i < s.len() ==> s[i] == c,
        forall|j: int| 0 <= j < i ==> s[j] != c,
    ensures
        first_index(s, c) == i,
{
    lemma_first_index(s, c);
    let f = first_index(s, c);
    if f < i {
        assert(s[f] != c);
    } else if i < f {
        assert(s[i] != c);
    }
}

pub proof fn lemma_last_index(s: Seq<char>, c: char)
    ensures
        -1 <= last_index(s, c) < s.len(),
        last_index(s, c) >= 0 ==> s[last_index(s, c)] == c,
        forall|j: int| last_index(s, c) < j < s.len() ==> s[j] != c,
    decreases s.len(),
{
    if s.len() > 0 && s.last() != c {
        lemma_last_index(s.drop_last(), c);
        assert forall|j: int| last_index(s, c) < j < s.len() implies s[j] != c by {
            if j < s.len() - 1 {
                assert(s.drop_last()[j] == s[j]);
            }
        }
    }
}

pub proof fn lemma_last_index_unique(s: Seq<char>, c: char, i: int)
    requires
        -1 <= i < s.len(),
        i >= 0 ==> s[i] == c,
        forall|j: int| i < j < s.len() ==> s[j] != c,
    ensures
        last_index(s, c) == i,
{
    lemma_last_index(s, c);
    let f = last_index(s, c);
    if f < i {
        assert(s[i] != c);
    } else if i < f {
        assert(s[f] != c);
    }
}

pub proof fn lemma_text_le_total(a: Seq<char>, b: Seq<char>)
    ensures
        text_le(a, b) || text_le(b, a),
    decreases a.len(),
{
    if a.len() > 0 && b.len() > 0 && a[0] == b[0] {
        lemma_text_le_total(a.skip(1), b.skip(1));
    }
}

pub proof fn lemma_text_le_trans(a: Seq<char>, b: Seq<char>, c: Seq<char>)
    requires
        text_le(a, b),
        text_le(b, c),
    ensures
        text_le(a, c),
    decreases a.len(),
{
    if a.len() > 0 && b.len() > 0 && c.len() > 0 && a[0] == b[0] && b[0] == c[0] {
        lemma_text_le_trans(a.skip(1), b.skip(1), c.skip(1));
    }
}

pub proof fn lemma_first_match(s: Seq<char>, p: Seq<char>)
    ensures
        match first_match(s, p) {
            Some(i) => 0 <= i && i + p.len() <= s.len() && p.is_prefix_of(s.skip(i)),
            None => true,
        },
    decreases s.len(),
{
    if p.is_prefix_of(s) {
        assert(s.skip(0) =~= s);
    } else if s.len() > 0 {
        lemma_first_match(s.skip(1), p);
        if let Some(i) = first_match(s.skip(1), p) {
            assert(s.skip(1).skip(i) =~= s.skip(i + 1));
        }
    }
}

/// Dropping one more character of white space changes nothing of what is left.
proof fn lemma_trim_start_skip(s: Seq<char>, i: int)
    requires
        0 <= i <= s.len(),
        forall|j: int| 0 <= j < i ==> is_space(s[j]),
    ensures
        trim_start(s) == trim_start(s.skip(i)),
    decreases i,
{
    if i > 0 {
        lemma_trim_start_skip(s, i - 1);
        let t = s.skip(i - 1);
        assert(t[0] == s[i - 1]);
        assert(t.skip(1) =~= s.skip(i));
    } else {
        assert(s.skip(0) =~= s);
    }
}

proof fn lemma_trim_end_take(s: Seq<char>, i: int)
    requires
        0 <= i <= s.len(),
        forall|j: int| i <= j < s.len() ==> is_space(s[j]),
    ensures
        trim_end(s) == trim_end(s.take(i)),
    decreases s.len() - i,
{
    if i < s.len() {
        lemma_trim_end_take(s, i + 1);
        let t = s.take(i + 1);
        assert(t.last() == s[i]);
        assert(t.drop_last() =~= s.take(i));
    } else {
        assert(s.take(i) =~= s);
    }
}

/// A text that begins and ends with something else than white space is its own
/// trimmed form.
pub proof fn lemma_trimmed_fixed(s: Seq<char>)
    requires
        s.len() == 0 || (!is_space(s[0]) && !is_space(s.last())),
    ensures
        trimmed(s) == s,
{
}

pub proof fn lemma_trim_start_shape(s: Seq<char>)
    ensures
        trim_start(s).len() <= s.len(),
        trim_start(s) == s.skip(s.len() - trim_start(s).len()),
        trim_start(s).len() > 0 ==> !is_space(trim_start(s)[0]),
    decreases s.len(),
{
    if s.len() > 0 && is_space(s[0]) {
        lemma_trim_start_shape(s.skip(1));
        let t = trim_start(s.skip(1));
        assert(s.skip(1).skip(s.skip(1).len() - t.len()) =~= s.skip(s.len() - t.len()));
    } else {
        assert(s.skip(0) =~= s);
    }
}

pub proof fn lemma_word_length(s: Seq<char>)
    ensures
        0 <= word_length(s) <= s.len(),
        forall|j: int| 0 <= j < word_length(s) ==> !is_space(#[trigger] s[j]),
        word_length(s) < s.len() ==> is_space(s[word_length(s)]),
    decreases s.len(),
{
    if s.len() > 0 && !is_space(s[0]) {
        lemma_word_length(s.skip(1));
        assert forall|j: int| 0 <= j < word_length(s) implies !is_space(#[trigger] s[j]) by {
            if j > 0 {
                assert(s.skip(1)[j - 1] == s[j]);
            }
        }
    }
}

proof fn lemma_word_length_unique(s: Seq<char>, n: int)
    requires
        0 <= n <= s.len(),
        forall|j: int| 0 <= j < n ==> !is_space(#[trigger] s[j]),
        n < s.len() ==> is_space(s[n]),
    ensures
        word_length(s) == n,
{
    lemma_word_length(s);
    let w = word_length(s);
    if w < n {
        assert(!is_space(s[w]));
    } else if n < w {
        assert(!is_space(s[n]));
    }
}

pub proof fn lemma_trim_end_shape(s: Seq<char>)
    ensures
        trim_end(s).len() <= s.len(),
        trim_end(s) == s.take(trim_end(s).len() as int),
        trim_end(s).len() > 0 ==> !is_space(trim_end(s).last()),
    decreases s.len(),
{
    if s.len() > 0 && is_space(s.last()) {
        lemma_trim_end_shape(s.drop_last());
        let t = trim_end(s.drop_last());
        assert(s.drop_last().take(t.len() as int) =~= s.take(t.len() as int));
    } else {
        assert(s.take(s.len() as int) =~= s);
    }
}

/// A trimmed text is a stretch of the text that neither begins nor ends with
/// white space; trimming again changes nothing.
pub proof fn lemma_trimmed(s: Seq<char>)
    ensures
        trimmed(s).len() > 0 ==> !is_space(trimmed(s)[0]) && !is_space(trimmed(s).last()),
        trimmed(trimmed(s)) == trimmed(s),
        forall|c: char| #[trigger] trimmed(s).contains(c) ==> s.contains(c),
{
    let a = trim_start(s);
    lemma_trim_start_shape(s);
    lemma_trim_end_shape(a);
    lemma_trimmed_fixed(trimmed(s));
    assert forall|c: char| #[trigger] trimmed(s).contains(c) implies s.contains(c) by {
        let i = choose|i: int| 0 <= i < trimmed(s).len() && trimmed(s)[i] == c;
        assert(a[i] == c);
        assert(s[i + (s.len() - a.len())] == c);
    }
}

/// White space on either side of a text is trimmed with it.
pub proof fn lemma_trim_around(a: Seq<char>, s: Seq<char>, b: Seq<char>)
    requires
        forall|j: int| 0 <= j < a.len() ==> is_space(#[trigger] a[j]),
        forall|j: int| 0 <= j < b.len() ==> is_space(#[trigger] b[j]),
    ensures
        trimmed(a + s + b) == trimmed(s),
{
    let whole = a + s + b;
    assert forall|j: int| 0 <= j < a.len() implies is_space(whole[j]) by {
        assert(whole[j] == a[j]);
    }
    lemma_trim_start_skip(whole, a.len() as int);
    assert(whole.skip(a.len() as int) =~= s + b);
    lemma_trim_start_shape(s);
    let t = trim_start(s);
    let k = s.len() - t.len();
    lemma_front_is_space(s);
    assert forall|j: int| 0 <= j < k implies is_space((s + b)[j]) by {
        assert((s + b)[j] == s[j]);
    }
    lemma_trim_start_skip(s + b, k);
    assert((s + b).skip(k) =~= t + b);
    if t.len() > 0 {
        assert(trim_start(t + b) == t + b);
        assert forall|j: int| t.len() <= j < (t + b).len() implies is_space((t + b)[j]) by {
            assert((t + b)[j] == b[j - t.len()]);
        }
        lemma_trim_end_take(t + b, t.len() as int);
        assert((t + b).take(t.len() as int) =~= t);
    } else {
        assert(t + b =~= b);
        assert forall|j: int| 0 <= j < b.len() implies is_space(b[j]) by {}
        lemma_trim_start_skip(b, b.len() as int);
        assert(b.skip(b.len() as int) =~= Seq::empty());
        assert(t =~= Seq::empty());
    }
}

/// What is trimmed at the front is white space.
proof fn lemma_front_is_space(s: Seq<char>)
    ensures
        forall|j: int| 0 <= j < s.len() - trim_start(s).len() ==> is_space(#[trigger] s[j]),
    decreases s.len(),
{
    if s.len() > 0 && is_space(s[0]) {
        lemma_front_is_space(s.skip(1));
        assert forall|j: int| 0 <= j < s.len() - trim_start(s).len() implies is_space(
            #[trigger] s[j],
        ) by {
            if j > 0 {
                assert(s.skip(1)[j - 1] == s[j]);
            }
        }
    }
}

pub proof fn lemma_digit_char(d: int)
    requires
        0 <= d < 10,
    ensures
        is_digit(digit_char(d)),
        digit_char(d) as u32 - '0' as u32 == d,
{
}

/// The decimal digits of a number write that number.
pub proof fn lemma_decimal_value(n: int)
    requires
        0 <= n,
    ensures
        decimal(n).len() > 0,
        all_digits(decimal(n)),
        digits_value(decimal(n)) == n,
        number_value(decimal(n)) == Some(n),
    decreases n,
{
    if n < 10 {
        lemma_digit_char(n);
        let d = seq![digit_char(n)];
        assert(decimal(n) =~= d);
        assert(d.drop_last() =~= Seq::<char>::empty());
        assert(digits_value(d.drop_last()) == 0);
    } else {
        lemma_decimal_value(n / 10);
        lemma_digit_char(n % 10);
        let d = decimal(n / 10).push(digit_char(n % 10));
        assert(d.drop_last() =~= decimal(n / 10));
        assert(digits_value(d) == (n / 10) * 10 + n % 10);
    }
    assert(is_digit(decimal(n)[0]));
}

pub proof fn lemma_digits_value_nonneg(s: Seq<char>)
    requires
        all_digits(s),
    ensures
        digits_value(s) >= 0,
    decreases s.len(),
{
    if s.len() > 0 {
        let t = s.drop_last();
        assert forall|i: int| 0 <= i < t.len() implies is_digit(#[trigger] t[i]) by {
            assert(t[i] == s[i]);
        }
        lemma_digits_value_nonneg(t);
        assert(is_digit(s[s.len() - 1]));
    }
}

// ---------------------------------------------------------------------------
// Executable counterparts
// ---------------------------------------------------------------------------

/// Whether `c` is white space.
pub fn is_space_char(c: char) -> (r: bool)
    ensures
        r == is_space(c),
{
    let n: u32 = c as u32;
    (0x09 <= n && n <= 0x0d) || n == 0x20 || n == 0x85 || n == 0xa0 || n == 0x1680
        || (0x2000 <= n && n <= 0x200a) || n == 0x2028 || n == 0x2029 || n == 0x202f
        || n == 0x205f || n == 0x3000
}

/// The characters of `s` as a vector.
pub fn chars_of(s: &str) -> (r: Vec<char>)
    ensures
        r@ == s@,
{
    let mut out: Vec<char> = Vec::new();
    for c in it: s.chars()
        invariant
            out@ == it.seq().subrange(0, it.index@ as int),
    {
        out.push(c);
    }
    out
}

/// Whether two texts are the same.
pub fn same(a: &str, b: &str) -> (r: bool)
    ensures
        r == (a@ == b@),
{
    a.to_owned() == b.to_owned()
}

/// Whether `v` holds the text `s`.
pub fn has_str(v: &Vec<String>, s: &str) -> (r: bool)
    ensures
        r == strs(v@).contains(s@),
{
    for i in 0..v.len()
        invariant
            forall|j: int| 0 <= j < i ==> v@[j]@ != s@,
    {
        if same(v[i].as_str(), s) {
            assert(strs(v@)[i as int] == s@);
            return true;
        }
    }
    assert forall|j: int| 0 <= j < strs(v@).len() implies strs(v@)[j] != s@ by {
        assert(v@[j]@ != s@);
    }
    false
}

/// A copy of a list of strings.
pub fn copy_strs(v: &Vec<String>) -> (r: Vec<String>)
    ensures
        strs(r@) == strs(v@),
{
    let mut out: Vec<String> = Vec::new();
    for i in 0..v.len()
        invariant
            strs(out@) == strs(v@).subrange(0, i as int),
    {
        let ghost before = out@;
        let s: String = v[i].clone();
        out.push(s);
        proof {
            lemma_strs_push(before, s);
            assert(strs(out@) =~= strs(v@).subrange(0, i + 1));
        }
    }
    assert(strs(v@).subrange(0, v@.len() as int) =~= strs(v@));
    out
}

/// `a` followed by `b`.
pub fn cat(a: &str, b: &str) -> (r: String)
    ensures
        r@ == a@ + b@,
{
    let mut s: String = a.to_owned();
    s.append(b);
    s
}

/// `a`, `b` and `c` one after the other.
pub fn cat3(a: &str, b: &str, c: &str) -> (r: String)
    ensures
        r@ == a@ + b@ + c@,
{
    let mut s: String = a.to_owned();
    s.append(b);
    s.append(c);
    s
}

/// Whether `s` begins with `p`.
pub fn starts_with(s: &str, p: &str) -> (r: bool)
    ensures
        r == p@.is_prefix_of(s@),
{
    let n: usize = s.unicode_len();
    let m: usize = p.unicode_len();
    if m > n {
        return false;
    }
    let head: &str = s.substring_char(0, m);
    assert(p@.is_prefix_of(s@) ==> head@ =~= p@);
    same(head, p)
}

/// Whether `s` ends with `p`.
pub fn ends_with(s: &str, p: &str) -> (r: bool)
    ensures
        r == p@.is_suffix_of(s@),
{
    let n: usize = s.unicode_len();
    let m: usize = p.unicode_len();
    if m > n {
        return false;
    }
    let tail: &str = s.substring_char(n - m, n);
    assert(p@.is_suffix_of(s@) ==> tail@ =~= p@);
    same(tail, p)
}

/// The first character of `s`.
pub fn first_char(s: &str) -> (r: Option<char>)
    ensures
        r == (if s@.len() > 0 {
            Some(s@[0])
        } else {
            None::<char>
        }),
{
    if s.unicode_len() == 0 {
        None
    } else {
        Some(s.get_char(0))
    }
}

/// The last character of `s`.
pub fn last_char(s: &str) -> (r: Option<char>)
    ensures
        r == (if s@.len() > 0 {
            Some(s@.last())
        } else {
            None::<char>
        }),
{
    let n: usize = s.unicode_len();
    if n == 0 {
        None
    } else {
        Some(s.get_char(n - 1))
    }
}

/// Whether `s` is empty.
pub fn is_empty(s: &str) -> (r: bool)
    ensures
        r == (s@.len() == 0),
{
    s.unicode_len() == 0
}

/// `s` without white space at either end.
pub fn trim<'a>(s: &'a str) -> (r: &'a str)
    ensures
        r@ == trimmed(s@),
{
    let v: Vec<char> = chars_of(s);
    let mut i: usize = 0;
    while i < v.len() && is_space_char(v[i])
        invariant
            v@ == s@,
            i <= v.len(),
            forall|k: int| 0 <= k < i ==> is_space(v@[k]),
        decreases v.len() - i,
    {
        i = i + 1;
    }
    let mut j: usize = v.len();
    while j > i && is_space_char(v[j - 1])
        invariant
            v@ == s@,
            i <= j <= v.len(),
            forall|k: int| j <= k < v@.len() ==> is_space(v@[k]),
        decreases j,
    {
        j = j - 1;
    }
    proof {
        lemma_trim_start_skip(s@, i as int);
        let a = s@.skip(i as int);
        assert(trim_start(a) == a);
        assert forall|k: int| j - i <= k < a.len() implies is_space(a[k]) by {
            assert(a[k] == v@[k + i]);
        }
        lemma_trim_end_take(a, j - i);
        let b = a.take(j - i);
        assert(b =~= s@.subrange(i as int, j as int));
        if b.len() > 0 {
            assert(b.last() == v@[j - 1]);
        }
        assert(trim_end(b) == b);
    }
    s.substring_char(i, j)
}

/// `s` without the run of `c` at its end.
pub fn trim_end_char<'a>(s: &'a str, c: char) -> (r: &'a str)
    ensures
        r@ == without_trailing(s@, c),
{
    let v: Vec<char> = chars_of(s);
    let mut j: usize = v.len();
    assert(s@.take(j as int) =~= s@);
    while j > 0 && v[j - 1] == c
        invariant
            v@ == s@,
            j <= v.len(),
            without_trailing(s@, c) == without_trailing(s@.take(j as int), c),
        decreases j,
    {
        assert(s@.take(j as int).drop_last() =~= s@.take(j - 1));
        j = j - 1;
    }
    assert(s@.take(j as int) =~= s@.subrange(0, j as int));
    s.substring_char(0, j)
}

/// `s` without the run of `p` at its end.
pub fn trim_end_str<'a>(s: &'a str, p: &str) -> (r: &'a str)
    ensures
        r@ == without_suffixes(s@, p@),
{
    let m: usize = p.unicode_len();
    let mut n: usize = s.unicode_len();
    assert(s@.take(n as int) =~= s@);
    while n >= m && m > 0
        invariant
            m == p@.len(),
            n <= s@.len(),
            without_suffixes(s@, p@) == without_suffixes(s@.take(n as int), p@),
        ensures
            without_suffixes(s@, p@) == s@.take(n as int),
        decreases n,
    {
        let head: &str = s.substring_char(0, n);
        assert(head@ =~= s@.take(n as int));
        if !ends_with(head, p) {
            break;
        }
        assert(head@.take(n - m) =~= s@.take(n - m));
        n = n - m;
    }
    assert(s@.take(n as int) =~= s@.subrange(0, n as int));
    s.substring_char(0, n)
}

/// Whether `a` comes before `b` or is the same text.
pub fn comes_first(a: &str, b: &str) -> (r: bool)
    ensures
        r == text_le(a@, b@),
{
    let x: Vec<char> = chars_of(a);
    let y: Vec<char> = chars_of(b);
    let mut i: usize = 0;
    assert(a@.skip(0) =~= a@ && b@.skip(0) =~= b@);
    loop
        invariant
            x@ == a@,
            y@ == b@,
            i <= x@.len(),
            i <= y@.len(),
            text_le(a@, b@) == text_le(a@.skip(i as int), b@.skip(i as int)),
        decreases x@.len() - i,
    {
        if i == x.len() {
            return true;
        }
        if i == y.len() {
            return false;
        }
        assert(a@.skip(i as int)[0] == x@[i as int]);
        assert(b@.skip(i as int)[0] == y@[i as int]);
        if x[i] != y[i] {
            return x[i] < y[i];
        }
        assert(a@.skip(i as int).skip(1) =~= a@.skip(i + 1));
        assert(b@.skip(i as int).skip(1) =~= b@.skip(i + 1));
        i = i + 1;
    }
}

/// The texts in order.
pub fn sort_strings(v: &Vec<String>) -> (r: Vec<String>)
    ensures
        in_order(strs(r@)),
        strs(r@).to_multiset() == strs(v@).to_multiset(),
{
    let mut out: Vec<String> = Vec::new();
    let ghost all = strs(v@);
    assert(strs(out@) =~= all.take(0));
    for i in 0..v.len()
        invariant
            all == strs(v@),
            in_order(strs(out@)),
            strs(out@).to_multiset() == all.take(i as int).to_multiset(),
    {
        let x: String = v[i].clone();
        let ghost before = strs(out@);
        let mut k: usize = 0;
        while k < out.len() && comes_first(out[k].as_str(), x.as_str())
            invariant
                k <= out@.len(),
                before == strs(out@),
                forall|j: int| 0 <= j < k ==> text_le(#[trigger] before[j], x@),
            decreases out@.len() - k,
        {
            assert(before[k as int] == out@[k as int]@);
            k = k + 1;
        }
        let ghost old_out = out@;
        proof {
            if k < out@.len() {
                assert(before[k as int] == out@[k as int]@);
                lemma_text_le_total(before[k as int], x@);
                assert forall|j: int| k <= j < before.len() implies text_le(
                    x@,
                    #[trigger] before[j],
                ) by {
                    if j > k {
                        assert(text_le(before[k as int], before[j]));
                        lemma_text_le_trans(x@, before[k as int], before[j]);
                    }
                }
            }
        }
        out.insert(k, x);
        proof {
            let after = strs(out@);
            assert(after =~= before.insert(k as int, x@));
            assert forall|a: int, b: int| 0 <= a < b < after.len() implies text_le(
                #[trigger] after[a],
                #[trigger] after[b],
            ) by {
                let pa = if a < k {
                    a
                } else {
                    a - 1
                };
                let pb = if b < k {
                    b
                } else {
                    b - 1
                };
                if a != k && b != k {
                    assert(after[a] == before[pa] && after[b] == before[pb]);
                } else if a == k {
                    assert(after[b] == before[pb]);
                } else {
                    assert(after[a] == before[pa]);
                }
            }
            vstd::seq_lib::to_multiset_insert(before, k as int, x@);
            assert(all.take(i + 1) =~= all.take(i as int).push(x@));
            vstd::seq_lib::to_multiset_build(all.take(i as int), x@);
        }
    }
    assert(all.take(all.len() as int) =~= all);
    out
}

/// Where `c` first stands in `s`; the number of characters where it does not occur.
pub fn find_char(s: &str, c: char) -> (r: usize)
    ensures
        r == first_index(s@, c),
        r <= s@.len(),
{
    let v: Vec<char> = chars_of(s);
    let mut i: usize = 0;
    while i < v.len() && v[i] != c
        invariant
            v@ == s@,
            i <= v.len(),
            forall|k: int| 0 <= k < i ==> v@[k] != c,
        decreases v.len() - i,
    {
        i = i + 1;
    }
    proof {
        lemma_first_index_unique(s@, c, i as int);
    }
    i
}

/// Where `c` last stands in `s`.
pub fn rfind_char(s: &str, c: char) -> (r: Option<usize>)
    ensures
        match r {
            Some(i) => i == last_index(s@, c) && i < s@.len(),
            None => last_index(s@, c) == -1,
        },
{
    let v: Vec<char> = chars_of(s);
    let mut i: usize = v.len();
    while i > 0 && v[i - 1] != c
        invariant
            v@ == s@,
            i <= v.len(),
            forall|k: int| i <= k < v@.len() ==> v@[k] != c,
        decreases i,
    {
        i = i - 1;
    }
    proof {
        lemma_last_index_unique(s@, c, i - 1);
    }
    if i == 0 {
        None
    } else {
        Some(i - 1)
    }
}

/// What follows the last `c` of `s`: all of `s` where there is none.
pub fn tail_after<'a>(s: &'a str, c: char) -> (r: &'a str)
    ensures
        r@ == after_last(s@, c),
{
    let n: usize = s.unicode_len();
    let from: usize = match rfind_char(s, c) {
        Some(i) => i + 1,
        None => 0,
    };
    assert(s@.skip(from as int) =~= s@.subrange(from as int, n as int));
    s.substring_char(from, n)
}

/// `s` cut at each `c`.
pub fn split_char(s: &str, c: char) -> (r: Vec<String>)
    ensures
        strs(r@) == split(s@, c),
{
    let n: usize = s.unicode_len();
    let mut out: Vec<String> = Vec::new();
    let mut from: usize = 0;
    assert(s@.skip(0) =~= s@);
    assert(strs(out@) + split(s@.skip(0), c) =~= split(s@, c));
    loop
        invariant_except_break
            strs(out@) + split(s@.skip(from as int), c) == split(s@, c),
        invariant
            n == s@.len(),
            from <= n,
        ensures
            strs(out@) == split(s@, c),
        decreases n - from,
    {
        let rest: &str = s.substring_char(from, n);
        assert(rest@ =~= s@.skip(from as int));
        let i: usize = find_char(rest, c);
        let ghost before = out@;
        if i >= n - from {
            let piece: String = rest.to_owned();
            out.push(piece);
            proof {
                lemma_strs_push(before, piece);
                assert(strs(before) + seq![rest@] =~= strs(out@));
            }
            break;
        }
        let piece: String = rest.substring_char(0, i).to_owned();
        assert(piece@ =~= rest@.take(i as int));
        out.push(piece);
        proof {
            lemma_strs_push(before, piece);
            let more = split(s@.skip(from + i + 1), c);
            assert(rest@.skip(i + 1) =~= s@.skip(from + i + 1));
            assert(strs(before) + (seq![piece@] + more) =~= strs(out@) + more);
        }
        from = from + i + 1;
    }
    out
}

/// Where `p` first stands in `s`.
pub fn find_str(s: &str, p: &str) -> (r: Option<usize>)
    ensures
        match r {
            Some(i) => first_match(s@, p@) == Some(i as int) && i + p@.len() <= s@.len(),
            None => first_match(s@, p@) is None,
        },
{
    let n: usize = s.unicode_len();
    let mut i: usize = 0;
    assert(s@.skip(0) =~= s@);
    loop
        invariant
            n == s@.len(),
            i <= n,
            match first_match(s@.skip(i as int), p@) {
                Some(k) => first_match(s@, p@) == Some(i + k),
                None => first_match(s@, p@) is None,
            },
        decreases n - i,
    {
        let rest: &str = s.substring_char(i, n);
        assert(rest@ =~= s@.skip(i as int));
        if starts_with(rest, p) {
            proof {
                lemma_first_match(s@, p@);
            }
            return Some(i);
        }
        if i == n {
            return None;
        }
        assert(s@.skip(i as int).skip(1) =~= s@.skip(i + 1));
        i = i + 1;
    }
}

/// The lines of a text.
pub fn split_lines(s: &str) -> (r: Vec<String>)
    ensures
        strs(r@) == lines(s@),
{
    let n: usize = s.unicode_len();
    let mut out: Vec<String> = Vec::new();
    let mut from: usize = 0;
    assert(s@.skip(0) =~= s@);
    assert(strs(out@) + lines(s@.skip(0)) =~= lines(s@));
    while from < n
        invariant
            n == s@.len(),
            from <= n,
            strs(out@) + lines(s@.skip(from as int)) == lines(s@),
        decreases n - from,
    {
        let rest: &str = s.substring_char(from, n);
        assert(rest@ =~= s@.skip(from as int));
        let i: usize = find_char(rest, '\n');
        let ghost before = out@;
        if i >= n - from {
            let line: String = rest.to_owned();
            out.push(line);
            proof {
                lemma_strs_push(before, line);
                assert(s@.skip(n as int).len() == 0);
                assert(strs(before) + seq![rest@] =~= strs(out@) + lines(s@.skip(n as int)));
            }
            from = n;
        } else {
            let end: usize = if i > 0 && rest.get_char(i - 1) == '\r' {
                i - 1
            } else {
                i
            };
            let line: String = rest.substring_char(0, end).to_owned();
            assert(line@ =~= without_cr(rest@.take(i as int)));
            out.push(line);
            proof {
                lemma_strs_push(before, line);
                let more = lines(s@.skip(from + i + 1));
                assert(rest@.skip(i + 1) =~= s@.skip(from + i + 1));
                assert(strs(before) + (seq![line@] + more) =~= strs(out@) + more);
            }
            from = from + i + 1;
        }
    }
    assert(s@.skip(n as int).len() == 0);
    assert(strs(out@) + lines(s@.skip(n as int)) =~= strs(out@));
    out
}

/// `s` with spaces added on the right up to `width` characters.
pub fn pad_right(s: &str, width: usize) -> (r: String)
    ensures
        r@ == padded(s@, width as nat),
{
    let n: usize = s.unicode_len();
    let mut out: String = s.to_owned();
    let mut k: usize = n;
    assert(out@ =~= s@ + Seq::new(0, |i: int| ' '));
    while k < width
        invariant
            n == s@.len(),
            n <= k,
            k <= width || k == n,
            out@ == s@ + Seq::new((k - n) as nat, |i: int| ' '),
        decreases width - k,
    {
        out.push(' ');
        k = k + 1;
        assert(out@ =~= s@ + Seq::new((k - n) as nat, |i: int| ' '));
    }
    assert(s@ + Seq::new(0, |i: int| ' ') =~= s@);
    out
}

/// The stretches of `s` between white space.
pub fn split_words(s: &str) -> (r: Vec<String>)
    ensures
        strs(r@) == words(s@),
{
    let v: Vec<char> = chars_of(s);
    let n: usize = v.len();
    let mut out: Vec<String> = Vec::new();
    let mut i: usize = 0;
    assert(s@.skip(0) =~= s@);
    assert(strs(out@) + words(s@.skip(0)) =~= words(s@));
    loop
        invariant_except_break
            strs(out@) + words(s@.skip(i as int)) == words(s@),
        invariant
            v@ == s@,
            n == v@.len(),
            i <= n,
        ensures
            strs(out@) == words(s@),
        decreases n - i,
    {
        let from: usize = i;
        let ghost rest = s@.skip(from as int);
        while i < n && is_space_char(v[i])
            invariant
                v@ == s@,
                n == v@.len(),
                from <= i <= n,
                forall|k: int| from <= k < i ==> is_space(#[trigger] s@[k]),
            decreases n - i,
        {
            i = i + 1;
        }
        proof {
            lemma_trim_start_skip(rest, i - from);
            assert(rest.skip(i - from) =~= s@.skip(i as int));
        }
        let ghost t = s@.skip(i as int);
        assert(trim_start(t) == t) by {
            if i < n {
                assert(t[0] == s@[i as int]);
            }
        }
        if i == n {
            assert(words(rest) =~= Seq::empty());
            assert(strs(out@) + words(rest) =~= strs(out@));
            break;
        }
        let start: usize = i;
        while i < n && !is_space_char(v[i])
            invariant
                v@ == s@,
                n == v@.len(),
                start <= i <= n,
                forall|k: int| start <= k < i ==> !is_space(#[trigger] s@[k]),
            decreases n - i,
        {
            i = i + 1;
        }
        let word: String = s.substring_char(start, i).to_owned();
        let ghost before = out@;
        proof {
            assert forall|k: int| 0 <= k < i - start implies !is_space(#[trigger] t[k]) by {
                assert(t[k] == s@[start + k]);
            }
            lemma_word_length_unique(t, i - start);
            assert(word@ =~= t.take(i - start));
            assert(t.skip(i - start) =~= s@.skip(i as int));
            lemma_strs_push(before, word);
            assert(words(rest) == seq![word@] + words(s@.skip(i as int)));
            assert(strs(before) + (seq![word@] + words(s@.skip(i as int))) =~= strs(before).push(
                word@,
            ) + words(s@.skip(i as int)));
            assert(i > start) by {
                assert(t[0] == s@[start as int]);
            }
        }
        out.push(word);
    }
    out
}

/// The unsigned number that `s` writes, where it fits 32 bits.
pub fn parse_u32(s: &str) -> (r: Option<u32>)
    ensures
        match r {
            Some(n) => number_value(s@) == Some(n as int),
            None => number_value(s@) is None || number_value(s@)->0 > u32::MAX,
        },
{
    match parse_usize(s) {
        Some(n) => if n <= u32::MAX as usize {
            Some(n as u32)
        } else {
            None
        },
        None => None,
    }
}

/// The unsigned number that `s` writes, where it fits the machine word.
pub fn parse_usize(s: &str) -> (r: Option<usize>)
    ensures
        match r {
            Some(n) => number_value(s@) == Some(n as int),
            None => number_value(s@) is None || number_value(s@)->0 > usize::MAX,
        },
{
    let n: usize = s.unicode_len();
    let from: usize = if n > 0 && s.get_char(0) == '+' {
        1
    } else {
        0
    };
    let ghost d = s@.skip(from as int);
    assert(from == 0 ==> d =~= s@);
    if from >= n {
        return None;
    }
    let v: Vec<char> = chars_of(s);
    let mut val: usize = 0;
    let mut fits: bool = true;
    let mut i: usize = from;
    assert(d.take(0) =~= Seq::<char>::empty());
    while i < n
        invariant
            n == s@.len(),
            v@ == s@,
            from <= i <= n,
            d == s@.skip(from as int),
            from == 0 ==> d == s@,
            from == 1 ==> s@.len() > 0 && s@[0] == '+',
            from == 0 ==> s@[0] != '+',
            from <= 1,
            all_digits(d.take(i - from)),
            fits ==> digits_value(d.take(i - from)) == val,
            !fits ==> digits_value(d.take(i - from)) > usize::MAX,
        decreases n - i,
    {
        let c: char = v[i];
        assert(d[i - from] == c);
        if !('0' <= c && c <= '9') {
            proof {
                let body = if s@.len() > 0 && s@[0] == '+' {
                    s@.skip(1)
                } else {
                    s@
                };
                assert(body == d);
                assert(!is_digit(body[i - from]));
                assert(!all_digits(body));
            }
            return None;
        }
        let digit: usize = (c as u32 - '0' as u32) as usize;
        proof {
            let t = d.take(i - from + 1);
            assert(t.drop_last() =~= d.take(i - from));
            assert(t.last() == c);
            assert forall|k: int| 0 <= k < t.len() implies is_digit(#[trigger] t[k]) by {
                if k < i - from {
                    assert(t[k] == d.take(i - from)[k]);
                }
            }
        }
        if fits {
            if val > (usize::MAX - digit) / 10 {
                fits = false;
            } else {
                val = val * 10 + digit;
            }
        }
        i = i + 1;
    }
    assert(d.take(n - from) =~= d);
    if fits {
        Some(val)
    } else {
        None
    }
}

/// The decimal digits of `n`.
pub fn decimal_of(n: usize) -> (r: String)
    ensures
        r@ == decimal(n as int),
    decreases n,
{
    let d: u32 = (n % 10) as u32;
    let c: char = ((('0' as u32) + d) as u8) as char;
    assert(c == digit_char(n as int % 10));
    if n < 10 {
        let mut s: String = String::new();
        s.push(c);
        assert(s@ =~= seq![c]);
        s
    } else {
        let mut s: String = decimal_of(n / 10);
        s.push(c);
        s
    }
}

/// The decimal digits of `n`.
fn decimal_of_u64(n: u64) -> (r: String)
    ensures
        r@ == decimal(n as int),
    decreases n,
{
    let d: u32 = (n % 10) as u32;
    let c: char = ((('0' as u32) + d) as u8) as char;
    assert(c == digit_char(n as int % 10));
    if n < 10 {
        let mut s: String = String::new();
        s.push(c);
        assert(s@ =~= seq![c]);
        s
    } else {
        let mut s: String = decimal_of_u64(n / 10);
        s.push(c);
        s
    }
}

/// The decimal digits of `n`, behind a minus sign where it is negative.
pub fn signed_of(n: i64) -> (r: String)
    ensures
        r@ == signed(n as int),
{
    if n < 0 {
        let m: u64 = (-(n + 1)) as u64 + 1;
        cat("-", decimal_of_u64(m).as_str())
    } else {
        decimal_of_u64(n as u64)
    }
}

/// `s` with spaces added on the left up to `width` characters.
pub fn pad_left(s: &str, width: usize) -> (r: String)
    ensures
        r@ == padded_left(s@, width as nat),
{
    let n: usize = s.unicode_len();
    let mut out: String = String::new();
    let mut k: usize = n;
    assert(out@ =~= Seq::new(0, |i: int| ' '));
    while k < width
        invariant
            n == s@.len(),
            n <= k,
            k <= width || k == n,
            out@ == Seq::new((k - n) as nat, |i: int| ' '),
        decreases width - k,
    {
        out.push(' ');
        k = k + 1;
        assert(out@ =~= Seq::new((k - n) as nat, |i: int| ' '));
    }
    out.append(s);
    assert(Seq::new(0, |i: int| ' ') + s@ =~= s@);
    out
}

} // verus!
