//! Character-level text operations.
//!
//! Every operation is specified over `Seq<char>`, the view of `str` and
//! `String`. The executable versions work on a `Vec<char>` copy of the text so
//! that positions are character positions, never byte offsets.

use vstd::prelude::*;

verus! {

/// Whether `c` is white space in the Unicode sense (the code points that carry
/// the `White_Space` property).
pub open spec fn is_whitespace(c: char) -> bool {
    let n = c as u32;
    ||| 0x09 <= n <= 0x0D
    ||| n == 0x20
    ||| n == 0x85
    ||| n == 0xA0
    ||| n == 0x1680
    ||| 0x2000 <= n <= 0x200A
    ||| n == 0x2028
    ||| n == 0x2029
    ||| n == 0x202F
    ||| n == 0x205F
    ||| n == 0x3000
}

/// Decides [`is_whitespace`].
pub fn char_is_whitespace(c: char) -> (b: bool)
    ensures
        b == is_whitespace(c),
{
    let n: u32 = c as u32;
    (0x09 <= n && n <= 0x0D) || n == 0x20 || n == 0x85 || n == 0xA0 || n == 0x1680 || (0x2000 <= n
        && n <= 0x200A) || n == 0x2028 || n == 0x2029 || n == 0x202F || n == 0x205F || n == 0x3000
}

/// The lowercase form of a text, as `str::to_lowercase` computes it. Unicode
/// case mapping is context dependent and table driven, so the mapping is left
/// uninterpreted: contracts speak of it by this name only.
pub uninterp spec fn lowercase_of(s: Seq<char>) -> Seq<char>;

/// Calls `str::to_lowercase`. Trusted: the result is the lowercase form of the
/// argument, a function of the argument's characters alone.
#[verifier::external_body]
pub(crate) fn to_lowercase(s: &str) -> (r: String)
    ensures
        r@ == lowercase_of(s@),
{
    s.to_lowercase()
}

/// Calls `String::push`. Trusted: the character is appended at the end.
#[verifier::external_body]
pub(crate) fn push_char(s: &mut String, c: char)
    ensures
        final(s)@ == old(s)@.push(c),
{
    s.push(c)
}

/// The characters of `s`, in order.
pub fn to_chars(s: &str) -> (v: Vec<char>)
    ensures
        v@ == s@,
{
    let mut v: Vec<char> = Vec::new();
    for c in it: s.chars()
        invariant
            v@ == it.seq().take(it.index() as int),
            it.seq() == s@,
    {
        v.push(c);
    }
    v
}

/// The text made of the characters `cs[from..to]`.
pub fn string_of(cs: &Vec<char>, from: usize, to: usize) -> (s: String)
    requires
        from <= to <= cs.len(),
    ensures
        s@ == cs@.subrange(from as int, to as int),
{
    let mut s = String::new();
    let mut i: usize = from;
    while i < to
        invariant
            from <= i <= to <= cs.len(),
            s@ == cs@.subrange(from as int, i as int),
        decreases to - i,
    {
        push_char(&mut s, cs[i]);
        i += 1;
    }
    s
}

/// Whether `pat` occurs in `cs` at position `from`.
pub fn starts_with_at(cs: &Vec<char>, from: usize, pat: &Vec<char>) -> (b: bool)
    requires
        from <= cs.len(),
    ensures
        b == pat@.is_prefix_of(cs@.skip(from as int)),
{
    if pat.len() > cs.len() - from {
        return false;
    }
    let ghost rest = cs@.skip(from as int);
    let mut k: usize = 0;
    while k < pat.len()
        invariant
            from <= cs.len(),
            pat.len() <= cs.len() - from,
            k <= pat.len(),
            rest == cs@.skip(from as int),
            forall|j: int| 0 <= j < k ==> pat@[j] == rest[j],
        decreases pat.len() - k,
    {
        if pat[k] != cs[from + k] {
            proof {
                assert(rest[k as int] == cs@[from + k]);
                assert(rest.subrange(0, pat@.len() as int)[k as int] == rest[k as int]);
            }
            return false;
        }
        assert(rest[k as int] == cs@[from + k]);
        k += 1;
    }
    assert(pat@ =~= rest.subrange(0, pat@.len() as int));
    true
}

/// The number of characters at the start of `s` before the first white space.
pub open spec fn word_len(s: Seq<char>) -> nat
    decreases s.len(),
{
    if s.len() == 0 || is_whitespace(s[0]) {
        0
    } else {
        1 + word_len(s.skip(1))
    }
}

/// The leading word of `s` lies within `s`, holds no white space and ends at
/// white space or at the end of `s`.
pub proof fn lemma_word_len(s: Seq<char>)
    ensures
        word_len(s) <= s.len(),
        forall|i: int| 0 <= i < word_len(s) ==> !is_whitespace(#[trigger] s[i]),
        word_len(s) < s.len() ==> is_whitespace(s[word_len(s) as int]),
    decreases s.len(),
{
    if s.len() == 0 || is_whitespace(s[0]) {
    } else {
        let t = s.skip(1);
        lemma_word_len(t);
        assert forall|i: int| 0 <= i < word_len(s) implies !is_whitespace(#[trigger] s[i]) by {
            if i > 0 {
                assert(s[i] == t[i - 1]);
            }
        }
        if word_len(s) < s.len() {
            assert(s[word_len(s) as int] == t[word_len(t) as int]);
        }
    }
}

/// The words of `s`: its maximal runs of characters that are not white space,
/// in order. What `str::split_whitespace` yields.
pub open spec fn split_whitespace(s: Seq<char>) -> Seq<Seq<char>>
    decreases s.len(),
{
    if s.len() == 0 {
        Seq::empty()
    } else if is_whitespace(s[0]) {
        split_whitespace(s.skip(1))
    } else {
        proof {
            lemma_word_len(s);
        }
        seq![s.take(word_len(s) as int)] + split_whitespace(s.skip(word_len(s) as int))
    }
}

/// A word: a non-empty text without white space.
pub open spec fn is_word(w: Seq<char>) -> bool {
    &&& w.len() > 0
    &&& forall|i: int| 0 <= i < w.len() ==> !is_whitespace(#[trigger] w[i])
}

/// Every item of [`split_whitespace`] is a word.
pub proof fn lemma_words_are_solid(s: Seq<char>)
    ensures
        forall|k: int|
            0 <= k < split_whitespace(s).len() ==> is_word(#[trigger] split_whitespace(s)[k]),
    decreases s.len(),
{
    if s.len() == 0 {
        assert(split_whitespace(s).len() == 0);
    } else if is_whitespace(s[0]) {
        lemma_words_are_solid(s.skip(1));
        assert(split_whitespace(s) == split_whitespace(s.skip(1)));
    } else {
        lemma_word_len(s);
        let n = word_len(s) as int;
        let rest = split_whitespace(s.skip(n));
        lemma_words_are_solid(s.skip(n));
        assert(split_whitespace(s) == seq![s.take(n)] + rest);
        assert forall|k: int| 0 <= k < split_whitespace(s).len() implies is_word(
            #[trigger] split_whitespace(s)[k],
        ) by {
            if k == 0 {
                assert(split_whitespace(s)[0] == s.take(n));
                assert forall|i: int| 0 <= i < s.take(n).len() implies !is_whitespace(
                    #[trigger] s.take(n)[i],
                ) by {
                    assert(s.take(n)[i] == s[i]);
                }
            } else {
                assert(split_whitespace(s)[k] == rest[k - 1]);
            }
        }
    }
}

/// A text of white space only has no words.
pub proof fn lemma_blank_has_no_words(s: Seq<char>)
    requires
        forall|i: int| 0 <= i < s.len() ==> is_whitespace(#[trigger] s[i]),
    ensures
        split_whitespace(s).len() == 0,
    decreases s.len(),
{
    if s.len() > 0 {
        assert forall|i: int| 0 <= i < s.skip(1).len() implies is_whitespace(
            #[trigger] s.skip(1)[i],
        ) by {
            assert(s.skip(1)[i] == s[i + 1]);
        }
        lemma_blank_has_no_words(s.skip(1));
    }
}

/// The position just past the word that starts at `start`.
pub fn word_end(cs: &Vec<char>, start: usize) -> (end: usize)
    requires
        start <= cs.len(),
    ensures
        start <= end <= cs.len(),
        end == start + word_len(cs@.skip(start as int)),
{
    let mut j: usize = start;
    while j < cs.len() && !char_is_whitespace(cs[j])
        invariant
            start <= j <= cs.len(),
            word_len(cs@.skip(start as int)) == (j - start) + word_len(cs@.skip(j as int)),
        decreases cs.len() - j,
    {
        assert(cs@.skip(j as int)[0] == cs@[j as int]);
        assert(cs@.skip(j as int).skip(1) =~= cs@.skip(j + 1));
        j += 1;
    }
    proof {
        if j < cs.len() {
            assert(cs@.skip(j as int)[0] == cs@[j as int]);
        }
    }
    j
}

/// The words that spans of positions cut out of `s`.
pub open spec fn spans_text(s: Seq<char>, spans: Seq<(usize, usize)>) -> Seq<Seq<char>> {
    Seq::new(spans.len(), |k: int| s.subrange(spans[k].0 as int, spans[k].1 as int))
}

/// Where the words of `cs[from..]` lie: one span of positions `(start, end)`
/// for each word, in order.
pub fn word_spans(cs: &Vec<char>, from: usize) -> (spans: Vec<(usize, usize)>)
    requires
        from <= cs.len(),
    ensures
        spans_text(cs@, spans@) == split_whitespace(cs@.skip(from as int)),
        forall|k: int|
            0 <= k < spans@.len() ==> from <= (#[trigger] spans@[k]).0 < spans@[k].1 <= cs.len(),
{
    let mut spans: Vec<(usize, usize)> = Vec::new();
    let mut i: usize = from;
    let ghost all = split_whitespace(cs@.skip(from as int));
    assert(spans_text(cs@, spans@) =~= Seq::<Seq<char>>::empty());
    assert(Seq::<Seq<char>>::empty() + all =~= all);
    while i < cs.len()
        invariant
            from <= i <= cs.len(),
            all == split_whitespace(cs@.skip(from as int)),
            all == spans_text(cs@, spans@) + split_whitespace(cs@.skip(i as int)),
            forall|k: int|
                0 <= k < spans@.len() ==> from <= (#[trigger] spans@[k]).0 < spans@[k].1
                    <= cs.len(),
        decreases cs.len() - i,
    {
        let ghost tail = cs@.skip(i as int);
        assert(tail[0] == cs@[i as int]);
        if char_is_whitespace(cs[i]) {
            assert(tail.skip(1) =~= cs@.skip(i + 1));
            i += 1;
        } else {
            let end = word_end(cs, i);
            proof {
                lemma_word_len(tail);
                let n = word_len(tail) as int;
                assert(tail.take(n) =~= cs@.subrange(i as int, end as int));
                assert(tail.skip(n) =~= cs@.skip(end as int));
                let before = spans_text(cs@, spans@);
                let after = spans_text(cs@, spans@.push((i, end)));
                assert(after =~= before.push(cs@.subrange(i as int, end as int)));
                assert(before + (seq![tail.take(n)] + split_whitespace(tail.skip(n))) =~= after
                    + split_whitespace(cs@.skip(end as int)));
            }
            spans.push((i, end));
            i = end;
        }
    }
    assert(cs@.skip(i as int).len() == 0);
    assert(spans_text(cs@, spans@) + Seq::<Seq<char>>::empty() =~= spans_text(cs@, spans@));
    spans
}

/// The character of the decimal digit `d`.
pub open spec fn digit_char(d: nat) -> char {
    if d == 0 {
        '0'
    } else if d == 1 {
        '1'
    } else if d == 2 {
        '2'
    } else if d == 3 {
        '3'
    } else if d == 4 {
        '4'
    } else if d == 5 {
        '5'
    } else if d == 6 {
        '6'
    } else if d == 7 {
        '7'
    } else if d == 8 {
        '8'
    } else {
        '9'
    }
}

/// The decimal numeral of `n`, without leading zeros.
pub open spec fn decimal(n: nat) -> Seq<char>
    decreases n,
{
    if n < 10 {
        seq![digit_char(n)]
    } else {
        decimal(n / 10).push(digit_char(n % 10))
    }
}

/// The decimal numeral of an integer: a minus sign before the numeral of the
/// magnitude where it is negative.
pub open spec fn signed_decimal(n: int) -> Seq<char> {
    if n < 0 {
        seq!['-'] + decimal((-n) as nat)
    } else {
        decimal(n as nat)
    }
}

/// Decides [`digit_char`].
fn digit(d: u8) -> (c: char)
    requires
        d < 10,
    ensures
        c == digit_char(d as nat),
{
    if d == 0 {
        '0'
    } else if d == 1 {
        '1'
    } else if d == 2 {
        '2'
    } else if d == 3 {
        '3'
    } else if d == 4 {
        '4'
    } else if d == 5 {
        '5'
    } else if d == 6 {
        '6'
    } else if d == 7 {
        '7'
    } else if d == 8 {
        '8'
    } else {
        '9'
    }
}

/// Appends the decimal numeral of `n` to `s`.
pub fn push_decimal(s: &mut String, n: u128)
    ensures
        final(s)@ == old(s)@ + decimal(n as nat),
{
    let mut digits: Vec<char> = Vec::new();
    let mut m: u128 = n;
    let ghost mut tail: Seq<char> = Seq::empty();
    assert(decimal(m as nat) + tail =~= decimal(n as nat));
    while m >= 10
        invariant
            decimal(n as nat) == decimal(m as nat) + tail,
            digits@.len() == tail.len(),
            forall|i: int| 0 <= i < tail.len() ==> digits@[i] == tail[tail.len() - 1 - i],
        decreases m,
    {
        let c = digit((m % 10) as u8);
        proof {
            let longer = seq![c] + tail;
            assert(decimal(m as nat) == decimal((m / 10) as nat).push(c));
            assert(decimal((m / 10) as nat).push(c) + tail =~= decimal((m / 10) as nat) + longer);
            tail = longer;
        }
        digits.push(c);
        m = m / 10;
    }
    let c = digit(m as u8);
    proof {
        let longer = seq![c] + tail;
        assert(decimal(m as nat) + tail =~= longer);
        tail = longer;
    }
    digits.push(c);
    let mut i: usize = digits.len();
    while i > 0
        invariant
            i <= digits.len(),
            digits@.len() == tail.len(),
            forall|k: int| 0 <= k < tail.len() ==> digits@[k] == tail[tail.len() - 1 - k],
            s@ == old(s)@ + tail.take(tail.len() - i),
        decreases i,
    {
        i -= 1;
        push_char(s, digits[i]);
        assert(s@ =~= old(s)@ + tail.take(tail.len() - i));
    }
    assert(tail.take(tail.len() as int) =~= tail);
}

/// The decimal numeral of `n`.
pub fn decimal_string(n: u128) -> (s: String)
    ensures
        s@ == decimal(n as nat),
{
    let mut s = String::new();
    push_decimal(&mut s, n);
    assert(Seq::<char>::empty() + decimal(n as nat) =~= decimal(n as nat));
    s
}

/// The decimal numeral of `n`, with a minus sign where it is negative.
pub fn signed_decimal_string(n: i128) -> (s: String)
    ensures
        s@ == signed_decimal(n as int),
{
    let mut s = String::new();
    if n < 0 {
        let magnitude: u128 = if n == i128::MIN {
            0x8000_0000_0000_0000_0000_0000_0000_0000u128
        } else {
            (-n) as u128
        };
        push_char(&mut s, '-');
        push_decimal(&mut s, magnitude);
        assert(Seq::<char>::empty().push('-') =~= seq!['-']);
    } else {
        push_decimal(&mut s, n as u128);
        assert(Seq::<char>::empty() + decimal(n as nat) =~= decimal(n as nat));
    }
    s
}

/// `s` without its leading white space.
pub open spec fn trim_start(s: Seq<char>) -> Seq<char>
    decreases s.len(),
{
    if s.len() > 0 && is_whitespace(s[0]) {
        trim_start(s.skip(1))
    } else {
        s
    }
}

/// `s` without its trailing white space.
pub open spec fn trim_end(s: Seq<char>) -> Seq<char>
    decreases s.len(),
{
    if s.len() > 0 && is_whitespace(s.last()) {
        trim_end(s.drop_last())
    } else {
        s
    }
}

/// `s` without its leading and trailing white space.
pub open spec fn trim(s: Seq<char>) -> Seq<char> {
    trim_end(trim_start(s))
}

/// The trimmed form of `s`: see [`trim`].
pub fn trimmed(s: &str) -> (r: String)
    ensures
        r@ == trim(s@),
{
    let cs = to_chars(s);
    let mut from: usize = 0;
    assert(cs@.skip(0) =~= cs@);
    while from < cs.len() && char_is_whitespace(cs[from])
        invariant
            from <= cs.len(),
            trim_start(cs@) == trim_start(cs@.skip(from as int)),
        decreases cs.len() - from,
    {
        assert(cs@.skip(from as int)[0] == cs@[from as int]);
        assert(cs@.skip(from as int).skip(1) =~= cs@.skip(from + 1));
        from += 1;
    }
    proof {
        if from < cs.len() {
            assert(cs@.skip(from as int)[0] == cs@[from as int]);
        }
        assert(trim_start(cs@) == cs@.skip(from as int));
    }
    let mut to: usize = cs.len();
    assert(cs@.subrange(from as int, to as int) =~= cs@.skip(from as int));
    while to > from && char_is_whitespace(cs[to - 1])
        invariant
            from <= to <= cs.len(),
            trim(cs@) == trim_end(cs@.subrange(from as int, to as int)),
        decreases to,
    {
        assert(cs@.subrange(from as int, to as int).last() == cs@[to - 1]);
        assert(cs@.subrange(from as int, to as int).drop_last() =~= cs@.subrange(
            from as int,
            to - 1,
        ));
        to -= 1;
    }
    proof {
        if to > from {
            assert(cs@.subrange(from as int, to as int).last() == cs@[to - 1]);
        }
    }
    string_of(&cs, from, to)
}

/// `s` cut to at most `max_chars` characters, with an ellipsis of three dots
/// where something was cut off.
pub open spec fn truncated(s: Seq<char>, max_chars: nat) -> Seq<char> {
    if s.len() <= max_chars {
        s
    } else {
        s.take(max_chars as int) + seq!['.', '.', '.']
    }
}

} // verus!
