//! Character-level helpers shared by the line parser and the reply formatter.
//!
//! Everything here is stated over `Seq<char>`, the view of `str` and `String`.

use vstd::prelude::*;
use vstd::string::*;

verus! {

/// Appends one character to `s`.
///
/// Trusted: calls `String::push` of the standard library, which puts the
/// character at the end of the string and leaves what was there untouched.
#[verifier::external_body]
pub(crate) fn push_char(s: &mut String, c: char)
    ensures
        final(s)@ == old(s)@.push(c),
{
    s.push(c)
}

/// The characters of `s`, in order.
pub fn chars_of(s: &str) -> (v: Vec<char>)
    ensures
        v@ == s@,
{
    let mut v: Vec<char> = Vec::new();
    for c in it: s.chars()
        invariant
            it.seq() == s@,
            v@ == it.seq().take(it.index() as int),
    {
        v.push(c);
    }
    v
}

/// The string made of `chars[from..to]`.
pub fn string_of(chars: &Vec<char>, from: usize, to: usize) -> (s: String)
    requires
        from <= to <= chars.len(),
    ensures
        s@ == chars@.subrange(from as int, to as int),
{
    let mut s = String::new();
    let mut i: usize = from;
    while i < to
        invariant
            from <= i <= to <= chars.len(),
            s@ == chars@.subrange(from as int, i as int),
        decreases to - i,
    {
        push_char(&mut s, chars[i]);
        i += 1;
    }
    s
}

/// Whether `c` separates words: the code points with the Unicode property
/// `White_Space`.
pub open spec fn is_space(c: char) -> bool {
    let n = c as u32;
    ||| 0x09 <= n <= 0x0D
    ||| n == 0x20
    ||| n == 0x85
    ||| n == 0xA0
    ||| n == 0x1680
    ||| 0x2000 <= n <= 0x200A
    ||| n == 0x2028
    ||| n == 0x2029
    ||| n == 0x202F
    ||| n == 0x205F
    ||| n == 0x3000
}

/// Executable form of [`is_space`].
pub fn is_separator(c: char) -> (b: bool)
    ensures
        b == is_space(c),
{
    let n: u32 = c as u32;
    (0x09 <= n && n <= 0x0D) || n == 0x20 || n == 0x85 || n == 0xA0 || n == 0x1680 || (0x2000 <= n
        && n <= 0x200A) || n == 0x2028 || n == 0x2029 || n == 0x202F || n == 0x205F || n == 0x3000
}

/// The first position at or after `i` that holds a separator, or the length
/// of `s` if there is none.
pub open spec fn word_end(s: Seq<char>, i: int) -> int
    decreases s.len() - i,
{
    if 0 <= i < s.len() && !is_space(s[i]) {
        word_end(s, i + 1)
    } else {
        i
    }
}

/// `word_end` stops at or after `i`, inside `s`, passes over no separator and
/// stops on one unless it reached the end.
pub proof fn lemma_word_end(s: Seq<char>, i: int)
    requires
        0 <= i <= s.len(),
    ensures
        i <= word_end(s, i) <= s.len(),
        forall|k: int| i <= k < word_end(s, i) ==> !is_space(#[trigger] s[k]),
        word_end(s, i) < s.len() ==> is_space(s[word_end(s, i)]),
    decreases s.len() - i,
{
    if i < s.len() && !is_space(s[i]) {
        lemma_word_end(s, i + 1);
    }
}

/// The words of `s` that start at or after `i`: the maximal runs of
/// characters that are not separators, from left to right.
pub open spec fn words_from(s: Seq<char>, i: int) -> Seq<Seq<char>>
    decreases s.len() - i,
    via words_from_terminates
{
    if !(0 <= i < s.len()) {
        Seq::empty()
    } else if is_space(s[i]) {
        words_from(s, i + 1)
    } else {
        seq![s.subrange(i, word_end(s, i))] + words_from(s, word_end(s, i))
    }
}

#[via_fn]
proof fn words_from_terminates(s: Seq<char>, i: int) {
    if 0 <= i < s.len() && !is_space(s[i]) {
        lemma_word_end(s, i + 1);
    }
}

/// The words of a line: what stands between runs of separators.
pub open spec fn words(s: Seq<char>) -> Seq<Seq<char>> {
    words_from(s, 0)
}

/// The views of a vector of strings.
pub open spec fn views(v: Seq<String>) -> Seq<Seq<char>> {
    v.map_values(|s: String| s@)
}

/// A word: at least one character, none of them a separator.
pub open spec fn is_word(w: Seq<char>) -> bool {
    w.len() > 0 && forall|j: int| 0 <= j < w.len() ==> !is_space(#[trigger] w[j])
}

/// Every word that `words_from` yields is non-empty and holds no separator.
pub proof fn lemma_words_are_runs(s: Seq<char>, i: int)
    requires
        0 <= i <= s.len(),
    ensures
        forall|k: int| 0 <= k < words_from(s, i).len() ==> is_word(#[trigger] words_from(s, i)[k]),
    decreases s.len() - i,
{
    if i < s.len() {
        if is_space(s[i]) {
            lemma_words_are_runs(s, i + 1);
            assert(words_from(s, i) == words_from(s, i + 1));
        } else {
            let end = word_end(s, i);
            lemma_word_end(s, i);
            lemma_word_end(s, i + 1);
            lemma_words_are_runs(s, end);
            let head = s.subrange(i, end);
            let rest = words_from(s, end);
            assert(words_from(s, i) == seq![head] + rest);
            assert(is_word(head)) by {
                assert forall|j: int| 0 <= j < head.len() implies !is_space(#[trigger] head[j]) by {
                    assert(head[j] == s[i + j]);
                }
            }
            assert forall|k: int| 0 <= k < words_from(s, i).len() implies is_word(
                #[trigger] words_from(s, i)[k],
            ) by {
                if k > 0 {
                    assert(words_from(s, i)[k] == rest[k - 1]);
                }
            }
        }
    }
}

/// Splits a line into its words.
pub fn split_words(line: &str) -> (out: Vec<String>)
    ensures
        views(out@) == words(line@),
{
    let chars = chars_of(line);
    let n = chars.len();
    let mut out: Vec<String> = Vec::new();
    let mut i: usize = 0;
    while i < n
        invariant
            n == chars.len(),
            chars@ == line@,
            i <= n,
            words(line@) == views(out@) + words_from(line@, i as int),
        decreases n - i,
    {
        if is_separator(chars[i]) {
            i += 1;
        } else {
            let start = i;
            let mut j: usize = i;
            while j < n && !is_separator(chars[j])
                invariant
                    n == chars.len(),
                    chars@ == line@,
                    start <= j <= n,
                    word_end(line@, start as int) == word_end(line@, j as int),
                decreases n - j,
            {
                j += 1;
            }
            let word = string_of(&chars, start, j);
            proof {
                let ghost before = views(out@);
                assert(views(out@.push(word)) =~= before.push(word@));
                assert(before.push(word@) + words_from(line@, j as int) =~= before + (seq![word@]
                    + words_from(line@, j as int)));
            }
            out.push(word);
            i = j;
        }
    }
    assert(views(out@) + Seq::<Seq<char>>::empty() =~= views(out@));
    out
}

/// A character other than carriage return and line feed.
pub open spec fn keeps() -> spec_fn(char) -> bool {
    |c: char| c != '\r' && c != '\n'
}

/// `s` without its carriage returns and line feeds.
pub open spec fn strip_breaks(s: Seq<char>) -> Seq<char> {
    s.filter(keeps())
}

/// The position of the first `':'` at or after `i`, or the length of `s`.
pub open spec fn colon_at(s: Seq<char>, i: int) -> int
    decreases s.len() - i,
{
    if 0 <= i < s.len() && s[i] != ':' {
        colon_at(s, i + 1)
    } else {
        i
    }
}

/// The free text of a line: what follows its first `':'`, without line
/// breaks. A line without `':'` has none.
pub open spec fn body_of(s: Seq<char>) -> Option<Seq<char>> {
    let k = colon_at(s, 0);
    if k < s.len() {
        Some(strip_breaks(s.subrange(k + 1, s.len() as int)))
    } else {
        None
    }
}

/// `colon_at` finds the first colon: nothing before it is one.
pub proof fn lemma_colon_at(s: Seq<char>, i: int)
    requires
        0 <= i <= s.len(),
    ensures
        i <= colon_at(s, i) <= s.len(),
        forall|k: int| i <= k < colon_at(s, i) ==> #[trigger] s[k] != ':',
        colon_at(s, i) < s.len() ==> s[colon_at(s, i)] == ':',
    decreases s.len() - i,
{
    if i < s.len() && s[i] != ':' {
        lemma_colon_at(s, i + 1);
    }
}

/// Removes carriage returns and line feeds from `chars[from..]`.
pub fn without_breaks(chars: &Vec<char>, from: usize) -> (out: String)
    requires
        from <= chars.len(),
    ensures
        out@ == strip_breaks(chars@.subrange(from as int, chars.len() as int)),
{
    let n = chars.len();
    let mut out = String::new();
    let mut i: usize = from;
    proof {
        reveal(Seq::filter);
        assert(chars@.subrange(from as int, from as int).filter(keeps()) =~= Seq::<char>::empty());
    }
    while i < n
        invariant
            n == chars.len(),
            from <= i <= n,
            out@ == chars@.subrange(from as int, i as int).filter(keeps()),
        decreases n - i,
    {
        let c = chars[i];
        proof {
            let ghost done = chars@.subrange(from as int, i as int);
            assert(chars@.subrange(from as int, i + 1) =~= done.push(c));
            done.lemma_filter_push(c, keeps());
        }
        if c != '\r' && c != '\n' {
            push_char(&mut out, c);
        }
        i += 1;
    }
    out
}

/// Extracts the free text of a line.
pub fn line_body(line: &str) -> (body: Option<String>)
    ensures
        body is Some <==> body_of(line@) is Some,
        body is Some ==> body->0@ == body_of(line@)->0,
{
    let chars = chars_of(line);
    let n = chars.len();
    let mut k: usize = 0;
    while k < n && chars[k] != ':'
        invariant
            n == chars.len(),
            chars@ == line@,
            k <= n,
            colon_at(line@, 0) == colon_at(line@, k as int),
        decreases n - k,
    {
        k += 1;
    }
    if k < n {
        Some(without_breaks(&chars, k + 1))
    } else {
        None
    }
}

/// The character that writes the digit `d`.
pub open spec fn digit(d: nat) -> char
    recommends
        d < 10,
{
    (48 + d) as u8 as char
}

/// The decimal digits of `n`, most significant first, without leading zeros.
pub open spec fn decimal(n: nat) -> Seq<char>
    decreases n,
{
    if n < 10 {
        seq![digit(n)]
    } else {
        decimal(n / 10).push(digit(n % 10))
    }
}

/// `n` in decimal, filled with zeros on the left to at least three digits.
pub open spec fn three_digits(n: nat) -> Seq<char> {
    if n < 10 {
        seq!['0', '0'] + decimal(n)
    } else if n < 100 {
        seq!['0'] + decimal(n)
    } else {
        decimal(n)
    }
}

/// Appends the decimal digits of `n` to `s`.
pub fn push_decimal(s: &mut String, n: u16)
    ensures
        final(s)@ == old(s)@ + decimal(n as nat),
    decreases n,
{
    if n >= 10 {
        push_decimal(s, n / 10);
    }
    let d: u8 = (n % 10) as u8;
    push_char(s, (48u8 + d) as char);
    proof {
        if n >= 10 {
            assert(final(s)@ =~= old(s)@ + decimal((n / 10) as nat).push(digit((n % 10) as nat)));
        } else {
            assert(final(s)@ =~= old(s)@ + seq![digit(n as nat)]);
        }
    }
}

/// Appends `n` to `s`, zero-filled to three digits.
pub fn push_three_digits(s: &mut String, n: u16)
    ensures
        final(s)@ == old(s)@ + three_digits(n as nat),
{
    if n < 10 {
        push_char(s, '0');
        push_char(s, '0');
    } else if n < 100 {
        push_char(s, '0');
    }
    let ghost mid = s@;
    push_decimal(s, n);
    proof {
        if n < 10 {
            assert(mid =~= old(s)@ + seq!['0', '0']);
            assert(final(s)@ =~= old(s)@ + (seq!['0', '0'] + decimal(n as nat)));
        } else if n < 100 {
            assert(mid =~= old(s)@ + seq!['0']);
            assert(final(s)@ =~= old(s)@ + (seq!['0'] + decimal(n as nat)));
        }
    }
}

} // verus!
