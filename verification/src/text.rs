//! Character-level vocabulary shared by the output parsers: white space,
//! trimming, lines and white-space separated tokens, each as a function on
//! `Seq<char>` together with an executable counterpart on `&[char]`.

use vstd::prelude::*;

verus! {

/// The characters that carry the Unicode `White_Space` property.
pub open spec fn is_whitespace(c: char) -> bool {
    let u = c as u32;
    ||| 0x09 <= u <= 0x0D
    ||| u == 0x20
    ||| u == 0x85
    ||| u == 0xA0
    ||| u == 0x1680
    ||| 0x2000 <= u <= 0x200A
    ||| u == 0x2028
    ||| u == 0x2029
    ||| u == 0x202F
    ||| u == 0x205F
    ||| u == 0x3000
}

/// `s` without its leading white space.
pub open spec fn trim_start(s: Seq<char>) -> Seq<char>
    decreases s.len(),
{
    if s.len() > 0 && is_whitespace(s[0]) {
        trim_start(s.drop_first())
    } else {
        s
    }
}

/// `s` without its trailing white space.
pub open spec fn trim_end(s: Seq<char>) -> Seq<char>
    decreases s.len(),
{
    if s.len() > 0 && is_whitespace(s.last()) {
        trim_end(s.drop_last())
    } else {
        s
    }
}

/// `s` without leading and trailing white space.
pub open spec fn trim(s: Seq<char>) -> Seq<char> {
    trim_end(trim_start(s))
}

/// The position of the first `c` in `s`, or the length of `s` where there is none.
pub open spec fn first_index(s: Seq<char>, c: char) -> int
    decreases s.len(),
{
    if s.len() == 0 || s[0] == c {
        0
    } else {
        1 + first_index(s.drop_first(), c)
    }
}

/// `s` without one trailing carriage return.
pub open spec fn without_cr(s: Seq<char>) -> Seq<char> {
    if s.len() > 0 && s.last() == '\r' {
        s.drop_last()
    } else {
        s
    }
}

/// The first line of a text: what precedes the first line feed, less a
/// carriage return directly before it; the whole text where it holds no line
/// feed.
pub open spec fn first_line(s: Seq<char>) -> Seq<char> {
    let n = first_index(s, '\n');
    if n < s.len() {
        without_cr(s.take(n))
    } else {
        s
    }
}

/// What follows the first line feed of `s`; empty where there is none.
pub open spec fn after_first_line(s: Seq<char>) -> Seq<char> {
    let n = first_index(s, '\n');
    if n < s.len() {
        s.skip(n + 1)
    } else {
        Seq::empty()
    }
}

/// The lines of a text. A line ends at a line feed or at a carriage return
/// followed by a line feed; the terminator belongs to no line, and a text
/// that ends in a terminator has no empty line after it.
pub open spec fn lines(s: Seq<char>) -> Seq<Seq<char>>
    decreases s.len(),
{
    if s.len() == 0 {
        Seq::empty()
    } else {
        proof {
            lemma_first_index_bounds(s, '\n');
        }
        seq![first_line(s)] + lines(after_first_line(s))
    }
}

/// The length of the longest prefix of `s` that holds no white space.
pub open spec fn word_len(s: Seq<char>) -> int
    decreases s.len(),
{
    if s.len() == 0 || is_whitespace(s[0]) {
        0
    } else {
        1 + word_len(s.drop_first())
    }
}

/// The maximal runs of characters other than white space, in order.
pub open spec fn tokens(s: Seq<char>) -> Seq<Seq<char>>
    decreases s.len(),
{
    if s.len() == 0 {
        Seq::empty()
    } else if is_whitespace(s[0]) {
        tokens(s.drop_first())
    } else {
        proof {
            lemma_word_len_bounds(s);
        }
        seq![s.take(word_len(s))] + tokens(s.skip(word_len(s)))
    }
}

/// Whether `pattern` occurs in `s` as a contiguous run.
pub open spec fn contains(s: Seq<char>, pattern: Seq<char>) -> bool {
    exists|i: int| occurs_at(s, pattern, i)
}

/// Whether `pattern` occurs in `s` at position `i`.
pub open spec fn occurs_at(s: Seq<char>, pattern: Seq<char>, i: int) -> bool {
    0 <= i && i + pattern.len() <= s.len() && s.subrange(i, i + pattern.len()) == pattern
}

/// The views of a sequence of character slices.
pub open spec fn slice_views(v: Seq<&[char]>) -> Seq<Seq<char>> {
    v.map_values(|s: &[char]| s@)
}

/// The first index of `c` lies within `s` or at its end, holds `c` where it
/// lies within, and is preceded by no `c`.
pub proof fn lemma_first_index_bounds(s: Seq<char>, c: char)
    ensures
        0 <= first_index(s, c) <= s.len(),
        first_index(s, c) < s.len() ==> s[first_index(s, c)] == c,
        forall|k: int| 0 <= k < first_index(s, c) ==> s[k] != c,
    decreases s.len(),
{
    if s.len() == 0 || s[0] == c {
    } else {
        let t = s.drop_first();
        lemma_first_index_bounds(t, c);
        assert forall|k: int| 0 <= k < first_index(s, c) implies s[k] != c by {
            if k > 0 {
                assert(s[k] == t[k - 1]);
            }
        }
    }
}

/// A position that holds `c` and is preceded by no `c` is the first index of `c`.
pub proof fn lemma_first_index_is(s: Seq<char>, c: char, i: int)
    requires
        0 <= i <= s.len(),
        forall|k: int| 0 <= k < i ==> s[k] != c,
        i == s.len() || s[i] == c,
    ensures
        first_index(s, c) == i,
    decreases i,
{
    if i > 0 {
        let t = s.drop_first();
        assert forall|k: int| 0 <= k < i - 1 implies t[k] != c by {
            assert(t[k] == s[k + 1]);
        }
        lemma_first_index_is(t, c, i - 1);
    }
}

/// The first word of `s` lies within `s`, is not empty where `s` begins with
/// other than white space, holds no white space and is followed by white
/// space or by nothing.
pub proof fn lemma_word_len_bounds(s: Seq<char>)
    ensures
        0 <= word_len(s) <= s.len(),
        s.len() > 0 && !is_whitespace(s[0]) ==> word_len(s) > 0,
        word_len(s) < s.len() ==> is_whitespace(s[word_len(s)]),
        forall|k: int| 0 <= k < word_len(s) ==> !is_whitespace(s[k]),
    decreases s.len(),
{
    if s.len() == 0 || is_whitespace(s[0]) {
    } else {
        let t = s.drop_first();
        lemma_word_len_bounds(t);
        assert forall|k: int| 0 <= k < word_len(s) implies !is_whitespace(s[k]) by {
            if k > 0 {
                assert(s[k] == t[k - 1]);
            }
        }
    }
}

/// A position that holds white space and is preceded by none ends the first word.
pub proof fn lemma_word_len_is(s: Seq<char>, i: int)
    requires
        0 <= i <= s.len(),
        forall|k: int| 0 <= k < i ==> !is_whitespace(s[k]),
        i == s.len() || is_whitespace(s[i]),
    ensures
        word_len(s) == i,
    decreases i,
{
    if i > 0 {
        let t = s.drop_first();
        assert forall|k: int| 0 <= k < i - 1 implies !is_whitespace(t[k]) by {
            assert(t[k] == s[k + 1]);
        }
        lemma_word_len_is(t, i - 1);
    }
}

/// Whether `s` is one token: not empty, and free of white space.
pub open spec fn is_token(s: Seq<char>) -> bool {
    s.len() > 0 && forall|i: int| 0 <= i < s.len() ==> !is_whitespace(#[trigger] s[i])
}

/// `words` separated by single spaces.
pub open spec fn join_words(words: Seq<Seq<char>>) -> Seq<char>
    decreases words.len(),
{
    if words.len() == 0 {
        Seq::empty()
    } else if words.len() == 1 {
        words[0]
    } else {
        join_words(words.drop_last()) + seq![' '] + words.last()
    }
}

/// Every token of a text is a token: not empty, and free of white space.
pub proof fn lemma_tokens_are_tokens(s: Seq<char>)
    ensures
        forall|k: int| 0 <= k < tokens(s).len() ==> is_token(#[trigger] tokens(s)[k]),
    decreases s.len(),
{
    if s.len() == 0 {
        assert(tokens(s).len() == 0);
    } else if is_whitespace(s[0]) {
        lemma_tokens_are_tokens(s.drop_first());
        assert(tokens(s) == tokens(s.drop_first()));
    } else {
        lemma_word_len_bounds(s);
        let n = word_len(s);
        let rest = tokens(s.skip(n));
        lemma_tokens_are_tokens(s.skip(n));
        assert forall|k: int| 0 <= k < tokens(s).len() implies is_token(#[trigger] tokens(s)[k]) by {
            if k == 0 {
                let first = s.take(n);
                assert(tokens(s)[0] == first);
                assert forall|i: int| 0 <= i < first.len() implies !is_whitespace(
                    #[trigger] first[i],
                ) by {
                    assert(first[i] == s[i]);
                }
            } else {
                assert(tokens(s)[k] == rest[k - 1]);
            }
        }
    }
}

/// The only token of a token is the token itself.
pub proof fn lemma_tokens_of_token(s: Seq<char>)
    requires
        is_token(s),
    ensures
        tokens(s) == seq![s],
{
    lemma_word_len_is(s, s.len() as int);
    assert(s.take(s.len() as int) =~= s);
    assert(s.skip(s.len() as int) =~= Seq::<char>::empty());
    assert(tokens(s.skip(s.len() as int)) =~= Seq::<Seq<char>>::empty());
    assert(seq![s] + Seq::<Seq<char>>::empty() =~= seq![s]);
}

/// The tokens of two texts with white space between them are those of the
/// first followed by those of the second.
pub proof fn lemma_tokens_around_space(a: Seq<char>, c: char, b: Seq<char>)
    requires
        is_whitespace(c),
    ensures
        tokens(a + seq![c] + b) == tokens(a) + tokens(b),
    decreases a.len(),
{
    let all = a + seq![c] + b;
    if a.len() == 0 {
        assert(all.drop_first() =~= b);
        assert(tokens(a) + tokens(b) =~= tokens(b));
    } else if is_whitespace(a[0]) {
        assert(all[0] == a[0]);
        assert(all.drop_first() =~= a.drop_first() + seq![c] + b);
        lemma_tokens_around_space(a.drop_first(), c, b);
    } else {
        lemma_word_len_bounds(a);
        let n = word_len(a);
        assert(all[0] == a[0]);
        assert forall|k: int| 0 <= k < n implies !is_whitespace(all[k]) by {
            assert(all[k] == a[k]);
        }
        if n < a.len() {
            assert(all[n] == a[n]);
        } else {
            assert(all[n] == c);
        }
        lemma_word_len_is(all, n);
        assert(all.take(n) =~= a.take(n));
        assert(all.skip(n) =~= a.skip(n) + seq![c] + b);
        lemma_tokens_around_space(a.skip(n), c, b);
        assert(seq![a.take(n)] + (tokens(a.skip(n)) + tokens(b)) =~= (seq![a.take(n)] + tokens(
            a.skip(n),
        )) + tokens(b));
    }
}

/// The tokens of tokens that are joined by spaces are those tokens.
pub proof fn lemma_tokens_of_joined(words: Seq<Seq<char>>)
    requires
        forall|i: int| 0 <= i < words.len() ==> is_token(#[trigger] words[i]),
    ensures
        tokens(join_words(words)) == words,
    decreases words.len(),
{
    if words.len() == 0 {
        assert(tokens(join_words(words)) =~= words);
    } else if words.len() == 1 {
        lemma_tokens_of_token(words[0]);
        assert(seq![words[0]] =~= words);
    } else {
        let init = words.drop_last();
        assert forall|i: int| 0 <= i < init.len() implies is_token(#[trigger] init[i]) by {
            assert(init[i] == words[i]);
        }
        lemma_tokens_of_joined(init);
        lemma_tokens_around_space(join_words(init), ' ', words.last());
        lemma_tokens_of_token(words.last());
        assert(init + seq![words.last()] =~= words);
    }
}

/// A text in which a line feed follows a run of other characters has that
/// run, less a carriage return at its end, as its first line, and the lines
/// of what follows the line feed as its other lines.
pub proof fn lemma_lines_after_line(line: Seq<char>, rest: Seq<char>)
    requires
        forall|i: int| 0 <= i < line.len() ==> line[i] != '\n',
    ensures
        lines(line + seq!['\n'] + rest) == seq![without_cr(line)] + lines(rest),
{
    let all = line + seq!['\n'] + rest;
    assert forall|k: int| 0 <= k < line.len() implies all[k] != '\n' by {
        assert(all[k] == line[k]);
    }
    assert(all[line.len() as int] == '\n');
    lemma_first_index_is(all, '\n', line.len() as int);
    assert(all.take(line.len() as int) =~= line);
    assert(all.skip(line.len() as int + 1) =~= rest);
}

/// Decides whether `c` is a white-space character.
pub fn is_space(c: char) -> (r: bool)
    ensures
        r == is_whitespace(c),
{
    let u: u32 = c as u32;
    (0x09 <= u && u <= 0x0D) || u == 0x20 || u == 0x85 || u == 0xA0 || u == 0x1680 || (0x2000 <= u
        && u <= 0x200A) || u == 0x2028 || u == 0x2029 || u == 0x202F || u == 0x205F || u == 0x3000
}

/// The characters of `s`, in order.
pub fn chars_of(s: &str) -> (r: Vec<char>)
    ensures
        r@ == s@,
{
    let mut out: Vec<char> = Vec::new();
    for c in it: s.chars()
        invariant
            out@ == it.seq().take(it.index()),
            it.seq() == s@,
    {
        out.push(c);
    }
    out
}

/// `String::push` of std, which appends one character to the end of the
/// string. Believed without proof: the string afterwards is the string before
/// followed by `c`.
pub assume_specification[ String::push ](s: &mut String, c: char)
    ensures
        final(s)@ == old(s)@.push(c),
;

/// The string made of the characters of `s`.
pub fn string_of(s: &[char]) -> (r: String)
    ensures
        r@ == s@,
{
    let mut out = String::new();
    let mut i: usize = 0;
    while i < s.len()
        invariant
            i <= s@.len(),
            out@ == s@.take(i as int),
        decreases s@.len() - i,
    {
        out.push(s[i]);
        i += 1;
    }
    out
}

/// The position of the first `c` in `s`, or the length of `s`.
pub fn find_char(s: &[char], c: char) -> (i: usize)
    ensures
        i as int == first_index(s@, c),
        i <= s@.len(),
{
    let mut i: usize = 0;
    while i < s.len() && s[i] != c
        invariant
            i <= s@.len(),
            forall|k: int| 0 <= k < i ==> s@[k] != c,
        decreases s@.len() - i,
    {
        i += 1;
    }
    proof {
        lemma_first_index_is(s@, c, i as int);
    }
    i
}

/// `s` without its leading white space.
pub fn trim_start_of<'a>(s: &'a [char]) -> (r: &'a [char])
    ensures
        r@ == trim_start(s@),
{
    let mut i: usize = 0;
    assert(s@.skip(0) =~= s@);
    while i < s.len() && is_space(s[i])
        invariant
            i <= s@.len(),
            trim_start(s@) == trim_start(s@.skip(i as int)),
        decreases s@.len() - i,
    {
        assert(s@.skip(i as int).drop_first() =~= s@.skip(i + 1));
        i += 1;
    }
    assert(s@.subrange(i as int, s@.len() as int) =~= s@.skip(i as int));
    &s[i..s.len()]
}

/// `s` without its trailing white space.
pub fn trim_end_of<'a>(s: &'a [char]) -> (r: &'a [char])
    ensures
        r@ == trim_end(s@),
{
    let mut j: usize = s.len();
    assert(s@.take(j as int) =~= s@);
    while j > 0 && is_space(s[j - 1])
        invariant
            j <= s@.len(),
            trim_end(s@) == trim_end(s@.take(j as int)),
        decreases j,
    {
        assert(s@.take(j as int).drop_last() =~= s@.take(j - 1));
        j -= 1;
    }
    assert(s@.subrange(0, j as int) =~= s@.take(j as int));
    &s[0..j]
}

/// `s` without leading and trailing white space.
pub fn trim_of<'a>(s: &'a [char]) -> (r: &'a [char])
    ensures
        r@ == trim(s@),
{
    trim_end_of(trim_start_of(s))
}

/// Splits a text into its first line and what follows it. What follows is
/// shorter than a text that is not empty, so that splitting again and again
/// comes to an end; of an empty text both parts are empty.
pub fn split_line<'a>(text: &'a [char]) -> (r: (&'a [char], &'a [char]))
    ensures
        r.0@ == first_line(text@),
        r.1@ == after_first_line(text@),
        text@.len() > 0 ==> r.1@.len() < text@.len(),
        text@.len() > 0 ==> lines(text@) == seq![r.0@] + lines(r.1@),
{
    let n = find_char(text, '\n');
    if n < text.len() {
        let rest = &text[n + 1..text.len()];
        assert(rest@ =~= text@.skip(n + 1));
        assert(text@.subrange(0, n as int) =~= text@.take(n as int));
        if n > 0 && text[n - 1] == '\r' {
            assert(text@.subrange(0, n - 1) =~= text@.take(n as int).drop_last());
            (&text[0..n - 1], rest)
        } else {
            (&text[0..n], rest)
        }
    } else {
        let rest = &text[n..n];
        assert(rest@ =~= Seq::<char>::empty());
        (text, rest)
    }
}

/// The white-space separated tokens of `line`, in order.
pub fn split_tokens<'a>(line: &'a [char]) -> (r: Vec<&'a [char]>)
    ensures
        slice_views(r@) == tokens(line@),
{
    let mut out: Vec<&'a [char]> = Vec::new();
    let mut i: usize = 0;
    assert(line@.skip(0) =~= line@);
    assert(slice_views(out@) + tokens(line@) =~= tokens(line@));
    while i < line.len()
        invariant
            i <= line@.len(),
            tokens(line@) == slice_views(out@) + tokens(line@.skip(i as int)),
        decreases line@.len() - i,
    {
        let ghost rest = line@.skip(i as int);
        if is_space(line[i]) {
            assert(rest.drop_first() =~= line@.skip(i + 1));
            i += 1;
        } else {
            let mut j: usize = i + 1;
            while j < line.len() && !is_space(line[j])
                invariant
                    i < j <= line@.len(),
                    forall|k: int| i <= k < j ==> !is_whitespace(line@[k]),
                decreases line@.len() - j,
            {
                j += 1;
            }
            let word = &line[i..j];
            proof {
                lemma_word_len_is(rest, j - i);
                assert(rest.take(j - i) =~= word@);
                assert(rest.skip(j - i) =~= line@.skip(j as int));
                assert(slice_views(out@.push(word)) =~= slice_views(out@).push(word@));
            }
            out.push(word);
            i = j;
        }
    }
    assert(tokens(line@.skip(i as int)) =~= Seq::<Seq<char>>::empty());
    out
}

/// Whether `pattern` occurs in `s` as a contiguous run.
pub fn contains_run(s: &[char], pattern: &[char]) -> (r: bool)
    ensures
        r == contains(s@, pattern@),
{
    let n = s.len();
    let m = pattern.len();
    if m > n {
        assert forall|i: int| !occurs_at(s@, pattern@, i) by {}
        return false;
    }
    let mut i: usize = 0;
    while i <= n - m
        invariant
            m <= n,
            n == s@.len(),
            m == pattern@.len(),
            i <= n - m + 1,
            forall|k: int| 0 <= k < i ==> !occurs_at(s@, pattern@, k),
        decreases n - m + 1 - i,
    {
        let mut j: usize = 0;
        while j < m && s[i + j] == pattern[j]
            invariant
                m <= n,
                n == s@.len(),
                m == pattern@.len(),
                i <= n - m,
                j <= m,
                forall|k: int| 0 <= k < j ==> s@[i + k] == pattern@[k],
            decreases m - j,
        {
            j += 1;
        }
        if j == m {
            assert(s@.subrange(i as int, i + m) =~= pattern@);
            assert(occurs_at(s@, pattern@, i as int));
            return true;
        }
        assert(!occurs_at(s@, pattern@, i as int)) by {
            if occurs_at(s@, pattern@, i as int) {
                assert(s@.subrange(i as int, i + m)[j as int] == pattern@[j as int]);
            }
        }
        i += 1;
    }
    assert forall|k: int| !occurs_at(s@, pattern@, k) by {}
    false
}

/// Whether the two slices hold the same characters.
pub fn same_chars(a: &[char], b: &[char]) -> (r: bool)
    ensures
        r == (a@ == b@),
{
    if a.len() != b.len() {
        return false;
    }
    let mut i: usize = 0;
    while i < a.len()
        invariant
            a@.len() == b@.len(),
            i <= a@.len(),
            forall|k: int| 0 <= k < i ==> a@[k] == b@[k],
        decreases a@.len() - i,
    {
        if a[i] != b[i] {
            return false;
        }
        i += 1;
    }
    assert(a@ =~= b@);
    true
}

/// Whether `s` begins with `prefix`.
pub fn starts_with(s: &[char], prefix: &[char]) -> (r: bool)
    ensures
        r == prefix@.is_prefix_of(s@),
{
    if prefix.len() > s.len() {
        return false;
    }
    let head = &s[0..prefix.len()];
    let r = same_chars(head, prefix);
    proof {
        if r {
            assert(prefix@ =~= s@.subrange(0, prefix@.len() as int));
        } else {
            if prefix@.is_prefix_of(s@) {
                assert(head@ =~= prefix@);
            }
        }
    }
    r
}

/// `s` without leading and trailing white space, as a string of its own.
pub fn trimmed(s: &str) -> (r: String)
    ensures
        r@ == trim(s@),
{
    let text = chars_of(s);
    string_of(trim_of(text.as_slice()))
}

/// A vector of one string.
pub fn one_string(s: &str) -> (r: Vec<String>)
    ensures
        r.deep_view() == seq![s@],
{
    let mut out: Vec<String> = Vec::new();
    out.push(s.to_owned());
    assert(out.deep_view() =~= seq![s@]);
    out
}

/// Appends a copy of `s` to `list`.
pub fn push_str(list: &mut Vec<String>, s: &str)
    ensures
        final(list).deep_view() == old(list).deep_view().push(s@),
{
    let ghost before = list.deep_view();
    list.push(s.to_owned());
    assert(list.deep_view() =~= before.push(s@));
}

/// The decimal digit that stands for `d`.
pub open spec fn digit(d: int) -> char {
    if d == 0 {
        '0'
    } else if d == 1 {
        '1'
    } else if d == 2 {
        '2'
    } else if d == 3 {
        '3'
    } else if d == 4 {
        '4'
    } else if d == 5 {
        '5'
    } else if d == 6 {
        '6'
    } else if d == 7 {
        '7'
    } else if d == 8 {
        '8'
    } else {
        '9'
    }
}

/// The decimal digits of `n`, without leading zeros.
pub open spec fn digits(n: nat) -> Seq<char>
    decreases n,
{
    if n < 10 {
        seq![digit(n as int)]
    } else {
        digits(n / 10).push(digit((n % 10) as int))
    }
}

/// `n` in decimal, with a minus sign where it is negative.
pub open spec fn decimal(n: int) -> Seq<char> {
    if n < 0 {
        seq!['-'] + digits((-n) as nat)
    } else {
        digits(n as nat)
    }
}

/// The character of one decimal digit.
fn digit_char(d: u32) -> (r: char)
    requires
        d < 10,
    ensures
        r == digit(d as int),
{
    if d == 0 {
        '0'
    } else if d == 1 {
        '1'
    } else if d == 2 {
        '2'
    } else if d == 3 {
        '3'
    } else if d == 4 {
        '4'
    } else if d == 5 {
        '5'
    } else if d == 6 {
        '6'
    } else if d == 7 {
        '7'
    } else if d == 8 {
        '8'
    } else {
        '9'
    }
}

/// Appends the decimal digits of `n` to `out`.
fn push_digits(out: &mut String, n: u32)
    ensures
        final(out)@ == old(out)@ + digits(n as nat),
    decreases n,
{
    let ghost start = out@;
    if n >= 10 {
        push_digits(out, n / 10);
    }
    out.push(digit_char(n % 10));
    assert(out@ =~= start + digits(n as nat));
}

/// Appends `n` in decimal to `out`.
pub fn push_decimal(out: &mut String, n: i32)
    ensures
        final(out)@ == old(out)@ + decimal(n as int),
{
    let ghost start = out@;
    if n < 0 {
        out.push('-');
        let magnitude: u32 = if n == i32::MIN {
            2147483648u32
        } else {
            (-n) as u32
        };
        push_digits(out, magnitude);
        assert(out@ =~= start + decimal(n as int));
    } else {
        push_digits(out, n as u32);
    }
}

} // verus!
