//! Characters, words and numbers: the text primitives every other module
//! formats and reads with.
use vstd::prelude::*;
use vstd::std_specs::iter::IteratorSpec;
use vstd::string::StrSliceExecFns;
use vstd::string::StringExecFns;

verus! {

broadcast use vstd::string::group_string_axioms;

/// Whether `c` is one of the characters Unicode calls white space, which is
/// what `char::is_whitespace` tests and so what `str::trim` and
/// `str::split_whitespace` cut on.
pub open spec fn is_space(c: char) -> bool {
    ||| ('\u{9}' <= c && c <= '\u{d}')
    ||| c == ' '
    ||| c == '\u{85}'
    ||| c == '\u{a0}'
    ||| c == '\u{1680}'
    ||| ('\u{2000}' <= c && c <= '\u{200a}')
    ||| c == '\u{2028}'
    ||| c == '\u{2029}'
    ||| c == '\u{202f}'
    ||| c == '\u{205f}'
    ||| c == '\u{3000}'
}

/// Executable [`is_space`].
pub fn space(c: char) -> (r: bool)
    ensures
        r == is_space(c),
{
    ('\u{9}' <= c && c <= '\u{d}') || c == ' ' || c == '\u{85}' || c == '\u{a0}' || c == '\u{1680}'
        || ('\u{2000}' <= c && c <= '\u{200a}') || c == '\u{2028}' || c == '\u{2029}' || c
        == '\u{202f}' || c == '\u{205f}' || c == '\u{3000}'
}

/// `String::push`: one character appended at the end.
#[verifier::external_body]
pub(crate) fn push_char(s: &mut String, c: char)
    ensures
        final(s)@ == old(s)@.push(c),
{
    s.push(c);
}

/// Append `t` to `s`.
pub fn push_str(s: &mut String, t: &str)
    ensures
        final(s)@ == old(s)@ + t@,
{
    s.append(t);
}

/// The characters of `s`, in order.
pub fn chars_of(s: &str) -> (v: Vec<char>)
    ensures
        v@ == s@,
{
    let mut v: Vec<char> = Vec::new();
    for c in it: s.chars()
        invariant
            v@ == it.seq().take(it.index() as int),
            it.seq() == s@,
    {
        v.push(c);
    }
    v
}

/// The string spelled by `v`.
pub fn string_of(v: &Vec<char>) -> (s: String)
    ensures
        s@ == v@,
{
    let mut s = String::new();
    let mut i: usize = 0;
    while i < v.len()
        invariant
            i <= v.len(),
            s@ == v@.take(i as int),
        decreases v.len() - i,
    {
        push_char(&mut s, v[i]);
        assert(v@.take(i + 1) =~= v@.take(i as int).push(v@[i as int]));
        i += 1;
    }
    assert(v@.take(v.len() as int) =~= v@);
    s
}

/// Append the characters of `v` to `s`.
pub fn push_chars(s: &mut String, v: &Vec<char>)
    ensures
        final(s)@ == old(s)@ + v@,
{
    let mut i: usize = 0;
    while i < v.len()
        invariant
            i <= v.len(),
            s@ == old(s)@ + v@.take(i as int),
        decreases v.len() - i,
    {
        push_char(s, v[i]);
        assert(v@.take(i + 1) =~= v@.take(i as int).push(v@[i as int]));
        i += 1;
    }
    assert(v@.take(v.len() as int) =~= v@);
}

/// Whether `w` spells exactly the literal `lit`.
pub fn eq_lit(w: &Vec<char>, lit: &str) -> (r: bool)
    ensures
        r == (w@ == lit@),
{
    let n = lit.unicode_len();
    if w.len() != n {
        return false;
    }
    let mut i: usize = 0;
    while i < n
        invariant
            i <= n,
            n == w@.len(),
            n == lit@.len(),
            forall|j: int| 0 <= j < i ==> w@[j] == lit@[j],
        decreases n - i,
    {
        if w[i] != lit.get_char(i) {
            return false;
        }
        i += 1;
    }
    assert(w@ =~= lit@);
    true
}

/// The character for the decimal digit `d`.
pub open spec fn digit_char(d: nat) -> char {
    (48 + d) as char
}

/// `n` written in decimal, as `u64`'s `Display` writes it.
pub open spec fn decimal(n: nat) -> Seq<char>
    decreases n,
{
    if n < 10 {
        seq![digit_char(n)]
    } else {
        decimal(n / 10).push(digit_char(n % 10))
    }
}

/// `i` written in decimal, with a leading minus when negative, as the signed
/// integers' `Display` writes it.
pub open spec fn signed_decimal(i: int) -> Seq<char> {
    if i < 0 {
        seq!['-'] + decimal((-i) as nat)
    } else {
        decimal(i as nat)
    }
}

/// Append `n` in decimal.
pub fn push_decimal(s: &mut String, n: u64)
    ensures
        final(s)@ == old(s)@ + decimal(n as nat),
    decreases n,
{
    if n >= 10 {
        push_decimal(s, n / 10);
    }
    let d = (n % 10) as u8;
    let c = (48u8 + d) as char;
    assert(c == digit_char((n % 10) as nat));
    push_char(s, c);
    assert(final(s)@ =~= old(s)@ + decimal(n as nat));
}

/// Append `i` in decimal, signed.
pub fn push_signed(s: &mut String, i: i64)
    ensures
        final(s)@ == old(s)@ + signed_decimal(i as int),
{
    if i < 0 {
        push_char(s, '-');
        let magnitude: u64 = (0i128 - (i as i128)) as u64;
        push_decimal(s, magnitude);
        assert(final(s)@ =~= old(s)@ + signed_decimal(i as int));
    } else {
        push_decimal(s, i as u64);
    }
}

/// The `Debug` rendering of a string: the text that `format!("{:?}", s)`
/// writes for it.
pub uninterp spec fn debug_text(s: Seq<char>) -> Seq<char>;

/// A string made of printable ASCII other than the quote and the backslash,
/// which is the text `Debug` passes through untouched.
pub open spec fn is_plain(s: Seq<char>) -> bool {
    forall|i: int| 0 <= i < s.len() ==> ' ' <= #[trigger] s[i] <= '~' && s[i] != '"' && s[i] != '\\'
}

/// `format!("{:?}", s)`: the string in double quotes, with the characters
/// that `char::escape_debug` escapes written as escapes. What is stated is
/// that the text is named by [`debug_text`], and the one case that the
/// documentation of `str`'s `Debug` spells out: printable ASCII other than
/// `"` and `\` is written as it is, between the two quotes.
#[verifier::external_body]
fn debug_string(s: &str) -> (r: String)
    ensures
        r@ == debug_text(s@),
        is_plain(s@) ==> r@ == seq!['"'] + s@ + seq!['"'],
{
    format!("{:?}", s)
}

/// Append the `Debug` rendering of the word `s`.
pub(crate) fn push_debug(out: &mut String, s: &Vec<char>)
    ensures
        final(out)@ == old(out)@ + debug_text(s@),
        is_plain(s@) ==> final(out)@ == old(out)@ + seq!['"'] + s@ + seq!['"'],
{
    let text = string_of(s);
    let shown = debug_string(text.as_str());
    push_str(out, shown.as_str());
}

/// `s` with its leading white space removed.
pub open spec fn skip_space(s: Seq<char>) -> Seq<char>
    decreases s.len(),
{
    if s.len() > 0 && is_space(s[0]) {
        skip_space(s.drop_first())
    } else {
        s
    }
}

/// How many characters `s` starts with before its first white space.
pub open spec fn word_len(s: Seq<char>) -> nat
    decreases s.len(),
{
    if s.len() > 0 && !is_space(s[0]) {
        1 + word_len(s.drop_first())
    } else {
        0
    }
}

/// `s` with its trailing white space removed.
pub open spec fn trim_end(s: Seq<char>) -> Seq<char>
    decreases s.len(),
{
    if s.len() > 0 && is_space(s.last()) {
        trim_end(s.drop_last())
    } else {
        s
    }
}

/// `str::trim`: white space removed from both ends.
pub open spec fn trim(s: Seq<char>) -> Seq<char> {
    trim_end(skip_space(s))
}

pub proof fn lemma_skip_space_suffix(s: Seq<char>)
    ensures
        skip_space(s).len() <= s.len(),
        skip_space(s) == s.skip(s.len() - skip_space(s).len()),
        skip_space(s).len() == 0 || !is_space(skip_space(s)[0]),
    decreases s.len(),
{
    if s.len() > 0 && is_space(s[0]) {
        lemma_skip_space_suffix(s.drop_first());
        assert(s.drop_first().skip(s.drop_first().len() - skip_space(s).len()) =~= s.skip(
            s.len() - skip_space(s).len(),
        ));
    } else {
        assert(s.skip(0) =~= s);
    }
}

pub proof fn lemma_word_len(s: Seq<char>)
    ensures
        word_len(s) <= s.len(),
        s.len() > 0 && !is_space(s[0]) ==> word_len(s) >= 1,
        forall|i: int| 0 <= i < word_len(s) ==> !is_space(#[trigger] s[i]),
        word_len(s) < s.len() ==> is_space(s[word_len(s) as int]),
    decreases s.len(),
{
    if s.len() > 0 && !is_space(s[0]) {
        lemma_word_len(s.drop_first());
        assert forall|i: int| 0 <= i < word_len(s) implies !is_space(#[trigger] s[i]) by {
            if i > 0 {
                assert(s[i] == s.drop_first()[i - 1]);
            }
        }
    }
}

/// `str::split_whitespace`: the maximal runs of characters that are not
/// white space, in order.
pub open spec fn words(s: Seq<char>) -> Seq<Seq<char>>
    decreases s.len(),
{
    let t = skip_space(s);
    if t.len() == 0 {
        seq![]
    } else {
        let n = word_len(t);
        if 0 < n <= t.len() && t.len() <= s.len() {
            seq![t.take(n as int)] + words(t.skip(n as int))
        } else {
            seq![]
        }
    }
}

pub proof fn lemma_words_unfold(s: Seq<char>)
    ensures
        skip_space(s).len() == 0 ==> words(s) == Seq::<Seq<char>>::empty(),
        skip_space(s).len() > 0 ==> words(s) == seq![skip_space(s).take(word_len(skip_space(s)) as int)]
            + words(skip_space(s).skip(word_len(skip_space(s)) as int)),
{
    lemma_skip_space_suffix(s);
    lemma_word_len(skip_space(s));
}

/// Skipping white space one character at a time.
pub proof fn lemma_skip_space_step(s: Seq<char>, i: int)
    requires
        0 <= i < s.len(),
        is_space(s[i]),
    ensures
        skip_space(s.skip(i)) == skip_space(s.skip(i + 1)),
{
    assert(s.skip(i).drop_first() =~= s.skip(i + 1));
}

/// Measuring a word one character at a time.
pub proof fn lemma_word_len_step(s: Seq<char>, i: int)
    requires
        0 <= i < s.len(),
        !is_space(s[i]),
    ensures
        word_len(s.skip(i)) == 1 + word_len(s.skip(i + 1)),
{
    assert(s.skip(i).drop_first() =~= s.skip(i + 1));
}

/// The next word of `line` at or after `pos`, as a half-open range of
/// indices, or `None` when only white space is left.
pub fn next_word(line: &Vec<char>, pos: usize) -> (r: Option<(usize, usize)>)
    requires
        pos <= line@.len(),
    ensures
        r is None ==> words(line@.skip(pos as int)) == Seq::<Seq<char>>::empty(),
        r matches Some((a, b)) ==> {
            &&& pos <= a < b <= line@.len()
            &&& words(line@.skip(pos as int)) == seq![line@.subrange(a as int, b as int)] + words(
                line@.skip(b as int),
            )
        },
{
    let mut i = pos;
    while i < line.len() && space(line[i])
        invariant
            pos <= i <= line@.len(),
            skip_space(line@.skip(pos as int)) == skip_space(line@.skip(i as int)),
        decreases line@.len() - i,
    {
        proof {
            lemma_skip_space_step(line@, i as int);
        }
        i += 1;
    }
    proof {
        lemma_words_unfold(line@.skip(pos as int));
    }
    if i == line.len() {
        assert(line@.skip(i as int).len() == 0);
        return None;
    }
    assert(skip_space(line@.skip(i as int)) == line@.skip(i as int));
    let mut j = i;
    while j < line.len() && !space(line[j])
        invariant
            i <= j <= line@.len(),
            word_len(line@.skip(i as int)) == (j - i) + word_len(line@.skip(j as int)),
        decreases line@.len() - j,
    {
        proof {
            lemma_word_len_step(line@, j as int);
        }
        j += 1;
    }
    assert(word_len(line@.skip(j as int)) == 0);
    assert(line@.skip(i as int).take(j - i) =~= line@.subrange(i as int, j as int));
    assert(line@.skip(i as int).skip(j - i) =~= line@.skip(j as int));
    Some((i, j))
}

/// Every word of `line[from..]`, in order.
pub fn split_words(line: &Vec<char>, from: usize) -> (ws: Vec<Vec<char>>)
    requires
        from <= line@.len(),
    ensures
        ws.deep_view() == words(line@.skip(from as int)),
{
    let mut ws: Vec<Vec<char>> = Vec::new();
    let mut pos = from;
    loop
        invariant
            from <= pos <= line@.len(),
            words(line@.skip(from as int)) == ws.deep_view() + words(line@.skip(pos as int)),
        decreases line@.len() - pos,
    {
        match next_word(line, pos) {
            None => {
                assert(ws.deep_view() + words(line@.skip(pos as int)) =~= ws.deep_view());
                return ws;
            },
            Some((a, b)) => {
                let mut w: Vec<char> = Vec::new();
                let mut k = a;
                while k < b
                    invariant
                        a <= k <= b,
                        b <= line@.len(),
                        w@ == line@.subrange(a as int, k as int),
                    decreases b - k,
                {
                    w.push(line[k]);
                    assert(w@ =~= line@.subrange(a as int, k + 1));
                    k += 1;
                }
                let ghost before = ws.deep_view();
                assert(w.deep_view() =~= w@);
                ws.push(w);
                assert(ws@[ws@.len() - 1].deep_view() == line@.subrange(a as int, b as int));
                assert(ws.deep_view() =~= before.push(line@.subrange(a as int, b as int)));
                assert(before + (seq![line@.subrange(a as int, b as int)] + words(line@.skip(b as int)))
                    =~= ws.deep_view() + words(line@.skip(b as int)));
                pos = b;
            },
        }
    }
}

pub proof fn lemma_trim_end_step(s: Seq<char>, i: int, j: int)
    requires
        0 <= i < j <= s.len(),
        is_space(s[j - 1]),
    ensures
        trim_end(s.subrange(i, j)) == trim_end(s.subrange(i, j - 1)),
{
    assert(s.subrange(i, j).drop_last() =~= s.subrange(i, j - 1));
}

/// `str::trim`, on `s[start..end]`.
pub fn trimmed(s: &Vec<char>, start: usize, end: usize) -> (t: Vec<char>)
    requires
        start <= end <= s@.len(),
    ensures
        t@ == trim(s@.subrange(start as int, end as int)),
{
    let ghost p = s@.subrange(start as int, end as int);
    let mut i: usize = start;
    assert(p.skip(0) =~= p);
    while i < end && space(s[i])
        invariant
            start <= i <= end,
            end <= s@.len(),
            p == s@.subrange(start as int, end as int),
            skip_space(p) == skip_space(p.skip(i - start)),
        decreases end - i,
    {
        proof {
            lemma_skip_space_step(p, i - start);
        }
        i += 1;
    }
    assert(skip_space(p.skip(i - start)) == p.skip(i - start));
    assert(p.skip(i - start) =~= s@.subrange(i as int, end as int));
    let mut j: usize = end;
    while j > i && space(s[j - 1])
        invariant
            i <= j <= end,
            end <= s@.len(),
            trim(p) == trim_end(s@.subrange(i as int, j as int)),
        decreases j - i,
    {
        proof {
            lemma_trim_end_step(s@, i as int, j as int);
        }
        j -= 1;
    }
    assert(trim_end(s@.subrange(i as int, j as int)) == s@.subrange(i as int, j as int));
    let mut t: Vec<char> = Vec::new();
    let mut k = i;
    while k < j
        invariant
            i <= k <= j,
            j <= s@.len(),
            t@ == s@.subrange(i as int, k as int),
        decreases j - k,
    {
        t.push(s[k]);
        assert(t@ =~= s@.subrange(i as int, k + 1));
        k += 1;
    }
    t
}

} // verus!
