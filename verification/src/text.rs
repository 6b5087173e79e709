//! Character-level helpers shared by the command interpreter and the
//! address parser: blank-separated words, decimal numbers and hexadecimal
//! byte pairs, each with its mathematical meaning over `Seq<char>`.

use vstd::prelude::*;
use vstd::string::*;

verus! {

/// The characters that separate words.
pub open spec fn is_space(c: char) -> bool {
    c == ' ' || c == '\t' || c == '\n' || c == '\r'
}

/// Whether `c` separates words.
pub fn is_space_char(c: char) -> (r: bool)
    ensures
        r == is_space(c),
{
    c == ' ' || c == '\t' || c == '\n' || c == '\r'
}

/// ASCII lower-casing of one character; everything outside `A..=Z` is kept.
pub open spec fn lower(c: char) -> char {
    if 'A' <= c && c <= 'Z' {
        ((c as u8) + 32) as char
    } else {
        c
    }
}

/// Lower-cases one character.
pub fn to_lower(c: char) -> (r: char)
    ensures
        r == lower(c),
{
    if 'A' <= c && c <= 'Z' {
        ((c as u8) + 32u8) as char
    } else {
        c
    }
}

/// A word with every character lower-cased.
pub open spec fn lowered(s: Seq<char>) -> Seq<char> {
    Seq::new(s.len(), |i: int| lower(s[i]))
}

/// Whether `c` is a decimal digit.
pub open spec fn is_digit(c: char) -> bool {
    '0' <= c && c <= '9'
}

/// The value of a decimal digit.
pub open spec fn digit_value(c: char) -> nat {
    (c as u8 - '0' as u8) as nat
}

/// Whether `s` holds decimal digits only.
pub open spec fn all_digits(s: Seq<char>) -> bool {
    forall|i: int| 0 <= i < s.len() ==> is_digit(#[trigger] s[i])
}

/// The number that a sequence of decimal digits denotes.
pub open spec fn digits_value(s: Seq<char>) -> nat
    decreases s.len(),
{
    if s.len() == 0 {
        0
    } else {
        digits_value(s.drop_last()) * 10 + digit_value(s.last())
    }
}

/// The digits of a number text: the text itself, or what follows one
/// leading `+`.
pub open spec fn unsigned_part(s: Seq<char>) -> Seq<char> {
    if s.len() > 0 && s[0] == '+' {
        s.drop_first()
    } else {
        s
    }
}

/// Reading of `s` as an unsigned decimal number no larger than `max`:
/// an optional `+`, then one digit or more, with nothing else around.
pub open spec fn number_in(s: Seq<char>, max: nat) -> Option<nat> {
    let d = unsigned_part(s);
    if d.len() > 0 && all_digits(d) && digits_value(d) <= max {
        Some(digits_value(d))
    } else {
        None
    }
}

/// One more digit multiplies the number by ten and adds the digit.
pub proof fn lemma_digits_value_step(s: Seq<char>, k: int)
    requires
        0 <= k < s.len(),
    ensures
        digits_value(s.take(k + 1)) == digits_value(s.take(k)) * 10 + digit_value(s[k]),
{
    assert(s.take(k + 1).drop_last() =~= s.take(k));
}

/// A longer digit string never denotes a smaller number than its prefix.
pub proof fn lemma_digits_value_grows(s: Seq<char>, k: int)
    requires
        0 <= k <= s.len(),
    ensures
        digits_value(s.take(k)) <= digits_value(s),
    decreases s.len() - k,
{
    if k == s.len() {
        assert(s.take(k) =~= s);
    } else {
        lemma_digits_value_step(s, k);
        lemma_digits_value_grows(s, k + 1);
    }
}

/// Reads the characters `from..to` of `chars` as a number up to `max`.
pub fn parse_number(chars: &Vec<char>, from: usize, to: usize, max: u64) -> (r: Option<u64>)
    requires
        from <= to <= chars.len(),
    ensures
        match r {
            Some(v) => number_in(chars@.subrange(from as int, to as int), max as nat) == Some(
                v as nat,
            ),
            None => number_in(chars@.subrange(from as int, to as int), max as nat) is None,
        },
{
    let ghost s = chars@.subrange(from as int, to as int);
    let start: usize = if from < to && chars[from] == '+' {
        from + 1
    } else {
        from
    };
    let ghost d = unsigned_part(s);
    assert(d =~= chars@.subrange(start as int, to as int));
    if start == to {
        return None;
    }
    let mut i: usize = start;
    let mut acc: u64 = 0;
    while i < to
        invariant
            from <= start <= i <= to <= chars.len(),
            d == chars@.subrange(start as int, to as int),
            d == unsigned_part(chars@.subrange(from as int, to as int)),
            acc as nat == digits_value(d.take(i - start)),
            acc <= max,
            forall|j: int| 0 <= j < i - start ==> is_digit(#[trigger] d[j]),
        decreases to - i,
    {
        let c = chars[i];
        assert(c == d[i - start]);
        if !('0' <= c && c <= '9') {
            assert(!is_digit(d[i - start]));
            return None;
        }
        let v: u64 = (c as u8 - '0' as u8) as u64;
        proof {
            lemma_digits_value_step(d, i - start);
            lemma_digits_value_grows(d, i - start + 1);
        }
        if v > max || acc > (max - v) / 10 {
            return None;
        }
        acc = acc * 10 + v;
        i = i + 1;
    }
    assert(d.take(to - start) =~= d);
    Some(acc)
}

/// The decimal digits of `n`, most significant first, without leading zeros.
pub open spec fn decimal_digits(n: nat) -> Seq<char>
    decreases n,
{
    if n < 10 {
        seq![(('0' as u8) + n as u8) as char]
    } else {
        decimal_digits(n / 10).push((('0' as u8) + (n % 10) as u8) as char)
    }
}

fn digit_str(d: u64) -> (r: &'static str)
    requires
        d < 10,
    ensures
        r@ == seq![(('0' as u8) + d as u8) as char],
{
    let table = "0123456789";
    proof {
        reveal_strlit("0123456789");
    }
    let r = table.substring_ascii(d as usize, d as usize + 1);
    assert(r@ =~= seq![(('0' as u8) + d as u8) as char]);
    r
}

/// Renders `n` in decimal.
pub fn decimal_string(n: u64) -> (r: String)
    ensures
        r@ == decimal_digits(n as nat),
    decreases n,
{
    if n < 10 {
        String::from_str(digit_str(n))
    } else {
        let mut s = decimal_string(n / 10);
        s.append(digit_str(n % 10));
        assert(s@ =~= decimal_digits(n as nat));
        s
    }
}

/// Value of one hexadecimal digit, if `c` is one.
pub open spec fn hex_value(c: char) -> Option<nat> {
    if '0' <= c && c <= '9' {
        Some((c as u8 - '0' as u8) as nat)
    } else if 'a' <= c && c <= 'f' {
        Some((c as u8 - 'a' as u8 + 10) as nat)
    } else if 'A' <= c && c <= 'F' {
        Some((c as u8 - 'A' as u8 + 10) as nat)
    } else {
        None
    }
}

/// Reads one hexadecimal digit.
pub fn hex_digit(c: char) -> (r: Option<u8>)
    ensures
        match r {
            Some(v) => hex_value(c) == Some(v as nat),
            None => hex_value(c) is None,
        },
{
    if '0' <= c && c <= '9' {
        Some(c as u8 - '0' as u8)
    } else if 'a' <= c && c <= 'f' {
        Some(c as u8 - 'a' as u8 + 10)
    } else if 'A' <= c && c <= 'F' {
        Some(c as u8 - 'A' as u8 + 10)
    } else {
        None
    }
}

/// The byte that two characters denote in base 16: two digits, or a `+`
/// and one digit.
pub open spec fn hex_pair_value(a: char, b: char) -> Option<nat> {
    match hex_value(b) {
        Some(low) => if a == '+' {
            Some(low)
        } else {
            match hex_value(a) {
                Some(high) => Some(high * 16 + low),
                None => None,
            }
        },
        None => None,
    }
}

/// Reads a byte from two characters in base 16.
pub fn hex_pair(a: char, b: char) -> (r: Option<u8>)
    ensures
        match r {
            Some(v) => hex_pair_value(a, b) == Some(v as nat),
            None => hex_pair_value(a, b) is None,
        },
{
    match hex_digit(b) {
        Some(low) => {
            if a == '+' {
                Some(low)
            } else {
                match hex_digit(a) {
                    Some(high) => Some(high * 16 + low),
                    None => None,
                }
            }
        },
        None => None,
    }
}

/// The upper-case hexadecimal digit for a value below 16.
pub open spec fn hex_char(d: nat) -> char {
    if d < 10 {
        (('0' as u8) + d as u8) as char
    } else {
        (('A' as u8) + (d - 10) as u8) as char
    }
}

fn hex_str(d: u8) -> (r: &'static str)
    requires
        d < 16,
    ensures
        r@ == seq![hex_char(d as nat)],
{
    let table = "0123456789ABCDEF";
    proof {
        reveal_strlit("0123456789ABCDEF");
    }
    let r = table.substring_ascii(d as usize, d as usize + 1);
    assert(r@ =~= seq![hex_char(d as nat)]);
    r
}

/// Appends the two upper-case hexadecimal digits of `value` to `out`.
pub fn push_hex_byte(out: &mut String, value: u8)
    ensures
        final(out)@ == old(out)@ + seq![
            hex_char((value / 16) as nat),
            hex_char((value % 16) as nat),
        ],
{
    out.append(hex_str(value / 16));
    out.append(hex_str(value % 16));
    assert(out@ =~= old(out)@ + seq![
        hex_char((value / 16) as nat),
        hex_char((value % 16) as nat),
    ]);
}

/// What is left of `s` once its leading blanks are gone.
pub open spec fn skip_spaces(s: Seq<char>) -> Seq<char>
    decreases s.len(),
{
    if s.len() > 0 && is_space(s[0]) {
        skip_spaces(s.drop_first())
    } else {
        s
    }
}

/// Length of the run of non-blank characters that `s` starts with.
pub open spec fn word_len(s: Seq<char>) -> nat
    decreases s.len(),
{
    if s.len() > 0 && !is_space(s[0]) {
        1 + word_len(s.drop_first())
    } else {
        0
    }
}

/// The words of `s`: its maximal runs of non-blank characters, in order.
pub open spec fn words(s: Seq<char>) -> Seq<Seq<char>>
    decreases s.len(),
    via words_decreases
{
    let t = skip_spaces(s);
    if t.len() == 0 {
        Seq::empty()
    } else {
        seq![t.take(word_len(t) as int)] + words(t.skip(word_len(t) as int))
    }
}

#[via_fn]
proof fn words_decreases(s: Seq<char>) {
    let t = skip_spaces(s);
    lemma_skip_spaces_shape(s);
    if t.len() != 0 {
        lemma_word_len_bound(t);
    }
}

/// What is left once the leading blanks are gone is the end of the text,
/// starts with no blank, and only blanks were passed over.
pub proof fn lemma_skip_spaces_shape(s: Seq<char>)
    ensures
        skip_spaces(s).len() <= s.len(),
        skip_spaces(s) == s.skip(s.len() - skip_spaces(s).len()),
        skip_spaces(s).len() > 0 ==> !is_space(skip_spaces(s)[0]),
        forall|i: int| 0 <= i < s.len() - skip_spaces(s).len() ==> is_space(#[trigger] s[i]),
    decreases s.len(),
{
    if s.len() > 0 && is_space(s[0]) {
        let r = s.drop_first();
        lemma_skip_spaces_shape(r);
        let k = r.len() - skip_spaces(r).len();
        assert(r.skip(k) =~= s.skip(k + 1));
        assert forall|i: int| 0 <= i < s.len() - skip_spaces(s).len() implies is_space(
            #[trigger] s[i],
        ) by {
            if i > 0 {
                assert(s[i] == r[i - 1]);
            }
        }
    } else {
        assert(s.skip(0) =~= s);
    }
}

/// A word lies within the text, holds no blank, is not empty where the
/// text starts with no blank, and ends at a blank or at the end.
pub proof fn lemma_word_len_bound(s: Seq<char>)
    ensures
        word_len(s) <= s.len(),
        s.len() > 0 && !is_space(s[0]) ==> word_len(s) > 0,
        forall|i: int| 0 <= i < word_len(s) ==> !is_space(#[trigger] s[i]),
        word_len(s) < s.len() ==> is_space(s[word_len(s) as int]),
    decreases s.len(),
{
    if s.len() > 0 && !is_space(s[0]) {
        let r = s.drop_first();
        lemma_word_len_bound(r);
        assert forall|i: int| 0 <= i < word_len(s) implies !is_space(#[trigger] s[i]) by {
            if i > 0 {
                assert(s[i] == r[i - 1]);
            }
        }
        if word_len(s) < s.len() {
            assert(s[word_len(s) as int] == r[word_len(r) as int]);
        }
    }
}

/// Skipping blanks one at a time: if `s[0..k]` are blanks and `s[k]` is
/// not, the rest after the blanks starts at `k`.
proof fn lemma_skip_spaces_at(s: Seq<char>, k: int)
    requires
        0 <= k <= s.len(),
        forall|i: int| 0 <= i < k ==> is_space(#[trigger] s[i]),
        k < s.len() ==> !is_space(s[k]),
    ensures
        skip_spaces(s) == s.skip(k),
    decreases k,
{
    if k == 0 {
        assert(s.skip(0) =~= s);
    } else {
        let r = s.drop_first();
        assert forall|i: int| 0 <= i < k - 1 implies is_space(#[trigger] r[i]) by {
            assert(r[i] == s[i + 1]);
        }
        lemma_skip_spaces_at(r, k - 1);
        assert(r.skip(k - 1) =~= s.skip(k));
    }
}

proof fn lemma_word_len_at(s: Seq<char>, k: int)
    requires
        0 <= k <= s.len(),
        forall|i: int| 0 <= i < k ==> !is_space(#[trigger] s[i]),
        k < s.len() ==> is_space(s[k]),
    ensures
        word_len(s) == k,
    decreases k,
{
    if k > 0 {
        let r = s.drop_first();
        assert forall|i: int| 0 <= i < k - 1 implies !is_space(#[trigger] r[i]) by {
            assert(r[i] == s[i + 1]);
        }
        lemma_word_len_at(r, k - 1);
    }
}

/// Where the words of `chars` lie, in order, as pairs of a first index and
/// the index after the last.
pub open spec fn spans_cover(chars: Seq<char>, spans: Seq<(usize, usize)>) -> bool {
    &&& spans.len() == words(chars).len()
    &&& forall|i: int|
        0 <= i < spans.len() ==> {
            &&& (#[trigger] spans[i]).0 <= spans[i].1 <= chars.len()
            &&& chars.subrange(spans[i].0 as int, spans[i].1 as int) == words(chars)[i]
        }
}

/// Splits `chars` into its words.
pub fn split_words(chars: &Vec<char>) -> (spans: Vec<(usize, usize)>)
    ensures
        spans_cover(chars@, spans@),
{
    let n = chars.len();
    let mut spans: Vec<(usize, usize)> = Vec::new();
    let mut pos: usize = 0;
    let ghost s = chars@;
    assert(s.skip(0) =~= s);
    loop
        invariant_except_break
            pos <= n,
            n == chars.len(),
            s == chars@,
            words(s) == Seq::new(
                spans.len() as nat,
                |i: int| s.subrange(spans[i].0 as int, spans[i].1 as int),
            ) + words(s.skip(pos as int)),
            forall|i: int| 0 <= i < spans.len() ==> (#[trigger] spans[i]).0 <= spans[i].1 <= n,
        ensures
            spans_cover(chars@, spans@),
        decreases n - pos,
    {
        let ghost rest = s.skip(pos as int);
        let mut start: usize = pos;
        while start < n && is_space_char(chars[start])
            invariant
                pos <= start <= n,
                n == chars.len(),
                s == chars@,
                forall|i: int| pos <= i < start ==> is_space(#[trigger] s[i]),
            decreases n - start,
        {
            start = start + 1;
        }
        proof {
            assert forall|i: int| 0 <= i < start - pos implies is_space(#[trigger] rest[i]) by {
                assert(rest[i] == s[pos + i]);
            }
            lemma_skip_spaces_at(rest, start - pos);
            assert(rest.skip(start - pos) =~= s.skip(start as int));
        }
        if start == n {
            proof {
                assert(words(rest) =~= Seq::<Seq<char>>::empty());
                let built = Seq::new(
                    spans.len() as nat,
                    |i: int| s.subrange(spans[i].0 as int, spans[i].1 as int),
                );
                assert(words(s) =~= built);
            }
            break;
        }
        let mut end: usize = start;
        while end < n && !is_space_char(chars[end])
            invariant
                start <= end <= n,
                n == chars.len(),
                s == chars@,
                forall|i: int| start <= i < end ==> !is_space(#[trigger] s[i]),
            decreases n - end,
        {
            end = end + 1;
        }
        proof {
            let t = s.skip(start as int);
            assert forall|i: int| 0 <= i < end - start implies !is_space(#[trigger] t[i]) by {
                assert(t[i] == s[start + i]);
            }
            lemma_word_len_at(t, end - start);
            assert(t.take(end - start) =~= s.subrange(start as int, end as int));
            assert(t.skip(end - start) =~= s.skip(end as int));
            let before = Seq::new(
                spans.len() as nat,
                |i: int| s.subrange(spans[i].0 as int, spans[i].1 as int),
            );
            let after = Seq::new(
                spans.len() as nat + 1,
                |i: int| s.subrange(spans@.push((start, end))[i].0 as int, spans@.push((start, end))[i].1 as int),
            );
            assert(after =~= before.push(s.subrange(start as int, end as int)));
            assert(words(s) =~= after + words(s.skip(end as int)));
        }
        spans.push((start, end));
        pos = end;
    }
    spans
}

/// `s` without the blanks at its end.
pub open spec fn trimmed_end(s: Seq<char>) -> Seq<char>
    decreases s.len(),
{
    if s.len() > 0 && is_space(s.last()) {
        trimmed_end(s.drop_last())
    } else {
        s
    }
}

/// Whether `s` ends with `tail`.
pub open spec fn ends_with(s: Seq<char>, tail: Seq<char>) -> bool {
    s.len() >= tail.len() && s.skip(s.len() - tail.len()) == tail
}

/// How many characters `chars` has before the blanks at its end.
pub fn trimmed_len(chars: &Vec<char>) -> (n: usize)
    ensures
        n <= chars@.len(),
        chars@.take(n as int) == trimmed_end(chars@),
{
    let mut n = chars.len();
    assert(chars@.take(n as int) =~= chars@);
    while n > 0 && is_space_char(chars[n - 1])
        invariant
            n <= chars@.len(),
            trimmed_end(chars@.take(n as int)) == trimmed_end(chars@),
        decreases n,
    {
        assert(chars@.take(n as int).drop_last() =~= chars@.take(n - 1));
        n = n - 1;
    }
    n
}

/// Whether the first `n` characters, lower-cased, end with `tail`.
pub fn prefix_ends_with(chars: &Vec<char>, n: usize, tail: &str) -> (r: bool)
    requires
        n <= chars@.len(),
    ensures
        r == ends_with(lowered(chars@.take(n as int)), tail@),
{
    let len = tail.unicode_len();
    if n < len {
        return false;
    }
    let r = span_is(chars, n - len, n, tail);
    proof {
        let s = chars@.take(n as int);
        assert(lowered(s).skip(s.len() - len) =~= lowered(chars@.subrange(n - len, n as int)));
    }
    r
}

/// The characters of a string, one by one.
pub fn collect_chars(s: &str) -> (v: Vec<char>)
    ensures
        v@ == s@,
{
    let mut v: Vec<char> = Vec::new();
    for c in it: s.chars()
        invariant
            v@ == it.seq().take(it.index() as int),
    {
        v.push(c);
    }
    v
}

/// Whether the characters `from..to`, lower-cased, spell `word`.
pub fn span_is(chars: &Vec<char>, from: usize, to: usize, word: &str) -> (r: bool)
    requires
        from <= to <= chars.len(),
    ensures
        r == (lowered(chars@.subrange(from as int, to as int)) == word@),
{
    let ghost s = chars@.subrange(from as int, to as int);
    let n = word.unicode_len();
    if to - from != n {
        return false;
    }
    let mut i: usize = 0;
    while i < n
        invariant
            i <= n,
            n == to - from,
            n == word@.len(),
            from <= to <= chars.len(),
            s == chars@.subrange(from as int, to as int),
            forall|j: int| 0 <= j < i ==> lower(#[trigger] s[j]) == word@[j],
        decreases n - i,
    {
        let c = to_lower(chars[from + i]);
        assert(chars[from + i] == s[i as int]);
        if c != word.get_char(i) {
            assert(lowered(s)[i as int] != word@[i as int]);
            return false;
        }
        i = i + 1;
    }
    assert(lowered(s) =~= word@);
    true
}

} // verus!
