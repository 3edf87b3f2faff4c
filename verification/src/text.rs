//! Text: decimal numbers, columns, trimming and searching, over sequences of characters.

use vstd::prelude::*;
use vstd::string::*;
use vstd::utf8::*;

verus! {

/// `String::push`: the string grows by exactly that character, at its end.
pub assume_specification[ String::push ](s: &mut String, c: char)
    ensures
        final(s)@ == old(s)@.push(c),
;

// ---------------------------------------------------------------------------------------------
// Decimal numbers

/// The character a decimal digit is written as.
pub open spec fn digit(d: int) -> char {
    if d == 0 {
        '0'
    } else if d == 1 {
        '1'
    } else if d == 2 {
        '2'
    } else if d == 3 {
        '3'
    } else if d == 4 {
        '4'
    } else if d == 5 {
        '5'
    } else if d == 6 {
        '6'
    } else if d == 7 {
        '7'
    } else if d == 8 {
        '8'
    } else {
        '9'
    }
}

/// A number in base ten, without leading zeros.
pub open spec fn decimal(n: nat) -> Seq<char>
    decreases n,
{
    if n < 10 {
        seq![digit(n as int)]
    } else {
        decimal(n / 10).push(digit((n % 10) as int))
    }
}

/// A signed number in base ten.
pub open spec fn signed(n: int) -> Seq<char> {
    if n < 0 {
        seq!['-'] + decimal((-n) as nat)
    } else {
        decimal(n as nat)
    }
}

fn digit_char(d: u64) -> (c: char)
    requires
        d < 10,
    ensures
        c == digit(d as int),
{
    match d {
        0 => '0',
        1 => '1',
        2 => '2',
        3 => '3',
        4 => '4',
        5 => '5',
        6 => '6',
        7 => '7',
        8 => '8',
        _ => '9',
    }
}

/// Appends `n` in base ten.
pub fn push_decimal(out: &mut String, n: u64)
    ensures
        final(out)@ == old(out)@ + decimal(n as nat),
    decreases n,
{
    if n >= 10 {
        push_decimal(out, n / 10);
    }
    out.push(digit_char(n % 10));
    proof {
        if n >= 10 {
            assert(out@ =~= old(out)@ + decimal((n / 10) as nat).push(digit((n % 10) as int)));
        } else {
            assert(out@ =~= old(out)@ + decimal(n as nat));
        }
    }
}

/// `n` in base ten.
pub fn decimal_text(n: u64) -> (text: String)
    ensures
        text@ == decimal(n as nat),
{
    let mut out = String::new();
    push_decimal(&mut out, n);
    assert(out@ =~= decimal(n as nat));
    out
}

/// `n` in base ten, with its sign when it is negative.
pub fn signed_text(n: i64) -> (text: String)
    ensures
        text@ == signed(n as int),
{
    let mut out = String::new();
    if n < 0 {
        out.push('-');
        let magnitude: u64 = (-(n + 1)) as u64 + 1;
        push_decimal(&mut out, magnitude);
        assert(out@ =~= signed(n as int));
    } else {
        push_decimal(&mut out, n as u64);
        assert(out@ =~= signed(n as int));
    }
    out
}

// ---------------------------------------------------------------------------------------------
// Characters and text

/// The characters of `text`, in order.
pub fn chars_of(text: &str) -> (chars: Vec<char>)
    ensures
        chars@ == text@,
{
    let mut chars: Vec<char> = Vec::new();
    for c in iter: text.chars()
        invariant
            chars@ =~= text@.take(iter.index()),
            iter.seq() == text@,
    {
        chars.push(c);
    }
    assert(text@.take(text@.len() as int) =~= text@);
    chars
}

/// The text made of `chars[from..to]`.
pub fn text_of(chars: &Vec<char>, from: usize, to: usize) -> (text: String)
    requires
        from <= to <= chars@.len(),
    ensures
        text@ == chars@.subrange(from as int, to as int),
{
    let mut text = String::new();
    let mut i: usize = from;
    while i < to
        invariant
            from <= i <= to <= chars@.len(),
            text@ =~= chars@.subrange(from as int, i as int),
        decreases to - i,
    {
        text.push(chars[i]);
        i += 1;
    }
    text
}

/// Whether two texts are the same text.
pub fn same(a: &str, b: &str) -> (equal: bool)
    ensures
        equal == (a@ == b@),
{
    let a: String = a.to_owned();
    let b: String = b.to_owned();
    a == b
}

/// A copy of `text`.
pub fn copied(text: &String) -> (copy: String)
    ensures
        copy@ == text@,
{
    text.clone()
}

// ---------------------------------------------------------------------------------------------
// Whitespace and words

/// The characters Unicode gives the property `White_Space`.
pub open spec fn white(c: char) -> bool {
    let u = c as u32;
    9 <= u <= 13 || u == 32 || u == 0x85 || u == 0xA0 || u == 0x1680 || 0x2000 <= u <= 0x200A || u
        == 0x2028 || u == 0x2029 || u == 0x202F || u == 0x205F || u == 0x3000
}

/// Whether `c` is whitespace.
pub fn is_white(c: char) -> (is: bool)
    ensures
        is == white(c),
{
    let u: u32 = c as u32;
    (9 <= u && u <= 13) || u == 32 || u == 0x85 || u == 0xA0 || u == 0x1680 || (0x2000 <= u && u
        <= 0x200A) || u == 0x2028 || u == 0x2029 || u == 0x202F || u == 0x205F || u == 0x3000
}

/// The characters Unicode calls controls.
pub open spec fn control(c: char) -> bool {
    let u = c as u32;
    u <= 0x1F || 0x7F <= u <= 0x9F
}

/// Whether `c` is a control character.
pub fn is_control(c: char) -> (is: bool)
    ensures
        is == control(c),
{
    let u: u32 = c as u32;
    u <= 0x1F || (0x7F <= u && u <= 0x9F)
}

/// The first position at or after `i` that holds no whitespace, or the end.
pub open spec fn skip_white(s: Seq<char>, i: int) -> int
    decreases s.len() - i,
{
    if 0 <= i < s.len() && white(s[i]) {
        skip_white(s, i + 1)
    } else {
        i
    }
}

/// The first position at or after `i` that holds whitespace, or the end.
pub open spec fn word_end(s: Seq<char>, i: int) -> int
    decreases s.len() - i,
{
    if 0 <= i < s.len() && !white(s[i]) {
        word_end(s, i + 1)
    } else {
        i
    }
}

/// The end of `s[..i]` once the whitespace it ends in is left out.
pub open spec fn back_white(s: Seq<char>, i: int) -> int
    decreases i,
{
    if 0 < i <= s.len() && white(s[i - 1]) {
        back_white(s, i - 1)
    } else {
        i
    }
}

/// `s` without the whitespace at its two ends.
pub open spec fn trim(s: Seq<char>) -> Seq<char> {
    let from = skip_white(s, 0);
    let to = back_white(s, s.len() as int);
    if from < to {
        s.subrange(from, to)
    } else {
        seq![]
    }
}

/// The word that starts at or after `i`: the characters up to the next whitespace. Empty when there
/// is none.
pub open spec fn word_from(s: Seq<char>, i: int) -> Seq<char> {
    let from = skip_white(s, i);
    s.subrange(from, word_end(s, from))
}

/// The second word of `s`, counting from one. Empty when there is none.
pub open spec fn second_word(s: Seq<char>) -> Seq<char> {
    word_from(s, word_end(s, skip_white(s, 0)))
}

pub proof fn lemma_skip_white(s: Seq<char>, i: int)
    requires
        0 <= i <= s.len(),
    ensures
        i <= skip_white(s, i) <= s.len(),
        skip_white(s, i) < s.len() ==> !white(s[skip_white(s, i)]),
        forall|k: int| i <= k < skip_white(s, i) ==> white(#[trigger] s[k]),
    decreases s.len() - i,
{
    if i < s.len() && white(s[i]) {
        lemma_skip_white(s, i + 1);
    }
}

pub proof fn lemma_word_end(s: Seq<char>, i: int)
    requires
        0 <= i <= s.len(),
    ensures
        i <= word_end(s, i) <= s.len(),
        forall|k: int| i <= k < word_end(s, i) ==> !white(#[trigger] s[k]),
    decreases s.len() - i,
{
    if i < s.len() && !white(s[i]) {
        lemma_word_end(s, i + 1);
    }
}

pub proof fn lemma_back_white(s: Seq<char>, i: int)
    requires
        0 <= i <= s.len(),
    ensures
        0 <= back_white(s, i) <= i,
        back_white(s, i) > 0 ==> !white(s[back_white(s, i) - 1]),
        forall|k: int| back_white(s, i) <= k < i ==> white(#[trigger] s[k]),
    decreases i,
{
    if i > 0 && white(s[i - 1]) {
        lemma_back_white(s, i - 1);
    }
}

fn skip_white_at(chars: &Vec<char>, from: usize) -> (at: usize)
    requires
        from <= chars@.len(),
    ensures
        at == skip_white(chars@, from as int),
        from <= at <= chars@.len(),
{
    let mut i: usize = from;
    while i < chars.len() && is_white(chars[i])
        invariant
            from <= i <= chars@.len(),
            skip_white(chars@, from as int) == skip_white(chars@, i as int),
        decreases chars@.len() - i,
    {
        i += 1;
    }
    i
}

fn word_end_at(chars: &Vec<char>, from: usize) -> (at: usize)
    requires
        from <= chars@.len(),
    ensures
        at == word_end(chars@, from as int),
        from <= at <= chars@.len(),
{
    let mut i: usize = from;
    while i < chars.len() && !is_white(chars[i])
        invariant
            from <= i <= chars@.len(),
            word_end(chars@, from as int) == word_end(chars@, i as int),
        decreases chars@.len() - i,
    {
        i += 1;
    }
    i
}

fn back_white_at(chars: &Vec<char>) -> (at: usize)
    ensures
        at == back_white(chars@, chars@.len() as int),
        at <= chars@.len(),
{
    let mut i: usize = chars.len();
    while i > 0 && is_white(chars[i - 1])
        invariant
            i <= chars@.len(),
            back_white(chars@, chars@.len() as int) == back_white(chars@, i as int),
        decreases i,
    {
        i -= 1;
    }
    i
}

/// `text` without the whitespace at its two ends.
pub fn trimmed(text: &str) -> (out: String)
    ensures
        out@ == trim(text@),
{
    let chars = chars_of(text);
    let from: usize = skip_white_at(&chars, 0);
    let to: usize = back_white_at(&chars);
    if from < to {
        text_of(&chars, from, to)
    } else {
        proof {
            reveal_strlit("");
            assert(""@ =~= seq![]);
        }
        String::from_str("")
    }
}

/// The second word of `text`, counting from one. Empty when there is none.
pub fn second_word_of(text: &str) -> (word: String)
    ensures
        word@ == second_word(text@),
{
    let chars = chars_of(text);
    let first: usize = skip_white_at(&chars, 0);
    let first_end: usize = word_end_at(&chars, first);
    let second: usize = skip_white_at(&chars, first_end);
    let second_end: usize = word_end_at(&chars, second);
    text_of(&chars, second, second_end)
}

/// The words of `s` from position `i` on: the runs between whitespace, in order.
pub open spec fn words_from(s: Seq<char>, i: int) -> Seq<Seq<char>>
    decreases s.len() - i,
{
    if i < 0 || i >= s.len() {
        seq![]
    } else if white(s[i]) {
        words_from(s, i + 1)
    } else {
        let to = word_end(s, i + 1);
        if i < to <= s.len() {
            seq![s.subrange(i, to)] + words_from(s, to)
        } else {
            seq![]
        }
    }
}

/// `s` on one line: its words, with one space between each two.
pub open spec fn one_line(s: Seq<char>) -> Seq<char> {
    join(words_from(s, 0), seq![' '])
}

/// `text` on one line: its words, with one space between each two.
pub fn line_of(text: &str) -> (line: String)
    ensures
        line@ == one_line(text@),
{
    let chars = chars_of(text);
    let mut words: Vec<String> = Vec::new();
    let mut i: usize = 0;
    assert(texts(words@) + words_from(text@, 0) =~= words_from(text@, 0));
    while i < chars.len()
        invariant
            i <= chars@.len(),
            chars@ == text@,
            texts(words@) + words_from(text@, i as int) == words_from(text@, 0),
        decreases chars@.len() - i,
    {
        if is_white(chars[i]) {
            i += 1;
        } else {
            let ghost before = words@;
            let to: usize = word_end_at(&chars, i + 1);
            words.push(text_of(&chars, i, to));
            proof {
                let word = text@.subrange(i as int, to as int);
                assert(texts(words@) =~= texts(before).push(word));
                assert(texts(before) + (seq![word] + words_from(text@, to as int)) =~= texts(
                    words@,
                ) + words_from(text@, to as int));
            }
            i = to;
        }
    }
    assert(words_from(text@, i as int) =~= seq![]);
    assert(texts(words@) =~= words_from(text@, 0));
    proof {
        reveal_strlit(" ");
        assert(" "@ =~= seq![' ']);
    }
    join_texts(&words, " ")
}

proof fn lemma_join_front(first: Seq<char>, rest: Seq<Seq<char>>, separator: Seq<char>)
    ensures
        join(seq![first] + rest, separator) == first + (if rest.len() == 0 {
            seq![]
        } else {
            separator + join(rest, separator)
        }),
    decreases rest.len(),
{
    let all = seq![first] + rest;
    if rest.len() == 0 {
        assert(all[0] == first);
        assert(first =~= first + seq![]);
    } else {
        assert(all.drop_last() =~= seq![first] + rest.drop_last());
        assert(all.last() == rest.last());
        lemma_join_front(first, rest.drop_last(), separator);
        if rest.len() == 1 {
            assert(join(rest.drop_last(), separator) =~= seq![]);
            assert(rest.last() == rest[0]);
            assert(join(all, separator) =~= first + (separator + rest[0]));
        } else {
            assert(join(all, separator) =~= first + (separator + join(rest, separator)));
        }
    }
}

/// One line of a text is no longer than the text, and the only whitespace in it is single spaces
/// between words: no line break survives.
pub proof fn law_one_line_is_one_line(s: Seq<char>)
    ensures
        one_line(s).len() <= s.len(),
        forall|k: int| 0 <= k < one_line(s).len() ==> {
            let c = #[trigger] one_line(s)[k];
            white(c) ==> c == ' '
        },
{
    lemma_one_line_from(s, 0);
}

proof fn lemma_one_line_from(s: Seq<char>, i: int)
    requires
        0 <= i <= s.len(),
    ensures
        join(words_from(s, i), seq![' ']).len() <= s.len() - i,
        forall|k: int| 0 <= k < join(words_from(s, i), seq![' ']).len() ==> {
            let c = #[trigger] join(words_from(s, i), seq![' '])[k];
            white(c) ==> c == ' '
        },
    decreases s.len() - i,
{
    if i < s.len() {
        if white(s[i]) {
            lemma_one_line_from(s, i + 1);
        } else {
            let to = word_end(s, i + 1);
            lemma_word_end(s, i + 1);
            lemma_word_stops(s, i + 1);
            let word = s.subrange(i, to);
            let rest = words_from(s, to);
            lemma_join_front(word, rest, seq![' ']);
            assert forall|k: int| 0 <= k < word.len() implies !white(#[trigger] word[k]) by {
                assert(word[k] == s[i + k]);
            }
            if to < s.len() {
                assert(white(s[to]));
                assert(rest == words_from(s, to + 1));
                lemma_one_line_from(s, to + 1);
            }
        }
    }
}

proof fn lemma_word_stops(s: Seq<char>, i: int)
    requires
        0 <= i <= s.len(),
    ensures
        word_end(s, i) < s.len() ==> white(s[word_end(s, i)]),
    decreases s.len() - i,
{
    if i < s.len() && !white(s[i]) {
        lemma_word_stops(s, i + 1);
    }
}

// ---------------------------------------------------------------------------------------------
// Searching

/// Whether `needle` stands at position `i` of `hay`.
pub open spec fn stands_at<T>(hay: Seq<T>, needle: Seq<T>, i: int) -> bool {
    0 <= i && i + needle.len() <= hay.len() && hay.subrange(i, i + needle.len()) == needle
}

/// The first position at or after `i` at which `needle` stands in `hay`.
pub open spec fn find_from<T>(hay: Seq<T>, needle: Seq<T>, i: int) -> Option<int>
    decreases hay.len() + 1 - i,
{
    if i < 0 || i + needle.len() > hay.len() {
        None
    } else if stands_at(hay, needle, i) {
        Some(i)
    } else {
        find_from(hay, needle, i + 1)
    }
}

/// Whether `needle` occurs in `hay`.
pub open spec fn occurs<T>(hay: Seq<T>, needle: Seq<T>) -> bool {
    exists|i: int| stands_at(hay, needle, i)
}

/// What the first position is: the needle stands there and nowhere before. No position means it
/// stands nowhere.
pub proof fn lemma_find_from<T>(hay: Seq<T>, needle: Seq<T>, i: int)
    requires
        0 <= i,
    ensures
        match find_from(hay, needle, i) {
            Some(at) => i <= at && stands_at(hay, needle, at) && forall|k: int|
                i <= k < at ==> !stands_at(hay, needle, k),
            None => forall|k: int| i <= k ==> !stands_at(hay, needle, k),
        },
    decreases hay.len() + 1 - i,
{
    if i + needle.len() <= hay.len() && !stands_at(hay, needle, i) {
        lemma_find_from(hay, needle, i + 1);
    }
}

/// Whether `needle` stands at position `i` of `hay`.
pub fn bytes_stand_at(hay: &[u8], needle: &[u8], i: usize) -> (stands: bool)
    requires
        i <= hay@.len(),
    ensures
        stands == stands_at(hay@, needle@, i as int),
{
    if needle.len() > hay.len() - i {
        return false;
    }
    let count: usize = hay.len();
    let mut k: usize = 0;
    while k < needle.len()
        invariant
            k <= needle@.len(),
            i + needle@.len() <= hay@.len(),
            count == hay@.len(),
            forall|j: int| 0 <= j < k ==> hay@[i + j] == #[trigger] needle@[j],
        decreases needle@.len() - k,
    {
        if hay[i + k] != needle[k] {
            assert(hay@.subrange(i as int, i + needle@.len())[k as int] != needle@[k as int]);
            return false;
        }
        k += 1;
    }
    assert(hay@.subrange(i as int, i + needle@.len()) =~= needle@);
    true
}

/// The first position at which `needle` stands in `hay`.
pub fn find_bytes(hay: &[u8], needle: &[u8]) -> (at: Option<usize>)
    ensures
        match at {
            Some(i) => find_from(hay@, needle@, 0) == Some(i as int) && i + needle@.len()
                <= hay@.len(),
            None => find_from(hay@, needle@, 0) is None,
        },
{
    let mut i: usize = 0;
    while needle.len() <= hay.len() - i
        invariant
            i <= hay@.len(),
            find_from(hay@, needle@, 0) == find_from(hay@, needle@, i as int),
        decreases hay@.len() - i,
    {
        if bytes_stand_at(hay, needle, i) {
            return Some(i);
        }
        if i == hay.len() {
            assert(find_from(hay@, needle@, i + 1) is None);
            return None;
        }
        i += 1;
    }
    None
}

/// Whether `needle` stands at position `i` of `hay`.
pub fn chars_stand_at(hay: &Vec<char>, needle: &Vec<char>, i: usize) -> (stands: bool)
    requires
        i <= hay@.len(),
    ensures
        stands == stands_at(hay@, needle@, i as int),
{
    if needle.len() > hay.len() - i {
        return false;
    }
    let count: usize = hay.len();
    let mut k: usize = 0;
    while k < needle.len()
        invariant
            k <= needle@.len(),
            i + needle@.len() <= hay@.len(),
            count == hay@.len(),
            forall|j: int| 0 <= j < k ==> hay@[i + j] == #[trigger] needle@[j],
        decreases needle@.len() - k,
    {
        if hay[i + k] != needle[k] {
            assert(hay@.subrange(i as int, i + needle@.len())[k as int] != needle@[k as int]);
            return false;
        }
        k += 1;
    }
    assert(hay@.subrange(i as int, i + needle@.len()) =~= needle@);
    true
}

/// Whether `needle` occurs in `hay`.
pub fn contains(hay: &str, needle: &str) -> (does: bool)
    ensures
        does == occurs(hay@, needle@),
{
    let long = chars_of(hay);
    let short = chars_of(needle);
    let mut i: usize = 0;
    while i < long.len()
        invariant
            i <= long@.len(),
            long@ == hay@,
            short@ == needle@,
            forall|k: int| 0 <= k < i ==> !stands_at(hay@, needle@, k),
        decreases long@.len() - i,
    {
        if chars_stand_at(&long, &short, i) {
            return true;
        }
        i += 1;
    }
    let last: bool = chars_stand_at(&long, &short, i);
    assert(last ==> stands_at(hay@, needle@, i as int));
    last
}

/// The first position of `c` in `s`, or the length of `s` when it does not occur.
pub open spec fn first_of<T>(s: Seq<T>, c: T, i: int) -> int
    decreases s.len() - i,
{
    if 0 <= i < s.len() && s[i] != c {
        first_of(s, c, i + 1)
    } else {
        i
    }
}

pub proof fn lemma_first_of<T>(s: Seq<T>, c: T, i: int)
    requires
        0 <= i <= s.len(),
    ensures
        i <= first_of(s, c, i) <= s.len(),
        first_of(s, c, i) < s.len() ==> s[first_of(s, c, i)] == c,
        forall|k: int| i <= k < first_of(s, c, i) ==> #[trigger] s[k] != c,
    decreases s.len() - i,
{
    if i < s.len() && s[i] != c {
        lemma_first_of(s, c, i + 1);
    }
}

/// `s` split at the first `c`: what stands before it and what stands after it.
pub open spec fn split_once(s: Seq<char>, c: char) -> Option<(Seq<char>, Seq<char>)> {
    let at = first_of(s, c, 0);
    if at < s.len() {
        Some((s.subrange(0, at), s.subrange(at + 1, s.len() as int)))
    } else {
        None
    }
}

fn first_char(chars: &Vec<char>, c: char) -> (at: usize)
    ensures
        at == first_of(chars@, c, 0),
        at <= chars@.len(),
{
    let mut i: usize = 0;
    while i < chars.len() && chars[i] != c
        invariant
            i <= chars@.len(),
            first_of(chars@, c, 0) == first_of(chars@, c, i as int),
        decreases chars@.len() - i,
    {
        i += 1;
    }
    i
}

/// `text` split at the first `c`.
pub fn split_at_first(text: &str, c: char) -> (halves: Option<(String, String)>)
    ensures
        match (halves, split_once(text@, c)) {
            (Some(found), Some(model)) => found.0@ == model.0 && found.1@ == model.1,
            (None, None) => true,
            _ => false,
        },
{
    let chars = chars_of(text);
    let at: usize = first_char(&chars, c);
    if at < chars.len() {
        Some((text_of(&chars, 0, at), text_of(&chars, at + 1, chars.len())))
    } else {
        None
    }
}

/// Whether `c` occurs in `text`.
pub fn has_char(text: &str, c: char) -> (has: bool)
    ensures
        has == text@.contains(c),
{
    let chars = chars_of(text);
    let at: usize = first_char(&chars, c);
    proof {
        lemma_first_of(chars@, c, 0);
        if at < chars@.len() {
            assert(text@[at as int] == c);
        }
    }
    at < chars.len()
}

// ---------------------------------------------------------------------------------------------
// Letter case

/// An ASCII capital as its small letter; every other character as it is.
pub open spec fn lower(c: char) -> char {
    if 'A' <= c <= 'Z' {
        ((c as u8) + 32) as u8 as char
    } else {
        c
    }
}

/// A text with its ASCII capitals made small.
pub open spec fn lowered(s: Seq<char>) -> Seq<char> {
    s.map_values(|c: char| lower(c))
}

/// An ASCII capital as its small letter; every other character as it is.
pub fn lower_char(c: char) -> (out: char)
    ensures
        out == lower(c),
{
    if 'A' <= c && c <= 'Z' {
        ((c as u8) + 32) as char
    } else {
        c
    }
}

/// `text` with its ASCII capitals made small.
pub fn lower_text(text: &str) -> (out: String)
    ensures
        out@ == lowered(text@),
{
    let chars = chars_of(text);
    let mut out = String::new();
    let mut i: usize = 0;
    while i < chars.len()
        invariant
            i <= chars@.len(),
            chars@ == text@,
            out@ =~= lowered(text@).take(i as int),
        decreases chars@.len() - i,
    {
        out.push(lower_char(chars[i]));
        i += 1;
    }
    assert(lowered(text@).take(text@.len() as int) =~= lowered(text@));
    out
}

// ---------------------------------------------------------------------------------------------
// Numbers out of text

/// Whether `c` is a decimal digit.
pub open spec fn is_digit(c: char) -> bool {
    '0' <= c <= '9'
}

/// The number a run of digits spells.
pub open spec fn number(s: Seq<char>) -> nat
    decreases s.len(),
{
    if s.len() == 0 {
        0
    } else {
        (number(s.drop_last()) * 10 + (s.last() as u32 - '0' as u32)) as nat
    }
}

/// The digits of an unsigned number: one leading `+` is allowed and says nothing.
pub open spec fn digits_of(s: Seq<char>) -> Seq<char> {
    if s.len() > 0 && s[0] == '+' {
        s.skip(1)
    } else {
        s
    }
}

/// The unsigned number `s` spells, if it spells one that is at most `max`.
pub open spec fn unsigned(s: Seq<char>, max: nat) -> Option<nat> {
    let digits = digits_of(s);
    if digits.len() > 0 && (forall|i: int| 0 <= i < digits.len() ==> is_digit(#[trigger] digits[i]))
        && number(digits) <= max {
        Some(number(digits))
    } else {
        None
    }
}

proof fn lemma_number_grows(s: Seq<char>, i: int)
    requires
        0 <= i <= s.len(),
        forall|k: int| 0 <= k < s.len() ==> is_digit(#[trigger] s[k]),
    ensures
        number(s.take(i)) <= number(s),
    decreases s.len() - i,
{
    if i < s.len() {
        lemma_number_grows(s, i + 1);
        assert(s.take(i + 1).drop_last() =~= s.take(i));
        assert(s.take(i + 1).last() == s[i]);
    } else {
        assert(s.take(i) =~= s);
    }
}

/// The unsigned number `text` spells, if it spells one that is at most `max`.
pub fn parse_unsigned(text: &str, max: u64) -> (value: Option<u64>)
    ensures
        match (value, unsigned(text@, max as nat)) {
            (Some(v), Some(n)) => v == n,
            (None, None) => true,
            _ => false,
        },
{
    let chars = chars_of(text);
    let start: usize = if chars.len() > 0 && chars[0] == '+' {
        1
    } else {
        0
    };
    let ghost digits = digits_of(text@);
    assert(digits =~= text@.skip(start as int));
    if start == chars.len() {
        return None;
    }
    let mut value: u64 = 0;
    let mut over: bool = false;
    let mut i: usize = start;
    assert(digits.take(0) =~= seq![]);
    while i < chars.len()
        invariant
            start <= i <= chars@.len(),
            chars@ == text@,
            digits == digits_of(text@),
            digits == text@.skip(start as int),
            forall|k: int| 0 <= k < i - start ==> is_digit(#[trigger] digits[k]),
            !over ==> value == number(digits.take(i - start)) && value <= max,
            over ==> number(digits.take(i - start)) > max,
        decreases chars@.len() - i,
    {
        let c = chars[i];
        assert(digits[i - start] == c);
        if !('0' <= c && c <= '9') {
            return None;
        }
        let d: u64 = (c as u64) - ('0' as u64);
        proof {
            assert(digits.take(i - start + 1).drop_last() =~= digits.take(i - start));
            assert(digits.take(i - start + 1).last() == c);
        }
        if !over {
            if value > (max / 10) {
                over = true;
            } else {
                let tens: u64 = value * 10;
                if d > max - tens {
                    over = true;
                } else {
                    value = tens + d;
                }
            }
        }
        i += 1;
    }
    assert(digits.take(digits.len() as int) =~= digits);
    if over {
        None
    } else {
        Some(value)
    }
}

// ---------------------------------------------------------------------------------------------
// Several texts

/// The texts a list of strings holds.
pub open spec fn texts(list: Seq<String>) -> Seq<Seq<char>> {
    list.map_values(|text: String| text@)
}

/// The text an optional string holds.
pub open spec fn optional_text(text: Option<String>) -> Option<Seq<char>> {
    match text {
        Some(text) => Some(text@),
        None => None,
    }
}

/// `parts` one after another, with `separator` between each two.
pub open spec fn join(parts: Seq<Seq<char>>, separator: Seq<char>) -> Seq<char>
    decreases parts.len(),
{
    if parts.len() == 0 {
        seq![]
    } else if parts.len() == 1 {
        parts[0]
    } else {
        join(parts.drop_last(), separator) + separator + parts.last()
    }
}

/// `parts` one after another, with `separator` between each two.
pub fn join_texts(parts: &Vec<String>, separator: &str) -> (out: String)
    ensures
        out@ == join(texts(parts@), separator@),
{
    let mut out = String::new();
    let mut i: usize = 0;
    while i < parts.len()
        invariant
            i <= parts@.len(),
            out@ == join(texts(parts@).take(i as int), separator@),
        decreases parts@.len() - i,
    {
        if i > 0 {
            out.append(separator);
        }
        out.append(parts[i].as_str());
        proof {
            let next = texts(parts@).take(i + 1);
            assert(next.drop_last() =~= texts(parts@).take(i as int));
            assert(next.last() == parts@[i as int]@);
            if i == 0 {
                assert(out@ =~= next[0]);
            }
        }
        i += 1;
    }
    assert(texts(parts@).take(parts@.len() as int) =~= texts(parts@));
    out
}

/// A copy of a list of strings.
pub fn copied_texts(list: &Vec<String>) -> (copy: Vec<String>)
    ensures
        texts(copy@) == texts(list@),
{
    let mut copy: Vec<String> = Vec::new();
    let mut i: usize = 0;
    while i < list.len()
        invariant
            i <= list@.len(),
            texts(copy@) =~= texts(list@).take(i as int),
        decreases list@.len() - i,
    {
        let ghost before = copy@;
        copy.push(copied(&list[i]));
        assert(texts(copy@) =~= texts(before).push(list@[i as int]@));
        assert(texts(list@).take(i + 1) =~= texts(list@).take(i as int).push(list@[i as int]@));
        i += 1;
    }
    assert(texts(list@).take(list@.len() as int) =~= texts(list@));
    copy
}

/// Whether `text` is one of `list`.
pub fn is_listed(list: &Vec<String>, text: &str) -> (listed: bool)
    ensures
        listed == texts(list@).contains(text@),
{
    let mut i: usize = 0;
    while i < list.len()
        invariant
            i <= list@.len(),
            forall|k: int| 0 <= k < i ==> #[trigger] texts(list@)[k] != text@,
        decreases list@.len() - i,
    {
        if same(list[i].as_str(), text) {
            assert(texts(list@)[i as int] == text@);
            return true;
        }
        i += 1;
    }
    false
}

// ---------------------------------------------------------------------------------------------
// Order

/// Whether `a` comes before `b` or is `b`, character by character.
pub open spec fn ordered(a: Seq<char>, b: Seq<char>) -> bool
    decreases a.len(),
{
    if a.len() == 0 {
        true
    } else if b.len() == 0 {
        false
    } else if a[0] != b[0] {
        a[0] < b[0]
    } else {
        ordered(a.drop_first(), b.drop_first())
    }
}

/// Whether every text of a list comes before the ones behind it, or is the same.
pub open spec fn in_order(list: Seq<Seq<char>>) -> bool {
    forall|i: int, j: int| 0 <= i <= j < list.len() ==> ordered(#[trigger] list[i], #[trigger] list[j])
}

/// Of two texts one comes before the other.
pub proof fn lemma_ordered_total(a: Seq<char>, b: Seq<char>)
    ensures
        ordered(a, b) || ordered(b, a),
        ordered(a, a),
    decreases a.len(),
{
    if a.len() > 0 {
        lemma_ordered_total(a.drop_first(), a.drop_first());
        if b.len() > 0 && a[0] == b[0] {
            lemma_ordered_total(a.drop_first(), b.drop_first());
        }
    }
}

/// What comes before a text comes before what that comes before.
pub proof fn lemma_ordered_transitive(a: Seq<char>, b: Seq<char>, c: Seq<char>)
    requires
        ordered(a, b),
        ordered(b, c),
    ensures
        ordered(a, c),
    decreases a.len(),
{
    if a.len() > 0 && b.len() > 0 && c.len() > 0 && a[0] == b[0] && b[0] == c[0] {
        lemma_ordered_transitive(a.drop_first(), b.drop_first(), c.drop_first());
    }
}

/// Whether `a` comes before `b` or is `b`, character by character.
pub fn is_ordered(a: &str, b: &str) -> (is: bool)
    ensures
        is == ordered(a@, b@),
{
    let left = chars_of(a);
    let right = chars_of(b);
    let mut i: usize = 0;
    assert(a@.skip(0) =~= a@);
    assert(b@.skip(0) =~= b@);
    while i < left.len() && i < right.len() && left[i] == right[i]
        invariant
            i <= left@.len(),
            i <= right@.len(),
            left@ == a@,
            right@ == b@,
            ordered(a@, b@) == ordered(a@.skip(i as int), b@.skip(i as int)),
        decreases left@.len() - i,
    {
        assert(a@.skip(i as int).drop_first() =~= a@.skip(i + 1));
        assert(b@.skip(i as int).drop_first() =~= b@.skip(i + 1));
        i += 1;
    }
    if i == left.len() {
        true
    } else if i == right.len() {
        false
    } else {
        left[i] < right[i]
    }
}

fn insert_ordered(list: &mut Vec<String>, text: String)
    requires
        in_order(texts(old(list)@)),
    ensures
        in_order(texts(final(list)@)),
        texts(final(list)@).to_multiset() == texts(old(list)@).to_multiset().insert(text@),
{
    let ghost before = texts(list@);
    let mut at: usize = 0;
    while at < list.len() && is_ordered(list[at].as_str(), text.as_str())
        invariant
            at <= list@.len(),
            before == texts(list@),
            forall|k: int| 0 <= k < at ==> ordered(#[trigger] before[k], text@),
        decreases list@.len() - at,
    {
        assert(before[at as int] == list@[at as int]@);
        at += 1;
    }
    proof {
        if at < before.len() {
            assert(before[at as int] == list@[at as int]@);
            lemma_ordered_total(before[at as int], text@);
        }
        assert forall|k: int| at <= k < before.len() implies ordered(
            text@,
            #[trigger] before[k],
        ) by {
            lemma_ordered_transitive(text@, before[at as int], before[k]);
        }
        lemma_ordered_total(text@, text@);
    }
    list.insert(at, text);
    proof {
        let after = texts(list@);
        assert(after =~= before.insert(at as int, text@));
        before.to_multiset_ensures();
        before.insert_ensures(at as int, text@);
        assert(after.to_multiset() =~= before.to_multiset().insert(text@)) by {
            vstd::seq_lib::to_multiset_insert(before, at as int, text@);
        }
    }
}

/// The texts of `list` in order, each as often as it stands there.
pub fn sorted_texts(list: &Vec<String>) -> (sorted: Vec<String>)
    ensures
        in_order(texts(sorted@)),
        texts(sorted@).to_multiset() == texts(list@).to_multiset(),
{
    let mut sorted: Vec<String> = Vec::new();
    let mut i: usize = 0;
    assert(texts(sorted@) =~= texts(list@).take(0));
    while i < list.len()
        invariant
            i <= list@.len(),
            in_order(texts(sorted@)),
            texts(sorted@).to_multiset() == texts(list@).take(i as int).to_multiset(),
        decreases list@.len() - i,
    {
        insert_ordered(&mut sorted, copied(&list[i]));
        proof {
            let taken = texts(list@).take(i as int);
            taken.to_multiset_ensures();
            assert(texts(list@).take(i + 1) =~= taken.push(list@[i as int]@));
        }
        i += 1;
    }
    assert(texts(list@).take(list@.len() as int) =~= texts(list@));
    sorted
}

/// The text the bytes spell, when they are UTF-8: `std::str::from_utf8`, which accepts exactly the
/// bytes that are UTF-8 throughout and gives the text they encode.
#[verifier::external_body]
pub(crate) fn utf8_text(bytes: &[u8]) -> (text: Option<String>)
    ensures
        match text {
            Some(text) => valid_utf8(bytes@) && text@ == decode_utf8(bytes@),
            None => !valid_utf8(bytes@),
        },
{
    std::str::from_utf8(bytes).ok().map(str::to_owned)
}

} // verus!
