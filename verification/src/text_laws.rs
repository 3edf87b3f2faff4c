//! What holds of every text: how numbers read back, how texts are cut and joined, and what a text that
//! was put together says.

use vstd::prelude::*;

use crate::text::{
    back_white, decimal, digits_of, first_of, is_digit, join, lemma_back_white, lemma_first_of,
    lemma_skip_white, lemma_word_end, lower, lowered, number, occurs, one_line, ordered, signed,
    skip_white, split_once, stands_at, trim, unsigned, white, word_end, words_from,
};

verus! {

/// A number is written in digits, without a leading zero, and reads back as itself.
pub proof fn law_a_number_reads_back(n: nat)
    ensures
        number(decimal(n)) == n,
        decimal(n).len() > 0,
        forall|i: int| 0 <= i < decimal(n).len() ==> '0' <= #[trigger] decimal(n)[i] <= '9',
        decimal(n)[0] == '0' <==> n == 0,
        decimal(n)[decimal(n).len() - 1] as int == '0' as int + n % 10,
    decreases n,
{
    if n < 10 {
        let d = decimal(n)[0];
        assert(decimal(n).len() == 1);
        assert(d as int == '0' as int + n);
        assert(decimal(n).drop_last() =~= seq![]);
        reveal_with_fuel(number, 2);
    } else {
        law_a_number_reads_back(n / 10);
        let d = decimal(n).last();
        assert(d as int == '0' as int + n % 10);
        assert(decimal(n).drop_last() =~= decimal(n / 10));
        assert(10 * (n / 10) + n % 10 == n);
    }
}

/// A number that fits is understood where it is asked for, whatever the bound.
pub proof fn law_a_written_number_is_understood(n: nat, max: nat)
    ensures
        unsigned(decimal(n), max) == (if n <= max {
            Some(n)
        } else {
            None
        }),
{
    law_a_number_reads_back(n);
    let s = decimal(n);
    assert('0' <= s[0] <= '9');
    assert(digits_of(s) == s);
    assert forall|i: int| 0 <= i < s.len() implies is_digit(#[trigger] s[i]) by {
        assert('0' <= s[i] <= '9');
    }
}

/// A signed number starts with a minus exactly where it is below zero, and its magnitude follows.
pub proof fn law_a_sign_is_said(n: int)
    ensures
        signed(n).len() > 0,
        signed(n)[0] == '-' <==> n < 0,
        n < 0 ==> number(signed(n).skip(1)) == -n,
        n >= 0 ==> number(signed(n)) == n,
{
    if n < 0 {
        law_a_number_reads_back((-n) as nat);
        assert(signed(n).skip(1) =~= decimal((-n) as nat));
    } else {
        law_a_number_reads_back(n as nat);
    }
}

/// Two numbers are written alike only where they are one number.
pub proof fn law_numbers_are_told_apart(a: int, b: int)
    ensures
        signed(a) == signed(b) <==> a == b,
        a >= 0 && b >= 0 ==> (decimal(a as nat) == decimal(b as nat) <==> a == b),
{
    law_a_sign_is_said(a);
    law_a_sign_is_said(b);
    if a >= 0 && b >= 0 {
        law_a_number_reads_back(a as nat);
        law_a_number_reads_back(b as nat);
    }
}

/// A text cut at a character is two halves that make it up again, and the cut is the first there is.
pub proof fn law_a_cut_is_the_first(s: Seq<char>, c: char)
    ensures
        split_once(s, c) is Some <==> s.contains(c),
        split_once(s, c) matches Some((before, after)) ==> {
            &&& before + seq![c] + after == s
            &&& !before.contains(c)
        },
{
    lemma_first_of(s, c, 0);
    let at = first_of(s, c, 0);
    if s.contains(c) {
        let i = choose|i: int| 0 <= i < s.len() && s[i] == c;
        assert(s[i] == c);
    }
    if at < s.len() {
        assert(s[at] == c);
        let before = s.subrange(0, at);
        assert(before + seq![c] + s.subrange(at + 1, s.len() as int) =~= s);
        assert forall|i: int| 0 <= i < before.len() implies before[i] != c by {
            assert(before[i] == s[i]);
        }
    }
}

/// A trimmed text is what is left where white space is taken from both ends: what is dropped is white
/// space only, what is left neither starts nor ends with any, and trimming it again changes nothing.
pub proof fn law_trimming_takes_white_space_only(s: Seq<char>)
    ensures
        exists|from: int, to: int|
            {
                &&& 0 <= from <= to <= s.len()
                &&& trim(s) == #[trigger] s.subrange(from, to)
                &&& forall|i: int| 0 <= i < from ==> white(#[trigger] s[i])
                &&& forall|i: int| to <= i < s.len() ==> white(#[trigger] s[i])
            },
        trim(s).len() > 0 ==> !white(trim(s)[0]) && !white(trim(s).last()),
        trim(s).len() == 0 <==> forall|i: int| 0 <= i < s.len() ==> white(#[trigger] s[i]),
{
    lemma_skip_white(s, 0);
    lemma_back_white(s, s.len() as int);
    let from = skip_white(s, 0);
    let to = back_white(s, s.len() as int);
    if from < to {
        assert(trim(s) == s.subrange(from, to));
        assert(!white(s[from]));
        assert(!white(s[to - 1]));
    } else {
        assert forall|i: int| 0 <= i < s.len() implies white(#[trigger] s[i]) by {
            if i >= from {
                assert(i >= to);
            }
        }
        assert(s.subrange(0, 0) =~= seq![]);
        assert(trim(s) == s.subrange(0, 0));
    }
}

/// White space is what a reader sees as such: of the characters of ASCII the space and the five that move
/// to another column or line, and no letter, digit or mark.
pub proof fn law_white_space_is_what_it_looks_like(c: char)
    ensures
        c as int <= 127 ==> (white(c) <==> c == ' ' || c == '\t' || c == '\n' || c as int == 11 || c
            as int == 12 || c == '\r'),
{
}

/// Letters change their case and nothing else changes: the text is as long as it was, holds no capital,
/// and a character that was no capital is the one it was.
pub proof fn law_lowering_touches_capitals_only(s: Seq<char>)
    ensures
        lowered(s).len() == s.len(),
        forall|i: int|
            0 <= i < s.len() ==> {
                let c = #[trigger] lowered(s)[i];
                if 'A' <= s[i] <= 'Z' {
                    c as int == s[i] as int + 32
                } else {
                    c == s[i]
                }
            },
{
    assert forall|i: int| 0 <= i < s.len() implies ({
        let c = #[trigger] lowered(s)[i];
        if 'A' <= s[i] <= 'Z' {
            c as int == s[i] as int + 32
        } else {
            c == s[i]
        }
    }) by {
        assert(lowered(s)[i] == lower(s[i]));
    }
}

/// One text comes before another where it is its beginning, or where the first character they differ in
/// is the smaller.
pub proof fn law_order_is_by_the_first_difference(a: Seq<char>, b: Seq<char>)
    ensures
        ordered(a, b) <==> a.is_prefix_of(b) || exists|k: int|
            0 <= k < a.len() && k < b.len() && a.take(k) == b.take(k) && #[trigger] a[k] < b[k],
    decreases a.len(),
{
    if a.len() == 0 {
        assert(a.is_prefix_of(b)) by {
            assert(a =~= b.subrange(0, 0));
        }
    } else if b.len() == 0 {
    } else if a[0] != b[0] {
        assert(a.take(0) =~= b.take(0));
        if a.is_prefix_of(b) {
            assert(a[0] == b.subrange(0, a.len() as int)[0]);
        }
        if exists|k: int|
            0 <= k < a.len() && k < b.len() && a.take(k) == b.take(k) && #[trigger] a[k] < b[k] {
            let k = choose|k: int|
                0 <= k < a.len() && k < b.len() && a.take(k) == b.take(k) && #[trigger] a[k]
                    < b[k];
            if k > 0 {
                assert(a.take(k)[0] == b.take(k)[0]);
            }
        }
    } else {
        let x = a.drop_first();
        let y = b.drop_first();
        law_order_is_by_the_first_difference(x, y);
        if a.is_prefix_of(b) {
            assert(x =~= y.subrange(0, x.len() as int)) by {
                assert forall|i: int| 0 <= i < x.len() implies x[i] == y[i] by {
                    assert(a[i + 1] == b.subrange(0, a.len() as int)[i + 1]);
                }
            }
        }
        if x.is_prefix_of(y) {
            assert(a =~= b.subrange(0, a.len() as int)) by {
                assert forall|i: int| 0 <= i < a.len() implies a[i] == b[i] by {
                    if i > 0 {
                        assert(x[i - 1] == y.subrange(0, x.len() as int)[i - 1]);
                    }
                }
            }
        }
        if exists|k: int|
            0 <= k < a.len() && k < b.len() && a.take(k) == b.take(k) && #[trigger] a[k] < b[k] {
            let k = choose|k: int|
                0 <= k < a.len() && k < b.len() && a.take(k) == b.take(k) && #[trigger] a[k]
                    < b[k];
            assert(x[k - 1] == a[k] && y[k - 1] == b[k]);
            assert(x.take(k - 1) =~= y.take(k - 1)) by {
                assert forall|i: int| 0 <= i < k - 1 implies x[i] == y[i] by {
                    assert(a.take(k)[i + 1] == b.take(k)[i + 1]);
                }
            }
        }
        if exists|k: int|
            0 <= k < x.len() && k < y.len() && x.take(k) == y.take(k) && #[trigger] x[k] < y[k] {
            let k = choose|k: int|
                0 <= k < x.len() && k < y.len() && x.take(k) == y.take(k) && #[trigger] x[k]
                    < y[k];
            assert(a[k + 1] == x[k] && b[k + 1] == y[k]);
            assert(a.take(k + 1) =~= b.take(k + 1)) by {
                assert forall|i: int| 0 <= i < k + 1 implies a[i] == b[i] by {
                    if i > 0 {
                        assert(x.take(k)[i - 1] == y.take(k)[i - 1]);
                    }
                }
            }
        }
    }
}

/// Joined texts start with the first of them.
pub proof fn lemma_join_front(parts: Seq<Seq<char>>, separator: Seq<char>)
    requires
        parts.len() > 1,
    ensures
        join(parts, separator) == parts[0] + separator + join(parts.skip(1), separator),
    decreases parts.len(),
{
    let rest = parts.skip(1);
    if parts.len() == 2 {
        reveal_with_fuel(join, 2);
        assert(parts.drop_last() =~= seq![parts[0]]);
        assert(rest =~= seq![parts[1]]);
    } else {
        lemma_join_front(parts.drop_last(), separator);
        assert(parts.drop_last().skip(1) =~= rest.drop_last());
        assert(join(parts, separator) =~= parts[0] + separator + join(rest, separator));
    }
}

/// The characters of a text that are not white space, in order.
pub open spec fn ink(s: Seq<char>) -> Seq<char> {
    s.filter(|c: char| !white(c))
}

proof fn lemma_ink_sum(a: Seq<char>, b: Seq<char>)
    ensures
        ink(a + b) == ink(a) + ink(b),
{
    Seq::filter_distributes_over_add(a, b, |c: char| !white(c));
}

proof fn lemma_all_ink(s: Seq<char>)
    requires
        forall|i: int| 0 <= i < s.len() ==> !white(#[trigger] s[i]),
    ensures
        ink(s) == s,
    decreases s.len(),
{
    reveal(Seq::filter);
    if s.len() > 0 {
        let rest = s.drop_last();
        assert forall|i: int| 0 <= i < rest.len() implies !white(#[trigger] rest[i]) by {
            assert(rest[i] == s[i]);
        }
        lemma_all_ink(rest);
        assert(!white(s[s.len() - 1]));
        assert(rest.push(s.last()) =~= s);
    }
}

proof fn lemma_no_ink(c: char)
    requires
        white(c),
    ensures
        ink(seq![c]) == Seq::<char>::empty(),
{
    reveal(Seq::filter);
    let s = seq![c];
    assert(s.drop_last() =~= seq![]);
    assert(s.last() == c);
    assert(ink(s.drop_last()) =~= seq![]);
}

proof fn lemma_words_keep_ink(s: Seq<char>, i: int)
    requires
        0 <= i <= s.len(),
    ensures
        ink(join(words_from(s, i), seq![' '])) == ink(s.skip(i)),
    decreases s.len() - i,
{
    reveal(Seq::filter);
    let words = words_from(s, i);
    if i == s.len() {
        assert(s.skip(i) =~= seq![]);
    } else if white(s[i]) {
        lemma_words_keep_ink(s, i + 1);
        assert(s.skip(i) =~= seq![s[i]] + s.skip(i + 1));
        lemma_ink_sum(seq![s[i]], s.skip(i + 1));
        lemma_no_ink(s[i]);
        assert(ink(s.skip(i)) =~= ink(s.skip(i + 1)));
    } else {
        lemma_word_end(s, i + 1);
        let to = word_end(s, i + 1);
        let word = s.subrange(i, to);
        let rest = words_from(s, to);
        lemma_words_keep_ink(s, to);
        assert forall|k: int| 0 <= k < word.len() implies !white(#[trigger] word[k]) by {
            assert(word[k] == s[i + k]);
            if k > 0 {
                assert(!white(s[i + k]));
            }
        }
        lemma_all_ink(word);
        assert(s.skip(i) =~= word + s.skip(to));
        lemma_ink_sum(word, s.skip(to));
        assert(words == seq![word] + rest);
        if rest.len() == 0 {
            assert(words =~= seq![word]);
            assert(join(words, seq![' ']) == word);
            assert(join(rest, seq![' ']) =~= seq![]);
            assert(ink(join(rest, seq![' '])) =~= seq![]);
            assert(ink(s.skip(i)) =~= word);
        } else {
            lemma_join_front(words, seq![' ']);
            assert(words.skip(1) =~= rest);
            assert(words[0] == word);
            let tail = join(rest, seq![' ']);
            lemma_ink_sum(word + seq![' '], tail);
            lemma_ink_sum(word, seq![' ']);
            lemma_no_ink(' ');
            assert(ink(word + seq![' ']) =~= word);
        }
    }
}

/// A text on one line says what it said: nothing but white space is lost or added.
pub proof fn law_one_line_keeps_every_word(s: Seq<char>)
    ensures
        ink(one_line(s)) == ink(s),
{
    lemma_words_keep_ink(s, 0);
    assert(s.skip(0) =~= s);
}

/// A text says itself.
pub broadcast proof fn lemma_says_itself<T>(a: Seq<T>)
    ensures
        #[trigger] occurs(a, a),
{
    assert(a.subrange(0, a.len() as int) =~= a);
    assert(stands_at(a, a, 0));
}

/// Whether a text ends with what was said.
pub open spec fn ends_with<T>(text: Seq<T>, said: Seq<T>) -> bool {
    said.len() <= text.len() && text.skip(text.len() - said.len()) == said
}

/// A text ends with its second half.
pub broadcast proof fn lemma_ends_with_its_second_half<T>(a: Seq<T>, b: Seq<T>)
    ensures
        #[trigger] ends_with(a + b, b),
{
    assert((a + b).skip(a.len() as int) =~= b);
}

/// What follows a text follows what it ends with.
pub broadcast proof fn lemma_an_end_goes_on<T>(a: Seq<T>, said: Seq<T>, b: Seq<T>)
    requires
        ends_with(a, said),
    ensures
        #[trigger] ends_with(a + b, said + b),
{
    let at = a.len() - said.len();
    assert((a + b).skip(at) =~= said + b) by {
        assert(a.skip(at) =~= said);
        assert forall|i: int| 0 <= i < said.len() implies (a + b).skip(at)[i] == said[i] by {
            assert(a.skip(at)[i] == a[at + i]);
        }
    }
}

/// What a half of a text says, or what it ends with, the whole says.
pub broadcast proof fn lemma_says_what_its_halves_say<T>(a: Seq<T>, b: Seq<T>, said: Seq<T>)
    requires
        occurs(a, said) || occurs(b, said) || ends_with(a + b, said),
    ensures
        #[trigger] occurs(a + b, said),
{
    if occurs(a, said) {
        let i = choose|i: int| stands_at(a, said, i);
        assert((a + b).subrange(i, i + said.len()) =~= a.subrange(i, i + said.len()));
        assert(stands_at(a + b, said, i));
    } else if occurs(b, said) {
        let i = choose|i: int| stands_at(b, said, i);
        assert((a + b).subrange(a.len() + i, a.len() + i + said.len()) =~= b.subrange(
            i,
            i + said.len(),
        ));
        assert(stands_at(a + b, said, a.len() + i));
    } else {
        let at = (a + b).len() - said.len();
        assert((a + b).subrange(at, at + said.len()) =~= (a + b).skip(at));
        assert(stands_at(a + b, said, at));
    }
}

/// What a part of a text says, the text says.
pub proof fn lemma_said_within<T>(text: Seq<T>, part: Seq<T>, said: Seq<T>)
    requires
        occurs(text, part),
        occurs(part, said),
    ensures
        occurs(text, said),
{
    let i = choose|i: int| stands_at(text, part, i);
    let j = choose|j: int| stands_at(part, said, j);
    assert(text.subrange(i + j, i + j + said.len()) =~= part.subrange(j, j + said.len())) by {
        assert(part =~= text.subrange(i, i + part.len()));
    }
    assert(stands_at(text, said, i + j));
}

/// What a text that was put together says.
pub broadcast group group_says {
    lemma_says_itself,
    lemma_ends_with_its_second_half,
    lemma_an_end_goes_on,
    lemma_says_what_its_halves_say,
}

/// Nothing joined is nothing, and one text joined is that text; a number may be written with a plus.
pub proof fn law_the_least_cases_are_themselves(one: Seq<char>, separator: Seq<char>, n: nat, max: nat)
    ensures
        join(Seq::<Seq<char>>::empty(), separator).len() == 0,
        join(seq![one], separator) == one,
        n <= max ==> unsigned(seq!['+'] + decimal(n), max) == Some(n),
        unsigned(Seq::<char>::empty(), max) is None,
        unsigned(seq!['+'], max) is None,
{
    law_a_number_reads_back(n);
    let s = seq!['+'] + decimal(n);
    let digits = decimal(n);
    assert(digits_of(s) =~= digits);
    assert forall|i: int| 0 <= i < digits.len() implies is_digit(#[trigger] digits[i]) by {
        assert('0' <= digits[i] <= '9');
    }
    assert(digits_of(seq!['+']).len() == 0);
}

} // verus!
