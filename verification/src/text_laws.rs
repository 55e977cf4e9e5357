//! What holds of the operations on texts.

use crate::text::{
    all_digits, decimal, digits_value, index_of_char, is_blank, is_digit, is_white, join, lines,
    lower, parsed_u64, replace, starts_with, trim, trim_end, trim_start, word_len, words,
};
use vstd::prelude::*;

verus! {

/// Something in a text is not white.
pub open spec fn says_something(t: Seq<char>) -> bool {
    exists|i: int| 0 <= i < t.len() && !is_white(#[trigger] t[i])
}

proof fn lemma_trim_start_cuts(s: Seq<char>)
    ensures
        ({
            let n = s.len() - trim_start(s).len();
            &&& 0 <= n <= s.len()
            &&& trim_start(s) == s.skip(n)
            &&& forall|i: int| 0 <= i < n ==> is_white(#[trigger] s[i])
            &&& n < s.len() ==> !is_white(s[n])
        }),
    decreases s.len(),
{
    if s.len() > 0 && is_white(s[0]) {
        let d = s.drop_first();
        lemma_trim_start_cuts(d);
        let n = s.len() - trim_start(s).len();
        assert(trim_start(s) =~= s.skip(n));
        assert forall|i: int| 0 <= i < n implies is_white(#[trigger] s[i]) by {
            if i > 0 {
                assert(d[i - 1] == s[i]);
            }
        }
    } else {
        assert(s.skip(0) =~= s);
    }
}

proof fn lemma_trim_end_cuts(s: Seq<char>)
    ensures
        ({
            let n = trim_end(s).len() as int;
            &&& 0 <= n <= s.len()
            &&& trim_end(s) == s.take(n)
            &&& forall|i: int| n <= i < s.len() ==> is_white(#[trigger] s[i])
            &&& n > 0 ==> !is_white(s[n - 1])
        }),
    decreases s.len(),
{
    if s.len() > 0 && is_white(s.last()) {
        let d = s.drop_last();
        lemma_trim_end_cuts(d);
        let n = trim_end(s).len() as int;
        assert(trim_end(s) =~= s.take(n));
        assert forall|i: int| n <= i < s.len() implies is_white(#[trigger] s[i]) by {
            if i < s.len() - 1 {
                assert(d[i] == s[i]);
            }
        }
    } else {
        assert(s.take(s.len() as int) =~= s);
    }
}

/// Trimming cuts white space off both ends and nothing else: what is left
/// stands in the text with white space around it, and neither begins nor ends
/// with any.
pub proof fn law_trim_cuts_white_ends(s: Seq<char>) -> (cut: (int, int))
    ensures
        0 <= cut.0 <= cut.1 <= s.len(),
        trim(s) == s.subrange(cut.0, cut.1),
        forall|i: int| 0 <= i < cut.0 ==> is_white(#[trigger] s[i]),
        forall|i: int| cut.1 <= i < s.len() ==> is_white(#[trigger] s[i]),
        cut.0 < cut.1 ==> !is_white(s[cut.0]) && !is_white(s[cut.1 - 1]),
{
    lemma_trim_start_cuts(s);
    let t = trim_start(s);
    lemma_trim_end_cuts(t);
    let a = s.len() - t.len();
    let b = a + trim_end(t).len();
    assert(trim(s) =~= s.subrange(a, b));
    assert forall|i: int| b <= i < s.len() implies is_white(#[trigger] s[i]) by {
        assert(t[i - a] == s[i]);
    }
    if a < b {
        assert(t[b - 1 - a] == s[b - 1]);
        assert(!is_white(s[a]));
    }
    (a, b)
}

/// A text is blank exactly when nothing in it is other than white.
pub proof fn law_blank_says_nothing(t: Seq<char>)
    ensures
        is_blank(t) <==> !says_something(t),
{
    let cut = law_trim_cuts_white_ends(t);
    if cut.0 < cut.1 {
        assert(!is_white(t[cut.0]));
    } else {
        assert forall|i: int| 0 <= i < t.len() implies is_white(#[trigger] t[i]) by {}
    }
}

/// The digits of a number read back as the number.
pub proof fn law_a_number_reads_back(n: nat)
    ensures
        all_digits(decimal(n)),
        digits_value(decimal(n)) == n,
        n <= u64::MAX ==> parsed_u64(decimal(n)) == Some(n as u64),
    decreases n,
{
    if n < 10 {
        assert(decimal(n).len() == 1);
        assert(digits_value(decimal(n).drop_last()) == 0);
    } else {
        law_a_number_reads_back(n / 10);
        assert(decimal(n).drop_last() =~= decimal(n / 10));
        assert forall|i: int| 0 <= i < decimal(n).len() implies is_digit(#[trigger] decimal(n)[i]) by {
            if i < decimal(n / 10).len() {
                assert(decimal(n)[i] == decimal(n / 10)[i]);
            }
        }
    }
    assert(decimal(n)[0] != '+');
}

/// The text has no such character.
pub open spec fn lacks(s: Seq<char>, c: char) -> bool {
    forall|i: int| 0 <= i < s.len() ==> #[trigger] s[i] != c
}

/// A character is found where it first stands, or at the end.
pub proof fn law_a_character_is_found_first(a: Seq<char>, c: char, b: Seq<char>)
    requires
        lacks(a, c),
    ensures
        index_of_char(a + seq![c] + b, c) == a.len(),
        index_of_char(a, c) == a.len(),
    decreases a.len(),
{
    let s = a + seq![c] + b;
    if a.len() == 0 {
        assert(s[0] == c);
    } else {
        assert(a[0] != c);
        assert(s[0] == a[0]);
        let d = a.drop_first();
        assert(lacks(d, c)) by {
            assert forall|i: int| 0 <= i < d.len() implies #[trigger] d[i] != c by {
                assert(d[i] == a[i + 1]);
            }
        }
        assert(s.drop_first() =~= d + seq![c] + b);
        law_a_character_is_found_first(d, c, b);
    }
}

/// A text is read in lines: each goes up to a line feed, without it and without a
/// carriage return before it; what is behind the last line feed is a line too, if
/// it is anything.
pub proof fn law_lines_end_at_line_feeds(a: Seq<char>, b: Seq<char>)
    requires
        lacks(a, '\n'),
    ensures
        lines(Seq::empty()).len() == 0,
        a.len() > 0 ==> lines(a) == seq![a],
        (a.len() == 0 || a.last() != '\r') ==> lines(a + seq!['\n'] + b) == seq![a] + lines(b),
        lines(a + seq!['\r', '\n'] + b) == seq![a] + lines(b),
{
    let s = a + seq!['\n'] + b;
    law_a_character_is_found_first(a, '\n', b);
    assert(s.take(a.len() as int) =~= a);
    assert(s.skip(a.len() as int + 1) =~= b);
    let c = a.push('\r');
    assert(lacks(c, '\n')) by {
        assert forall|i: int| 0 <= i < c.len() implies #[trigger] c[i] != '\n' by {
            if i < a.len() {
                assert(c[i] == a[i]);
            }
        }
    }
    let t = a + seq!['\r', '\n'] + b;
    law_a_character_is_found_first(c, '\n', b);
    assert(t =~= c + seq!['\n'] + b);
    assert(t.take(c.len() as int) =~= c);
    assert(t.skip(c.len() as int + 1) =~= b);
    assert(c.drop_last() =~= a);
}

/// The text is one word: something, and nothing white in it.
pub open spec fn is_word(w: Seq<char>) -> bool {
    w.len() > 0 && forall|i: int| 0 <= i < w.len() ==> !is_white(#[trigger] w[i])
}

pub proof fn lemma_word_before(w: Seq<char>, b: Seq<char>)
    requires
        forall|i: int| 0 <= i < w.len() ==> !is_white(#[trigger] w[i]),
        b.len() == 0 || is_white(b[0]),
    ensures
        word_len(w + b) == w.len(),
    decreases w.len(),
{
    let s = w + b;
    if w.len() > 0 {
        let d = w.drop_first();
        assert(!is_white(w[0]));
        assert(s[0] == w[0]);
        assert(s.drop_first() =~= d + b);
        assert forall|i: int| 0 <= i < d.len() implies !is_white(#[trigger] d[i]) by {
            assert(d[i] == w[i + 1]);
        }
        lemma_word_before(d, b);
    } else {
        assert(s =~= b);
    }
}

/// A text is read in words: white space parts them and belongs to none.
pub proof fn law_words_stand_between_white_space(w: Seq<char>, c: char, b: Seq<char>)
    requires
        is_white(c),
    ensures
        words(Seq::empty()).len() == 0,
        words(seq![c] + b) == words(b),
        is_word(w) ==> words(w) == seq![w],
        is_word(w) ==> words(w + seq![c] + b) == seq![w] + words(b),
{
    let s = seq![c] + b;
    assert(s[0] == c);
    assert(s.drop_first() =~= b);
    assert(trim_start(s) == trim_start(b));
    if is_word(w) {
        assert(!is_white(w[0]));
        let t = w + s;
        assert(t =~= w + seq![c] + b);
        assert(t[0] == w[0]);
        assert(trim_start(t) == t);
        lemma_word_before(w, s);
        assert(t.take(w.len() as int) =~= w);
        assert(t.skip(w.len() as int) =~= s);
        lemma_word_before(w, Seq::empty());
        assert(w + Seq::<char>::empty() =~= w);
        assert(w.take(w.len() as int) =~= w);
        assert(w.skip(w.len() as int) =~= Seq::empty());
        assert(words(w.skip(w.len() as int)).len() == 0);
        assert(words(w) =~= seq![w]);
    }
}

/// Parts are joined in order, with the separator between them and nowhere else.
pub proof fn law_parts_are_joined_in_order(
    parts: Seq<Seq<char>>,
    part: Seq<char>,
    sep: Seq<char>,
)
    ensures
        join(Seq::empty(), sep).len() == 0,
        join(seq![part], sep) == part,
        parts.len() > 0 ==> join(parts.push(part), sep) == join(parts, sep) + sep + part,
{
    assert(parts.push(part).drop_last() =~= parts);
}

/// In a replacement what is sought gives way wherever it stands, read from the
/// front, and every other character stays.
pub proof fn law_what_is_sought_gives_way(s: Seq<char>, p: Seq<char>, by: Seq<char>, c: char)
    ensures
        replace(Seq::empty(), p, by).len() == 0,
        p.len() > 0 ==> replace(p + s, p, by) == by + replace(s, p, by),
        !(p.len() > 0 && starts_with(seq![c] + s, p)) ==> replace(seq![c] + s, p, by) == seq![c]
            + replace(s, p, by),
{
    let t = p + s;
    assert(t.take(p.len() as int) =~= p);
    assert(t.skip(p.len() as int) =~= s);
    let u = seq![c] + s;
    assert(u[0] == c);
    assert(u.drop_first() =~= s);
}

/// Capitals of ASCII become small, and every other character stays.
pub proof fn law_only_capitals_become_small(s: Seq<char>, i: int)
    requires
        0 <= i < s.len(),
    ensures
        lower(s).len() == s.len(),
        lower(s)[i] == if 'A' <= s[i] <= 'Z' {
            (s[i] as int + 32) as char
        } else {
            s[i]
        },
{
}

} // verus!
