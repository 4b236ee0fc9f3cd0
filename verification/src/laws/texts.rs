//! Laws of text: each says how a text that was put together is taken apart.

use vstd::prelude::*;

use crate::text::{
    after_empty_line, all_digits, cut_first, cut_last, decimal, digits_value, first_index,
    is_digit, is_white_space, lemma_first_index_is, lemma_last_index_is, lemma_trim_end_is,
    lemma_trim_start_is, lemma_word_len_is, line_one, number, occurs, occurs_at, parts,
    signed_decimal, trim_start, trimmed, word_at,
};

verus! {

/// Does `s` hold nothing but white space?
pub open spec fn is_blank_text(s: Seq<char>) -> bool {
    forall|i: int| 0 <= i < s.len() ==> is_white_space(#[trigger] s[i])
}

/// Is `s` a text without white space at its edges, and not empty?
pub open spec fn has_clean_edges(s: Seq<char>) -> bool {
    s.len() > 0 && !is_white_space(s[0]) && !is_white_space(s.last())
}

/// Is `s` a word: not empty, and without white space?
pub open spec fn is_word(s: Seq<char>) -> bool {
    s.len() > 0 && forall|i: int| 0 <= i < s.len() ==> !is_white_space(#[trigger] s[i])
}

// ---------------------------------------------------------------------------
// Trimming
// ---------------------------------------------------------------------------

/// Trimming gives back what white space was put around, and leaves nothing of
/// white space alone.
pub proof fn law_trimming_undoes_padding(a: Seq<char>, s: Seq<char>, b: Seq<char>)
    requires
        is_blank_text(a),
        is_blank_text(b),
        has_clean_edges(s) || s.len() == 0,
    ensures
        trimmed(a + s + b) == s,
{
    let t = a + s + b;
    if s.len() == 0 {
        assert forall|j: int| 0 <= j < t.len() implies is_white_space(#[trigger] t[j]) by {
            if j < a.len() {
                assert(t[j] == a[j]);
            } else {
                assert(t[j] == b[j - a.len()]);
            }
        }
        lemma_trim_start_is(t, t.len() as int);
        assert(t.skip(t.len() as int) =~= s);
        lemma_trim_end_is(s, 0);
        assert(s.take(0) =~= s);
    } else {
        let k = a.len() as int;
        assert forall|j: int| 0 <= j < k implies is_white_space(#[trigger] t[j]) by {
            assert(t[j] == a[j]);
        }
        assert(t[k] == s[0]);
        lemma_trim_start_is(t, k);
        let u = t.skip(k);
        assert(u =~= s + b);
        let n = s.len() as int;
        assert forall|j: int| n <= j < u.len() implies is_white_space(#[trigger] u[j]) by {
            assert(u[j] == b[j - n]);
        }
        assert(u[n - 1] == s[n - 1]);
        lemma_trim_end_is(u, n);
        assert(u.take(n) =~= s);
    }
}

/// Every text is its trimming with white space around it.
pub proof fn law_only_white_space_is_trimmed(s: Seq<char>)
    ensures
        has_clean_edges(trimmed(s)) || trimmed(s).len() == 0,
        exists|a: Seq<char>, b: Seq<char>|
            #![trigger a + trimmed(s) + b]
            is_blank_text(a) && is_blank_text(b) && s == a + trimmed(s) + b,
        trimmed(s).len() == 0 <==> is_blank_text(s),
    decreases s.len(),
{
    if s.len() == 0 {
        law_trimming_undoes_padding(s, s, s);
        assert(s + s + s =~= s);
        assert(s == s + trimmed(s) + s);
    } else if is_white_space(s[0]) {
        let t = s.drop_first();
        law_only_white_space_is_trimmed(t);
        let (a, b) = choose|a: Seq<char>, b: Seq<char>|
            #![trigger a + trimmed(t) + b]
            is_blank_text(a) && is_blank_text(b) && t == a + trimmed(t) + b;
        let c = seq![s[0]] + a;
        assert(is_blank_text(c)) by {
            assert forall|i: int| 0 <= i < c.len() implies is_white_space(#[trigger] c[i]) by {
                if i > 0 {
                    assert(c[i] == a[i - 1]);
                }
            }
        }
        assert(s =~= seq![s[0]] + t);
        assert(c + trimmed(t) + b =~= seq![s[0]] + (a + trimmed(t) + b));
        law_trimming_undoes_padding(c, trimmed(t), b);
        assert(s == c + trimmed(s) + b);
        if is_blank_text(s) {
            assert forall|i: int| 0 <= i < t.len() implies is_white_space(#[trigger] t[i]) by {
                assert(t[i] == s[i + 1]);
            }
        }
        if is_blank_text(t) {
            assert forall|i: int| 0 <= i < s.len() implies is_white_space(#[trigger] s[i]) by {
                if i > 0 {
                    assert(s[i] == t[i - 1]);
                }
            }
        }
    } else if is_white_space(s.last()) {
        let t = s.drop_last();
        law_only_white_space_is_trimmed(t);
        let (a, b) = choose|a: Seq<char>, b: Seq<char>|
            #![trigger a + trimmed(t) + b]
            is_blank_text(a) && is_blank_text(b) && t == a + trimmed(t) + b;
        let c = b.push(s.last());
        assert(is_blank_text(c)) by {
            assert forall|i: int| 0 <= i < c.len() implies is_white_space(#[trigger] c[i]) by {
                if i < b.len() {
                    assert(c[i] == b[i]);
                }
            }
        }
        assert(s =~= a + trimmed(t) + c) by {
            assert(s =~= t.push(s.last()));
        }
        law_trimming_undoes_padding(a, trimmed(t), c);
        assert(s == a + trimmed(s) + c);
        assert(t[0] == s[0]);
    } else {
        let e = Seq::<char>::empty();
        law_trimming_undoes_padding(e, s, e);
        assert(e + s + e =~= s);
        assert(s == e + trimmed(s) + e);
    }
}

// ---------------------------------------------------------------------------
// Cutting and splitting
// ---------------------------------------------------------------------------

/// A text is cut at the first separator: what stands before it, which holds none,
/// and all that follows.
pub proof fn law_cut_at_the_first(a: Seq<char>, c: char, b: Seq<char>)
    requires
        !a.contains(c),
    ensures
        cut_first(a + seq![c] + b, c) == Some((a, b)),
        cut_first(a, c) is None,
{
    let s = a + seq![c] + b;
    lemma_first_at_seam(a, c, b);
    assert(s.take(a.len() as int) =~= a);
    assert(s.skip((a.len() + 1) as int) =~= b);
    assert forall|j: int| 0 <= j < a.len() implies #[trigger] a[j] != c by {}
    lemma_first_index_is(a, c, a.len() as int);
}

/// A text is cut at the last separator: all that stands before it, and what
/// follows, which holds none.
pub proof fn law_cut_at_the_last(a: Seq<char>, c: char, b: Seq<char>)
    requires
        !b.contains(c),
    ensures
        cut_last(a + seq![c] + b, c) == Some((a, b)),
        cut_last(b, c) is None,
{
    let s = a + seq![c] + b;
    let k = a.len() as int;
    assert(s[k] == c);
    assert forall|j: int| k < j < s.len() implies #[trigger] s[j] != c by {
        assert(s[j] == b[j - k - 1]);
    }
    lemma_last_index_is(s, c, k);
    assert(s.take(k) =~= a);
    assert(s.skip(k + 1) =~= b);
    assert forall|j: int| -1 < j < b.len() implies #[trigger] b[j] != c by {}
    lemma_last_index_is(b, c, -1);
}

proof fn lemma_first_at_seam(a: Seq<char>, c: char, b: Seq<char>)
    requires
        !a.contains(c),
    ensures
        first_index(a + seq![c] + b, c) == a.len(),
{
    let s = a + seq![c] + b;
    let k = a.len() as int;
    assert(s[k] == c);
    assert forall|j: int| 0 <= j < k implies #[trigger] s[j] != c by {
        assert(s[j] == a[j]);
    }
    lemma_first_index_is(s, c, k);
}

/// Splitting parts a text at every separator: the parts of two texts with one
/// between them are the parts of the first and then those of the second, and a
/// text without one is its own only part.
pub proof fn law_split_at_every_separator(a: Seq<char>, c: char, b: Seq<char>)
    ensures
        parts(a + seq![c] + b, c) == parts(a, c) + parts(b, c),
        !a.contains(c) ==> parts(a, c) == seq![a],
    decreases a.len(),
{
    let s = a + seq![c] + b;
    crate::text::lemma_first_index(a, c);
    if !a.contains(c) {
        lemma_first_at_seam(a, c, b);
        assert(s.take(a.len() as int) =~= a);
        assert(s.skip((a.len() + 1) as int) =~= b);
    } else {
        let k = first_index(a, c);
        let rest = a.skip(k + 1);
        assert(s[k] == a[k]);
        assert forall|j: int| 0 <= j < k implies #[trigger] s[j] != c by {
            assert(s[j] == a[j]);
        }
        lemma_first_index_is(s, c, k);
        law_split_at_every_separator(rest, c, b);
        assert(s.take(k) =~= a.take(k));
        assert(s.skip(k + 1) =~= rest + seq![c] + b);
        assert(seq![a.take(k)] + (parts(rest, c) + parts(b, c)) =~= seq![a.take(k)] + parts(
            rest,
            c,
        ) + parts(b, c));
    }
}

/// A text occurs in another exactly where that is the text with something before
/// and behind it.
pub proof fn law_occurrence(s: Seq<char>, p: Seq<char>)
    ensures
        occurs(s, p) <==> exists|a: Seq<char>, b: Seq<char>| s == #[trigger] (a + p + b),
{
    if occurs(s, p) {
        let i = choose|i: int| occurs_at(s, p, i);
        let a = s.take(i);
        let b = s.skip(i + p.len());
        assert(s =~= a + p + b);
    }
    if exists|a: Seq<char>, b: Seq<char>| s == #[trigger] (a + p + b) {
        let (a, b) = choose|a: Seq<char>, b: Seq<char>| s == #[trigger] (a + p + b);
        assert(s.subrange(a.len() as int, (a.len() + p.len()) as int) =~= p);
        assert(occurs_at(s, p, a.len() as int));
    }
}

// ---------------------------------------------------------------------------
// Lines and words
// ---------------------------------------------------------------------------

/// The first line ends at the first line feed, before which a carriage return
/// does not belong to it.
pub proof fn law_first_line(a: Seq<char>, b: Seq<char>)
    requires
        !a.contains('\n'),
    ensures
        line_one(a + seq!['\r', '\n'] + b) == a,
        a.len() == 0 || a.last() != '\r' ==> line_one(a + seq!['\n'] + b) == a,
        line_one(a) == a,
{
    crate::text::lemma_line_one_fixed(a);
    lemma_first_at_seam(a, '\n', b);
    let s = a + seq!['\n'] + b;
    assert(s.take(a.len() as int) =~= a);
    if a.len() > 0 {
        assert(s[a.len() - 1] == a.last());
    }
    let ar = a.push('\r');
    assert(!ar.contains('\n')) by {
        assert forall|j: int| 0 <= j < ar.len() implies ar[j] != '\n' by {
            if j < a.len() {
                assert(ar[j] == a[j]);
            }
        }
    }
    lemma_first_at_seam(ar, '\n', b);
    let t = a + seq!['\r', '\n'] + b;
    assert(t =~= ar + seq!['\n'] + b);
    assert(t[a.len() as int] == '\r');
    assert(t.take(a.len() as int) =~= a);
}

/// The first empty line is looked for line by line: a line with something in it
/// is passed over, and what follows an empty one is what was looked for.
pub proof fn law_empty_line(l: Seq<char>, s: Seq<char>)
    requires
        !l.contains('\n'),
    ensures
        l.len() > 0 && l != seq!['\r'] ==> after_empty_line(l + seq!['\n'] + s)
            == after_empty_line(s),
        after_empty_line(seq!['\n'] + s) == s,
        after_empty_line(seq!['\r', '\n'] + s) == s,
        after_empty_line(l) == Seq::<char>::empty(),
{
    let e = Seq::<char>::empty();
    lemma_first_at_seam(l, '\n', s);
    let t = l + seq!['\n'] + s;
    assert(t.skip((l.len() + 1) as int) =~= s);
    if l.len() > 0 && l != seq!['\r'] {
        assert(t[l.len() - 1] == l.last());
        if l.len() == 1 && l.last() == '\r' {
            assert(l =~= seq!['\r']);
        }
        assert(line_one(t).len() > 0);
    }
    law_first_line(e, s);
    let u = seq!['\n'] + s;
    assert(e + seq!['\n'] + s =~= u);
    lemma_first_at_seam(e, '\n', s);
    assert(u.skip(1) =~= s);
    let r = seq!['\r'];
    let v = seq!['\r', '\n'] + s;
    assert(e + seq!['\r', '\n'] + s =~= v);
    assert(r + seq!['\n'] + s =~= v);
    lemma_first_at_seam(r, '\n', s);
    assert(v.skip(2) =~= s);
    crate::text::lemma_first_index(l, '\n');
}

/// Words are what white space parts: white space in front counts for nothing,
/// the first word ends where white space follows, and the others are those of
/// the rest.
pub proof fn law_words(w: Seq<char>, b: char, rest: Seq<char>, n: nat)
    requires
        is_word(w),
        is_white_space(b),
    ensures
        word_at(seq![b] + rest, n) == word_at(rest, n),
        word_at(w + seq![b] + rest, 0) == Some(w),
        word_at(w + seq![b] + rest, n + 1) == word_at(rest, n),
        word_at(w, 0) == Some(w),
        word_at(w, n + 1) is None,
        word_at(Seq::empty(), n) is None,
{
    let lead = seq![b] + rest;
    assert(lead.drop_first() =~= rest);
    assert(trim_start(lead) == trim_start(rest));
    let s = w + seq![b] + rest;
    let k = w.len() as int;
    assert(s[0] == w[0]);
    assert forall|j: int| 0 <= j < k implies !is_white_space(#[trigger] s[j]) by {
        assert(s[j] == w[j]);
    }
    lemma_word_len_is(s, k);
    assert(s.take(k) =~= w);
    assert(s.skip(k) =~= lead);
    lemma_word_len_is(w, k);
    assert(w.take(k) =~= w);
    assert(w.skip(k) =~= Seq::<char>::empty());
}

// ---------------------------------------------------------------------------
// Numbers
// ---------------------------------------------------------------------------

/// One more digit is worth ten times what stands before it and its own value,
/// from `0` at zero to `9` at nine; no digits are worth nothing.
pub proof fn law_digits_are_worth_their_place(s: Seq<char>, c: char)
    ensures
        digits_value(Seq::empty()) == 0,
        '0' as u32 <= c as u32 <= '9' as u32 ==> digits_value(s.push(c)) == digits_value(s) * 10 + (
        c as u32 - '0' as u32),
{
    assert(s.push(c).drop_last() =~= s);
}

/// A number is written in digits that are worth it, the first of which is zero
/// for zero alone.
pub proof fn law_decimal_is_worth_its_number(n: nat)
    ensures
        digits_value(decimal(n)) == n,
        decimal(n).len() > 0,
        forall|i: int|
            0 <= i < decimal(n).len() ==> '0' as u32 <= (#[trigger] decimal(n)[i]) as u32
                <= '9' as u32,
        n > 0 ==> decimal(n)[0] != '0',
        n == 0 ==> decimal(n) == seq!['0'],
    decreases n,
{
    if n < 10 {
        let c = crate::text::digit_char(n);
        assert(decimal(n) == seq![c]);
        assert(c as u32 == 48 + n);
        assert(seq![c] =~= Seq::<char>::empty().push(c));
        law_digits_are_worth_their_place(Seq::empty(), c);
        if n == 0 {
            assert(c == '0');
            assert(decimal(n) =~= seq!['0']);
        }
    } else {
        law_decimal_is_worth_its_number(n / 10);
        let c = crate::text::digit_char(n % 10);
        assert(c as u32 == 48 + n % 10);
        law_digits_are_worth_their_place(decimal(n / 10), c);
        assert(decimal(n)[0] == decimal(n / 10)[0]);
        assert forall|i: int| 0 <= i < decimal(n).len() implies '0' as u32 <= (
        #[trigger] decimal(n)[i]) as u32 <= '9' as u32 by {
            if i < decimal(n / 10).len() {
                assert(decimal(n)[i] == decimal(n / 10)[i]);
            }
        }
    }
}

/// What is written is read: the decimal notation of a number is read as that
/// number, with a plus sign in front or without, up to the largest that is
/// asked for, and beyond it as none.
pub proof fn law_number_is_read_back(n: nat, max: nat)
    ensures
        n <= max ==> number(decimal(n), max) == Some(n),
        n <= max ==> number(seq!['+'] + decimal(n), max) == Some(n),
        n > max ==> number(decimal(n), max) is None,
        n > max ==> number(seq!['+'] + decimal(n), max) is None,
{
    law_decimal_is_worth_its_number(n);
    let d = decimal(n);
    assert(all_digits(d)) by {
        assert forall|i: int| 0 <= i < d.len() implies is_digit(#[trigger] d[i]) by {}
    }
    assert(d[0] != '+');
    assert((seq!['+'] + d).drop_first() =~= d);
}

/// A text that is read as a number is digits alone, but for a plus sign in
/// front, and is worth the number.
pub proof fn law_only_digits_are_read(s: Seq<char>, max: nat)
    requires
        number(s, max) is Some,
    ensures
        s.len() > 0,
        number(s, max)->0 <= max,
        forall|i: int|
            0 <= i < s.len() ==> '0' as u32 <= (#[trigger] s[i]) as u32 <= '9' as u32 || (i == 0
                && s[i] == '+' && s.len() > 1),
        s[0] != '+' ==> number(s, max)->0 == digits_value(s),
        s[0] == '+' ==> number(s, max)->0 == digits_value(s.skip(1)),
{
    if s[0] == '+' {
        let d = s.drop_first();
        assert(s.skip(1) =~= d);
        assert forall|i: int| 0 <= i < s.len() implies '0' as u32 <= (#[trigger] s[i]) as u32
            <= '9' as u32 || (i == 0 && s[i] == '+' && s.len() > 1) by {
            if i > 0 {
                assert(is_digit(d[i - 1]));
            }
        }
    } else {
        assert forall|i: int| 0 <= i < s.len() implies '0' as u32 <= (#[trigger] s[i]) as u32
            <= '9' as u32 by {
            assert(is_digit(s[i]));
        }
    }
}

/// A negative number is its opposite with a minus sign in front.
pub proof fn law_minus_sign(n: nat)
    ensures
        signed_decimal(n as int) == decimal(n),
        n > 0 ==> signed_decimal(-n) == seq!['-'] + decimal(n),
{
    reveal_strlit("-");
    assert("-"@ =~= seq!['-']);
}

} // verus!
