//! What holds of texts: their order, their pieces and the numbers that they show.

use vstd::prelude::*;

use crate::text::{
    decimal, digit, free_of, has_prefix, is_space, is_trim, joined, less_at, lower_char, occurs,
    occurs_at, signed_decimal, split_at_char, text_less, trims_at,
};

verus! {

/// Of two texts the one with the smaller character where they first differ comes first, and of two
/// of which one begins with the other, the shorter one.
pub proof fn text_order_goes_by_the_first_difference(
    head: Seq<char>,
    x: char,
    y: char,
    a: Seq<char>,
    b: Seq<char>,
)
    ensures
        x < y ==> text_less(head + seq![x] + a, head + seq![y] + b),
        text_less(head, head + seq![x] + a),
        !text_less(head + seq![x] + a, head),
{
    let p = head + seq![x] + a;
    let q = head + seq![y] + b;
    let n = head.len() as int;
    assert(p.subrange(0, n) =~= head);
    assert(q.subrange(0, n) =~= head);
    assert(head.subrange(0, n) =~= head);
    assert(p[n] == x && q[n] == y);
    if x < y {
        assert(less_at(p, q, n));
    }
    assert(less_at(head, p, n));
    if text_less(p, head) {
        let i = choose|i: int| #[trigger] less_at(p, head, i);
        assert(p[i] == head[i]);
    }
}

/// The pieces of a text, put together again with the character between them, are the text, and the
/// character stands in none of them.
pub proof fn pieces_make_up_the_text(s: Seq<char>, c: char)
    ensures
        split_at_char(s, c).len() >= 1,
        joined(split_at_char(s, c), seq![c]) == s,
        forall|i: int|
            0 <= i < split_at_char(s, c).len() ==> free_of(#[trigger] split_at_char(s, c)[i], c),
    decreases s.len(),
{
    let sep = seq![c];
    let p = split_at_char(s, c);
    if s.len() == 0 {
        assert(p[0] =~= s);
    } else {
        let d = s.drop_last();
        let h = split_at_char(d, c);
        pieces_make_up_the_text(d, c);
        assert(d.push(s.last()) =~= s);
        if s.last() == c {
            assert(p.drop_last() =~= h);
            assert(joined(p, sep) == joined(h, sep) + sep + p.last());
            assert(joined(p, sep) =~= s);
        } else {
            let last = h.last().push(s.last());
            assert(p.drop_last() =~= h.drop_last());
            assert(free_of(h[h.len() - 1], c));
            if h.len() == 1 {
                assert(h[0] == d);
                assert(p[0] == last);
                assert(last =~= s);
            } else {
                assert(joined(h, sep) == joined(h.drop_last(), sep) + sep + h.last());
                assert(joined(p, sep) == joined(p.drop_last(), sep) + sep + last);
                assert(joined(p, sep) =~= s);
            }
            assert forall|i: int| 0 <= i < p.len() implies free_of(#[trigger] p[i], c) by {
                if i < p.len() - 1 {
                    assert(p[i] == h[i]);
                } else {
                    assert forall|j: int| 0 <= j < last.len() implies #[trigger] last[j] != c by {
                        if j < h.last().len() {
                            assert(last[j] == h[h.len() - 1][j]);
                        }
                    }
                }
            }
        }
    }
}

/// Texts are joined one behind the other, with the separator between them and nowhere else.
pub proof fn joining_puts_the_separator_between(
    parts: Seq<Seq<char>>,
    last: Seq<char>,
    sep: Seq<char>,
)
    ensures
        joined(Seq::empty(), sep) == Seq::<char>::empty(),
        parts.len() == 0 ==> joined(parts.push(last), sep) == last,
        parts.len() > 0 ==> joined(parts.push(last), sep) == joined(parts, sep) + sep + last,
{
    assert(parts.push(last).drop_last() =~= parts);
}

/// The number that decimal digits show.
pub open spec fn number(s: Seq<char>) -> int
    decreases s.len(),
{
    if s.len() == 0 {
        0
    } else {
        number(s.drop_last()) * 10 + (s.last() as int - '0' as int)
    }
}

/// The decimal text of a number is made of digits, shows the number, and begins with no zero but
/// that of zero itself.
pub proof fn decimal_shows_the_number(n: nat)
    ensures
        number(decimal(n)) == n,
        decimal(n).len() > 0,
        forall|i: int| 0 <= i < decimal(n).len() ==> '0' <= #[trigger] decimal(n)[i] <= '9',
        n > 0 ==> decimal(n)[0] != '0',
        n == 0 ==> decimal(n) == seq!['0'],
    decreases n,
{
    let t = decimal(n);
    if n < 10 {
        lemma_digit(n);
        assert(t =~= digit(n));
        assert(t.drop_last() =~= Seq::<char>::empty());
        assert(number(t.drop_last()) == 0);
        assert(t.last() == digit(n)[0]);
        if n == 0 {
            assert(t =~= seq!['0']);
        }
    } else {
        decimal_shows_the_number(n / 10);
        lemma_digit(n % 10);
        assert(t.drop_last() =~= decimal(n / 10));
        assert(t.last() == digit(n % 10)[0]);
        assert(t[0] == decimal(n / 10)[0]);
    }
}

proof fn lemma_digit(d: nat)
    requires
        d < 10,
    ensures
        digit(d).len() == 1,
        digit(d)[0] as int == '0' as int + d,
        '0' <= digit(d)[0] <= '9',
{
}

/// A negative number is shown as its absolute value with a minus sign before it.
pub proof fn signed_decimal_shows_the_sign(n: int)
    ensures
        n >= 0 ==> signed_decimal(n) == decimal(n as nat),
        n < 0 ==> signed_decimal(n).len() > 0 && signed_decimal(n)[0] == '-'
            && signed_decimal(n).skip(1) == decimal((-n) as nat),
{
    reveal_strlit("-");
    if n < 0 {
        assert(signed_decimal(n).skip(1) =~= decimal((-n) as nat));
    }
}

/// Lower case changes the capital letters of ASCII to the small ones, and no other character.
pub proof fn lower_case_changes_ascii_capitals(c: char)
    ensures
        'A' <= c <= 'Z' ==> 'a' <= lower_char(c) <= 'z' && lower_char(c) as int - 'a' as int
            == c as int - 'A' as int,
        !('A' <= c <= 'Z') ==> lower_char(c) == c,
{
}

/// A trimmed text is a part of the text from which only white space was taken, and neither begins
/// nor ends with a blank, a tab or a line end.
pub proof fn trimming_takes_white_space_only(s: Seq<char>, t: Seq<char>)
    requires
        is_trim(s, t),
    ensures
        exists|a: int, b: int|
            0 <= a <= b <= s.len() && t == #[trigger] s.subrange(a, b) && (forall|i: int|
                0 <= i < a || b <= i < s.len() ==> is_space(#[trigger] s[i])),
        t.len() > 0 ==> t[0] != ' ' && t[0] != '\t' && t[0] != '\n' && t[0] != '\r',
        t.len() > 0 ==> t[t.len() - 1] != ' ' && t[t.len() - 1] != '\t' && t[t.len() - 1] != '\n'
            && t[t.len() - 1] != '\r',
{
    let (a, b) = choose|a: int, b: int| #[trigger] trims_at(s, t, a, b);
    assert(t == s.subrange(a, b));
}

/// Visible characters of ASCII are no white space.
pub proof fn visible_characters_are_no_space(c: char)
    requires
        '!' <= c <= '~',
    ensures
        !is_space(c),
{
}

/// A text begins with another exactly if it is that text and something behind it.
pub proof fn prefix_is_what_a_text_begins_with(s: Seq<char>, p: Seq<char>)
    ensures
        has_prefix(s, p) <==> exists|rest: Seq<char>| s == #[trigger] (p + rest),
{
    if has_prefix(s, p) {
        let rest = s.skip(p.len() as int);
        assert(s =~= p + rest);
    }
    if exists|rest: Seq<char>| s == #[trigger] (p + rest) {
        let rest = choose|rest: Seq<char>| s == #[trigger] (p + rest);
        assert(s.subrange(0, p.len() as int) =~= p);
    }
}

/// A sequence holds another exactly if it is that one with something before and behind it.
pub proof fn occurrence_is_a_part<A>(s: Seq<A>, p: Seq<A>)
    ensures
        occurs(s, p) <==> exists|a: Seq<A>, b: Seq<A>| s == #[trigger] (a + p + b),
{
    if occurs(s, p) {
        let i = choose|i: int| occurs_at(s, p, i);
        let a = s.take(i);
        let b = s.skip(i + p.len());
        assert(s.subrange(i, i + p.len()) == p);
        assert(s =~= a + p + b) by {
            assert forall|k: int| 0 <= k < s.len() implies s[k] == (a + p + b)[k] by {
                if i <= k < i + p.len() {
                    assert(s.subrange(i, i + p.len())[k - i] == s[k]);
                }
            }
        }
    }
    if exists|a: Seq<A>, b: Seq<A>| s == #[trigger] (a + p + b) {
        let (a, b) = choose|a: Seq<A>, b: Seq<A>| s == #[trigger] (a + p + b);
        let i = a.len() as int;
        assert(s.subrange(i, i + p.len()) =~= p);
        assert(occurs_at(s, p, i));
    }
}

} // verus!
