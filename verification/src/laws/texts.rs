//! Splitting, joining, trimming, searching and writing numbers: what these say of the texts
//! themselves.
use vstd::prelude::*;
use crate::text::{
    before, contains, decimal, fields, folded, join, lemma_before, lemma_fields_concat,
    lemma_join_concat, lemma_occurs_between, nonempty, occurs_at, occurs_first, replace,
    signed_decimal, starts_like, trim, trim_end, trim_start, words, Separator,
};

verus! {

/// A hyphen separates at hyphens alone, and white space at the characters that Unicode calls
/// so: the controls from tab to carriage return, the space, and those beyond ASCII.
pub proof fn law_separators(c: char)
    ensures
        Separator::Dash.covers(c) <==> c == '-',
        Separator::WhiteSpace.covers(c) <==> {
            let code = c as int;
            ||| 9 <= code <= 13 || code == 32
            ||| code == 0x85 || code == 0xA0 || code == 0x1680
            ||| 0x2000 <= code <= 0x200A || code == 0x2028 || code == 0x2029
            ||| code == 0x202F || code == 0x205F || code == 0x3000
        },
{
}

/// An ASCII capital is put into lower case, and no other character changes.
pub proof fn law_folded(c: char)
    ensures
        'A' <= c <= 'Z' ==> folded(c) as int == c as int + 32,
        !('A' <= c <= 'Z') ==> folded(c) == c,
{
}

/// Of pieces, those that are not empty are kept, in their order.
pub proof fn law_nonempty(left: Seq<Seq<char>>, piece: Seq<char>, right: Seq<Seq<char>>)
    ensures
        nonempty(Seq::<Seq<char>>::empty()) == Seq::<Seq<char>>::empty(),
        piece.len() > 0 ==> nonempty(left + seq![piece] + right) == nonempty(left) + seq![piece]
            + nonempty(right),
        piece.len() == 0 ==> nonempty(left + seq![piece] + right) == nonempty(left) + nonempty(
            right,
        ),
{
    lemma_nonempty_concat(left + seq![piece], right);
    lemma_nonempty_concat(left, seq![piece]);
    reveal_with_fuel(nonempty, 2);
    assert(seq![piece].drop_last() =~= seq![]);
    assert(nonempty(seq![piece]) =~= if piece.len() > 0 {
        seq![piece]
    } else {
        seq![]
    });
    if piece.len() == 0 {
        assert(nonempty(left) + nonempty(seq![piece]) =~= nonempty(left));
    }
}

/// A text without separators is one field; a separator splits a text into the fields in
/// front of it and those behind it.
pub proof fn law_fields(left: Seq<char>, c: char, right: Seq<char>, separator: Separator)
    requires
        separator.covers(c),
    ensures
        (forall|i: int| 0 <= i < left.len() ==> !separator.covers(#[trigger] left[i])) ==> fields(
            left,
            separator,
        ) == seq![left],
        fields(left + seq![c] + right, separator) == fields(left, separator) + fields(
            right,
            separator,
        ),
{
    if forall|i: int| 0 <= i < left.len() ==> !separator.covers(#[trigger] left[i]) {
        lemma_one_field(left, separator);
    }
    lemma_fields_concat(left, c, right, separator);
    assert(left.push(c) + right =~= left + seq![c] + right);
}

/// A text without separators is one field.
pub proof fn lemma_one_field(text: Seq<char>, separator: Separator)
    requires
        forall|i: int| 0 <= i < text.len() ==> !separator.covers(#[trigger] text[i]),
    ensures
        fields(text, separator) == seq![text],
    decreases text.len(),
{
    if text.len() == 0 {
        assert(text =~= Seq::<char>::empty());
    } else {
        let head = text.drop_last();
        assert forall|i: int| 0 <= i < head.len() implies !separator.covers(#[trigger] head[i]) by {
            assert(!separator.covers(text[i]));
        }
        lemma_one_field(head, separator);
        assert(!separator.covers(text[text.len() - 1]));
        assert(head.push(text.last()) =~= text);
        assert(fields(text, separator) =~= seq![text]);
    }
}

/// What is not empty of two lists of pieces is what is not empty of each.
pub proof fn lemma_nonempty_concat(left: Seq<Seq<char>>, right: Seq<Seq<char>>)
    ensures
        nonempty(left + right) == nonempty(left) + nonempty(right),
    decreases right.len(),
{
    let all = left + right;
    if right.len() == 0 {
        assert(all =~= left);
        assert(nonempty(all) =~= nonempty(left) + nonempty(right));
    } else {
        lemma_nonempty_concat(left, right.drop_last());
        assert(all.drop_last() =~= left + right.drop_last());
        assert(nonempty(all) =~= nonempty(left) + nonempty(right));
    }
}

/// A text that is not empty and has no white space is one word, the empty text has none, and
/// white space separates the words in front of it from those behind it.
pub proof fn law_words(left: Seq<char>, c: char, right: Seq<char>)
    requires
        Separator::WhiteSpace.covers(c),
    ensures
        words(Seq::<char>::empty()) == Seq::<Seq<char>>::empty(),
        left.len() > 0 && (forall|i: int|
            0 <= i < left.len() ==> !Separator::WhiteSpace.covers(#[trigger] left[i])) ==> words(
            left,
        ) == seq![left],
        words(left + seq![c] + right) == words(left) + words(right),
{
    law_fields(left, c, right, Separator::WhiteSpace);
    lemma_nonempty_concat(
        fields(left, Separator::WhiteSpace),
        fields(right, Separator::WhiteSpace),
    );
    reveal_with_fuel(nonempty, 2);
    let one = seq![left];
    assert(one.drop_last() =~= seq![]);
    let none = seq![Seq::<char>::empty()];
    assert(none.drop_last() =~= seq![]);
    if left.len() > 0 {
        assert(nonempty(one) =~= one);
    }
    assert(nonempty(none) =~= seq![]);
}

/// Nothing joins to nothing, one text to itself, and two lists to what each joins to, with
/// the glue in between.
pub proof fn law_join(left: Seq<Seq<char>>, right: Seq<Seq<char>>, text: Seq<char>, glue: Seq<char>)
    ensures
        join(Seq::<Seq<char>>::empty(), glue) == Seq::<char>::empty(),
        join(seq![text], glue) == text,
        left.len() > 0 && right.len() > 0 ==> join(left + right, glue) == join(left, glue) + glue
            + join(right, glue),
{
    if left.len() > 0 && right.len() > 0 {
        lemma_join_concat(left, right, glue);
    }
}

/// Separators in front of a text are trimmed, down to the first character that is none.
pub proof fn law_trim_start(left: Seq<char>, body: Seq<char>, separator: Separator)
    requires
        forall|i: int| 0 <= i < left.len() ==> separator.covers(#[trigger] left[i]),
        body.len() > 0 ==> !separator.covers(body[0]),
    ensures
        trim_start(left + body, separator) == body,
    decreases left.len(),
{
    let text = left + body;
    if left.len() == 0 {
        assert(text =~= body);
    } else {
        assert(separator.covers(left[0]));
        assert(text.drop_first() =~= left.drop_first() + body);
        assert forall|i: int| 0 <= i < left.drop_first().len() implies separator.covers(
            #[trigger] left.drop_first()[i],
        ) by {
            assert(separator.covers(left[i + 1]));
        }
        law_trim_start(left.drop_first(), body, separator);
    }
}

/// Separators behind a text are trimmed.
proof fn lemma_trim_end(body: Seq<char>, right: Seq<char>, separator: Separator)
    requires
        forall|i: int| 0 <= i < right.len() ==> separator.covers(#[trigger] right[i]),
        body.len() > 0 ==> !separator.covers(body.last()),
    ensures
        trim_end(body + right, separator) == body,
    decreases right.len(),
{
    let text = body + right;
    if right.len() == 0 {
        assert(text =~= body);
    } else {
        assert(separator.covers(right[right.len() - 1]));
        assert(text.drop_last() =~= body + right.drop_last());
        assert forall|i: int| 0 <= i < right.drop_last().len() implies separator.covers(
            #[trigger] right.drop_last()[i],
        ) by {
            assert(separator.covers(right[i]));
        }
        lemma_trim_end(body, right.drop_last(), separator);
    }
}

/// White space around a text is trimmed, and nothing else.
pub proof fn law_trim(left: Seq<char>, body: Seq<char>, right: Seq<char>)
    requires
        forall|i: int| 0 <= i < left.len() ==> Separator::WhiteSpace.covers(#[trigger] left[i]),
        forall|i: int| 0 <= i < right.len() ==> Separator::WhiteSpace.covers(#[trigger] right[i]),
        body.len() > 0 ==> !Separator::WhiteSpace.covers(body[0])
            && !Separator::WhiteSpace.covers(body.last()),
    ensures
        trim(left + body + right) == body,
{
    let separator = Separator::WhiteSpace;
    if body.len() > 0 {
        assert(left + body + right =~= left + (body + right));
        law_trim_start(left, body + right, separator);
        lemma_trim_end(body, right, separator);
    } else {
        let blank = left + body + right;
        assert forall|i: int| 0 <= i < blank.len() implies separator.covers(
            #[trigger] blank[i],
        ) by {
            if i < left.len() {
                assert(separator.covers(left[i]));
            } else {
                assert(separator.covers(right[i - left.len()]));
            }
        }
        law_trim_start(blank, seq![], separator);
        assert(blank + seq![] =~= blank);
        assert(body =~= seq![]);
    }
}

/// A text contains another exactly where it is something, then the other, then something.
pub proof fn law_contains(text: Seq<char>, pattern: Seq<char>)
    ensures
        contains(text, pattern) <==> exists|left: Seq<char>, right: Seq<char>|
            text == #[trigger] (left + pattern + right),
{
    if contains(text, pattern) {
        let i = choose|i: int| occurs_at(text, pattern, i);
        let left = text.take(i);
        let right = text.skip(i + pattern.len());
        assert(text =~= left + pattern + right);
    }
    if exists|left: Seq<char>, right: Seq<char>| text == #[trigger] (left + pattern + right) {
        let (left, right) = choose|left: Seq<char>, right: Seq<char>|
            text == #[trigger] (left + pattern + right);
        lemma_occurs_between(left, pattern, right);
    }
}

/// The part of a text in front of a pattern ends where the pattern starts first; it is the
/// whole text where the pattern is not in it.
pub proof fn law_before(stem: Seq<char>, pattern: Seq<char>, tail: Seq<char>)
    requires
        pattern.len() > 0,
    ensures
        !contains(stem, pattern) ==> before(stem, pattern) == stem,
        !contains(stem + pattern.drop_last(), pattern) ==> before(stem + pattern + tail, pattern)
            == stem,
{
    if !contains(stem + pattern.drop_last(), pattern) {
        let text = stem + pattern + tail;
        let start = stem + pattern.drop_last();
        lemma_occurs_between(stem, pattern, tail);
        assert forall|j: int| j < stem.len() implies !occurs_at(text, pattern, j) by {
            if occurs_at(text, pattern, j) {
                assert(start.subrange(j, j + pattern.len()) =~= text.subrange(
                    j,
                    j + pattern.len(),
                ));
                assert(occurs_at(start, pattern, j));
            }
        }
        assert(occurs_first(text, pattern, stem.len() as int));
        lemma_before(text, pattern, stem.len() as int);
        assert(text.take(stem.len() as int) =~= stem);
    }
}

/// A replacement keeps the length of a text and every character but the one it replaces.
pub proof fn law_replace(text: Seq<char>, what: char, with: char, i: int)
    requires
        0 <= i < text.len(),
    ensures
        replace(text, what, with).len() == text.len(),
        text[i] != what ==> replace(text, what, with)[i] == text[i],
        text[i] == what ==> replace(text, what, with)[i] == with,
{
}

/// The number that a text of decimal digits stands for.
pub open spec fn value_of(digits: Seq<char>) -> int
    decreases digits.len(),
{
    if digits.len() == 0 {
        0
    } else {
        value_of(digits.drop_last()) * 10 + (digits.last() as int - '0' as int)
    }
}

/// Decimal notation is made of digits, without a zero in front but for the number zero, and
/// stands for its number. So different numbers are written differently.
pub proof fn law_decimal(n: nat)
    ensures
        value_of(decimal(n)) == n,
        decimal(n).len() > 0,
        forall|i: int| 0 <= i < decimal(n).len() ==> '0' <= #[trigger] decimal(n)[i] <= '9',
        n > 0 ==> decimal(n)[0] != '0',
        n == 0 ==> decimal(n) == seq!['0'],
    decreases n,
{
    let text = decimal(n);
    if n < 10 {
        assert(text.drop_last() =~= seq![]);
        assert(value_of(text.drop_last()) == 0);
    } else {
        law_decimal(n / 10);
        assert(text.drop_last() =~= decimal(n / 10));
        assert forall|i: int| 0 <= i < text.len() implies '0' <= #[trigger] text[i] <= '9' by {
            if i < text.len() - 1 {
                assert(text[i] == decimal(n / 10)[i]);
            }
        }
    }
}

/// A negative number is written with a minus sign, any other without.
pub proof fn law_signed_decimal(n: int)
    ensures
        n >= 0 ==> value_of(signed_decimal(n)) == n && signed_decimal(n)[0] != '-',
        n < 0 ==> signed_decimal(n)[0] == '-' && value_of(signed_decimal(n).drop_first()) == -n,
        forall|i: int|
            0 < i < signed_decimal(n).len() ==> '0' <= #[trigger] signed_decimal(n)[i] <= '9',
        n < 0 ==> signed_decimal(n).drop_first()[0] != '0',
        n > 0 ==> signed_decimal(n)[0] != '0',
        n == 0 ==> signed_decimal(n) == seq!['0'],
{
    if n >= 0 {
        law_decimal(n as nat);
        assert('0' <= decimal(n as nat)[0]);
    } else {
        law_decimal((-n) as nat);
        assert(signed_decimal(n).drop_first() =~= decimal((-n) as nat));
        assert forall|i: int| 0 < i < signed_decimal(n).len() implies '0' <= #[trigger]
            signed_decimal(n)[i] <= '9' by {
            assert(signed_decimal(n)[i] == decimal((-n) as nat)[i - 1]);
        }
    }
}

/// Whether two characters are the same up to the case of ASCII letters.
pub open spec fn same_letter(a: char, b: char) -> bool {
    ||| a == b
    ||| 'A' <= a <= 'Z' && b as int == a as int + 32
    ||| 'A' <= b <= 'Z' && a as int == b as int + 32
}

/// A text starts with another, up to case, exactly where its first characters are those of
/// the other, up to case.
pub proof fn law_starts_like(text: Seq<char>, start: Seq<char>)
    ensures
        starts_like(text, start) <==> start.len() <= text.len() && forall|i: int|
            0 <= i < start.len() ==> same_letter(#[trigger] text[i], start[i]),
{
    assert forall|a: char, b: char| #[trigger] same_letter(a, b) <==> folded(a) == folded(b) by {}
    if starts_like(text, start) {
        assert forall|i: int| 0 <= i < start.len() implies same_letter(
            #[trigger] text[i],
            start[i],
        ) by {
            assert(folded(text[i]) == folded(start[i]));
        }
    }
    if start.len() <= text.len() && forall|i: int|
        0 <= i < start.len() ==> same_letter(#[trigger] text[i], start[i]) {
        assert forall|i: int| 0 <= i < start.len() implies folded(#[trigger] text[i]) == folded(
            start[i],
        ) by {
            assert(same_letter(text[i], start[i]));
        }
    }
}

} // verus!
