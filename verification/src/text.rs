//! Text as sequences of characters: splitting, joining, searching, trimming and
//! decimal notation.
use vstd::prelude::*;

verus! {

/// The standard library's `String::push`. The contract, which is not proved here, says that
/// it appends the character to the end of the string and changes nothing else.
pub assume_specification[ String::push ](text: &mut String, c: char)
    ensures
        final(text)@ == old(text)@.push(c),
;

/// What separates the fields of a text.
#[derive(Clone, Copy)]
pub enum Separator {
    /// A hyphen.
    Dash,
    /// Any character with the Unicode property `White_Space`.
    WhiteSpace,
}

/// The characters with the Unicode property `White_Space`.
pub open spec fn is_white_space(c: char) -> bool {
    ||| '\u{9}' <= c <= '\u{D}'
    ||| c == '\u{20}'
    ||| c == '\u{85}'
    ||| c == '\u{A0}'
    ||| c == '\u{1680}'
    ||| '\u{2000}' <= c <= '\u{200A}'
    ||| c == '\u{2028}'
    ||| c == '\u{2029}'
    ||| c == '\u{202F}'
    ||| c == '\u{205F}'
    ||| c == '\u{3000}'
}

impl Separator {
    /// Whether the separator stands for the character `c`.
    pub open spec fn covers(self, c: char) -> bool {
        match self {
            Separator::Dash => c == '-',
            Separator::WhiteSpace => is_white_space(c),
        }
    }

    /// Tests whether the separator stands for the character `c`.
    pub fn separates(self, c: char) -> (yes: bool)
        ensures
            yes == self.covers(c),
    {
        match self {
            Separator::Dash => c == '-',
            Separator::WhiteSpace => {
                ('\u{9}' <= c && c <= '\u{D}') || c == '\u{20}' || c == '\u{85}' || c == '\u{A0}'
                    || c == '\u{1680}' || ('\u{2000}' <= c && c <= '\u{200A}') || c == '\u{2028}'
                    || c == '\u{2029}' || c == '\u{202F}' || c == '\u{205F}' || c == '\u{3000}'
            },
        }
    }
}

/// The pieces of `text` between its separators; always at least one, and some
/// may be empty.
pub open spec fn fields(text: Seq<char>, separator: Separator) -> Seq<Seq<char>>
    decreases text.len(),
{
    if text.len() == 0 {
        seq![Seq::<char>::empty()]
    } else {
        let before = fields(text.drop_last(), separator);
        if separator.covers(text.last()) {
            before.push(Seq::<char>::empty())
        } else {
            before.drop_last().push(before.last().push(text.last()))
        }
    }
}

/// The non-empty members of `parts`, in order.
pub open spec fn nonempty(parts: Seq<Seq<char>>) -> Seq<Seq<char>>
    decreases parts.len(),
{
    if parts.len() == 0 {
        Seq::<Seq<char>>::empty()
    } else {
        let before = nonempty(parts.drop_last());
        if parts.last().len() > 0 {
            before.push(parts.last())
        } else {
            before
        }
    }
}

/// The words of `text`: its longest runs of characters that are no white space.
pub open spec fn words(text: Seq<char>) -> Seq<Seq<char>> {
    nonempty(fields(text, Separator::WhiteSpace))
}

/// The members of `parts` with `glue` between neighbours.
pub open spec fn join(parts: Seq<Seq<char>>, glue: Seq<char>) -> Seq<char>
    decreases parts.len(),
{
    if parts.len() == 0 {
        Seq::<char>::empty()
    } else if parts.len() == 1 {
        parts[0]
    } else {
        join(parts.drop_last(), glue) + glue + parts.last()
    }
}

/// `text` without the separators that it starts with.
pub open spec fn trim_start(text: Seq<char>, separator: Separator) -> Seq<char>
    decreases text.len(),
{
    if text.len() > 0 && separator.covers(text.first()) {
        trim_start(text.drop_first(), separator)
    } else {
        text
    }
}

/// `text` without the separators that it ends with.
pub open spec fn trim_end(text: Seq<char>, separator: Separator) -> Seq<char>
    decreases text.len(),
{
    if text.len() > 0 && separator.covers(text.last()) {
        trim_end(text.drop_last(), separator)
    } else {
        text
    }
}

/// `text` without the white space around it.
pub open spec fn trim(text: Seq<char>) -> Seq<char> {
    trim_end(trim_start(text, Separator::WhiteSpace), Separator::WhiteSpace)
}

/// Whether `pattern` stands in `text` at position `i`.
pub open spec fn occurs_at(text: Seq<char>, pattern: Seq<char>, i: int) -> bool {
    &&& 0 <= i
    &&& i + pattern.len() <= text.len()
    &&& text.subrange(i, i + pattern.len()) == pattern
}

/// Whether `pattern` stands somewhere in `text`.
pub open spec fn contains(text: Seq<char>, pattern: Seq<char>) -> bool {
    exists|i: int| occurs_at(text, pattern, i)
}

/// Whether `i` is the first position at which `pattern` stands in `text`.
pub open spec fn occurs_first(text: Seq<char>, pattern: Seq<char>, i: int) -> bool {
    &&& occurs_at(text, pattern, i)
    &&& forall|j: int| j < i ==> !occurs_at(text, pattern, j)
}

/// `c`, in lower case where it is an ASCII letter.
pub open spec fn folded(c: char) -> char {
    if 'A' <= c <= 'Z' {
        (c as int + 32) as char
    } else {
        c
    }
}

/// Whether `text` starts with `start`, up to the case of ASCII letters.
pub open spec fn starts_like(text: Seq<char>, start: Seq<char>) -> bool {
    &&& start.len() <= text.len()
    &&& forall|i: int| 0 <= i < start.len() ==> folded(#[trigger] text[i]) == folded(start[i])
}

/// The part of `text` in front of the first occurrence of `pattern`; all of it
/// where there is none.
pub open spec fn before(text: Seq<char>, pattern: Seq<char>) -> Seq<char> {
    if contains(text, pattern) {
        text.take(choose|i: int| occurs_first(text, pattern, i))
    } else {
        text
    }
}

/// `text` with `with` in the place of every `what`.
pub open spec fn replace(text: Seq<char>, what: char, with: char) -> Seq<char> {
    text.map_values(|c: char| if c == what { with } else { c })
}

/// The decimal digit for `d`, which is below ten.
pub open spec fn digit(d: nat) -> char {
    (48 + d) as char
}

/// `n` in decimal notation.
pub open spec fn decimal(n: nat) -> Seq<char>
    decreases n,
{
    if n < 10 {
        seq![digit(n)]
    } else {
        decimal(n / 10).push(digit(n % 10))
    }
}

/// `n` in decimal notation, with a minus sign where it is negative.
pub open spec fn signed_decimal(n: int) -> Seq<char> {
    if n < 0 {
        seq!['-'] + decimal((-n) as nat)
    } else {
        decimal(n as nat)
    }
}

/// A text has at least one field.
pub proof fn lemma_fields_at_least_one(text: Seq<char>, separator: Separator)
    ensures
        fields(text, separator).len() >= 1,
    decreases text.len(),
{
    if text.len() > 0 {
        lemma_fields_at_least_one(text.drop_last(), separator);
    }
}

/// No field holds a separator, and every character of a field is one of the text.
pub proof fn lemma_fields_hold_no_separator(text: Seq<char>, separator: Separator)
    ensures
        forall|i: int, j: int|
            #![trigger fields(text, separator)[i][j]]
            0 <= i < fields(text, separator).len() && 0 <= j < fields(text, separator)[i].len()
                ==> !separator.covers(fields(text, separator)[i][j]) && text.contains(
                fields(text, separator)[i][j],
            ),
    decreases text.len(),
{
    if text.len() > 0 {
        let head = text.drop_last();
        let before = fields(head, separator);
        let parts = fields(text, separator);
        lemma_fields_at_least_one(head, separator);
        lemma_fields_hold_no_separator(head, separator);
        assert forall|i: int, j: int|
            #![trigger parts[i][j]]
            0 <= i < parts.len() && 0 <= j < parts[i].len() implies !separator.covers(parts[i][j])
            && text.contains(parts[i][j]) by {
            if i < before.len() && j < before[i].len() {
                assert(parts[i][j] == before[i][j]);
                let k = choose|k: int| 0 <= k < head.len() && head[k] == before[i][j];
                assert(text[k] == parts[i][j]);
            } else {
                assert(parts[i][j] == text.last());
                assert(text[text.len() - 1] == parts[i][j]);
            }
        }
    }
}

/// Splitting two texts with a separator between them splits each of them.
pub proof fn lemma_fields_concat(left: Seq<char>, c: char, right: Seq<char>, separator: Separator)
    requires
        separator.covers(c),
    ensures
        fields(left.push(c) + right, separator) == fields(left, separator) + fields(
            right,
            separator,
        ),
    decreases right.len(),
{
    let whole = left.push(c) + right;
    lemma_fields_at_least_one(right, separator);
    if right.len() == 0 {
        assert(whole =~= left.push(c));
        assert(whole.drop_last() =~= left);
        assert(fields(whole, separator) =~= fields(left, separator) + fields(right, separator));
    } else {
        lemma_fields_concat(left, c, right.drop_last(), separator);
        lemma_fields_at_least_one(right.drop_last(), separator);
        assert(whole.drop_last() =~= left.push(c) + right.drop_last());
        assert(fields(whole, separator) =~= fields(left, separator) + fields(right, separator));
    }
}

/// The pieces between the hyphens of a text, joined by hyphens, are the text.
pub proof fn lemma_join_dash_fields(text: Seq<char>)
    ensures
        join(fields(text, Separator::Dash), seq!['-']) == text,
    decreases text.len(),
{
    if text.len() > 0 {
        let head = text.drop_last();
        let before = fields(head, Separator::Dash);
        let parts = fields(text, Separator::Dash);
        lemma_join_dash_fields(head);
        lemma_fields_at_least_one(head, Separator::Dash);
        if text.last() == '-' {
            assert(parts.drop_last() =~= before);
            assert(join(parts, seq!['-']) =~= text);
        } else {
            assert(parts.drop_last() =~= before.drop_last());
            assert(parts.last() == before.last().push(text.last()));
            if parts.len() == 1 {
                assert(join(before, seq!['-']) == before[0]);
                assert(join(parts, seq!['-']) == parts[0]);
                assert(before.last() == before[0]);
            } else {
                let stem = join(before.drop_last(), seq!['-']) + seq!['-'];
                assert(join(before, seq!['-']) == stem + before.last());
                assert(join(parts, seq!['-']) == stem + parts.last());
            }
            assert(text =~= head.push(text.last()));
            assert(join(parts, seq!['-']) =~= text);
        }
    }
}

/// Joining two lists of pieces joins each of them, with the glue in between.
pub proof fn lemma_join_concat(left: Seq<Seq<char>>, right: Seq<Seq<char>>, glue: Seq<char>)
    requires
        left.len() > 0,
        right.len() > 0,
    ensures
        join(left + right, glue) == join(left, glue) + glue + join(right, glue),
    decreases right.len(),
{
    let whole = left + right;
    if right.len() == 1 {
        assert(whole.drop_last() =~= left);
    } else {
        lemma_join_concat(left, right.drop_last(), glue);
        assert(whole.drop_last() =~= left + right.drop_last());
    }
    assert(join(whole, glue) =~= join(left, glue) + glue + join(right, glue));
}

/// Where a text is more than separators, what follows it is not touched by
/// trimming its start.
pub proof fn lemma_trim_start_concat(text: Seq<char>, tail: Seq<char>, separator: Separator)
    requires
        trim_start(text, separator).len() > 0,
    ensures
        trim_start(text + tail, separator) == trim_start(text, separator) + tail,
    decreases text.len(),
{
    if text.len() > 0 {
        assert((text + tail).first() == text.first());
        if separator.covers(text.first()) {
            assert((text + tail).drop_first() =~= text.drop_first() + tail);
            lemma_trim_start_concat(text.drop_first(), tail, separator);
        }
    }
}

/// A text ends with what is left of it when its start is trimmed.
pub proof fn lemma_trim_start_is_suffix(text: Seq<char>, separator: Separator)
    ensures
        trim_start(text, separator).len() <= text.len(),
        text.skip(text.len() - trim_start(text, separator).len()) == trim_start(text, separator),
    decreases text.len(),
{
    if text.len() > 0 && separator.covers(text.first()) {
        let rest = text.drop_first();
        lemma_trim_start_is_suffix(rest, separator);
        assert(text.skip(text.len() - trim_start(text, separator).len()) =~= rest.skip(
            rest.len() - trim_start(rest, separator).len(),
        ));
    } else {
        assert(text.skip(0) =~= text);
    }
}

/// What stands in the middle of a text occurs in it.
pub proof fn lemma_occurs_between(left: Seq<char>, middle: Seq<char>, right: Seq<char>)
    ensures
        occurs_at(left + middle + right, middle, left.len() as int),
{
    let text = left + middle + right;
    assert(text.subrange(left.len() as int, left.len() as int + middle.len()) =~= middle);
}

/// A pattern that occurs in a text has a first occurrence.
pub proof fn lemma_first_occurrence(text: Seq<char>, pattern: Seq<char>, i: int)
    requires
        occurs_at(text, pattern, i),
    ensures
        exists|j: int| j <= i && occurs_first(text, pattern, j),
    decreases i,
{
    if forall|j: int| j < i ==> !occurs_at(text, pattern, j) {
        assert(occurs_first(text, pattern, i));
    } else {
        let k = choose|k: int| k < i && occurs_at(text, pattern, k);
        lemma_first_occurrence(text, pattern, k);
        let j = choose|j: int| j <= k && occurs_first(text, pattern, j);
        assert(j <= i && occurs_first(text, pattern, j));
    }
}

/// The part of a text in front of a pattern is fixed by any first occurrence.
pub proof fn lemma_before(text: Seq<char>, pattern: Seq<char>, i: int)
    requires
        occurs_first(text, pattern, i),
    ensures
        before(text, pattern) == text.take(i),
{
    assert(occurs_at(text, pattern, i));
    let k = choose|k: int| occurs_first(text, pattern, k);
    assert(occurs_first(text, pattern, k));
    assert(!(k < i) && !(i < k));
}

/// The deep view of a vector of characters is its view.
pub broadcast proof fn chars_deep_view(chars: Vec<char>)
    ensures
        #[trigger] chars.deep_view() == chars@,
{
    assert(chars.deep_view() =~= chars@);
}

/// The characters of `text`.
pub fn chars_of(text: &str) -> (chars: Vec<char>)
    ensures
        chars@ == text@,
{
    let mut chars: Vec<char> = Vec::new();
    for c in it: text.chars()
        invariant
            chars@ == it.seq().take(it.index() as int),
            it.seq() == text@,
    {
        chars.push(c);
        proof {
            assert(it.seq().take(it.index() + 1) =~= it.seq().take(it.index() as int).push(c));
        }
    }
    assert(chars@ =~= text@);
    chars
}

/// Appends characters `from` up to `to` of `chars` to `out`.
pub fn push_range(out: &mut String, chars: &Vec<char>, from: usize, to: usize)
    requires
        from <= to <= chars@.len(),
    ensures
        final(out)@ == old(out)@ + chars@.subrange(from as int, to as int),
{
    let ghost start = out@;
    let mut i: usize = from;
    while i < to
        invariant
            from <= i <= to <= chars@.len(),
            out@ == start + chars@.subrange(from as int, i as int),
        decreases to - i,
    {
        out.push(chars[i]);
        i += 1;
        assert(chars@.subrange(from as int, i as int) =~= chars@.subrange(
            from as int,
            i - 1,
        ).push(chars@[i - 1]));
    }
}

/// The string of the characters `chars`.
pub fn string_of(chars: &Vec<char>) -> (text: String)
    ensures
        text@ == chars@,
{
    let mut text = String::new();
    push_range(&mut text, chars, 0, chars.len());
    assert(text@ =~= chars@);
    text
}

/// The fields of `chars` from position `from` on.
pub fn split_fields(chars: &Vec<char>, from: usize, separator: Separator) -> (parts: Vec<Vec<char>>)
    requires
        from <= chars@.len(),
    ensures
        parts.deep_view() == fields(chars@.skip(from as int), separator),
{
    broadcast use chars_deep_view;

    let mut parts: Vec<Vec<char>> = Vec::new();
    let mut current: Vec<char> = Vec::new();
    let ghost rest = chars@.skip(from as int);
    let mut i: usize = from;
    assert(rest.take(0) =~= Seq::<char>::empty());
    assert(parts.deep_view().push(current@) =~= seq![Seq::<char>::empty()]);
    while i < chars.len()
        invariant
            from <= i <= chars@.len(),
            rest == chars@.skip(from as int),
            parts.deep_view().push(current@) == fields(rest.take(i - from), separator),
        decreases chars@.len() - i,
    {
        let c: char = chars[i];
        let ghost parts_before = parts.deep_view();
        let ghost current_before = current@;
        if separator.separates(c) {
            parts.push(current);
            current = Vec::new();
            assert(parts@.last().deep_view() == current_before);
            assert(parts.deep_view() =~= parts_before.push(current_before));
        } else {
            current.push(c);
            assert(parts_before.push(current_before).drop_last() =~= parts_before);
        }
        i += 1;
        proof {
            let head = rest.take(i - from);
            assert(head.drop_last() =~= rest.take(i - from - 1));
            assert(head.last() == c);
            assert(current@ =~= if separator.covers(c) {
                Seq::<char>::empty()
            } else {
                current_before.push(c)
            });
        }
    }
    let ghost parts_before = parts.deep_view();
    let ghost last = current@;
    parts.push(current);
    assert(parts.deep_view() =~= parts_before.push(last));
    assert(rest.take(rest.len() as int) =~= rest);
    parts
}

/// The non-empty members of `parts`.
pub fn keep_nonempty(parts: Vec<Vec<char>>) -> (kept: Vec<Vec<char>>)
    ensures
        kept.deep_view() == nonempty(parts.deep_view()),
{
    broadcast use chars_deep_view;

    let mut kept: Vec<Vec<char>> = Vec::new();
    let ghost all = parts.deep_view();
    let mut i: usize = 0;
    assert(kept.deep_view() =~= nonempty(all.take(0)));
    while i < parts.len()
        invariant
            i <= parts@.len(),
            all == parts.deep_view(),
            kept.deep_view() == nonempty(all.take(i as int)),
        decreases parts@.len() - i,
    {
        let ghost kept_before = kept.deep_view();
        if parts[i].len() > 0 {
            let part = copy_chars(&parts[i]);
            kept.push(part);
            assert(kept.deep_view() =~= kept_before.push(all[i as int]));
        }
        i += 1;
        assert(all.take(i as int).drop_last() =~= all.take(i - 1));
        assert(all.take(i as int).last() == all[i - 1]);
    }
    assert(all.take(all.len() as int) =~= all);
    kept
}

/// A copy of `chars`.
pub fn copy_chars(chars: &Vec<char>) -> (copy: Vec<char>)
    ensures
        copy@ == chars@,
{
    let mut copy: Vec<char> = Vec::new();
    let mut i: usize = 0;
    while i < chars.len()
        invariant
            i <= chars@.len(),
            copy@ == chars@.take(i as int),
        decreases chars@.len() - i,
    {
        copy.push(chars[i]);
        i += 1;
        assert(chars@.take(i as int) =~= chars@.take(i - 1).push(chars@[i - 1]));
    }
    assert(copy@ =~= chars@);
    copy
}

/// The words of `text`.
pub fn split_words(text: &str) -> (parts: Vec<Vec<char>>)
    ensures
        parts.deep_view() == words(text@),
{
    let chars = chars_of(text);
    assert(chars@.skip(0) =~= chars@);
    keep_nonempty(split_fields(&chars, 0, Separator::WhiteSpace))
}

/// Joins the members of `parts` from index `from` on with `glue`.
pub fn join_from(parts: &Vec<Vec<char>>, from: usize, glue: &str) -> (chars: Vec<char>)
    requires
        from <= parts@.len(),
    ensures
        chars@ == join(parts.deep_view().skip(from as int), glue@),
{
    broadcast use chars_deep_view;

    let mut chars: Vec<char> = Vec::new();
    let glue_chars = chars_of(glue);
    let ghost all = parts.deep_view().skip(from as int);
    let mut i: usize = from;
    assert(all.take(0) =~= Seq::<Seq<char>>::empty());
    while i < parts.len()
        invariant
            from <= i <= parts@.len(),
            glue_chars@ == glue@,
            all == parts.deep_view().skip(from as int),
            chars@ == join(all.take(i - from), glue@),
        decreases parts@.len() - i,
    {
        if i > from {
            append_chars(&mut chars, &glue_chars);
        }
        append_chars(&mut chars, &parts[i]);
        i += 1;
        proof {
            let head = all.take(i - from);
            assert(head.drop_last() =~= all.take(i - from - 1));
            assert(head.last() == parts@[i - 1]@);
            if i - from == 1 {
                assert(chars@ =~= head[0]);
            }
        }
    }
    assert(all.take(all.len() as int) =~= all);
    chars
}

/// Appends the members of `parts`, with `glue` between neighbours, to `out`.
pub fn push_joined(out: &mut String, parts: &Vec<String>, glue: &str)
    ensures
        final(out)@ == old(out)@ + join(parts.deep_view(), glue@),
{
    let ghost start = out@;
    let ghost all = parts.deep_view();
    let mut i: usize = 0;
    assert(out@ =~= start + join(all.take(0), glue@));
    while i < parts.len()
        invariant
            i <= parts@.len(),
            all == parts.deep_view(),
            out@ == start + join(all.take(i as int), glue@),
        decreases parts@.len() - i,
    {
        if i > 0 {
            out.append(glue);
        }
        out.append(parts[i].as_str());
        i += 1;
        proof {
            let head = all.take(i as int);
            assert(head.drop_last() =~= all.take(i - 1));
            assert(head.last() == parts@[i - 1]@);
            if i == 1 {
                assert(out@ =~= start + head[0]);
            } else {
                assert(out@ =~= start + (join(head.drop_last(), glue@) + glue@ + head.last()));
            }
        }
    }
    assert(all.take(all.len() as int) =~= all);
}

/// Appends `tail` to `chars`.
pub fn append_chars(chars: &mut Vec<char>, tail: &Vec<char>)
    ensures
        final(chars)@ == old(chars)@ + tail@,
{
    let ghost start = chars@;
    let mut i: usize = 0;
    assert(start + tail@.take(0) =~= start);
    while i < tail.len()
        invariant
            i <= tail@.len(),
            chars@ == start + tail@.take(i as int),
        decreases tail@.len() - i,
    {
        chars.push(tail[i]);
        i += 1;
        assert(tail@.take(i as int) =~= tail@.take(i - 1).push(tail@[i - 1]));
    }
    assert(tail@.take(tail@.len() as int) =~= tail@);
}

/// Whether `a` and `b` hold the same characters.
pub fn same_chars(a: &Vec<char>, b: &Vec<char>) -> (same: bool)
    ensures
        same == (a@ == b@),
{
    if a.len() != b.len() {
        return false;
    }
    let same = matches_at(a, b, 0);
    proof {
        assert(a@.subrange(0, b@.len() as int) =~= a@);
    }
    same
}

/// Whether `pattern` stands in `chars` at position `at`.
pub fn matches_at(chars: &Vec<char>, pattern: &Vec<char>, at: usize) -> (yes: bool)
    ensures
        yes == occurs_at(chars@, pattern@, at as int),
{
    let length: usize = chars.len();
    if at > length || pattern.len() > length - at {
        return false;
    }
    let ghost window = chars@.subrange(at as int, at + pattern@.len());
    let mut i: usize = 0;
    while i < pattern.len()
        invariant
            i <= pattern@.len(),
            length == chars@.len(),
            at + pattern@.len() <= length,
            window == chars@.subrange(at as int, at + pattern@.len()),
            forall|j: int| 0 <= j < i ==> window[j] == pattern@[j],
        decreases pattern@.len() - i,
    {
        if chars[at + i] != pattern[i] {
            assert(window[i as int] != pattern@[i as int]);
            return false;
        }
        i += 1;
    }
    assert(window =~= pattern@);
    true
}

/// Puts `c` into lower case where it is an ASCII letter.
pub fn fold(c: char) -> (lower: char)
    ensures
        lower == folded(c),
{
    if 'A' <= c && c <= 'Z' {
        (c as u8 + 32) as char
    } else {
        c
    }
}

/// Whether `chars` starts with `start`, up to the case of ASCII letters.
pub fn begins_like(chars: &Vec<char>, start: &Vec<char>) -> (yes: bool)
    ensures
        yes == starts_like(chars@, start@),
{
    if start.len() > chars.len() {
        return false;
    }
    let mut i: usize = 0;
    while i < start.len()
        invariant
            i <= start@.len() <= chars@.len(),
            forall|j: int| 0 <= j < i ==> folded(#[trigger] chars@[j]) == folded(start@[j]),
        decreases start@.len() - i,
    {
        if fold(chars[i]) != fold(start[i]) {
            assert(folded(chars@[i as int]) != folded(start@[i as int]));
            return false;
        }
        i += 1;
    }
    true
}

/// The first position at which `pattern` stands in `chars`.
pub fn find(chars: &Vec<char>, pattern: &Vec<char>) -> (found: Option<usize>)
    ensures
        match found {
            Some(i) => occurs_first(chars@, pattern@, i as int),
            None => !contains(chars@, pattern@),
        },
{
    let mut i: usize = 0;
    while i < chars.len()
        invariant
            i <= chars@.len(),
            forall|j: int| j < i ==> !occurs_at(chars@, pattern@, j),
        decreases chars@.len() - i,
    {
        if matches_at(chars, pattern, i) {
            return Some(i);
        }
        i += 1;
    }
    if matches_at(chars, pattern, i) {
        return Some(i);
    }
    None
}

/// Whether `pattern` stands somewhere in `text`.
pub fn has(text: &str, pattern: &str) -> (yes: bool)
    ensures
        yes == contains(text@, pattern@),
{
    let chars = chars_of(text);
    let pattern_chars = chars_of(pattern);
    match find(&chars, &pattern_chars) {
        Some(i) => {
            assert(occurs_at(text@, pattern@, i as int));
            true
        },
        None => false,
    }
}

/// `text` with `with` in the place of every `what`.
pub fn replaced(text: &str, what: char, with: char) -> (changed: String)
    ensures
        changed@ == replace(text@, what, with),
{
    let chars = chars_of(text);
    let mut changed = String::new();
    let mut i: usize = 0;
    assert(changed@ =~= replace(chars@.take(0), what, with));
    while i < chars.len()
        invariant
            i <= chars@.len(),
            changed@ == replace(chars@.take(i as int), what, with),
        decreases chars@.len() - i,
    {
        let c: char = chars[i];
        changed.push(if c == what { with } else { c });
        i += 1;
        assert(changed@ =~= replace(chars@.take(i as int), what, with));
    }
    assert(chars@.take(chars@.len() as int) =~= text@);
    changed
}

/// The number of separators at the start of `chars`.
pub fn leading(chars: &Vec<char>, separator: Separator) -> (n: usize)
    ensures
        n <= chars@.len(),
        chars@.skip(n as int) == trim_start(chars@, separator),
{
    let mut n: usize = 0;
    assert(chars@.skip(0) =~= chars@);
    while n < chars.len() && separator.separates(chars[n])
        invariant
            n <= chars@.len(),
            trim_start(chars@.skip(n as int), separator) == trim_start(chars@, separator),
        decreases chars@.len() - n,
    {
        assert(chars@.skip(n as int).drop_first() =~= chars@.skip(n + 1));
        n += 1;
    }
    n
}

/// `text` without the white space around it.
pub fn trimmed(text: &str) -> (chars: Vec<char>)
    ensures
        chars@ == trim(text@),
{
    let all = chars_of(text);
    let start = leading(&all, Separator::WhiteSpace);
    let ghost body = all@.skip(start as int);
    let mut end: usize = all.len();
    assert(body.take(body.len() as int) =~= body);
    while end > start && Separator::WhiteSpace.separates(all[end - 1])
        invariant
            start <= end <= all@.len(),
            body == all@.skip(start as int),
            trim_end(body.take(end - start), Separator::WhiteSpace) == trim_end(
                body,
                Separator::WhiteSpace,
            ),
        decreases end,
    {
        assert(body.take(end - start).drop_last() =~= body.take(end - start - 1));
        assert(body.take(end - start).last() == all@[end - 1]);
        end -= 1;
    }
    let mut chars: Vec<char> = Vec::new();
    let mut i: usize = start;
    assert(body.take(0) =~= Seq::<char>::empty());
    while i < end
        invariant
            start <= i <= end <= all@.len(),
            body == all@.skip(start as int),
            chars@ == body.take(i - start),
        decreases end - i,
    {
        chars.push(all[i]);
        i += 1;
        assert(body.take(i - start) =~= body.take(i - start - 1).push(all@[i - 1]));
    }
    proof {
        let kept = body.take(end - start);
        if kept.len() > 0 {
            assert(kept.last() == all@[end - 1]);
        }
    }
    chars
}

/// Appends `n` in decimal notation to `out`.
pub fn push_decimal(out: &mut String, n: u128)
    ensures
        final(out)@ == old(out)@ + decimal(n as nat),
    decreases n,
{
    let ghost start = out@;
    if n >= 10 {
        push_decimal(out, n / 10);
    }
    let d: u8 = (n % 10) as u8;
    out.push((48 + d) as char);
    assert(out@ =~= start + decimal(n as nat));
}

/// Appends `n` in decimal notation to `out`, with a minus sign where it is
/// negative.
pub fn push_signed_decimal(out: &mut String, n: i64)
    ensures
        final(out)@ == old(out)@ + signed_decimal(n as int),
{
    let ghost start = out@;
    if n < 0 {
        out.push('-');
        let magnitude: u128 = (-(n as i128)) as u128;
        push_decimal(out, magnitude);
        assert(out@ =~= start + signed_decimal(n as int));
    } else {
        push_decimal(out, n as u128);
    }
}

} // verus!
