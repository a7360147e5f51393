//! Which messages are previews, over the messages themselves.
use vstd::prelude::*;
use vstd::utf8::encode_utf8;
use crate::laws::texts::law_trim;
use crate::sessions::meaningful;
use crate::text::{occurs_at, Separator};

verus! {

/// Whether a text is made of white space.
pub open spec fn blank(text: Seq<char>) -> bool {
    forall|i: int| 0 <= i < text.len() ==> Separator::WhiteSpace.covers(#[trigger] text[i])
}

/// Whether a text has no white space around it.
pub open spec fn bare(text: Seq<char>) -> bool {
    text.len() > 0 ==> !Separator::WhiteSpace.covers(text[0]) && !Separator::WhiteSpace.covers(
        text.last(),
    )
}

/// Whether a text is `start` with something behind it.
pub open spec fn begins(text: Seq<char>, start: Seq<char>) -> bool {
    start.len() <= text.len() && text.take(start.len() as int) == start
}

/// A message is suitable as a preview exactly where, without the white space around it, it
/// has at least five bytes, does not start with a brace, a bracket or an angle bracket, and
/// starts with none of the texts that no human writes. It may be of any length.
pub proof fn law_suitable_message(left: Seq<char>, text: Seq<char>, right: Seq<char>)
    requires
        blank(left),
        blank(right),
        bare(text),
    ensures
        meaningful(left + text + right) <==> {
            &&& encode_utf8(text).len() >= 5
            &&& text[0] != '{' && text[0] != '[' && text[0] != '<'
            &&& !begins(text, "Tool loaded"@)
            &&& !begins(text, "This session is being continued"@)
            &&& !begins(text, "Your task is to create a detailed summary"@)
        },
{
    law_trim(left, text, right);
    assert forall|start: Seq<char>| #[trigger] begins(text, start) <==> occurs_at(
        text,
        start,
        0,
    ) by {
        if start.len() <= text.len() {
            assert(text.subrange(0, start.len() as int) =~= text.take(start.len() as int));
        }
    }
}

/// A text with more behind it has at least as many bytes.
proof fn lemma_more_bytes(text: Seq<char>, more: Seq<char>)
    ensures
        encode_utf8(text + more).len() >= encode_utf8(text).len(),
    decreases text.len(),
{
    if text.len() > 0 {
        lemma_more_bytes(text.drop_first(), more);
        assert((text + more).drop_first() =~= text.drop_first() + more);
        assert((text + more)[0] == text[0]);
    }
}

/// A suitable message stays suitable with more behind it, unless it then starts with one of
/// the texts that no human writes. So no message is too long.
pub proof fn law_longer_message(text: Seq<char>, more: Seq<char>)
    requires
        bare(text),
        bare(more),
        more.len() > 0,
        meaningful(text),
        !begins(text + seq![' '] + more, "Tool loaded"@),
        !begins(text + seq![' '] + more, "This session is being continued"@),
        !begins(text + seq![' '] + more, "Your task is to create a detailed summary"@),
    ensures
        meaningful(text + seq![' '] + more),
{
    let none = Seq::<char>::empty();
    let longer = text + seq![' '] + more;
    assert(none + text + none =~= text);
    assert(none + longer + none =~= longer);
    law_suitable_message(none, text, none);
    assert(encode_utf8(none).len() == 0);
    if text.len() == 0 {
        assert(text =~= none);
    }
    assert(longer[0] == text[0]);
    assert(longer.last() == more.last());
    law_suitable_message(none, longer, none);
    lemma_more_bytes(text, seq![' '] + more);
    assert(longer =~= text + (seq![' '] + more));
}

} // verus!
