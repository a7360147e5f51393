//! The names of projects, over the names of their directories.
use vstd::prelude::*;
use crate::laws::texts::{law_trim_start, lemma_nonempty_concat, lemma_one_field};
use crate::project::{
    directory_parts, first_host_at, host_at, lemma_hosted_name, project_filter, project_name,
};
use crate::text::{
    before, contains, fields, join, lemma_fields_at_least_one, lemma_fields_concat,
    lemma_join_concat, lemma_join_dash_fields, lemma_occurs_between, lemma_trim_start_concat,
    lemma_trim_start_is_suffix, nonempty, trim_start, Separator,
};

verus! {

/// Whether a text is made of hyphens.
pub open spec fn all_dashes(text: Seq<char>) -> bool {
    forall|i: int| 0 <= i < text.len() ==> #[trigger] text[i] == '-'
}

/// A text without hyphens in front of one is a field of its own.
proof fn lemma_field_first(field: Seq<char>, rest: Seq<char>)
    requires
        !field.contains('-'),
    ensures
        fields(field + seq!['-'] + rest, Separator::Dash) == seq![field] + fields(
            rest,
            Separator::Dash,
        ),
{
    lemma_no_dash(field);
    lemma_fields_concat(field, '-', rest, Separator::Dash);
    assert(field.push('-') + rest =~= field + seq!['-'] + rest);
}

/// A text without hyphens is one field.
proof fn lemma_no_dash(field: Seq<char>)
    requires
        !field.contains('-'),
    ensures
        fields(field, Separator::Dash) == seq![field],
{
    assert forall|i: int| 0 <= i < field.len() implies !Separator::Dash.covers(
        #[trigger] field[i],
    ) by {
        assert(field.contains(field[i]));
    }
    lemma_one_field(field, Separator::Dash);
}

/// The pieces of what stands behind the host's hyphen.
proof fn lemma_host_fields(user: Seq<char>, repo: Seq<char>)
    requires
        !user.contains('-'),
    ensures
        fields("github-com-"@ + user + "-"@ + repo, Separator::Dash) == seq![
            "github"@,
            "com"@,
            user,
        ] + fields(repo, Separator::Dash),
{
    reveal_strlit("github-com-");
    reveal_strlit("github");
    reveal_strlit("com");
    reveal_strlit("-");
    let glue = seq!['-'];
    let last = user + glue + repo;
    let middle = "com"@ + glue + last;
    assert("github-com-"@ + user + "-"@ + repo =~= "github"@ + glue + middle);
    lemma_field_first(user, repo);
    lemma_field_first("com"@, last);
    lemma_field_first("github"@, middle);
    assert(seq!["github"@] + (seq!["com"@] + (seq![user] + fields(repo, Separator::Dash))) =~= seq![
        "github"@,
        "com"@,
        user,
    ] + fields(repo, Separator::Dash));
}

/// Two neighbours `github` and `com` with a piece behind them make the host in the joined
/// text, and what is behind it is the join of the pieces behind them.
proof fn lemma_host_in_text(parts: Seq<Seq<char>>, j: int)
    requires
        0 <= j,
        j + 2 < parts.len(),
        parts[j] == "github"@,
        parts[j + 1] == "com"@,
    ensures
        ({
            let left = if j == 0 {
                Seq::<char>::empty()
            } else {
                "-"@ + join(parts.take(j), "-"@)
            };
            "-"@ + join(parts, "-"@) == left + "-github-com-"@ + join(parts.skip(j + 2), "-"@)
        }),
{
    reveal_strlit("-github-com-");
    reveal_strlit("github");
    reveal_strlit("com");
    reveal_strlit("-");
    let glue = "-"@;
    let rest = parts.skip(j + 2);
    let pair = seq![parts[j]] + seq![parts[j + 1]];
    lemma_join_concat(seq![parts[j]], seq![parts[j + 1]], glue);
    assert(join(pair, glue) == "github"@ + glue + "com"@);
    lemma_join_concat(pair, rest, glue);
    assert(parts.skip(j) =~= pair + rest);
    let tail = join(parts.skip(j), glue);
    assert(glue + tail =~= "-github-com-"@ + join(rest, glue));
    if j > 0 {
        lemma_join_concat(parts.take(j), parts.skip(j), glue);
        assert(parts.take(j) + parts.skip(j) =~= parts);
        assert(glue + join(parts, glue) =~= (glue + join(parts.take(j), glue)) + (glue + tail));
        assert(glue + join(parts, glue) =~= glue + join(parts.take(j), glue) + "-github-com-"@
            + join(rest, glue));
    } else {
        assert(parts.skip(0) =~= parts);
        assert(glue + join(parts, glue) =~= Seq::<char>::empty() + "-github-com-"@ + join(
            rest,
            glue,
        ));
    }
}

/// The name of a directory whose pieces are `first`, then the host, a user and those of a
/// repository, where `first` has no host.
proof fn lemma_name_of_pieces(
    raw: Seq<char>,
    first: Seq<Seq<char>>,
    user: Seq<char>,
    repo: Seq<char>,
)
    requires
        directory_parts(raw) == first + (seq!["github"@, "com"@, user] + fields(
            repo,
            Separator::Dash,
        )),
        forall|j: int| j < first.len() ==> !host_at(directory_parts(raw), j),
    ensures
        project_name(raw) == user + "/"@ + before(repo, "--worktrees"@),
{
    let parts = directory_parts(raw);
    let k = first.len() as int;
    reveal_strlit("-");
    lemma_fields_at_least_one(repo, Separator::Dash);
    assert(parts[k] == "github"@ && parts[k + 1] == "com"@ && parts[k + 2] == user);
    assert(first_host_at(parts, k));
    lemma_hosted_name(raw, k);
    assert(parts.skip(k + 3) =~= fields(repo, Separator::Dash));
    lemma_join_dash_fields(repo);
    assert("-"@ =~= seq!['-']);
}

/// A directory is shown as the user and the repository behind the first host in its name,
/// wherever that stands: the name is anything, then the host, the user, a hyphen and the
/// repository, of which only what is in front of a worktree's mark is shown.
pub proof fn law_hosted_directory(left: Seq<char>, user: Seq<char>, repo: Seq<char>)
    requires
        !contains("-"@ + left + "-github-com"@, "-github-com-"@),
        !user.contains('-'),
    ensures
        project_name(left + "-github-com-"@ + user + "-"@ + repo) == user + "/"@ + before(
            repo,
            "--worktrees"@,
        ),
        !contains(repo, "--worktrees"@) ==> project_name(
            left + "-github-com-"@ + user + "-"@ + repo,
        ) == user + "/"@ + repo,
{
    reveal_strlit("-github-com-");
    reveal_strlit("-github-com");
    reveal_strlit("github-com-");
    reveal_strlit("github");
    reveal_strlit("com");
    reveal_strlit("-");
    let glue = seq!['-'];
    assert("-"@ =~= glue);
    let raw = left + "-github-com-"@ + user + "-"@ + repo;
    let hosted = "github-com-"@ + user + "-"@ + repo;
    assert(raw =~= left + (glue + hosted));
    let body = trim_start(left, Separator::Dash);
    let three = seq!["github"@, "com"@, user] + fields(repo, Separator::Dash);
    lemma_host_fields(user, repo);
    lemma_trim_start_is_suffix(left, Separator::Dash);
    let dashes = left.take(left.len() - body.len());
    assert(left =~= dashes + body);
    if body.len() == 0 {
        lemma_only_dashes(left);
        assert forall|i: int| 0 <= i < (left + glue).len() implies Separator::Dash.covers(
            #[trigger] (left + glue)[i],
        ) by {
            if i < left.len() {
                assert(left[i] == '-');
            }
        }
        assert(hosted[0] == 'g');
        assert(raw =~= (left + glue) + hosted);
        law_trim_start(left + glue, hosted, Separator::Dash);
        assert(directory_parts(raw) =~= Seq::<Seq<char>>::empty() + three);
        lemma_name_of_pieces(raw, seq![], user, repo);
    } else {
        lemma_trim_start_concat(left, glue + hosted, Separator::Dash);
        assert(body + (glue + hosted) =~= body.push('-') + hosted);
        lemma_fields_concat(body, '-', hosted, Separator::Dash);
        let first = fields(body, Separator::Dash);
        assert(directory_parts(raw) == first + three);
        assert forall|j: int| j < first.len() implies !host_at(directory_parts(raw), j) by {
            if host_at(directory_parts(raw), j) {
                let some = first + seq!["github"@, "com"@];
                assert(some[j] == directory_parts(raw)[j]);
                assert(some[j + 1] == directory_parts(raw)[j + 1]);
                lemma_host_in_text(some, j);
                lemma_fields_at_least_one(body, Separator::Dash);
                lemma_join_dash_fields(body);
                let pair = seq!["github"@] + seq!["com"@];
                lemma_join_concat(seq!["github"@], seq!["com"@], "-"@);
                assert(pair =~= seq!["github"@, "com"@]);
                lemma_join_concat(first, pair, "-"@);
                assert(join(some, "-"@) =~= body + "-github-com"@);
                let before_host = if j == 0 {
                    Seq::<char>::empty()
                } else {
                    "-"@ + join(some.take(j), "-"@)
                };
                let behind = join(some.skip(j + 2), "-"@);
                let more = ("-"@ + dashes).drop_last();
                lemma_only_dashes_in_front(left);
                assert("-"@ + dashes =~= more + "-"@);
                assert("-"@ + left + "-github-com"@ =~= more + ("-"@ + (body + "-github-com"@)));
                assert("-"@ + left + "-github-com"@ =~= (more + before_host) + "-github-com-"@
                    + behind);
                lemma_occurs_between(more + before_host, "-github-com-"@, behind);
            }
        }
        lemma_name_of_pieces(raw, first, user, repo);
    }
}

/// A text of which trimming leaves nothing is made of hyphens.
proof fn lemma_only_dashes(text: Seq<char>)
    requires
        trim_start(text, Separator::Dash).len() == 0,
    ensures
        all_dashes(text),
    decreases text.len(),
{
    if text.len() > 0 {
        lemma_only_dashes(text.drop_first());
        assert forall|i: int| 0 <= i < text.len() implies #[trigger] text[i] == '-' by {
            if i > 0 {
                assert(text.drop_first()[i - 1] == '-');
            }
        }
    }
}

/// What trimming takes away is made of hyphens.
proof fn lemma_only_dashes_in_front(text: Seq<char>)
    ensures
        trim_start(text, Separator::Dash).len() <= text.len(),
        all_dashes(text.take(text.len() - trim_start(text, Separator::Dash).len())),
        trim_start(text, Separator::Dash).len() > 0 ==> trim_start(text, Separator::Dash)[0] != '-',
    decreases text.len(),
{
    if text.len() > 0 && text[0] == '-' {
        let rest = text.drop_first();
        lemma_only_dashes_in_front(rest);
        let n = text.len() - trim_start(text, Separator::Dash).len();
        assert forall|i: int| 0 <= i < n implies #[trigger] text.take(n)[i] == '-' by {
            if i > 0 {
                assert(rest.take(n - 1)[i - 1] == '-');
            }
        }
    }
}

/// A directory whose name starts with the host is shown as the user and the repository too.
pub proof fn law_hosted_directory_at_the_start(user: Seq<char>, repo: Seq<char>)
    requires
        !user.contains('-'),
    ensures
        project_name("github-com-"@ + user + "-"@ + repo) == user + "/"@ + before(
            repo,
            "--worktrees"@,
        ),
{
    reveal_strlit("github-com-");
    let raw = "github-com-"@ + user + "-"@ + repo;
    assert(raw[0] == 'g');
    assert(Seq::<char>::empty() + raw =~= raw);
    law_trim_start(seq![], raw, Separator::Dash);
    lemma_host_fields(user, repo);
    assert(directory_parts(raw) =~= Seq::<Seq<char>>::empty() + (seq!["github"@, "com"@, user]
        + fields(repo, Separator::Dash)));
    lemma_name_of_pieces(raw, seq![], user, repo);
}

/// Whether the name of a directory has no host with a user and a repository behind it.
pub open spec fn no_host(raw: Seq<char>) -> bool {
    forall|left: Seq<char>, right: Seq<char>|
        "-"@ + raw == #[trigger] (left + "-github-com-"@ + right) ==> !right.contains('-')
}

/// A directory without a host in its name has none among its pieces.
proof fn lemma_no_host(raw: Seq<char>)
    requires
        no_host(raw),
    ensures
        !exists|i: int| host_at(directory_parts(raw), i),
{
    reveal_strlit("-");
    let parts = directory_parts(raw);
    if exists|i: int| host_at(parts, i) {
        let i = choose|i: int| host_at(parts, i);
        let body = trim_start(raw, Separator::Dash);
        lemma_host_in_text(parts, i);
        lemma_join_dash_fields(body);
        assert("-"@ =~= seq!['-']);
        let left = if i == 0 {
            Seq::<char>::empty()
        } else {
            "-"@ + join(parts.take(i), "-"@)
        };
        let right = join(parts.skip(i + 2), "-"@);
        lemma_trim_start_is_suffix(raw, Separator::Dash);
        lemma_only_dashes_in_front(raw);
        let dashes = raw.take(raw.len() - body.len());
        assert(raw =~= dashes + body);
        let more = ("-"@ + dashes).drop_last();
        assert("-"@ + dashes =~= more + "-"@);
        assert("-"@ + raw =~= more + ("-"@ + body));
        assert("-"@ + raw =~= (more + left) + "-github-com-"@ + right);
        let user = parts.skip(i + 2).take(1);
        let rest = parts.skip(i + 3);
        assert(parts.skip(i + 2) =~= user + rest);
        lemma_join_concat(user, rest, "-"@);
        assert(right[join(user, "-"@).len() as int] == '-');
        assert(right.contains('-'));
    }
}

/// Hyphens in front of a text add no piece that is not empty.
proof fn lemma_dashes_in_front(dashes: Seq<char>, text: Seq<char>)
    requires
        all_dashes(dashes),
    ensures
        nonempty(fields(dashes + text, Separator::Dash)) == nonempty(fields(text, Separator::Dash)),
    decreases dashes.len(),
{
    if dashes.len() == 0 {
        assert(dashes + text =~= text);
    } else {
        let fewer = dashes.drop_first();
        assert(dashes[0] == '-');
        assert forall|i: int| 0 <= i < fewer.len() implies #[trigger] fewer[i] == '-' by {
            assert(dashes[i + 1] == '-');
        }
        lemma_dashes_in_front(fewer, text);
        let none = Seq::<char>::empty();
        assert(dashes + text =~= none + seq!['-'] + (fewer + text));
        lemma_field_first(none, fewer + text);
        lemma_nonempty_concat(seq![none], fields(fewer + text, Separator::Dash));
        reveal_with_fuel(nonempty, 2);
        assert(seq![none].drop_last() =~= seq![]);
        assert(nonempty(seq![none]) =~= seq![]);
        assert(nonempty(seq![none]) + nonempty(fields(fewer + text, Separator::Dash)) =~= nonempty(
            fields(fewer + text, Separator::Dash),
        ));
    }
}

/// A text without hyphens, between hyphens, is the one piece that is not empty, if it is not
/// empty itself.
proof fn lemma_one_piece(dashes: Seq<char>, piece: Seq<char>, tail: Seq<char>)
    requires
        all_dashes(dashes),
        all_dashes(tail),
        !piece.contains('-'),
    ensures
        nonempty(fields(dashes + piece + tail, Separator::Dash)) == if piece.len() > 0 {
            seq![piece]
        } else {
            seq![]
        },
{
    assert(dashes + piece + tail =~= dashes + (piece + tail));
    lemma_dashes_in_front(dashes, piece + tail);
    reveal_with_fuel(nonempty, 2);
    assert(seq![piece].drop_last() =~= seq![]);
    assert(nonempty(seq![piece]) =~= if piece.len() > 0 {
        seq![piece]
    } else {
        seq![]
    });
    if tail.len() == 0 {
        assert(piece + tail =~= piece);
        lemma_no_dash(piece);
    } else {
        let fewer = tail.drop_first();
        assert(tail[0] == '-');
        assert forall|i: int| 0 <= i < fewer.len() implies #[trigger] fewer[i] == '-' by {
            assert(tail[i + 1] == '-');
        }
        assert(piece + tail =~= piece + seq!['-'] + fewer);
        lemma_field_first(piece, fewer);
        lemma_nonempty_concat(seq![piece], fields(fewer, Separator::Dash));
        let none = Seq::<char>::empty();
        lemma_dashes_in_front(fewer, none);
        assert(fewer + none =~= fewer);
        lemma_no_dash(none);
        assert(seq![none].drop_last() =~= seq![]);
        assert(nonempty(seq![none]) =~= seq![]);
        assert(nonempty(seq![piece]) + nonempty(fields(fewer, Separator::Dash)) =~= nonempty(
            seq![piece],
        ));
    }
}

/// The pieces that are not empty of two that hyphens separate.
proof fn lemma_two_pieces(a: Seq<char>, gap: Seq<char>, b: Seq<char>, tail: Seq<char>)
    requires
        !a.contains('-'),
        !b.contains('-'),
        all_dashes(gap),
        all_dashes(tail),
        gap.len() > 0,
    ensures
        nonempty(fields(a + gap + b + tail, Separator::Dash)) == (if a.len() > 0 {
            seq![a]
        } else {
            seq![]
        }) + (if b.len() > 0 {
            seq![b]
        } else {
            seq![]
        }),
{
    let fewer = gap.drop_first();
    assert(gap[0] == '-');
    assert forall|i: int| 0 <= i < fewer.len() implies #[trigger] fewer[i] == '-' by {
        assert(gap[i + 1] == '-');
    }
    let rest = fewer + b + tail;
    assert(a + gap + b + tail =~= a + seq!['-'] + rest);
    lemma_field_first(a, rest);
    lemma_nonempty_concat(seq![a], fields(rest, Separator::Dash));
    lemma_one_piece(fewer, b, tail);
    let none = Seq::<char>::empty();
    lemma_one_piece(none, a, none);
    assert(none + a + none =~= a);
    lemma_no_dash(a);
}

/// A directory without a host, whose name has hyphens between its last two pieces and at
/// least one more in front of them, is shown by these two.
pub proof fn law_plain_directory(
    left: Seq<char>,
    a: Seq<char>,
    gap: Seq<char>,
    b: Seq<char>,
    tail: Seq<char>,
)
    requires
        no_host(left + "-"@ + a + gap + b + tail),
        !all_dashes(left),
        a.len() > 0,
        b.len() > 0,
        gap.len() > 0,
        !a.contains('-'),
        !b.contains('-'),
        all_dashes(gap),
        all_dashes(tail),
    ensures
        project_name(left + "-"@ + a + gap + b + tail) == a + "/"@ + b,
{
    reveal_strlit("-");
    let raw = left + "-"@ + a + gap + b + tail;
    let pair = a + gap + b + tail;
    lemma_no_host(raw);
    let body = trim_start(left, Separator::Dash);
    if body.len() == 0 {
        lemma_only_dashes(left);
    }
    lemma_trim_start_concat(left, seq!['-'] + pair, Separator::Dash);
    assert(raw =~= left + (seq!['-'] + pair));
    assert(body + (seq!['-'] + pair) =~= body.push('-') + pair);
    lemma_fields_concat(body, '-', pair, Separator::Dash);
    let first = fields(body, Separator::Dash);
    lemma_nonempty_concat(first, fields(pair, Separator::Dash));
    lemma_two_pieces(a, gap, b, tail);
    // The first piece in front of them starts with no hyphen, so it is not empty.
    lemma_only_dashes_in_front(left);
    lemma_starts_nonempty(body);
    let named = nonempty(directory_parts(raw));
    assert(named == nonempty(first) + (seq![a] + seq![b]));
    assert(named[named.len() - 2] == a);
    assert(named[named.len() - 1] == b);
}

/// A text that starts with no hyphen has a piece that is not empty.
proof fn lemma_starts_nonempty(text: Seq<char>)
    requires
        text.len() > 0,
        text[0] != '-',
    ensures
        nonempty(fields(text, Separator::Dash)).len() > 0,
    decreases text.len(),
{
    let head = text.drop_last();
    let parts = fields(text, Separator::Dash);
    lemma_fields_at_least_one(head, Separator::Dash);
    if text.last() == '-' {
        lemma_starts_nonempty(head);
        assert(parts.drop_last() =~= fields(head, Separator::Dash));
    } else {
        assert(parts.last().len() > 0);
    }
}

/// A directory without a host, of at most two pieces that are not empty, is shown as it is.
pub proof fn law_short_directory(
    left: Seq<char>,
    a: Seq<char>,
    gap: Seq<char>,
    b: Seq<char>,
    tail: Seq<char>,
)
    requires
        no_host(left + a + gap + b + tail),
        gap.len() > 0 || b.len() == 0,
        !a.contains('-'),
        !b.contains('-'),
        all_dashes(left),
        all_dashes(gap),
        all_dashes(tail),
    ensures
        project_name(left + a + gap + b + tail) == left + a + gap + b + tail,
{
    let raw = left + a + gap + b + tail;
    let pair = a + gap + b + tail;
    lemma_no_host(raw);
    let body = trim_start(raw, Separator::Dash);
    lemma_trim_start_is_suffix(raw, Separator::Dash);
    lemma_only_dashes_in_front(raw);
    let dashes = raw.take(raw.len() - body.len());
    assert(raw =~= dashes + body);
    lemma_dashes_in_front(dashes, body);
    lemma_dashes_in_front(left, pair);
    assert(raw =~= left + pair);
    if gap.len() > 0 {
        lemma_two_pieces(a, gap, b, tail);
    } else {
        let none = Seq::<char>::empty();
        lemma_one_piece(none, a, tail);
        assert(pair =~= none + a + tail);
    }
}

/// The pattern of a filter is the filter with a hyphen for each slash, every other character
/// as it is, and a `%` on both sides.
pub proof fn law_filter_pattern(filter: Seq<char>, i: int)
    ensures
        project_filter(filter).len() == filter.len() + 2,
        project_filter(filter)[0] == '%',
        project_filter(filter).last() == '%',
        0 <= i < filter.len() && filter[i] != '/' ==> project_filter(filter)[i + 1] == filter[i],
        0 <= i < filter.len() && filter[i] == '/' ==> project_filter(filter)[i + 1] == '-',
{
    reveal_strlit("%");
}

} // verus!
