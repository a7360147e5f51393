//! Project names: how a project directory is shown, and how a filter finds it.
use vstd::prelude::*;
use crate::text::{
    before, chars_of, contains, fields, find, join, join_from, keep_nonempty, leading, nonempty,
    occurs_at, occurs_first, push_range, replace, replaced, same_chars, split_fields, trim_start,
    Separator, lemma_before, lemma_fields_at_least_one, lemma_fields_concat, lemma_first_occurrence,
    lemma_join_concat, lemma_join_dash_fields, lemma_occurs_between, lemma_trim_start_concat,
    lemma_trim_start_is_suffix, chars_deep_view,
};

verus! {

/// What separates a repository's directory name from those of its worktrees.
pub const WORKTREES: &'static str = "--worktrees";

/// The pieces of a project directory name between its hyphens, without the
/// hyphens that it starts with.
pub open spec fn directory_parts(raw: Seq<char>) -> Seq<Seq<char>> {
    fields(trim_start(raw, Separator::Dash), Separator::Dash)
}

/// Whether the pieces `github`, `com`, a user and at least one piece of a
/// repository's name start at index `i`.
pub open spec fn host_at(parts: Seq<Seq<char>>, i: int) -> bool {
    &&& 0 <= i
    &&& i + 3 < parts.len()
    &&& parts[i] == "github"@
    &&& parts[i + 1] == "com"@
}

/// Whether the host starts at index `i` and at no earlier one.
pub open spec fn first_host_at(parts: Seq<Seq<char>>, i: int) -> bool {
    &&& host_at(parts, i)
    &&& forall|j: int| j < i ==> !host_at(parts, j)
}

/// The repository's name behind the host at index `i`, without what marks a
/// worktree.
pub open spec fn repository(parts: Seq<Seq<char>>, i: int) -> Seq<char> {
    before(join(parts.skip(i + 3), "-"@), WORKTREES@)
}

/// The name shown for the project directory `raw`: `user/repository` where the
/// directory names a host; else its last two pieces; else `raw` itself.
pub open spec fn project_name(raw: Seq<char>) -> Seq<char> {
    let parts = directory_parts(raw);
    let named = nonempty(parts);
    if exists|i: int| host_at(parts, i) {
        let i = choose|i: int| first_host_at(parts, i);
        parts[i + 2] + "/"@ + repository(parts, i)
    } else if named.len() > 2 {
        named[named.len() - 2] + "/"@ + named[named.len() - 1]
    } else {
        raw
    }
}

/// Converts project directory names like
/// `-home-murou-ghq-github-com-user-repo` to `user/repo`.
pub fn format_project_name(raw: &str) -> (name: String)
    ensures
        name@ == project_name(raw@),
{
    broadcast use chars_deep_view;

    let chars = chars_of(raw);
    let start = leading(&chars, Separator::Dash);
    let parts = split_fields(&chars, start, Separator::Dash);
    let ghost model = directory_parts(raw@);
    let github = chars_of("github");
    let com = chars_of("com");
    let length: usize = parts.len();
    let mut i: usize = 0;
    while i < length
        invariant
            i <= length,
            length == parts@.len(),
            model == directory_parts(raw@),
            parts.deep_view() == model,
            github@ == "github"@,
            com@ == "com"@,
            forall|j: int| j < i ==> !host_at(model, j),
        decreases length - i,
    {
        broadcast use chars_deep_view;

        assert(parts@[i as int].deep_view() == model[i as int]);
        if length - i > 3 && same_chars(&parts[i], &github) && same_chars(&parts[i + 1], &com) {
            assert(parts@[i + 1].deep_view() == model[i + 1]);
            assert(parts@[i + 2].deep_view() == model[i + 2]);
            assert(host_at(model, i as int));
            assert(first_host_at(model, i as int));
            proof {
                let k = choose|k: int| first_host_at(model, k);
                assert(first_host_at(model, k));
                assert(k == i);
            }
            let whole = join_from(&parts, i + 3, "-");
            let marker = chars_of(WORKTREES);
            let mut end: usize = whole.len();
            assert(whole@.subrange(0, end as int) =~= whole@);
            if let Some(position) = find(&whole, &marker) {
                proof {
                    lemma_before(whole@, WORKTREES@, position as int);
                    assert(occurs_at(whole@, WORKTREES@, position as int));
                    assert(whole@.subrange(0, position as int) =~= whole@.take(position as int));
                }
                end = position;
            }
            let mut name = String::new();
            push_range(&mut name, &parts[i + 2], 0, parts[i + 2].len());
            name.append("/");
            push_range(&mut name, &whole, 0, end);
            assert(name@ =~= project_name(raw@));
            return name;
        }
        if i + 1 < length {
            assert(parts@[i + 1].deep_view() == model[i + 1]);
        }
        i += 1;
    }
    assert(!exists|j: int| host_at(model, j)) by {
        assert(forall|j: int| host_at(model, j) ==> j < length);
    }
    let named = keep_nonempty(parts);
    let count: usize = named.len();
    if count > 2 {
        assert(named@[count - 2].deep_view() == nonempty(model)[count - 2]);
        assert(named@[count - 1].deep_view() == nonempty(model)[count - 1]);
        let mut name = String::new();
        push_range(&mut name, &named[count - 2], 0, named[count - 2].len());
        name.append("/");
        push_range(&mut name, &named[count - 1], 0, named[count - 1].len());
        assert(name@ =~= project_name(raw@));
        name
    } else {
        raw.to_string()
    }
}

/// The pattern by which a filter finds project directories: the filter, with a
/// hyphen for each slash, anywhere in the name.
pub open spec fn project_filter(filter: Seq<char>) -> Seq<char> {
    "%"@ + replace(filter, '/', '-') + "%"@
}

/// Whether a filter finds the project directory `raw`: the pattern of the filter
/// is a piece of text with `%` on both sides, and `raw` holds that piece.
pub open spec fn finds(filter: Seq<char>, raw: Seq<char>) -> bool {
    exists|piece: Seq<char>|
        project_filter(filter) == "%"@ + piece + "%"@ && #[trigger] contains(raw, piece)
}

/// Normalizes a project filter so that `user/repo` also matches raw directory
/// names like `-home-foo-ghq-github-com-user-repo`.
pub fn normalize_project_filter(filter: &str) -> (pattern: String)
    ensures
        pattern@ == project_filter(filter@),
{
    let mut pattern = String::new();
    pattern.append("%");
    pattern.append(replaced(filter, '/', '-').as_str());
    pattern.append("%");
    assert(pattern@ =~= project_filter(filter@));
    pattern
}

/// A directory that names a host is shown as `user/repository` of the first one.
pub proof fn lemma_hosted_name(raw: Seq<char>, i: int)
    requires
        first_host_at(directory_parts(raw), i),
    ensures
        project_name(raw) == directory_parts(raw)[i + 2] + "/"@ + repository(
            directory_parts(raw),
            i,
        ),
{
    let parts = directory_parts(raw);
    assert(host_at(parts, i));
    let k = choose|k: int| first_host_at(parts, k);
    assert(first_host_at(parts, k));
    assert(k == i);
}

/// A directory that names a host has a first one.
pub proof fn lemma_first_host(parts: Seq<Seq<char>>, i: int)
    requires
        host_at(parts, i),
    ensures
        exists|j: int| first_host_at(parts, j),
    decreases i,
{
    if forall|j: int| j < i ==> !host_at(parts, j) {
        assert(first_host_at(parts, i));
    } else {
        let k = choose|k: int| k < i && host_at(parts, k);
        lemma_first_host(parts, k);
    }
}

/// A directory name holds the join of any of its consecutive pieces, and so
/// the start of that join.
proof fn lemma_directory_holds_pieces(raw: Seq<char>, from: int, to: int)
    requires
        0 <= from < to <= directory_parts(raw).len(),
    ensures
        exists|i: int| #[trigger]
            occurs_at(raw, join(directory_parts(raw).subrange(from, to), seq!['-']), i),
{
    let parts = directory_parts(raw);
    let body = trim_start(raw, Separator::Dash);
    let glue = seq!['-'];
    let middle = join(parts.subrange(from, to), glue);
    lemma_join_dash_fields(body);
    lemma_trim_start_is_suffix(raw, Separator::Dash);
    let dashes = raw.take(raw.len() - body.len());
    assert(raw =~= dashes + body);
    let left = if from == 0 {
        Seq::<char>::empty()
    } else {
        join(parts.take(from), glue) + glue
    };
    let right = if to == parts.len() {
        Seq::<char>::empty()
    } else {
        glue + join(parts.skip(to), glue)
    };
    let tail = parts.skip(from);
    if from > 0 {
        assert(parts.take(from) + tail =~= parts);
        lemma_join_concat(parts.take(from), tail, glue);
    } else {
        assert(tail =~= parts);
    }
    if to < parts.len() {
        assert(parts.subrange(from, to) + parts.skip(to) =~= tail);
        lemma_join_concat(parts.subrange(from, to), parts.skip(to), glue);
    } else {
        assert(parts.subrange(from, to) =~= tail);
    }
    assert(body =~= left + middle + right);
    assert(raw =~= (dashes + left) + middle + right);
    lemma_occurs_between(dashes + left, middle, right);
}

/// A text holds the start of whatever it holds.
proof fn lemma_holds_start(text: Seq<char>, pattern: Seq<char>, i: int, length: int)
    requires
        occurs_at(text, pattern, i),
        0 <= length <= pattern.len(),
    ensures
        occurs_at(text, pattern.take(length), i),
{
    assert(text.subrange(i, i + length) =~= text.subrange(i, i + pattern.len()).take(length));
}

/// Where neither piece holds a slash, only the one between them is replaced.
proof fn lemma_only_slash(left: Seq<char>, right: Seq<char>)
    requires
        !left.contains('/'),
        !right.contains('/'),
    ensures
        replace(left + "/"@ + right, '/', '-') == left + seq!['-'] + right,
{
    reveal_strlit("/");
    let name = left + "/"@ + right;
    let wanted = left + seq!['-'] + right;
    let replaced = replace(name, '/', '-');
    assert forall|j: int| 0 <= j < name.len() implies replaced[j] == wanted[j] by {
        if j < left.len() {
            assert(left.contains(left[j]));
        } else if j > left.len() {
            assert(right.contains(right[j - left.len() - 1]));
        }
    }
    assert(replaced =~= wanted);
}

/// A filter finds every directory that holds it with a hyphen for each slash: `user/repo`
/// finds `-home-foo-ghq-github-com-user-repo`.
pub proof fn law_filter_finds_directories(filter: Seq<char>, left: Seq<char>, right: Seq<char>)
    ensures
        finds(filter, left + replace(filter, '/', '-') + right),
{
    let piece = replace(filter, '/', '-');
    lemma_occurs_between(left, piece, right);
    assert(contains(left + piece + right, piece));
}

/// The name `user/repository` shown for a directory that names a host, first at index
/// `k`, finds that directory when it is used as a filter. Neither the user nor the
/// repository may hold a slash of its own.
pub proof fn law_shown_name_finds_hosted_directory(raw: Seq<char>, k: int)
    requires
        first_host_at(directory_parts(raw), k),
        !directory_parts(raw)[k + 2].contains('/'),
        !repository(directory_parts(raw), k).contains('/'),
    ensures
        finds(project_name(raw), raw),
{
    reveal_strlit("-");
    reveal_strlit("/");
    let parts = directory_parts(raw);
    let glue = seq!['-'];
    assert("-"@ =~= glue);
    lemma_hosted_name(raw, k);
    let user = parts[k + 2];
    let rest = parts.skip(k + 3);
    let whole = join(rest, glue);
    let kept = repository(parts, k);
    // The part in front of the worktree marker is a start of the whole.
    assert(kept.len() <= whole.len() && kept == whole.take(kept.len() as int)) by {
        if contains(whole, WORKTREES@) {
            let w = choose|w: int| occurs_at(whole, WORKTREES@, w);
            lemma_first_occurrence(whole, WORKTREES@, w);
            let j = choose|j: int| occurs_first(whole, WORKTREES@, j);
            lemma_before(whole, WORKTREES@, j);
        } else {
            assert(whole.take(whole.len() as int) =~= whole);
        }
    }
    let span = parts.subrange(k + 2, parts.len() as int);
    assert(span =~= seq![user] + rest);
    lemma_join_concat(seq![user], rest, glue);
    assert(join(seq![user], glue) == user);
    let full = join(span, glue);
    assert(full == user + glue + whole);
    lemma_directory_holds_pieces(raw, k + 2, parts.len() as int);
    let at = choose|at: int| #[trigger] occurs_at(raw, full, at);
    let wanted = user + glue + kept;
    lemma_holds_start(raw, full, at, wanted.len() as int);
    assert(full.take(wanted.len() as int) =~= wanted);
    assert(occurs_at(raw, wanted, at));
    lemma_only_slash(user, kept);
    assert(contains(raw, replace(project_name(raw), '/', '-')));
}

/// A directory without a host is shown by its last two pieces that are not
/// empty. Where these are neighbours, at indices `k` and `k + 1`, that name finds
/// the directory when it is used as a filter.
pub proof fn law_shown_name_finds_plain_directory(raw: Seq<char>, k: int)
    requires
        !exists|i: int| host_at(directory_parts(raw), i),
        nonempty(directory_parts(raw)).len() > 2,
        0 <= k,
        k + 1 < directory_parts(raw).len(),
        !directory_parts(raw)[k].contains('/'),
        !directory_parts(raw)[k + 1].contains('/'),
        directory_parts(raw)[k].len() > 0,
        directory_parts(raw)[k + 1].len() > 0,
        forall|j: int|
            k + 1 < j < directory_parts(raw).len() ==> #[trigger] directory_parts(raw)[j].len()
                == 0,
    ensures
        finds(project_name(raw), raw),
{
    let parts = directory_parts(raw);
    lemma_last_nonempty(parts, k);
    lemma_directory_holds_pieces(raw, k, k + 2);
    let span = parts.subrange(k, k + 2);
    let wanted = parts[k] + seq!['-'] + parts[k + 1];
    assert(join(span, seq!['-']) == wanted) by {
        assert(span =~= seq![parts[k]] + seq![parts[k + 1]]);
        lemma_join_concat(seq![parts[k]], seq![parts[k + 1]], seq!['-']);
    }
    let at = choose|at: int| #[trigger] occurs_at(raw, wanted, at);
    assert(occurs_at(raw, wanted, at));
    lemma_only_slash(parts[k], parts[k + 1]);
    assert(contains(raw, replace(project_name(raw), '/', '-')));
}

/// A directory of at most two pieces that are not empty, and without a host, is
/// shown as it is; that name finds the directory when it is used as a filter, unless it
/// holds a slash.
pub proof fn law_shown_name_finds_short_directory(raw: Seq<char>)
    requires
        !exists|i: int| host_at(directory_parts(raw), i),
        nonempty(directory_parts(raw)).len() <= 2,
    ensures
        project_name(raw) == raw,
        finds(project_name(raw), raw) <==> !raw.contains('/'),
{
    let replaced = replace(raw, '/', '-');
    if raw.contains('/') {
        let j = choose|j: int| 0 <= j < raw.len() && raw[j] == '/';
        if finds(raw, raw) {
            let piece = choose|piece: Seq<char>|
                project_filter(raw) == "%"@ + piece + "%"@ && #[trigger] contains(raw, piece);
            reveal_strlit("%");
            assert(piece =~= project_filter(raw).subrange(1, project_filter(raw).len() - 1));
            assert(replaced =~= project_filter(raw).subrange(1, project_filter(raw).len() - 1));
            let i = choose|i: int| occurs_at(raw, piece, i);
            assert(raw.subrange(0, raw.len() as int) =~= raw);
            assert(raw[j] == replaced[j]);
        }
    } else {
        assert forall|j: int| 0 <= j < raw.len() implies replaced[j] == raw[j] by {
            assert(raw.contains(raw[j]));
        }
        assert(replaced =~= raw);
        assert(raw.subrange(0, raw.len() as int) =~= raw);
        assert(occurs_at(raw, replaced, 0));
        assert(contains(raw, replaced));
    }
}

/// Where pieces `k` and `k + 1` are not empty and all later ones are, these two
/// are the last of the pieces that are not empty.
proof fn lemma_last_nonempty(parts: Seq<Seq<char>>, k: int)
    requires
        0 <= k,
        k + 1 < parts.len(),
        parts[k].len() > 0,
        parts[k + 1].len() > 0,
        forall|j: int| k + 1 < j < parts.len() ==> #[trigger] parts[j].len() == 0,
    ensures
        nonempty(parts).len() >= 2,
        nonempty(parts)[nonempty(parts).len() - 2] == parts[k],
        nonempty(parts)[nonempty(parts).len() - 1] == parts[k + 1],
    decreases parts.len(),
{
    let head = parts.drop_last();
    if k + 2 == parts.len() {
        assert(head.last() == parts[k]);
        assert(nonempty(head) == nonempty(head.drop_last()).push(parts[k]));
        assert(nonempty(parts) == nonempty(head).push(parts[k + 1]));
    } else {
        assert(parts[parts.len() - 1].len() == 0);
        assert forall|j: int| k + 1 < j < head.len() implies #[trigger] head[j].len() == 0 by {
            assert(parts[j].len() == 0);
        }
        lemma_last_nonempty(head, k);
    }
}

/// Two occurrences of what marks a worktree do not overlap.
proof fn lemma_markers_apart(text: Seq<char>, i: int, j: int)
    requires
        occurs_at(text, WORKTREES@, i),
        occurs_at(text, WORKTREES@, j),
        i < j,
    ensures
        i + WORKTREES@.len() <= j,
{
    reveal_strlit("--worktrees");
    let marker = WORKTREES@;
    assert(marker.len() == 11);
    if j < i + 11 {
        let at = i + 10 - j;
        assert(text[i + 10] == text.subrange(i, i + 11)[10]);
        assert(text[j + at] == text.subrange(j, j + 11)[at]);
        // Only the marker's last character is an `s`.
        assert(marker[10] == 's');
        assert(marker[0] != 's' && marker[1] != 's' && marker[2] != 's' && marker[3] != 's'
            && marker[4] != 's' && marker[5] != 's' && marker[6] != 's' && marker[7] != 's'
            && marker[8] != 's' && marker[9] != 's');
        assert(0 <= at < 10);
        assert(marker[at] == 's');
        assert(false);
    }
}

/// What marks a worktree cannot start inside another such marker.
proof fn lemma_marker_first(stem: Seq<char>, tail: Seq<char>)
    ensures
        before(stem + WORKTREES@ + tail, WORKTREES@) == before(stem, WORKTREES@),
{
    let marker = WORKTREES@;
    let text = stem + marker + tail;
    lemma_occurs_between(stem, marker, tail);
    lemma_first_occurrence(text, marker, stem.len() as int);
    let j = choose|j: int| j <= stem.len() && occurs_first(text, marker, j);
    lemma_before(text, marker, j);
    if j < stem.len() {
        lemma_markers_apart(text, j, stem.len() as int);
        assert(stem.subrange(j, j + marker.len()) =~= text.subrange(j, j + marker.len()));
        assert(occurs_at(stem, marker, j));
        assert forall|m: int| m < j implies !occurs_at(stem, marker, m) by {
            if occurs_at(stem, marker, m) {
                assert(text.subrange(m, m + marker.len()) =~= stem.subrange(m, m + marker.len()));
                assert(occurs_at(text, marker, m));
            }
        }
        lemma_before(stem, marker, j);
        assert(text.take(j) =~= stem.take(j));
    } else {
        assert(!contains(stem, marker)) by {
            reveal_strlit("--worktrees");
            assert(marker.len() == 11);
            if contains(stem, marker) {
                let m = choose|m: int| occurs_at(stem, marker, m);
                assert(text.subrange(m, m + marker.len()) =~= stem.subrange(m, m + marker.len()));
                assert(occurs_at(text, marker, m));
            }
        }
        assert(text.take(j) =~= stem);
    }
}

/// The directory of a worktree is shown by the same name as the directory of
/// its repository.
pub proof fn law_worktrees_share_the_name(raw: Seq<char>, i: int, tail: Seq<char>)
    requires
        host_at(directory_parts(raw), i),
    ensures
        project_name(raw + WORKTREES@ + tail) == project_name(raw),
{
    reveal_strlit("-");
    reveal_strlit("--worktrees");
    let glue = seq!['-'];
    assert("-"@ =~= glue);
    let parts = directory_parts(raw);
    let body = trim_start(raw, Separator::Dash);
    let longer = raw + WORKTREES@ + tail;
    let added = WORKTREES@ + tail;
    let rest = added.drop_first();
    let more = fields(rest, Separator::Dash);
    // The longer name has the pieces of the shorter one and then some more.
    assert(body.len() > 0) by {
        if body.len() == 0 {
            assert(parts.len() == 1);
        }
    }
    assert(longer =~= raw + added);
    lemma_trim_start_concat(raw, added, Separator::Dash);
    assert(body + added =~= body.push('-') + rest);
    lemma_fields_concat(body, '-', rest, Separator::Dash);
    lemma_fields_at_least_one(rest, Separator::Dash);
    let all = directory_parts(longer);
    assert(all == parts + more);
    // Both have the same first host.
    lemma_first_host(parts, i);
    let k = choose|k: int| first_host_at(parts, k);
    assert(host_at(all, k));
    assert forall|j: int| j < k implies !host_at(all, j) by {
        if host_at(all, j) {
            assert(host_at(parts, j));
        }
    }
    assert(first_host_at(all, k));
    lemma_hosted_name(raw, k);
    lemma_hosted_name(longer, k);
    // The repository's name is followed by the marker.
    let stem = join(parts.skip(k + 3), glue);
    assert(all.skip(k + 3) =~= parts.skip(k + 3) + more);
    lemma_join_concat(parts.skip(k + 3), more, glue);
    lemma_join_dash_fields(rest);
    assert(join(all.skip(k + 3), glue) =~= stem + WORKTREES@ + tail);
    lemma_marker_first(stem, tail);
}

} // verus!
