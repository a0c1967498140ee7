//! Reading the `## Key: Value` metadata lines of a `.toc` manifest.
use vstd::prelude::*;

use crate::detail::{detail_of, find_and_replace_detail};

verus! {

/// The marker that opens every metadata line: `"## "`.
pub open spec fn marker() -> Seq<char> {
    seq!['#', '#', ' ']
}

/// The key of the add-on's display name: `"Title: "`.
pub open spec fn title_key() -> Seq<char> {
    seq!['T', 'i', 't', 'l', 'e', ':', ' ']
}

/// The key of the add-on's version: `"Version: "`.
pub open spec fn version_key() -> Seq<char> {
    seq!['V', 'e', 'r', 's', 'i', 'o', 'n', ':', ' ']
}

/// What `line` assigns to `key`: the text after `"## "` and the key, or
/// `None` when the line is no metadata line for that key.
pub open spec fn key_value(key: Seq<char>, line: Seq<char>) -> Option<Seq<char>> {
    match detail_of(marker(), line) {
        Some(rest) => detail_of(key, rest),
        None => None,
    }
}

/// The value that the last line for `key` assigns, if any line does.
pub open spec fn last_value(key: Seq<char>, lines: Seq<Seq<char>>) -> Option<Seq<char>>
    decreases lines.len(),
{
    if lines.len() == 0 {
        None
    } else {
        match key_value(key, lines.last()) {
            Some(v) => Some(v),
            None => last_value(key, lines.drop_last()),
        }
    }
}

/// The view of an optional string.
pub open spec fn opt_view(o: Option<String>) -> Option<Seq<char>> {
    match o {
        Some(s) => Some(s@),
        None => None,
    }
}

/// The recognised details of a manifest.
#[derive(Debug, Clone, PartialEq)]
pub struct ManifestDetails {
    pub title: Option<String>,
    pub version: Option<String>,
}

/// Scans the lines of a manifest in order and keeps, for the title and for
/// the version, the value of the last line that sets it. Lines that are no
/// metadata lines, or that set another key, are skipped.
pub fn parse_manifest(lines: &Vec<String>) -> (r: ManifestDetails)
    ensures
        opt_view(r.title) == last_value(title_key(), lines.deep_view()),
        opt_view(r.version) == last_value(version_key(), lines.deep_view()),
{
    let mut title: Option<String> = None;
    let mut version: Option<String> = None;
    let mut i: usize = 0;
    proof {
        reveal_strlit("## ");
        reveal_strlit("Title: ");
        reveal_strlit("Version: ");
        assert("## "@ =~= marker());
        assert("Title: "@ =~= title_key());
        assert("Version: "@ =~= version_key());
    }
    while i < lines.len()
        invariant
            i <= lines.len(),
            "## "@ == marker(),
            "Title: "@ == title_key(),
            "Version: "@ == version_key(),
            opt_view(title) == last_value(title_key(), lines.deep_view().take(i as int)),
            opt_view(version) == last_value(version_key(), lines.deep_view().take(i as int)),
        decreases lines.len() - i,
    {
        let ghost prefix = lines.deep_view().take(i as int);
        let ghost next = lines.deep_view().take(i + 1);
        assert(next.drop_last() =~= prefix);
        assert(next.last() == lines[i as int]@);
        if let Ok(rest) = find_and_replace_detail("## ", lines[i].as_str()) {
            if let Ok(found) = find_and_replace_detail("Title: ", rest.as_str()) {
                title = Some(found);
            }
            if let Ok(found) = find_and_replace_detail("Version: ", rest.as_str()) {
                version = Some(found);
            }
        }
        i = i + 1;
    }
    assert(lines.deep_view().take(lines.len() as int) =~= lines.deep_view());
    ManifestDetails { title, version }
}

/// The metadata line `"## " + key + value` assigns exactly `value` to `key`:
/// nothing beyond the marker and the key is trimmed.
pub proof fn lemma_key_line(key: Seq<char>, value: Seq<char>)
    ensures
        key_value(key, marker() + key + value) == Some(value),
{
    let line = marker() + key + value;
    assert(line.subrange(0, 3) =~= marker());
    assert(line.skip(3) =~= key + value);
    assert((key + value).subrange(0, key.len() as int) =~= key);
    assert((key + value).skip(key.len() as int) =~= value);
}

/// Some line sets `key` exactly when a last value for `key` exists.
pub proof fn lemma_last_value_exists(key: Seq<char>, lines: Seq<Seq<char>>)
    ensures
        last_value(key, lines) is Some <==> exists|k: int|
            0 <= k < lines.len() && #[trigger] key_value(key, lines[k]) is Some,
    decreases lines.len(),
{
    if lines.len() > 0 {
        lemma_last_value_exists(key, lines.drop_last());
        if last_value(key, lines.drop_last()) is Some {
            let k = choose|k: int|
                0 <= k < lines.drop_last().len() && #[trigger] key_value(
                    key,
                    lines.drop_last()[k],
                ) is Some;
            assert(lines[k] == lines.drop_last()[k]);
        }
        if exists|k: int| 0 <= k < lines.len() && #[trigger] key_value(key, lines[k]) is Some {
            let k = choose|k: int| 0 <= k < lines.len() && #[trigger] key_value(key, lines[k]) is Some;
            if k < lines.len() - 1 {
                assert(lines.drop_last()[k] == lines[k]);
            }
        }
    }
}

/// Where every line that sets `key` sets it to `v`, and one does, the value
/// of `key` is `v`.
pub proof fn lemma_last_value_single(key: Seq<char>, lines: Seq<Seq<char>>, v: Seq<char>)
    requires
        exists|k: int| 0 <= k < lines.len() && #[trigger] key_value(key, lines[k]) == Some(v),
        forall|k: int|
            0 <= k < lines.len() && #[trigger] key_value(key, lines[k]) is Some ==> key_value(
                key,
                lines[k],
            ) == Some(v),
    ensures
        last_value(key, lines) == Some(v),
{
    lemma_last_value_exists(key, lines);
    lemma_last_value_is_some_line(key, lines);
}

/// The last value of `key`, where there is one, is what some line sets.
pub proof fn lemma_last_value_is_some_line(key: Seq<char>, lines: Seq<Seq<char>>)
    ensures
        last_value(key, lines) matches Some(v) ==> exists|k: int|
            0 <= k < lines.len() && #[trigger] key_value(key, lines[k]) == Some(v),
    decreases lines.len(),
{
    if lines.len() > 0 {
        lemma_last_value_is_some_line(key, lines.drop_last());
        if key_value(key, lines.last()) is Some {
            assert(key_value(key, lines[lines.len() - 1]) == last_value(key, lines));
        } else if last_value(key, lines) is Some {
            let v = last_value(key, lines)->Some_0;
            let k = choose|k: int|
                0 <= k < lines.drop_last().len() && #[trigger] key_value(
                    key,
                    lines.drop_last()[k],
                ) == Some(v);
            assert(lines[k] == lines.drop_last()[k]);
        }
    }
}

/// The last line that sets `key` wins: lines after it that do not set `key`
/// leave its value alone, whatever came before.
pub proof fn lemma_last_line_wins(
    key: Seq<char>,
    before: Seq<Seq<char>>,
    value: Seq<char>,
    after: Seq<Seq<char>>,
)
    requires
        forall|k: int| 0 <= k < after.len() ==> #[trigger] key_value(key, after[k]) is None,
    ensures
        last_value(key, before + seq![marker() + key + value] + after) == Some(value),
    decreases after.len(),
{
    let lines = before + seq![marker() + key + value] + after;
    if after.len() == 0 {
        assert(lines.drop_last() =~= before);
        lemma_key_line(key, value);
    } else {
        let shorter = after.drop_last();
        assert(key_value(key, after[after.len() - 1]) is None);
        assert(lines.drop_last() =~= before + seq![marker() + key + value] + shorter);
        lemma_last_line_wins(key, before, value, shorter);
    }
}

/// A line that sets none of `key` can be put anywhere among the lines
/// without changing the value of `key`.
pub proof fn lemma_other_line_ignored(
    key: Seq<char>,
    lines: Seq<Seq<char>>,
    i: int,
    line: Seq<char>,
)
    requires
        0 <= i <= lines.len(),
        key_value(key, line) is None,
    ensures
        last_value(key, lines.insert(i, line)) == last_value(key, lines),
    decreases lines.len(),
{
    let longer = lines.insert(i, line);
    if i == lines.len() {
        assert(longer.drop_last() =~= lines);
    } else {
        assert(longer.last() == lines.last());
        assert(longer.drop_last() =~= lines.drop_last().insert(i, line));
        lemma_other_line_ignored(key, lines.drop_last(), i, line);
    }
}

} // verus!
