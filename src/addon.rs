//! The add-on record and its construction from a directory's manifest.
use vstd::prelude::*;

use crate::manifest::{
    key_value, last_value, lemma_key_line, lemma_last_line_wins, lemma_last_value_exists,
    lemma_last_value_single, lemma_other_line_ignored, marker, opt_view, parse_manifest, title_key,
    version_key,
};

verus! {

/// An installed add-on, or an attachment bundled with one.
///
/// Optional details use `Option`: an attachment, for example, usually has no
/// version or update site of its own, as its primary add-on carries them.
#[derive(Debug, PartialEq)]
pub struct Addon {
    pub title: String,
    pub version: Option<String>,
    /// The directory the add-on was read from.
    pub path: String,
    /// Where updates of the add-on can be found; not filled in yet.
    pub update_site: Option<String>,
    /// Child add-ons associated with this one, nicknamed attachments: the
    /// Bagnon add-on, for instance, comes with Bagnon_Bank, Bagnon_Config
    /// and Bagnon_GuildBank.
    pub attachments: Option<Vec<Addon>>,
}

/// Why an add-on could not be read from its directory.
#[derive(Debug, Clone, Copy, PartialEq, Eq, Structural)]
pub enum ExtractError {
    /// The directory could not be listed, holds no manifest, or its manifest
    /// could not be read.
    IoError,
    /// The manifest has no title line.
    MissingTitleError,
}

/// One entry of an add-on directory, as its listing gives it.
#[derive(Debug, Clone, PartialEq)]
pub struct DirEntryInfo {
    pub name: String,
    pub is_file: bool,
}

/// The extension of a manifest file: `".toc"`.
pub open spec fn manifest_extension() -> Seq<char> {
    seq!['.', 't', 'o', 'c']
}

/// Whether `name` ends with `suffix`.
pub open spec fn has_suffix(suffix: Seq<char>, name: Seq<char>) -> bool {
    suffix.len() <= name.len() && name.skip(name.len() - suffix.len()) == suffix
}

/// Whether a directory entry is a manifest: a regular file named `*.toc`.
pub open spec fn is_manifest(entry: DirEntryInfo) -> bool {
    entry.is_file && has_suffix(manifest_extension(), entry.name@)
}

/// Whether some entry of a listing is a manifest.
pub open spec fn has_manifest(entries: Seq<DirEntryInfo>) -> bool {
    exists|i: int| 0 <= i < entries.len() && is_manifest(#[trigger] entries[i])
}

/// Whether `r` designates the first manifest of a listing, in listing order,
/// and is `None` exactly when the listing holds none.
pub open spec fn is_first_manifest(entries: Seq<DirEntryInfo>, r: Option<usize>) -> bool {
    match r {
        None => !has_manifest(entries),
        Some(i) => i < entries.len() && is_manifest(entries[i as int]) && forall|j: int|
            0 <= j < i ==> !is_manifest(#[trigger] entries[j]),
    }
}

/// What a successful extraction yields, as mathematical values.
pub ghost struct AddonModel {
    pub title: Seq<char>,
    pub version: Option<Seq<char>>,
    pub path: Seq<char>,
}

/// The outcome of reading the add-on in directory `path`, given the lines of
/// its manifest, or `None` when no manifest could be found or read.
pub open spec fn extract_spec(
    path: Seq<char>,
    manifest: Option<Seq<Seq<char>>>,
) -> Result<AddonModel, ExtractError> {
    match manifest {
        None => Err(ExtractError::IoError),
        Some(lines) => match last_value(title_key(), lines) {
            None => Err(ExtractError::MissingTitleError),
            Some(title) => Ok(
                AddonModel { title, version: last_value(version_key(), lines), path },
            ),
        },
    }
}

impl Addon {
    /// The title, version and path of the add-on.
    pub open spec fn model(self) -> AddonModel {
        AddonModel { title: self.title@, version: opt_view(self.version), path: self.path@ }
    }
}

/// The view of a manifest that may be missing.
pub open spec fn manifest_view(manifest: Option<&Vec<String>>) -> Option<Seq<Seq<char>>> {
    match manifest {
        Some(lines) => Some(lines.deep_view()),
        None => None,
    }
}

/// The view of an extraction's result.
pub open spec fn result_model(r: Result<Addon, ExtractError>) -> Result<AddonModel, ExtractError> {
    match r {
        Ok(addon) => Ok(addon.model()),
        Err(e) => Err(e),
    }
}

/// Whether `name` ends with `suffix`, compared character by character.
fn ends_with(name: &str, suffix: &str) -> (r: bool)
    ensures
        r == has_suffix(suffix@, name@),
{
    let nlen = name.unicode_len();
    let slen = suffix.unicode_len();
    if slen > nlen {
        return false;
    }
    let start = nlen - slen;
    let mut i: usize = 0;
    while i < slen
        invariant
            i <= slen <= nlen,
            start == nlen - slen,
            nlen == name@.len(),
            slen == suffix@.len(),
            forall|j: int| 0 <= j < i ==> name@[start + j] == suffix@[j],
        decreases slen - i,
    {
        if name.get_char(start + i) != suffix.get_char(i) {
            assert(name@.skip(start as int)[i as int] != suffix@[i as int]);
            return false;
        }
        i = i + 1;
    }
    assert(name@.skip(start as int) =~= suffix@);
    true
}

/// Whether a directory entry is a manifest: a regular file whose name ends
/// with `.toc`.
pub fn is_manifest_entry(entry: &DirEntryInfo) -> (r: bool)
    ensures
        r == is_manifest(*entry),
{
    proof {
        reveal_strlit(".toc");
        assert(".toc"@ =~= manifest_extension());
    }
    entry.is_file && ends_with(entry.name.as_str(), ".toc")
}

/// The index of the first manifest in a directory listing, in listing order,
/// or `None` when the directory holds no manifest.
pub fn select_manifest(entries: &Vec<DirEntryInfo>) -> (r: Option<usize>)
    ensures
        is_first_manifest(entries@, r),
{
    let mut i: usize = 0;
    while i < entries.len()
        invariant
            i <= entries.len(),
            forall|j: int| 0 <= j < i ==> !is_manifest(#[trigger] entries@[j]),
        decreases entries.len() - i,
    {
        if is_manifest_entry(&entries[i]) {
            return Some(i);
        }
        i = i + 1;
    }
    None
}

/// Builds the add-on record of directory `path` from the lines of its
/// manifest, or from `None` when no manifest could be found or read.
///
/// The title and the version are those of the last lines that set them; the
/// record has no update site and no attachments. Without a manifest the
/// result is `IoError`; with a manifest that sets no title it is
/// `MissingTitleError`.
pub fn construct_addon(path: &str, manifest: Option<&Vec<String>>) -> (r: Result<Addon, ExtractError>)
    ensures
        result_model(r) == extract_spec(path@, manifest_view(manifest)),
        r matches Ok(addon) ==> addon.update_site is None && addon.attachments is None,
{
    match manifest {
        None => Err(ExtractError::IoError),
        Some(lines) => {
            let details = parse_manifest(lines);
            match details.title {
                None => Err(ExtractError::MissingTitleError),
                Some(title) => Ok(
                    Addon {
                        title,
                        version: details.version,
                        path: path.to_owned(),
                        update_site: None,
                        attachments: None,
                    },
                ),
            }
        },
    }
}

/// A manifest whose title lines all give `title`, one of them the line
/// `"## Title: " + title`, and whose version lines all give `version`, one of
/// them the line `"## Version: " + version`, yields exactly that title and
/// version, and the directory it was read from.
pub proof fn lemma_title_and_version(
    path: Seq<char>,
    lines: Seq<Seq<char>>,
    title: Seq<char>,
    version: Seq<char>,
)
    requires
        lines.contains(marker() + title_key() + title),
        lines.contains(marker() + version_key() + version),
        forall|k: int|
            0 <= k < lines.len() && #[trigger] key_value(title_key(), lines[k]) is Some
                ==> key_value(title_key(), lines[k]) == Some(title),
        forall|k: int|
            0 <= k < lines.len() && #[trigger] key_value(version_key(), lines[k]) is Some
                ==> key_value(version_key(), lines[k]) == Some(version),
    ensures
        extract_spec(path, Some(lines)) == Ok::<AddonModel, ExtractError>(
            AddonModel { title, version: Some(version), path },
        ),
{
    lemma_key_line(title_key(), title);
    lemma_key_line(version_key(), version);
    let t = choose|k: int| 0 <= k < lines.len() && lines[k] == marker() + title_key() + title;
    let v = choose|k: int| 0 <= k < lines.len() && lines[k] == marker() + version_key() + version;
    assert(key_value(title_key(), lines[t]) == Some(title));
    assert(key_value(version_key(), lines[v]) == Some(version));
    lemma_last_value_single(title_key(), lines, title);
    lemma_last_value_single(version_key(), lines, version);
}

/// A manifest that sets a title and has no version line yields a record
/// without a version.
pub proof fn lemma_no_version(path: Seq<char>, lines: Seq<Seq<char>>)
    requires
        exists|k: int| 0 <= k < lines.len() && #[trigger] key_value(title_key(), lines[k]) is Some,
        forall|k: int| 0 <= k < lines.len() ==> #[trigger] key_value(version_key(), lines[k]) is None,
    ensures
        extract_spec(path, Some(lines)) matches Ok(addon) && addon.version is None,
{
    lemma_last_value_exists(title_key(), lines);
    lemma_last_value_exists(version_key(), lines);
}

/// Where a manifest has several title lines, the last one gives the title.
pub proof fn lemma_last_title_wins(
    path: Seq<char>,
    before: Seq<Seq<char>>,
    title: Seq<char>,
    after: Seq<Seq<char>>,
)
    requires
        forall|k: int| 0 <= k < after.len() ==> #[trigger] key_value(title_key(), after[k]) is None,
    ensures
        extract_spec(path, Some(before + seq![marker() + title_key() + title] + after)) matches Ok(
            addon,
        ) && addon.title == title,
{
    lemma_last_line_wins(title_key(), before, title, after);
}

/// A directory whose listing holds no `.toc` file has no manifest to select,
/// and reading it fails with `IoError`.
pub proof fn lemma_no_manifest(path: Seq<char>, entries: Seq<DirEntryInfo>, r: Option<usize>)
    requires
        forall|k: int| 0 <= k < entries.len() ==> !has_suffix(
            manifest_extension(),
            #[trigger] entries[k].name@,
        ),
        is_first_manifest(entries, r),
    ensures
        r is None,
        extract_spec(path, None) == Err::<AddonModel, ExtractError>(ExtractError::IoError),
{
}

/// A manifest without a title line fails with `MissingTitleError`.
pub proof fn lemma_missing_title(path: Seq<char>, lines: Seq<Seq<char>>)
    requires
        forall|k: int| 0 <= k < lines.len() ==> #[trigger] key_value(title_key(), lines[k]) is None,
    ensures
        extract_spec(path, Some(lines)) == Err::<AddonModel, ExtractError>(
            ExtractError::MissingTitleError,
        ),
{
    lemma_last_value_exists(title_key(), lines);
}

/// Reading the same directory twice, with the same listing and the same
/// manifest, selects the same manifest and yields equal records.
pub proof fn lemma_extract_idempotent(
    path: &str,
    entries: Seq<DirEntryInfo>,
    first: Option<usize>,
    second: Option<usize>,
    manifest: Option<&Vec<String>>,
    r1: Result<Addon, ExtractError>,
    r2: Result<Addon, ExtractError>,
)
    requires
        is_first_manifest(entries, first),
        is_first_manifest(entries, second),
        result_model(r1) == extract_spec(path@, manifest_view(manifest)),
        result_model(r2) == extract_spec(path@, manifest_view(manifest)),
    ensures
        first == second,
        result_model(r1) == result_model(r2),
{
    if first != second {
        let i = first->Some_0;
        let j = second->Some_0;
        if i < j {
            assert(!is_manifest(entries[i as int]));
        } else {
            assert(!is_manifest(entries[j as int]));
        }
    }
}

/// A line that sets neither the title nor the version, such as
/// `"## Notes: foo"`, changes nothing wherever it stands in a manifest.
pub proof fn lemma_other_key_ignored(
    path: Seq<char>,
    lines: Seq<Seq<char>>,
    i: int,
    line: Seq<char>,
)
    requires
        0 <= i <= lines.len(),
        key_value(title_key(), line) is None,
        key_value(version_key(), line) is None,
    ensures
        extract_spec(path, Some(lines.insert(i, line))) == extract_spec(path, Some(lines)),
{
    lemma_other_line_ignored(title_key(), lines, i, line);
    lemma_other_line_ignored(version_key(), lines, i, line);
}

} // verus!
