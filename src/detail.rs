//! Recognising a literal prefix at the start of a manifest line.
use vstd::prelude::*;

verus! {

/// Whether `line` begins with `prefix`.
pub open spec fn has_prefix(prefix: Seq<char>, line: Seq<char>) -> bool {
    prefix.len() <= line.len() && line.subrange(0, prefix.len() as int) == prefix
}

/// What is left of `line` once `prefix` is removed from its start, or `None`
/// when `line` does not begin with `prefix`.
pub open spec fn detail_of(prefix: Seq<char>, line: Seq<char>) -> Option<Seq<char>> {
    if has_prefix(prefix, line) {
        Some(line.skip(prefix.len() as int))
    } else {
        None
    }
}

/// The line did not begin with the detail that was looked for.
#[derive(Debug, Clone, Copy, PartialEq, Eq, Structural)]
pub struct DetailNotFoundError;

impl DetailNotFoundError {
    /// A short human-readable description of the error.
    pub fn message(&self) -> (r: &'static str)
        ensures
            r@ == "Detail not found"@,
    {
        "Detail not found"
    }
}

/// Checks whether `line` starts with `detail` and, if so, returns the line
/// with that one leading occurrence of `detail` removed.
///
/// For example, the line `"## Hey"` starts with the detail `"## "`, and
/// `"Hey"` is returned. Occurrences of `detail` further along the line are kept.
pub fn find_and_replace_detail(detail: &str, line: &str) -> (r: Result<String, DetailNotFoundError>)
    ensures
        match r {
            Ok(rest) => detail_of(detail@, line@) == Some(rest@),
            Err(_) => detail_of(detail@, line@) is None,
        },
{
    let dlen = detail.unicode_len();
    let llen = line.unicode_len();
    if dlen > llen {
        return Err(DetailNotFoundError);
    }
    let mut i: usize = 0;
    while i < dlen
        invariant
            i <= dlen <= llen,
            dlen == detail@.len(),
            llen == line@.len(),
            forall|j: int| 0 <= j < i ==> line@[j] == detail@[j],
        decreases dlen - i,
    {
        if line.get_char(i) != detail.get_char(i) {
            assert(line@.subrange(0, dlen as int)[i as int] != detail@[i as int]);
            return Err(DetailNotFoundError);
        }
        i = i + 1;
    }
    assert(line@.subrange(0, dlen as int) =~= detail@);
    let rest = line.substring_char(dlen, llen);
    assert(rest@ =~= line@.skip(dlen as int));
    Ok(rest.to_owned())
}

} // verus!
