use vstd::prelude::*;

verus! {

/// `regex::Error`: why the engine refused a pattern. Nothing is read off
/// it.
#[verifier::external_type_specification]
#[verifier::external_body]
pub struct ExPatternError(regex::Error);

/// Whether the engine accepts `pattern`: whether `regex::Regex::new`
/// returns `Ok` for it.
pub uninterp spec fn pattern_is_valid(pattern: Seq<char>) -> bool;

/// What `regex::Regex::captures` finds of `pattern` in `text`: `None` where
/// the pattern does not match; else one entry for each group of the pattern,
/// the whole match first, each the text that the group matched, or `None`
/// for a group that took no part in the match.
pub uninterp spec fn pattern_captures(pattern: Seq<char>, text: Seq<char>) -> Option<
    Seq<Option<Seq<char>>>,
>;

/// The mathematical value of what `captures` hands out.
pub open spec fn groups_view(groups: Option<Vec<Option<String>>>) -> Option<
    Seq<Option<Seq<char>>>,
> {
    match groups {
        Some(groups) => Some(
            Seq::new(
                groups.len() as nat,
                |i: int|
                    match groups[i] {
                        Some(text) => Some(text@),
                        None => None,
                    },
            ),
        ),
        None => None,
    }
}

/// Compiles `pattern` with `regex::Regex::new` and looks for its first match
/// in `text` with `regex::Regex::captures`. Nothing is proved of either: the
/// contract only gives their results names. An `Err` is the engine's refusal
/// of the pattern; `Ok` holds the groups of the match as owned strings.
#[verifier::external_body]
pub(crate) fn captures(pattern: &str, text: &str) -> (found: Result<
    Option<Vec<Option<String>>>,
    regex::Error,
>)
    ensures
        found is Ok <==> pattern_is_valid(pattern@),
        found matches Ok(groups) ==> groups_view(groups) == pattern_captures(pattern@, text@),
{
    let compiled = regex::Regex::new(pattern)?;
    Ok(
        compiled.captures(text).map(
            |groups| groups.iter().map(|group| group.map(|m| m.as_str().to_owned())).collect(),
        ),
    )
}

} // verus!
