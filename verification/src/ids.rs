//! Identifiers: UUID text and workspace identifiers.
use vstd::prelude::*;
use crate::text::text_equals;

verus! {

/// The identifier of the workspace that always exists.
pub open spec fn default_workspace() -> Seq<char> {
    "default"@
}

/// What `uuid::Uuid::parse_str` makes of `text`, written back as text
/// (hyphenated, lower case): `None` when the text is not a UUID.
pub uninterp spec fn parsed_uuid(text: Seq<char>) -> Option<Seq<char>>;

/// Trusted: `uuid::Uuid::parse_str` parses `text`; on success the UUID is
/// written back with its `Display` form (hyphenated, lower case), which
/// `parse_str` reads back unchanged. The result is named `parsed_uuid`.
#[verifier::external_body]
pub(crate) fn parse_uuid(text: &str) -> (r: Option<String>)
    ensures
        match r {
            Some(s) => parsed_uuid(text@) == Some(s@) && parsed_uuid(s@) == Some(s@),
            None => parsed_uuid(text@) is None,
        },
{
    uuid::Uuid::parse_str(text).ok().map(|id| id.to_string())
}

/// Trusted: `uuid::Uuid::new_v4` draws a random UUID, written in its
/// hyphenated `Display` form, which `parse_str` reads back unchanged. Which
/// UUID comes out is left open.
#[verifier::external_body]
pub(crate) fn new_uuid() -> (r: String)
    ensures
        parsed_uuid(r@) == Some(r@),
{
    uuid::Uuid::new_v4().to_string()
}

/// A workspace identifier is `default` or a UUID.
pub open spec fn valid_workspace_id(id: Seq<char>) -> bool {
    id == default_workspace() || parsed_uuid(id) is Some
}

/// Accepts `default` and UUIDs as workspace identifiers.
pub fn validate_workspace_id(workspace_id: &str) -> (r: Result<(), String>)
    ensures
        r is Ok <==> valid_workspace_id(workspace_id@),
        r matches Err(e) ==> e@ == "工作区 ID 无效"@,
{
    if text_equals(workspace_id, "default") || parse_uuid(workspace_id).is_some() {
        Ok(())
    } else {
        Err("工作区 ID 无效".to_owned())
    }
}

} // verus!
