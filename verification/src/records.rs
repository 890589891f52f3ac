//! Rules of the stored records: workspace names, notes, window states,
//! schema versions and timestamps.
use vstd::prelude::*;
use crate::text::{chars_of, text_equals, trim, trimmed};

verus! {

/// A window's stored geometry in physical pixels.
pub struct WindowState {
    pub x: i32,
    pub y: i32,
    pub width: u32,
    pub height: u32,
    pub topmost: bool,
}

/// A note of earlier versions, kept readable in the database.
pub struct Note {
    pub id: String,
    pub workspace_id: String,
    pub text: String,
    pub color: String,
    pub revision: i64,
    pub is_open: bool,
    pub created_at: i64,
    pub updated_at: i64,
}

/// Why a workspace name is refused, if it is: names are trimmed, must not be
/// empty and hold at most 80 characters.
pub open spec fn workspace_name_error(name: Seq<char>) -> Option<Seq<char>> {
    let t = trimmed(name);
    if t.len() == 0 {
        Some("工作区名称不能为空"@)
    } else if t.len() > 80 {
        Some("工作区名称不能超过 80 个字符"@)
    } else {
        None
    }
}

/// Checks a workspace name and returns it trimmed.
pub fn validate_name(name: &str) -> (r: Result<String, String>)
    ensures
        r is Err <==> workspace_name_error(name@) is Some,
        r matches Err(e) ==> Some(e@) == workspace_name_error(name@),
        r matches Ok(n) ==> n@ == trimmed(name@),
{
    let name = trim(name);
    if name.is_empty() {
        return Err("工作区名称不能为空".to_owned());
    }
    let chars = chars_of(name);
    if chars.len() > 80 {
        return Err("工作区名称不能超过 80 个字符".to_owned());
    }
    Ok(name.to_owned())
}

/// The default workspace cannot be deleted.
pub fn check_workspace_deletable(workspace_id: &str) -> (r: Result<(), String>)
    ensures
        r is Err <==> workspace_id@ == "default"@,
        r matches Err(e) ==> e@ == "默认工作区不能删除"@,
{
    if text_equals(workspace_id, "default") {
        Err("默认工作区不能删除".to_owned())
    } else {
        Ok(())
    }
}

/// A change that touched no row means the record does not exist.
pub fn require_changed(changed: usize, missing: &str) -> (r: Result<(), String>)
    ensures
        r is Err <==> changed == 0,
        r matches Err(e) ==> e@ == missing@,
{
    if changed == 0 {
        Err(missing.to_owned())
    } else {
        Ok(())
    }
}

/// The colors a note may have.
pub open spec fn note_color_allowed(color: Seq<char>) -> bool {
    color == "amber"@ || color == "mint"@ || color == "blue"@ || color == "rose"@
}

/// Why a note edit is refused, if it is: the text holds at most 1 000 000
/// bytes and the color is one of the four note colors.
pub open spec fn note_update_error(text_bytes: nat, color: Seq<char>) -> Option<Seq<char>> {
    if text_bytes > 1_000_000 {
        Some("便签内容不能超过 1 MB"@)
    } else if !note_color_allowed(color) {
        Some("便签颜色无效"@)
    } else {
        None
    }
}

/// Checks a note edit before it is written.
pub fn validate_note_update(text: &str, color: &str) -> (r: Result<(), String>)
    ensures
        r is Err <==> note_update_error(text.len() as nat, color@) is Some,
        r matches Err(e) ==> Some(e@) == note_update_error(text.len() as nat, color@),
{
    if text.len() > 1_000_000 {
        return Err("便签内容不能超过 1 MB".to_owned());
    }
    if !(text_equals(color, "amber") || text_equals(color, "mint") || text_equals(color, "blue")
        || text_equals(color, "rose")) {
        return Err("便签颜色无效".to_owned());
    }
    Ok(())
}

/// The newest database schema version this application knows.
pub open spec fn latest_schema() -> int {
    4
}

/// The schema upgrades to apply to a database at `version`, in order; `None`
/// when the database is newer than the application.
pub open spec fn migration_steps(version: i64) -> Option<Seq<u32>> {
    if version > latest_schema() {
        None
    } else {
        Some(
            Seq::new(
                (if version < 0 { 4 } else { 4 - version }) as nat,
                |i: int| (i + 1 + (if version < 0 { 0 } else { version as int })) as u32,
            ),
        )
    }
}

/// Decides which schema upgrades a database at `version` needs: each version
/// above it up to the latest, refusing databases from newer applications.
pub fn plan_migrations(version: i64) -> (r: Result<Vec<u32>, String>)
    ensures
        r is Err <==> migration_steps(version) is None,
        r matches Err(e) ==> e@ == "数据库版本高于当前应用支持版本"@,
        r matches Ok(steps) ==> Some(steps@) == migration_steps(version),
{
    if version > 4 {
        return Err("数据库版本高于当前应用支持版本".to_owned());
    }
    let mut steps: Vec<u32> = Vec::new();
    let start: u32 = if version < 0 { 0 } else { version as u32 };
    let mut next: u32 = start + 1;
    while next <= 4
        invariant
            start == (if version < 0 { 0 } else { version as int }),
            start + 1 <= next <= 5,
            steps@.len() == next - start - 1,
            forall|i: int| 0 <= i < steps@.len() ==> #[trigger] steps@[i] == i + 1 + start,
        decreases 5 - next,
    {
        steps.push(next);
        next = next + 1;
    }
    assert(steps@ =~= migration_steps(version).unwrap());
    Ok(steps)
}

/// Upgrading is idempotent: the upgrades of any supported version run in
/// order up to the latest version, and a database at the latest version
/// needs none, so a second start changes nothing.
pub proof fn lemma_migrations_reach_latest(version: i64)
    requires
        version <= latest_schema(),
    ensures
        migration_steps(version) matches Some(steps) && (steps.len() == 0 || steps.last() == latest_schema())
            && (forall|i: int| 0 <= i < steps.len() ==> #[trigger] steps[i] > version)
            && (forall|i: int, j: int| 0 <= i < j < steps.len() ==> #[trigger] steps[i] < #[trigger] steps[j]),
        migration_steps(latest_schema() as i64) == Some(Seq::<u32>::empty()),
{
    assert(migration_steps(4) =~= Some(Seq::<u32>::empty()));
}

/// Trusted: `SystemTime::now().duration_since(UNIX_EPOCH)` in whole seconds,
/// or the error's text when the clock is before the epoch. The reading
/// depends on the clock, so nothing is stated of it.
#[verifier::external_body]
fn seconds_since_epoch() -> Result<u64, String> {
    std::time::SystemTime::now()
        .duration_since(std::time::UNIX_EPOCH)
        .map(|duration| duration.as_secs())
        .map_err(|error| error.to_string())
}

/// The Unix time from a reading of the clock: its whole seconds as a
/// signed count (converted as `as` does), or the reading's error behind the
/// failure prefix.
pub fn timestamp_from(reading: Result<u64, String>) -> (r: Result<i64, String>)
    ensures
        r is Ok <==> reading is Ok,
        reading matches Ok(seconds) ==> r == Ok::<i64, String>(seconds as i64),
        reading matches Err(detail) ==> r matches Err(e) && e@ == "读取系统时间失败: "@ + detail@,
{
    match reading {
        Ok(seconds) => Ok(seconds as i64),
        Err(detail) => {
            let mut message = "读取系统时间失败: ".to_owned();
            message.append(detail.as_str());
            Err(message)
        },
    }
}

/// The current Unix time in seconds, from the clock as `timestamp_from`
/// converts it.
pub fn unix_timestamp() -> (r: Result<i64, String>)
    ensures
        r matches Err(e) ==> exists|detail: Seq<char>| e@ == "读取系统时间失败: "@ + detail,
{
    timestamp_from(seconds_since_epoch())
}

} // verus!
