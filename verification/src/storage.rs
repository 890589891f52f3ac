//! Where the application keeps images: paths under the data directory,
//! relative paths read back from the database, and planned deletions.
use vstd::prelude::*;
use crate::ids::{new_uuid, parsed_uuid, valid_workspace_id, validate_workspace_id};
use crate::text::{decimal, push_decimal};
use crate::image_import::ImageImport;

verus! {

/// One part of a path as `std::path::Path::components` yields it.
pub enum PathPart {
    Prefix,
    RootDir,
    CurDir,
    ParentDir,
    Normal,
}

/// The path text holds `segment` as one whole part between `/` separators
/// (or the text's ends).
pub open spec fn has_segment(path: Seq<char>, segment: Seq<char>) -> bool {
    exists|i: int, j: int|
        0 <= i && j == i + segment.len() && j <= path.len() && #[trigger] path.subrange(i, j) == segment
            && (i == 0 || path[i - 1] == '/') && (j == path.len() || path[j] == '/')
}

/// A plain relative path: names separated by single `/`, with no `.` or `..`
/// part, no leading or trailing `/`, and none of the characters (`\`, `:`)
/// that begin a Windows prefix or separate parts there.
pub open spec fn plain_relative(path: Seq<char>) -> bool {
    &&& path.len() > 0
    &&& path[0] != '/'
    &&& path.last() != '/'
    &&& forall|i: int| 0 <= i < path.len() ==> #[trigger] path[i] != '\\' && path[i] != ':'
    &&& forall|i: int| 0 <= i < path.len() - 1 ==> !(#[trigger] path[i] == '/' && path[i + 1] == '/')
    &&& !has_segment(path, seq!['.'])
    &&& !has_segment(path, seq!['.', '.'])
}

/// Trusted: `std::path::Path::is_absolute` on the path text. Its
/// documentation makes a path absolute only when it starts with the root
/// (Unix) or has a prefix and the root (Windows), so a plain relative path
/// is not absolute on any platform; which other texts are absolute is left
/// to the platform and not stated.
#[verifier::external_body]
pub(crate) fn path_is_absolute(path: &str) -> (r: bool)
    ensures
        plain_relative(path@) ==> !r,
{
    std::path::Path::new(path).is_absolute()
}

/// Trusted: `std::path::Path::components` on the path text, each component
/// told apart by its kind. What std documents for every platform is stated:
/// `/` separates parts on Unix and on Windows, a `..` part is a
/// `ParentDir` (or lies inside a Windows prefix, reported as `Prefix`), a
/// text that starts with `/` yields `RootDir` (or a Windows `Prefix`) first,
/// and the parts of a plain relative path are plain names. How other texts
/// split is left to the platform and not stated.
#[verifier::external_body]
pub(crate) fn path_parts(path: &str) -> (r: Vec<PathPart>)
    ensures
        has_segment(path@, seq!['.', '.']) ==> exists|i: int|
            0 <= i < r@.len() && (#[trigger] r@[i] is ParentDir || r@[i] is Prefix),
        path@.len() > 0 && path@[0] == '/' ==> r@.len() > 0 && (r@[0] is RootDir || r@[0] is Prefix),
        plain_relative(path@) ==> forall|i: int| 0 <= i < r@.len() ==> #[trigger] r@[i] is Normal,
{
    std::path::Path::new(path).components().map(|component| match component {
        std::path::Component::Prefix(_) => PathPart::Prefix,
        std::path::Component::RootDir => PathPart::RootDir,
        std::path::Component::CurDir => PathPart::CurDir,
        std::path::Component::ParentDir => PathPart::ParentDir,
        std::path::Component::Normal(_) => PathPart::Normal,
    }).collect()
}

/// What std documents of how every platform reads a path text: whether it is
/// absolute and its parts.
pub open spec fn documented_reading(path: Seq<char>, is_absolute: bool, parts: Seq<PathPart>) -> bool {
    &&& has_segment(path, seq!['.', '.']) ==> exists|i: int|
        0 <= i < parts.len() && (#[trigger] parts[i] is ParentDir || parts[i] is Prefix)
    &&& path.len() > 0 && path[0] == '/' ==> parts.len() > 0 && (parts[0] is RootDir
        || parts[0] is Prefix)
    &&& plain_relative(path) ==> !is_absolute && forall|i: int|
        0 <= i < parts.len() ==> #[trigger] parts[i] is Normal
}

/// A stored path may only name entries below the data directory: it is not
/// absolute and every part of it is a plain name.
pub open spec fn relative_path_allowed(is_absolute: bool, parts: Seq<PathPart>) -> bool {
    !is_absolute && forall|i: int| 0 <= i < parts.len() ==> parts[i] is Normal
}

/// Decides whether a stored path, given how the platform reads it, stays
/// below the data directory.
pub fn check_relative_path(is_absolute: bool, parts: &Vec<PathPart>) -> (r: bool)
    ensures
        r == relative_path_allowed(is_absolute, parts@),
{
    if is_absolute {
        return false;
    }
    let mut i: usize = 0;
    while i < parts.len()
        invariant
            0 <= i <= parts@.len(),
            forall|j: int| 0 <= j < i ==> parts@[j] is Normal,
        decreases parts@.len() - i,
    {
        match &parts[i] {
            PathPart::Normal => {},
            _ => {
                return false;
            },
        }
        i = i + 1;
    }
    true
}

/// The application's data directory.
pub struct AppStorage {
    pub root: String,
}

/// A file or directory about to be deleted, and where it is moved meanwhile.
pub struct StagedDeletion {
    pub original: String,
    pub staged: String,
}

/// An image kept by the application.
pub struct StoredImage {
    pub id: String,
    pub workspace_id: String,
    pub original_name: String,
    pub relative_path: String,
    pub absolute_path: String,
    pub mime_type: String,
    pub byte_size: i64,
    pub width: i64,
    pub height: i64,
}

/// An image with its latest recognition run, as the history lists it.
pub struct DocumentRecord {
    pub image_id: String,
    pub workspace_id: String,
    pub original_name: String,
    pub relative_path: String,
    pub status: String,
    pub text: String,
    pub blocks_json: String,
    pub error_message: Option<String>,
    pub created_at: i64,
}

/// Where an accepted image goes: a fresh id, its path in the workspace's
/// originals, and the temporary file it is written to first.
pub struct StoragePlan {
    pub id: String,
    pub relative_path: String,
    pub absolute_path: String,
    pub temporary_path: String,
}

/// The record of an image stored as planned.
pub fn stored_image(plan: StoragePlan, workspace_id: &str, import: ImageImport) -> (r: StoredImage)
    ensures
        r.id@ == plan.id@,
        r.workspace_id@ == workspace_id@,
        r.original_name@ == import.original_name@,
        r.relative_path@ == plan.relative_path@,
        r.absolute_path@ == plan.absolute_path@,
        r.mime_type@ == import.mime_type@,
        r.byte_size == import.byte_size,
        r.width == import.width,
        r.height == import.height,
{
    StoredImage {
        id: plan.id,
        workspace_id: workspace_id.to_owned(),
        original_name: import.original_name,
        relative_path: plan.relative_path,
        absolute_path: plan.absolute_path,
        mime_type: import.mime_type,
        byte_size: import.byte_size,
        width: import.width as i64,
        height: import.height as i64,
    }
}

impl AppStorage {
    /// The plan puts an image with extension `extension` into workspace
    /// `workspace_id` under a fresh UUID.
    pub open spec fn planned(&self, plan: StoragePlan, workspace_id: Seq<char>, extension: Seq<char>) -> bool {
        &&& parsed_uuid(plan.id@) == Some(plan.id@)
        &&& plan.relative_path@ == "workspaces/"@ + workspace_id + "/originals/"@ + plan.id@ + "."@
            + extension
        &&& plan.absolute_path@ == self.below(plan.relative_path@)
        &&& plan.temporary_path@ == self.below("temp/import-"@ + plan.id@ + "."@ + extension)
    }

    /// Plans where a new image of workspace `workspace_id` is stored.
    pub fn plan_storage(&self, workspace_id: &str, extension: &str) -> (p: StoragePlan)
        ensures
            self.planned(p, workspace_id@, extension@),
    {
        let id = new_uuid();
        let mut relative = "workspaces/".to_owned();
        relative.append(workspace_id);
        relative.append("/originals/");
        relative.append(id.as_str());
        relative.append(".");
        relative.append(extension);
        let absolute = self.path_below(relative.as_str());
        let mut temporary = "temp/import-".to_owned();
        temporary.append(id.as_str());
        temporary.append(".");
        temporary.append(extension);
        let temporary_path = self.path_below(temporary.as_str());
        StoragePlan { id, relative_path: relative, absolute_path: absolute, temporary_path }
    }

    /// The path of `name` below the data directory.
    pub open spec fn below(&self, name: Seq<char>) -> Seq<char> {
        self.root@ + "/"@ + name
    }

    pub fn new(root: String) -> (storage: AppStorage)
        ensures
            storage.root@ == root@,
    {
        AppStorage { root }
    }

    fn path_below(&self, name: &str) -> (r: String)
        ensures
            r@ == self.below(name@),
    {
        let mut path = self.root.clone();
        path.append("/");
        path.append(name);
        path
    }

    /// The temporary file that holds the preview of one monitor of a capture.
    pub fn capture_path(&self, session: &str, monitor: u32) -> (path: String)
        ensures
            path@ == self.below("temp/capture-"@ + session@ + "-"@ + decimal(monitor as nat) + ".png"@),
    {
        let mut name = "temp/capture-".to_owned();
        name.append(session);
        name.append("-");
        push_decimal(&mut name, monitor as u64);
        name.append(".png");
        self.path_below(name.as_str())
    }

    /// Resolves a stored path below the data directory, given how the
    /// platform reads it: refused unless it stays below.
    pub fn resolve_stored_path(&self, relative_path: &str, is_absolute: bool, parts: &Vec<PathPart>) -> (r: Result<String, String>)
        ensures
            r is Ok <==> relative_path_allowed(is_absolute, parts@),
            r matches Ok(p) ==> p@ == self.below(relative_path@),
            r matches Err(e) ==> e@ == "数据库中的图片路径无效"@,
    {
        if !check_relative_path(is_absolute, parts) {
            return Err("数据库中的图片路径无效".to_owned());
        }
        Ok(self.path_below(relative_path))
    }

    /// Resolves a relative path read from the database below the data
    /// directory; paths that could leave it are refused. Plain relative paths
    /// are resolved on every platform, and paths with a `..` part or a
    /// leading `/` are refused on every platform.
    pub fn absolute_path(&self, relative_path: &str) -> (r: Result<String, String>)
        ensures
            exists|a: bool, ps: Seq<PathPart>|
                #[trigger] documented_reading(relative_path@, a, ps) && (r is Ok
                    <==> relative_path_allowed(a, ps)),
            r matches Ok(path) ==> path@ == self.below(relative_path@),
            r matches Err(e) ==> e@ == "数据库中的图片路径无效"@,
            plain_relative(relative_path@) ==> r is Ok,
            has_segment(relative_path@, seq!['.', '.']) ==> r is Err,
            relative_path@.len() > 0 && relative_path@[0] == '/' ==> r is Err,
    {
        let absolute = path_is_absolute(relative_path);
        let parts = path_parts(relative_path);
        let r = self.resolve_stored_path(relative_path, absolute, &parts);
        proof {
            assert(documented_reading(relative_path@, absolute, parts@));
            if has_segment(relative_path@, seq!['.', '.']) {
                let i = choose|i: int|
                    0 <= i < parts@.len() && (#[trigger] parts@[i] is ParentDir || parts@[i] is Prefix);
                assert(!(parts@[i] is Normal));
            }
            if relative_path@.len() > 0 && relative_path@[0] == '/' {
                assert(!(parts@[0] is Normal));
            }
        }
        r
    }

    /// Plans the deletion of a stored image: the file moves to a fresh name
    /// in the temporary directory until the database change succeeds. The
    /// path is resolved as `absolute_path` does.
    pub fn stage_document_deletion(&self, relative_path: &str) -> (r: Result<StagedDeletion, String>)
        ensures
            exists|a: bool, ps: Seq<PathPart>|
                #[trigger] documented_reading(relative_path@, a, ps) && (r is Ok
                    <==> relative_path_allowed(a, ps)),
            r matches Ok(d) ==> d.original@ == self.below(relative_path@) && self.is_staging_name(
                d.staged@,
            ),
            r matches Err(e) ==> e@ == "数据库中的图片路径无效"@,
            plain_relative(relative_path@) ==> r is Ok,
            has_segment(relative_path@, seq!['.', '.']) ==> r is Err,
            relative_path@.len() > 0 && relative_path@[0] == '/' ==> r is Err,
    {
        let original = self.absolute_path(relative_path)?;
        Ok(StagedDeletion { original, staged: self.staging_path() })
    }

    /// Plans the deletion of a workspace's image directory.
    pub fn stage_workspace_deletion(&self, workspace_id: &str) -> (r: Result<StagedDeletion, String>)
        ensures
            r is Ok <==> valid_workspace_id(workspace_id@),
            r matches Ok(d) ==> d.original@ == self.below("workspaces/"@ + workspace_id@)
                && self.is_staging_name(d.staged@),
            r matches Err(e) ==> e@ == "工作区 ID 无效"@,
    {
        validate_workspace_id(workspace_id)?;
        let mut name = "workspaces/".to_owned();
        name.append(workspace_id);
        Ok(StagedDeletion { original: self.path_below(name.as_str()), staged: self.staging_path() })
    }

    /// A fresh name in the temporary directory: `delete-` and a UUID.
    pub open spec fn is_staging_name(&self, path: Seq<char>) -> bool {
        exists|id: Seq<char>|
            parsed_uuid(id) == Some(id) && path == self.below("temp/delete-"@ + id)
    }

    fn staging_path(&self) -> (r: String)
        ensures
            self.is_staging_name(r@),
    {
        let id = new_uuid();
        let mut name = "temp/delete-".to_owned();
        name.append(id.as_str());
        let r = self.path_below(name.as_str());
        assert(r@ == self.below("temp/delete-"@ + id@));
        r
    }
}

} // verus!
