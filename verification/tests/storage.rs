use ww_ocr::image_import::ImageImport;
use ww_ocr::ids::validate_workspace_id;

fn new_uuid() -> String {
    uuid::Uuid::new_v4().to_string()
}
use ww_ocr::storage::{stored_image, AppStorage, PathPart};

#[test]
fn images_go_into_their_workspace() {
    let storage = AppStorage::new("/data".to_string());
    let plan = storage.plan_storage("default", "png");
    assert_eq!(uuid::Uuid::parse_str(&plan.id).unwrap().to_string(), plan.id);
    assert_eq!(plan.relative_path, format!("workspaces/default/originals/{}.png", plan.id));
    assert_eq!(plan.absolute_path, format!("/data/workspaces/default/originals/{}.png", plan.id));
    assert_eq!(plan.temporary_path, format!("/data/temp/import-{}.png", plan.id));
    let other = storage.plan_storage("default", "png");
    assert_ne!(plan.id, other.id);

    let import = ImageImport {
        original_name: "a.png".into(),
        extension: "png".into(),
        mime_type: "image/png".into(),
        byte_size: 12,
        width: 3,
        height: 4,
    };
    let id = plan.id.clone();
    let stored = stored_image(plan, "default", import);
    assert_eq!((stored.id.as_str(), stored.workspace_id.as_str(), stored.original_name.as_str()), (id.as_str(), "default", "a.png"));
    assert_eq!((stored.byte_size, stored.width, stored.height), (12, 3, 4));
}

#[test]
fn stored_paths_stay_below_the_data_directory() {
    let storage = AppStorage::new("/data".to_string());
    assert_eq!(storage.absolute_path("workspaces/default/originals/a.png").unwrap(), "/data/workspaces/default/originals/a.png");
    assert_eq!(storage.absolute_path("../etc/passwd").err().unwrap(), "数据库中的图片路径无效");
    assert_eq!(storage.absolute_path("/etc/passwd").err().unwrap(), "数据库中的图片路径无效");
    assert_eq!(storage.absolute_path("a/./b").unwrap(), "/data/a/./b");
    assert_eq!(storage.capture_path("s", 2), "/data/temp/capture-s-2.png");
}

#[test]
fn deletions_are_staged_in_the_temporary_directory() {
    let storage = AppStorage::new("/data".to_string());
    let staged = storage.stage_document_deletion("workspaces/default/originals/a.png").unwrap();
    assert_eq!(staged.original, "/data/workspaces/default/originals/a.png");
    assert!(staged.staged.starts_with("/data/temp/delete-"));
    let id = new_uuid();
    let staged = storage.stage_workspace_deletion(&id).unwrap();
    assert_eq!(staged.original, format!("/data/workspaces/{id}"));
    assert_eq!(storage.stage_workspace_deletion("../x").err().unwrap(), "工作区 ID 无效");
    assert_eq!(storage.stage_document_deletion("../x").err().unwrap(), "数据库中的图片路径无效");
}

#[test]
fn workspace_ids_are_default_or_uuids() {
    assert!(validate_workspace_id("default").is_ok());
    assert!(validate_workspace_id(&new_uuid()).is_ok());
    assert_eq!(validate_workspace_id("Default").err().unwrap(), "工作区 ID 无效");
}

#[test]
fn a_resolved_path_follows_the_platform_reading() {
    let storage = AppStorage::new("/data".to_string());
    assert_eq!(storage.resolve_stored_path("a/b.png", false, &vec![PathPart::Normal, PathPart::Normal]).unwrap(), "/data/a/b.png");
    assert_eq!(
        storage.resolve_stored_path("../b.png", false, &vec![PathPart::ParentDir, PathPart::Normal]).err().unwrap(),
        "数据库中的图片路径无效"
    );
    assert!(storage.resolve_stored_path("/b.png", true, &vec![PathPart::RootDir, PathPart::Normal]).is_err());
    assert!(storage.resolve_stored_path("./b.png", false, &vec![PathPart::CurDir, PathPart::Normal]).is_err());
    assert!(storage.stage_document_deletion("../../etc/passwd").is_err());
    assert!(storage.stage_document_deletion("workspaces/default/originals/a.png").is_ok());
}
