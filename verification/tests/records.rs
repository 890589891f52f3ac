use ww_ocr::records::{
    check_workspace_deletable, plan_migrations, require_changed, timestamp_from, unix_timestamp, validate_name,
    validate_note_update,
};

#[test]
fn workspace_names_are_trimmed_and_bounded() {
    assert_eq!(validate_name("  研究  ").unwrap(), "研究");
    assert_eq!(validate_name(" \t ").err().unwrap(), "工作区名称不能为空");
    assert_eq!(validate_name(&"名".repeat(80)).unwrap(), "名".repeat(80));
    assert_eq!(validate_name(&"名".repeat(81)).err().unwrap(), "工作区名称不能超过 80 个字符");
}

#[test]
fn the_default_workspace_stays() {
    assert_eq!(check_workspace_deletable("default").err().unwrap(), "默认工作区不能删除");
    assert!(check_workspace_deletable("x").is_ok());
}

#[test]
fn unchanged_rows_mean_a_missing_record() {
    assert_eq!(require_changed(0, "工作区不存在").err().unwrap(), "工作区不存在");
    assert!(require_changed(1, "工作区不存在").is_ok());
}

#[test]
fn notes_keep_their_size_and_colors() {
    assert!(validate_note_update("正文", "mint").is_ok());
    assert_eq!(validate_note_update("正文", "invalid").err().unwrap(), "便签颜色无效");
    assert_eq!(validate_note_update(&"x".repeat(1_000_001), "blue").err().unwrap(), "便签内容不能超过 1 MB");
    assert!(validate_note_update(&"x".repeat(1_000_000), "rose").is_ok());
}

#[test]
fn upgrades_step_by_step_and_refuses_newer_databases() {
    assert_eq!(plan_migrations(0).unwrap(), vec![1, 2, 3, 4]);
    assert_eq!(plan_migrations(1).unwrap(), vec![2, 3, 4]);
    assert_eq!(plan_migrations(4).unwrap(), Vec::<u32>::new());
    assert_eq!(plan_migrations(-3).unwrap(), vec![1, 2, 3, 4]);
    assert_eq!(plan_migrations(5).err().unwrap(), "数据库版本高于当前应用支持版本");
}

#[test]
fn reads_the_clock_in_seconds() {
    let now = unix_timestamp().unwrap();
    assert!(now > 1_600_000_000);
}

#[test]
fn a_clock_reading_becomes_whole_unix_seconds() {
    assert_eq!(timestamp_from(Ok(1_700_000_000)), Ok(1_700_000_000));
    assert_eq!(timestamp_from(Err("before the epoch".to_string())), Err("读取系统时间失败: before the epoch".to_string()));
}
