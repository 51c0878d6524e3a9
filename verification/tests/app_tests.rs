use prompt::app::{App, EditorMode};
use prompt::db::{Prompt, PromptDB};

const HELP: &str = "Ctrl+N 新增 | Ctrl+F 搜索 | F2 编辑 | Del 删除";

fn prompt(id: u64, title: &str, tag: &str, content: &str) -> Prompt {
    Prompt {
        id,
        title: title.to_string(),
        tag: tag.to_string(),
        content: content.to_string(),
        created: "2025-01-01 00:00".to_string(),
    }
}

fn sample() -> App {
    App::new(PromptDB::new(vec![
        prompt(1, "代码审查助手", "编程", "请审查以下代码"),
        prompt(2, "论文润色", "学术", "请润色以下学术段落"),
        prompt(3, "Rust Review", "编程", "review rust code"),
    ]))
}

fn listed(app: &App) -> Vec<u64> {
    app.filtered().iter().map(|p| p.id).collect()
}

#[test]
fn a_new_window_shows_everything() {
    let app = sample();
    assert_eq!(app.search, "");
    assert_eq!(app.tag_filter, "全部");
    assert_eq!(app.selected_id, None);
    assert_eq!(app.preview_content, "");
    assert!(!app.editor.open);
    assert!(app.editor.mode == EditorMode::New);
    assert_eq!(app.confirm_delete, None);
    assert_eq!(app.status, HELP);
    assert_eq!(listed(&app), vec![1, 2, 3]);
}

#[test]
fn filtered_by_keyword_and_tag() {
    let mut app = sample();
    app.search = "REVIEW".to_string();
    assert_eq!(listed(&app), vec![3]);
    app.search = "请".to_string();
    assert_eq!(listed(&app), vec![1, 2]);
    app.tag_filter = "学术".to_string();
    assert_eq!(listed(&app), vec![2]);
    app.search = String::new();
    app.tag_filter = "编程".to_string();
    assert_eq!(listed(&app), vec![1, 3]);
    app.tag_filter = "none".to_string();
    assert!(listed(&app).is_empty());
}

#[test]
fn refresh_reports_the_count() {
    let mut app = sample();
    app.refresh();
    assert_eq!(app.status, format!("共 3 条提示词 | {}", HELP));
    app.tag_filter = "学术".to_string();
    app.refresh();
    assert_eq!(app.status, format!("共 1 条提示词 | {}", HELP));
}

#[test]
fn get_prompt_copies_the_first_holder() {
    let app = sample();
    let p = app.get_prompt(2).unwrap();
    assert_eq!(p.title, "论文润色");
    assert!(app.get_prompt(9).is_none());
}

#[test]
fn search_change_clears_the_selection() {
    let mut app = sample();
    app.on_row_clicked(1);
    app.search = "rust".to_string();
    app.on_search_changed();
    assert_eq!(app.selected_id, None);
    assert_eq!(app.preview_content, "");
    assert_eq!(app.status, format!("共 1 条提示词 | {}", HELP));
}

#[test]
fn choosing_a_tag_filters_and_clears() {
    let mut app = sample();
    app.on_row_clicked(2);
    app.select_tag("编程".to_string());
    assert_eq!(app.tag_filter, "编程");
    assert_eq!(app.selected_id, None);
    assert_eq!(app.preview_content, "");
    assert_eq!(app.status, format!("共 2 条提示词 | {}", HELP));
    app.select_tag("全部".to_string());
    assert_eq!(app.status, format!("共 3 条提示词 | {}", HELP));
}

#[test]
fn new_editor_takes_the_first_tag() {
    let mut app = sample();
    app.open_new_editor();
    assert!(app.editor.open);
    assert!(app.editor.mode == EditorMode::New);
    assert_eq!(app.editor.title, "");
    assert_eq!(app.editor.content, "");
    assert_eq!(app.editor.tag, "学术");
    let mut empty = App::new(PromptDB::new(Vec::new()));
    empty.open_new_editor();
    assert_eq!(empty.editor.tag, "");
}

#[test]
fn saving_a_new_prompt() {
    let mut app = sample();
    app.open_new_editor();
    app.editor.title = "新标题".to_string();
    app.editor.content = "新内容".to_string();
    assert!(app.save_editor());
    assert!(!app.editor.open);
    assert_eq!(app.selected_id, Some(4));
    assert_eq!(app.preview_content, "新内容");
    assert_eq!(app.status, "✅ 已保存 [4] 新标题");
    let p = app.get_prompt(4).unwrap();
    assert_eq!(p.title, "新标题");
    assert_eq!(p.tag, "学术");
    assert_eq!(p.content, "新内容");
}

#[test]
fn saving_with_a_blank_title_is_refused() {
    let mut app = sample();
    app.open_new_editor();
    app.editor.title = " \t\u{3000} ".to_string();
    assert!(!app.save_editor());
    assert!(app.editor.open);
    assert_eq!(app.status, "⚠️ 标题不能为空");
    assert_eq!(app.db.data.len(), 3);
}

#[test]
fn a_title_with_spaces_around_is_kept_as_typed() {
    let mut app = sample();
    app.open_new_editor();
    app.editor.title = "  x  ".to_string();
    assert!(app.save_editor());
    assert_eq!(app.get_prompt(4).unwrap().title, "  x  ");
    assert_eq!(app.status, "✅ 已保存 [4]   x  ");
}

#[test]
fn editing_an_existing_prompt() {
    let mut app = sample();
    app.on_row_double_clicked(2);
    assert!(app.editor.open);
    assert!(app.editor.mode == EditorMode::Edit(2));
    assert_eq!(app.editor.title, "论文润色");
    assert_eq!(app.editor.tag, "学术");
    assert_eq!(app.editor.content, "请润色以下学术段落");
    app.editor.content = "改过的".to_string();
    assert!(app.save_editor());
    assert_eq!(app.selected_id, Some(2));
    assert_eq!(app.preview_content, "改过的");
    assert_eq!(app.get_prompt(2).unwrap().content, "改过的");
    assert_eq!(app.get_prompt(2).unwrap().created, "2025-01-01 00:00");
    assert_eq!(app.status, "✅ 已保存 [2] 论文润色");
}

#[test]
fn editing_a_vanished_prompt_changes_nothing_but_the_window() {
    let mut app = sample();
    app.on_row_double_clicked(3);
    app.db.delete(3);
    app.preview_content = "old".to_string();
    assert!(!app.save_editor());
    assert_eq!(app.db.data.len(), 2);
    assert_eq!(app.selected_id, Some(3));
    assert_eq!(app.preview_content, "old");
    assert!(!app.editor.open);
}

#[test]
fn edit_button_without_selection_looks_up_id_zero() {
    let mut app = sample();
    app.edit_selected();
    assert!(!app.editor.open);
    let mut zero = App::new(PromptDB::new(vec![prompt(0, "zero", "t", "c")]));
    zero.edit_selected();
    assert!(zero.editor.open);
    assert!(zero.editor.mode == EditorMode::Edit(0));
    let mut shortcut = App::new(PromptDB::new(vec![prompt(0, "zero", "t", "c")]));
    shortcut.edit_selected_shortcut();
    assert!(!shortcut.editor.open);
    shortcut.on_row_clicked(0);
    shortcut.edit_selected_shortcut();
    assert!(shortcut.editor.open);
}

#[test]
fn clicking_a_row_selects_and_previews() {
    let mut app = sample();
    app.on_row_clicked(3);
    assert_eq!(app.selected_id, Some(3));
    assert_eq!(app.preview_content, "review rust code");
    app.on_row_clicked(8);
    assert_eq!(app.selected_id, Some(8));
    assert_eq!(app.preview_content, "review rust code");
}

#[test]
fn copying_the_selected_prompt() {
    let mut app = sample();
    assert!(app.copy_request().is_none());
    app.on_row_clicked(1);
    let (id, text) = app.copy_request().unwrap();
    assert_eq!(id, 1);
    assert_eq!(text, "请审查以下代码");
    app.on_copied(id);
    assert_eq!(app.status, "✅ 已复制到剪贴板 [1]");
}

#[test]
fn deleting_after_confirmation() {
    let mut app = sample();
    app.request_delete();
    assert_eq!(app.confirm_delete, None);
    app.on_row_clicked(2);
    app.request_delete();
    assert_eq!(app.confirm_delete, Some(2));
    assert_eq!(app.delete_confirmation_title(), "论文润色");
    assert!(app.confirm_deletion());
    assert_eq!(app.confirm_delete, None);
    assert_eq!(app.selected_id, None);
    assert_eq!(app.preview_content, "");
    assert_eq!(app.status, "✅ 已删除");
    assert!(app.get_prompt(2).is_none());
    assert_eq!(listed(&app), vec![1, 3]);
    assert!(!app.confirm_deletion());
    assert_eq!(app.delete_confirmation_title(), "");
}

#[test]
fn cancelling_a_deletion() {
    let mut app = sample();
    app.on_row_clicked(1);
    app.request_delete_shortcut();
    assert_eq!(app.confirm_delete, Some(1));
    app.on_row_clicked(3);
    app.request_delete_shortcut();
    assert_eq!(app.confirm_delete, Some(1));
    app.cancel_delete();
    assert_eq!(app.confirm_delete, None);
    assert_eq!(app.db.data.len(), 3);
}

#[test]
fn saving_the_preview() {
    let mut app = sample();
    assert!(!app.save_preview());
    app.on_row_clicked(1);
    assert!(!app.save_preview());
    app.preview_content = "新的正文".to_string();
    assert!(app.save_preview());
    assert_eq!(app.status, "✅ 已保存 [1] 代码审查助手");
    let p = app.get_prompt(1).unwrap();
    assert_eq!(p.content, "新的正文");
    assert_eq!(p.title, "代码审查助手");
    assert_eq!(p.tag, "编程");
}

#[test]
fn closing_the_editor_keeps_its_fields() {
    let mut app = sample();
    app.on_row_double_clicked(1);
    app.close_editor();
    assert!(!app.editor.open);
    assert_eq!(app.editor.title, "代码审查助手");
}

#[test]
fn editor_window_titles() {
    assert_eq!(EditorMode::New.window_title(), "新增提示词");
    assert_eq!(EditorMode::Edit(3).window_title(), "编辑提示词");
}

#[test]
fn try_save_refuses_when_ids_run_out() {
    let mut app = App::new(PromptDB::new(vec![prompt(u64::MAX, "last", "t", "c")]));
    app.open_new_editor();
    app.editor.title = "more".to_string();
    assert_eq!(app.try_save_editor(), None);
    assert_eq!(app.db.data.len(), 1);
    assert!(app.editor.open);
    app.editor.title = "   ".to_string();
    assert_eq!(app.try_save_editor(), Some(false));
    assert_eq!(app.status, "⚠️ 标题不能为空");
    let mut ok = sample();
    ok.open_new_editor();
    ok.editor.title = "t".to_string();
    assert_eq!(ok.try_save_editor(), Some(true));
    assert_eq!(ok.selected_id, Some(4));
}

#[test]
fn tag_choices_start_with_every_tag() {
    let app = sample();
    assert_eq!(app.tag_choices(), vec!["全部".to_string(), "学术".to_string(), "编程".to_string()]);
    let empty = App::new(PromptDB::new(Vec::new()));
    assert_eq!(empty.tag_choices(), vec!["全部".to_string()]);
}

#[test]
fn export_reports_the_file() {
    let mut app = sample();
    app.on_exported("/tmp/Prompts_export.json".to_string());
    assert_eq!(app.status, "📤 已导出到 /tmp/Prompts_export.json");
}

#[test]
fn a_saved_new_prompt_is_stamped() {
    let mut app = sample();
    app.open_new_editor();
    app.editor.title = "stamped".to_string();
    assert!(app.save_editor());
    let created: Vec<char> = app.get_prompt(4).unwrap().created.chars().collect();
    assert_eq!(created.len(), 16);
    assert!(created[0..4].iter().all(|c| c.is_ascii_digit()));
    assert_eq!(created[4], '-');
    assert_eq!(created[7], '-');
    assert_eq!(created[10], ' ');
    assert_eq!(created[13], ':');
}
