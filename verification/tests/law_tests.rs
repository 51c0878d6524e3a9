use prompt::app::App;
use prompt::db::{Prompt, PromptDB};

fn prompt(id: u64, title: &str, tag: &str) -> Prompt {
    Prompt {
        id,
        title: title.to_string(),
        tag: tag.to_string(),
        content: format!("{} body", title),
        created: "2024-12-31 23:59".to_string(),
    }
}

fn ids_unique(db: &PromptDB) -> bool {
    let ids: Vec<u64> = db.data.iter().map(|p| p.id).collect();
    let mut sorted = ids.clone();
    sorted.sort();
    sorted.dedup();
    sorted.len() == ids.len()
}

#[test]
fn next_id_is_held_by_nobody() {
    let db = PromptDB::new(vec![prompt(4, "a", "t"), prompt(2, "b", "t")]);
    assert!(db.find(db.max_id() + 1).is_none());
}

#[test]
fn ids_stay_unique_through_add_update_delete() {
    let mut db = PromptDB::new(vec![prompt(1, "a", "t"), prompt(5, "b", "t"), prompt(3, "c", "t")]);
    assert!(ids_unique(&db));
    let id = db.add("d".to_string(), "t".to_string(), "x".to_string());
    assert_eq!(id, 6);
    assert!(ids_unique(&db));
    db.update(5, "B".to_string(), "T".to_string(), "y".to_string());
    assert!(ids_unique(&db));
    db.delete(1);
    assert!(ids_unique(&db));
    let id = db.add("e".to_string(), "t".to_string(), "x".to_string());
    assert_eq!(id, 7);
    assert!(ids_unique(&db));
}

#[test]
fn update_leaves_other_ids_alone() {
    let mut db = PromptDB::new(vec![prompt(1, "a", "t"), prompt(2, "b", "u")]);
    db.update(1, "A".to_string(), "T".to_string(), "new".to_string());
    let other = db.find(2).unwrap();
    assert_eq!(other.title, "b");
    assert_eq!(other.tag, "u");
    assert_eq!(other.content, "b body");
    let ids: Vec<u64> = db.data.iter().map(|p| p.id).collect();
    assert_eq!(ids, vec![1, 2]);
}

#[test]
fn update_then_find_gives_the_new_fields() {
    let mut db = PromptDB::new(vec![prompt(1, "a", "t")]);
    db.update(1, "A".to_string(), "T".to_string(), "new".to_string());
    let p = db.find(1).unwrap();
    assert_eq!(p.title, "A");
    assert_eq!(p.tag, "T");
    assert_eq!(p.content, "new");
    assert_eq!(p.created, "2024-12-31 23:59");
}

#[test]
fn save_preview_then_read_back() {
    let mut app = App::new(PromptDB::new(vec![prompt(1, "a", "t"), prompt(2, "b", "t")]));
    app.on_row_clicked(2);
    app.preview_content = "edited".to_string();
    assert!(app.save_preview());
    app.on_row_clicked(1);
    app.on_row_clicked(2);
    assert_eq!(app.preview_content, "edited");
}

#[test]
fn every_listed_prompt_carries_the_chosen_tag() {
    let mut app = App::new(PromptDB::new(vec![prompt(1, "a", "x"), prompt(2, "b", "y"), prompt(3, "ab", "x")]));
    app.select_tag("x".to_string());
    app.search = "A".to_string();
    let listed = app.filtered();
    assert_eq!(listed.len(), 2);
    assert!(listed.iter().all(|p| p.tag == "x"));
}
