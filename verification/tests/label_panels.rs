use doit::types::{Category, Tag};
use doit::labels::{
    color_palette, fresh_id, label_id, new_category_color, new_tag_color, CategoriesPanel, LabelEditor, TagsPanel,
};
use doit::todos::DoitApp;

fn cat(id: &str, name: &str, color: &str) -> Category {
    Category { id: id.into(), name: name.into(), color: color.into() }
}

fn tag(id: &str, name: &str, color: &str) -> Tag {
    Tag { id: id.into(), name: name.into(), color: color.into() }
}

#[test]
fn label_ids_have_prefix_time_and_sequence() {
    assert_eq!(label_id("cat", 1700000000000, 3), "cat-1700000000000-3");
    let id = fresh_id("tag", 5);
    assert!(id.starts_with("tag-"));
    assert!(id.ends_with("-5"));
    let middle = &id[4..id.len() - 2];
    assert!(middle.parse::<u64>().is_ok());
}

#[test]
fn adding_labels_trims_and_gives_unique_ids() {
    let mut panel = CategoriesPanel::new(vec![cat("cat-work", "工作", "#3B82F6")], None, false);
    assert!(!panel.add_new("   ", "#000000".into()));
    assert_eq!(panel.editor.items.len(), 1);
    assert_eq!(panel.editor.seq, 0);
    assert!(panel.add_new("  Home ", "#112233".into()));
    assert!(panel.add_new("Home", "#112233".into()));
    assert_eq!(panel.editor.items.len(), 3);
    let a = &panel.editor.items[1];
    let b = &panel.editor.items[2];
    assert_eq!(a.name, "Home");
    assert_eq!(a.color, "#112233");
    assert!(a.id.starts_with("cat-"));
    assert!(b.id.starts_with("cat-"));
    assert_ne!(a.id, b.id);
    assert!(b.id.ends_with(&format!("-{}", panel.editor.seq)));
}

#[test]
fn adding_skips_ids_already_taken() {
    let mut tags = TagsPanel::new(Vec::new(), true);
    assert!(tags.add_new("first", "#fff".into()));
    let taken = tags.editor.items[0].id.clone();
    let mut panel = TagsPanel::new(vec![tag(&taken, "clash", "#000")], true);
    panel.editor.seq = tags.editor.seq - 1;
    assert!(panel.add_new("second", "#eee".into()));
    let ids: Vec<&str> = panel.editor.items.iter().map(|t| t.id.as_str()).collect();
    assert_eq!(ids.len(), 2);
    assert_ne!(ids[0], ids[1]);
    assert!(ids[1].starts_with("tag-"));
}

#[test]
fn renaming_and_recoloring() {
    let mut ed = LabelEditor::new(vec![tag("a", "A", "#111"), tag("b", "B", "#222")], false);
    let (name, color) = ed.begin_edit("b");
    assert_eq!((name.as_str(), color.as_str()), ("B", "#222"));
    assert_eq!(ed.editing_id.as_deref(), Some("b"));
    assert!(!ed.enter_name("   "));
    assert_eq!(ed.editing_id.as_deref(), Some("b"));
    assert!(ed.recolor_editing("#999".into()));
    assert_eq!(ed.items[1].color, "#999");
    assert!(ed.enter_name(" Bee "));
    assert_eq!(ed.items[1].name, "Bee");
    assert_eq!(ed.editing_id, None);
    assert!(!ed.enter_name("again"));
    assert!(!ed.recolor_editing("#000".into()));
    ed.save_name("a", "   ");
    assert_eq!(ed.items[0].name, "A");
    ed.save_name("a", "Ay");
    assert_eq!(ed.items[0].name, "Ay");
    ed.recolor("a", "#abc".into());
    assert_eq!(ed.items[0].color, "#abc");
    let (n, c) = ed.begin_edit("missing");
    assert_eq!((n.as_str(), c.as_str()), ("", ""));
    ed.cancel_edit();
    assert_eq!(ed.editing_id, None);
}

#[test]
fn removing_labels_and_hover() {
    let mut ed = LabelEditor::new(vec![tag("a", "A", "#1"), tag("b", "B", "#2"), tag("a", "A2", "#3")], true);
    assert!(ed.done_visible());
    ed.remove("a");
    assert_eq!(ed.items.len(), 1);
    assert_eq!(ed.items[0].id, "b");
    assert!(ed.hover("b", true));
    assert!(!ed.hover("b", true));
    assert!(ed.hover("a", true));
    assert!(ed.hover("a", false));
    assert!(!ed.hover("a", false));
    ed.remove("b");
    assert!(!ed.done_visible());
}

#[test]
fn deleting_the_default_category_unsets_it() {
    let mut panel = CategoriesPanel::new(
        vec![cat("cat-work", "工作", "#3B82F6"), cat("cat-life", "生活", "#22C55E")],
        Some("cat-work".to_string()),
        false,
    );
    assert!(panel.is_default("cat-work"));
    assert_eq!(panel.default_button_label("cat-work"), "默认");
    assert_eq!(panel.default_button_label("cat-life"), "设为默认");
    panel.delete("cat-life");
    assert_eq!(panel.default_id.as_deref(), Some("cat-work"));
    panel.delete("cat-work");
    assert_eq!(panel.default_id, None);
    assert!(panel.editor.items.is_empty());
}

#[test]
fn toggling_the_default() {
    let mut panel = CategoriesPanel::new(vec![cat("a", "A", "#1"), cat("b", "B", "#2")], None, false);
    panel.toggle_default("a");
    assert_eq!(panel.default_id.as_deref(), Some("a"));
    panel.toggle_default("b");
    assert_eq!(panel.default_id.as_deref(), Some("b"));
    panel.toggle_default("b");
    assert_eq!(panel.default_id, None);
}

#[test]
fn panels_hand_their_labels_to_the_app() {
    let mut app = DoitApp::new();
    let panel = CategoriesPanel::new(vec![cat("x", "X", "#1")], Some("missing".to_string()), false);
    panel.apply_to(&mut app);
    assert_eq!(app.settings.categories.len(), 1);
    assert_eq!(app.settings.categories[0].id, "x");
    assert_eq!(app.settings.default_category_id, None);
    let tags = TagsPanel::new(vec![tag("t", "T", "#2")], false);
    tags.apply_to(&mut app);
    assert_eq!(app.settings.tags.len(), 1);
    assert_eq!(app.settings.tags[0].name, "T");
}

#[test]
fn palette_and_default_colors() {
    let p = color_palette();
    assert_eq!(p.len(), 12);
    assert_eq!(p[0], ("red", "#EF4444"));
    assert_eq!(p[11], ("pink", "#EC4899"));
    assert_eq!(new_category_color(), "#6366F1");
    assert_eq!(new_tag_color(), "#F59E0B");
}
