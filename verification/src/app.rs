//! What the prompt manager's window decides: which prompts it lists, what
//! the status line says, and how each user action changes the state. The
//! window itself, the clipboard and the data file are driven from outside;
//! each action here returns what has to be written or copied.

use vstd::prelude::*;

use crate::db::{
    find_spec, first_index, lemma_first_index_at, lemma_max_id_bounds, max_id_spec, search_spec,
    strictly_sorted, tag_set, targets, texts, update_spec, Prompt, PromptDB,
};
use crate::clock::is_stamp;
use crate::text::{decimal, decimal_text, text_lt, trim_text, trimmed};

verus! {

/// Whether the editor makes a new prompt or edits the prompt with an id.
#[derive(Clone, Copy, PartialEq, Eq, Structural)]
pub enum EditorMode {
    New,
    Edit(u64),
}

/// The editor window: whether it is shown, what it edits, and its fields.
pub struct EditorState {
    pub open: bool,
    pub mode: EditorMode,
    pub title: String,
    pub tag: String,
    pub content: String,
}

/// The whole state of the manager's window.
pub struct App {
    pub db: PromptDB,
    /// The keyword typed into the search box.
    pub search: String,
    /// The tag chosen in the tag filter, or the label that means every tag.
    pub tag_filter: String,
    pub selected_id: Option<u64>,
    /// The text in the preview pane, which can be edited and saved.
    pub preview_content: String,
    pub editor: EditorState,
    /// The prompt whose deletion waits for confirmation.
    pub confirm_delete: Option<u64>,
    pub status: String,
}

/// The tag filter's label for "every tag".
pub open spec fn all_label() -> Seq<char> {
    "全部"@
}

/// The prompts that the list shows: those matching the search keyword (all
/// of them when it is empty), then only those with the chosen tag, unless
/// the filter says every tag.
pub open spec fn filtered_spec(s: Seq<Prompt>, search: Seq<char>, tag: Seq<char>) -> Seq<Prompt> {
    let base = if search.len() == 0 {
        s
    } else {
        search_spec(s, search)
    };
    if tag == all_label() {
        base
    } else {
        base.filter(has_tag(tag))
    }
}

/// The selected id, or 0 when nothing is selected.
pub open spec fn selected_or_zero(sel: Option<u64>) -> u64 {
    match sel {
        Some(id) => id,
        None => 0,
    }
}

/// The id under which the editor saves: the next id for a new prompt, or
/// the edited one.
pub open spec fn saved_id(mode: EditorMode, s: Seq<Prompt>) -> u64 {
    match mode {
        EditorMode::New => (max_id_spec(s) + 1) as u64,
        EditorMode::Edit(id) => id,
    }
}

/// What the editor's save button does, from the state `a` before to the
/// state `b` after, returning `r`.
pub open spec fn editor_saved(a: App, b: App, r: bool) -> bool {
    let id = saved_id(a.editor.mode, a.db@);
    if trimmed(a.editor.title@).len() == 0 {
        &&& !r
        &&& b.status@ == blank_title_line()
        &&& b == (App { status: b.status, ..a })
    } else {
        &&& b.status@ == saved_line(id, a.editor.title@)
        &&& b == (App {
            db: b.db,
            selected_id: Some(id),
            preview_content: b.preview_content,
            editor: EditorState { open: false, ..a.editor },
            status: b.status,
            ..a
        })
        &&& match a.editor.mode {
            EditorMode::New => {
                &&& r
                &&& b.db@.len() == a.db@.len() + 1
                &&& b.db@.drop_last() == a.db@
                &&& b.db@.last().id == max_id_spec(a.db@) + 1
                &&& b.db@.last().title == a.editor.title
                &&& b.db@.last().tag == a.editor.tag
                &&& b.db@.last().content == a.editor.content
                &&& is_stamp(b.db@.last().created@)
                &&& b.preview_content == a.editor.content
            },
            EditorMode::Edit(eid) => {
                &&& r == first_index(a.db@, eid) is Some
                &&& b.db@ == update_spec(a.db@, eid, a.editor.title, a.editor.tag, a.editor.content)
                &&& b.preview_content == if r {
                    a.editor.content
                } else {
                    a.preview_content
                }
            },
        }
    }
}

/// Whether a prompt carries the tag.
pub open spec fn has_tag(tag: Seq<char>) -> spec_fn(Prompt) -> bool {
    |p: Prompt| p.tag@ == tag
}

/// The shortcut help that ends the status line.
pub open spec fn help_text() -> Seq<char> {
    "Ctrl+N 新增 | Ctrl+F 搜索 | F2 编辑 | Del 删除"@
}

/// The status line that reports how many prompts are listed.
pub open spec fn count_line(count: nat) -> Seq<char> {
    "共 "@ + decimal(count) + " 条提示词 | "@ + help_text()
}

/// The status line after a prompt was saved.
pub open spec fn saved_line(id: u64, title: Seq<char>) -> Seq<char> {
    "✅ 已保存 ["@ + decimal(id as nat) + "] "@ + title
}

/// The status line after a prompt was copied to the clipboard.
pub open spec fn copied_line(id: u64) -> Seq<char> {
    "✅ 已复制到剪贴板 ["@ + decimal(id as nat) + "]"@
}

/// The status line after a deletion.
pub open spec fn deleted_line() -> Seq<char> {
    "✅ 已删除"@
}

/// The status line when the editor is saved with a blank title.
pub open spec fn blank_title_line() -> Seq<char> {
    "⚠️ 标题不能为空"@
}

/// The tag that comes first among the prompts' tags, or the empty text
/// when there are no prompts.
pub open spec fn is_first_tag(s: Seq<Prompt>, t: Seq<char>) -> bool {
    if tag_set(s).len() == 0 {
        t.len() == 0
    } else {
        &&& tag_set(s).contains(t)
        &&& forall|x: Seq<char>| #[trigger] tag_set(s).contains(x) && x != t ==> text_lt(t, x)
    }
}

impl EditorMode {
    /// The editor window's title.
    pub fn window_title(&self) -> (r: &'static str)
        ensures
            r@ == (match self {
                EditorMode::New => "新增提示词"@,
                EditorMode::Edit(_) => "编辑提示词"@,
            }),
    {
        match self {
            EditorMode::New => "新增提示词",
            EditorMode::Edit(_) => "编辑提示词",
        }
    }
}

impl App {
    /// The window's state when it opens on `db`: no search, every tag, nothing
    /// selected, the editor closed, and the shortcut help as status.
    pub fn new(db: PromptDB) -> (r: App)
        ensures
            r.db == db,
            r.search@.len() == 0,
            r.tag_filter@ == all_label(),
            r.selected_id is None,
            r.preview_content@.len() == 0,
            !r.editor.open,
            r.editor.mode == EditorMode::New,
            r.editor.title@.len() == 0,
            r.editor.tag@.len() == 0,
            r.editor.content@.len() == 0,
            r.confirm_delete is None,
            r.status@ == help_text(),
    {
        App {
            db,
            search: String::new(),
            tag_filter: String::from_str("全部"),
            selected_id: None,
            preview_content: String::new(),
            editor: EditorState {
                open: false,
                mode: EditorMode::New,
                title: String::new(),
                tag: String::new(),
                content: String::new(),
            },
            confirm_delete: None,
            status: String::from_str("Ctrl+N 新增 | Ctrl+F 搜索 | F2 编辑 | Del 删除"),
        }
    }

    /// The prompts that the list shows, in order.
    pub fn filtered(&self) -> (r: Vec<&Prompt>)
        ensures
            targets(r@) == filtered_spec(self.db@, self.search@, self.tag_filter@),
    {
        let items: Vec<&Prompt> = if self.search.as_str().is_empty() {
            self.db.all_refs()
        } else {
            self.db.search(self.search.as_str())
        };
        let every = String::from_str("全部");
        if self.tag_filter == every {
            return items;
        }
        let ghost base = targets(items@);
        let ghost tag = self.tag_filter@;
        let ghost pred = has_tag(tag);
        let mut r: Vec<&Prompt> = Vec::new();
        let mut i: usize = 0;
        while i < items.len()
            invariant
                i <= items@.len(),
                base == targets(items@),
                tag == self.tag_filter@,
                pred == has_tag(tag),
                targets(r@) == base.take(i as int).filter(pred),
            decreases items@.len() - i,
        {
            proof {
                reveal_with_fuel(Seq::<_>::filter, 1);
                assert(base.take(i + 1).drop_last() =~= base.take(i as int));
            }
            let p: &Prompt = items[i];
            if p.tag == self.tag_filter {
                let ghost old_r = r@;
                r.push(p);
                assert(targets(r@) =~= targets(old_r).push(*p));
            }
            i = i + 1;
        }
        assert(base.take(i as int) =~= base);
        assert(base == (if self.search@.len() == 0 {
            self.db@
        } else {
            search_spec(self.db@, self.search@)
        }));
        assert(self.tag_filter@ != all_label());
        r
    }

    /// Sets the status line to the number of listed prompts and the shortcut
    /// help.
    pub fn refresh(&mut self)
        ensures
            final(self).status@ == count_line(
                filtered_spec(old(self).db@, old(self).search@, old(self).tag_filter@).len(),
            ),
            *final(self) == (App { status: final(self).status, ..*old(self) }),
    {
        let count = self.filtered().len();
        let mut line = String::from_str("共 ");
        let digits = decimal_text(count as u64);
        line.append(digits.as_str());
        line.append(" 条提示词 | ");
        line.append("Ctrl+N 新增 | Ctrl+F 搜索 | F2 编辑 | Del 删除");
        self.status = line;
    }

    /// The search keyword was edited: the selection and the preview are
    /// cleared and the count is reported again.
    pub fn on_search_changed(&mut self)
        ensures
            final(self).selected_id is None,
            final(self).preview_content@.len() == 0,
            final(self).status@ == count_line(
                filtered_spec(old(self).db@, old(self).search@, old(self).tag_filter@).len(),
            ),
            *final(self) == (App {
                selected_id: None,
                preview_content: final(self).preview_content,
                status: final(self).status,
                ..*old(self)
            }),
    {
        self.selected_id = None;
        self.preview_content = String::new();
        self.refresh();
    }

    /// A tag was chosen in the filter (or the label for every tag): the
    /// selection and the preview are cleared and the count is reported again.
    pub fn select_tag(&mut self, tag: String)
        ensures
            final(self).tag_filter == tag,
            final(self).selected_id is None,
            final(self).preview_content@.len() == 0,
            final(self).status@ == count_line(
                filtered_spec(old(self).db@, old(self).search@, tag@).len(),
            ),
            *final(self) == (App {
                tag_filter: tag,
                selected_id: None,
                preview_content: final(self).preview_content,
                status: final(self).status,
                ..*old(self)
            }),
    {
        self.tag_filter = tag;
        self.selected_id = None;
        self.preview_content = String::new();
        self.refresh();
    }

    /// Opens an empty editor for a new prompt, with the first tag in use
    /// (or none) filled in.
    pub fn open_new_editor(&mut self)
        ensures
            final(self).editor.open,
            final(self).editor.mode == EditorMode::New,
            final(self).editor.title@.len() == 0,
            final(self).editor.content@.len() == 0,
            is_first_tag(old(self).db@, final(self).editor.tag@),
            *final(self) == (App { editor: final(self).editor, ..*old(self) }),
    {
        let tags = self.db.all_tags();
        let tag = if tags.len() > 0 {
            tags[0].clone()
        } else {
            String::new()
        };
        proof {
            let ts = texts(tags@);
            let set = tag_set(self.db@);
            if tags@.len() > 0 {
                assert(ts.contains(ts[0]));
                assert(set.contains(tag@));
                assert forall|x: Seq<char>| #[trigger] set.contains(x) && x != tag@ implies text_lt(tag@, x) by {
                    assert(ts.to_set().contains(x));
                    let j = choose|j: int| 0 <= j < ts.len() && ts[j] == x;
                    assert(j != 0);
                }
            } else {
                assert(ts.len() == 0);
                assert(set =~= Set::<Seq<char>>::empty());
            }
        }
        self.editor = EditorState {
            open: true,
            mode: EditorMode::New,
            title: String::new(),
            tag,
            content: String::new(),
        };
    }

    /// Opens the editor on the first prompt with `id`, if there is one.
    fn open_editor_for(&mut self, id: u64)
        ensures
            match find_spec(old(self).db@, id) {
                Some(p) => *final(self) == (App {
                    editor: EditorState {
                        open: true,
                        mode: EditorMode::Edit(p.id),
                        title: p.title,
                        tag: p.tag,
                        content: p.content,
                    },
                    ..*old(self)
                }),
                None => *final(self) == *old(self),
            },
    {
        match self.get_prompt(id) {
            Some(p) => {
                self.editor = EditorState {
                    open: true,
                    mode: EditorMode::Edit(p.id),
                    title: p.title,
                    tag: p.tag,
                    content: p.content,
                };
            },
            None => {},
        }
    }

    /// The edit button: opens the editor on the selected prompt, looking up
    /// id 0 when nothing is selected.
    pub fn edit_selected(&mut self)
        ensures
            match find_spec(old(self).db@, selected_or_zero(old(self).selected_id)) {
                Some(p) => *final(self) == (App {
                    editor: EditorState {
                        open: true,
                        mode: EditorMode::Edit(p.id),
                        title: p.title,
                        tag: p.tag,
                        content: p.content,
                    },
                    ..*old(self)
                }),
                None => *final(self) == *old(self),
            },
    {
        let id = match self.selected_id {
            Some(id) => id,
            None => 0,
        };
        self.open_editor_for(id);
    }

    /// The edit shortcut: opens the editor on the selected prompt; nothing
    /// happens when nothing is selected.
    pub fn edit_selected_shortcut(&mut self)
        ensures
            match old(self).selected_id {
                Some(id) => match find_spec(old(self).db@, id) {
                    Some(p) => *final(self) == (App {
                        editor: EditorState {
                            open: true,
                            mode: EditorMode::Edit(p.id),
                            title: p.title,
                            tag: p.tag,
                            content: p.content,
                        },
                        ..*old(self)
                    }),
                    None => *final(self) == *old(self),
                },
                None => *final(self) == *old(self),
            },
    {
        match self.selected_id {
            Some(id) => self.open_editor_for(id),
            None => {},
        }
    }

    /// A row of the list was double-clicked: opens the editor on it.
    pub fn on_row_double_clicked(&mut self, id: u64)
        ensures
            match find_spec(old(self).db@, id) {
                Some(p) => *final(self) == (App {
                    editor: EditorState {
                        open: true,
                        mode: EditorMode::Edit(p.id),
                        title: p.title,
                        tag: p.tag,
                        content: p.content,
                    },
                    ..*old(self)
                }),
                None => *final(self) == *old(self),
            },
    {
        self.open_editor_for(id);
    }

    /// A row of the list was clicked: it becomes the selection, and its
    /// content goes to the preview.
    pub fn on_row_clicked(&mut self, id: u64)
        ensures
            match find_spec(old(self).db@, id) {
                Some(p) => *final(self) == (App {
                    selected_id: Some(id),
                    preview_content: p.content,
                    ..*old(self)
                }),
                None => *final(self) == (App { selected_id: Some(id), ..*old(self) }),
            },
    {
        self.selected_id = Some(id);
        match self.get_prompt(id) {
            Some(p) => {
                self.preview_content = p.content;
            },
            None => {},
        }
    }

    /// What the copy button hands to the clipboard: the id and the content of
    /// the selected prompt, when one is selected and still exists.
    pub fn copy_request(&self) -> (r: Option<(u64, String)>)
        ensures
            r == (match self.selected_id {
                Some(id) => match find_spec(self.db@, id) {
                    Some(p) => Some((p.id, p.content)),
                    None => None,
                },
                None => None,
            }),
    {
        match self.selected_id {
            Some(id) => match self.get_prompt(id) {
                Some(p) => Some((p.id, p.content)),
                None => None,
            },
            None => None,
        }
    }

    /// The clipboard took the content of prompt `id`.
    pub fn on_copied(&mut self, id: u64)
        ensures
            final(self).status@ == copied_line(id),
            *final(self) == (App { status: final(self).status, ..*old(self) }),
    {
        let mut line = String::from_str("✅ 已复制到剪贴板 [");
        let digits = decimal_text(id);
        line.append(digits.as_str());
        line.append("]");
        self.status = line;
    }

    /// The delete button: asks to confirm the deletion of the selected
    /// prompt, if one is selected.
    pub fn request_delete(&mut self)
        ensures
            match old(self).selected_id {
                Some(id) => *final(self) == (App { confirm_delete: Some(id), ..*old(self) }),
                None => *final(self) == *old(self),
            },
    {
        match self.selected_id {
            Some(id) => {
                self.confirm_delete = Some(id);
            },
            None => {},
        }
    }

    /// The delete shortcut: asks to confirm the deletion of the selected
    /// prompt, unless nothing is selected or a confirmation is pending.
    pub fn request_delete_shortcut(&mut self)
        ensures
            if old(self).selected_id is Some && old(self).confirm_delete is None {
                *final(self) == (App { confirm_delete: old(self).selected_id, ..*old(self) })
            } else {
                *final(self) == *old(self)
            },
    {
        if self.selected_id.is_some() && self.confirm_delete.is_none() {
            self.confirm_delete = self.selected_id;
        }
    }

    /// The editor is cancelled or its window closed.
    pub fn close_editor(&mut self)
        ensures
            *final(self) == (App {
                editor: EditorState { open: false, ..old(self).editor },
                ..*old(self)
            }),
    {
        self.editor.open = false;
    }

    /// The deletion is cancelled, by its cancel button or by closing its
    /// window.
    pub fn cancel_delete(&mut self)
        ensures
            *final(self) == (App { confirm_delete: None, ..*old(self) }),
    {
        self.confirm_delete = None;
    }

    /// The title shown in the confirmation of a pending deletion: that of
    /// the prompt, or empty when it no longer exists or none is pending.
    pub fn delete_confirmation_title(&self) -> (r: String)
        ensures
            r@ == (match self.confirm_delete {
                Some(id) => match find_spec(self.db@, id) {
                    Some(p) => p.title@,
                    None => Seq::<char>::empty(),
                },
                None => Seq::<char>::empty(),
            }),
    {
        match self.confirm_delete {
            Some(id) => match self.get_prompt(id) {
                Some(p) => p.title,
                None => String::new(),
            },
            None => String::new(),
        }
    }

    /// The deletion is confirmed: the pending prompt is deleted, the
    /// selection and preview cleared, and the status says so. Returns whether
    /// the collection changed and has to be written out (false, with nothing
    /// changed, when no deletion was pending).
    pub fn confirm_deletion(&mut self) -> (r: bool)
        ensures
            match old(self).confirm_delete {
                Some(id) => {
                    &&& r
                    &&& final(self).db@ == crate::db::delete_spec(old(self).db@, id)
                    &&& final(self).status@ == deleted_line()
                    &&& final(self).preview_content@.len() == 0
                    &&& *final(self) == (App {
                        db: final(self).db,
                        selected_id: None,
                        preview_content: final(self).preview_content,
                        confirm_delete: None,
                        status: final(self).status,
                        ..*old(self)
                    })
                },
                None => !r && *final(self) == *old(self),
            },
    {
        match self.confirm_delete {
            Some(id) => {
                self.db.delete(id);
                self.selected_id = None;
                self.preview_content = String::new();
                self.confirm_delete = None;
                self.refresh();
                self.status = String::from_str("✅ 已删除");
                true
            },
            None => false,
        }
    }

    /// The save shortcut: when the preview of the selected prompt differs
    /// from its content, the preview becomes its content and the status says
    /// so. Returns whether the collection changed and has to be written out.
    pub fn save_preview(&mut self) -> (r: bool)
        ensures
            match old(self).selected_id {
                Some(id) => match find_spec(old(self).db@, id) {
                    Some(p) => if p.content@ != old(self).preview_content@ {
                        &&& r
                        &&& final(self).db@ == update_spec(
                            old(self).db@,
                            id,
                            p.title,
                            p.tag,
                            old(self).preview_content,
                        )
                        &&& final(self).status@ == saved_line(id, p.title@)
                        &&& *final(self) == (App {
                            db: final(self).db,
                            status: final(self).status,
                            ..*old(self)
                        })
                    } else {
                        !r && *final(self) == *old(self)
                    },
                    None => !r && *final(self) == *old(self),
                },
                None => !r && *final(self) == *old(self),
            },
    {
        match self.selected_id {
            Some(id) => match self.get_prompt(id) {
                Some(p) => {
                    if p.content == self.preview_content {
                        false
                    } else {
                        let mut line = String::from_str("✅ 已保存 [");
                        let digits = decimal_text(id);
                        line.append(digits.as_str());
                        line.append("] ");
                        line.append(p.title.as_str());
                        let changed = self.db.update(id, p.title, p.tag, self.preview_content.clone());
                        self.status = line;
                        changed
                    }
                },
                None => false,
            },
            None => false,
        }
    }

    /// The choices of the tag filter: the label for every tag, then every
    /// tag in use, once each, in increasing order.
    pub fn tag_choices(&self) -> (r: Vec<String>)
        ensures
            r@.len() >= 1,
            r@[0]@ == all_label(),
            strictly_sorted(texts(r@.drop_first())),
            texts(r@.drop_first()).to_set() == tag_set(self.db@),
    {
        let tags = self.db.all_tags();
        let mut r: Vec<String> = Vec::new();
        r.push(String::from_str("全部"));
        let mut i: usize = 0;
        while i < tags.len()
            invariant
                i <= tags@.len(),
                r@.len() == i + 1,
                r@[0]@ == all_label(),
                r@.drop_first() == tags@.take(i as int),
            decreases tags@.len() - i,
        {
            r.push(tags[i].clone());
            assert(r@.drop_first() =~= tags@.take(i + 1));
            i = i + 1;
        }
        assert(tags@.take(i as int) =~= tags@);
        r
    }

    /// The prompts were exported to the file shown as `location`.
    pub fn on_exported(&mut self, location: String)
        ensures
            final(self).status@ == "📤 已导出到 "@ + location@,
            *final(self) == (App { status: final(self).status, ..*old(self) }),
    {
        let mut line = String::from_str("📤 已导出到 ");
        line.append(location.as_str());
        self.status = line;
    }

    /// The editor's save button. A title that is blank once trimmed is
    /// refused with a warning. Otherwise a new prompt is added (id one above
    /// the largest) or the edited prompt gets the editor's fields; the editor
    /// closes, the saved prompt becomes the selection and its content the
    /// preview, and the status reports the save. Returns whether the
    /// collection changed and has to be written out.
    pub fn save_editor(&mut self) -> (r: bool)
        requires
            old(self).editor.mode == EditorMode::New && trimmed(old(self).editor.title@).len() > 0
                ==> max_id_spec(old(self).db@) < u64::MAX,
        ensures
            editor_saved(*old(self), *final(self), r),
    {
        let t = self.editor.title.clone();
        let blank = trim_text(t.as_str()).is_empty();
        if blank {
            self.status = String::from_str("⚠️ 标题不能为空");
            return false;
        }
        let saved_title = t.clone();
        let ghost s0 = self.db@;
        let mode = self.editor.mode;
        let id: u64;
        let changed: bool;
        match mode {
            EditorMode::New => {
                id = self.db.add(t, self.editor.tag.clone(), self.editor.content.clone());
                changed = true;
                proof {
                    let s1 = self.db@;
                    lemma_max_id_bounds(s0);
                    assert forall|j: int| 0 <= j < s1.len() - 1 implies #[trigger] s1[j].id != id by {
                        assert(s1[j] == s0[j]);
                    }
                    lemma_first_index_at(s1, id, s1.len() - 1);
                }
            },
            EditorMode::Edit(eid) => {
                id = eid;
                changed = self.db.update(eid, t, self.editor.tag.clone(), self.editor.content.clone());
                proof {
                    let s1 = self.db@;
                    if changed {
                        let i = first_index(s0, eid)->0;
                        crate::db::lemma_first_index(s0, eid);
                        assert forall|j: int| 0 <= j < i implies #[trigger] s1[j].id != eid by {
                            assert(s1[j] == s0[j]);
                        }
                        lemma_first_index_at(s1, eid, i);
                    }
                }
            },
        }
        self.editor.open = false;
        self.selected_id = Some(id);
        match self.get_prompt(id) {
            Some(p) => {
                self.preview_content = p.content;
            },
            None => {},
        }
        self.refresh();
        let mut line = String::from_str("✅ 已保存 [");
        let digits = decimal_text(id);
        line.append(digits.as_str());
        line.append("] ");
        line.append(saved_title.as_str());
        self.status = line;
        changed
    }

    /// The editor's save button, as `save_editor` does it, except when a new
    /// prompt would need an id above the largest `u64`: then nothing changes
    /// and the result is `None`.
    pub fn try_save_editor(&mut self) -> (r: Option<bool>)
        ensures
            r is None <==> (old(self).editor.mode == EditorMode::New && trimmed(
                old(self).editor.title@,
            ).len() > 0 && max_id_spec(old(self).db@) == u64::MAX),
            match r {
                Some(changed) => editor_saved(*old(self), *final(self), changed),
                None => *final(self) == *old(self),
            },
    {
        if self.editor.mode == EditorMode::New {
            let blank = trim_text(self.editor.title.as_str()).is_empty();
            if !blank && self.db.max_id() == u64::MAX {
                return None;
            }
        }
        Some(self.save_editor())
    }

    /// A copy of the first prompt with `id`, if there is one.
    pub fn get_prompt(&self, id: u64) -> (r: Option<Prompt>)
        ensures
            r == find_spec(self.db@, id),
    {
        match self.db.find(id) {
            Some(p) => Some(p.duplicate()),
            None => None,
        }
    }
}

} // verus!
