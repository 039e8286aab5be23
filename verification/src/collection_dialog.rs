//! The collection dialogs: naming a new collection, renaming one, picking
//! the collection to put the selected command in, and searching for a
//! command to put in the selected collection. Typing and moving stay in the
//! dialog; Enter closes it and says what storage is to do.
use vstd::prelude::*;
use crate::keymap::keys::{no_mods, KeyCode, KeyEvent};
use crate::picker::{add_candidates, collections_matching, command_refs, derefs, AppState};
use crate::state::{CollectionInputMode, CommandView};
use crate::storage::Collection;
use crate::tag_editor::has_lower;
use crate::text::{push_char, str_eq, to_lowercase, trim, trim_str, lowercased};

verus! {

/// An open (or closed) collection dialog.
pub struct CollectionDialog {
    pub mode: CollectionInputMode,
    /// What has been typed.
    pub text: String,
    /// The highlighted row when picking a collection.
    pub popup_index: usize,
    /// The highlighted row when searching for a command.
    pub search_index: usize,
    /// The collection being renamed.
    pub editing_id: Option<String>,
}

/// What Enter asks of storage.
pub enum DialogRequest {
    /// The dialog stays open; nothing to store.
    Stay,
    /// The dialog closed with nothing to store.
    Closed,
    /// Create a collection with this name.
    Create { name: String },
    /// Rename the collection `id`.
    Rename { id: String, name: String },
    /// Put the command with this text into the collection `id`.
    AddTo { text: String, id: String },
    /// Create a collection with this name, then put the command with this
    /// text, if there is one, into it.
    CreateAndAdd { name: String, text: Option<String> },
    /// Put the command with this text into the selected collection.
    AddByText { text: String },
    /// Delete the collection `id`, as the confirmation asked.
    DeleteCollection { id: String },
    /// Take the command with this text out of the collection `id`, as the
    /// confirmation asked.
    RemoveFromCollection { text: String, id: String },
}

/// `DialogRequest` with its texts as sequences.
pub enum RequestView {
    Stay,
    Closed,
    Create(Seq<char>),
    Rename(Seq<char>, Seq<char>),
    AddTo(Seq<char>, Seq<char>),
    CreateAndAdd(Seq<char>, Option<Seq<char>>),
    AddByText(Seq<char>),
    DeleteCollection(Seq<char>),
    RemoveFromCollection(Seq<char>, Seq<char>),
}

pub open spec fn opt_text(o: Option<String>) -> Option<Seq<char>> {
    match o {
        Some(s) => Some(s@),
        None => None,
    }
}

pub open spec fn request_view(r: DialogRequest) -> RequestView {
    match r {
        DialogRequest::Stay => RequestView::Stay,
        DialogRequest::Closed => RequestView::Closed,
        DialogRequest::Create { name } => RequestView::Create(name@),
        DialogRequest::Rename { id, name } => RequestView::Rename(id@, name@),
        DialogRequest::AddTo { text, id } => RequestView::AddTo(text@, id@),
        DialogRequest::CreateAndAdd { name, text } => RequestView::CreateAndAdd(name@, opt_text(text)),
        DialogRequest::AddByText { text } => RequestView::AddByText(text@),
        DialogRequest::DeleteCollection { id } => RequestView::DeleteCollection(id@),
        DialogRequest::RemoveFromCollection { text, id } => RequestView::RemoveFromCollection(
            text@,
            id@,
        ),
    }
}

/// The dialog as values: mode, text, the two highlighted rows and the
/// collection being renamed.
pub type DialogView = (CollectionInputMode, Seq<char>, usize, usize, Option<Seq<char>>);

pub open spec fn dialog_view(d: CollectionDialog) -> DialogView {
    (d.mode, d.text@, d.popup_index, d.search_index, opt_text(d.editing_id))
}

/// The text of the selected command, if one is selected.
pub open spec fn selected_text(st: AppState) -> Option<Seq<char>> {
    if st.selected_index < st.filtered@.len() {
        Some(st.filtered@[st.selected_index as int].text@)
    } else {
        None
    }
}

pub open spec fn names_of(cs: Seq<Collection>) -> Seq<Seq<char>> {
    cs.map_values(|c: Collection| c.name@)
}

pub open spec fn texts_of(cs: Seq<CommandView>) -> Seq<Seq<char>> {
    cs.map_values(|c: CommandView| c.text)
}

/// The last row that can be highlighted among `n`, one more when a "create"
/// row follows them.
pub open spec fn last_pick(n: nat, create: bool) -> int {
    if create {
        n as int
    } else if n == 0 {
        0
    } else {
        n - 1
    }
}

pub open spec fn step_down(i: usize, last: int) -> usize {
    if i + 1 <= last {
        (i + 1) as usize
    } else {
        last as usize
    }
}

pub open spec fn closed_view(d: DialogView) -> DialogView {
    (CollectionInputMode::Idle, Seq::empty(), d.2, 0, None)
}

/// What Enter asks for.
pub open spec fn enter_request(d: DialogView, st: AppState) -> RequestView {
    let (mode, text, popup, search, editing) = d;
    match mode {
        CollectionInputMode::NewCollection => if text.len() > 0 {
            RequestView::Create(text)
        } else {
            RequestView::Closed
        },
        CollectionInputMode::EditCollection => match editing {
            Some(id) => if text.len() > 0 {
                RequestView::Rename(id, text)
            } else {
                RequestView::Closed
            },
            None => RequestView::Closed,
        },
        CollectionInputMode::AddToCollection => {
            let s = trim(text);
            let f = collections_matching(st.collections@, s);
            if popup < f.len() {
                match selected_text(st) {
                    Some(t) => RequestView::AddTo(t, f[popup as int].id@),
                    None => RequestView::Closed,
                }
            } else if s.len() > 0 && popup == f.len() {
                RequestView::CreateAndAdd(s, selected_text(st))
            } else {
                RequestView::Closed
            }
        },
        CollectionInputMode::AddToCollectionSearch => {
            let s = trim(text);
            let res = add_candidates(st, text);
            if search < res.len() {
                RequestView::AddByText(res[search as int].text)
            } else if s.len() > 0 && !has_lower(texts_of(res), lowercased(s)) {
                RequestView::AddByText(s)
            } else {
                RequestView::Closed
            }
        },
        CollectionInputMode::ConfirmDeleteCollection => match crate::picker::selected_collection_id(st) {
            Some(id) => RequestView::DeleteCollection(id),
            None => RequestView::Closed,
        },
        CollectionInputMode::ConfirmDeleteCommand => match crate::picker::selected_collection_id(st) {
            Some(id) => RequestView::RemoveFromCollection(text, id),
            None => RequestView::Closed,
        },
        CollectionInputMode::Idle => RequestView::Closed,
    }
}

/// Whether the picker shows an extra row after its list: "create" for a
/// collection name no listed collection has, ignoring case, or "add" for a
/// search text no offered command has.
pub open spec fn offers_extra_row(d: DialogView, st: AppState) -> bool {
    let (mode, text, popup, search, editing) = d;
    match mode {
        CollectionInputMode::AddToCollection => text.len() > 0 && !has_lower(
            names_of(collections_matching(st.collections@, text)),
            lowercased(text),
        ),
        CollectionInputMode::AddToCollectionSearch => {
            let s = trim(text);
            s.len() > 0 && !has_lower(texts_of(add_candidates(st, text)), lowercased(s))
        },
        _ => false,
    }
}

/// What a key does to the dialog, and what it asks of storage.
pub open spec fn dialog_step(d: DialogView, st: AppState, key: KeyEvent) -> (DialogView, RequestView) {
    let (mode, text, popup, search, editing) = d;
    let dropped = if text.len() > 0 {
        text.drop_last()
    } else {
        text
    };
    match key.code {
        KeyCode::Char(c) => if key.modifiers == no_mods() {
            (
                (
                    mode,
                    text.push(c),
                    if mode == CollectionInputMode::AddToCollection {
                        0
                    } else {
                        popup
                    },
                    if mode == CollectionInputMode::AddToCollectionSearch {
                        0
                    } else {
                        search
                    },
                    editing,
                ),
                RequestView::Stay,
            )
        } else {
            (d, RequestView::Stay)
        },
        KeyCode::Backspace => (
            match mode {
                CollectionInputMode::AddToCollection => if text.len() > 0 {
                    (mode, dropped, if popup >= 1 {
                        (popup - 1) as usize
                    } else {
                        0
                    }, search, editing)
                } else {
                    d
                },
                CollectionInputMode::AddToCollectionSearch => if text.len() > 0 {
                    (mode, dropped, popup, 0, editing)
                } else {
                    d
                },
                _ => (mode, dropped, popup, search, editing),
            },
            RequestView::Stay,
        ),
        KeyCode::Up => (
            match mode {
                CollectionInputMode::AddToCollection => (mode, text, if popup >= 1 {
                    (popup - 1) as usize
                } else {
                    0
                }, search, editing),
                CollectionInputMode::AddToCollectionSearch => (mode, text, popup, if search >= 1 {
                    (search - 1) as usize
                } else {
                    0
                }, editing),
                _ => d,
            },
            RequestView::Stay,
        ),
        KeyCode::Down => (
            match mode {
                CollectionInputMode::AddToCollection => {
                    let f = collections_matching(st.collections@, text);
                    let create = text.len() > 0 && !has_lower(names_of(f), lowercased(text));
                    (mode, text, step_down(popup, last_pick(f.len(), create)), search, editing)
                },
                CollectionInputMode::AddToCollectionSearch => {
                    let res = add_candidates(st, text);
                    let s = trim(text);
                    let create = s.len() > 0 && !has_lower(texts_of(res), lowercased(s));
                    (mode, text, popup, step_down(search, last_pick(res.len(), create)), editing)
                },
                _ => d,
            },
            RequestView::Stay,
        ),
        KeyCode::Enter => (closed_view(d), enter_request(d, st)),
        KeyCode::Esc => (closed_view(d), RequestView::Closed),
        _ => (d, RequestView::Stay),
    }
}

fn any_name_lower(cs: &Vec<&Collection>, l: &str) -> (r: bool)
    ensures
        r == has_lower(names_of(derefs(cs@)), l@),
{
    let ghost ns = names_of(derefs(cs@));
    let mut i: usize = 0;
    while i < cs.len()
        invariant
            i <= cs@.len(),
            ns == names_of(derefs(cs@)),
            forall|j: int| 0 <= j < i ==> lowercased(#[trigger] ns[j]) != l@,
        decreases cs.len() - i,
    {
        let lower = to_lowercase(cs[i].name.as_str());
        if str_eq(lower.as_str(), l) {
            assert(lowercased(ns[i as int]) == l@);
            return true;
        }
        i += 1;
    }
    false
}

fn any_text_lower(cs: &Vec<&crate::state::Command>, l: &str) -> (r: bool)
    ensures
        r == has_lower(texts_of(command_refs(cs@)), l@),
{
    let ghost ns = texts_of(command_refs(cs@));
    let mut i: usize = 0;
    while i < cs.len()
        invariant
            i <= cs@.len(),
            ns == texts_of(command_refs(cs@)),
            forall|j: int| 0 <= j < i ==> lowercased(#[trigger] ns[j]) != l@,
        decreases cs.len() - i,
    {
        let lower = to_lowercase(cs[i].text.as_str());
        if str_eq(lower.as_str(), l) {
            assert(lowercased(ns[i as int]) == l@);
            return true;
        }
        i += 1;
    }
    false
}

impl CollectionDialog {
    /// No dialog open.
    pub fn new() -> (r: CollectionDialog)
        ensures
            dialog_view(r) == (CollectionInputMode::Idle, Seq::<char>::empty(), 0usize, 0usize, None::<
                Seq<char>,
            >),
    {
        CollectionDialog {
            mode: CollectionInputMode::Idle,
            text: String::new(),
            popup_index: 0,
            search_index: 0,
            editing_id: None,
        }
    }

    /// Opens the dialog in `mode` with nothing typed and the first rows
    /// highlighted; `editing` names the collection a rename is for.
    pub fn begin(&mut self, mode: CollectionInputMode, editing: Option<String>, text: String)
        ensures
            dialog_view(*final(self)) == (mode, text@, 0usize, 0usize, opt_text(editing)),
    {
        self.mode = mode;
        self.text = text;
        self.popup_index = 0;
        self.search_index = 0;
        self.editing_id = editing;
    }

    fn drop_last_char(&mut self)
        ensures
            final(self).text@ == (if old(self).text@.len() > 0 {
                old(self).text@.drop_last()
            } else {
                old(self).text@
            }),
            final(self).mode == old(self).mode,
            final(self).popup_index == old(self).popup_index,
            final(self).search_index == old(self).search_index,
            final(self).editing_id == old(self).editing_id,
    {
        let ghost before = self.text@;
        let mut chars = crate::text::chars_of(self.text.as_str());
        chars.pop();
        self.text = crate::text::string_of(chars.as_slice());
        assert(self.text@ =~= (if before.len() > 0 {
            before.drop_last()
        } else {
            before
        }));
    }

    fn close(&mut self)
        ensures
            dialog_view(*final(self)) == closed_view(dialog_view(*old(self))),
    {
        self.mode = CollectionInputMode::Idle;
        self.text = String::new();
        self.editing_id = None;
        self.search_index = 0;
    }

    fn enter(&self, st: &AppState) -> (r: DialogRequest)
        ensures
            request_view(r) == enter_request(dialog_view(*self), *st),
    {
        match self.mode {
            CollectionInputMode::NewCollection => {
                if self.text.as_str().is_empty() {
                    DialogRequest::Closed
                } else {
                    DialogRequest::Create { name: self.text.clone() }
                }
            },
            CollectionInputMode::EditCollection => match &self.editing_id {
                Some(id) => {
                    if self.text.as_str().is_empty() {
                        DialogRequest::Closed
                    } else {
                        DialogRequest::Rename { id: id.clone(), name: self.text.clone() }
                    }
                },
                None => DialogRequest::Closed,
            },
            CollectionInputMode::AddToCollection => {
                let s = trim_str(self.text.as_str());
                let selected = match st.active_command() {
                    Some(c) => Some(c.text.clone()),
                    None => None,
                };
                let f = st.filtered_collections(s.as_str());
                if self.popup_index < f.len() {
                    match selected {
                        Some(t) => DialogRequest::AddTo { text: t, id: f[self.popup_index].id.clone() },
                        None => DialogRequest::Closed,
                    }
                } else if !s.as_str().is_empty() && self.popup_index == f.len() {
                    DialogRequest::CreateAndAdd { name: s, text: selected }
                } else {
                    DialogRequest::Closed
                }
            },
            CollectionInputMode::AddToCollectionSearch => {
                let s = trim_str(self.text.as_str());
                let res = st.search_results_for_add_command(self.text.as_str());
                if self.search_index < res.len() {
                    DialogRequest::AddByText { text: res[self.search_index].text.clone() }
                } else {
                    let lower = to_lowercase(s.as_str());
                    if !s.as_str().is_empty() && !any_text_lower(&res, lower.as_str()) {
                        DialogRequest::AddByText { text: s }
                    } else {
                        DialogRequest::Closed
                    }
                }
            },
            CollectionInputMode::ConfirmDeleteCollection => match st.selected_collection() {
                Some(c) => DialogRequest::DeleteCollection { id: c.id.clone() },
                None => DialogRequest::Closed,
            },
            CollectionInputMode::ConfirmDeleteCommand => match st.selected_collection() {
                Some(c) => DialogRequest::RemoveFromCollection { text: self.text.clone(), id: c.id.clone() },
                None => DialogRequest::Closed,
            },
            CollectionInputMode::Idle => DialogRequest::Closed,
        }
    }

    /// Whether the dialog shows its extra "create" or "add" row, with `st`
    /// the picker behind it.
    pub fn shows_extra_row(&self, st: &AppState) -> (r: bool)
        ensures
            r == offers_extra_row(dialog_view(*self), *st),
    {
        match self.mode {
            CollectionInputMode::AddToCollection => {
                let f = st.filtered_collections(self.text.as_str());
                let lower = to_lowercase(self.text.as_str());
                !self.text.as_str().is_empty() && !any_name_lower(&f, lower.as_str())
            },
            CollectionInputMode::AddToCollectionSearch => {
                let res = st.search_results_for_add_command(self.text.as_str());
                let s = trim_str(self.text.as_str());
                let lower = to_lowercase(s.as_str());
                !s.as_str().is_empty() && !any_text_lower(&res, lower.as_str())
            },
            _ => false,
        }
    }

    /// Handles a key while the dialog is open, with `st` the picker behind
    /// it.
    pub fn handle_key(&mut self, st: &AppState, key: KeyEvent) -> (r: DialogRequest)
        requires
            key.code == KeyCode::Down ==> old(self).popup_index < usize::MAX && old(self).search_index
                < usize::MAX,
        ensures
            (dialog_view(*final(self)), request_view(r)) == dialog_step(dialog_view(*old(self)), *st, key),
    {
        match key.code {
            KeyCode::Char(c) => {
                if key.modifiers == crate::keymap::keys::KeyModifiers::none() {
                    push_char(&mut self.text, c);
                    if self.mode == CollectionInputMode::AddToCollection {
                        self.popup_index = 0;
                    }
                    if self.mode == CollectionInputMode::AddToCollectionSearch {
                        self.search_index = 0;
                    }
                }
                DialogRequest::Stay
            },
            KeyCode::Backspace => {
                match self.mode {
                    CollectionInputMode::AddToCollection => {
                        if !self.text.as_str().is_empty() {
                            self.drop_last_char();
                            self.popup_index = if self.popup_index >= 1 {
                                self.popup_index - 1
                            } else {
                                0
                            };
                        }
                    },
                    CollectionInputMode::AddToCollectionSearch => {
                        if !self.text.as_str().is_empty() {
                            self.drop_last_char();
                            self.search_index = 0;
                        }
                    },
                    _ => {
                        self.drop_last_char();
                    },
                }
                DialogRequest::Stay
            },
            KeyCode::Up => {
                match self.mode {
                    CollectionInputMode::AddToCollection => {
                        self.popup_index = if self.popup_index >= 1 {
                            self.popup_index - 1
                        } else {
                            0
                        };
                    },
                    CollectionInputMode::AddToCollectionSearch => {
                        self.search_index = if self.search_index >= 1 {
                            self.search_index - 1
                        } else {
                            0
                        };
                    },
                    _ => {},
                }
                DialogRequest::Stay
            },
            KeyCode::Down => {
                match self.mode {
                    CollectionInputMode::AddToCollection => {
                        let f = st.filtered_collections(self.text.as_str());
                        let lower = to_lowercase(self.text.as_str());
                        let create = !self.text.as_str().is_empty() && !any_name_lower(&f, lower.as_str());
                        let last = if create {
                            f.len()
                        } else if f.len() == 0 {
                            0
                        } else {
                            f.len() - 1
                        };
                        self.popup_index = if self.popup_index + 1 <= last {
                            self.popup_index + 1
                        } else {
                            last
                        };
                    },
                    CollectionInputMode::AddToCollectionSearch => {
                        let res = st.search_results_for_add_command(self.text.as_str());
                        let s = trim_str(self.text.as_str());
                        let lower = to_lowercase(s.as_str());
                        let create = !s.as_str().is_empty() && !any_text_lower(&res, lower.as_str());
                        let last = if create {
                            res.len()
                        } else if res.len() == 0 {
                            0
                        } else {
                            res.len() - 1
                        };
                        self.search_index = if self.search_index + 1 <= last {
                            self.search_index + 1
                        } else {
                            last
                        };
                    },
                    _ => {},
                }
                DialogRequest::Stay
            },
            KeyCode::Enter => {
                let r = self.enter(st);
                self.close();
                r
            },
            KeyCode::Esc => {
                self.close();
                DialogRequest::Closed
            },
            _ => DialogRequest::Stay,
        }
    }
}

/// The first collection whose name is `name`, ignoring case.
pub open spec fn first_named(cs: Seq<Collection>, name: Seq<char>) -> Option<int>
    decreases cs.len(),
{
    if cs.len() == 0 {
        None
    } else {
        match first_named(cs.drop_last(), name) {
            Some(i) => Some(i),
            None => if lowercased(cs.last().name@) == lowercased(name) {
                Some(cs.len() - 1)
            } else {
                None
            },
        }
    }
}

impl AppState {
    /// The id of the first collection called `name`, ignoring case.
    pub fn collection_named(&self, name: &str) -> (r: Option<String>)
        ensures
            match first_named(self.collections@, name@) {
                Some(i) => r is Some && (r->0)@ == self.collections@[i].id@,
                None => r is None,
            },
    {
        let lower = to_lowercase(name);
        let mut i: usize = 0;
        while i < self.collections.len()
            invariant
                i <= self.collections@.len(),
                lower@ == lowercased(name@),
                first_named(self.collections@.take(i as int), name@) is None,
            decreases self.collections.len() - i,
        {
            let ghost cs = self.collections@;
            assert(cs.take(i + 1).drop_last() =~= cs.take(i as int));
            let l = to_lowercase(self.collections[i].name.as_str());
            if str_eq(l.as_str(), lower.as_str()) {
                proof {
                    lemma_first_named_prefix(cs, name@, i as int + 1);
                }
                return Some(self.collections[i].id.clone());
            }
            i += 1;
        }
        assert(self.collections@.take(self.collections@.len() as int) =~= self.collections@);
        None
    }
}

/// A match found in a prefix is the match of the whole list.
proof fn lemma_first_named_prefix(cs: Seq<Collection>, name: Seq<char>, k: int)
    requires
        0 <= k <= cs.len(),
        first_named(cs.take(k), name) is Some,
    ensures
        first_named(cs, name) == first_named(cs.take(k), name),
    decreases cs.len() - k,
{
    if k < cs.len() {
        assert(cs.take(k + 1).drop_last() =~= cs.take(k));
        lemma_first_named_prefix(cs, name, k + 1);
    } else {
        assert(cs.take(k) =~= cs);
    }
}

} // verus!
