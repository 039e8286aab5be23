//! The keys of the tag editor: moving between the selected command's tags,
//! typing a new one, taking a suggestion, and deciding what to save.
use vstd::prelude::*;
use crate::history::dedup::{lemma_str_lt_irrefl, lemma_str_lt_trans, str_less, str_lt};
use crate::keymap::action::KeyAction;
use crate::picker::{tag_suggestions, with_tag_applied, AppState};
use crate::state::{command_views, InputMode};
use crate::text::{str_eq, to_lowercase, trim, trim_str, lowercased, views};

verus! {

/// `x` placed before the first text that sorts after it.
pub open spec fn insert_text(s: Seq<Seq<char>>, x: Seq<char>) -> Seq<Seq<char>>
    decreases s.len(),
{
    if s.len() == 0 {
        seq![x]
    } else if str_lt(x, s[0]) {
        seq![x] + s
    } else {
        seq![s[0]] + insert_text(s.drop_first(), x)
    }
}

/// The texts in ascending order, the order `sort` gives a `Vec<String>`.
pub open spec fn sorted_texts(s: Seq<Seq<char>>) -> Seq<Seq<char>>
    decreases s.len(),
{
    if s.len() == 0 {
        s
    } else {
        insert_text(sorted_texts(s.drop_last()), s.last())
    }
}

proof fn lemma_insert_text_at(s: Seq<Seq<char>>, x: Seq<char>, p: int)
    requires
        0 <= p <= s.len(),
        forall|j: int| 0 <= j < p ==> !str_lt(x, #[trigger] s[j]),
        p < s.len() ==> str_lt(x, s[p]),
    ensures
        insert_text(s, x) == s.take(p) + seq![x] + s.skip(p),
    decreases s.len(),
{
    if s.len() == 0 {
        assert(s.take(p) + seq![x] + s.skip(p) =~= seq![x]);
    } else if p == 0 {
        assert(s.take(0) + seq![x] + s.skip(0) =~= seq![x] + s);
    } else {
        let t = s.drop_first();
        assert forall|j: int| 0 <= j < p - 1 implies !str_lt(x, #[trigger] t[j]) by {
            assert(t[j] == s[j + 1]);
        }
        if p - 1 < t.len() {
            assert(t[p - 1] == s[p]);
        }
        lemma_insert_text_at(t, x, p - 1);
        assert(seq![s[0]] + (t.take(p - 1) + seq![x] + t.skip(p - 1)) =~= s.take(p) + seq![x]
            + s.skip(p));
    }
}

/// No text sorts before one ahead of it.
pub open spec fn ascending_texts(s: Seq<Seq<char>>) -> bool {
    forall|i: int, j: int| 0 <= i < j < s.len() ==> !str_lt((#[trigger] s[j]), (#[trigger] s[i]))
}

proof fn lemma_text_insert_keeps_order(s: Seq<Seq<char>>, x: Seq<char>)
    requires
        ascending_texts(s),
    ensures
        ascending_texts(insert_text(s, x)),
        insert_text(s, x).to_multiset() == s.to_multiset().insert(x),
    decreases s.len(),
{
    broadcast use vstd::seq_lib::group_to_multiset_ensures;
    broadcast use vstd::multiset::group_multiset_axioms;

    let r = insert_text(s, x);
    if s.len() == 0 {
        assert(r == s.insert(0, x));
    } else if str_lt(x, s[0]) {
        assert(r == s.insert(0, x));
        assert forall|i: int, j: int| 0 <= i < j < r.len() implies !str_lt(
            (#[trigger] r[j]),
            (#[trigger] r[i]),
        ) by {
            if i > 0 {
                assert(r[i] == s[i - 1] && r[j] == s[j - 1]);
            } else {
                assert(r[j] == s[j - 1]);
                if str_lt(s[j - 1], x) {
                    lemma_str_lt_trans(s[j - 1], x, s[0]);
                    if j - 1 == 0 {
                        lemma_str_lt_irrefl(s[0]);
                    }
                }
            }
        }
    } else {
        let t = s.drop_first();
        assert forall|i: int, j: int| 0 <= i < j < t.len() implies !str_lt(
            (#[trigger] t[j]),
            (#[trigger] t[i]),
        ) by {
            assert(t[i] == s[i + 1] && t[j] == s[j + 1]);
        }
        lemma_text_insert_keeps_order(t, x);
        let rt = insert_text(t, x);
        assert(r == rt.insert(0, s[0]));
        assert(s == t.insert(0, s[0]));
        assert(r.to_multiset() =~= s.to_multiset().insert(x));
        assert forall|j: int| 0 <= j < rt.len() implies !str_lt((#[trigger] rt[j]), s[0]) by {
            assert(rt.contains(rt[j]));
            assert(rt.to_multiset().count(rt[j]) > 0);
            if rt[j] != x {
                assert(t.to_multiset().count(rt[j]) > 0);
                assert(t.contains(rt[j]));
                let m = choose|m: int| 0 <= m < t.len() && t[m] == rt[j];
                assert(s[m + 1] == rt[j]);
            }
        }
        assert forall|i: int, j: int| 0 <= i < j < r.len() implies !str_lt(
            (#[trigger] r[j]),
            (#[trigger] r[i]),
        ) by {
            if i == 0 {
                assert(r[j] == rt[j - 1]);
            } else {
                assert(r[i] == rt[i - 1] && r[j] == rt[j - 1]);
            }
        }
    }
}

/// Sorting puts the texts in ascending order and keeps every one of them, as often as it occurs.
pub proof fn law_sorted_texts_ascending(s: Seq<Seq<char>>)
    ensures
        ascending_texts(sorted_texts(s)),
        sorted_texts(s).to_multiset() == s.to_multiset(),
    decreases s.len(),
{
    broadcast use vstd::seq_lib::group_to_multiset_ensures;

    if s.len() > 0 {
        law_sorted_texts_ascending(s.drop_last());
        lemma_text_insert_keeps_order(sorted_texts(s.drop_last()), s.last());
        assert(s == s.drop_last().push(s.last()));
    }
}

/// Sorts texts in ascending order.
pub fn sort_texts(v: Vec<String>) -> (r: Vec<String>)
    ensures
        views(r@) == sorted_texts(views(v@)),
{
    let ghost orig = views(v@);
    let mut out: Vec<String> = Vec::new();
    let mut i: usize = 0;
    while i < v.len()
        invariant
            i <= v@.len(),
            orig == views(v@),
            views(out@) == sorted_texts(orig.take(i as int)),
        decreases v.len() - i,
    {
        let x = v[i].clone();
        assert(orig.take(i + 1).drop_last() =~= orig.take(i as int));
        assert(orig.take(i + 1).last() == x@);
        let ghost s = views(out@);
        let mut p: usize = 0;
        while p < out.len() && !str_less(x.as_str(), out[p].as_str())
            invariant
                p <= out@.len(),
                views(out@) == s,
                forall|j: int| 0 <= j < p ==> !str_lt(x@, #[trigger] s[j]),
            decreases out@.len() - p,
        {
            assert(s[p as int] == out@[p as int]@);
            p += 1;
        }
        proof {
            if p < out@.len() {
                assert(s[p as int] == out@[p as int]@);
            }
            lemma_insert_text_at(s, x@, p as int);
        }
        let ghost xv = x@;
        out.insert(p, x);
        assert(views(out@) =~= s.take(p as int) + seq![xv] + s.skip(p as int));
        i += 1;
    }
    assert(orig.take(v@.len() as int) =~= orig);
    out
}

/// Whether one of `tags` is `l` once lowercased.
pub open spec fn has_lower(tags: Seq<Seq<char>>, l: Seq<char>) -> bool {
    exists|j: int| 0 <= j < tags.len() && lowercased(#[trigger] tags[j]) == l
}

/// The tag editor's state: the typed text, the tag chip the cursor is on,
/// the highlighted suggestion and the input mode; and the tags to save, when
/// a key changes the selected command's tags.
pub type TagStep = (Seq<char>, Option<usize>, usize, InputMode, Option<Seq<Seq<char>>>);

/// What a key does in the tag editor, given the selected command's `tags`,
/// the `suggestions` for what is typed, and the editor's state.
pub open spec fn tag_step(
    tags: Seq<Seq<char>>,
    suggestions: Seq<Seq<char>>,
    input: Seq<char>,
    cursor: Option<usize>,
    sel: usize,
    mode: InputMode,
    action: KeyAction,
) -> TagStep {
    let keep = (input, cursor, sel, mode, None);
    match action {
        KeyAction::CursorLeft => if tags.len() > 0 {
            (input, Some(match cursor {
                Some(i) => if i == 0 {
                    (tags.len() - 1) as usize
                } else {
                    (i - 1) as usize
                },
                None => (tags.len() - 1) as usize,
            }), sel, mode, None)
        } else {
            keep
        },
        KeyAction::CursorRight => match cursor {
            Some(i) => (input, Some(if i + 1 >= tags.len() {
                0
            } else {
                (i + 1) as usize
            }), sel, mode, None),
            None => keep,
        },
        KeyAction::DeleteCharBackward => match cursor {
            Some(i) => if i < tags.len() {
                let rest = tags.remove(i as int);
                let n = rest.len();
                (input, if n == 0 {
                    None
                } else if i >= n {
                    Some((n - 1) as usize)
                } else {
                    Some(i)
                }, sel, mode, Some(rest))
            } else {
                keep
            },
            None => if input.len() == 0 {
                if tags.len() > 0 {
                    (input, Some((tags.len() - 1) as usize), sel, mode, None)
                } else {
                    keep
                }
            } else {
                (input.drop_last(), cursor, 0, mode, None)
            },
        },
        KeyAction::KillLine => (Seq::empty(), None, 0, mode, None),
        KeyAction::AcceptSuggestion => if cursor is None && sel < suggestions.len() {
            (with_tag_applied(input, suggestions[sel as int]), cursor, 0, mode, None)
        } else {
            keep
        },
        KeyAction::NavigateUp => (input, cursor, if sel == 0 {
            0
        } else {
            (sel - 1) as usize
        }, mode, None),
        KeyAction::NavigateDown => {
            let t = trim(input);
            let create = t.len() > 0 && !has_lower(suggestions, lowercased(t));
            let max = if create {
                suggestions.len()
            } else if suggestions.len() == 0 {
                0
            } else {
                (suggestions.len() - 1) as nat
            };
            (input, cursor, if sel + 1 <= max {
                (sel + 1) as usize
            } else {
                max as usize
            }, mode, None)
        },
        KeyAction::Confirm => {
            let t = trim(input);
            if t.len() == 0 {
                (Seq::empty(), None, 0, InputMode::Normal, None)
            } else {
                let new_tag = if sel < suggestions.len() {
                    Some(suggestions[sel as int])
                } else if !has_lower(suggestions, lowercased(t)) {
                    Some(t)
                } else {
                    None
                };
                let save = match new_tag {
                    Some(tag) => if tags.contains(tag) {
                        None
                    } else {
                        Some(sorted_texts(tags.push(tag)))
                    },
                    None => None,
                };
                (Seq::empty(), None, 0, InputMode::Normal, save)
            }
        },
        _ => keep,
    }
}

/// Whether the tag editor offers to create the typed tag: something is
/// typed and no suggestion is that tag, ignoring case.
pub open spec fn offers_new_tag(suggestions: Seq<Seq<char>>, input: Seq<char>) -> bool {
    let t = trim(input);
    t.len() > 0 && !has_lower(suggestions, lowercased(t))
}

/// The tags of the selected command, as the editor shows them.
pub open spec fn shown_tags(st: AppState) -> Seq<Seq<char>> {
    if st.selected_index < st.filtered@.len() {
        st.filtered@[st.selected_index as int]@.tags
    } else {
        Seq::empty()
    }
}

pub open spec fn opt_views(v: Option<Vec<String>>) -> Option<Seq<Seq<char>>> {
    match v {
        Some(x) => Some(views(x@)),
        None => None,
    }
}

fn has_lowercase(tags: &Vec<String>, l: &str) -> (r: bool)
    ensures
        r == has_lower(views(tags@), l@),
{
    let mut i: usize = 0;
    while i < tags.len()
        invariant
            i <= tags@.len(),
            forall|j: int| 0 <= j < i ==> lowercased(#[trigger] views(tags@)[j]) != l@,
        decreases tags.len() - i,
    {
        let lower = to_lowercase(tags[i].as_str());
        if str_eq(lower.as_str(), l) {
            assert(lowercased(views(tags@)[i as int]) == l@);
            return true;
        }
        i += 1;
    }
    false
}

fn holds_text(tags: &Vec<String>, t: &str) -> (r: bool)
    ensures
        r == views(tags@).contains(t@),
{
    let mut i: usize = 0;
    while i < tags.len()
        invariant
            i <= tags@.len(),
            forall|j: int| 0 <= j < i ==> views(tags@)[j] != t@,
        decreases tags.len() - i,
    {
        if str_eq(tags[i].as_str(), t) {
            assert(views(tags@)[i as int] == t@);
            return true;
        }
        i += 1;
    }
    false
}

impl AppState {
    /// Whether the tag editor shows its "create" row after the suggestions.
    pub fn tag_offers_create(&self) -> (r: bool)
        ensures
            r == offers_new_tag(
                tag_suggestions(command_views(self.commands@), self.tag_input@),
                self.tag_input@,
            ),
    {
        let suggestions = self.filtered_tags();
        let typed = trim_str(self.tag_input.as_str());
        let lower = to_lowercase(typed.as_str());
        !typed.as_str().is_empty() && !has_lowercase(&suggestions, lower.as_str())
    }

    /// Types `c` into the tag editor, leaving the tag chips.
    pub fn tag_insert_char(&mut self, c: char)
        ensures
            final(self).tag_input@ == old(self).tag_input@.push(c),
            *final(self) == (AppState {
                tag_input: final(self).tag_input,
                tag_cursor_index: None,
                ..*old(self)
            }),
    {
        self.tag_cursor_index = None;
        crate::text::push_char(&mut self.tag_input, c);
    }

    /// Runs a key of the tag editor. Gives the tags the selected command is
    /// to have when the key changes them; saving them is the caller's part.
    pub fn tag_dispatch(&mut self, action: KeyAction) -> (r: Option<Vec<String>>)
        requires
            action == KeyAction::NavigateDown ==> old(self).tag_selected_index < usize::MAX,
        ensures
            ({
                let step = tag_step(
                    shown_tags(*old(self)),
                    tag_suggestions(command_views(old(self).commands@), old(self).tag_input@),
                    old(self).tag_input@,
                    old(self).tag_cursor_index,
                    old(self).tag_selected_index,
                    old(self).input_mode,
                    action,
                );
                &&& final(self).tag_input@ == step.0
                &&& final(self).tag_cursor_index == step.1
                &&& final(self).tag_selected_index == step.2
                &&& final(self).input_mode == step.3
                &&& opt_views(r) == step.4
            }),
            *final(self) == (AppState {
                tag_input: final(self).tag_input,
                tag_cursor_index: final(self).tag_cursor_index,
                tag_selected_index: final(self).tag_selected_index,
                input_mode: final(self).input_mode,
                ..*old(self)
            }),
    {
        let ghost sugg = tag_suggestions(command_views(self.commands@), self.tag_input@);
        match action {
            KeyAction::CursorLeft => {
                let tags = self.selected_command_tags();
                if tags.len() > 0 {
                    self.tag_cursor_index = Some(match self.tag_cursor_index {
                        Some(i) => if i == 0 {
                            tags.len() - 1
                        } else {
                            i - 1
                        },
                        None => tags.len() - 1,
                    });
                }
                None
            },
            KeyAction::CursorRight => {
                let tags = self.selected_command_tags();
                if let Some(i) = self.tag_cursor_index {
                    self.tag_cursor_index = Some(if i >= tags.len() || i + 1 >= tags.len() {
                        0
                    } else {
                        i + 1
                    });
                }
                None
            },
            KeyAction::DeleteCharBackward => {
                if let Some(i) = self.tag_cursor_index {
                    let mut tags = self.selected_command_tags();
                    if i < tags.len() {
                        let ghost before = views(tags@);
                        tags.remove(i);
                        assert(views(tags@) =~= before.remove(i as int));
                        let n = tags.len();
                        self.tag_cursor_index = if n == 0 {
                            None
                        } else if i >= n {
                            Some(n - 1)
                        } else {
                            Some(i)
                        };
                        return Some(tags);
                    }
                    None
                } else if self.tag_input.as_str().is_empty() {
                    let tags = self.selected_command_tags();
                    if tags.len() > 0 {
                        self.tag_cursor_index = Some(tags.len() - 1);
                    }
                    None
                } else {
                    let ghost before = self.tag_input@;
                    let mut chars = crate::text::chars_of(self.tag_input.as_str());
                    chars.pop();
                    self.tag_input = crate::text::string_of(chars.as_slice());
                    assert(self.tag_input@ =~= before.drop_last());
                    self.tag_selected_index = 0;
                    None
                }
            },
            KeyAction::KillLine => {
                self.tag_input = String::new();
                self.tag_selected_index = 0;
                self.tag_cursor_index = None;
                None
            },
            KeyAction::AcceptSuggestion => {
                let suggestions = self.filtered_tags();
                if self.tag_cursor_index.is_none() && self.tag_selected_index < suggestions.len() {
                    let tag = suggestions[self.tag_selected_index].clone();
                    self.apply_selected_tag(tag);
                    self.tag_selected_index = 0;
                }
                None
            },
            KeyAction::NavigateUp => {
                self.tag_selected_index = if self.tag_selected_index == 0 {
                    0
                } else {
                    self.tag_selected_index - 1
                };
                None
            },
            KeyAction::NavigateDown => {
                let suggestions = self.filtered_tags();
                let typed = trim_str(self.tag_input.as_str());
                let lower = to_lowercase(typed.as_str());
                let create = !typed.as_str().is_empty() && !has_lowercase(&suggestions, lower.as_str());
                let max = if create {
                    suggestions.len()
                } else if suggestions.len() == 0 {
                    0
                } else {
                    suggestions.len() - 1
                };
                let next = self.tag_selected_index + 1;
                self.tag_selected_index = if next <= max {
                    next
                } else {
                    max
                };
                None
            },
            KeyAction::Confirm => {
                let typed = trim_str(self.tag_input.as_str());
                let selected = self.tag_selected_index;
                let suggestions = self.filtered_tags();
                let mut save: Option<Vec<String>> = None;
                if !typed.as_str().is_empty() {
                    let lower = to_lowercase(typed.as_str());
                    let new_tag: Option<String> = if selected < suggestions.len() {
                        Some(suggestions[selected].clone())
                    } else if !has_lowercase(&suggestions, lower.as_str()) {
                        Some(typed)
                    } else {
                        None
                    };
                    if let Some(tag) = new_tag {
                        let mut tags = self.selected_command_tags();
                        if !holds_text(&tags, tag.as_str()) {
                            let ghost before = views(tags@);
                            let ghost tv = tag@;
                            tags.push(tag);
                            assert(views(tags@) =~= before.push(tv));
                            save = Some(sort_texts(tags));
                        }
                    }
                }
                self.tag_input = String::new();
                self.tag_cursor_index = None;
                self.input_mode = InputMode::Normal;
                self.tag_selected_index = 0;
                save
            },
            _ => None,
        }
    }
}

} // verus!
