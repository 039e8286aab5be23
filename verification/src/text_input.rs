//! A single-line text buffer with a real cursor.
//!
//! The model is the line as a sequence of characters and the cursor as the
//! number of characters before it. The byte offset `cursor` reports is
//! derived from that, so it always lands on a character boundary.
use vstd::prelude::*;
use crate::text::{chars_of, string_of, slice_to_vec};

verus! {

/// Bytes `c` takes in UTF-8.
pub open spec fn char_utf8_len(c: char) -> nat {
    let u = c as u32;
    if u < 0x80 {
        1
    } else if u < 0x800 {
        2
    } else if u < 0x10000 {
        3
    } else {
        4
    }
}

/// Bytes `s` takes in UTF-8.
pub open spec fn utf8_len(s: Seq<char>) -> nat
    decreases s.len(),
{
    if s.len() == 0 {
        0
    } else {
        utf8_len(s.drop_last()) + char_utf8_len(s.last())
    }
}

pub fn len_utf8(c: char) -> (n: usize)
    ensures
        n == char_utf8_len(c),
{
    let u = c as u32;
    if u < 0x80 {
        1
    } else if u < 0x800 {
        2
    } else if u < 0x10000 {
        3
    } else {
        4
    }
}

/// The model of a [`TextInput`]: the characters, and the cursor as a count
/// of characters before it.
pub struct LineModel {
    pub text: Seq<char>,
    pub cursor: nat,
}

pub open spec fn line_wf(m: LineModel) -> bool {
    m.cursor <= m.text.len()
}

pub open spec fn line_insert(m: LineModel, c: char) -> LineModel {
    LineModel { text: m.text.insert(m.cursor as int, c), cursor: m.cursor + 1 }
}

pub open spec fn line_backspace(m: LineModel) -> LineModel {
    if m.cursor == 0 {
        m
    } else {
        LineModel { text: m.text.remove(m.cursor - 1), cursor: (m.cursor - 1) as nat }
    }
}

pub open spec fn line_delete(m: LineModel) -> LineModel {
    if m.cursor < m.text.len() {
        LineModel { text: m.text.remove(m.cursor as int), cursor: m.cursor }
    } else {
        m
    }
}

pub open spec fn line_left(m: LineModel) -> LineModel {
    LineModel { text: m.text, cursor: if m.cursor == 0 { 0 } else { (m.cursor - 1) as nat } }
}

pub open spec fn line_right(m: LineModel) -> LineModel {
    LineModel {
        text: m.text,
        cursor: if m.cursor < m.text.len() { m.cursor + 1 } else { m.cursor },
    }
}

pub open spec fn line_kill_to_start(m: LineModel) -> LineModel {
    LineModel { text: m.text.skip(m.cursor as int), cursor: 0 }
}

#[derive(Debug)]
pub struct TextInput {
    value: Vec<char>,
    cursor: usize,
}

impl View for TextInput {
    type V = LineModel;

    closed spec fn view(&self) -> LineModel {
        LineModel { text: self.value@, cursor: self.cursor as nat }
    }
}

impl TextInput {
    #[verifier::type_invariant]
    spec fn inv(self) -> bool {
        self.cursor <= self.value.len()
    }

    /// Starts with the cursor at the end, which is where someone recalling a
    /// command wants it.
    pub fn new(value: &str) -> (r: Self)
        ensures
            r@.text == value@,
            r@.cursor == value@.len(),
    {
        let v = chars_of(value);
        let n = v.len();
        TextInput { value: v, cursor: n }
    }

    pub fn value(&self) -> (r: String)
        ensures
            r@ == self@.text,
    {
        string_of(self.value.as_slice())
    }

    /// Byte offset of the cursor: the UTF-8 length of the text before it.
    pub fn cursor(&self) -> (r: usize)
        requires
            utf8_len(self@.text.take(self@.cursor as int)) <= usize::MAX,
        ensures
            r == utf8_len(self@.text.take(self@.cursor as int)),
    {
        proof {
            use_type_invariant(self);
        }
        let mut total: usize = 0;
        let mut i: usize = 0;
        assert(self.value@.take(0) =~= Seq::<char>::empty());
        while i < self.cursor
            invariant
                i <= self.cursor <= self.value.len(),
                total == utf8_len(self.value@.take(i as int)),
                utf8_len(self.value@.take(self.cursor as int)) <= usize::MAX,
            decreases self.cursor - i,
        {
            assert(self.value@.take(i + 1).drop_last() =~= self.value@.take(i as int));
            proof {
                lemma_utf8_len_prefix_le(self.value@.take(self.cursor as int), i + 1);
                assert(self.value@.take(self.cursor as int).take(i + 1) =~= self.value@.take(
                    i + 1,
                ));
            }
            total = total + len_utf8(self.value[i]);
            i += 1;
        }
        total
    }

    pub fn is_empty(&self) -> (r: bool)
        ensures
            r == (self@.text.len() == 0),
    {
        self.value.len() == 0
    }

    /// Replaces the whole line, cursor to the end — what coming back from an
    /// external editor does.
    pub fn set_value(&mut self, value: &str)
        ensures
            final(self)@.text == value@,
            final(self)@.cursor == value@.len(),
    {
        let v = chars_of(value);
        let n = v.len();
        *self = TextInput { value: v, cursor: n };
    }

    pub fn clear(&mut self)
        ensures
            final(self)@.text == Seq::<char>::empty(),
            final(self)@.cursor == 0,
    {
        *self = TextInput { value: Vec::new(), cursor: 0 };
    }

    pub fn insert(&mut self, c: char)
        ensures
            final(self)@ == line_insert(old(self)@, c),
    {
        proof {
            use_type_invariant(&*self);
        }
        let mut v = self.value.clone();
        assert(v@ =~= self.value@);
        v.insert(self.cursor, c);
        assert(v@.len() == self.value@.len() + 1);
        assert(v.len() == v@.len());
        let k = self.cursor + 1;
        *self = TextInput { value: v, cursor: k };
    }

    /// Deletes the character before the cursor.
    pub fn backspace(&mut self)
        ensures
            final(self)@ == line_backspace(old(self)@),
    {
        proof {
            use_type_invariant(&*self);
        }
        if self.cursor == 0 {
            return;
        }
        let mut v = self.value.clone();
        assert(v@ =~= self.value@);
        let k = self.cursor - 1;
        v.remove(k);
        *self = TextInput { value: v, cursor: k };
    }

    /// Deletes the character under the cursor; a no-op at the end.
    pub fn delete(&mut self)
        ensures
            final(self)@ == line_delete(old(self)@),
    {
        proof {
            use_type_invariant(&*self);
        }
        if self.cursor < self.value.len() {
            let mut v = self.value.clone();
            assert(v@ =~= self.value@);
            let k = self.cursor;
            v.remove(k);
            *self = TextInput { value: v, cursor: k };
        }
    }

    pub fn left(&mut self)
        ensures
            final(self)@ == line_left(old(self)@),
    {
        proof {
            use_type_invariant(&*self);
        }
        if self.cursor > 0 {
            self.cursor = self.cursor - 1;
        }
    }

    pub fn right(&mut self)
        ensures
            final(self)@ == line_right(old(self)@),
    {
        if self.cursor < self.value.len() {
            self.cursor = self.cursor + 1;
        }
    }

    pub fn home(&mut self)
        ensures
            final(self)@.text == old(self)@.text,
            final(self)@.cursor == 0,
    {
        self.cursor = 0;
    }

    pub fn end(&mut self)
        ensures
            final(self)@.text == old(self)@.text,
            final(self)@.cursor == old(self)@.text.len(),
    {
        self.cursor = self.value.len();
    }

    /// Ctrl+U: drops everything before the cursor.
    pub fn kill_to_start(&mut self)
        ensures
            final(self)@ == line_kill_to_start(old(self)@),
    {
        proof {
            use_type_invariant(&*self);
        }
        let v = slice_to_vec(self.value.as_slice(), self.cursor, self.value.len());
        assert(v@ =~= self.value@.skip(self.cursor as int));
        *self = TextInput { value: v, cursor: 0 };
    }

    /// Display columns before the cursor: the characters before it.
    pub fn cursor_col(&self) -> (r: usize)
        ensures
            r == self@.cursor,
    {
        self.cursor
    }
}

pub proof fn lemma_utf8_len_prefix_le(s: Seq<char>, i: int)
    requires
        0 <= i <= s.len(),
    ensures
        utf8_len(s.take(i)) <= utf8_len(s),
    decreases s.len(),
{
    if i < s.len() {
        assert(s.drop_last().take(i) =~= s.take(i));
        lemma_utf8_len_prefix_le(s.drop_last(), i);
    } else {
        assert(s.take(i) =~= s);
    }
}

/// Typing a character and deleting it again restores the line exactly.
pub proof fn law_insert_then_backspace(m: LineModel, c: char)
    requires
        line_wf(m),
    ensures
        line_backspace(line_insert(m, c)) == m,
{
    assert(m.text.insert(m.cursor as int, c).remove(m.cursor as int) =~= m.text);
}

/// Every edit keeps the cursor within the line.
pub proof fn law_edits_keep_cursor_in_line(m: LineModel, c: char)
    requires
        line_wf(m),
    ensures
        line_wf(line_insert(m, c)),
        line_wf(line_backspace(m)),
        line_wf(line_delete(m)),
        line_wf(line_left(m)),
        line_wf(line_right(m)),
        line_wf(line_kill_to_start(m)),
{
}

/// Away from the start of the line, deleting under the cursor after stepping
/// left is backspace.
pub proof fn law_left_then_delete_is_backspace(m: LineModel)
    requires
        line_wf(m),
        m.cursor > 0,
    ensures
        line_delete(line_left(m)) == line_backspace(m),
{
}

impl Clone for TextInput {
    fn clone(&self) -> (r: Self)
        ensures
            r@ == self@,
    {
        proof {
            use_type_invariant(self);
        }
        let v = self.value.clone();
        assert(v@ =~= self.value@);
        TextInput { value: v, cursor: self.cursor }
    }
}

} // verus!
