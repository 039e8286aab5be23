//! Handing the edit line to `$VISUAL` / `$EDITOR`: which program to run, and
//! what to make of the file it leaves behind. Running the program and the
//! temp file are the application's side.
use vstd::prelude::*;
use crate::text::{chars_of, is_whitespace, is_ws, owned, string_of, strings_of, trim, trim_chars, views, slice_to_vec};

verus! {

/// What came back from the editor. `text` is `None` whenever the buffer should
/// be left as it was — a non-zero exit, an unreadable file, or an emptied line.
pub struct EditorOutcome {
    pub text: Option<String>,
    pub message: Option<String>,
}

impl EditorOutcome {
    /// The buffer stays as it was; `message` says why.
    pub fn kept(message: &str) -> (r: Self)
        ensures
            r.text is None,
            r.message matches Some(m) && m@ == message@,
    {
        EditorOutcome { text: None, message: Some(owned(message)) }
    }
}

/// The editor used when neither variable names one.
pub const DEFAULT_EDITOR: &'static str = "vi";

/// The tokenizer's state after a prefix of the value.
pub struct SplitState {
    pub argv: Seq<Seq<char>>,
    pub current: Seq<char>,
    pub quote: Option<char>,
    pub started: bool,
}

pub open spec fn is_quote(c: char) -> bool {
    c == '"' || c == '\''
}

/// One character of the tokenizer: inside quotes everything but the closing
/// quote is kept; outside, whitespace ends a word and quotes open one.
pub open spec fn split_step(st: SplitState, c: char) -> SplitState {
    match st.quote {
        Some(q) => if c == q {
            SplitState { argv: st.argv, current: st.current, quote: None, started: st.started }
        } else {
            SplitState {
                argv: st.argv,
                current: st.current.push(c),
                quote: st.quote,
                started: st.started,
            }
        },
        None => if is_quote(c) {
            SplitState { argv: st.argv, current: st.current, quote: Some(c), started: true }
        } else if is_ws(c) {
            if st.started {
                SplitState {
                    argv: st.argv.push(st.current),
                    current: Seq::empty(),
                    quote: None,
                    started: false,
                }
            } else {
                st
            }
        } else {
            SplitState {
                argv: st.argv,
                current: st.current.push(c),
                quote: None,
                started: true,
            }
        },
    }
}

pub open spec fn split_run(s: Seq<char>) -> SplitState
    decreases s.len(),
{
    if s.len() == 0 {
        SplitState { argv: Seq::empty(), current: Seq::empty(), quote: None, started: false }
    } else {
        split_step(split_run(s.drop_last()), s.last())
    }
}

/// The non-empty words of a list, in order.
pub open spec fn drop_empty(v: Seq<Seq<char>>) -> Seq<Seq<char>>
    decreases v.len(),
{
    if v.len() == 0 {
        v
    } else if v.last().len() == 0 {
        drop_empty(v.drop_last())
    } else {
        drop_empty(v.drop_last()).push(v.last())
    }
}

/// Whitespace-separated words, honouring single and double quotes.
pub open spec fn quoted_words(s: Seq<char>) -> Seq<Seq<char>> {
    let st = split_run(s);
    drop_empty(if st.started { st.argv.push(st.current) } else { st.argv })
}

pub open spec fn has_quote(s: Seq<char>) -> bool {
    exists|i: int| 0 <= i < s.len() && is_quote(#[trigger] s[i])
}

/// The argv an editor variable stands for, given whether the trimmed value
/// names an existing file (only asked when it holds no quote).
pub open spec fn split_command_spec(value: Seq<char>, names_file: bool) -> Seq<Seq<char>> {
    let t = trim(value);
    if t.len() == 0 {
        Seq::empty()
    } else if !has_quote(t) && names_file {
        seq![t]
    } else {
        quoted_words(t)
    }
}

/// Whether a file exists at `path`.
///
/// Calls `std::path::Path::is_file`; the answer depends on the file system,
/// so nothing is promised about it.
#[verifier::external_body]
fn path_is_file(path: &str) -> (r: bool) {
    std::path::Path::new(path).is_file()
}

fn contains_quote(v: &[char]) -> (r: bool)
    ensures
        r == has_quote(v@),
{
    let mut i: usize = 0;
    while i < v.len()
        invariant
            i <= v.len(),
            forall|j: int| 0 <= j < i ==> !is_quote(#[trigger] v@[j]),
        decreases v.len() - i,
    {
        if v[i] == '"' || v[i] == '\'' {
            return true;
        }
        i += 1;
    }
    false
}

fn quoted_words_exec(t: &[char]) -> (r: Vec<Vec<char>>)
    ensures
        r@.len() == quoted_words(t@).len(),
        forall|i: int| 0 <= i < r@.len() ==> #[trigger] r@[i]@ == quoted_words(t@)[i],
{
    let mut argv: Vec<Vec<char>> = Vec::new();
    let mut current: Vec<char> = Vec::new();
    let mut quote: Option<char> = None;
    let mut started = false;
    let mut i: usize = 0;
    assert(t@.take(0) =~= Seq::<char>::empty());
    while i < t.len()
        invariant
            i <= t.len(),
            argv@.len() == split_run(t@.take(i as int)).argv.len(),
            forall|j: int| 0 <= j < argv@.len() ==> #[trigger] argv@[j]@ == split_run(
                t@.take(i as int),
            ).argv[j],
            current@ == split_run(t@.take(i as int)).current,
            quote == split_run(t@.take(i as int)).quote,
            started == split_run(t@.take(i as int)).started,
        decreases t.len() - i,
    {
        assert(t@.take(i + 1).drop_last() =~= t@.take(i as int));
        let c = t[i];
        match quote {
            Some(q) => {
                if c == q {
                    quote = None;
                } else {
                    current.push(c);
                }
            },
            None => {
                if c == '"' || c == '\'' {
                    quote = Some(c);
                    started = true;
                } else if is_whitespace(c) {
                    if started {
                        let word = current;
                        argv.push(word);
                        current = Vec::new();
                        assert(current@ =~= Seq::<char>::empty());
                        started = false;
                    }
                } else {
                    current.push(c);
                    started = true;
                }
            },
        }
        i += 1;
    }
    assert(t@.take(t.len() as int) =~= t@);
    if started {
        argv.push(current);
    }
    let ghost all = if split_run(t@).started {
        split_run(t@).argv.push(split_run(t@).current)
    } else {
        split_run(t@).argv
    };
    assert(argv@.len() == all.len());
    assert(forall|j: int| 0 <= j < argv@.len() ==> #[trigger] argv@[j]@ == all[j]);
    let mut out: Vec<Vec<char>> = Vec::new();
    let mut k: usize = 0;
    assert(all.take(0) =~= Seq::<Seq<char>>::empty());
    while k < argv.len()
        invariant
            k <= argv@.len(),
            argv@.len() == all.len(),
            forall|j: int| 0 <= j < argv@.len() ==> #[trigger] argv@[j]@ == all[j],
            out@.len() == drop_empty(all.take(k as int)).len(),
            forall|j: int| 0 <= j < out@.len() ==> #[trigger] out@[j]@ == drop_empty(
                all.take(k as int),
            )[j],
        decreases argv.len() - k,
    {
        assert(all.take(k + 1).drop_last() =~= all.take(k as int));
        if argv[k].len() > 0 {
            let w = slice_to_vec(argv[k].as_slice(), 0, argv[k].len());
            assert(w@ =~= argv@[k as int]@);
            out.push(w);
        }
        k += 1;
    }
    assert(all.take(argv.len() as int) =~= all);
    out
}

/// `split_command` once the file-system question is answered: trims, then
/// takes the whole value when it holds no quote and names a file, and
/// otherwise splits it into quoted words.
pub fn split_command_given(value: &str, names_file: bool) -> (r: Vec<String>)
    ensures
        views(r@) == split_command_spec(value@, names_file),
{
    let v = chars_of(value);
    let t = trim_chars(v.as_slice());
    if t.len() == 0 {
        let r: Vec<String> = Vec::new();
        assert(views(r@) =~= Seq::<Seq<char>>::empty());
        return r;
    }
    if !contains_quote(t.as_slice()) && names_file {
        let mut r: Vec<String> = Vec::new();
        r.push(string_of(t.as_slice()));
        assert(views(r@) =~= seq![t@]);
        return r;
    }
    let words = quoted_words_exec(t.as_slice());
    let r = strings_of(&words);
    assert(views(r@) =~= quoted_words(t@));
    r
}

/// Splits an editor variable into an argv: whitespace-separated, honouring
/// quotes, except that an unquoted value naming an existing file is taken
/// whole. Whether it names a file is asked of the file system.
pub fn split_command(value: &str) -> (r: Vec<String>)
    ensures
        exists|b: bool| views(r@) == split_command_spec(value@, b),
{
    let v = chars_of(value);
    let t = trim_chars(v.as_slice());
    let names_file = if t.len() > 0 && !contains_quote(t.as_slice()) {
        let ts = string_of(t.as_slice());
        path_is_file(ts.as_str())
    } else {
        false
    };
    split_command_given(value, names_file)
}

pub open spec fn opt_view(o: Option<String>) -> Option<Seq<char>> {
    match o {
        Some(s) => Some(s@),
        None => None,
    }
}

pub open spec fn opt_split(v: Option<Seq<char>>, names_file: bool) -> Seq<Seq<char>> {
    match v {
        Some(x) => split_command_spec(x, names_file),
        None => Seq::empty(),
    }
}

/// The argv to run: the first of `$VISUAL`, `$EDITOR` that splits into a
/// non-empty argv, else the default editor. `fv` and `fe` say whether each
/// value names an existing file.
pub open spec fn resolve_spec(
    visual: Option<Seq<char>>,
    editor: Option<Seq<char>>,
    fv: bool,
    fe: bool,
) -> Seq<Seq<char>> {
    let from_visual = opt_split(visual, fv);
    let from_editor = opt_split(editor, fe);
    if from_visual.len() > 0 {
        from_visual
    } else if from_editor.len() > 0 {
        from_editor
    } else {
        seq![DEFAULT_EDITOR@]
    }
}

/// `$VISUAL` wins over `$EDITOR`, then [`DEFAULT_EDITOR`].
pub fn resolve_editor(visual: Option<String>, editor: Option<String>) -> (r: Vec<String>)
    ensures
        exists|fv: bool, fe: bool|
            views(r@) == resolve_spec(opt_view(visual), opt_view(editor), fv, fe),
{
    let ghost vis = opt_view(visual);
    let ghost edi = opt_view(editor);
    let ghost mut fv = true;
    let a = match &visual {
        Some(v) => {
            let r = split_command(v.as_str());
            proof {
                fv = choose|b: bool| views(r@) == #[trigger] split_command_spec(v@, b);
            }
            r
        },
        None => Vec::new(),
    };
    assert(views(a@) =~= opt_split(vis, fv));
    let ghost mut fe = true;
    let e = match &editor {
        Some(x) => {
            let r = split_command(x.as_str());
            proof {
                fe = choose|b: bool| views(r@) == #[trigger] split_command_spec(x@, b);
            }
            r
        },
        None => Vec::new(),
    };
    assert(views(e@) =~= opt_split(edi, fe));
    if a.len() > 0 {
        assert(views(a@) == resolve_spec(vis, edi, fv, fe));
        a
    } else if e.len() > 0 {
        assert(views(e@) == resolve_spec(vis, edi, fv, fe));
        e
    } else {
        let mut r: Vec<String> = Vec::new();
        r.push(owned(DEFAULT_EDITOR));
        assert(views(r@) =~= resolve_spec(vis, edi, fv, fe));
        r
    }
}

/// Drops trailing newlines.
pub open spec fn trim_newlines_end(s: Seq<char>) -> Seq<char>
    decreases s.len(),
{
    if s.len() > 0 && s.last() == '\n' {
        trim_newlines_end(s.drop_last())
    } else {
        s
    }
}

/// Editors append a trailing newline; anything else the user wrote is kept
/// verbatim, interior newlines included. An emptied file means "cancel".
pub fn interpret(contents: &str) -> (r: EditorOutcome)
    ensures
        ({
            let text = trim_newlines_end(contents@);
            if trim(text).len() == 0 {
                r.text is None && r.message is Some
            } else {
                r.text matches Some(t) && t@ == text && r.message is None
            }
        }),
{
    let v = chars_of(contents);
    let mut n = v.len();
    assert(v@.take(v.len() as int) =~= v@);
    while n > 0 && v[n - 1] == '\n'
        invariant
            n <= v.len(),
            trim_newlines_end(v@) == trim_newlines_end(v@.take(n as int)),
        decreases n,
    {
        assert(v@.take(n as int).drop_last() =~= v@.take(n - 1));
        n -= 1;
    }
    assert(v@.take(v.len() as int) =~= v@);
    let text = slice_to_vec(v.as_slice(), 0, n);
    assert(text@ =~= v@.take(n as int));
    let t = trim_chars(text.as_slice());
    if t.len() == 0 {
        return EditorOutcome::kept("Nothing to run — text unchanged");
    }
    EditorOutcome { text: Some(string_of(text.as_slice())), message: None }
}

} // verus!
