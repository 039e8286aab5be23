//! Keys, and the text that names them: the vocabulary of `config.toml` and of
//! what the help popup shows.
use vstd::prelude::*;
use crate::text::{
    all_digits, ascii_lower, chars_of, digits_value, is_digit, is_whitespace, is_ws, lemma_split_char_nonempty, owned, parse_int,
    parse_u8, push_char, push_str, seq_eq, slice_to_vec, split_char, split_chars, string_of,
    to_ascii_lower_chars,
};

verus! {

/// A media key.
#[derive(Clone, Copy, Debug, PartialEq, Eq, Hash, Structural)]
pub enum MediaKey {
    Play,
    Pause,
    PlayPause,
    Reverse,
    Stop,
    FastForward,
    Rewind,
    TrackNext,
    TrackPrevious,
    Record,
    LowerVolume,
    RaiseVolume,
    MuteVolume,
}

/// A modifier key pressed on its own.
#[derive(Clone, Copy, Debug, PartialEq, Eq, Hash, Structural)]
pub enum ModifierKey {
    LeftShift,
    LeftControl,
    LeftAlt,
    LeftSuper,
    LeftHyper,
    LeftMeta,
    RightShift,
    RightControl,
    RightAlt,
    RightSuper,
    RightHyper,
    RightMeta,
    IsoLevel3Shift,
    IsoLevel5Shift,
}

/// The key of a key press.
#[derive(Clone, Copy, Debug, PartialEq, Eq, Hash, Structural)]
pub enum KeyCode {
    Backspace,
    Enter,
    Left,
    Right,
    Up,
    Down,
    Home,
    End,
    PageUp,
    PageDown,
    Tab,
    BackTab,
    Delete,
    Insert,
    F(u8),
    Char(char),
    Null,
    Esc,
    CapsLock,
    ScrollLock,
    NumLock,
    PrintScreen,
    Pause,
    Menu,
    KeypadBegin,
    Media(MediaKey),
    Modifier(ModifierKey),
}

/// The modifiers held during a key press.
#[derive(Clone, Copy, Debug, PartialEq, Eq, Hash, Structural)]
pub struct KeyModifiers {
    pub shift: bool,
    pub control: bool,
    pub alt: bool,
    pub super_key: bool,
    pub hyper: bool,
    pub meta: bool,
}

impl KeyModifiers {
    /// No modifier.
    pub fn none() -> (r: KeyModifiers)
        ensures
            r == no_mods(),
    {
        KeyModifiers {
            shift: false,
            control: false,
            alt: false,
            super_key: false,
            hyper: false,
            meta: false,
        }
    }

    /// Shift alone.
    pub fn shift() -> (r: KeyModifiers)
        ensures
            r == (KeyModifiers { shift: true, ..no_mods() }),
    {
        KeyModifiers { shift: true, ..KeyModifiers::none() }
    }

    /// Control alone.
    pub fn control() -> (r: KeyModifiers)
        ensures
            r == (KeyModifiers { control: true, ..no_mods() }),
    {
        KeyModifiers { control: true, ..KeyModifiers::none() }
    }

    /// Alt alone.
    pub fn alt() -> (r: KeyModifiers)
        ensures
            r == (KeyModifiers { alt: true, ..no_mods() }),
    {
        KeyModifiers { alt: true, ..KeyModifiers::none() }
    }

    /// The modifiers of both.
    pub fn with(self, other: KeyModifiers) -> (r: KeyModifiers)
        ensures
            r == mods_union(self, other),
    {
        KeyModifiers {
            shift: self.shift || other.shift,
            control: self.control || other.control,
            alt: self.alt || other.alt,
            super_key: self.super_key || other.super_key,
            hyper: self.hyper || other.hyper,
            meta: self.meta || other.meta,
        }
    }
}

pub open spec fn no_mods() -> KeyModifiers {
    KeyModifiers {
        shift: false,
        control: false,
        alt: false,
        super_key: false,
        hyper: false,
        meta: false,
    }
}

pub open spec fn mods_union(a: KeyModifiers, b: KeyModifiers) -> KeyModifiers {
    KeyModifiers {
        shift: a.shift || b.shift,
        control: a.control || b.control,
        alt: a.alt || b.alt,
        super_key: a.super_key || b.super_key,
        hyper: a.hyper || b.hyper,
        meta: a.meta || b.meta,
    }
}

/// A key press as the terminal reports it.
#[derive(Clone, Copy, Debug, PartialEq, Eq, Hash, Structural)]
pub struct KeyEvent {
    pub code: KeyCode,
    pub modifiers: KeyModifiers,
}

impl KeyEvent {
    pub fn new(code: KeyCode, modifiers: KeyModifiers) -> (r: KeyEvent)
        ensures
            r == (KeyEvent { code, modifiers }),
    {
        KeyEvent { code, modifiers }
    }
}

/// One key press, stored with SHIFT dropped for characters: the character
/// already carries the case, and terminals disagree about reporting it.
#[derive(Clone, Copy, Debug, PartialEq, Eq, Hash, Structural)]
pub struct KeyChord {
    pub code: KeyCode,
    pub mods: KeyModifiers,
}

/// One or two chords. Two is what the pending-key buffer can hold.
#[derive(Clone, Copy, Debug, PartialEq, Eq, Hash, Structural)]
pub enum Binding {
    Single(KeyChord),
    Chord(KeyChord, KeyChord),
}

/// The modifiers a chord is stored and compared with: SHIFT is ignored for
/// characters, kept for named keys (Shift+Tab is not Tab).
pub open spec fn normalized_mods(code: KeyCode, mods: KeyModifiers) -> KeyModifiers {
    if code is Char {
        KeyModifiers { shift: false, ..mods }
    } else {
        mods
    }
}

pub open spec fn chord_of(code: KeyCode, mods: KeyModifiers) -> KeyChord {
    KeyChord { code, mods: normalized_mods(code, mods) }
}

/// Whether a key press is this chord: same key, CONTROL and ALT (and the
/// rest) exactly, SHIFT only for named keys.
pub open spec fn chord_matches(c: KeyChord, key: KeyEvent) -> bool {
    c.code == key.code && c.mods == normalized_mods(key.code, key.modifiers)
}

fn normalize(code: KeyCode, mods: KeyModifiers) -> (r: KeyModifiers)
    ensures
        r == normalized_mods(code, mods),
{
    match code {
        KeyCode::Char(_) => KeyModifiers { shift: false, ..mods },
        _ => mods,
    }
}

impl KeyChord {
    pub fn new(code: KeyCode, mods: KeyModifiers) -> (r: KeyChord)
        ensures
            r == chord_of(code, mods),
    {
        KeyChord { code, mods: normalize(code, mods) }
    }

    /// Whether `key` is this chord.
    pub fn matches(&self, key: &KeyEvent) -> (r: bool)
        ensures
            r == chord_matches(*self, *key),
    {
        self.code == key.code && self.mods == normalize(key.code, key.modifiers)
    }
}

/// Why a key string did not parse.
#[derive(Debug, PartialEq)]
pub struct KeyParseError(pub String);

impl KeyParseError {
    /// The message, as the config problems list shows it.
    pub fn message(&self) -> (r: String)
        ensures
            r@ == self.0@,
    {
        string_of(chars_of(self.0.as_str()).as_slice())
    }
}

// ---------------------------------------------------------------------------
// Parsing
// ---------------------------------------------------------------------------

/// The pieces of a chord between `+`, where a trailing empty piece is the
/// literal `+` key itself, as in `ctrl++`.
pub open spec fn plus_parts(s: Seq<char>) -> Seq<Seq<char>> {
    let p = split_char(s, '+');
    if p.len() > 1 && p.last().len() == 0 {
        let q = p.drop_last();
        if q.last().len() == 0 {
            q.update(q.len() - 1, seq!['+'])
        } else {
            q.push(seq!['+'])
        }
    } else {
        p
    }
}

/// The modifier a piece names, ignoring ASCII case.
pub open spec fn modifier_named(part: Seq<char>) -> Option<KeyModifiers> {
    let l = ascii_lower(part);
    if l == "ctrl"@ || l == "control"@ {
        Some(KeyModifiers { control: true, ..no_mods() })
    } else if l == "alt"@ || l == "meta"@ {
        Some(KeyModifiers { alt: true, ..no_mods() })
    } else if l == "shift"@ {
        Some(KeyModifiers { shift: true, ..no_mods() })
    } else {
        None
    }
}

/// The first piece from `from` on that names no modifier.
pub open spec fn first_unknown_modifier(parts: Seq<Seq<char>>, from: int) -> Option<int>
    decreases parts.len() - from,
{
    if from < 0 || from >= parts.len() {
        None
    } else if modifier_named(parts[from]) is None {
        Some(from)
    } else {
        first_unknown_modifier(parts, from + 1)
    }
}

/// The modifiers the pieces name together.
pub open spec fn modifiers_named(parts: Seq<Seq<char>>) -> KeyModifiers
    decreases parts.len(),
{
    if parts.len() == 0 {
        no_mods()
    } else {
        match modifier_named(parts.last()) {
            Some(m) => mods_union(modifiers_named(parts.drop_last()), m),
            None => modifiers_named(parts.drop_last()),
        }
    }
}

/// The key a name of several characters stands for, ignoring ASCII case.
pub open spec fn named_key(l: Seq<char>) -> Option<KeyCode> {
    if l == "enter"@ || l == "return"@ {
        Some(KeyCode::Enter)
    } else if l == "esc"@ || l == "escape"@ {
        Some(KeyCode::Esc)
    } else if l == "tab"@ {
        Some(KeyCode::Tab)
    } else if l == "backtab"@ {
        Some(KeyCode::BackTab)
    } else if l == "space"@ {
        Some(KeyCode::Char(' '))
    } else if l == "backspace"@ {
        Some(KeyCode::Backspace)
    } else if l == "delete"@ || l == "del"@ {
        Some(KeyCode::Delete)
    } else if l == "insert"@ || l == "ins"@ {
        Some(KeyCode::Insert)
    } else if l == "home"@ {
        Some(KeyCode::Home)
    } else if l == "end"@ {
        Some(KeyCode::End)
    } else if l == "pageup"@ || l == "pgup"@ {
        Some(KeyCode::PageUp)
    } else if l == "pagedown"@ || l == "pgdn"@ {
        Some(KeyCode::PageDown)
    } else if l == "up"@ {
        Some(KeyCode::Up)
    } else if l == "down"@ {
        Some(KeyCode::Down)
    } else if l == "left"@ {
        Some(KeyCode::Left)
    } else if l == "right"@ {
        Some(KeyCode::Right)
    } else if l.len() > 0 && l[0] == 'f' {
        match parse_int(l.skip(1), false, 0, 255) {
            Some(n) => if 1 <= n <= 12 {
                Some(KeyCode::F(n as u8))
            } else {
                None
            },
            None => None,
        }
    } else {
        None
    }
}

/// The key a name stands for: a single character is always itself,
/// case-sensitively.
pub open spec fn key_named(name: Seq<char>) -> Option<KeyCode> {
    if name.len() == 1 {
        Some(KeyCode::Char(name[0]))
    } else {
        named_key(ascii_lower(name))
    }
}

/// `parse_chord`: `+`-separated modifiers, then the key.
pub open spec fn chord_parse(s: Seq<char>) -> Result<KeyChord, Seq<char>> {
    if s.len() == 0 {
        Err("empty key"@)
    } else {
        let parts = plus_parts(s);
        let mods = parts.drop_last();
        match first_unknown_modifier(mods, 0) {
            Some(i) => Err(
                "unknown modifier `"@ + ascii_lower(mods[i]) + "` in `"@ + s
                    + "`; ctrlr understands ctrl, alt and shift"@,
            ),
            None => match key_named(parts.last()) {
                Some(code) => Ok(chord_of(code, modifiers_named(mods))),
                None => Err("unknown key `"@ + ascii_lower(parts.last()) + "` in `"@ + s + "`"@),
            },
        }
    }
}

/// `str::split_whitespace`: the maximal runs of non-whitespace.
pub open spec fn words(s: Seq<char>) -> Seq<Seq<char>>
    decreases s.len(),
{
    if s.len() == 0 {
        Seq::empty()
    } else {
        let w = words(s.drop_last());
        let c = s.last();
        if is_ws(c) {
            w
        } else if s.len() > 1 && !is_ws(s[s.len() - 2]) {
            w.update(w.len() - 1, w.last().push(c))
        } else {
            w.push(seq![c])
        }
    }
}

/// `parse_binding`: one chord, or two separated by whitespace.
pub open spec fn binding_parse(s: Seq<char>) -> Result<Binding, Seq<char>> {
    let ws = words(s);
    if ws.len() == 0 {
        Err("empty key"@)
    } else {
        match chord_parse(ws[0]) {
            Err(e) => Err(e),
            Ok(first) => if ws.len() == 1 {
                Ok(Binding::Single(first))
            } else {
                match chord_parse(ws[1]) {
                    Err(e) => Err(e),
                    Ok(second) => if ws.len() > 2 {
                        Err("`"@ + s + "` is longer than two keys; ctrlr only tracks one pending key"@)
                    } else {
                        Ok(Binding::Chord(first, second))
                    },
                }
            },
        }
    }
}

/// Whether a parse result is the specified one.
pub open spec fn parsed_as<T>(r: Result<T, KeyParseError>, spec: Result<T, Seq<char>>) -> bool {
    match (r, spec) {
        (Ok(a), Ok(b)) => a == b,
        (Err(e), Err(m)) => e.0@ == m,
        _ => false,
    }
}

proof fn lemma_first_unknown_at(parts: Seq<Seq<char>>, from: int, k: int)
    requires
        0 <= from <= k <= parts.len(),
        forall|j: int| from <= j < k ==> modifier_named(#[trigger] parts[j]) is Some,
        k < parts.len() ==> modifier_named(parts[k]) is None,
    ensures
        first_unknown_modifier(parts, from) == (if k < parts.len() {
            Some(k)
        } else {
            None::<int>
        }),
    decreases k - from,
{
    if from < k {
        lemma_first_unknown_at(parts, from + 1, k);
    }
}

proof fn lemma_words_nonempty(s: Seq<char>)
    requires
        s.len() > 0,
        !is_ws(s.last()),
    ensures
        words(s).len() > 0,
    decreases s.len(),
{
    if s.len() > 1 && !is_ws(s[s.len() - 2]) {
        lemma_words_nonempty(s.drop_last());
    }
}

/// Whether `l` is the text `w`.
fn is_text(l: &[char], w: &str) -> (r: bool)
    ensures
        r == (l@ == w@),
{
    let v = chars_of(w);
    seq_eq(l, v.as_slice())
}

fn modifier_of(part: &[char]) -> (r: Option<KeyModifiers>)
    ensures
        r == modifier_named(part@),
{
    let l = to_ascii_lower_chars(part);
    if is_text(l.as_slice(), "ctrl") || is_text(l.as_slice(), "control") {
        Some(KeyModifiers::control())
    } else if is_text(l.as_slice(), "alt") || is_text(l.as_slice(), "meta") {
        Some(KeyModifiers::alt())
    } else if is_text(l.as_slice(), "shift") {
        Some(KeyModifiers::shift())
    } else {
        None
    }
}

fn named_key_of(l: &[char]) -> (r: Option<KeyCode>)
    ensures
        r == named_key(l@),
{
    if is_text(l, "enter") || is_text(l, "return") {
        Some(KeyCode::Enter)
    } else if is_text(l, "esc") || is_text(l, "escape") {
        Some(KeyCode::Esc)
    } else if is_text(l, "tab") {
        Some(KeyCode::Tab)
    } else if is_text(l, "backtab") {
        Some(KeyCode::BackTab)
    } else if is_text(l, "space") {
        Some(KeyCode::Char(' '))
    } else if is_text(l, "backspace") {
        Some(KeyCode::Backspace)
    } else if is_text(l, "delete") || is_text(l, "del") {
        Some(KeyCode::Delete)
    } else if is_text(l, "insert") || is_text(l, "ins") {
        Some(KeyCode::Insert)
    } else if is_text(l, "home") {
        Some(KeyCode::Home)
    } else if is_text(l, "end") {
        Some(KeyCode::End)
    } else if is_text(l, "pageup") || is_text(l, "pgup") {
        Some(KeyCode::PageUp)
    } else if is_text(l, "pagedown") || is_text(l, "pgdn") {
        Some(KeyCode::PageDown)
    } else if is_text(l, "up") {
        Some(KeyCode::Up)
    } else if is_text(l, "down") {
        Some(KeyCode::Down)
    } else if is_text(l, "left") {
        Some(KeyCode::Left)
    } else if is_text(l, "right") {
        Some(KeyCode::Right)
    } else if l.len() > 0 && l[0] == 'f' {
        let digits = slice_to_vec(l, 1, l.len());
        assert(digits@ =~= l@.skip(1));
        match parse_u8(digits.as_slice()) {
            Some(n) => if 1 <= n && n <= 12 {
                Some(KeyCode::F(n))
            } else {
                None
            },
            None => None,
        }
    } else {
        None
    }
}

/// Parses one chord, such as `ctrl+d`, `G`, `pagedown` or `ctrl++`.
pub fn parse_chord(s: &str) -> (r: Result<KeyChord, KeyParseError>)
    ensures
        parsed_as(r, chord_parse(s@)),
{
    let v = chars_of(s);
    if v.len() == 0 {
        return Err(KeyParseError(owned("empty key")));
    }
    let mut parts = split_chars(v.as_slice(), '+');
    proof {
        lemma_split_char_nonempty(v@, '+');
    }
    let ghost raw = split_char(v@, '+');
    assert(parts@.map_values(|p: Vec<char>| p@) =~= raw);
    if parts.len() > 1 && parts[parts.len() - 1].len() == 0 {
        assert(raw.last().len() == 0);
        parts.pop();
        let ghost q = raw.drop_last();
        assert(parts@.map_values(|p: Vec<char>| p@) =~= q);
        let last = parts.len() - 1;
        let plus = vec!['+'];
        assert(plus@ =~= seq!['+']);
        if parts[last].len() == 0 {
            parts.set(last, plus);
            assert(parts@.map_values(|p: Vec<char>| p@) =~= q.update(q.len() - 1, seq!['+']));
        } else {
            parts.push(plus);
            assert(parts@.map_values(|p: Vec<char>| p@) =~= q.push(seq!['+']));
        }
    }
    let ghost pv = parts@.map_values(|p: Vec<char>| p@);
    assert(pv =~= plus_parts(s@));
    let n = parts.len();
    let ghost mp = pv.drop_last();
    let mut mods = KeyModifiers::none();
    let mut i: usize = 0;
    assert(mp.take(0) =~= Seq::<Seq<char>>::empty());
    while i < n - 1
        invariant
            n == parts@.len(),
            n >= 1,
            pv == parts@.map_values(|p: Vec<char>| p@),
            pv == plus_parts(s@),
            s@.len() > 0,
            mp == pv.drop_last(),
            i <= n - 1,
            forall|j: int| 0 <= j < i ==> modifier_named(#[trigger] mp[j]) is Some,
            mods == modifiers_named(mp.take(i as int)),
        decreases n - 1 - i,
    {
        assert(parts@[i as int]@ == mp[i as int]);
        match modifier_of(parts[i].as_slice()) {
            Some(m) => {
                assert(mp.take(i + 1).drop_last() =~= mp.take(i as int));
                mods = mods.with(m);
            },
            None => {
                proof {
                    lemma_first_unknown_at(mp, 0, i as int);
                }
                let l = to_ascii_lower_chars(parts[i].as_slice());
                let mut m = owned("unknown modifier `");
                push_str(&mut m, string_of(l.as_slice()).as_str());
                push_str(&mut m, "` in `");
                push_str(&mut m, s);
                push_str(&mut m, "`; ctrlr understands ctrl, alt and shift");
                return Err(KeyParseError(m));
            },
        }
        i += 1;
    }
    proof {
        lemma_first_unknown_at(mp, 0, mp.len() as int);
    }
    assert(mp.take(mp.len() as int) =~= mp);
    let name = parts[n - 1].as_slice();
    assert(name@ == pv.last());
    let code = if name.len() == 1 {
        Some(KeyCode::Char(name[0]))
    } else {
        let l = to_ascii_lower_chars(name);
        named_key_of(l.as_slice())
    };
    match code {
        Some(c) => Ok(KeyChord::new(c, mods)),
        None => {
            let l = to_ascii_lower_chars(name);
            let mut m = owned("unknown key `");
            push_str(&mut m, string_of(l.as_slice()).as_str());
            push_str(&mut m, "` in `");
            push_str(&mut m, s);
            push_str(&mut m, "`");
            Err(KeyParseError(m))
        },
    }
}

/// `str::split_whitespace` on characters.
pub fn split_words(v: &[char]) -> (r: Vec<Vec<char>>)
    ensures
        r@.map_values(|w: Vec<char>| w@) == words(v@),
{
    let mut out: Vec<Vec<char>> = Vec::new();
    let mut i: usize = 0;
    assert(v@.take(0) =~= Seq::<char>::empty());
    while i < v.len()
        invariant
            i <= v@.len(),
            out@.map_values(|w: Vec<char>| w@) == words(v@.take(i as int)),
        decreases v.len() - i,
    {
        let ghost before = out@.map_values(|w: Vec<char>| w@);
        let ghost t = v@.take(i + 1);
        assert(t.drop_last() =~= v@.take(i as int));
        assert(t.last() == v@[i as int]);
        let c = v[i];
        if is_whitespace(c) {
        } else if i > 0 && !is_whitespace(v[i - 1]) {
            assert(t[t.len() - 2] == v@[i - 1]);
            proof {
                lemma_words_nonempty(v@.take(i as int));
            }
            let mut w = out.pop().unwrap();
            w.push(c);
            out.push(w);
            assert(out@.map_values(|w: Vec<char>| w@) =~= before.update(
                before.len() - 1,
                before.last().push(c),
            ));
        } else {
            let w = vec![c];
            assert(w@ =~= seq![c]);
            out.push(w);
            assert(out@.map_values(|w: Vec<char>| w@) =~= before.push(seq![c]));
        }
        i += 1;
    }
    assert(v@.take(v@.len() as int) =~= v@);
    out
}

/// Parses a binding: one chord, or two separated by whitespace (`g g`).
pub fn parse_binding(s: &str) -> (r: Result<Binding, KeyParseError>)
    ensures
        parsed_as(r, binding_parse(s@)),
{
    let v = chars_of(s);
    let ws = split_words(v.as_slice());
    let ghost wv = ws@.map_values(|w: Vec<char>| w@);
    if ws.len() == 0 {
        return Err(KeyParseError(owned("empty key")));
    }
    assert(ws@[0]@ == wv[0]);
    let first = match parse_chord(string_of(ws[0].as_slice()).as_str()) {
        Ok(c) => c,
        Err(e) => return Err(e),
    };
    if ws.len() == 1 {
        return Ok(Binding::Single(first));
    }
    assert(ws@[1]@ == wv[1]);
    let second = match parse_chord(string_of(ws[1].as_slice()).as_str()) {
        Ok(c) => c,
        Err(e) => return Err(e),
    };
    if ws.len() > 2 {
        let mut m = owned("`");
        push_str(&mut m, s);
        push_str(&mut m, "` is longer than two keys; ctrlr only tracks one pending key");
        return Err(KeyParseError(m));
    }
    Ok(Binding::Chord(first, second))
}

// ---------------------------------------------------------------------------
// Printing
// ---------------------------------------------------------------------------

pub open spec fn media_name(m: MediaKey) -> Seq<char> {
    match m {
        MediaKey::Play => "Play"@,
        MediaKey::Pause => "Pause"@,
        MediaKey::PlayPause => "PlayPause"@,
        MediaKey::Reverse => "Reverse"@,
        MediaKey::Stop => "Stop"@,
        MediaKey::FastForward => "FastForward"@,
        MediaKey::Rewind => "Rewind"@,
        MediaKey::TrackNext => "TrackNext"@,
        MediaKey::TrackPrevious => "TrackPrevious"@,
        MediaKey::Record => "Record"@,
        MediaKey::LowerVolume => "LowerVolume"@,
        MediaKey::RaiseVolume => "RaiseVolume"@,
        MediaKey::MuteVolume => "MuteVolume"@,
    }
}

pub open spec fn modifier_key_name(m: ModifierKey) -> Seq<char> {
    match m {
        ModifierKey::LeftShift => "LeftShift"@,
        ModifierKey::LeftControl => "LeftControl"@,
        ModifierKey::LeftAlt => "LeftAlt"@,
        ModifierKey::LeftSuper => "LeftSuper"@,
        ModifierKey::LeftHyper => "LeftHyper"@,
        ModifierKey::LeftMeta => "LeftMeta"@,
        ModifierKey::RightShift => "RightShift"@,
        ModifierKey::RightControl => "RightControl"@,
        ModifierKey::RightAlt => "RightAlt"@,
        ModifierKey::RightSuper => "RightSuper"@,
        ModifierKey::RightHyper => "RightHyper"@,
        ModifierKey::RightMeta => "RightMeta"@,
        ModifierKey::IsoLevel3Shift => "IsoLevel3Shift"@,
        ModifierKey::IsoLevel5Shift => "IsoLevel5Shift"@,
    }
}

pub open spec fn digit_char(d: int) -> char {
    (d + 48) as char
}

/// The decimal digits of `n`.
pub open spec fn decimal(n: nat) -> Seq<char>
    decreases n,
{
    if n < 10 {
        seq![digit_char(n as int)]
    } else {
        decimal(n / 10).push(digit_char((n % 10) as int))
    }
}

/// How a key is written: `Space` for the space character, the character
/// itself otherwise, the key's name for a named key.
pub open spec fn code_text(code: KeyCode) -> Seq<char> {
    match code {
        KeyCode::Char(c) => if c == ' ' {
            "Space"@
        } else {
            seq![c]
        },
        KeyCode::Enter => "Enter"@,
        KeyCode::Esc => "Esc"@,
        KeyCode::Tab => "Tab"@,
        KeyCode::BackTab => "BackTab"@,
        KeyCode::Backspace => "Backspace"@,
        KeyCode::Delete => "Delete"@,
        KeyCode::Insert => "Insert"@,
        KeyCode::Home => "Home"@,
        KeyCode::End => "End"@,
        KeyCode::PageUp => "PageUp"@,
        KeyCode::PageDown => "PageDown"@,
        KeyCode::Up => "Up"@,
        KeyCode::Down => "Down"@,
        KeyCode::Left => "Left"@,
        KeyCode::Right => "Right"@,
        KeyCode::F(n) => "F"@ + decimal(n as nat),
        KeyCode::Null => "Null"@,
        KeyCode::CapsLock => "CapsLock"@,
        KeyCode::ScrollLock => "ScrollLock"@,
        KeyCode::NumLock => "NumLock"@,
        KeyCode::PrintScreen => "PrintScreen"@,
        KeyCode::Pause => "Pause"@,
        KeyCode::Menu => "Menu"@,
        KeyCode::KeypadBegin => "KeypadBegin"@,
        KeyCode::Media(m) => "Media("@ + media_name(m) + ")"@,
        KeyCode::Modifier(m) => "Modifier("@ + modifier_key_name(m) + ")"@,
    }
}

/// How a chord is written: `Ctrl+`, `Alt+`, `Shift+` as held, then the key.
pub open spec fn chord_text(c: KeyChord) -> Seq<char> {
    (if c.mods.control {
        "Ctrl+"@
    } else {
        Seq::empty()
    }) + (if c.mods.alt {
        "Alt+"@
    } else {
        Seq::empty()
    }) + (if c.mods.shift {
        "Shift+"@
    } else {
        Seq::empty()
    }) + code_text(c.code)
}

/// How a binding is written: its chords separated by a space.
pub open spec fn binding_text(b: Binding) -> Seq<char> {
    match b {
        Binding::Single(c) => chord_text(c),
        Binding::Chord(a, c) => chord_text(a) + " "@ + chord_text(c),
    }
}

fn digit(d: u8) -> (r: char)
    requires
        d < 10,
    ensures
        r == digit_char(d as int),
{
    ((d + 48) as char)
}

fn decimal_of(n: u8) -> (r: String)
    ensures
        r@ == decimal(n as nat),
{
    let mut s = String::new();
    if n >= 100 {
        push_char(&mut s, digit(n / 100));
        push_char(&mut s, digit((n / 10) % 10));
        push_char(&mut s, digit(n % 10));
        proof {
            reveal_with_fuel(decimal, 3);
            assert((n / 10) / 10 == n / 100);
        }
    } else if n >= 10 {
        push_char(&mut s, digit(n / 10));
        push_char(&mut s, digit(n % 10));
        proof {
            reveal_with_fuel(decimal, 2);
        }
    } else {
        push_char(&mut s, digit(n));
    }
    s
}

fn media_text(m: MediaKey) -> (r: &'static str)
    ensures
        r@ == media_name(m),
{
    match m {
        MediaKey::Play => "Play",
        MediaKey::Pause => "Pause",
        MediaKey::PlayPause => "PlayPause",
        MediaKey::Reverse => "Reverse",
        MediaKey::Stop => "Stop",
        MediaKey::FastForward => "FastForward",
        MediaKey::Rewind => "Rewind",
        MediaKey::TrackNext => "TrackNext",
        MediaKey::TrackPrevious => "TrackPrevious",
        MediaKey::Record => "Record",
        MediaKey::LowerVolume => "LowerVolume",
        MediaKey::RaiseVolume => "RaiseVolume",
        MediaKey::MuteVolume => "MuteVolume",
    }
}

fn modifier_key_text(m: ModifierKey) -> (r: &'static str)
    ensures
        r@ == modifier_key_name(m),
{
    match m {
        ModifierKey::LeftShift => "LeftShift",
        ModifierKey::LeftControl => "LeftControl",
        ModifierKey::LeftAlt => "LeftAlt",
        ModifierKey::LeftSuper => "LeftSuper",
        ModifierKey::LeftHyper => "LeftHyper",
        ModifierKey::LeftMeta => "LeftMeta",
        ModifierKey::RightShift => "RightShift",
        ModifierKey::RightControl => "RightControl",
        ModifierKey::RightAlt => "RightAlt",
        ModifierKey::RightSuper => "RightSuper",
        ModifierKey::RightHyper => "RightHyper",
        ModifierKey::RightMeta => "RightMeta",
        ModifierKey::IsoLevel3Shift => "IsoLevel3Shift",
        ModifierKey::IsoLevel5Shift => "IsoLevel5Shift",
    }
}

/// How a key is written.
pub fn format_code(code: KeyCode) -> (r: String)
    ensures
        r@ == code_text(code),
{
    match code {
        KeyCode::Char(c) => if c == ' ' {
            owned("Space")
        } else {
            let mut s = String::new();
            push_char(&mut s, c);
            s
        },
        KeyCode::Enter => owned("Enter"),
        KeyCode::Esc => owned("Esc"),
        KeyCode::Tab => owned("Tab"),
        KeyCode::BackTab => owned("BackTab"),
        KeyCode::Backspace => owned("Backspace"),
        KeyCode::Delete => owned("Delete"),
        KeyCode::Insert => owned("Insert"),
        KeyCode::Home => owned("Home"),
        KeyCode::End => owned("End"),
        KeyCode::PageUp => owned("PageUp"),
        KeyCode::PageDown => owned("PageDown"),
        KeyCode::Up => owned("Up"),
        KeyCode::Down => owned("Down"),
        KeyCode::Left => owned("Left"),
        KeyCode::Right => owned("Right"),
        KeyCode::F(n) => {
            let mut s = owned("F");
            push_str(&mut s, decimal_of(n).as_str());
            s
        },
        KeyCode::Null => owned("Null"),
        KeyCode::CapsLock => owned("CapsLock"),
        KeyCode::ScrollLock => owned("ScrollLock"),
        KeyCode::NumLock => owned("NumLock"),
        KeyCode::PrintScreen => owned("PrintScreen"),
        KeyCode::Pause => owned("Pause"),
        KeyCode::Menu => owned("Menu"),
        KeyCode::KeypadBegin => owned("KeypadBegin"),
        KeyCode::Media(m) => {
            let mut s = owned("Media(");
            push_str(&mut s, media_text(m));
            push_str(&mut s, ")");
            s
        },
        KeyCode::Modifier(m) => {
            let mut s = owned("Modifier(");
            push_str(&mut s, modifier_key_text(m));
            push_str(&mut s, ")");
            s
        },
    }
}

/// How a chord is written, such as `Ctrl+d` or `Shift+Tab`.
pub fn format_chord(chord: &KeyChord) -> (r: String)
    ensures
        r@ == chord_text(*chord),
{
    let mut out = String::new();
    if chord.mods.control {
        push_str(&mut out, "Ctrl+");
    }
    if chord.mods.alt {
        push_str(&mut out, "Alt+");
    }
    if chord.mods.shift {
        push_str(&mut out, "Shift+");
    }
    push_str(&mut out, format_code(chord.code).as_str());
    assert(out@ =~= chord_text(*chord));
    out
}

/// How a binding is written, such as `g g`.
pub fn format_binding(binding: &Binding) -> (r: String)
    ensures
        r@ == binding_text(*binding),
{
    match binding {
        Binding::Single(c) => format_chord(c),
        Binding::Chord(a, b) => {
            let mut out = format_chord(a);
            push_str(&mut out, " ");
            push_str(&mut out, format_chord(b).as_str());
            out
        },
    }
}

// ---------------------------------------------------------------------------
// Printing then parsing gives the binding back
// ---------------------------------------------------------------------------

proof fn lemma_split_no_sep(t: Seq<char>, c: char)
    requires
        forall|k: int| 0 <= k < t.len() ==> t[k] != c,
    ensures
        split_char(t, c) == seq![t],
    decreases t.len(),
{
    if t.len() > 0 {
        lemma_split_no_sep(t.drop_last(), c);
        assert(t.drop_last().push(t.last()) =~= t);
    } else {
        assert(t =~= Seq::<char>::empty());
    }
}

proof fn lemma_split_concat(x: Seq<char>, y: Seq<char>, c: char)
    ensures
        split_char(x.push(c) + y, c) == split_char(x, c) + split_char(y, c),
    decreases y.len(),
{
    let s = x.push(c) + y;
    if y.len() == 0 {
        assert(s =~= x.push(c));
        assert(s.drop_last() =~= x);
        assert(split_char(y, c) =~= seq![Seq::<char>::empty()]);
        assert(split_char(s, c) =~= split_char(x, c) + split_char(y, c));
    } else {
        let y2 = y.drop_last();
        lemma_split_concat(x, y2, c);
        assert(s.drop_last() =~= x.push(c) + y2);
        assert(s.last() == y.last());
        lemma_split_char_nonempty(y2, c);
        lemma_split_char_nonempty(x, c);
        assert(split_char(s, c) =~= split_char(x, c) + split_char(y, c));
    }
}

/// `w` followed by `+` and then `r` splits into `w` and the pieces of `r`.
proof fn lemma_split_word_then(w: Seq<char>, r: Seq<char>)
    requires
        forall|k: int| 0 <= k < w.len() ==> w[k] != '+',
    ensures
        split_char(w.push('+') + r, '+') == seq![w] + split_char(r, '+'),
{
    lemma_split_concat(w, r, '+');
    lemma_split_no_sep(w, '+');
}

proof fn lemma_split_no_ws(w: Seq<char>, c: char)
    requires
        forall|k: int| 0 <= k < w.len() ==> !is_ws(#[trigger] w[k]),
    ensures
        forall|i: int, k: int|
            0 <= i < split_char(w, c).len() && 0 <= k < split_char(w, c)[i].len() ==> !is_ws(
                #[trigger] split_char(w, c)[i][k],
            ),
    decreases w.len(),
{
    if w.len() > 0 {
        lemma_split_no_ws(w.drop_last(), c);
        lemma_split_char_nonempty(w.drop_last(), c);
        let rest = split_char(w.drop_last(), c);
        assert forall|i: int, k: int|
            0 <= i < split_char(w, c).len() && 0 <= k < split_char(w, c)[i].len() implies !is_ws(
                #[trigger] split_char(w, c)[i][k],
            ) by {
            if w.last() != c && i == rest.len() - 1 && k == rest.last().len() {
                assert(split_char(w, c)[i][k] == w[w.len() - 1]);
            } else if w.last() != c && i == rest.len() - 1 {
                assert(split_char(w, c)[i][k] == rest[i][k]);
            }
        }
    }
}

proof fn lemma_words_single(t: Seq<char>)
    requires
        t.len() > 0,
        forall|k: int| 0 <= k < t.len() ==> !is_ws(#[trigger] t[k]),
    ensures
        words(t) == seq![t],
    decreases t.len(),
{
    if t.len() == 1 {
        assert(t.drop_last() =~= Seq::<char>::empty());
        assert(words(t.drop_last()) =~= Seq::<Seq<char>>::empty());
        assert(!is_ws(t[0]));
        assert(seq![t.last()] =~= t);
        assert(words(t) =~= seq![t]);
    } else {
        lemma_words_single(t.drop_last());
        assert(!is_ws(t[t.len() - 2]));
        assert(!is_ws(t[t.len() - 1]));
        assert(t.drop_last().push(t.last()) =~= t);
        assert(words(t) =~= seq![t]);
    }
}

proof fn lemma_words_join(x: Seq<char>, y: Seq<char>)
    ensures
        words(x.push(' ') + y) == words(x) + words(y),
    decreases y.len(),
{
    let s = x.push(' ') + y;
    if y.len() == 0 {
        assert(s =~= x.push(' '));
        assert(s.drop_last() =~= x);
        assert(is_ws(' '));
        assert(words(y) =~= Seq::<Seq<char>>::empty());
        assert(words(s) =~= words(x) + words(y));
    } else {
        let y2 = y.drop_last();
        lemma_words_join(x, y2);
        assert(s.drop_last() =~= x.push(' ') + y2);
        assert(s.last() == y.last());
        assert(is_ws(' '));
        if y.len() > 1 {
            assert(s[s.len() - 2] == y[y.len() - 2]);
            if !is_ws(y.last()) && !is_ws(y[y.len() - 2]) {
                assert(y2.last() == y[y.len() - 2]);
                lemma_words_nonempty(y2);
            }
        } else {
            assert(s[s.len() - 2] == ' ');
        }
        assert(words(s) =~= words(x) + words(y));
    }
}

proof fn lemma_words_no_ws(s: Seq<char>)
    ensures
        forall|i: int| 0 <= i < words(s).len() ==> (#[trigger] words(s)[i]).len() > 0,
        forall|i: int, k: int|
            0 <= i < words(s).len() && 0 <= k < words(s)[i].len() ==> !is_ws(
                #[trigger] words(s)[i][k],
            ),
    decreases s.len(),
{
    if s.len() > 0 {
        lemma_words_no_ws(s.drop_last());
        let w = words(s.drop_last());
        let c = s.last();
        if !is_ws(c) && s.len() > 1 && !is_ws(s[s.len() - 2]) {
            assert(s.drop_last().last() == s[s.len() - 2]);
            lemma_words_nonempty(s.drop_last());
            assert forall|i: int, k: int|
                0 <= i < words(s).len() && 0 <= k < words(s)[i].len() implies !is_ws(
                    #[trigger] words(s)[i][k],
                ) by {
                if i == w.len() - 1 && k < w.last().len() {
                    assert(words(s)[i][k] == w[i][k]);
                }
            }
        }
    }
}

proof fn lemma_decimal(n: nat)
    ensures
        decimal(n).len() > 0,
        all_digits(decimal(n)),
        digits_value(decimal(n)) == n,
    decreases n,
{
    if n >= 10 {
        lemma_decimal(n / 10);
        let d = decimal(n / 10);
        assert(decimal(n) == d.push(digit_char((n % 10) as int)));
        assert forall|k: int| 0 <= k < decimal(n).len() implies is_digit(#[trigger] decimal(n)[k]) by {
            if k < d.len() {
                assert(decimal(n)[k] == d[k]);
            }
        }
        assert(decimal(n).drop_last() =~= d);
        let m = (n % 10) as int;
        assert((digit_char(m) as u32) == m + 48);
        assert(decimal(n).last() == digit_char(m));
        assert(digits_value(decimal(n)) == digits_value(d) * 10 + ((decimal(n).last() as u32) - 48));
        assert(n == (n / 10) * 10 + m);
        assert(digits_value(decimal(n)) == n);
    } else {
        assert((digit_char(n as int) as u32) == n + 48);
        assert(decimal(n).drop_last() =~= Seq::<char>::empty());
        assert(decimal(n).last() == digit_char(n as int));
        assert(digits_value(decimal(n).drop_last()) == 0);
        assert(digits_value(decimal(n)) == n);
    }
}


/// The keys `parse_binding` can produce: printed, they read back.
pub open spec fn printable_code(code: KeyCode) -> bool {
    match code {
        KeyCode::Char(c) => c == ' ' || !is_ws(c),
        KeyCode::F(n) => 1 <= n <= 12,
        KeyCode::Enter | KeyCode::Esc | KeyCode::Tab | KeyCode::BackTab | KeyCode::Backspace
        | KeyCode::Delete | KeyCode::Insert | KeyCode::Home | KeyCode::End | KeyCode::PageUp
        | KeyCode::PageDown | KeyCode::Up | KeyCode::Down | KeyCode::Left | KeyCode::Right => true,
        _ => false,
    }
}

/// A chord `parse_binding` can produce: a printable key, no modifier but
/// CONTROL, ALT and SHIFT, and no SHIFT on a character.
pub open spec fn printable_chord(c: KeyChord) -> bool {
    &&& printable_code(c.code)
    &&& !c.mods.super_key && !c.mods.hyper && !c.mods.meta
    &&& c.code is Char ==> !c.mods.shift
}

proof fn lemma_modifiers_named_plain(parts: Seq<Seq<char>>)
    ensures
        !modifiers_named(parts).super_key,
        !modifiers_named(parts).hyper,
        !modifiers_named(parts).meta,
    decreases parts.len(),
{
    if parts.len() > 0 {
        lemma_modifiers_named_plain(parts.drop_last());
    }
}

/// A chord read from a word without whitespace is printable.
proof fn lemma_parsed_chord_printable(w: Seq<char>)
    requires
        forall|k: int| 0 <= k < w.len() ==> !is_ws(#[trigger] w[k]),
        chord_parse(w) is Ok,
    ensures
        printable_chord(chord_parse(w)->Ok_0),
{
    let p = split_char(w, '+');
    lemma_split_no_ws(w, '+');
    lemma_split_char_nonempty(w, '+');
    let parts = plus_parts(w);
    let name = parts.last();
    assert(!is_ws('+'));
    assert(forall|k: int| 0 <= k < name.len() ==> !is_ws(#[trigger] name[k])) by {
        if p.len() > 1 && p.last().len() == 0 {
            let q = p.drop_last();
            if q.last().len() != 0 {
                assert(name == seq!['+']);
            } else {
                assert(name == seq!['+']);
            }
        } else {
            assert(name == p[p.len() - 1]);
        }
    }
    lemma_modifiers_named_plain(parts.drop_last());
}

proof fn lemma_ascii_lower_digits(d: Seq<char>)
    requires
        all_digits(d),
    ensures
        ascii_lower(d) == d,
{
    assert(ascii_lower(d) =~= d);
}

/// A printable key's text names it again.
proof fn lemma_key_named_text(code: KeyCode)
    requires
        printable_code(code),
    ensures
        key_named(code_text(code)) == Some(code),
{
    assert("enter"@.len() == 5 && "enter"@[0] == 'e' && "enter"@[1] == 'n') by {
        reveal_strlit("enter");
    }
    assert("return"@.len() == 6 && "return"@[0] == 'r' && "return"@[1] == 'e') by {
        reveal_strlit("return");
    }
    assert("esc"@.len() == 3 && "esc"@[0] == 'e' && "esc"@[1] == 's') by {
        reveal_strlit("esc");
    }
    assert("escape"@.len() == 6 && "escape"@[0] == 'e' && "escape"@[1] == 's') by {
        reveal_strlit("escape");
    }
    assert("tab"@.len() == 3 && "tab"@[0] == 't' && "tab"@[1] == 'a') by {
        reveal_strlit("tab");
    }
    assert("backtab"@.len() == 7 && "backtab"@[0] == 'b' && "backtab"@[1] == 'a') by {
        reveal_strlit("backtab");
    }
    assert("space"@.len() == 5 && "space"@[0] == 's' && "space"@[1] == 'p') by {
        reveal_strlit("space");
    }
    assert("backspace"@.len() == 9 && "backspace"@[0] == 'b' && "backspace"@[1] == 'a') by {
        reveal_strlit("backspace");
    }
    assert("delete"@.len() == 6 && "delete"@[0] == 'd' && "delete"@[1] == 'e') by {
        reveal_strlit("delete");
    }
    assert("del"@.len() == 3 && "del"@[0] == 'd' && "del"@[1] == 'e') by {
        reveal_strlit("del");
    }
    assert("insert"@.len() == 6 && "insert"@[0] == 'i' && "insert"@[1] == 'n') by {
        reveal_strlit("insert");
    }
    assert("ins"@.len() == 3 && "ins"@[0] == 'i' && "ins"@[1] == 'n') by {
        reveal_strlit("ins");
    }
    assert("home"@.len() == 4 && "home"@[0] == 'h' && "home"@[1] == 'o') by {
        reveal_strlit("home");
    }
    assert("end"@.len() == 3 && "end"@[0] == 'e' && "end"@[1] == 'n') by {
        reveal_strlit("end");
    }
    assert("pageup"@.len() == 6 && "pageup"@[0] == 'p' && "pageup"@[1] == 'a') by {
        reveal_strlit("pageup");
    }
    assert("pgup"@.len() == 4 && "pgup"@[0] == 'p' && "pgup"@[1] == 'g' && "pgup"@[2] == 'u') by {
        reveal_strlit("pgup");
    }
    assert("pagedown"@.len() == 8 && "pagedown"@[0] == 'p' && "pagedown"@[1] == 'a') by {
        reveal_strlit("pagedown");
    }
    assert("pgdn"@.len() == 4 && "pgdn"@[0] == 'p' && "pgdn"@[1] == 'g' && "pgdn"@[2] == 'd') by {
        reveal_strlit("pgdn");
    }
    assert("up"@.len() == 2 && "up"@[0] == 'u' && "up"@[1] == 'p') by {
        reveal_strlit("up");
    }
    assert("down"@.len() == 4 && "down"@[0] == 'd' && "down"@[1] == 'o') by {
        reveal_strlit("down");
    }
    assert("left"@.len() == 4 && "left"@[0] == 'l' && "left"@[1] == 'e') by {
        reveal_strlit("left");
    }
    assert("right"@.len() == 5 && "right"@[0] == 'r' && "right"@[1] == 'i') by {
        reveal_strlit("right");
    }
    match code {
        KeyCode::Char(c) => {
            if c == ' ' {
                reveal_strlit("Space");
                reveal_strlit("space");
                assert(ascii_lower("Space"@) =~= "space"@);
            } else {
                assert(code_text(code) =~= seq![c]);
            }
        },
        KeyCode::F(n) => {
            reveal_strlit("F");
            lemma_decimal(n as nat);
            let d = decimal(n as nat);
            lemma_ascii_lower_digits(d);
            let t = "F"@ + d;
            let l = ascii_lower(t);
            assert(l =~= seq!['f'] + d);
            assert(l.skip(1) =~= d);
            assert(is_digit(d[0]));
            assert(parse_int(d, false, 0, 255) == Some(n as int));
        },
        KeyCode::Enter => {
            reveal_strlit("Enter");
            reveal_strlit("enter");
            assert(ascii_lower("Enter"@) =~= "enter"@);
        },
        KeyCode::Esc => {
            reveal_strlit("Esc");
            reveal_strlit("esc");
            assert(ascii_lower("Esc"@) =~= "esc"@);
        },
        KeyCode::Tab => {
            reveal_strlit("Tab");
            reveal_strlit("tab");
            assert(ascii_lower("Tab"@) =~= "tab"@);
        },
        KeyCode::BackTab => {
            reveal_strlit("BackTab");
            reveal_strlit("backtab");
            assert(ascii_lower("BackTab"@) =~= "backtab"@);
        },
        KeyCode::Backspace => {
            reveal_strlit("Backspace");
            reveal_strlit("backspace");
            assert(ascii_lower("Backspace"@) =~= "backspace"@);
        },
        KeyCode::Delete => {
            reveal_strlit("Delete");
            reveal_strlit("delete");
            assert(ascii_lower("Delete"@) =~= "delete"@);
        },
        KeyCode::Insert => {
            reveal_strlit("Insert");
            reveal_strlit("insert");
            assert(ascii_lower("Insert"@) =~= "insert"@);
        },
        KeyCode::Home => {
            reveal_strlit("Home");
            reveal_strlit("home");
            assert(ascii_lower("Home"@) =~= "home"@);
        },
        KeyCode::End => {
            reveal_strlit("End");
            reveal_strlit("end");
            assert(ascii_lower("End"@) =~= "end"@);
        },
        KeyCode::PageUp => {
            reveal_strlit("PageUp");
            reveal_strlit("pageup");
            assert(ascii_lower("PageUp"@) =~= "pageup"@);
        },
        KeyCode::PageDown => {
            reveal_strlit("PageDown");
            reveal_strlit("pagedown");
            assert(ascii_lower("PageDown"@) =~= "pagedown"@);
        },
        KeyCode::Up => {
            reveal_strlit("Up");
            reveal_strlit("up");
            assert(ascii_lower("Up"@) =~= "up"@);
        },
        KeyCode::Down => {
            reveal_strlit("Down");
            reveal_strlit("down");
            assert(ascii_lower("Down"@) =~= "down"@);
        },
        KeyCode::Left => {
            reveal_strlit("Left");
            reveal_strlit("left");
            assert(ascii_lower("Left"@) =~= "left"@);
        },
        KeyCode::Right => {
            reveal_strlit("Right");
            reveal_strlit("right");
            assert(ascii_lower("Right"@) =~= "right"@);
        },
        _ => {},
    }
}

/// The text of a printable key: not empty, no whitespace, and no `+` unless
/// it is the `+` key itself.
proof fn lemma_code_text_shape(code: KeyCode)
    requires
        printable_code(code),
    ensures
        code_text(code).len() > 0,
        forall|k: int| 0 <= k < code_text(code).len() ==> !is_ws(#[trigger] code_text(code)[k]),
        code_text(code) == seq!['+'] || forall|k: int|
            0 <= k < code_text(code).len() ==> #[trigger] code_text(code)[k] != '+',
{
    match code {
        KeyCode::Char(c) => {
            if c == ' ' {
                reveal_strlit("Space");
                assert(code_text(code) =~= seq!['S', 'p', 'a', 'c', 'e']);
            } else {
                assert(code_text(code) =~= seq![c]);
            }
        },
        KeyCode::F(n) => {
            reveal_strlit("F");
            lemma_decimal(n as nat);
            let d = decimal(n as nat);
            assert forall|k: int| 0 <= k < code_text(code).len() implies !is_ws(#[trigger] code_text(code)[k])
                && code_text(code)[k] != '+' by {
                if k > 0 {
                    assert(code_text(code)[k] == d[k - 1]);
                    assert(is_digit(d[k - 1]));
                }
            }
        },
        KeyCode::Enter => {
            reveal_strlit("Enter");
            assert(code_text(code) =~= seq!['E', 'n', 't', 'e', 'r']);
        },
        KeyCode::Esc => {
            reveal_strlit("Esc");
            assert(code_text(code) =~= seq!['E', 's', 'c']);
        },
        KeyCode::Tab => {
            reveal_strlit("Tab");
            assert(code_text(code) =~= seq!['T', 'a', 'b']);
        },
        KeyCode::BackTab => {
            reveal_strlit("BackTab");
            assert(code_text(code) =~= seq!['B', 'a', 'c', 'k', 'T', 'a', 'b']);
        },
        KeyCode::Backspace => {
            reveal_strlit("Backspace");
            assert(code_text(code) =~= seq!['B', 'a', 'c', 'k', 's', 'p', 'a', 'c', 'e']);
        },
        KeyCode::Delete => {
            reveal_strlit("Delete");
            assert(code_text(code) =~= seq!['D', 'e', 'l', 'e', 't', 'e']);
        },
        KeyCode::Insert => {
            reveal_strlit("Insert");
            assert(code_text(code) =~= seq!['I', 'n', 's', 'e', 'r', 't']);
        },
        KeyCode::Home => {
            reveal_strlit("Home");
            assert(code_text(code) =~= seq!['H', 'o', 'm', 'e']);
        },
        KeyCode::End => {
            reveal_strlit("End");
            assert(code_text(code) =~= seq!['E', 'n', 'd']);
        },
        KeyCode::PageUp => {
            reveal_strlit("PageUp");
            assert(code_text(code) =~= seq!['P', 'a', 'g', 'e', 'U', 'p']);
        },
        KeyCode::PageDown => {
            reveal_strlit("PageDown");
            assert(code_text(code) =~= seq!['P', 'a', 'g', 'e', 'D', 'o', 'w', 'n']);
        },
        KeyCode::Up => {
            reveal_strlit("Up");
            assert(code_text(code) =~= seq!['U', 'p']);
        },
        KeyCode::Down => {
            reveal_strlit("Down");
            assert(code_text(code) =~= seq!['D', 'o', 'w', 'n']);
        },
        KeyCode::Left => {
            reveal_strlit("Left");
            assert(code_text(code) =~= seq!['L', 'e', 'f', 't']);
        },
        KeyCode::Right => {
            reveal_strlit("Right");
            assert(code_text(code) =~= seq!['R', 'i', 'g', 'h', 't']);
        },
        _ => {},
    }
}

pub open spec fn ctrl_word() -> Seq<char> {
    "Ctrl+"@.drop_last()
}

pub open spec fn alt_word() -> Seq<char> {
    "Alt+"@.drop_last()
}

pub open spec fn shift_word() -> Seq<char> {
    "Shift+"@.drop_last()
}

/// The modifier pieces a chord's text starts with.
pub open spec fn mods_words(m: KeyModifiers) -> Seq<Seq<char>> {
    (if m.control {
        seq![ctrl_word()]
    } else {
        Seq::empty()
    }) + (if m.alt {
        seq![alt_word()]
    } else {
        Seq::empty()
    }) + (if m.shift {
        seq![shift_word()]
    } else {
        Seq::empty()
    })
}

proof fn lemma_mod_words()
    ensures
        ctrl_word() == seq!['C', 't', 'r', 'l'],
        alt_word() == seq!['A', 'l', 't'],
        shift_word() == seq!['S', 'h', 'i', 'f', 't'],
        "Ctrl+"@ == ctrl_word().push('+'),
        "Alt+"@ == alt_word().push('+'),
        "Shift+"@ == shift_word().push('+'),
        modifier_named(ctrl_word()) == Some(KeyModifiers { control: true, ..no_mods() }),
        modifier_named(alt_word()) == Some(KeyModifiers { alt: true, ..no_mods() }),
        modifier_named(shift_word()) == Some(KeyModifiers { shift: true, ..no_mods() }),
{
    assert(ctrl_word() =~= seq!['C', 't', 'r', 'l'] && "Ctrl+"@ =~= ctrl_word().push('+')) by {
        reveal_strlit("Ctrl+");
    }
    assert(alt_word() =~= seq!['A', 'l', 't'] && "Alt+"@ =~= alt_word().push('+')) by {
        reveal_strlit("Alt+");
    }
    assert(shift_word() =~= seq!['S', 'h', 'i', 'f', 't'] && "Shift+"@ =~= shift_word().push('+')) by {
        reveal_strlit("Shift+");
    }
    assert(ascii_lower(ctrl_word()) =~= "ctrl"@) by {
        reveal_strlit("ctrl");
    }
    assert(ascii_lower(alt_word()) =~= "alt"@) by {
        reveal_strlit("alt");
    }
    assert(ascii_lower(shift_word()) =~= "shift"@) by {
        reveal_strlit("shift");
    }
    // The other spellings differ in length from the ones printed.
    assert("control"@.len() == 7) by {
        reveal_strlit("control");
    }
    assert("meta"@.len() == 4) by {
        reveal_strlit("meta");
    }
}

/// The text of a chord splits at `+` into its modifier words and the
/// pieces of its key's text.
proof fn lemma_chord_text_split(c: KeyChord)
    ensures
        split_char(chord_text(c), '+') == mods_words(c.mods) + split_char(code_text(c.code), '+'),
{
    lemma_mod_words();
    let t = code_text(c.code);
    let e = Seq::<char>::empty();
    let t3 = (if c.mods.shift { "Shift+"@ } else { e }) + t;
    let t2 = (if c.mods.alt { "Alt+"@ } else { e }) + t3;
    let t1 = (if c.mods.control { "Ctrl+"@ } else { e }) + t2;
    let w3: Seq<Seq<char>> = if c.mods.shift { seq![shift_word()] } else { Seq::empty() };
    let w2: Seq<Seq<char>> = if c.mods.alt { seq![alt_word()] } else { Seq::empty() };
    let w1: Seq<Seq<char>> = if c.mods.control { seq![ctrl_word()] } else { Seq::empty() };
    if c.mods.shift {
        assert(t3 =~= shift_word().push('+') + t);
        lemma_split_word_then(shift_word(), t);
    } else {
        assert(t3 =~= t);
    }
    assert(split_char(t3, '+') =~= w3 + split_char(t, '+'));
    if c.mods.alt {
        assert(t2 =~= alt_word().push('+') + t3);
        lemma_split_word_then(alt_word(), t3);
    } else {
        assert(t2 =~= t3);
    }
    assert(split_char(t2, '+') =~= w2 + (w3 + split_char(t, '+')));
    if c.mods.control {
        assert(t1 =~= ctrl_word().push('+') + t2);
        lemma_split_word_then(ctrl_word(), t2);
    } else {
        assert(t1 =~= t2);
    }
    assert(chord_text(c) =~= t1);
    assert(mods_words(c.mods) =~= w1 + w2 + w3);
    assert(split_char(chord_text(c), '+') =~= mods_words(c.mods) + split_char(t, '+'));
}

proof fn lemma_mods_words_read(m: KeyModifiers)
    requires
        !m.super_key && !m.hyper && !m.meta,
    ensures
        first_unknown_modifier(mods_words(m), 0) is None,
        modifiers_named(mods_words(m)) == m,
{
    lemma_mod_words();
    let w = mods_words(m);
    assert forall|j: int| 0 <= j < w.len() implies modifier_named(#[trigger] w[j]) is Some by {
        if m.control && j == 0 {
            assert(w[j] == ctrl_word());
        } else if m.alt && j == (if m.control { 1int } else { 0 }) {
            assert(w[j] == alt_word());
        } else {
            assert(w[j] == shift_word());
        }
    }
    lemma_first_unknown_at(w, 0, w.len() as int);
    reveal_with_fuel(modifiers_named, 4);
    let w1: Seq<Seq<char>> = if m.control { seq![ctrl_word()] } else { Seq::empty() };
    let w12: Seq<Seq<char>> = w1 + if m.alt { seq![alt_word()] } else { Seq::empty() };
    if m.shift {
        assert(w.drop_last() =~= w12);
    } else {
        assert(w =~= w12);
    }
    if m.alt {
        assert(w12.drop_last() =~= w1);
    } else {
        assert(w12 =~= w1);
    }
    if m.control {
        assert(w1.drop_last() =~= Seq::<Seq<char>>::empty());
    }
}

/// A printable chord's text reads back as the chord, and is a single word.
proof fn lemma_chord_text_parses(c: KeyChord)
    requires
        printable_chord(c),
    ensures
        chord_parse(chord_text(c)) == Ok::<KeyChord, Seq<char>>(c),
        chord_text(c).len() > 0,
        forall|k: int| 0 <= k < chord_text(c).len() ==> !is_ws(#[trigger] chord_text(c)[k]),
{
    lemma_mod_words();
    lemma_code_text_shape(c.code);
    lemma_key_named_text(c.code);
    lemma_chord_text_split(c);
    lemma_mods_words_read(c.mods);
    let t = code_text(c.code);
    let w = mods_words(c.mods);
    let s = chord_text(c);
    let p = split_char(s, '+');
    if t == seq!['+'] {
        assert(t.drop_last() =~= Seq::<char>::empty());
        assert(t.last() == '+');
        assert(split_char(t.drop_last(), '+') =~= seq![Seq::<char>::empty()]);
        assert(split_char(t, '+') =~= seq![Seq::<char>::empty(), Seq::<char>::empty()]);
        assert(p.drop_last() =~= w.push(Seq::<char>::empty()));
        assert(plus_parts(s) =~= w.push(seq!['+']));
    } else {
        lemma_split_no_sep(t, '+');
        assert(plus_parts(s) =~= w.push(t));
    }
    assert(plus_parts(s).drop_last() =~= w);
    let e = Seq::<char>::empty();
    let pre = (if c.mods.control { "Ctrl+"@ } else { e }) + (if c.mods.alt { "Alt+"@ } else { e }) + (
    if c.mods.shift {
        "Shift+"@
    } else {
        e
    });
    assert(s =~= pre + t);
    assert forall|k: int| 0 <= k < s.len() implies !is_ws(#[trigger] s[k]) by {
        if k >= pre.len() {
            assert(s[k] == t[k - pre.len()]);
        } else {
            assert(forall|j: int| 0 <= j < pre.len() ==> (pre[j] == '+' || pre[j] == 'C' || pre[j] == 't' || pre[j] == 'r' || pre[j] == 'l' || pre[j] == 'A' || pre[j] == 'S' || pre[j] == 'h' || pre[j] == 'i' || pre[j] == 'f'));
        }
    }
}

/// Printing a binding and reading it back gives the same binding, for every
/// binding read from a key string.
pub proof fn law_format_then_parse(s: Seq<char>)
    requires
        binding_parse(s) is Ok,
    ensures
        binding_parse(binding_text(binding_parse(s)->Ok_0)) == binding_parse(s),
{
    let ws = words(s);
    lemma_words_no_ws(s);
    assert(chord_parse(ws[0]) is Ok);
    assert(forall|k: int| 0 <= k < ws[0].len() ==> !is_ws(#[trigger] ws[0][k]));
    lemma_parsed_chord_printable(ws[0]);
    let a = chord_parse(ws[0])->Ok_0;
    lemma_chord_text_parses(a);
    let ta = chord_text(a);
    lemma_words_single(ta);
    if ws.len() == 1 {
        assert(binding_text(binding_parse(s)->Ok_0) == ta);
    } else {
        assert(forall|k: int| 0 <= k < ws[1].len() ==> !is_ws(#[trigger] ws[1][k]));
        lemma_parsed_chord_printable(ws[1]);
        let b = chord_parse(ws[1])->Ok_0;
        lemma_chord_text_parses(b);
        let tb = chord_text(b);
        lemma_words_single(tb);
        reveal_strlit(" ");
        assert(ta + " "@ + tb =~= ta.push(' ') + tb);
        lemma_words_join(ta, tb);
        assert(words(ta + " "@ + tb) =~= seq![ta, tb]);
    }
}

} // verus!
