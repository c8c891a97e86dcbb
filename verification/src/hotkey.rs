//! Hotkey strings such as "Alt+W" and the keyboard watcher that turns key
//! events into the two triggers: triple Ctrl+C (translate the clipboard) and
//! the configured screenshot hotkey.
use vstd::prelude::*;

use crate::text::{
    all_ascii, all_whitespace, ascii_lower_char, ascii_lowercase, blank, chars_of, char_is_whitespace,
    first_chars, free_of, is_blank, join_with, lemma_split_join, lemma_trim_padded, lowercase, take_chars, split_on, split_ranges, to_lowercase, trim, trim_str,
    lemma_split_on_nonempty,
};

verus! {

/// A letter or digit key that a hotkey can end in.
#[derive(Debug, Clone, Copy, PartialEq, Eq, Structural)]
pub enum Key {
    KeyA,
    KeyB,
    KeyC,
    KeyD,
    KeyE,
    KeyF,
    KeyG,
    KeyH,
    KeyI,
    KeyJ,
    KeyK,
    KeyL,
    KeyM,
    KeyN,
    KeyO,
    KeyP,
    KeyQ,
    KeyR,
    KeyS,
    KeyT,
    KeyU,
    KeyV,
    KeyW,
    KeyX,
    KeyY,
    KeyZ,
    Num0,
    Num1,
    Num2,
    Num3,
    Num4,
    Num5,
    Num6,
    Num7,
    Num8,
    Num9,
}

/// The key that a (lowercase) character names, if it names one.
pub open spec fn spec_char_to_key(c: char) -> Option<Key> {
    match c {
        'a' => Some(Key::KeyA),
        'b' => Some(Key::KeyB),
        'c' => Some(Key::KeyC),
        'd' => Some(Key::KeyD),
        'e' => Some(Key::KeyE),
        'f' => Some(Key::KeyF),
        'g' => Some(Key::KeyG),
        'h' => Some(Key::KeyH),
        'i' => Some(Key::KeyI),
        'j' => Some(Key::KeyJ),
        'k' => Some(Key::KeyK),
        'l' => Some(Key::KeyL),
        'm' => Some(Key::KeyM),
        'n' => Some(Key::KeyN),
        'o' => Some(Key::KeyO),
        'p' => Some(Key::KeyP),
        'q' => Some(Key::KeyQ),
        'r' => Some(Key::KeyR),
        's' => Some(Key::KeyS),
        't' => Some(Key::KeyT),
        'u' => Some(Key::KeyU),
        'v' => Some(Key::KeyV),
        'w' => Some(Key::KeyW),
        'x' => Some(Key::KeyX),
        'y' => Some(Key::KeyY),
        'z' => Some(Key::KeyZ),
        '0' => Some(Key::Num0),
        '1' => Some(Key::Num1),
        '2' => Some(Key::Num2),
        '3' => Some(Key::Num3),
        '4' => Some(Key::Num4),
        '5' => Some(Key::Num5),
        '6' => Some(Key::Num6),
        '7' => Some(Key::Num7),
        '8' => Some(Key::Num8),
        '9' => Some(Key::Num9),
        _ => None,
    }
}

/// The key that a lowercase ASCII letter or digit names.
pub fn char_to_key(c: char) -> (r: Option<Key>)
    ensures
        r == spec_char_to_key(c),
{
    match c {
        'a' => Some(Key::KeyA),
        'b' => Some(Key::KeyB),
        'c' => Some(Key::KeyC),
        'd' => Some(Key::KeyD),
        'e' => Some(Key::KeyE),
        'f' => Some(Key::KeyF),
        'g' => Some(Key::KeyG),
        'h' => Some(Key::KeyH),
        'i' => Some(Key::KeyI),
        'j' => Some(Key::KeyJ),
        'k' => Some(Key::KeyK),
        'l' => Some(Key::KeyL),
        'm' => Some(Key::KeyM),
        'n' => Some(Key::KeyN),
        'o' => Some(Key::KeyO),
        'p' => Some(Key::KeyP),
        'q' => Some(Key::KeyQ),
        'r' => Some(Key::KeyR),
        's' => Some(Key::KeyS),
        't' => Some(Key::KeyT),
        'u' => Some(Key::KeyU),
        'v' => Some(Key::KeyV),
        'w' => Some(Key::KeyW),
        'x' => Some(Key::KeyX),
        'y' => Some(Key::KeyY),
        'z' => Some(Key::KeyZ),
        '0' => Some(Key::Num0),
        '1' => Some(Key::Num1),
        '2' => Some(Key::Num2),
        '3' => Some(Key::Num3),
        '4' => Some(Key::Num4),
        '5' => Some(Key::Num5),
        '6' => Some(Key::Num6),
        '7' => Some(Key::Num7),
        '8' => Some(Key::Num8),
        '9' => Some(Key::Num9),
        _ => None,
    }
}

/// Each lowercase letter and each digit names the key labelled with that same
/// character ('x' the X key, '7' the 7 key), and no other character names a
/// key.
pub proof fn lemma_char_names_its_key(c: char)
    ensures
        spec_char_to_key('a') == Some(Key::KeyA),
        spec_char_to_key('b') == Some(Key::KeyB),
        spec_char_to_key('c') == Some(Key::KeyC),
        spec_char_to_key('d') == Some(Key::KeyD),
        spec_char_to_key('e') == Some(Key::KeyE),
        spec_char_to_key('f') == Some(Key::KeyF),
        spec_char_to_key('g') == Some(Key::KeyG),
        spec_char_to_key('h') == Some(Key::KeyH),
        spec_char_to_key('i') == Some(Key::KeyI),
        spec_char_to_key('j') == Some(Key::KeyJ),
        spec_char_to_key('k') == Some(Key::KeyK),
        spec_char_to_key('l') == Some(Key::KeyL),
        spec_char_to_key('m') == Some(Key::KeyM),
        spec_char_to_key('n') == Some(Key::KeyN),
        spec_char_to_key('o') == Some(Key::KeyO),
        spec_char_to_key('p') == Some(Key::KeyP),
        spec_char_to_key('q') == Some(Key::KeyQ),
        spec_char_to_key('r') == Some(Key::KeyR),
        spec_char_to_key('s') == Some(Key::KeyS),
        spec_char_to_key('t') == Some(Key::KeyT),
        spec_char_to_key('u') == Some(Key::KeyU),
        spec_char_to_key('v') == Some(Key::KeyV),
        spec_char_to_key('w') == Some(Key::KeyW),
        spec_char_to_key('x') == Some(Key::KeyX),
        spec_char_to_key('y') == Some(Key::KeyY),
        spec_char_to_key('z') == Some(Key::KeyZ),
        spec_char_to_key('0') == Some(Key::Num0),
        spec_char_to_key('1') == Some(Key::Num1),
        spec_char_to_key('2') == Some(Key::Num2),
        spec_char_to_key('3') == Some(Key::Num3),
        spec_char_to_key('4') == Some(Key::Num4),
        spec_char_to_key('5') == Some(Key::Num5),
        spec_char_to_key('6') == Some(Key::Num6),
        spec_char_to_key('7') == Some(Key::Num7),
        spec_char_to_key('8') == Some(Key::Num8),
        spec_char_to_key('9') == Some(Key::Num9),
        !(97 <= (c as u32) <= 122 || 48 <= (c as u32) <= 57) ==> spec_char_to_key(c) is None,
{
}

/// A key combination: the modifiers must match exactly.
#[derive(Debug, Clone, Copy, PartialEq, Eq, Structural)]
pub struct Hotkey {
    pub ctrl: bool,
    pub alt: bool,
    pub shift: bool,
    pub key: Key,
}


/// What has been read of a hotkey string so far.
#[derive(Debug, Clone, Copy, PartialEq, Eq, Structural)]
pub struct HotkeyDraft {
    pub ctrl: bool,
    pub alt: bool,
    pub shift: bool,
    pub key: Option<Key>,
}

/// Nothing read yet.
pub open spec fn empty_draft() -> HotkeyDraft {
    HotkeyDraft { ctrl: false, alt: false, shift: false, key: None }
}

/// Reads one (trimmed, lowercased) part of a hotkey string. A modifier may be
/// named once; any other part must be the single character of the one key.
pub open spec fn draft_step(d: HotkeyDraft, part: Seq<char>) -> Option<HotkeyDraft> {
    if (part == "ctrl"@ || part == "control"@) && !d.ctrl {
        Some(HotkeyDraft { ctrl: true, ..d })
    } else if part == "alt"@ && !d.alt {
        Some(HotkeyDraft { alt: true, ..d })
    } else if part == "shift"@ && !d.shift {
        Some(HotkeyDraft { shift: true, ..d })
    } else if d.key is Some {
        None
    } else if part.len() != 1 {
        None
    } else {
        match spec_char_to_key(part[0]) {
            Some(k) => Some(HotkeyDraft { key: Some(k), ..d }),
            None => None,
        }
    }
}

/// Reads all parts in order; `None` once a part is refused.
pub open spec fn draft_of(parts: Seq<Seq<char>>) -> Option<HotkeyDraft>
    decreases parts.len(),
{
    if parts.len() == 0 {
        Some(empty_draft())
    } else {
        match draft_of(parts.drop_last()) {
            Some(d) => draft_step(d, parts.last()),
            None => None,
        }
    }
}

/// The hotkey that the parts describe: it needs a key and at least one modifier.
pub open spec fn hotkey_of_parts(parts: Seq<Seq<char>>) -> Option<Hotkey> {
    match draft_of(parts) {
        Some(d) => match d.key {
            Some(k) => if d.ctrl || d.alt || d.shift {
                Some(Hotkey { ctrl: d.ctrl, alt: d.alt, shift: d.shift, key: k })
            } else {
                None
            },
            None => None,
        },
        None => None,
    }
}

/// The parts of a hotkey string: split at `+`, each trimmed and lowercased.
pub open spec fn hotkey_parts(s: Seq<char>) -> Seq<Seq<char>> {
    split_on(s, '+').map_values(|p: Seq<char>| lowercase(trim(p)))
}

/// The hotkey that a string such as "Ctrl + Shift + S" describes.
pub open spec fn spec_parse_hotkey(s: Seq<char>) -> Option<Hotkey> {
    hotkey_of_parts(hotkey_parts(s))
}

/// Once a part is refused, no later part makes the string acceptable.
pub proof fn lemma_draft_refused_stays(parts: Seq<Seq<char>>, i: int)
    requires
        0 <= i <= parts.len(),
        draft_of(parts.take(i)) is None,
    ensures
        draft_of(parts) is None,
    decreases parts.len() - i,
{
    if i < parts.len() {
        assert(parts.take(i + 1).drop_last() =~= parts.take(i));
        lemma_draft_refused_stays(parts, i + 1);
    } else {
        assert(parts.take(i) =~= parts);
    }
}

/// Every accepted hotkey has a key and at least one modifier.
pub proof fn lemma_hotkey_has_modifier(s: Seq<char>)
    ensures
        spec_parse_hotkey(s) matches Some(h) ==> h.ctrl || h.alt || h.shift,
{
}

/// Whether a (lowercase) part names the Control modifier.
pub open spec fn is_ctrl_word(t: Seq<char>) -> bool {
    t == "ctrl"@ || t == "control"@
}

/// Whether a (lowercase) part is the single character naming key `k`.
pub open spec fn names_key(t: Seq<char>, k: Key) -> bool {
    t.len() == 1 && spec_char_to_key(t[0]) == Some(k)
}

/// Whether a (lowercase) part is a modifier name or the character of key `k`.
pub open spec fn hotkey_token(t: Seq<char>, k: Key) -> bool {
    is_ctrl_word(t) || t == "alt"@ || t == "shift"@ || names_key(t, k)
}

/// How many parts satisfy `p`.
pub open spec fn count_parts(toks: Seq<Seq<char>>, p: spec_fn(Seq<char>) -> bool) -> nat
    decreases toks.len(),
{
    if toks.len() == 0 {
        0
    } else {
        count_parts(toks.drop_last(), p) + if p(toks.last()) {
            1nat
        } else {
            0nat
        }
    }
}

/// Whether `toks`, in whatever order, name exactly the modifiers of `hk`, each
/// once, and its key once, with nothing else.
pub open spec fn describes(toks: Seq<Seq<char>>, hk: Hotkey) -> bool {
    &&& forall|i: int| 0 <= i < toks.len() ==> hotkey_token(#[trigger] toks[i], hk.key)
    &&& count_parts(toks, |t: Seq<char>| is_ctrl_word(t)) == (if hk.ctrl { 1nat } else { 0nat })
    &&& count_parts(toks, |t: Seq<char>| t == "alt"@) == (if hk.alt { 1nat } else { 0nat })
    &&& count_parts(toks, |t: Seq<char>| t == "shift"@) == (if hk.shift { 1nat } else { 0nat })
    &&& count_parts(toks, |t: Seq<char>| names_key(t, hk.key)) == 1
}

/// The draft read from parts that are all modifier names or the key's
/// character, none twice: exactly the modifiers and the key that occur.
proof fn lemma_draft_of_counts(toks: Seq<Seq<char>>, k: Key)
    requires
        forall|i: int| 0 <= i < toks.len() ==> hotkey_token(#[trigger] toks[i], k),
        count_parts(toks, |t: Seq<char>| is_ctrl_word(t)) <= 1,
        count_parts(toks, |t: Seq<char>| t == "alt"@) <= 1,
        count_parts(toks, |t: Seq<char>| t == "shift"@) <= 1,
        count_parts(toks, |t: Seq<char>| names_key(t, k)) <= 1,
    ensures
        draft_of(toks) == Some(
            HotkeyDraft {
                ctrl: count_parts(toks, |t: Seq<char>| is_ctrl_word(t)) == 1,
                alt: count_parts(toks, |t: Seq<char>| t == "alt"@) == 1,
                shift: count_parts(toks, |t: Seq<char>| t == "shift"@) == 1,
                key: if count_parts(toks, |t: Seq<char>| names_key(t, k)) == 1 {
                    Some(k)
                } else {
                    None
                },
            },
        ),
    decreases toks.len(),
{
    reveal_strlit("ctrl");
    reveal_strlit("control");
    reveal_strlit("alt");
    reveal_strlit("shift");
    if toks.len() > 0 {
        let init = toks.drop_last();
        assert forall|i: int| 0 <= i < init.len() implies hotkey_token(#[trigger] init[i], k) by {
            assert(init[i] == toks[i]);
        }
        lemma_draft_of_counts(init, k);
        let t = toks.last();
        assert(hotkey_token(toks[toks.len() - 1], k));
        assert("ctrl"@.len() == 4 && "control"@.len() == 7 && "alt"@.len() == 3 && "shift"@.len()
            == 5);
        assert("alt"@ != "ctrl"@ && "alt"@ != "control"@ && "shift"@ != "ctrl"@ && "shift"@
            != "control"@ && "alt"@ != "shift"@);
    }
}

/// Hotkey strings may name the modifiers and the key in any order: whenever
/// the parts of `s` (split at `+`, trimmed, lowercased) name exactly the
/// modifiers of `hk` and its key, each once, `s` parses to `hk`.
pub proof fn lemma_parse_hotkey_any_order(s: Seq<char>, hk: Hotkey)
    requires
        hk.ctrl || hk.alt || hk.shift,
        describes(hotkey_parts(s), hk),
    ensures
        spec_parse_hotkey(s) == Some(hk),
{
    lemma_draft_of_counts(hotkey_parts(s), hk.key);
}

/// Whether every character of `t` is a small ASCII letter or a digit.
pub open spec fn lower_alnum(t: Seq<char>) -> bool {
    forall|j: int|
        0 <= j < t.len() ==> (48 <= (#[trigger] t[j] as u32) <= 57 || 97 <= (t[j] as u32) <= 122)
}

/// Modifier names and key characters are small letters and digits, never empty.
proof fn lemma_token_shape(t: Seq<char>, k: Key)
    requires
        hotkey_token(t, k),
    ensures
        lower_alnum(t),
        t.len() > 0,
{
    reveal_strlit("ctrl");
    reveal_strlit("control");
    reveal_strlit("alt");
    reveal_strlit("shift");
}

/// A character whose ASCII lowercase form is a small letter or digit is
/// neither whitespace nor `+`.
proof fn lemma_alnum_source(c: char)
    requires
        48 <= (ascii_lower_char(c) as u32) <= 57 || 97 <= (ascii_lower_char(c) as u32) <= 122,
    ensures
        !char_is_whitespace(c),
        c != '+',
{
}

/// Whitespace is never `+`.
proof fn lemma_whitespace_not_plus(s: Seq<char>)
    requires
        all_whitespace(s),
    ensures
        free_of(s, '+'),
{
    assert forall|i: int| 0 <= i < s.len() implies s[i] != '+' by {
        assert(char_is_whitespace(s[i]));
    }
}

/// The string of parts `lefts[i] + cores[i] + rights[i]` joined with `+`.
pub open spec fn padded_join(lefts: Seq<Seq<char>>, cores: Seq<Seq<char>>, rights: Seq<Seq<char>>) -> Seq<char> {
    join_with(Seq::new(cores.len(), |i: int| lefts[i] + cores[i] + rights[i]), '+')
}

/// Writing a hotkey round-trips: name its modifiers ("Ctrl" or "Control",
/// "Alt", "Shift") and its key character, each once, in any order and any
/// ASCII case, pad each part with any whitespace, join them with `+`, and the
/// string parses back to the hotkey.
pub proof fn lemma_parse_hotkey_round_trip(
    lefts: Seq<Seq<char>>,
    cores: Seq<Seq<char>>,
    rights: Seq<Seq<char>>,
    hk: Hotkey,
)
    requires
        hk.ctrl || hk.alt || hk.shift,
        cores.len() >= 1,
        lefts.len() == cores.len(),
        rights.len() == cores.len(),
        forall|i: int|
            0 <= i < cores.len() ==> all_whitespace(#[trigger] lefts[i]) && all_whitespace(
                rights[i],
            ) && all_ascii(cores[i]),
        describes(cores.map_values(|c: Seq<char>| ascii_lowercase(c)), hk),
    ensures
        spec_parse_hotkey(padded_join(lefts, cores, rights)) == Some(hk),
{
    let ps = Seq::new(cores.len(), |i: int| lefts[i] + cores[i] + rights[i]);
    let toks = cores.map_values(|c: Seq<char>| ascii_lowercase(c));
    assert forall|i: int| 0 <= i < ps.len() implies free_of(#[trigger] ps[i], '+') && lowercase(
        trim(ps[i]),
    ) == toks[i] by {
        let c = cores[i];
        assert(hotkey_token(toks[i], hk.key));
        lemma_token_shape(toks[i], hk.key);
        assert forall|j: int| 0 <= j < c.len() implies !char_is_whitespace(#[trigger] c[j]) && c[j]
            != '+' by {
            assert(toks[i][j] == ascii_lower_char(c[j]));
            lemma_alnum_source(c[j]);
        }
        lemma_whitespace_not_plus(lefts[i]);
        lemma_whitespace_not_plus(rights[i]);
        assert forall|j: int| 0 <= j < ps[i].len() implies ps[i][j] != '+' by {
            if j < lefts[i].len() {
                assert(ps[i][j] == lefts[i][j]);
            } else if j < lefts[i].len() + c.len() {
                assert(ps[i][j] == c[j - lefts[i].len()]);
            } else {
                assert(ps[i][j] == rights[i][j - lefts[i].len() - c.len()]);
            }
        }
        lemma_trim_padded(lefts[i], c, rights[i]);
    }
    lemma_split_join(ps, '+');
    assert(hotkey_parts(padded_join(lefts, cores, rights)) =~= toks);
    lemma_parse_hotkey_any_order(padded_join(lefts, cores, rights), hk);
}

/// Whether a vector of characters spells `w`.
fn spells(v: &Vec<char>, w: &str) -> (r: bool)
    ensures
        r == (v@ == w@),
{
    let wv = chars_of(w);
    crate::text::chars_eq(v.as_slice(), wv.as_slice())
}

/// The hotkey that already trimmed and lowercased parts describe.
pub fn parse_hotkey_parts(parts: &Vec<String>) -> (r: Option<Hotkey>)
    ensures
        r == hotkey_of_parts(parts@.map_values(|p: String| p@)),
{
    let ghost ps = parts@.map_values(|p: String| p@);
    let mut d = HotkeyDraft { ctrl: false, alt: false, shift: false, key: None };
    let mut i: usize = 0;
    assert(ps.take(0) =~= Seq::<Seq<char>>::empty());
    while i < parts.len()
        invariant
            ps == parts@.map_values(|p: String| p@),
            i <= parts@.len(),
            draft_of(ps.take(i as int)) == Some(d),
        decreases parts@.len() - i,
    {
        let part = chars_of(parts[i].as_str());
        assert(ps.take(i + 1).drop_last() =~= ps.take(i as int));
        assert(ps.take(i + 1).last() == part@);
        let is_ctrl = spells(&part, "ctrl") || spells(&part, "control");
        if is_ctrl && !d.ctrl {
            d.ctrl = true;
        } else if spells(&part, "alt") && !d.alt {
            d.alt = true;
        } else if spells(&part, "shift") && !d.shift {
            d.shift = true;
        } else {
            if d.key.is_some() || part.len() != 1 {
                proof {
                    lemma_draft_refused_stays(ps, i + 1);
                }
                return None;
            }
            match char_to_key(part[0]) {
                Some(k) => {
                    d.key = Some(k);
                },
                None => {
                    proof {
                        lemma_draft_refused_stays(ps, i + 1);
                    }
                    return None;
                },
            }
        }
        i = i + 1;
    }
    assert(ps.take(parts@.len() as int) =~= ps);
    match d.key {
        Some(k) => if d.ctrl || d.alt || d.shift {
            Some(Hotkey { ctrl: d.ctrl, alt: d.alt, shift: d.shift, key: k })
        } else {
            None
        },
        None => None,
    }
}

/// Parses a hotkey such as "Alt+W" or "Ctrl+Shift+S": parts separated by `+`,
/// surrounding whitespace and case ignored, at least one modifier and exactly
/// one letter or digit, no modifier twice.
pub fn parse_hotkey(s: &str) -> (r: Option<Hotkey>)
    ensures
        r == spec_parse_hotkey(s@),
{
    let v = chars_of(s);
    let ranges = split_ranges(v.as_slice(), '+');
    let ghost pieces = split_on(s@, '+');
    let mut parts: Vec<String> = Vec::new();
    let mut i: usize = 0;
    while i < ranges.len()
        invariant
            v@ == s@,
            pieces == split_on(s@, '+'),
            ranges@.len() == pieces.len(),
            forall|k: int|
                0 <= k < ranges@.len() ==> {
                    &&& (#[trigger] ranges@[k]).0 <= ranges@[k].1 <= s@.len()
                    &&& s@.subrange(ranges@[k].0 as int, ranges@[k].1 as int) == pieces[k]
                },
            i <= ranges@.len(),
            parts@.len() == i,
            forall|k: int|
                0 <= k < i ==> (#[trigger] parts@[k])@ == lowercase(trim(pieces[k])),
        decreases ranges@.len() - i,
    {
        let (a, b) = ranges[i];
        let piece = s.substring_char(a, b);
        let lowered = to_lowercase(trim_str(piece));
        parts.push(lowered);
        i = i + 1;
    }
    assert(parts@.map_values(|p: String| p@) =~= hotkey_parts(s@));
    parse_hotkey_parts(&parts)
}


/// The message given back when the screenshot hotkey setting cannot be read.
pub const INVALID_HOTKEY_MESSAGE: &'static str = "截屏快捷键格式无效，示例：Alt+W、Ctrl+Shift+S（留空禁用）";

/// What a screenshot hotkey setting means: blank disables the hotkey, anything
/// else must parse (after trimming) or the setting is refused.
pub open spec fn spec_hotkey_setting(s: Seq<char>) -> Option<Option<Hotkey>> {
    if trim(s).len() == 0 {
        Some(None)
    } else {
        match spec_parse_hotkey(trim(s)) {
            Some(h) => Some(Some(h)),
            None => None,
        }
    }
}

/// Reads the screenshot hotkey setting before a configuration is saved: `Ok(None)`
/// when it is blank, `Ok(Some(..))` when it parses, else the error to show.
pub fn hotkey_setting(s: &str) -> (r: Result<Option<Hotkey>, String>)
    ensures
        match spec_hotkey_setting(s@) {
            Some(h) => r == Ok::<Option<Hotkey>, String>(h),
            None => r is Err && r->Err_0@ == INVALID_HOTKEY_MESSAGE@,
        },
{
    let t = trim_str(s);
    if t.unicode_len() == 0 {
        return Ok(None);
    }
    match parse_hotkey(t) {
        Some(h) => Ok(Some(h)),
        None => Err(String::from_str(INVALID_HOTKEY_MESSAGE)),
    }
}

/// Longest gap, in nanoseconds, between two Ctrl+C presses that still counts
/// them as one run.
pub const TRIPLE_WINDOW_NANOS: u64 = 600_000_000;

/// A key event as the keyboard watcher sees it.
#[derive(Debug, Clone, Copy, PartialEq, Eq, Structural)]
pub enum Keystroke {
    /// Either Control key.
    Ctrl,
    /// Alt or AltGr.
    Alt,
    /// Either Shift key.
    Shift,
    /// A letter or digit key.
    Char(Key),
    /// Any other key.
    Other,
}

/// What a key press asks the application to do.
#[derive(Debug, Clone, Copy, PartialEq, Eq, Structural)]
pub enum Trigger {
    /// Translate the clipboard (third Ctrl+C in a row).
    Translate,
    /// Open the screenshot overlay (the configured hotkey).
    Snip,
}

/// The keyboard watcher's state: which modifiers are held, how many Ctrl+C
/// presses form the current run, and when the last one came (nanoseconds on a
/// monotonic clock).
#[derive(Debug, Clone, Copy, PartialEq, Eq, Structural)]
pub struct WatcherState {
    pub ctrl: bool,
    pub alt: bool,
    pub shift: bool,
    pub count: u32,
    pub last: u64,
}

/// The modifier flags after key `k` goes down.
pub open spec fn with_pressed(s: WatcherState, k: Keystroke) -> WatcherState {
    match k {
        Keystroke::Ctrl => WatcherState { ctrl: true, ..s },
        Keystroke::Alt => WatcherState { alt: true, ..s },
        Keystroke::Shift => WatcherState { shift: true, ..s },
        _ => s,
    }
}

/// The modifier flags after key `k` comes up.
pub open spec fn spec_release(s: WatcherState, k: Keystroke) -> WatcherState {
    match k {
        Keystroke::Ctrl => WatcherState { ctrl: false, ..s },
        Keystroke::Alt => WatcherState { alt: false, ..s },
        Keystroke::Shift => WatcherState { shift: false, ..s },
        _ => s,
    }
}

/// Time from `last` to `now`, zero if `now` is earlier.
pub open spec fn elapsed(last: u64, now: u64) -> int {
    if now >= last {
        now - last
    } else {
        0
    }
}

/// Whether `hk` fires on key `k` with the modifiers of `s`.
pub open spec fn hotkey_fires(s: WatcherState, k: Keystroke, hk: Option<Hotkey>) -> bool {
    match hk {
        Some(h) => k == Keystroke::Char(h.key) && s.ctrl == h.ctrl && s.alt == h.alt && s.shift
            == h.shift,
        None => false,
    }
}

/// A key press: Ctrl+C extends the run when it comes within the window of the
/// previous one (else starts a new run); the third of a run triggers a
/// translation and ends the run. Any other press fires the screenshot hotkey
/// when key and modifiers match it exactly.
pub open spec fn spec_press(s: WatcherState, k: Keystroke, now: u64, hk: Option<Hotkey>) -> (
    WatcherState,
    Option<Trigger>,
) {
    let m = with_pressed(s, k);
    if k == Keystroke::Char(Key::KeyC) && m.ctrl {
        let count: int = if elapsed(s.last, now) <= TRIPLE_WINDOW_NANOS {
            s.count + 1
        } else {
            1
        };
        if count >= 3 {
            (WatcherState { count: 0, last: now, ..m }, Some(Trigger::Translate))
        } else {
            (WatcherState { count: count as u32, last: now, ..m }, None)
        }
    } else if hotkey_fires(m, k, hk) {
        (m, Some(Trigger::Snip))
    } else {
        (m, None)
    }
}

/// Three Ctrl+C presses, each within the window of the one before, starting
/// from no run: the first two trigger nothing and the third translates and
/// ends the run.
pub proof fn lemma_third_copy_translates(
    s: WatcherState,
    hk: Option<Hotkey>,
    t1: u64,
    t2: u64,
    t3: u64,
)
    requires
        s.ctrl,
        s.count == 0,
        t1 <= t2 <= t3,
        t2 - t1 <= TRIPLE_WINDOW_NANOS,
        t3 - t2 <= TRIPLE_WINDOW_NANOS,
    ensures
        ({
            let c = Keystroke::Char(Key::KeyC);
            let (s1, r1) = spec_press(s, c, t1, hk);
            let (s2, r2) = spec_press(s1, c, t2, hk);
            let (s3, r3) = spec_press(s2, c, t3, hk);
            &&& r1 is None
            &&& r2 is None
            &&& r3 == Some(Trigger::Translate)
            &&& s3.count == 0
        }),
{
}

/// A Ctrl+C press that comes later than the window after the previous one
/// triggers nothing and starts a new run of one.
pub proof fn lemma_slow_copy_starts_over(s: WatcherState, hk: Option<Hotkey>, t: u64)
    requires
        s.ctrl,
        s.count < 3,
        elapsed(s.last, t) > TRIPLE_WINDOW_NANOS,
    ensures
        spec_press(s, Keystroke::Char(Key::KeyC), t, hk).1 is None,
        spec_press(s, Keystroke::Char(Key::KeyC), t, hk).0.count == 1,
{
}

/// What each trigger takes: a translation only comes from a Ctrl+C that
/// completes a run of three within the window, and ends that run; a screenshot
/// only from the configured hotkey with exactly its modifiers held.
pub proof fn lemma_trigger_causes(s: WatcherState, k: Keystroke, t: u64, hk: Option<Hotkey>)
    requires
        s.count < 3,
    ensures
        spec_press(s, k, t, hk).1 == Some(Trigger::Translate) ==> {
            &&& k == Keystroke::Char(Key::KeyC)
            &&& s.ctrl
            &&& s.count == 2
            &&& elapsed(s.last, t) <= TRIPLE_WINDOW_NANOS
            &&& spec_press(s, k, t, hk).0.count == 0
        },
        spec_press(s, k, t, hk).1 == Some(Trigger::Snip) ==> hotkey_fires(
            with_pressed(s, k),
            k,
            hk,
        ),
        spec_press(s, k, t, hk).0.count < 3,
{
}

/// Pressing a modifier marks it held and leaves the other modifiers alone.
pub proof fn lemma_press_holds(s: WatcherState, k: Keystroke, t: u64, hk: Option<Hotkey>)
    ensures
        k == Keystroke::Ctrl ==> spec_press(s, k, t, hk).0.ctrl && spec_press(s, k, t, hk).0.alt
            == s.alt && spec_press(s, k, t, hk).0.shift == s.shift,
        k == Keystroke::Alt ==> spec_press(s, k, t, hk).0.alt && spec_press(s, k, t, hk).0.ctrl
            == s.ctrl && spec_press(s, k, t, hk).0.shift == s.shift,
        k == Keystroke::Shift ==> spec_press(s, k, t, hk).0.shift && spec_press(s, k, t, hk).0.ctrl
            == s.ctrl && spec_press(s, k, t, hk).0.alt == s.alt,
        (k matches Keystroke::Char(_)) || k == Keystroke::Other ==> spec_press(s, k, t, hk).0.ctrl
            == s.ctrl && spec_press(s, k, t, hk).0.alt == s.alt && spec_press(s, k, t, hk).0.shift
            == s.shift,
{
}

/// Releasing a modifier clears its flag and leaves the others alone; releasing
/// any other key changes nothing; a release never touches the Ctrl+C run.
pub proof fn lemma_release_clears(s: WatcherState, k: Keystroke)
    ensures
        spec_release(s, k).count == s.count,
        spec_release(s, k).last == s.last,
        k == Keystroke::Ctrl ==> !spec_release(s, k).ctrl && spec_release(s, k).alt == s.alt
            && spec_release(s, k).shift == s.shift,
        k == Keystroke::Alt ==> !spec_release(s, k).alt && spec_release(s, k).ctrl == s.ctrl
            && spec_release(s, k).shift == s.shift,
        k == Keystroke::Shift ==> !spec_release(s, k).shift && spec_release(s, k).ctrl == s.ctrl
            && spec_release(s, k).alt == s.alt,
        k != Keystroke::Ctrl && k != Keystroke::Alt && k != Keystroke::Shift ==> spec_release(s, k)
            == s,
{
}

/// A modifier that was pressed and then released is no longer held: a later
/// key press does not fire a hotkey that needs that modifier.
pub proof fn lemma_released_modifier_not_held(
    s: WatcherState,
    m: Keystroke,
    k: Key,
    t1: u64,
    t2: u64,
    h: Hotkey,
)
    requires
        m == Keystroke::Ctrl || m == Keystroke::Alt || m == Keystroke::Shift,
        m == Keystroke::Ctrl ==> h.ctrl,
        m == Keystroke::Alt ==> h.alt,
        m == Keystroke::Shift ==> h.shift,
    ensures
        ({
            let s1 = spec_press(s, m, t1, Some(h)).0;
            let s2 = spec_release(s1, m);
            spec_press(s2, Keystroke::Char(k), t2, Some(h)).1 != Some(Trigger::Snip)
        }),
{
}

/// Watches key presses and releases for the two triggers.
pub struct KeyWatcher {
    ctrl: bool,
    alt: bool,
    shift: bool,
    count: u32,
    last: u64,
}

impl KeyWatcher {
    #[verifier::type_invariant]
    spec fn run_is_short(self) -> bool {
        self.count < 3
    }

    /// The watcher's state.
    pub closed spec fn state(&self) -> WatcherState {
        WatcherState {
            ctrl: self.ctrl,
            alt: self.alt,
            shift: self.shift,
            count: self.count,
            last: self.last,
        }
    }

    /// A watcher started at time `now`: no modifier held, no run.
    pub fn new(now: u64) -> (w: Self)
        ensures
            w.state() == (WatcherState { ctrl: false, alt: false, shift: false, count: 0, last: now }),
    {
        KeyWatcher { ctrl: false, alt: false, shift: false, count: 0, last: now }
    }

    /// Handles a key going down at time `now`, with the current screenshot hotkey.
    pub fn press(&mut self, k: Keystroke, now: u64, hotkey: Option<Hotkey>) -> (r: Option<Trigger>)
        ensures
            (final(self).state(), r) == spec_press(old(self).state(), k, now, hotkey),
    {
        proof {
            use_type_invariant(&*self);
        }
        let mut ctrl = self.ctrl;
        let mut alt = self.alt;
        let mut shift = self.shift;
        match k {
            Keystroke::Ctrl => {
                ctrl = true;
            },
            Keystroke::Alt => {
                alt = true;
            },
            Keystroke::Shift => {
                shift = true;
            },
            _ => {},
        }
        if k == Keystroke::Char(Key::KeyC) && ctrl {
            let gap: u64 = if now >= self.last {
                now - self.last
            } else {
                0
            };
            let count: u32 = if gap <= TRIPLE_WINDOW_NANOS {
                self.count + 1
            } else {
                1
            };
            if count >= 3 {
                *self = KeyWatcher { ctrl, alt, shift, count: 0, last: now };
                Some(Trigger::Translate)
            } else {
                *self = KeyWatcher { ctrl, alt, shift, count, last: now };
                None
            }
        } else {
            let last = self.last;
            let count = self.count;
            *self = KeyWatcher { ctrl, alt, shift, count, last };
            match hotkey {
                Some(h) => if k == Keystroke::Char(h.key) && ctrl == h.ctrl && alt == h.alt
                    && shift == h.shift {
                    Some(Trigger::Snip)
                } else {
                    None
                },
                None => None,
            }
        }
    }

    /// Handles a key coming up: only the modifier flags change.
    pub fn release(&mut self, k: Keystroke)
        ensures
            final(self).state() == spec_release(old(self).state(), k),
    {
        proof {
            use_type_invariant(&*self);
        }
        let mut ctrl = self.ctrl;
        let mut alt = self.alt;
        let mut shift = self.shift;
        match k {
            Keystroke::Ctrl => {
                ctrl = false;
            },
            Keystroke::Alt => {
                alt = false;
            },
            Keystroke::Shift => {
                shift = false;
            },
            _ => {},
        }
        let count = self.count;
        let last = self.last;
        *self = KeyWatcher { ctrl, alt, shift, count, last };
    }
}


/// How many times the clipboard is read before giving up (another process
/// may hold it for a moment).
pub const CLIPBOARD_ATTEMPTS: u32 = 3;

/// Pause after each failed clipboard read, in milliseconds.
pub const CLIPBOARD_RETRY_DELAY_MS: u64 = 80;

/// Whether another clipboard read follows the failed read number `attempt`
/// (counted from 0); every failed read is followed by the pause.
pub fn retry_clipboard(attempt: u32) -> (r: bool)
    ensures
        r == (attempt + 1 < CLIPBOARD_ATTEMPTS),
{
    attempt < CLIPBOARD_ATTEMPTS - 1
}

/// Longest text, in characters, sent for translation; guards against a huge
/// accidental selection spending many tokens.
pub const MAX_CHARS: usize = 5000;

/// The clipboard text to translate: trimmed, and nothing when it is empty.
pub fn clipboard_selection(raw: &str) -> (r: Option<String>)
    ensures
        trim(raw@).len() == 0 ==> r is None,
        trim(raw@).len() > 0 ==> r is Some && r->0@ == trim(raw@),
{
    let t = trim_str(raw);
    if t.is_empty() {
        None
    } else {
        Some(String::from_str(t))
    }
}

/// The text a translation starts from: at most the first `MAX_CHARS`
/// characters; nothing when those are blank.
pub fn text_for_translation(text: &str) -> (r: Option<String>)
    ensures
        is_blank(take_chars(text@, MAX_CHARS as nat)) ==> r is None,
        !is_blank(take_chars(text@, MAX_CHARS as nat)) ==> r is Some && r->0@ == take_chars(
            text@,
            MAX_CHARS as nat,
        ),
{
    let head = first_chars(text, MAX_CHARS);
    if blank(head) {
        None
    } else {
        Some(String::from_str(head))
    }
}

} // verus!
