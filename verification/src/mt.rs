//! The free machine-translation channel: choosing the target language, sending
//! multi-line text line by line and putting the translated lines back in place,
//! reading the service's reply, and caching the short-lived access token.
use vstd::prelude::*;

use crate::json::{json_array_len, json_array_len_at, json_str_at, json_string_at, key, path_of, JsonPathItem, JsonStep};
use crate::text::{
    blank, chars_of, first_chars, free_of, is_blank, join_with, lemma_split_join,
    lemma_split_on_nonempty, split_on, split_ranges, take_chars, trim, trim_str,
};

verus! {

/// Whether `c` has the Unicode `Alphabetic` property, as `char::is_alphabetic` decides.
pub uninterp spec fn char_is_alphabetic(c: char) -> bool;

/// Whether `c` is an ASCII letter.
pub open spec fn ascii_letter(c: char) -> bool {
    65 <= (c as u32) <= 90 || 97 <= (c as u32) <= 122
}

/// Whether `c` has the Alphabetic property: among ASCII characters exactly the
/// letters; beyond ASCII, `char_is_alphabetic`.
pub open spec fn alphabetic(c: char) -> bool {
    if (c as u32) < 128 {
        ascii_letter(c)
    } else {
        char_is_alphabetic(c)
    }
}

/// Calls `char::is_alphabetic`. Among ASCII characters exactly the letters have
/// the Alphabetic property; beyond ASCII the result is taken to be
/// `char_is_alphabetic(c)`, a function of `c` alone (the Unicode table is not
/// restated here).
#[verifier::external_body]
fn is_alphabetic(c: char) -> (r: bool)
    ensures
        (c as u32) < 128 ==> r == ascii_letter(c),
        (c as u32) >= 128 ==> r == char_is_alphabetic(c),
{
    c.is_alphabetic()
}

/// A CJK unified ideograph (U+4E00 to U+9FFF).
pub open spec fn is_cjk(c: char) -> bool {
    0x4e00 <= (c as u32) <= 0x9fff
}

/// How many characters of `s` are CJK ideographs.
pub open spec fn cjk_count(s: Seq<char>) -> nat
    decreases s.len(),
{
    if s.len() == 0 {
        0
    } else {
        cjk_count(s.drop_last()) + if is_cjk(s.last()) {
            1nat
        } else {
            0nat
        }
    }
}

/// How many characters of `s` are not CJK ideographs but are marked alphabetic in `alpha`.
pub open spec fn other_letter_count(s: Seq<char>, alpha: Seq<bool>) -> nat
    decreases s.len(),
{
    if s.len() == 0 {
        0
    } else {
        other_letter_count(s.drop_last(), alpha) + if !is_cjk(s.last()) && alpha[s.len() - 1] {
            1nat
        } else {
            0nat
        }
    }
}

/// The alphabetic flag of each character of `s`.
pub open spec fn alphabetic_flags(s: Seq<char>) -> Seq<bool> {
    s.map_values(|c: char| alphabetic(c))
}

/// The target language: English when CJK ideographs outnumber the other
/// letters, else Simplified Chinese.
pub open spec fn spec_target_lang_with(s: Seq<char>, alpha: Seq<bool>) -> Seq<char> {
    if cjk_count(s) > other_letter_count(s, alpha) {
        "en"@
    } else {
        "zh-Hans"@
    }
}

/// The target language of `text`.
pub open spec fn spec_target_lang(text: Seq<char>) -> Seq<char> {
    spec_target_lang_with(text, alphabetic_flags(text))
}

/// The positions of `s` that count against the ideographs: not a CJK
/// ideograph, and marked alphabetic.
pub open spec fn letter_positions(s: Seq<char>, alpha: Seq<bool>, n: int) -> Seq<int> {
    Seq::new(n as nat, |i: int| i).filter(|i: int| !is_cjk(s[i]) && alpha[i])
}

/// Only characters marked alphabetic (and not CJK ideographs) count against
/// the ideographs: the count is the number of such positions, whatever the
/// other characters (digits, punctuation, spaces) are.
pub proof fn lemma_other_letters_are_flagged_positions(s: Seq<char>, alpha: Seq<bool>)
    ensures
        other_letter_count(s, alpha) == letter_positions(s, alpha, s.len() as int).len(),
{
    lemma_other_letters_prefix(s, alpha, s.len() as int);
    assert(s.take(s.len() as int) =~= s);
}

proof fn lemma_other_letters_prefix(s: Seq<char>, alpha: Seq<bool>, n: int)
    requires
        0 <= n <= s.len(),
    ensures
        other_letter_count(s.take(n), alpha) == letter_positions(s, alpha, n).len(),
    decreases n,
{
    if n > 0 {
        lemma_other_letters_prefix(s, alpha, n - 1);
        assert(s.take(n).drop_last() =~= s.take(n - 1));
        assert(s.take(n).last() == s[n - 1]);
        let p = |i: int| !is_cjk(s[i]) && alpha[i];
        let ids = Seq::new(n as nat, |i: int| i);
        assert(ids.drop_last() =~= Seq::new((n - 1) as nat, |i: int| i));
        assert(ids.last() == n - 1);
        assert(letter_positions(s, alpha, n) == ids.filter(p));
        assert(letter_positions(s, alpha, n - 1) == ids.drop_last().filter(p));
        assert(ids =~= ids.drop_last().push(n - 1));
        ids.drop_last().lemma_filter_len_push(p, n - 1);
        assert(ids.filter(p).len() == ids.drop_last().filter(p).len() + if p(n - 1) {
            1int
        } else {
            0int
        });
    } else {
        assert(s.take(0).len() == 0);
        assert(Seq::new(0nat, |i: int| i).len() == 0);
    }
}

/// Characters that are neither CJK ideographs nor alphabetic (digits,
/// punctuation, spaces) do not count at all: appending them never changes the
/// target language.
pub proof fn lemma_non_letters_keep_target(text: Seq<char>, more: Seq<char>)
    requires
        forall|j: int| 0 <= j < more.len() ==> !is_cjk(#[trigger] more[j]) && !alphabetic(more[j]),
    ensures
        spec_target_lang(text + more) == spec_target_lang(text),
        cjk_count(text + more) == cjk_count(text),
        other_letter_count(text + more, alphabetic_flags(text + more)) == other_letter_count(
            text,
            alphabetic_flags(text),
        ),
    decreases more.len(),
{
    if more.len() == 0 {
        assert(text + more =~= text);
    } else {
        let shorter = more.drop_last();
        lemma_non_letters_keep_target(text, shorter);
        let a = text + more;
        assert(a.drop_last() =~= text + shorter);
        assert(a.last() == more.last());
        lemma_other_letters_flags_prefix(a);
    }
}

/// Dropping the last character, its own flags count as the whole text's do.
proof fn lemma_other_letters_flags_prefix(a: Seq<char>)
    requires
        a.len() > 0,
    ensures
        other_letter_count(a.drop_last(), alphabetic_flags(a)) == other_letter_count(
            a.drop_last(),
            alphabetic_flags(a.drop_last()),
        ),
{
    lemma_other_letters_same_flags(a.drop_last(), alphabetic_flags(a), alphabetic_flags(a.drop_last()));
}

/// The count reads only the flags of positions of `s`.
proof fn lemma_other_letters_same_flags(s: Seq<char>, x: Seq<bool>, y: Seq<bool>)
    requires
        x.len() >= s.len(),
        y.len() >= s.len(),
        forall|i: int| 0 <= i < s.len() ==> x[i] == y[i],
    ensures
        other_letter_count(s, x) == other_letter_count(s, y),
    decreases s.len(),
{
    if s.len() > 0 {
        lemma_other_letters_same_flags(s.drop_last(), x, y);
    }
}

/// A text with CJK ideographs in which every alphabetic character is a CJK
/// ideograph (digits, punctuation and spaces aside) is mainly Chinese and goes
/// to English, however many other characters it holds.
pub proof fn lemma_only_ideographs_go_to_english(text: Seq<char>)
    requires
        cjk_count(text) > 0,
        forall|i: int| 0 <= i < text.len() && #[trigger] alphabetic(text[i]) ==> is_cjk(text[i]),
    ensures
        spec_target_lang(text) == "en"@,
{
    lemma_no_flagged_letters(text, alphabetic_flags(text));
}

/// No position counts when every flagged character is a CJK ideograph.
proof fn lemma_no_flagged_letters(s: Seq<char>, alpha: Seq<bool>)
    requires
        forall|i: int| 0 <= i < s.len() && #[trigger] alpha[i] ==> is_cjk(s[i]),
    ensures
        other_letter_count(s, alpha) == 0,
    decreases s.len(),
{
    if s.len() > 0 {
        lemma_no_flagged_letters(s.drop_last(), alpha);
        assert(alpha[s.len() - 1] ==> is_cjk(s[s.len() - 1]));
    }
}

/// Picks the target language from the characters of a text and, for each,
/// whether it is alphabetic.
pub fn target_lang_with(chars: &[char], alphabetic: &[bool]) -> (r: &'static str)
    requires
        chars@.len() == alphabetic@.len(),
    ensures
        r@ == spec_target_lang_with(chars@, alphabetic@),
{
    let mut cjk: usize = 0;
    let mut other: usize = 0;
    let mut i: usize = 0;
    while i < chars.len()
        invariant
            chars@.len() == alphabetic@.len(),
            i <= chars@.len(),
            cjk == cjk_count(chars@.take(i as int)),
            other == other_letter_count(chars@.take(i as int), alphabetic@),
            cjk + other <= i,
        decreases chars@.len() - i,
    {
        let c = chars[i];
        assert(chars@.take(i + 1).drop_last() =~= chars@.take(i as int));
        let u = c as u32;
        if 0x4e00 <= u && u <= 0x9fff {
            cjk = cjk + 1;
        } else if alphabetic[i] {
            other = other + 1;
        }
        i = i + 1;
    }
    assert(chars@.take(chars@.len() as int) =~= chars@);
    if cjk > other {
        "en"
    } else {
        "zh-Hans"
    }
}

/// The language to translate `text` into, matching the AI channel's default:
/// mainly-Chinese text goes to English, everything else to Simplified Chinese.
pub fn target_lang(text: &str) -> (r: &'static str)
    ensures
        r@ == spec_target_lang(text@),
{
    let chars = chars_of(text);
    let mut alphabetic: Vec<bool> = Vec::new();
    let mut i: usize = 0;
    while i < chars.len()
        invariant
            i <= chars@.len(),
            alphabetic@ == alphabetic_flags(chars@).take(i as int),
        decreases chars@.len() - i,
    {
        alphabetic.push(is_alphabetic(chars[i]));
        i = i + 1;
    }
    assert(alphabetic@ =~= alphabetic_flags(chars@));
    target_lang_with(chars.as_slice(), alphabetic.as_slice())
}


/// Most lines that are still sent one by one.
pub const MAX_LINE_UNITS: usize = 100;

/// The lines of `s` that are not blank, in order.
pub open spec fn content_lines(lines: Seq<Seq<char>>) -> Seq<Seq<char>>
    decreases lines.len(),
{
    if lines.len() == 0 {
        Seq::<Seq<char>>::empty()
    } else if is_blank(lines.last()) {
        content_lines(lines.drop_last())
    } else {
        content_lines(lines.drop_last()).push(lines.last())
    }
}

/// The lines of a text, split at `\n`.
pub open spec fn text_lines(text: Seq<char>) -> Seq<Seq<char>> {
    split_on(text, '\n')
}

/// Whether the text is sent line by line: it has between two and
/// `MAX_LINE_UNITS` non-blank lines.
pub open spec fn preserves_lines(text: Seq<char>) -> bool {
    let n = content_lines(text_lines(text)).len();
    1 < n <= MAX_LINE_UNITS
}

/// The pieces of text sent for translation: the non-blank lines when the text
/// is sent line by line, else the whole text.
pub open spec fn translation_units(text: Seq<char>) -> Seq<Seq<char>> {
    if preserves_lines(text) {
        content_lines(text_lines(text))
    } else {
        seq![text]
    }
}

/// Splits a text into the pieces to send: the non-blank lines when there are
/// between two and `MAX_LINE_UNITS` of them (the service handles line breaks
/// inside one piece badly), else the whole text as one piece. Also tells
/// whether the line layout is to be restored afterwards.
pub fn translation_plan(text: &str) -> (r: (Vec<String>, bool))
    ensures
        r.1 == preserves_lines(text@),
        r.0@.map_values(|u: String| u@) == translation_units(text@),
{
    let chars = chars_of(text);
    let ranges = split_ranges(chars.as_slice(), '\n');
    let ghost lines = text_lines(text@);
    let mut content: Vec<String> = Vec::new();
    let mut i: usize = 0;
    assert(lines.take(0) =~= Seq::<Seq<char>>::empty());
    while i < ranges.len()
        invariant
            chars@ == text@,
            lines == text_lines(text@),
            ranges@.len() == lines.len(),
            forall|k: int|
                0 <= k < ranges@.len() ==> {
                    &&& (#[trigger] ranges@[k]).0 <= ranges@[k].1 <= text@.len()
                    &&& text@.subrange(ranges@[k].0 as int, ranges@[k].1 as int) == lines[k]
                },
            i <= ranges@.len(),
            content@.map_values(|u: String| u@) == content_lines(lines.take(i as int)),
        decreases ranges@.len() - i,
    {
        let (a, b) = ranges[i];
        let line = text.substring_char(a, b);
        assert(lines.take(i + 1).drop_last() =~= lines.take(i as int));
        assert(lines.take(i + 1).last() == line@);
        if !blank(line) {
            content.push(String::from_str(line));
            assert(content@.map_values(|u: String| u@) =~= content_lines(lines.take(i as int)).push(
                line@,
            ));
        }
        i = i + 1;
    }
    assert(lines.take(ranges@.len() as int) =~= lines);
    let n = content.len();
    if 1 < n && n <= MAX_LINE_UNITS {
        (content, true)
    } else {
        let mut whole: Vec<String> = Vec::new();
        whole.push(String::from_str(text));
        assert(whole@.map_values(|u: String| u@) =~= seq![text@]);
        (whole, false)
    }
}

/// Line `i` of the restored text: blank lines become empty, the k-th non-blank
/// line becomes the k-th translation.
pub open spec fn restored_line(lines: Seq<Seq<char>>, tr: Seq<Seq<char>>, i: int) -> Seq<char> {
    if is_blank(lines[i]) {
        Seq::<char>::empty()
    } else {
        tr[content_lines(lines.take(i)).len() as int]
    }
}

/// All lines of the restored text.
pub open spec fn restored_lines(lines: Seq<Seq<char>>, tr: Seq<Seq<char>>) -> Seq<Seq<char>> {
    Seq::new(lines.len(), |i: int| restored_line(lines, tr, i))
}

/// Error when the service returns no usable translation.
pub const NO_TRANSLATION: &'static str = "接口未返回译文";

/// Error when the service returns fewer translated lines than were sent.
pub const LINE_COUNT_MISMATCH: &'static str = "接口返回的段落数量不匹配";

/// The final translation of `text` from the translated pieces `tr`.
pub open spec fn spec_assemble(text: Seq<char>, preserve: bool, tr: Seq<Seq<char>>) -> Result<
    Seq<char>,
    Seq<char>,
> {
    if !preserve {
        if tr.len() == 0 {
            Err(NO_TRANSLATION@)
        } else {
            Ok(tr[0])
        }
    } else if content_lines(text_lines(text)).len() <= tr.len() {
        Ok(join_with(restored_lines(text_lines(text), tr), '\n'))
    } else {
        Err(LINE_COUNT_MISMATCH@)
    }
}

/// Taking more lines never shrinks the list of non-blank lines.
pub proof fn lemma_content_lines_prefix(lines: Seq<Seq<char>>, i: int)
    requires
        0 <= i <= lines.len(),
    ensures
        content_lines(lines.take(i)).len() <= content_lines(lines).len(),
    decreases lines.len() - i,
{
    if i < lines.len() {
        lemma_content_lines_prefix(lines, i + 1);
        assert(lines.take(i + 1).drop_last() =~= lines.take(i));
    } else {
        assert(lines.take(i) =~= lines);
    }
}

/// Puts the translation back together: without line layout, the first
/// translated piece; with it, every line of the text in place, blank lines left
/// empty and each non-blank line replaced, in order, by its translation.
pub fn assemble_translation(text: &str, preserve: bool, translated: &Vec<String>) -> (r: Result<
    String,
    String,
>)
    ensures
        match spec_assemble(text@, preserve, translated@.map_values(|t: String| t@)) {
            Ok(t) => r is Ok && r->Ok_0@ == t,
            Err(m) => r is Err && r->Err_0@ == m,
        },
{
    let ghost tr = translated@.map_values(|t: String| t@);
    if !preserve {
        if translated.len() == 0 {
            return Err(String::from_str(NO_TRANSLATION));
        }
        return Ok(translated[0].clone());
    }
    let chars = chars_of(text);
    let ranges = split_ranges(chars.as_slice(), '\n');
    let ghost lines = text_lines(text@);
    let mut out = String::new();
    let mut j: usize = 0;
    let mut i: usize = 0;
    assert(lines.take(0) =~= Seq::<Seq<char>>::empty());
    while i < ranges.len()
        invariant
            chars@ == text@,
            lines == text_lines(text@),
            tr == translated@.map_values(|t: String| t@),
            preserve,
            ranges@.len() == lines.len(),
            forall|k: int|
                0 <= k < ranges@.len() ==> {
                    &&& (#[trigger] ranges@[k]).0 <= ranges@[k].1 <= text@.len()
                    &&& text@.subrange(ranges@[k].0 as int, ranges@[k].1 as int) == lines[k]
                },
            i <= ranges@.len(),
            j == content_lines(lines.take(i as int)).len(),
            j <= translated@.len(),
            out@ == join_with(restored_lines(lines, tr).take(i as int), '\n'),
        decreases ranges@.len() - i,
    {
        let (a, b) = ranges[i];
        let line = text.substring_char(a, b);
        assert(lines.take(i + 1).drop_last() =~= lines.take(i as int));
        assert(lines.take(i + 1).last() == line@);
        let ghost prefix = restored_lines(lines, tr).take(i as int);
        assert(restored_lines(lines, tr).take(i + 1).drop_last() =~= prefix);
        if i > 0 {
            out.append("\n");
            proof {
                reveal_strlit("\n");
            }
        }
        if blank(line) {
            assert(restored_line(lines, tr, i as int) =~= Seq::<char>::empty());
        } else {
            if j >= translated.len() {
                proof {
                    lemma_content_lines_prefix(lines, i + 1);
                    assert(content_lines(lines.take(i + 1)).len() == j + 1);
                }
                return Err(String::from_str(LINE_COUNT_MISMATCH));
            }
            out.append(translated[j].as_str());
            j = j + 1;
        }
        assert(out@ =~= join_with(restored_lines(lines, tr).take(i + 1), '\n'));
        i = i + 1;
    }
    assert(lines.take(ranges@.len() as int) =~= lines);
    assert(restored_lines(lines, tr).take(ranges@.len() as int) =~= restored_lines(lines, tr));
    Ok(out)
}


/// The restored translation keeps the text's line layout: when no translated
/// piece holds a line break, splitting the result at line breaks gives exactly
/// one line per line of the text, blank lines left empty in their places and the
/// k-th non-blank line replaced by the k-th translation.
pub proof fn lemma_restore_keeps_layout(text: Seq<char>, tr: Seq<Seq<char>>)
    requires
        content_lines(text_lines(text)).len() <= tr.len(),
        forall|k: int| 0 <= k < tr.len() ==> free_of(#[trigger] tr[k], '\n'),
    ensures
        text_lines(join_with(restored_lines(text_lines(text), tr), '\n')) == restored_lines(
            text_lines(text),
            tr,
        ),
        restored_lines(text_lines(text), tr).len() == text_lines(text).len(),
{
    let lines = text_lines(text);
    let out = restored_lines(lines, tr);
    lemma_split_on_nonempty(text, '\n');
    assert forall|k: int| 0 <= k < out.len() implies free_of(#[trigger] out[k], '\n') by {
        if !is_blank(lines[k]) {
            lemma_content_lines_prefix(lines, k + 1);
            assert(lines.take(k + 1).drop_last() =~= lines.take(k));
        }
    }
    lemma_split_join(out, '\n');
}


/// A complete reply restores: when the text is sent line by line and a
/// translation comes back for every piece sent, the layout is rebuilt without
/// error; when it is sent whole, the single translation is the result.
pub proof fn lemma_full_reply_restores(text: Seq<char>, tr: Seq<Seq<char>>)
    requires
        tr.len() == translation_units(text).len(),
    ensures
        spec_assemble(text, preserves_lines(text), tr) is Ok,
        !preserves_lines(text) ==> spec_assemble(text, false, tr) == Ok::<Seq<char>, Seq<char>>(
            tr[0],
        ),
{
}

/// The k-th non-blank line of `lines` is line `i` when `i` is non-blank and
/// `k` non-blank lines come before it.
proof fn lemma_content_line_at(lines: Seq<Seq<char>>, i: int)
    requires
        0 <= i < lines.len(),
        !is_blank(lines[i]),
    ensures
        content_lines(lines.take(i)).len() < content_lines(lines).len(),
        content_lines(lines)[content_lines(lines.take(i)).len() as int] == lines[i],
    decreases lines.len(),
{
    if i == lines.len() - 1 {
        assert(lines.drop_last() =~= lines.take(i));
    } else {
        lemma_content_line_at(lines.drop_last(), i);
        assert(lines.drop_last().take(i) =~= lines.take(i));
        assert(lines.drop_last()[i] == lines[i]);
    }
}

/// Getting every sent line back unchanged reproduces the text, except that
/// whitespace-only lines come back empty.
pub proof fn lemma_unchanged_lines_round_trip(text: Seq<char>)
    requires
        preserves_lines(text),
    ensures
        spec_assemble(text, true, translation_units(text)) == Ok::<Seq<char>, Seq<char>>(
            join_with(
                text_lines(text).map_values(
                    |l: Seq<char>|
                        if is_blank(l) {
                            Seq::<char>::empty()
                        } else {
                            l
                        },
                ),
                '\n',
            ),
        ),
{
    let lines = text_lines(text);
    let tr = content_lines(lines);
    assert forall|i: int| 0 <= i < lines.len() implies restored_line(lines, tr, i) == (if is_blank(
        lines[i],
    ) {
        Seq::<char>::empty()
    } else {
        lines[i]
    }) by {
        if !is_blank(lines[i]) {
            lemma_content_line_at(lines, i);
        }
    }
    assert(restored_lines(lines, tr) =~= lines.map_values(
        |l: Seq<char>|
            if is_blank(l) {
                Seq::<char>::empty()
            } else {
                l
            },
    ));
}

/// Error when the reply is not a list.
pub const BAD_REPLY_FORMAT: &'static str = "接口响应格式异常";

/// Where item `i` of the reply carries its text: `[i].translations[0].text`.
pub open spec fn translation_text_path(i: usize) -> Seq<JsonPathItem> {
    seq![
        JsonPathItem::Index(i),
        JsonPathItem::Key("translations"@),
        JsonPathItem::Index(0),
        JsonPathItem::Key("text"@),
    ]
}

/// The reply's items, each with the text at its translation path: `None` when
/// the reply is not a JSON array.
pub open spec fn reply_items_ok(body: Seq<char>, r: Option<Vec<Option<String>>>) -> bool {
    match json_array_len_at(body, Seq::<JsonPathItem>::empty()) {
        None => r is None,
        Some(n) => r matches Some(v) && v@.len() == n && forall|i: int|
            0 <= i < n ==> match json_string_at(body, translation_text_path(i as usize)) {
                Some(t) => (#[trigger] v@[i]) matches Some(u) && u@ == t,
                None => v@[i] is None,
            },
    }
}

/// Reads the translation service's JSON reply: for each element of the
/// top-level array, the text at `translations[0].text` (if it is a string).
pub fn reply_items(body: &str) -> (r: Option<Vec<Option<String>>>)
    ensures
        reply_items_ok(body@, r),
{
    let top: Vec<JsonStep> = Vec::new();
    assert(path_of(top@) =~= Seq::<JsonPathItem>::empty());
    let n = match json_array_len(body, top.as_slice()) {
        Some(n) => n,
        None => {
            return None;
        },
    };
    let mut items: Vec<Option<String>> = Vec::new();
    let mut i: usize = 0;
    while i < n
        invariant
            i <= n,
            json_array_len_at(body@, Seq::<JsonPathItem>::empty()) == Some(n),
            items@.len() == i,
            forall|k: int|
                0 <= k < i ==> match json_string_at(body@, translation_text_path(k as usize)) {
                    Some(t) => (#[trigger] items@[k]) matches Some(u) && u@ == t,
                    None => items@[k] is None,
                },
        decreases n - i,
    {
        let mut path: Vec<JsonStep> = Vec::new();
        path.push(JsonStep::Index(i));
        path.push(key("translations"));
        path.push(JsonStep::Index(0));
        path.push(key("text"));
        assert(path_of(path@) =~= translation_text_path(i));
        let text = json_str_at(body, path.as_slice());
        let ghost before = items@;
        items.push(text);
        assert forall|k: int| 0 <= k < i + 1 implies match json_string_at(
            body@,
            translation_text_path(k as usize),
        ) {
            Some(t) => (#[trigger] items@[k]) matches Some(u) && u@ == t,
            None => items@[k] is None,
        } by {
            if k < i {
                assert(items@[k] == before[k]);
            }
        }
        i = i + 1;
    }
    Some(items)
}

/// Whether every item holds a non-empty translation.
pub open spec fn all_translated(items: Seq<Option<String>>) -> bool {
    forall|i: int| 0 <= i < items.len() ==> ((#[trigger] items[i]) matches Some(t) && t@.len() > 0)
}

/// Whether `out[k]` holds the (non-empty) translation of item `k`.
pub open spec fn translated_at(items: Seq<Option<String>>, out: Seq<String>, k: int) -> bool {
    items[k] matches Some(t) && t@.len() > 0 && out[k]@ == t@
}

/// Reads the service's reply, given as the list of items (`None` when the reply
/// is not a list) each with its translated text (`None` when missing or not a
/// string). Every item must carry a non-empty translation.
pub fn collect_translations(items: &Option<Vec<Option<String>>>) -> (r: Result<Vec<String>, String>)
    ensures
        items is None ==> r is Err && r->Err_0@ == BAD_REPLY_FORMAT@,
        items matches Some(v) ==> if all_translated(v@) {
            &&& r is Ok
            &&& r->Ok_0@.len() == v@.len()
            &&& forall|i: int| 0 <= i < v@.len() ==> #[trigger] translated_at(v@, r->Ok_0@, i)
        } else {
            r is Err && r->Err_0@ == NO_TRANSLATION@
        },
{
    match items {
        None => {
            Err(String::from_str(BAD_REPLY_FORMAT))
        },
        Some(v) => {
            let mut out: Vec<String> = Vec::new();
            let mut i: usize = 0;
            while i < v.len()
                invariant
                    *items == Some(*v),
                    i <= v@.len(),
                    out@.len() == i,
                    forall|k: int| 0 <= k < i ==> #[trigger] translated_at(v@, out@, k),
                decreases v@.len() - i,
            {
                let item = v[i].as_ref();
                if item.is_none() {
                    assert(!all_translated(v@));
                    return Err(String::from_str(NO_TRANSLATION));
                }
                let t = item.unwrap();
                if t.as_str().is_empty() {
                    assert(!all_translated(v@));
                    return Err(String::from_str(NO_TRANSLATION));
                }
                let ghost before = out@;
                out.push(t.clone());
                assert(v@[i as int] == Some(*t));
                assert forall|k: int| 0 <= k < i + 1 implies #[trigger] translated_at(v@, out@, k) by {
                    if k < i {
                        assert(translated_at(v@, before, k));
                        assert(out@[k] == before[k]);
                    }
                }
                i = i + 1;
            }
            assert forall|k: int| 0 <= k < v@.len() implies ((#[trigger] v@[k]) matches Some(t)
                && t@.len() > 0) by {
                assert(translated_at(v@, out@, k));
            }
            Ok(out)
        },
    }
}

/// How long a fetched access token is reused, in nanoseconds (eight minutes;
/// the token itself lives about ten).
pub const TOKEN_TTL_NANOS: u64 = 480_000_000_000;

/// Error when the service hands out an empty token.
pub const EMPTY_TOKEN: &'static str = "翻译授权为空";

/// The token a cache entry offers at time `now`: none when a refresh is
/// forced, the entry is missing, or it is at least `TOKEN_TTL_NANOS` old.
pub open spec fn spec_cached_token(entry: Option<(Seq<char>, u64)>, force_refresh: bool, now: u64) -> Option<Seq<char>> {
    match entry {
        Some((token, fetched_at)) => if !force_refresh && (if now >= fetched_at {
            now - fetched_at
        } else {
            0
        }) < TOKEN_TTL_NANOS {
            Some(token)
        } else {
            None
        },
        None => None,
    }
}

/// The last access token fetched, with the time it was fetched.
pub struct TokenCache {
    entry: Option<(String, u64)>,
}

impl TokenCache {
    /// The cached token and its fetch time.
    pub closed spec fn entry(&self) -> Option<(Seq<char>, u64)> {
        match self.entry {
            Some((t, at)) => Some((t@, at)),
            None => None,
        }
    }

    /// An empty cache.
    pub fn new() -> (c: Self)
        ensures
            c.entry() is None,
    {
        TokenCache { entry: None }
    }

    /// The token to reuse at time `now`, if any.
    pub fn cached(&self, force_refresh: bool, now: u64) -> (r: Option<String>)
        ensures
            match spec_cached_token(self.entry(), force_refresh, now) {
                Some(t) => r is Some && r->0@ == t,
                None => r is None,
            },
    {
        if force_refresh {
            return None;
        }
        match &self.entry {
            Some((token, fetched_at)) => {
                let age: u64 = if now >= *fetched_at {
                    now - *fetched_at
                } else {
                    0
                };
                if age < TOKEN_TTL_NANOS {
                    Some(token.clone())
                } else {
                    None
                }
            },
            None => None,
        }
    }

    /// Takes a freshly fetched token (the service's reply text) at time `now`:
    /// trimmed, it must not be empty; it is then kept and returned. An empty
    /// token leaves the cache as it was.
    pub fn store(&mut self, fetched: &str, now: u64) -> (r: Result<String, String>)
        ensures
            trim(fetched@).len() == 0 ==> r is Err && r->Err_0@ == EMPTY_TOKEN@
                && final(self).entry() == old(self).entry(),
            trim(fetched@).len() > 0 ==> r is Ok && r->Ok_0@ == trim(fetched@)
                && final(self).entry() == Some((trim(fetched@), now)),
    {
        let token = trim_str(fetched);
        if token.is_empty() {
            return Err(String::from_str(EMPTY_TOKEN));
        }
        let kept = String::from_str(token);
        self.entry = Some((kept.clone(), now));
        Ok(kept)
    }
}

/// A stored token is reused, without forcing a refresh, exactly while it is
/// younger than `TOKEN_TTL_NANOS`; a forced refresh never reuses it.
pub proof fn lemma_token_reuse(token: Seq<char>, fetched_at: u64, now: u64)
    requires
        fetched_at <= now,
    ensures
        spec_cached_token(Some((token, fetched_at)), false, now) == (if now - fetched_at
            < TOKEN_TTL_NANOS {
            Some(token)
        } else {
            None
        }),
        spec_cached_token(Some((token, fetched_at)), true, now) is None,
{
}

/// How many requests a translation makes at most.
pub const MT_ATTEMPTS: u32 = 2;

/// What to do with the HTTP status of a translation reply.
#[derive(Debug, Clone, Copy, PartialEq, Eq, Structural)]
pub enum ReplyAction {
    /// 401 on the first attempt: fetch a new token and try again.
    RetryWithFreshToken,
    /// Any other non-2xx status: report the error.
    Reject,
    /// 2xx: read the translations.
    Accept,
}

/// The action for `status` on attempt `attempt` (counted from 0).
pub open spec fn spec_reply_action(status: u16, attempt: u32) -> ReplyAction {
    if status == 401 && attempt == 0 {
        ReplyAction::RetryWithFreshToken
    } else if !(200 <= status < 300) {
        ReplyAction::Reject
    } else {
        ReplyAction::Accept
    }
}

/// Decides what to do with the HTTP status of a translation reply.
pub fn reply_action(status: u16, attempt: u32) -> (r: ReplyAction)
    ensures
        r == spec_reply_action(status, attempt),
{
    if status == 401 && attempt == 0 {
        ReplyAction::RetryWithFreshToken
    } else if !(200 <= status && status < 300) {
        ReplyAction::Reject
    } else {
        ReplyAction::Accept
    }
}

/// Whether attempt `attempt` (counted from 0) fetches a fresh token: every
/// attempt after the first does.
pub fn refresh_token_on(attempt: u32) -> (r: bool)
    ensures
        r == (attempt > 0),
{
    attempt > 0
}

/// The attempt that follows attempt `attempt` after a refusal for want of
/// authorization, or the final error once `MT_ATTEMPTS` have been made.
pub fn next_attempt(attempt: u32) -> (r: Result<u32, String>)
    ensures
        attempt + 1 < MT_ATTEMPTS ==> r == Ok::<u32, String>((attempt + 1) as u32),
        attempt + 1 >= MT_ATTEMPTS ==> r is Err && r->Err_0@ == AUTH_EXPIRED@,
{
    if attempt < MT_ATTEMPTS - 1 {
        Ok(attempt + 1)
    } else {
        Err(String::from_str(AUTH_EXPIRED))
    }
}

/// Error when every attempt was refused for want of authorization.
pub const AUTH_EXPIRED: &'static str = "翻译授权已失效，请稍后重试";

/// Prefix of the error when the token request fails.
pub const AUTH_FAILED: &'static str = "获取翻译授权失败：";

/// Prefix of the error when the token reply cannot be read.
pub const AUTH_READ_FAILED: &'static str = "读取翻译授权失败：";

/// Prefix of the error when the request cannot be sent.
pub const MT_REQUEST_FAILED: &'static str = "请求失败：";

/// Prefix of the error when the reply is not JSON.
pub const PARSE_FAILED: &'static str = "解析响应失败：";

/// The translation endpoint.
pub const API_URL: &'static str = "https://api-edge.cognitive.microsofttranslator.com/translate?api-version=3.0";

/// The endpoint that issues access tokens.
pub const AUTH_URL: &'static str = "https://edge.microsoft.com/translate/auth";

/// The request URL for translating into language `to`.
pub fn translate_url(to: &str) -> (r: String)
    ensures
        r@ == API_URL@ + "&to="@ + to@,
{
    let mut r = String::from_str(API_URL);
    r.append("&to=");
    r.append(to);
    r
}

/// The error for a reply with a failing HTTP status: the status text and the
/// first `limit` characters of the reply body.
pub fn api_error(status: &str, body: &str, limit: usize) -> (r: String)
    ensures
        r@ == "接口返回 "@ + status@ + "："@ + take_chars(body@, limit as nat),
{
    let mut r = String::from_str("接口返回 ");
    r.append(status);
    r.append("：");
    r.append(first_chars(body, limit));
    r
}

/// How many characters of an error body the translation channel quotes.
pub const MT_ERROR_DETAIL_CHARS: usize = 200;

} // verus!
