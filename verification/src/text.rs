//! Small text-shaping helpers: truncation, placeholder dashes, case runs and
//! disclosure keys.

use vstd::prelude::*;
use vstd::string::StringExecFns;

use crate::chars::{
    char_is_lowercase, char_is_whitespace, chars_of, decimal, is_lowercase_char,
    is_whitespace_char, push_char, push_decimal, push_str, string_from_chars,
};

verus! {

/// The horizontal ellipsis appended to truncated text.
pub const ELLIPSIS: char = '\u{2026}';

/// The em dash shown in place of an empty value.
pub const EM_DASH: char = '\u{2014}';

/// `text` cut to its first `max_chars` characters plus an ellipsis when
/// longer, otherwise unchanged.
pub open spec fn truncated(text: Seq<char>, max_chars: nat) -> Seq<char> {
    if text.len() <= max_chars {
        text
    } else {
        text.take(max_chars as int).push(ELLIPSIS)
    }
}

/// Truncates `text` to at most `max_chars` characters (Unicode scalar
/// values, never splitting one), appending an ellipsis when truncation
/// occurs; the ellipsis comes on top of the budget.
pub fn truncate_with_ellipsis(text: &str, max_chars: usize) -> (r: String)
    ensures
        r@ == truncated(text@, max_chars as nat),
        r@.len() <= max_chars + 1,
{
    let chars = chars_of(text);
    if chars.len() <= max_chars {
        return String::from_str(text);
    }
    let mut kept: Vec<char> = Vec::new();
    let mut i: usize = 0;
    while i < max_chars
        invariant
            i <= max_chars < chars.len(),
            kept@ == chars@.take(i as int),
        decreases max_chars - i,
    {
        kept.push(chars[i]);
        i = i + 1;
        assert(kept@ =~= chars@.take(i as int));
    }
    let mut r = string_from_chars(&kept);
    push_char(&mut r, ELLIPSIS);
    r
}

/// Every character of `s` is whitespace (so `s.trim()` is empty).
pub open spec fn all_whitespace(s: Seq<char>) -> bool {
    forall|i: int| 0 <= i < s.len() ==> is_whitespace_char(#[trigger] s[i])
}

/// A metadata value, or an em dash when it is empty or only whitespace.
pub open spec fn value_or_dash_text(value: Seq<char>) -> Seq<char> {
    if all_whitespace(value) {
        seq![EM_DASH]
    } else {
        value
    }
}

/// Renders a metadata value, falling back to an em dash when it is empty or
/// only whitespace.
pub fn value_or_dash(value: &str) -> (r: String)
    ensures
        r@ == value_or_dash_text(value@),
{
    let chars = chars_of(value);
    let mut i: usize = 0;
    while i < chars.len()
        invariant
            i <= chars.len(),
            chars@ == value@,
            forall|k: int| 0 <= k < i ==> is_whitespace_char(#[trigger] chars@[k]),
        decreases chars.len() - i,
    {
        if !char_is_whitespace(chars[i]) {
            return String::from_str(value);
        }
        i = i + 1;
    }
    let mut r = String::new();
    push_char(&mut r, EM_DASH);
    r
}

/// The characters of the runs, in order.
pub open spec fn joined_runs(runs: Seq<(String, bool)>) -> Seq<char>
    decreases runs.len(),
{
    if runs.len() == 0 {
        Seq::empty()
    } else {
        joined_runs(runs.drop_last()) + runs.last().0@
    }
}

/// `runs` splits `text` into maximal runs of lowercase vs. other characters:
/// the runs join back to `text`, none is empty, each is uniformly lowercase
/// or not as its flag says, and neighbouring runs differ.
pub open spec fn is_case_split(runs: Seq<(String, bool)>, text: Seq<char>) -> bool {
    &&& joined_runs(runs) == text
    &&& forall|k: int| 0 <= k < runs.len() ==> (#[trigger] runs[k]).0@.len() > 0
    &&& forall|k: int, i: int|
        0 <= k < runs.len() && 0 <= i < runs[k].0@.len() ==> is_lowercase_char(
            #[trigger] runs[k].0@[i],
        ) == runs[k].1
    &&& forall|k: int| 0 < k < runs.len() ==> (#[trigger] runs[k]).1 != runs[k - 1].1
}

/// Splits `text` into consecutive runs of lowercase characters vs.
/// everything else, tagging each run with whether it is lowercase.
pub fn case_runs(text: &str) -> (runs: Vec<(String, bool)>)
    ensures
        is_case_split(runs@, text@),
{
    let chars = chars_of(text);
    let mut runs: Vec<(String, bool)> = Vec::new();
    if chars.len() == 0 {
        assert(joined_runs(runs@) =~= text@);
        return runs;
    }
    let mut cur = String::new();
    let mut cur_lower = char_is_lowercase(chars[0]);
    let mut i: usize = 0;
    while i < chars.len()
        invariant
            i <= chars.len(),
            chars@ == text@,
            chars.len() > 0,
            joined_runs(runs@) + cur@ == chars@.take(i as int),
            i > 0 ==> cur@.len() > 0,
            i == 0 ==> cur@.len() == 0 && runs.len() == 0,
            forall|j: int| 0 <= j < cur@.len() ==> is_lowercase_char(#[trigger] cur@[j]) == cur_lower,
            cur_lower == is_lowercase_char(chars@[0]) || i > 0,
            forall|k: int| 0 <= k < runs.len() ==> (#[trigger] runs@[k]).0@.len() > 0,
            forall|k: int, j: int|
                0 <= k < runs.len() && 0 <= j < runs@[k].0@.len() ==> is_lowercase_char(
                    #[trigger] runs@[k].0@[j],
                ) == runs@[k].1,
            forall|k: int| 0 < k < runs.len() ==> (#[trigger] runs@[k]).1 != runs@[k - 1].1,
            runs.len() > 0 ==> runs@.last().1 != cur_lower,
        decreases chars.len() - i,
    {
        let c = chars[i];
        let lower = char_is_lowercase(c);
        if i > 0 && lower != cur_lower {
            let ghost before = runs@;
            let finished = cur;
            runs.push((finished, cur_lower));
            cur = String::new();
            cur_lower = lower;
            proof {
                assert(runs@.drop_last() == before);
                assert(joined_runs(runs@) + cur@ =~= chars@.take(i as int));
            }
        } else if i == 0 {
            cur_lower = lower;
        }
        push_char(&mut cur, c);
        i = i + 1;
        assert(chars@.take(i as int) =~= chars@.take(i - 1).push(c));
    }
    let ghost before = runs@;
    runs.push((cur, cur_lower));
    proof {
        assert(runs@.drop_last() == before);
        assert(chars@.take(i as int) =~= chars@);
    }
    runs
}

/// The toggle-state key `"{entry_id}:{row_ix}"` of one file's "Other
/// details" disclosure.
pub open spec fn other_details_key(entry_id: Seq<char>, row_ix: nat) -> Seq<char> {
    entry_id + seq![':'] + decimal(row_ix)
}

/// Builds the shared toggle-state key for a single file's "Other details"
/// disclosure within a multi-item entry.
pub fn file_other_details_key(entry_id: &str, row_ix: usize) -> (k: String)
    ensures
        k@ == other_details_key(entry_id@, row_ix as nat),
{
    let mut k = String::from_str(entry_id);
    push_char(&mut k, ':');
    push_decimal(&mut k, row_ix as u64);
    k
}

/// Truncation keeps at most `max_chars` leading characters of the text,
/// unchanged, and marks a cut with one trailing ellipsis: text that fits is
/// returned as it is, longer text becomes its first `max_chars` characters
/// followed by `…`.
pub proof fn lemma_truncation_keeps_a_prefix(text: Seq<char>, max_chars: nat)
    ensures
        text.len() <= max_chars ==> truncated(text, max_chars) == text,
        text.len() > max_chars ==> {
            let r = truncated(text, max_chars);
            &&& r.len() == max_chars + 1
            &&& forall|k: int| 0 <= k < max_chars ==> #[trigger] r[k] == text[k]
            &&& r[max_chars as int] == '\u{2026}'
        },
{
}

} // verus!
