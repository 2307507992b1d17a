use crate::event::{
    Event, EventView, ScratchpadEvent, ScratchpadEventView, WindowEvent, WindowEventType,
    WindowEventView, WorkspaceEvent, WorkspaceEventView,
};
use vstd::prelude::*;
use vstd::string::StrSliceExecFns;

verus! {

/// Whether `c` separates words: a character with the Unicode property
/// `White_Space`.
pub open spec fn whitespace(c: char) -> bool {
    let u = c as u32;
    (0x09 <= u <= 0x0d) || u == 0x20 || u == 0x85 || u == 0xa0 || u == 0x1680 || (0x2000 <= u
        <= 0x200a) || u == 0x2028 || u == 0x2029 || u == 0x202f || u == 0x205f || u == 0x3000
}

/// How many characters stand at the start of `s` before its first
/// whitespace or its end.
pub open spec fn word_len(s: Seq<char>) -> nat
    decreases s.len(),
{
    if s.len() == 0 || whitespace(s[0]) {
        0
    } else {
        1 + word_len(s.drop_first())
    }
}

/// The words of `s`: its longest runs of characters that are not
/// whitespace, in order.
pub open spec fn words(s: Seq<char>) -> Seq<Seq<char>>
    decreases s.len(),
    via words_decreases
{
    if s.len() == 0 {
        Seq::empty()
    } else if whitespace(s[0]) {
        words(s.drop_first())
    } else {
        seq![s.take(word_len(s) as int)] + words(s.skip(word_len(s) as int))
    }
}

/// A word is not empty, so what follows it is shorter than the text.
#[via_fn]
proof fn words_decreases(s: Seq<char>) {
    if s.len() > 0 && !whitespace(s[0]) {
        lemma_word_len_bounds(s);
    }
}

/// A word is no longer than the text it starts, and not empty where the
/// text starts with another character than whitespace.
pub proof fn lemma_word_len_bounds(s: Seq<char>)
    ensures
        word_len(s) <= s.len(),
        s.len() > 0 && !whitespace(s[0]) ==> word_len(s) >= 1,
    decreases s.len(),
{
    if s.len() > 0 && !whitespace(s[0]) {
        lemma_word_len_bounds(s.drop_first());
    }
}

/// The word at the start of `s` ends at `k` where no whitespace stands
/// before `k` and either `s` ends there or whitespace follows.
pub proof fn lemma_word_len_is(s: Seq<char>, k: int)
    requires
        0 <= k <= s.len(),
        forall|i: int| 0 <= i < k ==> !whitespace(#[trigger] s[i]),
        k == s.len() || whitespace(s[k]),
    ensures
        word_len(s) == k,
    decreases k,
{
    if k > 0 {
        let rest = s.drop_first();
        assert forall|i: int| 0 <= i < k - 1 implies !whitespace(#[trigger] rest[i]) by {
            assert(rest[i] == s[i + 1]);
        }
        lemma_word_len_is(rest, k - 1);
    }
}

/// The value of the decimal digit `c`.
pub open spec fn digit_value(c: char) -> Option<nat> {
    if '0' <= c <= '9' {
        Some((c as u32 - '0' as u32) as nat)
    } else {
        None
    }
}

/// Whether `s` holds decimal digits only.
pub open spec fn all_digits(s: Seq<char>) -> bool {
    forall|i: int| 0 <= i < s.len() ==> (#[trigger] digit_value(s[i])) is Some
}

/// The number that the decimal digits `s` write.
pub open spec fn decimal(s: Seq<char>) -> nat
    decreases s.len(),
{
    if s.len() == 0 {
        0
    } else {
        decimal(s.drop_last()) * 10 + digit_value(s.last()).unwrap_or(0)
    }
}

/// The number a word stands for: one or more decimal digits, which a
/// single `+` may precede. `None` for any other word.
pub open spec fn number_of(s: Seq<char>) -> Option<nat> {
    let digits = if s.len() > 0 && s[0] == '+' {
        s.drop_first()
    } else {
        s
    };
    if digits.len() > 0 && all_digits(digits) {
        Some(decimal(digits))
    } else {
        None
    }
}

/// The index of the workspace that a word numbers, counting from one, where
/// there are `count` workspaces.
pub open spec fn workspace_index(s: Seq<char>, count: int) -> Option<usize> {
    match number_of(s) {
        Some(n) => if 1 <= n <= count {
            Some((n - 1) as usize)
        } else {
            None
        },
        None => None,
    }
}

/// What a verb says happened to a window.
pub open spec fn window_verb(verb: Seq<char>) -> Option<WindowEventType> {
    if verb == "CREATE"@ {
        Some(WindowEventType::CreateNotify)
    } else if verb == "DESTROY"@ {
        Some(WindowEventType::DestroyNotify)
    } else if verb == "MAP"@ {
        Some(WindowEventType::MapNotify)
    } else if verb == "FOCUS_IN"@ {
        Some(WindowEventType::FocusIn)
    } else if verb == "FOCUS_OUT"@ {
        Some(WindowEventType::FocusOut)
    } else {
        None
    }
}

/// Whether `s` names one of the four directions.
pub open spec fn is_direction(s: Seq<char>) -> bool {
    s == "LEFT"@ || s == "RIGHT"@ || s == "UP"@ || s == "DOWN"@
}

/// The event that a verb and its argument stand for.
pub open spec fn event_with_argument(verb: Seq<char>, arg: Seq<char>, count: int) -> EventView {
    if window_verb(verb) is Some {
        EventView::Window(WindowEventView { window_id: arg, event_type: window_verb(verb)->0 })
    } else if verb == "WS_FOCUS"@ {
        match workspace_index(arg, count) {
            Some(ws) => EventView::Workspace(WorkspaceEventView::Focus(ws)),
            None => EventView::Unknown,
        }
    } else if verb == "WS_MOVE"@ {
        match workspace_index(arg, count) {
            Some(ws) => EventView::Workspace(WorkspaceEventView::MoveWindow(ws)),
            None => EventView::Unknown,
        }
    } else if verb == "WS_FOCUS_WINDOW"@ {
        if is_direction(arg) {
            EventView::Workspace(WorkspaceEventView::FocusWindow(arg))
        } else {
            EventView::Unknown
        }
    } else if verb == "SP_ADD"@ {
        EventView::Scratchpad(ScratchpadEventView::AddWindow(arg))
    } else if verb == "SP_REMOVE"@ {
        EventView::Scratchpad(ScratchpadEventView::RemoveWindow(arg))
    } else if verb == "SP_TOGGLE"@ {
        EventView::Scratchpad(ScratchpadEventView::ToggleWindow(arg))
    } else {
        EventView::Unknown
    }
}

/// The event that the words of a line stand for, where there are `count`
/// workspaces. The first word is the verb, the second its argument; words
/// after these are not read. A line without a verb, with a verb that is not
/// known, without an argument that the verb needs, or with an argument that
/// the verb does not take stands for `Unknown`.
pub open spec fn event_of_words(t: Seq<Seq<char>>, count: int) -> EventView {
    if t.len() == 0 {
        EventView::Unknown
    } else if t[0] == "WS_CYCLE"@ {
        EventView::Workspace(WorkspaceEventView::Cycle)
    } else if t[0] == "WS_FULLSCREEN"@ {
        EventView::Workspace(WorkspaceEventView::FullscreenToggle)
    } else if t.len() < 2 {
        EventView::Unknown
    } else {
        event_with_argument(t[0], t[1], count)
    }
}

/// Whether `c` separates words.
pub fn is_whitespace(c: char) -> (b: bool)
    ensures
        b == whitespace(c),
{
    let u = c as u32;
    (0x09 <= u && u <= 0x0d) || u == 0x20 || u == 0x85 || u == 0xa0 || u == 0x1680 || (0x2000 <= u
        && u <= 0x200a) || u == 0x2028 || u == 0x2029 || u == 0x202f || u == 0x205f || u == 0x3000
}

/// The characters of `text`.
pub fn chars_of(text: &str) -> (chars: Vec<char>)
    ensures
        chars@ == text@,
{
    let mut chars: Vec<char> = Vec::new();
    for c in it: text.chars()
        invariant
            it.seq() == text@,
            chars@ == it.seq().take(it.index() as int),
    {
        chars.push(c);
        assert(it.seq().take(it.index() + 1) =~= it.seq().take(it.index() as int).push(c));
    }
    assert(text@.take(text@.len() as int) =~= text@);
    chars
}

/// Splits a line into its words.
pub fn split_words(line: &str) -> (out: Vec<String>)
    ensures
        out.deep_view() == words(line@),
{
    let chars = chars_of(line);
    let n = chars.len();
    let mut out: Vec<String> = Vec::new();
    let mut i: usize = 0;
    proof {
        assert(line@.skip(0) =~= line@);
        assert(out.deep_view() =~= Seq::empty());
        assert(Seq::<Seq<char>>::empty() + words(line@) =~= words(line@));
    }
    while i < n
        invariant
            i <= n,
            n == chars.len(),
            chars@ == line@,
            words(line@) == out.deep_view() + words(line@.skip(i as int)),
        decreases n - i,
    {
        let ghost rest = line@.skip(i as int);
        if is_whitespace(chars[i]) {
            assert(rest.drop_first() =~= line@.skip(i + 1));
            i += 1;
        } else {
            let mut j: usize = i + 1;
            while j < n && !is_whitespace(chars[j])
                invariant
                    i < j <= n,
                    n == chars.len(),
                    chars@ == line@,
                    forall|k: int| i <= k < j ==> !whitespace(#[trigger] line@[k]),
                decreases n - j,
            {
                j += 1;
            }
            let word = line.substring_char(i, j).to_owned();
            let ghost so_far = out.deep_view();
            out.push(word);
            proof {
                assert forall|k: int| 0 <= k < j - i implies !whitespace(#[trigger] rest[k]) by {
                    assert(rest[k] == line@[i + k]);
                }
                lemma_word_len_is(rest, j - i);
                assert(rest.take(j - i) =~= line@.subrange(i as int, j as int));
                assert(rest.skip(j - i) =~= line@.skip(j as int));
                assert(out.deep_view() =~= so_far.push(word@));
                assert(so_far.push(word@) + words(line@.skip(j as int)) =~= so_far + (seq![word@]
                    + words(line@.skip(j as int))));
            }
            i = j;
        }
    }
    proof {
        assert(words(line@.skip(n as int)) =~= Seq::empty());
        assert(out.deep_view() + Seq::<Seq<char>>::empty() =~= out.deep_view());
    }
    out
}

/// Appending a digit never makes the number smaller.
pub proof fn lemma_decimal_prefix(s: Seq<char>, i: int)
    requires
        0 <= i <= s.len(),
    ensures
        decimal(s.take(i)) <= decimal(s),
    decreases s.len() - i,
{
    if i < s.len() {
        lemma_decimal_prefix(s, i + 1);
        assert(s.take(i + 1).drop_last() =~= s.take(i));
    } else {
        assert(s.take(i) =~= s);
    }
}

/// Reads a word as a number: decimal digits, which a single `+` may
/// precede. `None` for any other word, and for a number too large for
/// `usize`.
pub fn parse_number(word: &str) -> (n: Option<usize>)
    ensures
        n == match number_of(word@) {
            Some(v) => if v <= usize::MAX {
                Some(v as usize)
            } else {
                None
            },
            None => None,
        },
{
    let chars = chars_of(word);
    let start: usize = if chars.len() > 0 && chars[0] == '+' {
        1
    } else {
        0
    };
    let ghost digits = if start == 1 {
        word@.drop_first()
    } else {
        word@
    };
    assert(digits =~= word@.skip(start as int));
    if start == chars.len() {
        return None;
    }
    let mut value: usize = 0;
    let mut i: usize = start;
    assert(digits.take(0) =~= Seq::empty());
    while i < chars.len()
        invariant
            start <= i <= chars.len(),
            chars@ == word@,
            digits == word@.skip(start as int),
            number_of(word@) == if digits.len() > 0 && all_digits(digits) {
                Some(decimal(digits))
            } else {
                None
            },
            all_digits(digits.take(i - start)),
            value == decimal(digits.take(i - start)),
        decreases chars.len() - i,
    {
        let c = chars[i];
        let ghost k = i - start;
        assert(digits[k] == c);
        if !('0' <= c && c <= '9') {
            assert(digit_value(digits[k]) is None);
            return None;
        }
        let d = (c as u32 - '0' as u32) as usize;
        proof {
            assert(digits.take(k + 1).drop_last() =~= digits.take(k));
            assert(digits.take(k + 1).last() == c);
            assert forall|m: int| 0 <= m < k + 1 implies (#[trigger] digit_value(
                digits.take(k + 1)[m],
            )) is Some by {
                if m < k {
                    assert(digits.take(k)[m] == digits.take(k + 1)[m]);
                }
            }
            lemma_decimal_prefix(digits, k + 1);
        }
        let next = match value.checked_mul(10) {
            Some(tens) => tens.checked_add(d),
            None => None,
        };
        match next {
            Some(v) => {
                value = v;
            },
            None => {
                assert(decimal(digits.take(k + 1)) > usize::MAX);
                return None;
            },
        }
        i += 1;
    }
    assert(digits.take(chars.len() - start) =~= digits);
    Some(value)
}

/// Whether `word` reads `text`.
fn reads(word: &String, text: &str) -> (b: bool)
    ensures
        b == (word@ == text@),
{
    *word == text.to_owned()
}

/// Reads a word as the number of one of `count` workspaces, counted from
/// one, and gives the workspace's index.
pub fn parse_workspace(word: &String, count: usize) -> (ws: Option<usize>)
    ensures
        ws == workspace_index(word@, count as int),
{
    match parse_number(word.as_str()) {
        Some(n) => if 1 <= n && n <= count {
            Some(n - 1)
        } else {
            None
        },
        None => None,
    }
}

/// What a verb says happened to a window.
fn parse_window_verb(verb: &String) -> (event_type: Option<WindowEventType>)
    ensures
        event_type == window_verb(verb@),
{
    if reads(verb, "CREATE") {
        Some(WindowEventType::CreateNotify)
    } else if reads(verb, "DESTROY") {
        Some(WindowEventType::DestroyNotify)
    } else if reads(verb, "MAP") {
        Some(WindowEventType::MapNotify)
    } else if reads(verb, "FOCUS_IN") {
        Some(WindowEventType::FocusIn)
    } else if reads(verb, "FOCUS_OUT") {
        Some(WindowEventType::FocusOut)
    } else {
        None
    }
}

/// The event that a verb and its argument stand for.
fn parse_with_argument(verb: &String, arg: &String, workspace_count: usize) -> (event: Event)
    ensures
        event@ == event_with_argument(verb@, arg@, workspace_count as int),
{
    if let Some(event_type) = parse_window_verb(verb) {
        Event::Window(WindowEvent { window_id: arg.clone(), event_type })
    } else if reads(verb, "WS_FOCUS") {
        match parse_workspace(arg, workspace_count) {
            Some(ws) => Event::Workspace(WorkspaceEvent::Focus(ws)),
            None => Event::Unknown,
        }
    } else if reads(verb, "WS_MOVE") {
        match parse_workspace(arg, workspace_count) {
            Some(ws) => Event::Workspace(WorkspaceEvent::MoveWindow(ws)),
            None => Event::Unknown,
        }
    } else if reads(verb, "WS_FOCUS_WINDOW") {
        if reads(arg, "LEFT") || reads(arg, "RIGHT") || reads(arg, "UP") || reads(arg, "DOWN") {
            Event::Workspace(WorkspaceEvent::FocusWindow(arg.clone()))
        } else {
            Event::Unknown
        }
    } else if reads(verb, "SP_ADD") {
        Event::Scratchpad(ScratchpadEvent::AddWindow(arg.clone()))
    } else if reads(verb, "SP_REMOVE") {
        Event::Scratchpad(ScratchpadEvent::RemoveWindow(arg.clone()))
    } else if reads(verb, "SP_TOGGLE") {
        Event::Scratchpad(ScratchpadEvent::ToggleWindow(arg.clone()))
    } else {
        Event::Unknown
    }
}

/// The event that the words of a line stand for, where there are
/// `workspace_count` workspaces.
pub fn event_from_words(words: &Vec<String>, workspace_count: usize) -> (event: Event)
    ensures
        event@ == event_of_words(words.deep_view(), workspace_count as int),
{
    if words.len() == 0 {
        return Event::Unknown;
    }
    assert(words.deep_view()[0] == words[0]@);
    if reads(&words[0], "WS_CYCLE") {
        Event::Workspace(WorkspaceEvent::Cycle)
    } else if reads(&words[0], "WS_FULLSCREEN") {
        Event::Workspace(WorkspaceEvent::FullscreenToggle)
    } else if words.len() < 2 {
        Event::Unknown
    } else {
        assert(words.deep_view()[1] == words[1]@);
        parse_with_argument(&words[0], &words[1], workspace_count)
    }
}

/// Reads one line of the event protocol, where there are `workspace_count`
/// workspaces. A line that is not an event of the protocol, and one that
/// numbers a workspace that does not exist, gives `Event::Unknown`.
pub fn parse_event(line: &str, workspace_count: usize) -> (event: Event)
    ensures
        event@ == event_of_words(words(line@), workspace_count as int),
{
    let words = split_words(line);
    event_from_words(&words, workspace_count)
}

} // verus!
