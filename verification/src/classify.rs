use crate::parse::{chars_of, is_whitespace, whitespace};
use vstd::prelude::*;
use vstd::string::StrSliceExecFns;

verus! {

/// Whether windows of this type are left alone: docks, utility windows,
/// desktops, splash screens, menus, toolbars and dialogs.
pub open spec fn ignored_type(window_type: Seq<char>) -> bool {
    window_type == "_NET_WM_WINDOW_TYPE_DOCK"@ || window_type == "_NET_WM_WINDOW_TYPE_UTILITY"@
        || window_type == "_NET_WM_WINDOW_TYPE_DESKTOP"@ || window_type
        == "_NET_WM_WINDOW_TYPE_SPLASH"@ || window_type == "_NET_WM_WINDOW_TYPE_MENU"@
        || window_type == "_NET_WM_WINDOW_TYPE_TOOLBAR"@ || window_type
        == "_NET_WM_WINDOW_TYPE_DIALOG"@
}

/// Whether a window is left alone, going by its type where it has one and
/// by its override-redirect flag where it has none.
pub open spec fn ignored(window_type: Option<Seq<char>>, redirect_override: bool) -> bool {
    match window_type {
        Some(t) => ignored_type(t),
        None => redirect_override,
    }
}

/// `s` without the whitespace at its start.
pub open spec fn trim_start(s: Seq<char>) -> Seq<char>
    decreases s.len(),
{
    if s.len() > 0 && whitespace(s[0]) {
        trim_start(s.drop_first())
    } else {
        s
    }
}

/// `s` without the whitespace at its end.
pub open spec fn trim_end(s: Seq<char>) -> Seq<char>
    decreases s.len(),
{
    if s.len() > 0 && whitespace(s.last()) {
        trim_end(s.drop_last())
    } else {
        s
    }
}

/// The window type that a property listing gives: what follows its `=`,
/// without the whitespace around it. `None` for a listing that does not
/// hold exactly one `=`.
pub open spec fn listed_type(listing: Seq<char>) -> Option<Seq<char>> {
    match listing.index_of_first('=') {
        Some(i) => {
            let value = listing.skip(i + 1);
            if value.contains('=') {
                None
            } else {
                Some(trim_end(trim_start(value)))
            }
        },
        None => None,
    }
}

/// Trimming at the start drops the first `k` characters where they are
/// whitespace and the next one is not.
pub proof fn lemma_trim_start(s: Seq<char>, k: int)
    requires
        0 <= k <= s.len(),
        forall|i: int| 0 <= i < k ==> whitespace(#[trigger] s[i]),
        k == s.len() || !whitespace(s[k]),
    ensures
        trim_start(s) == s.skip(k),
    decreases k,
{
    if k > 0 {
        let rest = s.drop_first();
        assert forall|i: int| 0 <= i < k - 1 implies whitespace(#[trigger] rest[i]) by {
            assert(rest[i] == s[i + 1]);
        }
        lemma_trim_start(rest, k - 1);
        assert(rest.skip(k - 1) =~= s.skip(k));
    } else {
        assert(s.skip(0) =~= s);
    }
}

/// Trimming at the end keeps the first `k` characters where all after
/// them are whitespace and the one before is not.
pub proof fn lemma_trim_end(s: Seq<char>, k: int)
    requires
        0 <= k <= s.len(),
        forall|i: int| k <= i < s.len() ==> whitespace(#[trigger] s[i]),
        k == 0 || !whitespace(s[k - 1]),
    ensures
        trim_end(s) == s.take(k),
    decreases s.len() - k,
{
    if k < s.len() {
        let rest = s.drop_last();
        lemma_trim_end(rest, k);
        assert(rest.take(k) =~= s.take(k));
    } else {
        assert(s.take(k) =~= s);
    }
}

/// Whether `window_type` names one of the types that are left alone.
pub fn is_ignored_type(window_type: &String) -> (b: bool)
    ensures
        b == ignored_type(window_type@),
{
    *window_type == "_NET_WM_WINDOW_TYPE_DOCK".to_owned() || *window_type
        == "_NET_WM_WINDOW_TYPE_UTILITY".to_owned() || *window_type
        == "_NET_WM_WINDOW_TYPE_DESKTOP".to_owned() || *window_type
        == "_NET_WM_WINDOW_TYPE_SPLASH".to_owned() || *window_type
        == "_NET_WM_WINDOW_TYPE_MENU".to_owned() || *window_type
        == "_NET_WM_WINDOW_TYPE_TOOLBAR".to_owned() || *window_type
        == "_NET_WM_WINDOW_TYPE_DIALOG".to_owned()
}

/// Whether a window is left alone. `window_type` is its type, if it has
/// one; `redirect_override` is its override-redirect flag, which counts
/// only for a window without a type.
pub fn is_ignored(window_type: &Option<String>, redirect_override: bool) -> (b: bool)
    ensures
        b == ignored(window_type.deep_view(), redirect_override),
{
    match window_type {
        Some(typ) => is_ignored_type(typ),
        None => redirect_override,
    }
}

/// Reads the window type out of a property listing.
pub fn parse_window_type(listing: &str) -> (window_type: Option<String>)
    ensures
        window_type.deep_view() == listed_type(listing@),
{
    let chars = chars_of(listing);
    let n = chars.len();
    let mut at: usize = 0;
    while at < n && chars[at] != '='
        invariant
            at <= n,
            n == chars.len(),
            forall|j: int| 0 <= j < at ==> chars@[j] != '=',
        decreases n - at,
    {
        at += 1;
    }
    proof {
        listing@.index_of_first_ensures('=');
    }
    if at == n {
        return None;
    }
    assert(listing@.index_of_first('=') == Some(at as int));
    let ghost value = listing@.skip(at + 1);
    let mut from: usize = at + 1;
    let mut k: usize = at + 1;
    while k < n
        invariant
            at < k <= n,
            n == chars.len(),
            chars@ == listing@,
            value == listing@.skip(at + 1),
            listing@.index_of_first('=') == Some(at as int),
            forall|j: int| 0 <= j < k - at - 1 ==> value[j] != '=',
        decreases n - k,
    {
        if chars[k] == '=' {
            assert(value[k - at - 1] == '=');
            return None;
        }
        k += 1;
    }
    assert(!value.contains('='));
    while from < n && is_whitespace(chars[from])
        invariant
            at < from <= n,
            n == chars.len(),
            chars@ == listing@,
            value == listing@.skip(at + 1),
            forall|j: int| 0 <= j < from - at - 1 ==> whitespace(#[trigger] value[j]),
        decreases n - from,
    {
        from += 1;
    }
    let mut to: usize = n;
    while to > from && is_whitespace(chars[to - 1])
        invariant
            from <= to <= n,
            n == chars.len(),
            chars@ == listing@,
            forall|j: int| to <= j < n ==> whitespace(#[trigger] listing@[j]),
        decreases to,
    {
        to -= 1;
    }
    proof {
        lemma_trim_start(value, from - at - 1);
        let inner = value.skip(from - at - 1);
        assert(inner =~= listing@.skip(from as int));
        assert forall|j: int| to - from <= j < inner.len() implies whitespace(
            #[trigger] inner[j],
        ) by {
            assert(inner[j] == listing@[from + j]);
        }
        lemma_trim_end(inner, to - from);
        assert(inner.take(to - from) =~= listing@.subrange(from as int, to as int));
    }
    Some(listing.substring_char(from, to).to_owned())
}

} // verus!
