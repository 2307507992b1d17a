use vstd::prelude::*;

verus! {

/// A window identifier or a scratchpad name as contracts see it: the
/// characters of the string, nothing more.
pub type Id = Seq<char>;

/// The test that an identifier passes when it is not `w`.
pub open spec fn other_than(w: Id) -> spec_fn(Id) -> bool {
    |x: Id| x != w
}

/// `s` with every occurrence of `w` taken out, the rest in order.
pub open spec fn without(s: Seq<Id>, w: Id) -> Seq<Id> {
    s.filter(other_than(w))
}

/// A focus history after `w` received focus: `w` is its last entry and
/// occurs nowhere before.
pub open spec fn refocused(history: Seq<Id>, w: Id) -> Seq<Id> {
    without(history, w).push(w)
}

/// `s` turned one place to the right: its last element comes first.
pub open spec fn rotated(s: Seq<Id>) -> Seq<Id> {
    if s.len() == 0 {
        s
    } else {
        seq![s.last()] + s.drop_last()
    }
}

/// A sequence that gained `x` at its end holds `x` and what it held before.
pub proof fn lemma_push_contains(s: Seq<Id>, x: Id, y: Id)
    ensures
        s.push(x).contains(y) <==> (s.contains(y) || y == x),
{
    if s.contains(y) {
        let i = choose|i: int| 0 <= i < s.len() && s[i] == y;
        assert(s.push(x)[i] == y);
    }
    if y == x {
        assert(s.push(x)[s.len() as int] == y);
    }
}

/// Turning a sequence changes the order of its elements and nothing else.
pub proof fn lemma_rotated_contains(s: Seq<Id>, y: Id)
    ensures
        rotated(s).contains(y) <==> s.contains(y),
{
    if s.len() > 0 {
        let r = rotated(s);
        if s.contains(y) {
            let i = choose|i: int| 0 <= i < s.len() && s[i] == y;
            if i == s.len() - 1 {
                assert(r[0] == y);
            } else {
                assert(r[i + 1] == y);
            }
        }
        if r.contains(y) {
            let i = choose|i: int| 0 <= i < r.len() && r[i] == y;
            if i == 0 {
                assert(s[s.len() - 1] == y);
            } else {
                assert(s[i - 1] == y);
            }
        }
    }
}

/// Taking `w` out of a list that gained `x` at its end.
pub proof fn lemma_without_push(s: Seq<Id>, x: Id, w: Id)
    ensures
        without(s.push(x), w) == if x == w {
            without(s, w)
        } else {
            without(s, w).push(x)
        },
{
    s.lemma_filter_push(x, other_than(w));
}

/// There is nothing to take out of an empty list.
pub proof fn lemma_without_empty(w: Id)
    ensures
        without(Seq::<Id>::empty(), w) == Seq::<Id>::empty(),
{
    reveal(Seq::filter);
}

/// What `without` keeps and what it drops.
pub proof fn lemma_without_contains(s: Seq<Id>, w: Id, x: Id)
    ensures
        without(s, w).contains(x) <==> (s.contains(x) && x != w),
    decreases s.len(),
{
    if s.len() == 0 {
        lemma_without_empty(w);
    } else {
        let init = s.drop_last();
        assert(s == init.push(s.last()));
        lemma_without_push(init, s.last(), w);
        lemma_without_contains(init, w, x);
        lemma_push_contains(init, s.last(), x);
        lemma_push_contains(without(init, w), s.last(), x);
    }
}

/// A list without repetitions that gains a window it did not hold repeats
/// none.
pub proof fn lemma_push_no_duplicates(s: Seq<Id>, x: Id)
    requires
        s.no_duplicates(),
        !s.contains(x),
    ensures
        s.push(x).no_duplicates(),
{
    let t = s.push(x);
    assert forall|i: int, j: int| 0 <= i < t.len() && 0 <= j < t.len() && i != j implies t[i]
        != t[j] by {
        if i < s.len() {
            assert(s.contains(s[i]));
        }
        if j < s.len() {
            assert(s.contains(s[j]));
        }
    }
}

/// In a list without repetitions the last window stands nowhere before.
pub proof fn lemma_drop_last_no_duplicates(s: Seq<Id>)
    requires
        s.no_duplicates(),
        s.len() > 0,
    ensures
        s.drop_last().no_duplicates(),
        !s.drop_last().contains(s.last()),
{
    let init = s.drop_last();
    if init.contains(s.last()) {
        let i = choose|i: int| 0 <= i < init.len() && init[i] == s.last();
        assert(s[i] == s[s.len() - 1]);
    }
}

/// Taking a window out of a list without repetitions leaves none.
pub proof fn lemma_without_no_duplicates(s: Seq<Id>, w: Id)
    requires
        s.no_duplicates(),
    ensures
        without(s, w).no_duplicates(),
    decreases s.len(),
{
    if s.len() == 0 {
        lemma_without_empty(w);
    } else {
        let init = s.drop_last();
        lemma_drop_last_no_duplicates(s);
        lemma_without_no_duplicates(init, w);
        assert(init.push(s.last()) =~= s);
        lemma_without_push(init, s.last(), w);
        if s.last() != w {
            lemma_without_contains(init, w, s.last());
            lemma_push_no_duplicates(without(init, w), s.last());
        }
    }
}

/// Turning a list without repetitions leaves none.
pub proof fn lemma_rotated_no_duplicates(s: Seq<Id>)
    requires
        s.no_duplicates(),
    ensures
        rotated(s).no_duplicates(),
{
    if s.len() > 0 {
        let r = rotated(s);
        assert forall|i: int, j: int| 0 <= i < r.len() && 0 <= j < r.len() && i != j implies r[i]
            != r[j] by {
            let a = if i == 0 {
                s.len() - 1
            } else {
                i - 1
            };
            let b = if j == 0 {
                s.len() - 1
            } else {
                j - 1
            };
            assert(r[i] == s[a]);
            assert(r[j] == s[b]);
        }
    }
}

/// A list that gained a window it held already lists it twice.
pub proof fn lemma_push_repeats(s: Seq<Id>, x: Id)
    requires
        s.contains(x),
    ensures
        !s.push(x).no_duplicates(),
{
    let i = choose|i: int| 0 <= i < s.len() && s[i] == x;
    assert(s.push(x)[i] == s.push(x)[s.len() as int]);
}

/// Whether `w` is one of the identifiers in `v`.
pub fn contains_id(v: &Vec<String>, w: &String) -> (found: bool)
    ensures
        found == v.deep_view().contains(w@),
{
    let mut i: usize = 0;
    while i < v.len()
        invariant
            i <= v.len(),
            forall|j: int| 0 <= j < i ==> v.deep_view()[j] != w@,
        decreases v.len() - i,
    {
        if v[i] == *w {
            assert(v.deep_view()[i as int] == w@);
            return true;
        }
        i += 1;
    }
    false
}

/// A copy of `v`, string by string.
pub fn copy_ids(v: &Vec<String>) -> (out: Vec<String>)
    ensures
        out.deep_view() == v.deep_view(),
{
    let mut out: Vec<String> = Vec::new();
    let mut i: usize = 0;
    while i < v.len()
        invariant
            i <= v.len(),
            out.deep_view() == v.deep_view().take(i as int),
        decreases v.len() - i,
    {
        let ghost before = out.deep_view();
        out.push(v[i].clone());
        assert(out.deep_view() =~= before.push(v[i as int]@));
        assert(v.deep_view().take(i + 1) =~= v.deep_view().take(i as int).push(v[i as int]@));
        i += 1;
    }
    assert(v.deep_view().take(v.len() as int) =~= v.deep_view());
    out
}

/// Takes every occurrence of `w` out of `v`.
pub fn remove_id(v: &mut Vec<String>, w: &String)
    ensures
        final(v).deep_view() == without(old(v).deep_view(), w@),
{
    let mut out: Vec<String> = Vec::new();
    let mut i: usize = 0;
    proof {
        lemma_without_empty(w@);
        assert(v.deep_view().take(0) =~= Seq::<Id>::empty());
        assert(out.deep_view() =~= Seq::<Id>::empty());
    }
    while i < v.len()
        invariant
            i <= v.len(),
            out.deep_view() == without(v.deep_view().take(i as int), w@),
        decreases v.len() - i,
    {
        let ghost before = out.deep_view();
        proof {
            assert(v.deep_view().take(i + 1) =~= v.deep_view().take(i as int).push(v[i as int]@));
            lemma_without_push(v.deep_view().take(i as int), v[i as int]@, w@);
        }
        if v[i] != *w {
            out.push(v[i].clone());
            assert(out.deep_view() =~= before.push(v[i as int]@));
        }
        i += 1;
    }
    assert(v.deep_view().take(v.len() as int) =~= v.deep_view());
    *v = out;
}

/// Whether two lists hold the same identifiers in the same order.
pub fn same_ids(a: &Vec<String>, b: &Vec<String>) -> (same: bool)
    ensures
        same == (a.deep_view() == b.deep_view()),
{
    if a.len() != b.len() {
        assert(a.deep_view().len() != b.deep_view().len());
        return false;
    }
    let mut i: usize = 0;
    while i < a.len()
        invariant
            i <= a.len(),
            a.len() == b.len(),
            forall|j: int| 0 <= j < i ==> a.deep_view()[j] == b.deep_view()[j],
        decreases a.len() - i,
    {
        if a[i] != b[i] {
            assert(a.deep_view()[i as int] != b.deep_view()[i as int]);
            return false;
        }
        i += 1;
    }
    assert(a.deep_view() =~= b.deep_view());
    true
}

/// Whether two optional identifiers are the same.
pub fn same_id(a: &Option<String>, b: &Option<String>) -> (same: bool)
    ensures
        same == (a.deep_view() == b.deep_view()),
{
    match (a, b) {
        (Some(x), Some(y)) => *x == *y,
        (None, None) => true,
        _ => false,
    }
}

/// A copy of an optional identifier.
pub fn copy_id(a: &Option<String>) -> (out: Option<String>)
    ensures
        out.deep_view() == a.deep_view(),
{
    match a {
        Some(x) => Some(x.clone()),
        None => None,
    }
}

} // verus!
