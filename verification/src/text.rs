//! Small helpers on strings, seen as sequences of characters.

use vstd::prelude::*;

verus! {

/// The characters of `s`, in order.
pub fn chars_of(s: &str) -> (out: Vec<char>)
    ensures
        out@ == s@,
{
    let mut out: Vec<char> = Vec::new();
    for c in it: s.chars()
        invariant
            it.seq() == s@,
            out@ == s@.take(it.index() as int),
    {
        out.push(c);
    }
    out
}

/// The texts of a list of strings.
pub open spec fn texts(v: Seq<String>) -> Seq<Seq<char>> {
    v.map_values(|s: String| s@)
}

/// A copy of a list of strings.
pub fn copy_texts(v: &Vec<String>) -> (out: Vec<String>)
    ensures
        texts(out@) == texts(v@),
{
    let mut out: Vec<String> = Vec::new();
    let mut i: usize = 0;
    while i < v.len()
        invariant
            i <= v.len(),
            texts(out@) == texts(v@.take(i as int)),
        decreases v.len() - i,
    {
        let ghost before = texts(out@);
        let item = v[i].clone();
        out.push(item);
        i += 1;
        assert(texts(v@.take(i as int)) =~= before.push(v@[i - 1]@));
    }
    out
}

/// Whether two character vectors hold the same text.
pub fn same_text(a: &Vec<char>, b: &Vec<char>) -> (same: bool)
    ensures
        same == (a@ == b@),
{
    if a.len() != b.len() {
        return false;
    }
    let mut i: usize = 0;
    while i < a.len()
        invariant
            a.len() == b.len(),
            i <= a.len(),
            forall|k: int| 0 <= k < i ==> a@[k] == b@[k],
        decreases a.len() - i,
    {
        if a[i] != b[i] {
            return false;
        }
        i += 1;
    }
    assert(a@ =~= b@);
    true
}

/// Whether two strings hold the same text.
pub fn text_eq(a: &str, b: &str) -> (same: bool)
    ensures
        same == (a@ == b@),
{
    let x = chars_of(a);
    let y = chars_of(b);
    same_text(&x, &y)
}

/// Whether `text` is among `list`.
pub fn has_text(list: &Vec<String>, text: &str) -> (found: bool)
    ensures
        found == texts(list@).contains(text@),
{
    let wanted = chars_of(text);
    let mut i: usize = 0;
    while i < list.len()
        invariant
            i <= list.len(),
            wanted@ == text@,
            forall|k: int| 0 <= k < i ==> texts(list@)[k] != text@,
        decreases list.len() - i,
    {
        let have = chars_of(list[i].as_str());
        if same_text(&have, &wanted) {
            assert(texts(list@)[i as int] == text@);
            return true;
        }
        i += 1;
    }
    false
}

/// Appends a copy of each string of `more` to `list`.
pub fn extend_texts(list: &mut Vec<String>, more: &Vec<String>)
    ensures
        texts(final(list)@) == texts(old(list)@) + texts(more@),
{
    let ghost start = texts(list@);
    let mut i: usize = 0;
    while i < more.len()
        invariant
            i <= more.len(),
            texts(list@) == start + texts(more@.take(i as int)),
        decreases more.len() - i,
    {
        let ghost before = texts(list@);
        let item = more[i].clone();
        list.push(item);
        i += 1;
        assert(texts(list@) =~= before.push(item@));
    }
}

} // verus!
