//! Paths as text: their components, nesting, and depth.
//!
//! A path is a string whose parts are separated by `/`. Its components are
//! what is left after a little normalisation: repeated or trailing
//! separators and `.` segments do not count, except that a leading `/`
//! yields the root component and a leading `.` segment the current-directory
//! component. `..` segments are kept as they are.

use vstd::prelude::*;
use crate::text::{chars_of, same_text};

verus! {

/// The text between separators: `a//b` has the segments `a`, the empty
/// segment, and `b`. There is always at least one segment.
pub open spec fn segments(s: Seq<char>) -> Seq<Seq<char>>
    decreases s.len(),
{
    if s.len() == 0 {
        seq![Seq::empty()]
    } else {
        let before = segments(s.drop_last());
        if s.last() == '/' {
            before.push(Seq::empty())
        } else {
            before.drop_last().push(before.last().push(s.last()))
        }
    }
}

/// A segment that names something: neither empty nor `.`.
pub open spec fn is_name(segment: Seq<char>) -> bool {
    segment.len() > 0 && !(segment.len() == 1 && segment[0] == '.')
}

/// The parent-traversal segment `..`.
pub open spec fn is_parent(segment: Seq<char>) -> bool {
    segment.len() == 2 && segment[0] == '.' && segment[1] == '.'
}

/// The component that only the start of a path can yield: the root for a
/// leading `/`, the current directory for a leading `.` segment.
pub open spec fn lead(s: Seq<char>) -> Seq<Seq<char>> {
    if s.len() > 0 && s[0] == '/' {
        seq![seq!['/']]
    } else if s.len() > 0 && s[0] == '.' && (s.len() == 1 || s[1] == '/') {
        seq![seq!['.']]
    } else {
        Seq::empty()
    }
}

/// The components of a path, in order.
pub open spec fn components(s: Seq<char>) -> Seq<Seq<char>> {
    lead(s) + segments(s).filter(|g: Seq<char>| is_name(g))
}

/// `path` is `base` itself or lies beneath it: the components of `base`
/// begin those of `path`.
pub open spec fn is_under(path: Seq<char>, base: Seq<char>) -> bool {
    components(base).is_prefix_of(components(path))
}

/// `path` lies beneath `base` and is not `base` itself.
pub open spec fn is_strictly_under(path: Seq<char>, base: Seq<char>) -> bool {
    is_under(path, base) && components(base).len() < components(path).len()
}

/// The number of components.
pub open spec fn depth(path: Seq<char>) -> nat {
    components(path).len()
}

/// A component that is an ordinary name: not the root, not `.`, not `..`.
pub open spec fn is_normal(component: Seq<char>) -> bool {
    &&& component.len() > 0
    &&& !(component.len() == 1 && (component[0] == '/' || component[0] == '.'))
    &&& !is_parent(component)
}

/// The last component where it is an ordinary name, else the empty text.
pub open spec fn base_name(path: Seq<char>) -> Seq<char> {
    let parts = components(path);
    if parts.len() > 0 && is_normal(parts.last()) {
        parts.last()
    } else {
        Seq::empty()
    }
}

/// Some component of the path is `..`.
pub open spec fn has_parent_component(path: Seq<char>) -> bool {
    exists|i: int| 0 <= i < components(path).len() && is_parent(#[trigger] components(path)[i])
}

/// The views of a list of character vectors.
pub open spec fn rows(v: Seq<Vec<char>>) -> Seq<Seq<char>> {
    v.map_values(|r: Vec<char>| r@)
}

/// Every path has at least one segment.
pub proof fn lemma_segments_nonempty(s: Seq<char>)
    ensures
        segments(s).len() > 0,
    decreases s.len(),
{
    if s.len() > 0 {
        lemma_segments_nonempty(s.drop_last());
    }
}

/// What one more character does to the named segments seen so far.
proof fn lemma_segments_step(s: Seq<char>, i: int)
    requires
        0 <= i < s.len(),
    ensures
        segments(s.take(i)).len() > 0,
        s[i] == '/' ==> {
            &&& segments(s.take(i + 1)).drop_last() == segments(s.take(i))
            &&& segments(s.take(i + 1)).last() == Seq::<char>::empty()
        },
        s[i] != '/' ==> {
            &&& segments(s.take(i + 1)).drop_last() == segments(s.take(i)).drop_last()
            &&& segments(s.take(i + 1)).last() == segments(s.take(i)).last().push(s[i])
        },
{
    assert(s.take(i + 1).drop_last() =~= s.take(i));
    lemma_segments_nonempty(s.take(i));
}

/// A path that is the separator and then a plain name has two
/// components: the root and the name.
pub proof fn lemma_rooted_name(name: Seq<char>)
    requires
        is_name(name),
        forall|i: int| 0 <= i < name.len() ==> name[i] != '/',
    ensures
        components(seq!['/'] + name) == seq![seq!['/'], name],
{
    let s = seq!['/'] + name;
    lemma_rooted_segments(name);
    let named = |g: Seq<char>| is_name(g);
    let none = Seq::<Seq<char>>::empty();
    assert(segments(s) =~= none.push(Seq::<char>::empty()).push(name));
    none.lemma_filter_push(Seq::<char>::empty(), named);
    none.push(Seq::<char>::empty()).lemma_filter_push(name, named);
    assert(none.filter(named) =~= none) by {
        reveal(Seq::filter);
    }
    assert(components(s) =~= seq![seq!['/'], name]);
}

/// The root directory has the root as its only component.
pub proof fn lemma_root_alone()
    ensures
        components(seq!['/']) == seq![seq!['/']],
{
    let s = seq!['/'];
    lemma_rooted_segments(Seq::<char>::empty());
    assert(s =~= seq!['/'] + Seq::<char>::empty());
    let named = |g: Seq<char>| is_name(g);
    let none = Seq::<Seq<char>>::empty();
    assert(segments(s) =~= none.push(Seq::<char>::empty()).push(Seq::<char>::empty()));
    none.lemma_filter_push(Seq::<char>::empty(), named);
    none.push(Seq::<char>::empty()).lemma_filter_push(Seq::<char>::empty(), named);
    assert(none.filter(named) =~= none) by {
        reveal(Seq::filter);
    }
    assert(components(s) =~= seq![seq!['/']]);
}

/// The separator and then text without a separator has two segments: the
/// empty one before the separator, and the text.
proof fn lemma_rooted_segments(name: Seq<char>)
    requires
        forall|i: int| 0 <= i < name.len() ==> name[i] != '/',
    ensures
        segments(seq!['/'] + name) == seq![Seq::<char>::empty(), name],
    decreases name.len(),
{
    let s = seq!['/'] + name;
    if name.len() == 0 {
        assert(s.len() == 1 && s.last() == '/');
        assert(s.drop_last() =~= Seq::<char>::empty());
        assert(segments(s.drop_last()) =~= seq![Seq::<char>::empty()]);
        assert(name =~= Seq::<char>::empty());
        assert(segments(s) =~= seq![Seq::<char>::empty()].push(Seq::<char>::empty()));
    } else {
        lemma_rooted_segments(name.drop_last());
        assert(s.drop_last() =~= seq!['/'] + name.drop_last());
        assert(s.last() == name.last());
        assert(name.drop_last().push(name.last()) =~= name);
        assert(segments(s) =~= seq![Seq::<char>::empty(), name]);
    }
}

/// Every path lies under itself.
pub proof fn lemma_under_itself(path: Seq<char>)
    ensures
        is_under(path, path),
        !is_strictly_under(path, path),
{
    let parts = components(path);
    assert(parts =~= parts.subrange(0, parts.len() as int));
}

/// What lies under a path lies under whatever that path lies under; and
/// strictly so if the path itself lies strictly under it.
pub proof fn lemma_under_is_transitive(inner: Seq<char>, middle: Seq<char>, outer: Seq<char>)
    requires
        is_under(inner, middle),
        is_under(middle, outer),
    ensures
        is_under(inner, outer),
        is_strictly_under(middle, outer) ==> is_strictly_under(inner, outer),
{
    let a = components(inner);
    let b = components(middle);
    let c = components(outer);
    assert(c =~= a.subrange(0, c.len() as int)) by {
        assert(b =~= a.subrange(0, b.len() as int));
        assert(c =~= b.subrange(0, c.len() as int));
    }
}

fn names_something(segment: &Vec<char>) -> (named: bool)
    ensures
        named == is_name(segment@),
{
    segment.len() > 0 && !(segment.len() == 1 && segment[0] == '.')
}

/// Splits a path into its components.
pub fn split(path: &str) -> (parts: Vec<Vec<char>>)
    ensures
        rows(parts@) == components(path@),
{
    let chars = chars_of(path);
    let n = chars.len();
    let mut parts: Vec<Vec<char>> = Vec::new();
    if n > 0 && chars[0] == '/' {
        let mut root: Vec<char> = Vec::new();
        root.push('/');
        parts.push(root);
    } else if n > 0 && chars[0] == '.' && (n == 1 || chars[1] == '/') {
        let mut here: Vec<char> = Vec::new();
        here.push('.');
        parts.push(here);
    }
    let ghost s = path@;
    let ghost named = |g: Seq<char>| is_name(g);
    let mut current: Vec<char> = Vec::new();
    let mut i: usize = 0;
    proof {
        reveal(Seq::filter);
    }
    while i < n
        invariant
            s == path@,
            chars@ == s,
            n == s.len(),
            i <= n,
            named == (|g: Seq<char>| is_name(g)),
            segments(s.take(i as int)).len() > 0,
            rows(parts@) == lead(s) + segments(s.take(i as int)).drop_last().filter(named),
            current@ == segments(s.take(i as int)).last(),
        decreases n - i,
    {
        proof {
            lemma_segments_step(s, i as int);
            let before = segments(s.take(i as int));
            assert(before =~= before.drop_last().push(before.last()));
            before.drop_last().lemma_filter_push(before.last(), named);
            if i + 1 < n {
                lemma_segments_step(s, i + 1);
            } else {
                lemma_segments_nonempty(s.take(i + 1));
            }
        }
        if chars[i] == '/' {
            if names_something(&current) {
                let ghost found = rows(parts@);
                let ghost name = current@;
                parts.push(current);
                assert(rows(parts@) =~= found.push(name));
            }
            current = Vec::new();
        } else {
            current.push(chars[i]);
        }
        i += 1;
    }
    proof {
        assert(s.take(n as int) =~= s);
        let all = segments(s);
        all.drop_last().lemma_filter_push(all.last(), named);
    }
    if names_something(&current) {
        let ghost found = rows(parts@);
        let ghost name = current@;
        parts.push(current);
        assert(rows(parts@) =~= found.push(name));
    }
    parts
}

/// Whether the components in `base` begin those in `parts`.
pub fn begins(base: &Vec<Vec<char>>, parts: &Vec<Vec<char>>) -> (yes: bool)
    ensures
        yes == rows(base@).is_prefix_of(rows(parts@)),
{
    if base.len() > parts.len() {
        return false;
    }
    let mut i: usize = 0;
    while i < base.len()
        invariant
            base.len() <= parts.len(),
            i <= base.len(),
            forall|k: int| 0 <= k < i ==> base@[k]@ == parts@[k]@,
        decreases base.len() - i,
    {
        if !same_text(&base[i], &parts[i]) {
            assert(rows(base@)[i as int] != rows(parts@).subrange(0, base.len() as int)[i as int]);
            return false;
        }
        i += 1;
    }
    true
}

/// Whether `path` is `base` or lies beneath it. Whole components count:
/// `/a/bc` is not under `/a/b`.
pub fn starts_with(path: &str, base: &str) -> (yes: bool)
    ensures
        yes == is_under(path@, base@),
{
    let parts = split(path);
    let base_parts = split(base);
    begins(&base_parts, &parts)
}

/// Whether `path` lies beneath `base` without being `base`.
pub fn strictly_under(path: &str, base: &str) -> (yes: bool)
    ensures
        yes == is_strictly_under(path@, base@),
{
    let parts = split(path);
    let base_parts = split(base);
    base_parts.len() < parts.len() && begins(&base_parts, &parts)
}

/// The number of components of `path`.
pub fn component_count(path: &str) -> (n: usize)
    ensures
        n == depth(path@),
{
    split(path).len()
}

fn is_ordinary(component: &Vec<char>) -> (yes: bool)
    ensures
        yes == is_normal(component@),
{
    let n = component.len();
    if n == 0 {
        false
    } else if n == 1 {
        component[0] != '/' && component[0] != '.'
    } else if n == 2 {
        !(component[0] == '.' && component[1] == '.')
    } else {
        true
    }
}

/// The last of `parts` where it is an ordinary name.
pub fn last_name(parts: &Vec<Vec<char>>) -> (name: Option<&Vec<char>>)
    ensures
        match name {
            Some(n) => rows(parts@).len() > 0 && is_normal(rows(parts@).last()) && n@ == rows(
                parts@,
            ).last(),
            None => !(rows(parts@).len() > 0 && is_normal(rows(parts@).last())),
        },
{
    if parts.len() == 0 {
        return None;
    }
    let last = &parts[parts.len() - 1];
    if is_ordinary(last) {
        Some(last)
    } else {
        None
    }
}

/// The name of the entry that `path` ends in, or the empty text where it
/// ends in the root, `.` or `..`, or has no component at all.
pub fn file_name(path: &str) -> (name: Vec<char>)
    ensures
        name@ == base_name(path@),
{
    let parts = split(path);
    match last_name(&parts) {
        Some(last) => last.clone(),
        None => Vec::new(),
    }
}

/// Whether some component of `path` is `..`.
pub fn has_parent(path: &str) -> (yes: bool)
    ensures
        yes == has_parent_component(path@),
{
    let parts = split(path);
    let mut i: usize = 0;
    while i < parts.len()
        invariant
            i <= parts.len(),
            rows(parts@) == components(path@),
            forall|k: int| 0 <= k < i ==> !is_parent(#[trigger] components(path@)[k]),
        decreases parts.len() - i,
    {
        let part = &parts[i];
        assert(part@ == rows(parts@)[i as int]);
        if part.len() == 2 && part[0] == '.' && part[1] == '.' {
            return true;
        }
        i += 1;
    }
    false
}

} // verus!
