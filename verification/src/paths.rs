//! Paths as text: a path means the sequence of its components. Components are
//! separated by slashes; empty segments count for nothing, and neither does a
//! single dot, except at the start of a relative path. The root of an absolute
//! path is a component of its own, written as a slash.

use vstd::prelude::*;

use crate::text::{same_text, text_of};

verus! {

/// The stretches between the slashes of a text.
pub open spec fn segments(path: Seq<char>) -> Seq<Seq<char>>
    decreases path.len(),
{
    if path.len() == 0 {
        seq![Seq::<char>::empty()]
    } else {
        let before = segments(path.drop_last());
        if path.last() == '/' {
            before.push(Seq::<char>::empty())
        } else {
            before.drop_last().push(before.last().push(path.last()))
        }
    }
}

/// Whether a path starts at the root.
pub open spec fn rooted(path: Seq<char>) -> bool {
    path.len() > 0 && path[0] == '/'
}

/// Whether the segment at place `at` counts as a component.
pub open spec fn counts(at: int, segment: Seq<char>, absolute: bool) -> bool {
    segment.len() > 0 && !(segment == seq!['.'] && (at > 0 || absolute))
}

/// The segments that count.
pub open spec fn counting(list: Seq<Seq<char>>, absolute: bool) -> Seq<Seq<char>>
    decreases list.len(),
{
    if list.len() == 0 {
        Seq::empty()
    } else {
        let before = counting(list.drop_last(), absolute);
        if counts(list.len() - 1, list.last(), absolute) {
            before.push(list.last())
        } else {
            before
        }
    }
}

/// The components of a path.
pub open spec fn components(path: Seq<char>) -> Seq<Seq<char>> {
    let root = if rooted(path) {
        seq![seq!['/']]
    } else {
        Seq::<Seq<char>>::empty()
    };
    root + counting(segments(path), rooted(path))
}

/// Whether `path` lies at or below `base`.
pub open spec fn below(path: Seq<char>, base: Seq<char>) -> bool {
    components(base).is_prefix_of(components(path))
}

fn is_dot(segment: &Vec<char>) -> (dot: bool)
    ensures
        dot == (segment@ == seq!['.']),
{
    if segment.len() == 1 && segment[0] == '.' {
        assert(segment@ =~= seq!['.']);
        true
    } else {
        false
    }
}

/// The components of a path, as texts.
pub fn path_components(path: &str) -> (parts: Vec<String>)
    ensures
        crate::text::texts(parts@) == components(path@),
{
    let mut parts: Vec<String> = Vec::new();
    let mut current: Vec<char> = Vec::new();
    let mut absolute = false;
    let mut at: usize = 0;
    let chars = crate::text::chars_of(path);
    if chars.len() > 0 && chars[0] == '/' {
        absolute = true;
        parts.push("/".to_owned());
        proof {
            reveal_strlit("/");
            assert("/"@ =~= seq!['/']);
        }
    }
    let ghost root: Seq<Seq<char>> = if rooted(path@) { seq![seq!['/']] } else { Seq::empty() };
    assert(crate::text::texts(parts@) =~= root);
    let mut i: usize = 0;
    while i < chars.len()
        invariant
            chars@ == path@,
            absolute == rooted(path@),
            i <= chars.len(),
            at <= i,
            segments(path@.take(i as int)).len() == at + 1,
            current@ == segments(path@.take(i as int)).last(),
            crate::text::texts(parts@) == root + counting(
                segments(path@.take(i as int)).drop_last(),
                absolute,
            ),
        decreases chars.len() - i,
    {
        let ghost before = segments(path@.take(i as int));
        proof {
            assert(path@.take(i + 1).drop_last() =~= path@.take(i as int));
        }
        let ghost old_parts = crate::text::texts(parts@);
        if chars[i] == '/' {
            if current.len() > 0 && !(is_dot(&current) && (at > 0 || absolute)) {
                parts.push(text_of(&current));
                assert(crate::text::texts(parts@) =~= old_parts.push(current@));
            }
            proof {
                assert(before.push(Seq::<char>::empty()).drop_last() =~= before);
                assert(counting(before, absolute) == if counts(at as int, current@, absolute) {
                    counting(before.drop_last(), absolute).push(current@)
                } else {
                    counting(before.drop_last(), absolute)
                });
                assert(crate::text::texts(parts@) =~= root + counting(before, absolute));
            }
            current.clear();
            at += 1;
        } else {
            current.push(chars[i]);
            proof {
                assert(before.drop_last().push(before.last().push(chars@[i as int])).drop_last()
                    =~= before.drop_last());
            }
        }
        i += 1;
    }
    proof {
        assert(path@.take(i as int) =~= path@);
    }
    let ghost before = segments(path@);
    let ghost old_parts = crate::text::texts(parts@);
    if current.len() > 0 && !(is_dot(&current) && (at > 0 || absolute)) {
        parts.push(text_of(&current));
        assert(crate::text::texts(parts@) =~= old_parts.push(current@));
    }
    assert(crate::text::texts(parts@) =~= root + counting(before, absolute));
    parts
}

/// Whether the first list of texts starts with the second.
pub fn list_starts_with(list: &Vec<String>, prefix: &Vec<String>) -> (yes: bool)
    ensures
        yes == crate::text::texts(prefix@).is_prefix_of(crate::text::texts(list@)),
{
    let ghost whole = crate::text::texts(list@);
    let ghost front = crate::text::texts(prefix@);
    if prefix.len() > list.len() {
        return false;
    }
    let mut i: usize = 0;
    while i < prefix.len()
        invariant
            i <= prefix.len() <= list.len(),
            whole == crate::text::texts(list@),
            front == crate::text::texts(prefix@),
            forall|k: int| 0 <= k < i ==> #[trigger] front[k] == whole[k],
        decreases prefix.len() - i,
    {
        if !same_text(list[i].as_str(), prefix[i].as_str()) {
            assert(front[i as int] != whole[i as int]);
            assert(whole.subrange(0, front.len() as int)[i as int] == whole[i as int]);
            return false;
        }
        assert(front[i as int] == whole[i as int]);
        i += 1;
    }
    assert(front =~= whole.subrange(0, front.len() as int));
    true
}

/// Whether `path` lies at or below `base`.
pub fn path_starts_with(path: &str, base: &str) -> (yes: bool)
    ensures
        yes == below(path@, base@),
{
    let whole = path_components(path);
    let front = path_components(base);
    list_starts_with(&whole, &front)
}

/// A path with another one appended: an absolute one replaces it, a relative
/// one follows after a slash.
pub open spec fn joined_path(base: Seq<char>, path: Seq<char>) -> Seq<char> {
    if rooted(path) {
        path
    } else if base.len() > 0 && base.last() != '/' {
        base + seq!['/'] + path
    } else {
        base + path
    }
}

/// Whether a path starts at the root.
pub fn is_absolute(path: &str) -> (yes: bool)
    ensures
        yes == rooted(path@),
{
    let chars = crate::text::chars_of(path);
    chars.len() > 0 && chars[0] == '/'
}

/// Appends `path` to `base`.
pub fn join_path(base: &str, path: &str) -> (result: String)
    ensures
        result@ == joined_path(base@, path@),
{
    if is_absolute(path) {
        return path.to_owned();
    }
    let chars = crate::text::chars_of(base);
    let mut result = base.to_owned();
    if chars.len() > 0 && chars[chars.len() - 1] != '/' {
        result.push('/');
        assert(result@ =~= base@ + seq!['/']);
    }
    result.append(path);
    result
}

/// The name of what a path points at: its last component, unless that is the
/// root, `.` or `..`.
pub open spec fn last_name(path: Seq<char>) -> Option<Seq<char>> {
    let parts = components(path);
    if parts.len() == 0 || parts.last() == "/"@ || parts.last() == "."@ || parts.last() == ".."@ {
        None
    } else {
        Some(parts.last())
    }
}

/// The name of what a path points at.
pub fn file_name(path: &str) -> (name: Option<String>)
    ensures
        crate::text::maybe_text(name) == last_name(path@),
{
    let mut parts = path_components(path);
    let ghost all = components(path@);
    assert(all.len() == parts.len());
    match parts.pop() {
        None => None,
        Some(last) => {
            assert(all.last() == last@);
            if crate::text::same_text(last.as_str(), "/") || crate::text::same_text(
                last.as_str(),
                ".",
            ) || crate::text::same_text(last.as_str(), "..") {
                None
            } else {
                Some(last)
            }
        },
    }
}

/// Every path lies at or below itself.
pub proof fn below_itself(path: Seq<char>)
    ensures
        below(path, path),
{
    assert(components(path).subrange(0, components(path).len() as int) =~= components(path));
}

/// A path below a second one lies below everything that the second lies below.
pub proof fn below_is_transitive(path: Seq<char>, middle: Seq<char>, base: Seq<char>)
    requires
        below(path, middle),
        below(middle, base),
    ensures
        below(path, base),
{
    let p = components(path);
    let m = components(middle);
    let b = components(base);
    assert(b =~= p.subrange(0, b.len() as int)) by {
        assert forall|i: int| 0 <= i < b.len() implies b[i] == p.subrange(0, b.len() as int)[i] by {
            assert(b[i] == m.subrange(0, b.len() as int)[i]);
            assert(m[i] == p.subrange(0, m.len() as int)[i]);
        }
    }
}

} // verus!
