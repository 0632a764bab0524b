//! Paths as text: components between `/`, and joining.

use vstd::prelude::*;

use crate::text::chars_of;

verus! {

/// Whether `name` can be one directory or file name of a path: it is not
/// empty, holds no separator, and is neither `.` nor `..`.
pub open spec fn is_normal(name: Seq<char>) -> bool {
    &&& name.len() > 0
    &&& !name.contains('/')
    &&& name != seq!['.']
    &&& name != seq!['.', '.']
}

/// How many characters of `path` stand before its first separator, or its
/// whole length if it has none.
pub open spec fn head_len(path: Seq<char>) -> nat
    decreases path.len(),
{
    if path.len() == 0 || path[0] == '/' {
        0
    } else {
        1 + head_len(path.skip(1))
    }
}

/// The first piece of `path` between separators that is a name, if any.
/// Empty pieces, `.` and `..` are passed over.
pub open spec fn first_normal(path: Seq<char>) -> Option<Seq<char>>
    decreases path.len(),
{
    let head = path.take(head_len(path) as int);
    if is_normal(head) {
        Some(head)
    } else if head_len(path) >= path.len() {
        None
    } else {
        first_normal(path.skip(head_len(path) as int + 1))
    }
}

/// `part` put behind `base` as a path: `part` alone if it starts at the
/// root, else `base` and `part` with one separator between them unless
/// `base` is empty or ends in one already.
pub open spec fn joined(base: Seq<char>, part: Seq<char>) -> Seq<char> {
    if part.len() > 0 && part[0] == '/' {
        part
    } else if base.len() > 0 && base.last() != '/' {
        base + seq!['/'] + part
    } else {
        base + part
    }
}

/// `head_len` stays within the path, no separator stands before it, and one
/// stands at it unless the path ends there.
pub proof fn lemma_head_len(path: Seq<char>)
    ensures
        head_len(path) <= path.len(),
        forall|i: int| 0 <= i < head_len(path) ==> #[trigger] path[i] != '/',
        head_len(path) < path.len() ==> path[head_len(path) as int] == '/',
    decreases path.len(),
{
    if path.len() == 0 || path[0] == '/' {
    } else {
        let rest = path.skip(1);
        lemma_head_len(rest);
        assert forall|i: int| 0 <= i < head_len(path) implies #[trigger] path[i] != '/' by {
            if i > 0 {
                assert(path[i] == rest[i - 1]);
            }
        }
    }
}

/// How many characters of `path` stand behind its last separator, or its
/// whole length if it has none.
pub open spec fn tail_len(path: Seq<char>) -> nat
    decreases path.len(),
{
    if path.len() == 0 || path.last() == '/' {
        0
    } else {
        1 + tail_len(path.drop_last())
    }
}

/// What stands behind the last separator of `path`: the name of the file or
/// directory that the path leads to.
pub open spec fn file_name_of(path: Seq<char>) -> Seq<char> {
    path.skip(path.len() - tail_len(path))
}

/// `tail_len` stays within the path, no separator stands in the tail, and
/// one stands before it unless the tail is the whole path.
pub proof fn lemma_tail_len(path: Seq<char>)
    ensures
        tail_len(path) <= path.len(),
        forall|i: int| path.len() - tail_len(path) <= i < path.len() ==> #[trigger] path[i] != '/',
        tail_len(path) < path.len() ==> path[path.len() - tail_len(path) - 1] == '/',
    decreases path.len(),
{
    if path.len() == 0 || path.last() == '/' {
    } else {
        let front = path.drop_last();
        lemma_tail_len(front);
        assert forall|i: int| path.len() - tail_len(path) <= i < path.len() implies #[trigger] path[i]
            != '/' by {
            if i < path.len() - 1 {
                assert(path[i] == front[i]);
            }
        }
    }
}

/// A name put behind a directory and a separator is the file name of the
/// path that this makes.
pub proof fn lemma_file_name_of_joined(directory: Seq<char>, name: Seq<char>)
    requires
        !name.contains('/'),
    ensures
        file_name_of(directory + seq!['/'] + name) == name,
    decreases name.len(),
{
    let path = directory + seq!['/'] + name;
    if name.len() > 0 {
        let shorter = name.drop_last();
        lemma_file_name_of_joined(directory, shorter);
        assert(path.drop_last() =~= directory + seq!['/'] + shorter);
        lemma_tail_len(directory + seq!['/'] + shorter);
    }
}

/// Cutting a path behind one of its separators leaves its file name as it is.
pub proof fn lemma_file_name_of_rest(path: Seq<char>, at: int)
    requires
        0 <= at < path.len(),
        path[at] == '/',
    ensures
        file_name_of(path.skip(at + 1)) == file_name_of(path),
    decreases path.len(),
{
    let rest = path.skip(at + 1);
    if path.last() != '/' {
        let front = path.drop_last();
        lemma_file_name_of_rest(front, at);
        assert(rest.drop_last() =~= front.skip(at + 1));
        lemma_tail_len(front);
        lemma_tail_len(front.skip(at + 1));
        assert(file_name_of(front.skip(at + 1)).len() == tail_len(front.skip(at + 1)));
    }
}

/// The length of a name that a separator follows is the `head_len` of the path.
pub proof fn lemma_head_len_of_joined(name: Seq<char>, rest: Seq<char>)
    requires
        !name.contains('/'),
    ensures
        head_len(name + seq!['/'] + rest) == name.len(),
    decreases name.len(),
{
    let path = name + seq!['/'] + rest;
    if name.len() > 0 {
        let shorter = name.skip(1);
        lemma_head_len_of_joined(shorter, rest);
        assert(path.skip(1) =~= shorter + seq!['/'] + rest);
    }
}

/// A path that starts with a name and a separator has that name as its
/// first name.
pub proof fn lemma_first_normal_of_joined(name: Seq<char>, rest: Seq<char>)
    requires
        is_normal(name),
    ensures
        first_normal(name + seq!['/'] + rest) == Some(name),
{
    let path = name + seq!['/'] + rest;
    lemma_head_len_of_joined(name, rest);
    assert(path.take(name.len() as int) =~= name);
}

/// What `first_normal` gives is a name.
pub proof fn lemma_first_normal_is_normal(path: Seq<char>)
    ensures
        first_normal(path) matches Some(name) ==> is_normal(name),
    decreases path.len(),
{
    let head = path.take(head_len(path) as int);
    if !is_normal(head) && head_len(path) < path.len() {
        lemma_first_normal_is_normal(path.skip(head_len(path) as int + 1));
    }
}

/// A path that leads to a name has a first name.
pub proof fn lemma_named_path_has_first_normal(path: Seq<char>)
    requires
        is_normal(file_name_of(path)),
    ensures
        first_normal(path) is Some,
    decreases path.len(),
{
    lemma_head_len(path);
    let head = path.take(head_len(path) as int);
    if is_normal(head) {
    } else if head_len(path) >= path.len() {
        lemma_tail_len(path);
    } else {
        lemma_file_name_of_rest(path, head_len(path) as int);
        lemma_named_path_has_first_normal(path.skip(head_len(path) as int + 1));
    }
}

/// Finds where the first name of `path` starts and ends, from position
/// `start` on.
fn find_normal(path: &Vec<char>, start: usize) -> (found: Option<(usize, usize)>)
    requires
        start <= path@.len(),
    ensures
        match first_normal(path@.skip(start as int)) {
            Some(name) => found matches Some((from, to)) && start <= from <= to <= path@.len()
                && path@.subrange(from as int, to as int) == name,
            None => found is None,
        },
    decreases path@.len() - start,
{
    let ghost rest = path@.skip(start as int);
    let mut end: usize = start;
    while end < path.len() && path[end] != '/'
        invariant
            start <= end <= path@.len(),
            rest == path@.skip(start as int),
            head_len(rest) == (end - start) + head_len(path@.skip(end as int)),
        decreases path@.len() - end,
    {
        assert(path@.skip(end as int).skip(1) == path@.skip(end + 1));
        end += 1;
    }
    proof {
        lemma_head_len(rest);
        assert(rest.take((end - start) as int) == path@.subrange(start as int, end as int));
    }
    let ghost head = path@.subrange(start as int, end as int);
    let length = end - start;
    let dots = length >= 1 && length <= 2 && path[start] == '.' && (length == 1 || path[start + 1]
        == '.');
    proof {
        if dots {
            if length == 1 {
                assert(head =~= seq!['.']);
            } else {
                assert(head =~= seq!['.', '.']);
            }
        }
    }
    if length > 0 && !dots {
        Some((start, end))
    } else if end >= path.len() {
        None
    } else {
        assert(rest.skip((end - start) + 1) == path@.skip(end + 1));
        find_normal(path, end + 1)
    }
}

/// The first name among the components of `path`, if it has one.
pub fn first_normal_component(path: &str) -> (name: Option<String>)
    ensures
        match first_normal(path@) {
            Some(text) => name matches Some(n) && n@ == text,
            None => name is None,
        },
{
    let chars = chars_of(path);
    assert(chars@.skip(0) == chars@);
    match find_normal(&chars, 0) {
        Some((from, to)) => Some(String::from_str(path.substring_char(from, to))),
        None => None,
    }
}

/// `part` put behind `base` as a path.
pub fn join(base: &str, part: &str) -> (path: String)
    ensures
        path@ == joined(base@, part@),
{
    let base_len = base.unicode_len();
    if part.unicode_len() > 0 && part.get_char(0) == '/' {
        String::from_str(part)
    } else {
        let mut path = String::from_str(base);
        if base_len > 0 && base.get_char(base_len - 1) != '/' {
            proof {
                reveal_strlit("/");
            }
            path.append("/");
        }
        path.append(part);
        path
    }
}

} // verus!
