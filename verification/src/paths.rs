//! Paths as text. A path is a string whose components are separated by `/`.
//! Separators at the end of a path and components that are `.` name nothing:
//! `a.png`, `a.png/` and `a.png/.` name the same file. A file name splits
//! into stem and extension at its last dot.

use vstd::prelude::*;
use vstd::string::*;
use crate::text::chars_of;

verus! {

/// The position of the last `c` in `s`, or -1 where `s` holds none.
pub open spec fn last_index_of(s: Seq<char>, c: char) -> int
    decreases s.len(),
{
    if s.len() == 0 {
        -1
    } else if s.last() == c {
        s.len() - 1
    } else {
        last_index_of(s.drop_last(), c)
    }
}

/// `last_index_of` names an occurrence of `c` that no other follows.
pub proof fn lemma_last_index_of(s: Seq<char>, c: char)
    ensures
        -1 <= last_index_of(s, c) < s.len(),
        last_index_of(s, c) >= 0 ==> s[last_index_of(s, c)] == c,
        forall|j: int| last_index_of(s, c) < j < s.len() ==> s[j] != c,
    decreases s.len(),
{
    if s.len() > 0 && s.last() != c {
        let t = s.drop_last();
        lemma_last_index_of(t, c);
        assert forall|j: int| last_index_of(s, c) < j < s.len() implies s[j] != c by {
            if j < t.len() {
                assert(t[j] == s[j]);
            }
        }
    }
}

/// Whether `path` ends in a component that is `.` and nothing more.
pub open spec fn ends_in_dot_component(path: Seq<char>) -> bool {
    &&& path.len() > 0
    &&& path.last() == '.'
    &&& (path.len() == 1 || path[path.len() - 2] == '/')
}

/// Whether `path` ends in something that names nothing: a separator, or a
/// component that is `.`.
pub open spec fn ends_in_filler(path: Seq<char>) -> bool {
    path.len() > 0 && (path.last() == '/' || ends_in_dot_component(path))
}

/// `path` without the separators and the `.` components at its end.
pub open spec fn without_trailing(path: Seq<char>) -> Seq<char>
    decreases path.len(),
{
    if ends_in_filler(path) {
        without_trailing(path.drop_last())
    } else {
        path
    }
}

/// The last component of `path` that is not `.`: the text after the last `/`
/// of `path` without its trailing separators and `.` components. It is empty
/// where `path` has no such component.
pub open spec fn final_component(path: Seq<char>) -> Seq<char> {
    let trimmed = without_trailing(path);
    trimmed.subrange(last_index_of(trimmed, '/') + 1, trimmed.len() as int)
}

/// The file name of `path`: its last component that is not `.`, once
/// trailing separators are dropped. A path without such a component, or
/// whose last such component is `..`, names no file.
pub open spec fn file_name(path: Seq<char>) -> Option<Seq<char>> {
    let name = final_component(path);
    if name.len() == 0 || name == seq!['.', '.'] {
        None
    } else {
        Some(name)
    }
}

/// What is left of a path without its trailing separators and `.`
/// components is a part of it from the start, and ends in neither.
pub proof fn lemma_without_trailing(path: Seq<char>)
    ensures
        without_trailing(path).len() <= path.len(),
        without_trailing(path) == path.take(without_trailing(path).len() as int),
        !ends_in_filler(without_trailing(path)),
    decreases path.len(),
{
    if ends_in_filler(path) {
        let shorter = path.drop_last();
        lemma_without_trailing(shorter);
        let n = without_trailing(shorter).len() as int;
        assert(shorter.take(n) =~= path.take(n));
    } else {
        assert(path.take(path.len() as int) =~= path);
    }
}

/// A file name is a whole component: it is not empty, holds no separator,
/// and is neither `.` nor `..`.
pub proof fn lemma_file_name_is_a_component(path: Seq<char>)
    requires
        file_name(path) is Some,
    ensures
        file_name(path)->0.len() > 0,
        forall|i: int| 0 <= i < file_name(path)->0.len() ==> file_name(path)->0[i] != '/',
        file_name(path)->0 != seq!['.'],
        file_name(path)->0 != seq!['.', '.'],
{
    let trimmed = without_trailing(path);
    let name = final_component(path);
    lemma_without_trailing(path);
    lemma_last_index_of(trimmed, '/');
    let start = last_index_of(trimmed, '/') + 1;
    assert forall|i: int| 0 <= i < name.len() implies name[i] != '/' by {
        assert(name[i] == trimmed[start + i]);
    }
    if name == seq!['.'] {
        assert(name.len() == 1);
        assert(trimmed.last() == name[0]);
        assert(trimmed.len() >= 2 ==> trimmed[trimmed.len() - 2] == '/');
        assert(ends_in_dot_component(trimmed));
    }
}

/// A separator at the end of a path changes nothing about the file it names.
pub proof fn lemma_trailing_separator_is_ignored(path: Seq<char>)
    ensures
        file_name(path.push('/')) == file_name(path),
        extension(path.push('/')) == extension(path),
{
    assert(path.push('/').drop_last() =~= path);
}

/// A `.` component at the end of a path changes nothing about the file it
/// names.
pub proof fn lemma_trailing_dot_component_is_ignored(path: Seq<char>)
    ensures
        file_name(path + seq!['/', '.']) == file_name(path),
        extension(path + seq!['/', '.']) == extension(path),
{
    let longer = path + seq!['/', '.'];
    let shorter = path.push('/');
    assert(longer.last() == '.');
    assert(longer[longer.len() - 2] == '/');
    assert(longer.drop_last() =~= shorter);
    assert(shorter.drop_last() =~= path);
    assert(ends_in_filler(longer));
    assert(without_trailing(longer) == without_trailing(shorter));
    assert(ends_in_filler(shorter));
    assert(without_trailing(shorter) == without_trailing(path));
}

/// A name that is one plain component is its own file name.
pub proof fn lemma_plain_name_is_its_file_name(name: Seq<char>)
    requires
        name.len() > 0,
        forall|i: int| 0 <= i < name.len() ==> name[i] != '/',
        name != seq!['.'],
        name != seq!['.', '.'],
    ensures
        file_name(name) == Some(name),
{
    if ends_in_dot_component(name) {
        if name.len() == 1 {
            assert(name =~= seq!['.']);
        } else {
            assert(name[name.len() - 2] == '/');
        }
    }
    lemma_last_index_of(name, '/');
    assert(name.subrange(0, name.len() as int) =~= name);
}

/// The extension of a file name: the text after its last dot. A name without
/// a dot, or whose only dot is its first character, has none.
pub open spec fn name_extension(name: Seq<char>) -> Option<Seq<char>> {
    let dot = last_index_of(name, '.');
    if dot <= 0 {
        None
    } else {
        Some(name.subrange(dot + 1, name.len() as int))
    }
}

/// The stem of a file name: the text before its last dot, or the whole name
/// where `name_extension` finds no extension.
pub open spec fn name_stem(name: Seq<char>) -> Seq<char> {
    let dot = last_index_of(name, '.');
    if dot <= 0 {
        name
    } else {
        name.subrange(0, dot)
    }
}

/// The extension of the file that `path` names.
pub open spec fn extension(path: Seq<char>) -> Option<Seq<char>> {
    match file_name(path) {
        Some(name) => name_extension(name),
        None => None,
    }
}

/// The stem of the file that `path` names.
pub open spec fn file_stem(path: Seq<char>) -> Option<Seq<char>> {
    match file_name(path) {
        Some(name) => Some(name_stem(name)),
        None => None,
    }
}

/// `name` placed inside `dir`. A `name` that starts at the root stands alone;
/// otherwise one `/` separates the two unless `dir` is empty or ends in one.
pub open spec fn join(dir: Seq<char>, name: Seq<char>) -> Seq<char> {
    if name.len() > 0 && name[0] == '/' {
        name
    } else if dir.len() == 0 || dir.last() == '/' {
        dir + name
    } else {
        dir + seq!['/'] + name
    }
}

/// The position of the last `c` among the first `end` of `chars`.
fn find_last_before(chars: &Vec<char>, end: usize, c: char) -> (r: Option<usize>)
    requires
        end <= chars.len(),
    ensures
        match r {
            Some(i) => i as int == last_index_of(chars@.take(end as int), c),
            None => last_index_of(chars@.take(end as int), c) == -1,
        },
{
    let mut i: usize = end;
    while i > 0
        invariant
            i <= end <= chars.len(),
            last_index_of(chars@.take(end as int), c) == last_index_of(chars@.take(i as int), c),
        decreases i,
    {
        if chars[i - 1] == c {
            proof {
                let t = chars@.take(i as int);
                assert(t.last() == c);
            }
            return Some(i - 1);
        }
        proof {
            let t = chars@.take(i as int);
            assert(t.drop_last() =~= chars@.take(i as int - 1));
        }
        i = i - 1;
    }
    assert(chars@.take(0) =~= Seq::<char>::empty());
    None
}

/// The position of the last `c` in `chars`.
pub fn find_last(chars: &Vec<char>, c: char) -> (r: Option<usize>)
    ensures
        match r {
            Some(i) => i as int == last_index_of(chars@, c),
            None => last_index_of(chars@, c) == -1,
        },
{
    assert(chars@.take(chars.len() as int) =~= chars@);
    find_last_before(chars, chars.len(), c)
}

/// Whether the first `end` of `chars` end in a separator or in a component
/// that is `.`.
fn filler_before(chars: &Vec<char>, end: usize) -> (r: bool)
    requires
        end <= chars.len(),
    ensures
        r == ends_in_filler(chars@.take(end as int)),
{
    if end == 0 {
        return false;
    }
    let last: char = chars[end - 1];
    if last == '/' {
        return true;
    }
    last == '.' && (end == 1 || chars[end - 2] == '/')
}

/// The file name of `path`, as `file_name` defines it.
pub fn path_file_name(path: &str) -> (r: Option<String>)
    ensures
        match r {
            Some(name) => file_name(path@) == Some(name@),
            None => file_name(path@) is None,
        },
{
    let chars: Vec<char> = chars_of(path);
    let mut end: usize = chars.len();
    assert(path@.take(end as int) =~= path@);
    while filler_before(&chars, end)
        invariant
            end <= chars.len(),
            chars@ == path@,
            without_trailing(path@) == without_trailing(path@.take(end as int)),
        decreases end,
    {
        assert(path@.take(end as int).drop_last() =~= path@.take(end as int - 1));
        end = end - 1;
    }
    let ghost trimmed = path@.take(end as int);
    assert(without_trailing(path@) == trimmed);
    proof {
        lemma_last_index_of(trimmed, '/');
    }
    let start: usize = match find_last_before(&chars, end, '/') {
        Some(i) => i + 1,
        None => 0,
    };
    let len: usize = end - start;
    let ghost name = final_component(path@);
    assert(name =~= path@.subrange(start as int, end as int));
    if len == 0 {
        return None;
    }
    if len == 2 && chars[start] == '.' && chars[start + 1] == '.' {
        assert(name =~= seq!['.', '.']);
        return None;
    }
    proof {
        if name == seq!['.', '.'] {
            assert(name.len() == 2 && name[0] == '.' && name[1] == '.');
        }
    }
    Some(String::from_str(path.substring_char(start, end)))
}

/// The extension of the file name `name`, as `name_extension` defines it.
pub fn split_extension(name: &str) -> (r: Option<String>)
    ensures
        match r {
            Some(ext) => name_extension(name@) == Some(ext@),
            None => name_extension(name@) is None,
        },
{
    let chars: Vec<char> = chars_of(name);
    proof {
        lemma_last_index_of(name@, '.');
    }
    match find_last(&chars, '.') {
        Some(dot) => {
            if dot == 0 {
                None
            } else {
                Some(String::from_str(name.substring_char(dot + 1, chars.len())))
            }
        },
        None => None,
    }
}

/// The stem of the file name `name`, as `name_stem` defines it.
pub fn split_stem(name: &str) -> (r: String)
    ensures
        r@ == name_stem(name@),
{
    let chars: Vec<char> = chars_of(name);
    proof {
        lemma_last_index_of(name@, '.');
    }
    match find_last(&chars, '.') {
        Some(dot) => {
            if dot == 0 {
                String::from_str(name)
            } else {
                String::from_str(name.substring_char(0, dot))
            }
        },
        None => String::from_str(name),
    }
}

/// `name` placed inside `dir`, as `join` defines it.
pub fn join_path(dir: &str, name: &str) -> (r: String)
    ensures
        r@ == join(dir@, name@),
{
    let name_chars: Vec<char> = chars_of(name);
    if name_chars.len() > 0 && name_chars[0] == '/' {
        return String::from_str(name);
    }
    let dir_chars: Vec<char> = chars_of(dir);
    let mut r: String = String::from_str(dir);
    if dir_chars.len() > 0 && dir_chars[dir_chars.len() - 1] != '/' {
        proof {
            reveal_strlit("/");
        }
        r.append("/");
        assert(r@ =~= dir@ + seq!['/']);
    }
    r.append(name);
    r
}

} // verus!
