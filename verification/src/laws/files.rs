//! What the names of files say.

use vstd::prelude::*;

use crate::paths::{
    anchor_len, component_start, extension_in, file_name_in, is_void_component, joined_path,
    last_index, lemma_last_index, parent_path, tidied, with_extension_in, without_component,
};

verus! {

/// Whether `name` can name a file: it is no empty text, holds no slash, and is
/// neither `.` nor `..`.
pub open spec fn names_a_file(name: Seq<char>) -> bool {
    &&& name.len() > 0
    &&& !name.contains('/')
    &&& name != "."@
    &&& name != ".."@
}

proof fn lemma_last_mark(before: Seq<char>, mark: char, after: Seq<char>)
    requires
        !after.contains(mark),
    ensures
        last_index(before.push(mark) + after, mark) == Some(before.len() as int),
        last_index(after, mark) is None,
{
    let text = before.push(mark) + after;
    lemma_last_index(text, mark);
    lemma_last_index(after, mark);
    assert(text[before.len() as int] == mark);
    if let Some(at) = last_index(text, mark) {
        if at > before.len() {
            assert(after[at - before.len() - 1] == mark);
        }
    }
    if let Some(at) = last_index(after, mark) {
        assert(after[at] == mark);
    }
}

/// A proper name at the end of a path is its last component.
proof fn lemma_last_component(base: Seq<char>, name: Seq<char>)
    requires
        names_a_file(name),
    ensures
        ({
            let path = base.push('/') + name;
            let anchor = anchor_len(path);
            &&& anchor < path.len()
            &&& tidied(path, anchor) == path
            &&& component_start(path, anchor) == base.len() + 1
            &&& path.skip(component_start(path, anchor)) == name
        }),
        ({
            let anchor = anchor_len(name);
            &&& anchor == 0
            &&& tidied(name, anchor) == name
            &&& component_start(name, anchor) == 0
        }),
{
    reveal_strlit(".");
    reveal_strlit("..");
    let path = base.push('/') + name;
    let anchor = anchor_len(path);
    assert(name[0] != '/') by {
        assert(name.contains(name[0]));
    }
    assert(!is_void_component(name)) by {
        if name.len() == 1 && name[0] == '.' {
            assert(name =~= "."@);
        }
    }
    if base.len() >= anchor {
        assert(path.skip(anchor) =~= base.skip(anchor).push('/') + name);
        lemma_last_mark(base.skip(anchor), '/', name);
    } else {
        assert(path.skip(anchor) =~= name);
        lemma_last_mark(Seq::empty(), '/', name);
    }
    assert(path.skip((base.len() + 1) as int) =~= name);
    assert(anchor_len(name) == 0) by {
        if name.len() > 1 && name[1] == '/' {
            assert(name.contains(name[1]));
        }
        if name.len() == 1 && name[0] == '.' {
            assert(name =~= "."@);
        }
    }
    assert(name.skip(0) =~= name);
    lemma_last_mark(Seq::empty(), '/', name);
}

/// The name of a file is what stands behind the last slash of its path.
pub proof fn law_file_names_end_paths(base: Seq<char>, name: Seq<char>)
    requires
        names_a_file(name),
    ensures
        file_name_in(base + "/"@ + name) == Some(name),
        file_name_in(name) == Some(name),
{
    reveal_strlit("/");
    lemma_last_component(base, name);
    assert(base + "/"@ + name =~= base.push('/') + name);
    assert(name.skip(0) =~= name);
}

/// The extension of a file is what stands behind the last dot of its name, if
/// anything stands before it.
pub proof fn law_extensions_end_names(base: Seq<char>, stem: Seq<char>, extension: Seq<char>)
    requires
        stem.len() > 0,
        !stem.contains('/'),
        !extension.contains('/'),
        !extension.contains('.'),
        extension.len() > 0,
    ensures
        extension_in(base + "/"@ + stem + "."@ + extension) == Some(extension),
        extension_in(stem + "."@ + extension) == Some(extension),
{
    reveal_strlit("/");
    reveal_strlit(".");
    reveal_strlit("..");
    let name = stem.push('.') + extension;
    assert forall|i: int| 0 <= i < name.len() implies name[i] != '/' by {
        if i < stem.len() {
            assert(stem.contains(stem[i]));
        } else if i > stem.len() {
            assert(extension.contains(extension[i - stem.len() - 1]));
        }
    }
    assert(!name.contains('/'));
    assert(name.len() >= 3);
    law_file_names_end_paths(base, name);
    lemma_last_mark(stem, '.', extension);
    assert(base + "/"@ + stem + "."@ + extension =~= base + "/"@ + name);
    assert(stem + "."@ + extension =~= name);
    assert(name.skip((stem.len() + 1) as int) =~= extension);
}

/// A name without a dot, or with one at its start alone, has no extension.
pub proof fn law_names_without_dots_have_no_extension(base: Seq<char>, name: Seq<char>)
    requires
        names_a_file(name),
        !name.skip(1).contains('.'),
    ensures
        extension_in(base + "/"@ + name) is None,
        extension_in(name) is None,
{
    law_file_names_end_paths(base, name);
    lemma_last_index(name, '.');
    if let Some(at) = last_index(name, '.') {
        if at > 0 {
            assert(name.skip(1)[at - 1] == '.');
        }
    }
}

/// Another extension takes the place of the one that is there.
pub proof fn law_extensions_are_replaced(
    base: Seq<char>,
    stem: Seq<char>,
    extension: Seq<char>,
    other: Seq<char>,
)
    requires
        stem.len() > 0,
        !stem.contains('/'),
        !extension.contains('/'),
        !extension.contains('.'),
        extension.len() > 0,
    ensures
        with_extension_in(base + "/"@ + stem + "."@ + extension, other) == base + "/"@ + stem
            + "."@ + other,
{
    reveal_strlit("/");
    reveal_strlit(".");
    reveal_strlit("..");
    let name = stem.push('.') + extension;
    assert forall|i: int| 0 <= i < name.len() implies name[i] != '/' by {
        if i < stem.len() {
            assert(stem.contains(stem[i]));
        } else if i > stem.len() {
            assert(extension.contains(extension[i - stem.len() - 1]));
        }
    }
    assert(!name.contains('/'));
    assert(name.len() >= 3);
    let path = base + "/"@ + stem + "."@ + extension;
    assert(path =~= base.push('/') + name);
    assert(path =~= base + "/"@ + name);
    law_file_names_end_paths(base, name);
    lemma_last_component(base, name);
    lemma_last_mark(stem, '.', extension);
    assert(path.take((base.len() + 1 + stem.len()) as int) =~= base + "/"@ + stem);
    assert(path.len() - name.len() + stem.len() == base.len() + 1 + stem.len());
}

/// A path that is seen from a directory lies in it, unless it starts at the root.
pub proof fn law_paths_lie_in_their_directory(base: Seq<char>, path: Seq<char>)
    ensures
        path.len() > 0 && path[0] == '/' ==> joined_path(base, path) == path,
        base.len() == 0 ==> joined_path(base, path) == path,
        base.len() > 0 && (path.len() == 0 || path[0] != '/') ==> joined_path(base, path) == (
        if base.last() == '/' {
            base + path
        } else {
            base + "/"@ + path
        }),
{
}

/// A file that is put into a directory is found there under its name.
pub proof fn law_joined_files_keep_their_names(base: Seq<char>, name: Seq<char>)
    requires
        names_a_file(name),
    ensures
        file_name_in(joined_path(base, name)) == Some(name),
{
    reveal_strlit("/");
    assert(name[0] != '/') by {
        assert(name.contains(name[0]));
    }
    law_file_names_end_paths(base, name);
    if base.len() > 0 && base.last() == '/' {
        law_file_names_end_paths(base.drop_last(), name);
        assert(base + name =~= base.drop_last() + "/"@ + name);
    }
}

/// A file in a directory has that directory as its parent, if the path of the
/// directory ends with a proper name of its own.
pub proof fn law_parents_hold_their_files(base: Seq<char>, directory: Seq<char>, name: Seq<char>)
    requires
        names_a_file(directory),
        names_a_file(name),
    ensures
        parent_path(base + "/"@ + directory + "/"@ + name) == Some(base + "/"@ + directory),
        parent_path(directory + "/"@ + name) == Some(directory),
{
    reveal_strlit("/");
    let place = base.push('/') + directory;
    let path = place.push('/') + name;
    lemma_last_component(place, name);
    lemma_last_component(base, directory);
    assert(base + "/"@ + directory + "/"@ + name =~= path);
    assert(base + "/"@ + directory =~= place);
    let anchor = anchor_len(path);
    assert(anchor == anchor_len(place)) by {
        assert(path[0] == place[0]);
        if place.len() > 1 {
            assert(path[1] == place[1]);
        }
    }
    assert(without_component(path, anchor) =~= place);
    let short = directory.push('/') + name;
    lemma_last_component(directory, name);
    assert(directory + "/"@ + name =~= short);
    assert(anchor_len(short) == 0) by {
        assert(short[0] == directory[0]);
        assert(directory.contains(directory[0]));
        if directory.len() == 1 {
            if directory[0] == '.' {
                reveal_strlit(".");
                assert(directory =~= "."@);
            }
        } else {
            assert(short[1] == directory[1]);
            assert(directory.contains(directory[1]));
        }
    }
    assert(without_component(short, 0) =~= directory);
}

/// Where a name has no extension yet, one is put behind it.
pub proof fn law_extensions_are_added(base: Seq<char>, name: Seq<char>, extension: Seq<char>)
    requires
        names_a_file(name),
        !name.skip(1).contains('.'),
    ensures
        with_extension_in(base + "/"@ + name, extension) == base + "/"@ + name + "."@ + extension,
        with_extension_in(name, extension) == name + "."@ + extension,
{
    reveal_strlit("/");
    law_file_names_end_paths(base, name);
    lemma_last_component(base, name);
    lemma_last_index(name, '.');
    if let Some(at) = last_index(name, '.') {
        if at > 0 {
            assert(name.skip(1)[at - 1] == '.');
        }
    }
    let path = base.push('/') + name;
    assert(base + "/"@ + name =~= path);
    assert(path.take(path.len() as int) =~= path);
    assert(name.take(name.len() as int) =~= name);
}

/// A plain name stands in the directory that is current; the root and an empty
/// path stand nowhere, and name no file.
pub proof fn law_roots_have_no_parents(name: Seq<char>)
    requires
        names_a_file(name),
    ensures
        parent_path(name) == Some(Seq::<char>::empty()),
        parent_path("/"@ + name) == Some("/"@),
        parent_path("/"@) is None,
        parent_path(Seq::empty()) is None,
        parent_path("."@) == Some(Seq::<char>::empty()),
        file_name_in("/"@) is None,
        file_name_in(Seq::empty()) is None,
{
    reveal_strlit("/");
    let none = Seq::<char>::empty();
    lemma_last_component(none, name);
    assert(without_component(name, 0) =~= none);
    let path = "/"@ + name;
    assert(path =~= none.push('/') + name);
    assert(anchor_len(path) == 1);
    assert(path.take(1) =~= "/"@);
    assert(without_component(path, 1) =~= "/"@);
    assert(tidied("/"@, 1) == "/"@);
    assert(tidied(none, 0) == none);
    reveal_strlit(".");
    assert(anchor_len("."@) == 1);
    assert(tidied("."@, 1) == "."@);
}

/// A path may end with slashes; `..` names no file.
pub proof fn law_trailing_slashes_do_not_matter(base: Seq<char>, name: Seq<char>)
    requires
        names_a_file(name),
    ensures
        file_name_in(base + "/"@ + name + "/"@) == Some(name),
        file_name_in(base + "/"@ + ".."@) is None,
{
    reveal_strlit("/");
    reveal_strlit("..");
    let place = base.push('/') + name;
    let path = place.push('/');
    lemma_last_component(base, name);
    assert(base + "/"@ + name + "/"@ =~= path);
    let anchor = anchor_len(path);
    assert(anchor == anchor_len(place)) by {
        assert(path[0] == place[0]);
        if place.len() > 1 {
            assert(path[1] == place[1]);
        }
    }
    let none = Seq::<char>::empty();
    assert(!none.contains('/'));
    assert(path.skip(anchor) =~= place.skip(anchor).push('/') + none);
    lemma_last_mark(place.skip(anchor), '/', none);
    assert(path.skip(path.len() as int) =~= none);
    assert(without_component(path, anchor) =~= place);
    let up = base.push('/') + ".."@;
    assert(base + "/"@ + ".."@ =~= up);
    let root = anchor_len(up);
    assert(!".."@.contains('/'));
    if base.len() >= root {
        assert(up.skip(root) =~= base.skip(root).push('/') + ".."@);
        lemma_last_mark(base.skip(root), '/', ".."@);
    } else {
        assert(up.skip(root) =~= ".."@);
        lemma_last_mark(none, '/', ".."@);
    }
    assert(up.skip((base.len() + 1) as int) =~= ".."@);
}

} // verus!
