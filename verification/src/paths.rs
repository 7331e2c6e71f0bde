//! Paths as texts, with `/` between their components.
use vstd::prelude::*;
use vstd::string::*;
use crate::text::{
    characters, join, join_all, piece, same, split, split_at_each, splitting_loses_nothing, text_of,
    texts,
};

verus! {

/// Whether a part of a path is a component: empty parts are not, nor is `.` anywhere but at
/// the start.
pub open spec fn is_component(parts: Seq<Seq<char>>, i: int) -> bool {
    parts[i].len() > 0 && (parts[i] != "."@ || i == 0)
}

/// The last component among the first `n` parts; -1 if there is none.
pub open spec fn last_component(parts: Seq<Seq<char>>, n: int) -> int
    decreases n,
{
    if n <= 0 {
        -1
    } else if is_component(parts, n - 1) {
        n - 1
    } else {
        last_component(parts, n - 1)
    }
}

/// The name of the file that a path leads to. A path that ends in `..` or has no components
/// names none.
pub open spec fn file_name_of(path: Seq<char>) -> Option<Seq<char>> {
    let parts = split(path, '/');
    let at = last_component(parts, parts.len() as int);
    if at < 0 || parts[at] == "."@ || parts[at] == ".."@ {
        None
    } else {
        Some(parts[at])
    }
}

/// Where the last dot of a name stands; -1 if it has none.
pub open spec fn last_dot(name: Seq<char>) -> int
    decreases name.len(),
{
    if name.len() == 0 {
        -1
    } else if name.last() == '.' {
        name.len() - 1
    } else {
        last_dot(name.drop_last())
    }
}

/// What stands behind the last dot of a file's name. A dot at the start starts no extension.
pub open spec fn extension_of(path: Seq<char>) -> Option<Seq<char>> {
    match file_name_of(path) {
        Some(name) => if last_dot(name) > 0 {
            Some(name.skip(last_dot(name) + 1))
        } else {
            None
        },
        None => None,
    }
}

/// The path without its last component.
pub open spec fn parent_of(path: Seq<char>) -> Option<Seq<char>> {
    let parts = split(path, '/');
    let at = last_component(parts, parts.len() as int);
    if at < 0 {
        None
    } else {
        let before = last_component(parts, at);
        if before >= 0 {
            Some(join(parts.take(before + 1), "/"@))
        } else if path.len() > 0 && path[0] == '/' {
            Some("/"@)
        } else {
            Some(Seq::empty())
        }
    }
}

/// One path inside another; an absolute one stands for itself.
pub open spec fn joined_path(dir: Seq<char>, name: Seq<char>) -> Seq<char> {
    if name.len() > 0 && name[0] == '/' {
        name
    } else if dir.len() > 0 && dir.last() != '/' {
        dir + "/"@ + name
    } else {
        dir + name
    }
}

fn find_component(parts: &Vec<String>, n: usize) -> (r: Option<usize>)
    requires
        n <= parts@.len(),
    ensures
        r matches Some(i) ==> i < n && last_component(texts(parts@), n as int) == i,
        r is None ==> last_component(texts(parts@), n as int) == -1,
{
    let ghost all = texts(parts@);
    let mut i: usize = n;
    while i > 0
        invariant
            i <= n <= parts@.len(),
            all == texts(parts@),
            last_component(all, i as int) == last_component(all, n as int),
        decreases i,
    {
        i -= 1;
        assert(all[i as int] == parts@[i as int]@);
        if !parts[i].as_str().is_empty() && (i == 0 || !same(parts[i].as_str(), ".")) {
            return Some(i);
        }
    }
    None
}

/// The name of the file that a path leads to.
pub fn file_name(path: &str) -> (r: Option<String>)
    ensures
        text_of(r) == file_name_of(path@),
{
    let parts = split_at_each(path, '/');
    match find_component(&parts, parts.len()) {
        Some(i) => {
            assert(texts(parts@)[i as int] == parts@[i as int]@);
            if same(parts[i].as_str(), ".") || same(parts[i].as_str(), "..") {
                None
            } else {
                Some(parts[i].clone())
            }
        },
        None => None,
    }
}

/// What stands behind the last dot of a file's name.
pub fn extension(path: &str) -> (r: Option<String>)
    ensures
        text_of(r) == extension_of(path@),
{
    let name = match file_name(path) {
        Some(name) => name,
        None => {
            return None;
        },
    };
    let chars = characters(name.as_str());
    let n = chars.len();
    let mut i: usize = n;
    assert(chars@.take(n as int) =~= chars@);
    while i > 0 && chars[i - 1] != '.'
        invariant
            i <= n == chars@.len(),
            last_dot(chars@.take(i as int)) == last_dot(chars@),
        decreases i,
    {
        assert(chars@.take(i as int).drop_last() =~= chars@.take(i - 1));
        i -= 1;
    }
    proof {
        if i > 0 {
            assert(chars@.take(i as int).last() == '.');
        } else {
            assert(chars@.take(0).len() == 0);
        }
        assert(last_dot(name@) == i - 1);
    }
    if i > 1 {
        assert(chars@.subrange(i as int, n as int) =~= chars@.skip(i as int));
        Some(piece(&chars, i, n))
    } else {
        None
    }
}

/// The path without its last component.
pub fn parent(path: &str) -> (r: Option<String>)
    ensures
        text_of(r) == parent_of(path@),
{
    let parts = split_at_each(path, '/');
    match find_component(&parts, parts.len()) {
        Some(at) => match find_component(&parts, at) {
            Some(before) => {
                let mut kept: Vec<String> = Vec::new();
                let mut i: usize = 0;
                while i <= before
                    invariant
                        before < at < parts@.len(),
                        i <= before + 1,
                        texts(kept@) == texts(parts@).take(i as int),
                    decreases before + 1 - i,
                {
                    let ghost so_far = texts(kept@);
                    kept.push(parts[i].clone());
                    assert(texts(kept@) =~= so_far.push(parts@[i as int]@));
                    i += 1;
                    assert(texts(kept@) =~= texts(parts@).take(i as int));
                }
                Some(join_all(&kept, "/"))
            },
            None => {
                let chars = characters(path);
                if chars.len() > 0 && chars[0] == '/' {
                    Some("/".to_owned())
                } else {
                    let r = String::new();
                    assert(r@ =~= Seq::empty());
                    Some(r)
                }
            },
        },
        None => None,
    }
}

/// One path inside another.
pub fn join_path(dir: &str, name: &str) -> (r: String)
    ensures
        r@ == joined_path(dir@, name@),
{
    let inner = characters(name);
    if inner.len() > 0 && inner[0] == '/' {
        return name.to_owned();
    }
    let outer = characters(dir);
    let mut r = dir.to_owned();
    if outer.len() > 0 && outer[outer.len() - 1] != '/' {
        r.append("/");
    }
    r.append(name);
    r
}

proof fn lemma_split_appended(a: Seq<char>, name: Seq<char>, sep: char)
    requires
        !name.contains(sep),
    ensures
        split(a.push(sep) + name, sep) == split(a, sep).push(name),
    decreases name.len(),
{
    let all = a.push(sep) + name;
    if name.len() == 0 {
        assert(all =~= a.push(sep));
        assert(a.push(sep).drop_last() =~= a);
        assert(name =~= Seq::empty());
    } else {
        let rest = name.drop_last();
        assert(!rest.contains(sep)) by {
            if rest.contains(sep) {
                let k = choose|k: int| 0 <= k < rest.len() && rest[k] == sep;
                assert(name[k] == sep);
            }
        }
        lemma_split_appended(a, rest, sep);
        assert(all.drop_last() =~= a.push(sep) + rest);
        assert(all.last() == name.last());
        assert(name.last() != sep) by {
            assert(name[name.len() - 1] == name.last());
        }
        assert(rest.push(name.last()) =~= name);
        let before = split(a, sep).push(rest);
        assert(before.drop_last() =~= split(a, sep));
    }
}

/// A file put into a folder has that name there, whatever the folder.
pub proof fn files_keep_their_name_in_a_folder(dir: Seq<char>, name: Seq<char>)
    requires
        !name.contains('/'),
        name.len() > 0,
        name != "."@,
        name != ".."@,
        dir.len() > 0,
        dir.last() != '/',
    ensures
        file_name_of(joined_path(dir, name)) == Some(name),
{
    assert(name[0] != '/') by {
        assert(!name.contains('/'));
    }
    reveal_strlit("/");
    assert(dir + "/"@ + name =~= dir.push('/') + name);
    lemma_split_appended(dir, name, '/');
    let parts = split(dir, '/').push(name);
    assert(parts.last() == name);
}

proof fn lemma_single_part(name: Seq<char>)
    requires
        !name.contains('/'),
    ensures
        split(name, '/') == seq![name],
{
    splitting_loses_nothing(name, '/');
    let parts = split(name, '/');
    assert(parts.len() == 1);
    assert(join(parts, seq!['/']) == parts[0]);
    assert(parts =~= seq![name]);
}

proof fn lemma_last_dot(stem: Seq<char>, ext: Seq<char>)
    requires
        !ext.contains('.'),
    ensures
        last_dot(stem.push('.') + ext) == stem.len(),
    decreases ext.len(),
{
    let name = stem.push('.') + ext;
    if ext.len() == 0 {
        assert(name =~= stem.push('.'));
    } else {
        let rest = ext.drop_last();
        assert(!rest.contains('.')) by {
            if rest.contains('.') {
                let k = choose|k: int| 0 <= k < rest.len() && rest[k] == '.';
                assert(ext[k] == '.');
            }
        }
        lemma_last_dot(stem, rest);
        assert(name.drop_last() =~= stem.push('.') + rest);
        assert(name.last() == ext[ext.len() - 1]);
    }
}

/// The extension of a file is what stands behind the last dot of its name, in a folder or out
/// of one; a name that only begins with a dot has none.
pub proof fn extensions_stand_behind_the_last_dot(dir: Seq<char>, stem: Seq<char>, ext: Seq<char>)
    requires
        !stem.contains('/'),
        !ext.contains('/'),
        !ext.contains('.'),
        stem.len() > 0 || ext.len() > 0,
        stem.push('.') + ext != ".."@,
    ensures
        stem.len() > 0 ==> extension_of(stem.push('.') + ext) == Some(ext),
        stem.len() == 0 ==> extension_of(stem.push('.') + ext) is None,
        file_name_of(stem.push('.') + ext) == Some(stem.push('.') + ext),
        dir.len() > 0 && dir.last() != '/' ==> extension_of(
            joined_path(dir, stem.push('.') + ext),
        ) == extension_of(stem.push('.') + ext),
{
    let name = stem.push('.') + ext;
    assert(!name.contains('/')) by {
        if name.contains('/') {
            let k = choose|k: int| 0 <= k < name.len() && name[k] == '/';
            if k < stem.len() {
                assert(stem[k] == '/');
            } else if k > stem.len() {
                assert(ext[k - stem.len() - 1] == '/');
            }
        }
    }
    reveal_strlit(".");
    assert(name.len() >= 2);
    lemma_single_part(name);
    lemma_last_dot(stem, ext);
    let parts = split(name, '/');
    assert(is_component(parts, 0));
    assert(last_component(parts, 1) == 0);
    assert(file_name_of(name) == Some(name));
    assert(name.skip(stem.len() as int + 1) =~= ext);
    if dir.len() > 0 && dir.last() != '/' {
        files_keep_their_name_in_a_folder(dir, name);
    }
}

/// The folder of a file that was put into it is that folder.
pub proof fn files_lie_in_their_folder(dir: Seq<char>, name: Seq<char>)
    requires
        !name.contains('/'),
        name.len() > 0,
        name != "."@,
        dir.len() > 0,
        split(dir, '/').last().len() > 0,
        split(dir, '/').last() != "."@,
    ensures
        parent_of(joined_path(dir, name)) == Some(dir),
{
    splitting_loses_nothing(dir, '/');
    let outer = split(dir, '/');
    assert(dir.last() != '/') by {
        if dir.last() == '/' {
            assert(outer.last() =~= Seq::empty());
        }
    }
    assert(name[0] != '/') by {
        assert(!name.contains('/'));
    }
    reveal_strlit("/");
    assert(dir + "/"@ + name =~= dir.push('/') + name);
    lemma_split_appended(dir, name, '/');
    let parts = outer.push(name);
    assert(parts.last() == name);
    let n = parts.len() as int;
    assert(is_component(parts, n - 1));
    assert(parts[n - 2] == outer.last());
    assert(is_component(parts, n - 2));
    assert(last_component(parts, n) == n - 1);
    assert(last_component(parts, n - 1) == n - 2);
    assert(parts.take(n - 1) =~= outer);
    assert("/"@ =~= seq!['/']);
}

/// A name from the root replaces the folder; any other goes behind it, with one slash between.
pub proof fn names_go_behind_their_folder(dir: Seq<char>, name: Seq<char>)
    ensures
        name.len() > 0 && name[0] == '/' ==> joined_path(dir, name) == name,
        !(name.len() > 0 && name[0] == '/') && dir.len() > 0 && dir.last() != '/' ==> joined_path(
            dir,
            name,
        ) == dir.push('/') + name,
        !(name.len() > 0 && name[0] == '/') && (dir.len() == 0 || dir.last() == '/') ==> joined_path(
            dir,
            name,
        ) == dir + name,
{
    reveal_strlit("/");
    assert(dir + "/"@ + name =~= dir.push('/') + name);
}

} // verus!
