//! Paths as `/`-separated text, with the lexical rules of POSIX paths: an
//! absolute path begins with `/`, and a `.` component other than a leading one
//! and repeated or trailing separators carry no meaning.

use vstd::prelude::*;
use vstd::string::*;

use crate::text::chars_of;

verus! {

/// Whether `path` begins at the root.
pub open spec fn is_absolute(path: Seq<char>) -> bool {
    path.len() > 0 && path[0] == '/'
}

/// `rel` seen from `base`: an absolute `rel` replaces `base`, any other is
/// appended to it behind one separator.
pub open spec fn path_join(base: Seq<char>, rel: Seq<char>) -> Seq<char> {
    if is_absolute(rel) {
        rel
    } else if base.len() == 0 || base.last() == '/' {
        base + rel
    } else {
        base.push('/') + rel
    }
}

/// `path` without the separators and `.` components at its end; the root
/// itself and a leading `.` stay.
pub open spec fn without_trailing(path: Seq<char>) -> Seq<char>
    decreases path.len(),
{
    if path.len() > 1 && path.last() == '/' {
        without_trailing(path.drop_last())
    } else if path.len() > 1 && path.last() == '.' && path[path.len() - 2] == '/' {
        without_trailing(path.drop_last())
    } else {
        path
    }
}

/// `path` up to and including its last separator.
pub open spec fn without_name(path: Seq<char>) -> Seq<char>
    decreases path.len(),
{
    if path.len() > 0 && path.last() != '/' {
        without_name(path.drop_last())
    } else {
        path
    }
}

/// The path without its final component; nothing for the root and for the
/// empty path.
pub open spec fn path_parent(path: Seq<char>) -> Option<Seq<char>> {
    let clean = without_trailing(path);
    if clean.len() == 0 || clean == seq!['/'] {
        None
    } else {
        Some(without_trailing(without_name(clean)))
    }
}

/// Whether `name` can stand as one component: not empty, without a separator
/// and not `.`.
pub open spec fn is_plain_name(name: Seq<char>) -> bool {
    name.len() > 0 && !name.contains('/') && name != seq!['.']
}

/// Joins two paths.
pub fn join(base: &str, rel: &str) -> (r: String)
    ensures
        r@ == path_join(base@, rel@),
{
    let base_chars: Vec<char> = chars_of(base);
    let rel_chars: Vec<char> = chars_of(rel);
    if rel_chars.len() > 0 && rel_chars[0] == '/' {
        return rel.to_owned();
    }
    let mut out: String = base.to_owned();
    if base_chars.len() > 0 && base_chars[base_chars.len() - 1] != '/' {
        proof {
            reveal_strlit("/");
        }
        out.append("/");
        assert(out@ == base@.push('/'));
    }
    out.append(rel);
    out
}

fn trailing_end(chars: &Vec<char>, length: usize) -> (end: usize)
    requires
        length <= chars.len(),
    ensures
        end <= length,
        chars@.take(end as int) == without_trailing(chars@.take(length as int)),
{
    let mut end: usize = length;
    while end > 1 && (chars[end - 1] == '/' || (chars[end - 1] == '.' && chars[end - 2] == '/'))
        invariant
            end <= length <= chars.len(),
            without_trailing(chars@.take(end as int)) == without_trailing(
                chars@.take(length as int),
            ),
        decreases end,
    {
        assert(chars@.take(end as int).drop_last() == chars@.take(end - 1));
        end = end - 1;
    }
    end
}

/// The directory of a path: the path without its final component.
pub fn parent(path: &str) -> (r: Option<String>)
    ensures
        r.deep_view() == path_parent(path@),
{
    let chars: Vec<char> = chars_of(path);
    assert(chars@.take(chars@.len() as int) == path@);
    let clean: usize = trailing_end(&chars, chars.len());
    if clean == 0 {
        return None;
    }
    if clean == 1 && chars[0] == '/' {
        assert(without_trailing(path@) == seq!['/']);
        return None;
    }
    assert(without_trailing(path@) != seq!['/']) by {
        if without_trailing(path@) == seq!['/'] {
            assert(chars@.take(clean as int).len() == seq!['/'].len());
            assert(chars@.take(clean as int)[0] == '/');
        }
    }
    let mut end: usize = clean;
    while end > 0 && chars[end - 1] != '/'
        invariant
            end <= clean <= chars.len(),
            without_name(chars@.take(end as int)) == without_name(chars@.take(clean as int)),
        decreases end,
    {
        assert(chars@.take(end as int).drop_last() == chars@.take(end - 1));
        end = end - 1;
    }
    let stop: usize = trailing_end(&chars, end);
    assert(path@.subrange(0, stop as int) == chars@.take(stop as int));
    Some(path.substring_char(0, stop).to_owned())
}

proof fn lemma_without_name_of_join(dir: Seq<char>, name: Seq<char>)
    requires
        !name.contains('/'),
        dir.len() > 0 && dir.last() == '/',
    ensures
        without_name(dir + name) == dir,
    decreases name.len(),
{
    if name.len() == 0 {
        assert(dir + name == dir);
    } else {
        assert((dir + name).last() == name.last());
        assert(name.contains(name[name.len() - 1]));
        assert((dir + name).drop_last() == dir + name.drop_last());
        assert(!name.drop_last().contains('/')) by {
            if name.drop_last().contains('/') {
                let k = choose|k: int|
                    0 <= k < name.drop_last().len() && name.drop_last()[k] == '/';
                assert(name[k] == '/');
            }
        }
        lemma_without_name_of_join(dir, name.drop_last());
    }
}

/// A path that names an entry directly below a directory has that directory as
/// its parent: joining a plain name and taking the parent gives the directory
/// back, up to separators and `.` components at its end.
pub proof fn law_parent_undoes_join(dir: Seq<char>, name: Seq<char>)
    requires
        is_plain_name(name),
        dir.len() > 0,
    ensures
        path_parent(path_join(dir, name)) == Some(without_trailing(dir)),
{
    assert(name[0] != '/') by {
        assert(name.contains(name[0]));
    }
    let base = if dir.last() == '/' {
        dir
    } else {
        dir.push('/')
    };
    let whole = path_join(dir, name);
    assert(whole == base + name);
    assert(whole.last() == name.last());
    assert(name.contains(name[name.len() - 1]));
    assert(without_trailing(whole) == whole) by {
        if name.len() == 1 {
            if name.last() == '.' {
                assert(name == seq!['.']);
            }
        } else {
            assert(whole[whole.len() - 2] == name[name.len() - 2]);
            assert(name.contains(name[name.len() - 2]));
        }
    }
    lemma_without_name_of_join(base, name);
    assert(whole.len() > 1);
    assert(without_trailing(base) == without_trailing(dir)) by {
        if dir.last() != '/' {
            assert(dir.push('/').drop_last() == dir);
        }
    }
}

/// Joining paths: an absolute path stands by itself; any other goes behind the base with
/// one separator between the two, unless the base is empty or brings its own.
pub proof fn law_joined_paths(base: &str, rel: &str, r: String)
    requires
        call_ensures(join, (base, rel), r),
    ensures
        rel@.len() > 0 && rel@[0] == '/' ==> r@ == rel@,
        !(rel@.len() > 0 && rel@[0] == '/') ==> {
            &&& base@.len() == 0 ==> r@ == rel@
            &&& base@.len() > 0 && base@.last() == '/' ==> r@ == base@ + rel@
            &&& base@.len() > 0 && base@.last() != '/' ==> r@ == base@ + seq!['/'] + rel@
        },
{
    if base@.len() == 0 {
        assert(base@ + rel@ == rel@);
    }
    assert(base@.push('/') == base@ + seq!['/']);
}

/// The root and the empty path have no parent, a single name lies in the current
/// directory, and separators and `.` components at the end of a path do not matter.
pub proof fn law_parent_of_plain_paths(path: Seq<char>, name: Seq<char>)
    requires
        is_plain_name(name),
    ensures
        path_parent(Seq::empty()) is None,
        path_parent(seq!['/']) is None,
        path_parent(name) == Some(Seq::<char>::empty()),
        path.len() > 0 ==> path_parent(path.push('/')) == path_parent(path),
        path.len() > 0 ==> path_parent(path + seq!['/', '.']) == path_parent(path),
{
    assert(seq!['/'].len() == 1);
    assert(name.contains(name[name.len() - 1]));
    if name.len() > 1 {
        assert(name.contains(name[name.len() - 2]));
    }
    assert(without_trailing(name) == name);
    assert(name != seq!['/']) by {
        if name == seq!['/'] {
            assert(name[0] == '/');
        }
    }
    lemma_without_name_of_name(name);
    if path.len() > 0 {
        assert(path.push('/').drop_last() == path);
        let longer = path + seq!['/', '.'];
        assert(longer.drop_last() == path.push('/'));
        assert(longer.last() == '.');
        assert(longer[longer.len() - 2] == '/');
    }
}

proof fn lemma_without_name_of_name(name: Seq<char>)
    requires
        !name.contains('/'),
    ensures
        without_name(name) == Seq::<char>::empty(),
    decreases name.len(),
{
    if name.len() > 0 {
        assert(name.contains(name[name.len() - 1]));
        assert(!name.drop_last().contains('/')) by {
            if name.drop_last().contains('/') {
                let k = choose|k: int|
                    0 <= k < name.drop_last().len() && name.drop_last()[k] == '/';
                assert(name[k] == '/');
            }
        }
        lemma_without_name_of_name(name.drop_last());
    }
}

/// What is taken away at the end of a path is made of separators and `.` components, and
/// none of either is left there.
pub proof fn law_trailing_components(path: Seq<char>)
    ensures
        ({
            let r = without_trailing(path);
            &&& r.len() <= path.len()
            &&& path.take(r.len() as int) == r
            &&& forall|i: int|
                r.len() <= i < path.len() ==> (#[trigger] path[i]) == '/' || (path[i] == '.' && i > 0
                    && path[i - 1] == '/')
            &&& r.len() > 1 ==> r.last() != '/' && !(r.last() == '.' && r[r.len() - 2] == '/')
            &&& path.len() > 0 ==> r.len() > 0
        }),
    decreases path.len(),
{
    let r = without_trailing(path);
    if path.len() > 1 && (path.last() == '/' || (path.last() == '.' && path[path.len() - 2]
        == '/')) {
        let front = path.drop_last();
        law_trailing_components(front);
        assert(path.take(r.len() as int) == front.take(r.len() as int));
        assert forall|i: int| r.len() <= i < path.len() implies (#[trigger] path[i]) == '/' || (
        path[i] == '.' && i > 0 && path[i - 1] == '/') by {
            if i < front.len() {
                assert(front[i] == path[i]);
            }
        }
    } else {
        assert(path.take(path.len() as int) == path);
    }
}

/// The parent of what joining a plain name to a directory gives is that directory, up to
/// separators and `.` components at its end.
pub proof fn law_parent(dir: &str, name: &str, joined: String, path: &str, r: Option<String>)
    requires
        call_ensures(join, (dir, name), joined),
        call_ensures(parent, (path,), r),
        path@ == joined@,
        is_plain_name(name@),
    ensures
        r is Some,
        dir@.len() > 0 ==> r->0@ == without_trailing(dir@),
        dir@.len() == 0 ==> r->0@.len() == 0,
{
    if dir@.len() > 0 {
        law_parent_undoes_join(dir@, name@);
    } else {
        law_parent_of_plain_paths(dir@, name@);
        assert(path@ == name@);
    }
}

} // verus!
