//! Paths as text, with `/` between the components.

use vstd::prelude::*;
use crate::text::{
    after_prefix, begins_with, cat, cat3, ends_with, finishes_with, from_chars, opt_view,
    rsplit_once, same, split, split_last, split_on, starts_with, strip_prefix, to_chars, views,
};

verus! {

/// Whether a path starts at the root.
pub open spec fn absolute(path: Seq<char>) -> bool {
    begins_with(path, "/"@)
}

/// The path `path`, taken from the directory `base`.
pub open spec fn joined_path(base: Seq<char>, path: Seq<char>) -> Seq<char> {
    if absolute(path) {
        path
    } else if base.len() == 0 || finishes_with(base, "/"@) {
        base + path
    } else {
        base + "/"@ + path
    }
}

/// Whether a path starts at the root.
pub fn is_absolute(path: &str) -> (r: bool)
    ensures
        r == absolute(path@),
{
    starts_with(path, "/")
}

/// The path `path`, taken from the directory `base`.
pub fn join_path(base: &str, path: &str) -> (r: String)
    ensures
        r@ == joined_path(base@, path@),
{
    if is_absolute(path) {
        path.to_owned()
    } else if crate::text::count(base) == 0 || ends_with(base, "/") {
        cat(base, path)
    } else {
        cat3(base, "/", path)
    }
}

/// The path that a leading tilde stands for, where the home directory is known.
pub open spec fn home_path(path: Seq<char>, home: Option<Seq<char>>) -> Option<Seq<char>> {
    match home {
        None => None,
        Some(h) => if path == "~"@ {
            Some(h)
        } else {
            match after_prefix(path, "~/"@) {
                Some(rest) => Some(joined_path(h, rest)),
                None => None,
            }
        },
    }
}

/// The text that an optional string slice holds.
pub open spec fn str_view(s: Option<&str>) -> Option<Seq<char>> {
    match s {
        Some(t) => Some(t@),
        None => None,
    }
}

/// The path that a leading tilde stands for, where the home directory is known.
pub fn expand_home(path: &str, home: Option<&str>) -> (r: Option<String>)
    ensures
        crate::text::opt_view(r) == home_path(path@, str_view(home)),
{
    match home {
        None => None,
        Some(h) => {
            if same(path, "~") {
                return Some(h.to_owned());
            }
            match strip_prefix(path, "~/") {
                Some(rest) => Some(join_path(h, rest.as_str())),
                None => None,
            }
        },
    }
}

/// The path that `path` stands for in the directory `base`.
pub open spec fn resolved_path(base: Seq<char>, path: Seq<char>, home: Option<Seq<char>>) -> Seq<
    char,
> {
    match home_path(path, home) {
        Some(p) => p,
        None => joined_path(base, path),
    }
}

/// The path that `path` stands for in the directory `base`.
pub fn resolve_path(base: &str, path: &str, home: Option<&str>) -> (r: String)
    ensures
        r@ == resolved_path(base@, path@, str_view(home)),
{
    match expand_home(path, home) {
        Some(p) => p,
        None => join_path(base, path),
    }
}

/// The components among the pieces of a path: not the empty ones, nor single
/// dots behind the first piece.
pub open spec fn components(pieces: Seq<Seq<char>>) -> Seq<Seq<char>>
    decreases pieces.len(),
{
    if pieces.len() == 0 {
        seq![]
    } else {
        let rest = components(pieces.drop_last());
        if pieces.last().len() == 0 || (pieces.last() == "."@ && pieces.len() > 1) {
            rest
        } else {
            rest.push(pieces.last())
        }
    }
}

/// A path without what follows its last component: slashes, and single dots
/// behind a slash. A path that is only the root, or only a dot, keeps it.
pub open spec fn without_tail(path: Seq<char>) -> Seq<char>
    decreases path.len(),
{
    let n = path.len();
    if n > 1 && (path[n - 1] == '/' || (path[n - 1] == '.' && path[n - 2] == '/')) {
        without_tail(path.drop_last())
    } else {
        path
    }
}

/// The last component of a path, unless it is the root, the directory itself or
/// the one above.
pub open spec fn file_name_of(path: Seq<char>) -> Option<Seq<char>> {
    let p = without_tail(path);
    let name = match split_last(p, '/') {
        Some((_, name)) => name,
        None => p,
    };
    if name.len() == 0 || name == "."@ || name == ".."@ {
        None
    } else {
        Some(name)
    }
}

/// A path without its last component, if it has one.
pub open spec fn parent_of(path: Seq<char>) -> Option<Seq<char>> {
    let p = without_tail(path);
    match split_last(p, '/') {
        Some((dir, name)) => if name.len() == 0 {
            None
        } else {
            Some(without_tail(dir.push('/')))
        },
        None => if p.len() == 0 {
            None
        } else {
            Some(""@)
        },
    }
}

fn trim_tail(path: &str) -> (r: String)
    ensures
        r@ == without_tail(path@),
{
    let cs = to_chars(path);
    let mut n: usize = cs.len();
    assert(cs@.take(n as int) =~= path@);
    while n > 1 && (cs[n - 1] == '/' || (cs[n - 1] == '.' && cs[n - 2] == '/'))
        invariant
            n <= cs@.len(),
            without_tail(path@) == without_tail(cs@.take(n as int)),
        decreases n,
    {
        assert(cs@.take(n as int).drop_last() =~= cs@.take(n - 1));
        n = n - 1;
    }
    let r = from_chars(&cs, 0, n);
    assert(r@ =~= cs@.take(n as int));
    r
}

/// The last component of a path, unless it is the root, the directory itself or
/// the one above.
pub fn file_name(path: &str) -> (r: Option<String>)
    ensures
        opt_view(r) == file_name_of(path@),
{
    let p = trim_tail(path);
    let name = match rsplit_once(p.as_str(), '/') {
        Some((_, name)) => name,
        None => p,
    };
    if name.as_str().is_empty() || same(name.as_str(), ".") || same(name.as_str(), "..") {
        None
    } else {
        Some(name)
    }
}

/// A path without its last component, if it has one.
pub fn parent(path: &str) -> (r: Option<String>)
    ensures
        opt_view(r) == parent_of(path@),
{
    let p = trim_tail(path);
    match rsplit_once(p.as_str(), '/') {
        Some((dir, name)) => {
            if name.as_str().is_empty() {
                None
            } else {
                let mut d = dir;
                d.push('/');
                Some(trim_tail(d.as_str()))
            }
        },
        None => {
            if p.as_str().is_empty() {
                None
            } else {
                Some("".to_owned())
            }
        },
    }
}

/// Whether two texts write the same path.
pub open spec fn same_path(a: Seq<char>, b: Seq<char>) -> bool {
    absolute(a) == absolute(b) && components(split(a, "/"@)) == components(split(b, "/"@))
}

fn parts_of(path: &str) -> (r: Vec<String>)
    ensures
        views(r@) == components(split(path@, "/"@)),
{
    proof {
        reveal_strlit("/");
    }
    let pieces = split_on(path, "/");
    let ghost texts = views(pieces@);
    let mut out: Vec<String> = Vec::new();
    let mut i: usize = 0;
    assert(views(out@) =~= components(texts.take(0)));
    while i < pieces.len()
        invariant
            i <= pieces.len(),
            texts == views(pieces@),
            views(out@) == components(texts.take(i as int)),
        decreases pieces.len() - i,
    {
        let piece = pieces[i].as_str();
        proof {
            assert(texts[i as int] == piece@);
            assert(texts.take(i + 1).drop_last() =~= texts.take(i as int));
        }
        let ghost before = out@;
        if !piece.is_empty() && !(same(piece, ".") && i > 0) {
            out.push(piece.to_owned());
            assert(views(out@) =~= views(before).push(piece@));
        }
        i = i + 1;
    }
    assert(texts.take(i as int) =~= texts);
    out
}

/// Whether two texts write the same path.
pub fn paths_match(a: &str, b: &str) -> (r: bool)
    ensures
        r == same_path(a@, b@),
{
    if is_absolute(a) != is_absolute(b) {
        return false;
    }
    let x = parts_of(a);
    let y = parts_of(b);
    assert(views(x@).len() == x@.len() && views(y@).len() == y@.len());
    if x.len() != y.len() {
        return false;
    }
    let mut i: usize = 0;
    while i < x.len()
        invariant
            i <= x.len() == y.len(),
            views(x@) == components(split(a@, "/"@)),
            views(y@) == components(split(b@, "/"@)),
            forall|k: int| 0 <= k < i ==> (#[trigger] views(x@)[k]) == views(y@)[k],
        decreases x.len() - i,
    {
        assert(views(x@)[i as int] == x@[i as int]@);
        assert(views(y@)[i as int] == y@[i as int]@);
        if !same(x[i].as_str(), y[i].as_str()) {
            return false;
        }
        i = i + 1;
    }
    assert(views(x@) =~= views(y@));
    true
}

/// A path that starts at the root stays as it is; any other is taken from the
/// directory: the whole begins with the directory, ends with the path, and one slash
/// stands between them.
pub proof fn paths_are_taken_from_their_directory(base: &str, path: &str, r: String)
    requires
        call_ensures(join_path, (base, path), r),
    ensures
        path@.len() > 0 && path@[0] == '/' ==> r@ == path@,
        !(path@.len() > 0 && path@[0] == '/') ==> r@.take(base@.len() as int) == base@ && r@.skip(
            r@.len() - path@.len(),
        ) == path@,
        !(path@.len() > 0 && path@[0] == '/') && base@.len() > 0 && base@.last() != '/' ==> r@.len()
            == base@.len() + 1 + path@.len() && r@[base@.len() as int] == '/',
        !(path@.len() > 0 && path@[0] == '/') && base@.len() > 0 && base@.last() == '/' ==> r@.len()
            == base@.len() + path@.len(),
{
    reveal_strlit("/");
    let slash = "/"@;
    assert(slash =~= seq!['/']);
    if path@.len() > 0 {
        assert(path@.take(1) =~= slash <==> path@.take(1)[0] == slash[0]);
    }
    if base@.len() > 0 {
        assert(base@.skip(base@.len() - 1) =~= slash <==> base@.skip(base@.len() - 1)[0] == slash[0]);
    }
    if r@ == base@ + path@ {
        assert((base@ + path@).take(base@.len() as int) =~= base@);
        assert((base@ + path@).skip(base@.len() as int) =~= path@);
    }
    if r@ == base@ + slash + path@ {
        assert((base@ + slash + path@).take(base@.len() as int) =~= base@);
        assert((base@ + slash + path@).skip((base@.len() + 1) as int) =~= path@);
    }
}

/// A tilde stands for the home directory, alone or before a slash, and for nothing
/// else; a path that has none is taken from the directory.
pub proof fn tildes_stand_for_the_home_directory(
    path: &str,
    home: &str,
    rest: &str,
    base: &str,
    r: Option<String>,
    inside: String,
    joined: String,
    resolved: String,
    homeless: Option<String>,
)
    requires
        call_ensures(expand_home, (path, Some(home)), r),
        call_ensures(expand_home, (path, None), homeless),
        call_ensures(join_path, (home, rest), inside),
        call_ensures(join_path, (base, path), joined),
        call_ensures(resolve_path, (base, path, Some(home)), resolved),
    ensures
        path@ == seq!['~'] ==> (r matches Some(p) && p@ == home@),
        path@ == seq!['~', '/'] + rest@ ==> (r matches Some(p) && p@ == inside@),
        path@.len() == 0 || path@[0] != '~' ==> r is None,
        homeless is None,
        r matches Some(p) ==> resolved@ == p@,
        r is None ==> resolved@ == joined@,
{
    reveal_strlit("~");
    reveal_strlit("~/");
    let t = "~"@;
    let ts = "~/"@;
    assert(t =~= seq!['~']);
    assert(ts =~= seq!['~', '/']);
    if path@ == seq!['~', '/'] + rest@ {
        assert(path@.len() >= 2);
        assert(path@.take(2) =~= ts);
        assert(path@.skip(2) =~= rest@);
    }
    if path@.len() == 0 || path@[0] != '~' {
        if begins_with(path@, ts) {
            assert(path@.take(2)[0] == path@[0]);
        }
    }
}

/// A path is the same as itself, and two are the same whichever comes first.
pub proof fn paths_are_compared_both_ways(a: &str, b: &str, r: bool, s: bool, own: bool)
    requires
        call_ensures(paths_match, (a, b), r),
        call_ensures(paths_match, (b, a), s),
        call_ensures(paths_match, (a, a), own),
    ensures
        r == s,
        own,
        a@.len() > 0 && a@[0] == '/' && (b@.len() == 0 || b@[0] != '/') ==> !r,
{
    reveal_strlit("/");
    assert("/"@ =~= seq!['/']);
    crate::text::lemma_starts(a@, '/');
    crate::text::lemma_starts(b@, '/');
}

/// The name in a path is what stands behind its last slash, and its parent what
/// stands before.
pub proof fn names_stand_behind_the_last_slash(
    dir: Seq<char>,
    name: Seq<char>,
    path: &str,
    r: Option<String>,
    up: Option<String>,
)
    requires
        name.len() > 0,
        name.last() != '.',
        forall|i: int| 0 <= i < name.len() ==> #[trigger] name[i] != '/',
        dir.len() > 0,
        dir.last() != '/',
        dir.last() != '.',
        path@ == dir + seq!['/'] + name,
        call_ensures(file_name, (path,), r),
        call_ensures(parent, (path,), up),
    ensures
        r matches Some(n) && n@ == name,
        up matches Some(d) && d@ == dir,
{
    reveal_strlit(".");
    reveal_strlit("..");
    assert("."@.last() == '.');
    assert(".."@.last() == '.');
    let p = path@;
    assert(p.last() == name.last());
    assert(without_tail(p) == p);
    crate::text::lemma_cut(dir, '/', name);
    let d = dir.push('/');
    assert(d.drop_last() =~= dir);
    reveal_with_fuel(without_tail, 3);
    assert(without_tail(d) == dir);
}

} // verus!
