//! The path arithmetic of demo files, on paths held as text with `/` between
//! components.
use vstd::prelude::*;
use crate::text::{chars_of, extend_chars, split_chars, split_seq, string_of, views_of};

verus! {

/// `buf` extended by `part`, as `PathBuf::push` does on Unix: an absolute
/// `part` replaces `buf`; otherwise a separator goes between them unless `buf`
/// is empty or already ends with one.
pub open spec fn path_push(buf: Seq<char>, part: Seq<char>) -> Seq<char> {
    if part.len() > 0 && part[0] == '/' {
        part
    } else if buf.len() == 0 {
        part
    } else if buf.last() == '/' {
        buf + part
    } else {
        buf + seq!['/'] + part
    }
}

/// `buf` extended by each of `parts` in turn.
pub open spec fn push_all(buf: Seq<char>, parts: Seq<Seq<char>>) -> Seq<char>
    decreases parts.len(),
{
    if parts.len() == 0 {
        buf
    } else {
        path_push(push_all(buf, parts.drop_last()), parts.last())
    }
}

/// Index of the first of `parts` equal to `x`.
pub open spec fn first_index_of(parts: Seq<Seq<char>>, x: Seq<char>, n: int) -> Option<int>
    decreases n,
{
    if n <= 0 {
        None
    } else {
        match first_index_of(parts, x, n - 1) {
            Some(i) => Some(i),
            None => if parts[n - 1] == x { Some(n - 1) } else { None },
        }
    }
}

/// The components of a path written with `/`.
pub open spec fn path_parts(path: Seq<char>) -> Seq<Seq<char>> {
    split_seq(path, '/')
}

/// Where a demo's `demos` folder is: the root, then each component of the
/// demo's path up to and including the first `demos` (the whole path when
/// there is none).
pub open spec fn demos_dir(path: Seq<char>) -> Seq<char> {
    let parts = path_parts(path);
    match first_index_of(parts, "demos"@, parts.len() as int) {
        Some(k) => push_all("/"@, parts.take(k + 1)),
        None => push_all("/"@, parts),
    }
}

/// The demo's path from its `demos` folder on: the components from the first
/// `demos` to the end (empty when there is none).
pub open spec fn relative_demo_path(path: Seq<char>) -> Seq<char> {
    let parts = path_parts(path);
    match first_index_of(parts, "demos"@, parts.len() as int) {
        Some(k) => push_all(Seq::empty(), parts.skip(k)),
        None => Seq::empty(),
    }
}

/// Extends `buf` by the component `part`.
pub fn push_component(buf: &mut Vec<char>, part: &Vec<char>)
    ensures
        final(buf)@ == path_push(old(buf)@, part@),
{
    if part.len() > 0 && part[0] == '/' {
        *buf = part.clone();
        assert(buf@ =~= part@);
        return;
    }
    if buf.len() > 0 && buf[buf.len() - 1] != '/' {
        buf.push('/');
    }
    extend_chars(buf, part);
}

/// `base` joined with `part` (`Path::join`).
pub fn join_path(base: &str, part: &str) -> (r: String)
    ensures
        r@ == path_push(base@, part@),
{
    let mut b = chars_of(base);
    let p = chars_of(part);
    push_component(&mut b, &p);
    string_of(&b)
}

/// The pieces of `path` that name something: its `/`-separated pieces
/// without the empty ones and `.` (how `Path::components` reads a path on
/// Unix, where a `.` counts only as the very first component).
pub open spec fn named_parts(path: Seq<char>) -> Seq<Seq<char>> {
    path_parts(path).filter(|p: Seq<char>| p.len() > 0 && p != "."@)
}

/// The last component of `path` (`Path::file_name`): its last named piece;
/// `None` when it has none or that piece is `..`.
pub open spec fn path_file_name(path: Seq<char>) -> Option<Seq<char>> {
    let parts = named_parts(path);
    if parts.len() == 0 || parts.last() == ".."@ {
        None
    } else {
        Some(parts.last())
    }
}

/// Index of the last `c` in `s`.
pub open spec fn last_index_of(s: Seq<char>, c: char) -> Option<int>
    decreases s.len(),
{
    if s.len() == 0 {
        None
    } else if s.last() == c {
        Some(s.len() - 1)
    } else {
        last_index_of(s.drop_last(), c)
    }
}

/// The file name of `path` without its extension (`Path::file_stem`): what
/// comes before the last `.` of the file name, or the whole name when its
/// only `.` is the first character or it has none.
pub open spec fn path_file_stem(path: Seq<char>) -> Option<Seq<char>> {
    match path_file_name(path) {
        Some(name) => match last_index_of(name, '.') {
            Some(i) => if i > 0 { Some(name.take(i)) } else { Some(name) },
            None => Some(name),
        },
        None => None,
    }
}

/// `path` without its last component (`Path::parent`); `None` for a root or
/// an empty path.
pub uninterp spec fn path_parent(path: Seq<char>) -> Option<Seq<char>>;

/// The extension of the file `path` names (`Path::extension`): what follows
/// the last `.` of the file name; `None` when the name has no `.` but as its
/// first character.
pub open spec fn path_extension(path: Seq<char>) -> Option<Seq<char>> {
    match path_file_name(path) {
        Some(name) => match last_index_of(name, '.') {
            Some(i) => if i > 0 { Some(name.skip(i + 1)) } else { None },
            None => None,
        },
        None => None,
    }
}

/// `path` with its extension replaced by `ext` (`Path::with_extension`).
pub uninterp spec fn path_with_extension(path: Seq<char>, ext: Seq<char>) -> Seq<char>;

/// The file name of `path` (`Path::file_name`, then `OsStr::to_str`, which
/// cannot fail on text), as `path_file_name` states it.
#[verifier::external_body]
pub(crate) fn file_name_text(path: &str) -> (r: Option<String>)
    ensures
        r is Some <==> path_file_name(path@) is Some,
        r matches Some(s) ==> path_file_name(path@) == Some(s@),
{
    std::path::Path::new(path).file_name().and_then(|s| s.to_str()).map(|s| s.to_string())
}

/// The file stem of `path` (`Path::file_stem`, then `OsStr::to_str`), as
/// `path_file_stem` states it.
#[verifier::external_body]
pub(crate) fn file_stem_text(path: &str) -> (r: Option<String>)
    ensures
        r is Some <==> path_file_stem(path@) is Some,
        r matches Some(s) ==> path_file_stem(path@) == Some(s@),
{
    std::path::Path::new(path).file_stem().and_then(|s| s.to_str()).map(|s| s.to_string())
}

/// The parent of `path` (`Path::parent`); claimed to depend on the path
/// alone, named `path_parent`. A path with a file name ends in neither a root
/// nor is it empty, so it has a parent.
#[verifier::external_body]
pub(crate) fn parent_text(path: &str) -> (r: Option<String>)
    ensures
        r is Some <==> path_parent(path@) is Some,
        path_file_name(path@) is Some ==> r is Some,
        r matches Some(s) ==> path_parent(path@) == Some(s@),
{
    std::path::Path::new(path).parent().and_then(|s| s.to_str()).map(|s| s.to_string())
}

/// The extension of `path` (`Path::extension`, then `OsStr::to_str`), as
/// `path_extension` states it.
#[verifier::external_body]
pub(crate) fn extension_text(path: &str) -> (r: Option<String>)
    ensures
        r is Some <==> path_extension(path@) is Some,
        r matches Some(e) ==> path_extension(path@) == Some(e@),
{
    std::path::Path::new(path).extension().and_then(|e| e.to_str()).map(|e| e.to_string())
}

/// `path` with extension `ext` (`Path::with_extension`); claimed to depend on
/// its arguments alone, named `path_with_extension`. The extension holds no
/// separator: `Path::with_extension` panics on one. As std documents it, a
/// path without a file name is left as it is, and otherwise a non-empty `ext`
/// without a `.` becomes the extension.
#[verifier::external_body]
pub(crate) fn with_extension_text(path: &str, ext: &str) -> (r: String)
    requires
        forall|i: int| 0 <= i < ext@.len() ==> ext@[i] != '/',
    ensures
        r@ == path_with_extension(path@, ext@),
        path_file_name(path@) is None ==> r@ == path@,
        path_file_name(path@) is Some && ext@.len() > 0 && (forall|i: int| 0 <= i < ext@.len() ==> ext@[i] != '.')
            ==> path_extension(r@) == Some(ext@),
{
    std::path::Path::new(path).with_extension(ext).to_string_lossy().into_owned()
}

fn is_demos(part: &Vec<char>) -> (r: bool)
    ensures
        r == (part@ == "demos"@),
{
    let d = chars_of("demos");
    if part.len() != d.len() {
        return false;
    }
    let r = crate::text::occurs_at_exec(part, &d, 0);
    assert(part@.subrange(0, d@.len() as int) =~= part@);
    r
}

/// A demo's `demos` folder and its path from there, both as text.
pub fn demo_dir_and_relative_path(path: &str) -> (r: (String, String))
    ensures
        r.0@ == demos_dir(path@),
        r.1@ == relative_demo_path(path@),
{
    let pv = chars_of(path);
    let parts = split_chars(&pv, '/');
    let ghost ps = views_of(parts@);
    let mut dir: Vec<char> = chars_of("/");
    let mut rel: Vec<char> = Vec::new();
    let mut dem = false;
    let mut found: Option<usize> = None;
    let mut i: usize = 0;
    while i < parts.len()
        invariant
            i <= parts@.len(),
            ps == views_of(parts@),
            ps == path_parts(path@),
            ps.len() == parts@.len(),
            dem <==> found is Some,
            found is None ==> first_index_of(ps, "demos"@, i as int) is None && dir@ == push_all(
                "/"@,
                ps.take(i as int),
            ) && rel@ == Seq::<char>::empty(),
            found matches Some(k) ==> k < i && first_index_of(ps, "demos"@, i as int) == Some(
                k as int,
            ) && dir@ == push_all("/"@, ps.take(k + 1)) && rel@ == push_all(
                Seq::empty(),
                ps.subrange(k as int, i as int),
            ),
        decreases parts.len() - i,
    {
        let part = &parts[i];
        assert(part@ == ps[i as int]);
        let is_d = is_demos(part);
        if found.is_none() {
            assert(ps.take(i + 1).drop_last() =~= ps.take(i as int));
            push_component(&mut dir, part);
            if is_d {
                found = Some(i);
                dem = true;
                assert(ps.subrange(i as int, i + 1).drop_last() =~= Seq::<Seq<char>>::empty());
                assert(ps.subrange(i as int, i + 1).last() == ps[i as int]);
                assert(push_all(Seq::<char>::empty(), Seq::<Seq<char>>::empty()) == Seq::<char>::empty());
                push_component(&mut rel, part);
                assert(rel@ == push_all(Seq::empty(), ps.subrange(i as int, i + 1)));
                assert(first_index_of(ps, "demos"@, i + 1) == Some(i as int));
            }
        } else {
            let ghost k = found->0;
            assert(ps.subrange(k as int, i + 1).drop_last() =~= ps.subrange(k as int, i as int));
            push_component(&mut rel, part);
        }
        i = i + 1;
    }
    proof {
        assert(ps.take(ps.len() as int) =~= ps);
        if found is Some {
            let k = found->0;
            assert(ps.subrange(k as int, ps.len() as int) =~= ps.skip(k as int));
        }
    }
    (string_of(&dir), string_of(&rel))
}

/// The game's folder in a Steam library: `steamapps/common/Team Fortress 2/tf`.
pub open spec fn tf_folder(steam_dir: Seq<char>) -> Seq<char> {
    path_push(
        path_push(path_push(path_push(steam_dir, "steamapps"@), "common"@), "Team Fortress 2"@),
        "tf"@,
    )
}

/// The game's folder in the Steam library at `steam_dir`.
pub fn tf_path(steam_dir: &str) -> (r: String)
    ensures
        r@ == tf_folder(steam_dir@),
{
    let a = join_path(steam_dir, "steamapps");
    let b = join_path(a.as_str(), "common");
    let c = join_path(b.as_str(), "Team Fortress 2");
    join_path(c.as_str(), "tf")
}

/// The console log the game writes, `console.log` in its folder.
pub fn log_path(steam_dir: &str) -> (r: String)
    ensures
        r@ == path_push(tf_folder(steam_dir@), "console.log"@),
{
    let tf = tf_path(steam_dir);
    join_path(tf.as_str(), "console.log")
}

} // verus!
