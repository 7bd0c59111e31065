//! Which files of a source directory make a worker reload, and where its script is kept.

use crate::digest::{hex_text, sha256, sha256_digest, to_hex};
use crate::text::{chars_of, join3, same_text, text_between};
use vstd::prelude::*;

verus! {

/// The place behind the last `c` in `s`, or zero.
pub open spec fn behind_last(s: Seq<char>, c: char) -> int
    decreases s.len(),
{
    if s.len() == 0 {
        0
    } else if s.last() == c {
        s.len() as int
    } else {
        behind_last(s.drop_last(), c)
    }
}

/// A path without the slashes and the empty steps at its end: a slash, or a slash and a dot.
pub open spec fn without_end(path: Seq<char>) -> Seq<char>
    decreases path.len(),
{
    if path.len() > 1 && path.last() == '/' {
        without_end(path.drop_last())
    } else if path.len() > 1 && path.last() == '.' && path[path.len() - 2] == '/' {
        without_end(path.drop_last())
    } else {
        path
    }
}

/// The last step of a path, which is no name where it leads upwards or nowhere.
pub open spec fn last_step(path: Seq<char>) -> Seq<char> {
    let p = without_end(path);
    p.skip(behind_last(p, '/'))
}

/// The name of the file or directory that a path leads to, if it has one.
pub open spec fn file_name_of(path: Seq<char>) -> Option<Seq<char>> {
    let step = last_step(path);
    if step.len() == 0 || step == seq!['.'] || step == seq!['.', '.'] {
        None
    } else {
        Some(step)
    }
}

/// What stands behind the last dot of a file's name, if there is a dot that is not its first
/// character.
pub open spec fn extension_of(path: Seq<char>) -> Option<Seq<char>> {
    match file_name_of(path) {
        None => None,
        Some(name) => {
            let at = behind_last(name, '.');
            if at <= 1 {
                None
            } else {
                Some(name.skip(at))
            }
        },
    }
}

fn find_behind_last(chars: &Vec<char>, from: usize, to: usize, c: char) -> (r: usize)
    requires
        from <= to <= chars@.len(),
    ensures
        from <= r <= to,
        r - from == behind_last(chars@.subrange(from as int, to as int), c),
{
    let ghost all = chars@.subrange(from as int, to as int);
    let mut i: usize = to;
    while i > from && chars[i - 1] != c
        invariant
            from <= i <= to <= chars@.len(),
            all == chars@.subrange(from as int, to as int),
            behind_last(all, c) == behind_last(chars@.subrange(from as int, i as int), c),
        decreases i,
    {
        assert(chars@.subrange(from as int, i as int).drop_last() =~= chars@.subrange(
            from as int,
            i - 1,
        ));
        i -= 1;
    }
    assert(i == from ==> chars@.subrange(from as int, i as int).len() == 0);
    i
}

fn find_end(chars: &Vec<char>) -> (r: usize)
    ensures
        r <= chars@.len(),
        chars@.take(r as int) == without_end(chars@),
{
    let mut end: usize = chars.len();
    assert(chars@.take(end as int) =~= chars@);
    while end > 1 && (chars[end - 1] == '/' || (chars[end - 1] == '.' && chars[end - 2] == '/'))
        invariant
            end <= chars@.len(),
            without_end(chars@) == without_end(chars@.take(end as int)),
        decreases end,
    {
        assert(chars@.take(end as int).drop_last() =~= chars@.take(end - 1));
        assert(chars@.take(end as int)[end - 2] == chars@[end - 2]);
        end -= 1;
    }
    end
}

fn find_name(chars: &Vec<char>) -> (r: Option<(usize, usize)>)
    ensures
        r is Some == file_name_of(chars@) is Some,
        r matches Some((from, to)) ==> from < to <= chars@.len() && file_name_of(chars@) == Some(
            chars@.subrange(from as int, to as int),
        ),
{
    let to: usize = find_end(chars);
    let from: usize = find_behind_last(chars, 0, to, '/');
    let ghost step = chars@.subrange(from as int, to as int);
    proof {
        assert(chars@.subrange(0, to as int) =~= chars@.take(to as int));
        assert(last_step(chars@) =~= step);
    }
    if from == to {
        return None;
    }
    if to - from == 1 && chars[from] == '.' {
        assert(step =~= seq!['.']);
        return None;
    }
    if to - from == 2 && chars[from] == '.' && chars[from + 1] == '.' {
        assert(step =~= seq!['.', '.']);
        return None;
    }
    proof {
        if step == seq!['.'] {
            assert(step[0] == '.');
        }
        if step == seq!['.', '.'] {
            assert(step[0] == '.' && step[1] == '.');
        }
    }
    Some((from, to))
}

/// The name of the file or directory that a path leads to.
pub fn file_name(path: &str) -> (r: Option<String>)
    ensures
        r.deep_view() == file_name_of(path@),
{
    let chars = chars_of(path);
    match find_name(&chars) {
        Some((from, to)) => Some(text_between(&chars, from, to)),
        None => None,
    }
}

/// What stands behind the last dot of a file's name.
pub fn extension(path: &str) -> (r: Option<String>)
    ensures
        r.deep_view() == extension_of(path@),
{
    let chars = chars_of(path);
    match find_name(&chars) {
        Some((from, to)) => {
            let at: usize = find_behind_last(&chars, from, to, '.');
            if at - from <= 1 {
                None
            } else {
                let text = text_between(&chars, at, to);
                assert(text@ =~= chars@.subrange(from as int, to as int).skip(at - from));
                Some(text)
            }
        },
        None => None,
    }
}

/// Whether a directory is not looked into.
pub open spec fn ignores_dir(path: Seq<char>) -> bool {
    let name = file_name_of(path);
    name == Some("node_modules"@) || name == Some(".git"@) || name == Some(".firebase"@) || name
        == Some("coverage"@)
}

/// Whether a directory is not looked into.
pub fn should_ignore_dir(path: &str) -> (r: bool)
    ensures
        r == ignores_dir(path@),
{
    match file_name(path) {
        Some(name) => {
            let name: &str = name.as_str();
            same_text(name, "node_modules") || same_text(name, ".git") || same_text(
                name,
                ".firebase",
            ) || same_text(name, "coverage")
        },
        None => false,
    }
}

/// Whether a change of a file makes the worker reload.
pub open spec fn watches_file(path: Seq<char>) -> bool {
    let ext = extension_of(path);
    ext == Some("js"@) || ext == Some("cjs"@) || ext == Some("mjs"@) || ext == Some("json"@) || ext
        == Some("ts"@) || ext == Some("tsx"@)
}

/// Whether a change of a file makes the worker reload.
pub fn should_watch_file(path: &str) -> (r: bool)
    ensures
        r == watches_file(path@),
{
    match extension(path) {
        Some(ext) => {
            let ext: &str = ext.as_str();
            same_text(ext, "js") || same_text(ext, "cjs") || same_text(ext, "mjs") || same_text(
                ext,
                "json",
            ) || same_text(ext, "ts") || same_text(ext, "tsx")
        },
        None => false,
    }
}

/// What is done with an entry of a directory that is looked into.
#[derive(Clone, Copy, PartialEq, Eq, Structural, Debug)]
pub enum Visit {
    /// It is a directory to look into.
    Descend,
    /// It is a file whose changes count.
    Watch,
    /// It is passed over.
    Skip,
}

/// What is done with an entry of a directory.
pub open spec fn visit_of(path: Seq<char>, is_dir: bool, is_file: bool) -> Visit {
    if is_dir {
        if ignores_dir(path) {
            Visit::Skip
        } else {
            Visit::Descend
        }
    } else if is_file && watches_file(path) {
        Visit::Watch
    } else {
        Visit::Skip
    }
}

/// What is done with an entry of a directory that is looked into.
pub fn visit_entry(path: &str, is_dir: bool, is_file: bool) -> (r: Visit)
    ensures
        r == visit_of(path@, is_dir, is_file),
{
    if is_dir {
        if should_ignore_dir(path) {
            Visit::Skip
        } else {
            Visit::Descend
        }
    } else if is_file && should_watch_file(path) {
        Visit::Watch
    } else {
        Visit::Skip
    }
}

/// The name of the file that holds the script of the worker: it tells the version, and the start
/// of the digest of the script.
pub open spec fn script_named(version: Seq<char>, digest: Seq<u8>) -> Seq<char> {
    "functions_worker-"@ + version + "-"@ + hex_text(digest).take(16) + ".cjs"@
}

/// The name of the file that holds the script of the worker, by the digest of the script.
pub fn script_name(version: &str, digest: &Vec<u8>) -> (r: String)
    requires
        digest@.len() >= 8,
    ensures
        r@ == script_named(version@, digest@),
{
    let hash = chars_of(to_hex(digest).as_str());
    let mut r = join3("functions_worker-", version, "-");
    r.append(text_between(&hash, 0, 16).as_str());
    r.append(".cjs");
    assert(hex_text(digest@).subrange(0, 16) =~= hex_text(digest@).take(16));
    r
}

/// The name of the file that holds the script of the worker.
pub fn worker_file_name(version: &str, script: &[u8]) -> (r: String)
    ensures
        r@ == script_named(version@, sha256(script@)),
{
    script_name(version, &sha256_digest(script))
}

proof fn behind_last_of(a: Seq<char>, c: char, b: Seq<char>)
    requires
        !b.contains(c),
    ensures
        behind_last(a + seq![c] + b, c) == a.len() + 1,
    decreases b.len(),
{
    let s = a + seq![c] + b;
    if b.len() == 0 {
        assert(s.last() == c);
    } else {
        let rest = b.drop_last();
        assert(s.last() == b.last());
        assert(b.contains(b.last()));
        assert(s.drop_last() =~= a + seq![c] + rest);
        assert forall|i: int| 0 <= i < rest.len() implies rest[i] != c by {
            assert(b.contains(b[i]));
        }
        behind_last_of(a, c, rest);
    }
}

proof fn behind_none(s: Seq<char>, c: char)
    requires
        !s.contains(c),
    ensures
        behind_last(s, c) == 0,
    decreases s.len(),
{
    if s.len() > 0 {
        let rest = s.drop_last();
        assert(s.contains(s.last()));
        assert forall|i: int| 0 <= i < rest.len() implies rest[i] != c by {
            assert(s.contains(s[i]));
        }
        behind_none(rest, c);
    }
}

/// The name of a file is what stands behind the last slash of its path, and its extension what
/// stands behind the last dot of its name, unless the name starts with that dot or has none.
pub proof fn path_ends_in_name(dir: Seq<char>, name: Seq<char>, stem: Seq<char>, ext: Seq<char>)
    requires
        name.len() > 0,
        !name.contains('/'),
        name != seq!['.'],
        name != seq!['.', '.'],
        !ext.contains('.'),
    ensures
        file_name_of(dir + seq!['/'] + name) == Some(name),
        stem.len() > 0 && name == stem + seq!['.'] + ext ==> extension_of(dir + seq!['/'] + name)
            == Some(ext),
        !name.contains('.') ==> extension_of(dir + seq!['/'] + name) is None,
        name == seq!['.'] + ext ==> extension_of(dir + seq!['/'] + name) is None,
{
    let path = dir + seq!['/'] + name;
    assert(path.last() == name.last());
    assert(name.contains(name.last()));
    if name.len() == 1 {
        assert(name =~= seq![name[0]]);
    } else {
        assert(path[path.len() - 2] == name[name.len() - 2]);
        assert(name.contains(name[name.len() - 2]));
    }
    assert(without_end(path) == path);
    behind_last_of(dir, '/', name);
    assert(path.skip(dir.len() as int + 1) =~= name);
    if stem.len() > 0 && name == stem + seq!['.'] + ext {
        behind_last_of(stem, '.', ext);
        assert(name.skip(stem.len() as int + 1) =~= ext);
    }
    if !name.contains('.') {
        behind_none(name, '.');
    }
    if name == seq!['.'] + ext {
        assert(name =~= Seq::<char>::empty() + seq!['.'] + ext);
        behind_last_of(Seq::empty(), '.', ext);
    }
}

/// Which directories are passed over and the changes of which files count.
pub proof fn files_of_source_count(path: Seq<char>)
    ensures
        ignores_dir(path) <==> file_name_of(path) is Some && seq![
            "node_modules"@,
            ".git"@,
            ".firebase"@,
            "coverage"@,
        ].contains(file_name_of(path)->0),
        watches_file(path) <==> extension_of(path) is Some && seq![
            "js"@,
            "cjs"@,
            "mjs"@,
            "json"@,
            "ts"@,
            "tsx"@,
        ].contains(extension_of(path)->0),
{
    let dirs = seq!["node_modules"@, ".git"@, ".firebase"@, "coverage"@];
    assert(dirs[0] == "node_modules"@ && dirs[1] == ".git"@ && dirs[2] == ".firebase"@ && dirs[3]
        == "coverage"@);
    let ends = seq!["js"@, "cjs"@, "mjs"@, "json"@, "ts"@, "tsx"@];
    assert(ends[0] == "js"@ && ends[1] == "cjs"@ && ends[2] == "mjs"@ && ends[3] == "json"@
        && ends[4] == "ts"@ && ends[5] == "tsx"@);
}

/// A directory is looked into unless it is passed over, and a file counts if its changes do.
pub proof fn entry_is_visited(path: Seq<char>, is_dir: bool, is_file: bool)
    ensures
        visit_of(path, is_dir, is_file) == Visit::Descend <==> is_dir && !ignores_dir(path),
        visit_of(path, is_dir, is_file) == Visit::Watch <==> !is_dir && is_file && watches_file(
            path,
        ),
{
}

/// The file of a worker's script is named by the program's version and by the start of the script's
/// digest.
pub proof fn script_is_named_by_digest(version: Seq<char>, digest: Seq<u8>)
    requires
        digest.len() >= 8,
    ensures
        script_named(version, digest) == "functions_worker-"@ + version + "-"@ + hex_text(
            digest.take(8),
        ) + ".cjs"@,
{
    assert(hex_text(digest).take(16) =~= hex_text(digest.take(8)));
}

} // verus!
