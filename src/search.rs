//! The search path: its directories, the file each would hold for a command
//! name, and the first of those that is present.
use vstd::prelude::*;

use crate::command::ShellCommand;
use crate::text::{chars_of, views};

verus! {

/// The separator between the directories of a search path.
pub const PATH_SEPARATOR: char = ':';

/// The `:`-separated parts of `s`, where `cur` is the part read so far.
pub open spec fn segments_from(s: Seq<char>, cur: Seq<char>) -> Seq<Seq<char>>
    decreases s.len(),
{
    if s.len() == 0 {
        seq![cur]
    } else if s[0] == PATH_SEPARATOR {
        seq![cur] + segments_from(s.drop_first(), seq![])
    } else {
        segments_from(s.drop_first(), cur.push(s[0]))
    }
}

/// The directories of a search path, in order: an empty path has none, any
/// other is split at each `:`.
pub open spec fn search_dirs(path: Seq<char>) -> Seq<Seq<char>> {
    if path.len() == 0 {
        seq![]
    } else {
        segments_from(path, seq![])
    }
}

/// The file that directory `dir` would hold for the command `name`.
pub open spec fn join(dir: Seq<char>, name: Seq<char>) -> Seq<char> {
    dir + seq!['/'] + name
}

/// The files to look for, in order, when searching `path` for `name`; an
/// empty name names no file.
pub open spec fn candidates(path: Seq<char>, name: Seq<char>) -> Seq<Seq<char>> {
    if name.len() == 0 {
        seq![]
    } else {
        search_dirs(path).map_values(|d: Seq<char>| join(d, name))
    }
}

/// The first of `files` that `present` marks, if any.
pub open spec fn first_present(files: Seq<Seq<char>>, present: Seq<bool>) -> Option<Seq<char>>
    decreases files.len(),
{
    if files.len() == 0 || present.len() == 0 {
        None
    } else if present[0] {
        Some(files[0])
    } else {
        first_present(files.drop_first(), present.drop_first())
    }
}

/// The view of an optional string.
pub open spec fn opt_view(o: Option<String>) -> Option<Seq<char>> {
    match o {
        Some(s) => Some(s@),
        None => None,
    }
}

/// The directories of the search path `path`, in order.
pub fn split_search_path(path: &str) -> (r: Vec<String>)
    ensures
        views(r@) == search_dirs(path@),
{
    let v = chars_of(path);
    let n = v.len();
    let mut out: Vec<String> = Vec::new();
    if n == 0 {
        assert(views(out@) =~= Seq::<Seq<char>>::empty());
        return out;
    }
    let mut start: usize = 0;
    let mut i: usize = 0;
    assert(path@.subrange(0, n as int) =~= path@);
    assert(path@.subrange(0, 0) =~= Seq::<char>::empty());
    assert(views(out@) =~= Seq::<Seq<char>>::empty());
    while i < n
        invariant
            start <= i <= n == path@.len(),
            v@ == path@,
            views(out@) + segments_from(
                path@.subrange(i as int, n as int),
                path@.subrange(start as int, i as int),
            ) == search_dirs(path@),
        decreases n - i,
    {
        let ghost cur = path@.subrange(start as int, i as int);
        assert(path@.subrange(i as int, n as int).drop_first() =~= path@.subrange(i + 1, n as int));
        if v[i] == PATH_SEPARATOR {
            let d = String::from_str(path.substring_char(start, i));
            let ghost before = out@;
            out.push(d);
            assert(views(out@) =~= views(before) + seq![cur]);
            assert(path@.subrange(i + 1, i + 1) =~= Seq::<char>::empty());
            assert(views(out@) + segments_from(path@.subrange(i + 1, n as int), seq![]) =~= views(
                before,
            ) + (seq![cur] + segments_from(path@.subrange(i + 1, n as int), seq![])));
            i = i + 1;
            start = i;
        } else {
            assert(cur.push(v@[i as int]) =~= path@.subrange(start as int, i + 1));
            i = i + 1;
        }
    }
    assert(path@.subrange(n as int, n as int) =~= Seq::<char>::empty());
    let d = String::from_str(path.substring_char(start, n));
    let ghost before = out@;
    out.push(d);
    assert(views(out@) =~= views(before) + seq![path@.subrange(start as int, n as int)]);
    out
}

/// The first of `files` that `present` marks, if any.
pub fn pick_first(files: &Vec<String>, present: &Vec<bool>) -> (r: Option<String>)
    requires
        present@.len() == files@.len(),
    ensures
        opt_view(r) == first_present(views(files@), present@),
{
    let n = files.len();
    let mut i: usize = 0;
    assert(views(files@).subrange(0, n as int) =~= views(files@));
    assert(present@.subrange(0, n as int) =~= present@);
    while i < n
        invariant
            i <= n == files@.len() == present@.len(),
            first_present(views(files@), present@) == first_present(
                views(files@).subrange(i as int, n as int),
                present@.subrange(i as int, n as int),
            ),
        decreases n - i,
    {
        let ghost fs = views(files@).subrange(i as int, n as int);
        let ghost ps = present@.subrange(i as int, n as int);
        assert(fs[0] == files@[i as int]@);
        if present[i] {
            return Some(files[i].clone());
        }
        assert(fs.drop_first() =~= views(files@).subrange(i + 1, n as int));
        assert(ps.drop_first() =~= present@.subrange(i + 1, n as int));
        i = i + 1;
    }
    None
}

impl ShellCommand {
    /// The files to look for, in order, when searching the search path `path`
    /// for this command.
    pub fn candidate_paths(&self, path: &str) -> (r: Vec<String>)
        ensures
            views(r@) == candidates(path@, self.name@),
    {
        let mut out: Vec<String> = Vec::new();
        if self.name.as_str().unicode_len() == 0 {
            assert(views(out@) =~= Seq::<Seq<char>>::empty());
            return out;
        }
        let dirs = split_search_path(path);
        let ghost ds = views(dirs@);
        let n = dirs.len();
        let mut i: usize = 0;
        while i < n
            invariant
                i <= n == dirs@.len(),
                ds == views(dirs@),
                self.name@.len() > 0,
                views(out@) =~= ds.subrange(0, i as int).map_values(
                    |d: Seq<char>| join(d, self.name@),
                ),
            decreases n - i,
        {
            let f = dirs[i].clone().concat("/").concat(self.name.as_str());
            proof {
                reveal_strlit("/");
                assert("/"@ =~= seq!['/']);
                assert(f@ =~= join(ds[i as int], self.name@));
            }
            let ghost before = out@;
            out.push(f);
            assert(views(out@) =~= views(before) + seq![join(ds[i as int], self.name@)]);
            assert(ds.subrange(0, i + 1) =~= ds.subrange(0, i as int).push(ds[i as int]));
            i = i + 1;
        }
        assert(ds.subrange(0, n as int) =~= ds);
        out
    }

    /// The first file that the search path `path` holds for this command,
    /// where `present[i]` tells whether the `i`-th candidate exists.
    pub fn get_path(&self, path: &str, present: &Vec<bool>) -> (r: Option<String>)
        requires
            present@.len() == candidates(path@, self.name@).len(),
        ensures
            opt_view(r) == first_present(candidates(path@, self.name@), present@),
    {
        let files = self.candidate_paths(path);
        assert(files@.len() == views(files@).len());
        pick_first(&files, present)
    }
}

} // verus!
