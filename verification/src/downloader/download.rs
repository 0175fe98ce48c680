//! What a finished download reports, and the file-name rules of paths.
use vstd::prelude::*;

use crate::domain::metadata::svec;
use crate::text::{chars_of, copy_str, split, split_exec, str_eq, string_of};

verus! {

// ---------------------------------------------------------------------------
// Path names (`std::path::Path` on Unix, for paths given as text)
// ---------------------------------------------------------------------------

/// The last of `parts` that names something: not empty and not `.`.
pub open spec fn last_named(parts: Seq<Seq<char>>) -> Option<Seq<char>>
    decreases parts.len(),
{
    if parts.len() == 0 {
        None
    } else {
        let c = parts.last();
        if c.len() == 0 || c == "."@ {
            last_named(parts.drop_last())
        } else {
            Some(c)
        }
    }
}

/// `Path::file_name`: the last component of `p` when it is a normal one
/// (empty components and `.` are skipped; `..`, the root and an empty path
/// have none).
pub open spec fn path_file_name(p: Seq<char>) -> Option<Seq<char>> {
    match last_named(split(p, "/"@)) {
        Some(c) => if c == ".."@ {
            None
        } else {
            Some(c)
        },
        None => None,
    }
}

/// The position of the last `c` in `s`.
pub open spec fn last_index_of(s: Seq<char>, c: char) -> Option<int>
    decreases s.len(),
{
    if s.len() == 0 {
        None
    } else if s.last() == c {
        Some(s.len() - 1)
    } else {
        last_index_of(s.drop_last(), c)
    }
}

/// A file name split into its stem and its extension, at the last dot; a
/// name without a dot, a name whose only dot comes first, and `..` have no
/// extension.
pub open spec fn stem_and_extension(name: Seq<char>) -> (Seq<char>, Option<Seq<char>>) {
    if name == ".."@ {
        (name, None)
    } else {
        match last_index_of(name, '.') {
            None => (name, None),
            Some(i) => if i == 0 {
                (name, None)
            } else {
                (name.take(i), Some(name.skip(i + 1)))
            },
        }
    }
}

/// `Path::file_stem`.
pub open spec fn path_file_stem(p: Seq<char>) -> Option<Seq<char>> {
    match path_file_name(p) {
        Some(n) => Some(stem_and_extension(n).0),
        None => None,
    }
}

/// `Path::extension`.
pub open spec fn path_extension(p: Seq<char>) -> Option<Seq<char>> {
    match path_file_name(p) {
        Some(n) => stem_and_extension(n).1,
        None => None,
    }
}

/// The file name of a path, as `Path::file_name`.
pub fn file_name_of(p: &str) -> (r: Option<String>)
    ensures
        match r {
            Some(n) => path_file_name(p@) == Some(n@),
            None => path_file_name(p@) is None,
        },
{
    proof {
        reveal_strlit("/");
    }
    let parts = split_exec(p, "/");
    let ghost ps = split(p@, "/"@);
    assert(svec(parts@) =~= ps);
    assert(ps.take(ps.len() as int) =~= ps);
    let mut i: usize = parts.len();
    while i > 0
        invariant
            i <= parts@.len(),
            svec(parts@) == ps,
            ps == split(p@, "/"@),
            last_named(ps) == last_named(ps.take(i as int)),
        decreases i,
    {
        let c = parts[i - 1].as_str();
        assert(ps.take(i as int).drop_last() =~= ps.take(i - 1));
        assert(ps.take(i as int).last() == c@);
        if !c.is_empty() && !str_eq(c, ".") {
            if str_eq(c, "..") {
                return None;
            }
            return Some(copy_str(c));
        }
        i -= 1;
    }
    assert(ps.take(0) =~= Seq::<Seq<char>>::empty());
    None
}

/// A file name split into its stem and extension, as `Path::file_stem` and
/// `Path::extension` see it.
pub fn split_stem_extension(name: &str) -> (r: (String, Option<String>))
    ensures
        r.0@ == stem_and_extension(name@).0,
        match r.1 {
            Some(e) => stem_and_extension(name@).1 == Some(e@),
            None => stem_and_extension(name@).1 is None,
        },
{
    if str_eq(name, "..") {
        return (copy_str(name), None);
    }
    let v = chars_of(name);
    assert(v@.take(v@.len() as int) =~= v@);
    let mut i: usize = v.len();
    while i > 0
        invariant
            i <= v@.len(),
            v@ == name@,
            name@ != ".."@,
            last_index_of(name@, '.') == last_index_of(v@.take(i as int), '.'),
        decreases i,
    {
        assert(v@.take(i as int).drop_last() =~= v@.take(i - 1));
        assert(v@.take(i as int).last() == v@[i - 1]);
        if v[i - 1] == '.' {
            let j = i - 1;
            if j == 0 {
                return (copy_str(name), None);
            }
            let stem = string_of(&v, 0, j);
            let ext = string_of(&v, i, v.len());
            assert(stem@ =~= name@.take(j as int));
            assert(ext@ =~= name@.skip(j + 1));
            return (stem, Some(ext));
        }
        i -= 1;
    }
    assert(v@.take(0) =~= Seq::<char>::empty());
    (copy_str(name), None)
}

// ---------------------------------------------------------------------------
// Finished downloads
// ---------------------------------------------------------------------------

/// What a finished download reports.
#[derive(Clone, Debug)]
pub struct DownloadedFileInfo {
    /// Where the file was saved.
    pub file_path: String,
    pub bytes_written: u64,
    /// The file name of the saved file.
    pub filename: String,
}

/// The report of a download saved at `destination_path`: its file name, or
/// `unknown` when the path names none.
pub open spec fn download_report(destination_path: Seq<char>, bytes_written: u64) -> (
    Seq<char>,
    u64,
    Seq<char>,
) {
    (
        destination_path,
        bytes_written,
        match path_file_name(destination_path) {
            Some(n) => n,
            None => "unknown"@,
        },
    )
}

impl DownloadedFileInfo {
    /// The report of a download of `bytes_written` bytes saved at
    /// `destination_path`.
    pub fn finished(destination_path: &str, bytes_written: u64) -> (r: Self)
        ensures
            (r.file_path@, r.bytes_written, r.filename@) == download_report(
                destination_path@,
                bytes_written,
            ),
    {
        let filename = match file_name_of(destination_path) {
            Some(n) => n,
            None => String::from_str("unknown"),
        };
        DownloadedFileInfo { file_path: copy_str(destination_path), bytes_written, filename }
    }
}

/// Saves files from the web.
pub struct FileDownloader {
    pub client: reqwest::Client,
}

impl FileDownloader {
    /// A downloader that sends its requests with `client`.
    pub fn new(client: reqwest::Client) -> (r: Self)
        ensures
            r.client == client,
    {
        FileDownloader { client }
    }
}

} // verus!
