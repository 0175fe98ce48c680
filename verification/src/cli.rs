//! The command line: its commands and options, and the choices and texts of
//! running them.
use vstd::prelude::*;

use crate::downloader::download::{
    file_name_of, path_extension, path_file_stem, split_stem_extension,
    };
use crate::text::{append, copy_str, decimal, u64_to_decimal};

verus! {

/// The command line.
#[derive(Clone, Debug)]
pub struct Cli {
    pub command: Commands,
    /// A mirror to use instead of discovering one.
    pub base_url: Option<String>,
    /// The key for fast downloads.
    pub secret_key: Option<String>,
    /// The folder where downloads are saved.
    pub download_path: Option<String>,
    /// The request timeout in seconds.
    pub timeout: Option<u64>,
}

/// What the command line asks for.
#[derive(Clone, Debug)]
pub enum Commands {
    /// Serve the Model Context Protocol over standard input and output.
    Mcp,
    /// Search for books.
    BookSearch { query: String, limit: Option<usize> },
    /// Download a book by its MD5 hash, optionally under a file name and into a folder.
    BookDownload { hash: String, filename: Option<String>, output_dir: Option<String> },
    /// Search for articles, or look up a DOI.
    ArticleSearch { query: String, limit: Option<usize> },
    /// Download an article by its DOI.
    ArticleDownload { doi: String, output_dir: Option<String> },
    /// Show the full record of an item.
    Details { hash: String },
    /// Show the active mirror and the health of the candidates.
    MirrorStatus,
}

/// The title and format under which a book is saved: the stem and extension
/// of the requested file name (`untitled` and `bin` when it has none), else
/// the hash and `bin`.
pub open spec fn download_name_spec(hash: Seq<char>, filename: Option<Seq<char>>) -> (
    Seq<char>,
    Seq<char>,
) {
    match filename {
        Some(f) => (
            match path_file_stem(f) {
                Some(s) => s,
                None => "untitled"@,
            },
            match path_extension(f) {
                Some(e) => e,
                None => "bin"@,
            },
        ),
        None => (hash, "bin"@),
    }
}

/// The title and format under which a downloaded book is saved.
pub fn download_name(hash: &str, filename: Option<&str>) -> (r: (String, String))
    ensures
        (r.0@, r.1@) == download_name_spec(
            hash@,
            match filename {
                Some(f) => Some(f@),
                None => None,
            },
        ),
{
    match filename {
        Some(f) => match file_name_of(f) {
            Some(n) => {
                let (stem, ext) = split_stem_extension(n.as_str());
                let ext = match ext {
                    Some(e) => e,
                    None => String::from_str("bin"),
                };
                (stem, ext)
            },
            None => (String::from_str("untitled"), String::from_str("bin")),
        },
        None => (copy_str(hash), String::from_str("bin")),
    }
}

/// How the health of a mirror reads: `UP` when its last check succeeded,
/// `DOWN` when it failed, `UNKNOWN` otherwise.
pub open spec fn status_label_spec(last_status: i32) -> Seq<char> {
    if last_status == 1 {
        "UP"@
    } else if last_status == 0 {
        "DOWN"@
    } else {
        "UNKNOWN"@
    }
}

/// How the health of a mirror reads.
pub fn status_label(last_status: i32) -> (r: String)
    ensures
        r@ == status_label_spec(last_status),
{
    if last_status == 1 {
        String::from_str("UP")
    } else if last_status == 0 {
        String::from_str("DOWN")
    } else {
        String::from_str("UNKNOWN")
    }
}

/// The line that separates two listed results.
pub const RESULT_SEPARATOR: &'static str = "\n----------------------------------------\n";

/// The blocks that list results: each numbered result, and the separator
/// after every result but the last.
pub open spec fn listing_blocks(label: Seq<char>, summaries: Seq<Seq<char>>) -> Seq<Seq<char>>
    decreases summaries.len(),
{
    if summaries.len() == 0 {
        seq![]
    } else {
        let prev = listing_blocks(label, summaries.drop_last());
        let k = summaries.len();
        let entry = label + " #"@ + decimal(k as nat) + ":\n"@ + summaries.last();
        if k > 1 {
            prev.push(RESULT_SEPARATOR@).push(entry)
        } else {
            prev.push(entry)
        }
    }
}

/// The blocks that list results on the command line, one printed per line.
pub fn listing(label: &str, summaries: &Vec<String>) -> (r: Vec<String>)
    ensures
        r@.map_values(|s: String| s@) == listing_blocks(
            label@,
            summaries@.map_values(|s: String| s@),
        ),
{
    let ghost sv = summaries@.map_values(|s: String| s@);
    let mut r: Vec<String> = Vec::new();
    let mut i: usize = 0;
    while i < summaries.len()
        invariant
            0 <= i <= summaries.len(),
            sv == summaries@.map_values(|s: String| s@),
            r@.map_values(|s: String| s@) == listing_blocks(label@, sv.take(i as int)),
        decreases summaries.len() - i,
    {
        let ghost before = r@;
        let ghost t = sv.take(i + 1);
        assert(t.drop_last() =~= sv.take(i as int));
        assert(t.last() == summaries@[i as int]@);
        if i > 0 {
            r.push(String::from_str(RESULT_SEPARATOR));
        }
        let mut e = copy_str(label);
        append(&mut e, " #");
        append(&mut e, u64_to_decimal((i as u64) + 1).as_str());
        append(&mut e, ":\n");
        append(&mut e, summaries[i].as_str());
        r.push(e);
        proof {
            if i > 0 {
                assert(r@.map_values(|s: String| s@) =~= before.map_values(|s: String| s@).push(
                    RESULT_SEPARATOR@,
                ).push(e@));
            } else {
                assert(r@.map_values(|s: String| s@) =~= before.map_values(|s: String| s@).push(e@));
            }
        }
        i += 1;
    }
    assert(sv.take(summaries.len() as int) =~= sv);
    r
}

} // verus!
