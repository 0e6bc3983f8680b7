//! Filing a finished recording: where its files go and under which names,
//! and what a demo's files are called.
use vstd::prelude::*;
use crate::paths::{extension_text, file_name_text, join_path, parent_text, path_extension, path_file_name, path_parent, path_push};
use crate::text::{chars_of, extend_chars, lemma_split_nonempty, split_chars, split_seq, starts_with, starts_with_seq, string_of, trim_end_matches, trim_end_matches_seq};

verus! {

/// The recorded path does not name a demo the recorder can file.
#[derive(Debug, Clone, Copy, PartialEq, Eq, Structural)]
pub struct InvalidDemoPath;

/// Where the files of a finished recording go.
#[derive(Debug, Clone)]
pub struct RecordPlan {
    /// The recording's name, `YYYY-MM-DD_HH-MM-SS`.
    pub name: String,
    /// The folder the game wrote the recording's files to.
    pub base_dir: String,
    /// The demo file, whose header names the map.
    pub header_file: String,
    /// The folder the files move to, `YYYY/YYYY-MM` under the base folder.
    pub target_dir: String,
}

/// The folder, relative to the base folder, for a recording named `name`:
/// `year/year-month`, from the first two `-`-separated pieces of the name;
/// `None` when the name has no `-`.
pub open spec fn date_folder(name: Seq<char>) -> Option<Seq<char>> {
    let pieces = split_seq(name, '-');
    if pieces.len() >= 2 {
        Some(pieces[0] + "/"@ + pieces[0] + "-"@ + pieces[1])
    } else {
        None
    }
}

/// The plan for the recording at `path`, `None` when it cannot be filed.
pub open spec fn record_plan(path: Seq<char>) -> Option<(Seq<char>, Seq<char>, Seq<char>, Seq<char>)> {
    match (path_file_name(path), path_parent(path)) {
        (Some(name), Some(base)) => match date_folder(name) {
            Some(folder) => Some((name, base, path_push(base, name + ".dem"@), path_push(base, folder))),
            None => None,
        },
        _ => None,
    }
}

/// The year/month folder of a recording named `name`.
pub fn date_folder_of(name: &str) -> (r: Option<String>)
    ensures
        r matches Some(f) ==> date_folder(name@) == Some(f@),
        r is None ==> date_folder(name@) is None,
{
    let nv = chars_of(name);
    let pieces = split_chars(&nv, '-');
    proof {
        lemma_split_nonempty(nv@, '-');
    }
    if pieces.len() < 2 {
        return None;
    }
    let mut out: Vec<char> = Vec::new();
    extend_chars(&mut out, &pieces[0]);
    out.push('/');
    extend_chars(&mut out, &pieces[0]);
    out.push('-');
    extend_chars(&mut out, &pieces[1]);
    proof {
        reveal_strlit("/");
        reveal_strlit("-");
        assert(out@ =~= date_folder(name@)->0);
    }
    Some(string_of(&out))
}

/// The extension of the file `path` names, empty when it has none.
pub open spec fn extension_or_empty(path: Seq<char>) -> Seq<char> {
    match path_extension(path) {
        Some(e) => e,
        None => Seq::empty(),
    }
}

impl RecordPlan {
    /// Plans the filing of the recording the game reported at `path`.
    pub fn new(path: &str) -> (r: Result<RecordPlan, InvalidDemoPath>)
        ensures
            r is Err <==> record_plan(path@) is None,
            r is Err <==> path_file_name(path@) is None || date_folder(path_file_name(path@)->0) is None,
            r matches Ok(p) ==> record_plan(path@) == Some(
                (p.name@, p.base_dir@, p.header_file@, p.target_dir@),
            ),
    {
        let name = match file_name_text(path) {
            Some(n) => n,
            None => {
                return Err(InvalidDemoPath);
            },
        };
        let base_dir = match parent_text(path) {
            Some(b) => b,
            None => {
                return Err(InvalidDemoPath);
            },
        };
        let folder = match date_folder_of(name.as_str()) {
            Some(f) => f,
            None => {
                return Err(InvalidDemoPath);
            },
        };
        let mut file = chars_of(name.as_str());
        let dem = chars_of(".dem");
        extend_chars(&mut file, &dem);
        let header_file = join_path(base_dir.as_str(), string_of(&file).as_str());
        let target_dir = join_path(base_dir.as_str(), folder.as_str());
        Ok(RecordPlan { name, base_dir, header_file, target_dir })
    }

    /// Whether the file named `entry_name` in the base folder belongs to the
    /// recording (its name starts with the recording's name).
    pub fn is_recording_file(&self, entry_name: &str) -> (r: bool)
        ensures
            r == starts_with_seq(entry_name@, self.name@),
    {
        starts_with(entry_name, self.name.as_str())
    }

    /// Where the recording's file `file_path` moves to on the map `map`:
    /// `name-map.extension` in the target folder, the extension empty when the
    /// file has none.
    pub fn moved_path(&self, file_path: &str, map: &str) -> (r: String)
        ensures
            r@ == path_push(
                self.target_dir@,
                self.name@ + "-"@ + map@ + "."@ + extension_or_empty(file_path@),
            ),
    {
        let ext = match extension_text(file_path) {
            Some(e) => e,
            None => String::new(),
        };
        let mut file = chars_of(self.name.as_str());
        file.push('-');
        extend_chars(&mut file, &chars_of(map));
        file.push('.');
        extend_chars(&mut file, &chars_of(ext.as_str()));
        proof {
            reveal_strlit("-");
            reveal_strlit(".");
        }
        assert(file@ =~= self.name@ + "-"@ + map@ + "."@ + extension_or_empty(file_path@));
        join_path(self.target_dir.as_str(), string_of(&file).as_str())
    }

    /// The moved demo without its extension, `name-map` in the target folder:
    /// the path whose highlights are then written.
    pub fn highlight_path(&self, map: &str) -> (r: String)
        ensures
            r@ == path_push(self.target_dir@, self.name@ + "-"@ + map@),
    {
        let mut file = chars_of(self.name.as_str());
        file.push('-');
        extend_chars(&mut file, &chars_of(map));
        proof {
            reveal_strlit("-");
        }
        assert(file@ =~= self.name@ + "-"@ + map@);
        join_path(self.target_dir.as_str(), string_of(&file).as_str())
    }
}

/// A demo path without its `.dem` extension, every trailing `.dem` removed.
pub fn highlight_demo_path(path: &str) -> (r: String)
    ensures
        r@ == trim_end_matches_seq(path@, ".dem"@),
{
    let pv = chars_of(path);
    let dem = chars_of(".dem");
    string_of(&trim_end_matches(&pv, &dem))
}

} // verus!
