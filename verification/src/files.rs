//! Files that the tool writes, described as plain values so that the text of
//! each one is fixed before anything touches the disk.

use vstd::prelude::*;
use crate::text::{last_index_of, rfind_char, str_equal};

verus! {

/// A file to write: where, and what it holds.
pub struct PlannedFile {
    pub path: String,
    pub content: String,
}

/// The model of a planned file: its path and its text.
pub struct FileModel {
    pub path: Seq<char>,
    pub content: Seq<char>,
}

impl View for PlannedFile {
    type V = FileModel;

    open spec fn view(&self) -> FileModel {
        FileModel { path: self.path@, content: self.content@ }
    }
}

/// The models of a list of planned files.
pub open spec fn file_models(files: Seq<PlannedFile>) -> Seq<FileModel> {
    files.map_values(|f: PlannedFile| f@)
}

/// The extension of a file name, as `Path::extension` gives it: the part
/// after the last `.`, none when there is no `.` or the only one starts the
/// name.
pub open spec fn extension_of(name: Seq<char>) -> Option<Seq<char>> {
    match last_index_of(name, '.') {
        Some(i) => if i == 0 {
            None
        } else {
            Some(name.subrange(i + 1, name.len() as int))
        },
        None => None,
    }
}

/// The stem of a file name, as `Path::file_stem` gives it: the part before
/// the last `.`, the whole name when there is no `.` or the only one starts
/// the name.
pub open spec fn file_stem_of(name: Seq<char>) -> Seq<char> {
    match last_index_of(name, '.') {
        Some(i) => if i == 0 {
            name
        } else {
            name.subrange(0, i)
        },
        None => name,
    }
}

/// The extension of a file name.
pub fn file_extension(name: &str) -> (r: Option<&str>)
    ensures
        r matches Some(e) ==> extension_of(name@) == Some(e@),
        r is None ==> extension_of(name@) is None,
{
    let n = name.unicode_len();
    match rfind_char(name, '.') {
        Some(i) => if i == 0 {
            None
        } else {
            Some(name.substring_char(i + 1, n))
        },
        None => None,
    }
}

/// The stem of a file name.
pub fn file_stem(name: &str) -> (r: &str)
    ensures
        r@ == file_stem_of(name@),
{
    match rfind_char(name, '.') {
        Some(i) => if i == 0 {
            name
        } else {
            name.substring_char(0, i)
        },
        None => name,
    }
}

/// A directory entry as the search for TypeScript files sees it: its path
/// (none when it is not valid Unicode), its file name, and whether it is a
/// file.
pub struct DirEntryInfo {
    pub path: Option<String>,
    pub file_name: Option<String>,
    pub is_file: bool,
}

/// The entry is a TypeScript file with a path that can be kept.
pub open spec fn is_ts_entry(e: DirEntryInfo) -> bool {
    &&& e.is_file
    &&& e.path is Some
    &&& match e.file_name {
        Some(n) => extension_of(n@) == Some("ts"@),
        None => false,
    }
}

/// The paths of the TypeScript files among the entries, in order.
pub open spec fn ts_paths(es: Seq<DirEntryInfo>) -> Seq<Seq<char>>
    decreases es.len(),
{
    if es.len() == 0 {
        seq![]
    } else if is_ts_entry(es.last()) {
        ts_paths(es.drop_last()).push(es.last().path->0@)
    } else {
        ts_paths(es.drop_last())
    }
}

/// The paths of the entries that are files with the extension `ts`, in the
/// order of the entries.
pub fn find_ts_files(entries: &Vec<DirEntryInfo>) -> (r: Vec<String>)
    ensures
        r.deep_view() == ts_paths(entries@),
{
    let mut out: Vec<String> = Vec::new();
    let mut i: usize = 0;
    assert(entries@.subrange(0, 0) =~= Seq::<DirEntryInfo>::empty());
    assert(out.deep_view() =~= Seq::<Seq<char>>::empty());
    while i < entries.len()
        invariant
            i <= entries.len(),
            out.deep_view() == ts_paths(entries@.subrange(0, i as int)),
        decreases entries.len() - i,
    {
        let ghost prefix = entries@.subrange(0, i as int + 1);
        assert(prefix.drop_last() =~= entries@.subrange(0, i as int));
        assert(prefix.last() == entries@[i as int]);
        let e = &entries[i];
        if e.is_file {
            match (&e.path, &e.file_name) {
                (Some(p), Some(n)) => {
                    match file_extension(n.as_str()) {
                        Some(ext) => {
                            if str_equal(ext, "ts") {
                                let ghost before = out.deep_view();
                                out.push(p.clone());
                                assert(out.deep_view() =~= before.push(p@));
                            }
                        },
                        None => {},
                    }
                },
                _ => {},
            }
        }
        i = i + 1;
    }
    assert(entries@.subrange(0, entries.len() as int) =~= entries@);
    out
}

} // verus!
