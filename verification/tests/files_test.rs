use cargo_tsn::files::{file_extension, file_stem, find_ts_files, DirEntryInfo};

fn entry(path: &str, name: &str, is_file: bool) -> DirEntryInfo {
    DirEntryInfo { path: Some(path.to_string()), file_name: Some(name.to_string()), is_file }
}

#[test]
fn extensions_and_stems_follow_path() {
    assert_eq!(file_extension("main.ts"), Some("ts"));
    assert_eq!(file_extension("archive.tar.gz"), Some("gz"));
    assert_eq!(file_extension(".ts"), None);
    assert_eq!(file_extension("README"), None);
    assert_eq!(file_extension("dot."), Some(""));
    assert_eq!(file_stem("main.ts"), "main");
    assert_eq!(file_stem("archive.tar.gz"), "archive.tar");
    assert_eq!(file_stem(".ts"), ".ts");
    assert_eq!(file_stem("README"), "README");
}

#[test]
fn only_typescript_files_are_found() {
    let entries = vec![
        entry("./main.ts", "main.ts", true),
        entry("./lib.rs", "lib.rs", true),
        entry("./dir.ts", "dir.ts", false),
        entry("./.ts", ".ts", true),
        DirEntryInfo { path: None, file_name: Some("bad.ts".to_string()), is_file: true },
        entry("./worker.ts", "worker.ts", true),
        entry("./types.d.ts", "types.d.ts", true),
    ];
    assert_eq!(find_ts_files(&entries), vec!["./main.ts", "./worker.ts", "./types.d.ts"]);
    assert_eq!(find_ts_files(&vec![]), Vec::<String>::new());
}
