use zip::compression::CompressionMethod;
use zip::extract::{
    chunk_ranges, extract_action, normalize, spools_in_memory, CompletedPaths, EntryKind,
    SPOOL_THRESHOLD, UNCOMPRESSED_SPOOL_THRESHOLD,
};
use zip::path::{ancestors, check_enclosed, has_trailing_slash, mangle};
use zip::read::ZipArchive;
use zip::result::ZipError;
use zip::spool::{IntermediateFile, SeekTo};
use zip::write::{FileOptions, ZipWriter};

fn archive_of(names: &[&str]) -> ZipArchive {
    let mut zip = ZipWriter::new();
    for name in names {
        let options = FileOptions::default().compression_method(CompressionMethod::Stored);
        zip.start_file(name, options).unwrap();
        zip.write_all(name.as_bytes()).unwrap();
    }
    ZipArchive::new(zip.finish().unwrap()).unwrap()
}

#[test]
fn enclosed_names() {
    for name in ["a", "a/b", "a/../b", "./a", "a/./b/", "", ".", "a//b", "a/b/../../c", "..a/b"] {
        assert!(check_enclosed(name), "{:?}", name);
    }
    for name in ["..", "../a", "a/../..", "/a", "/", "a/b/../../../c", "a\0b", "\0", "a/..//../b"]
    {
        assert!(!check_enclosed(name), "{:?}", name);
    }
}

#[test]
fn mangled_names() {
    assert_eq!(mangle("/path/../../../../etc/./passwd\0/etc/shadow"), "path/etc/passwd");
    assert_eq!(mangle("a\\b\\..\\c"), "a/b/c");
    assert_eq!(mangle("//a///b//"), "a/b");
    assert_eq!(mangle("../.."), "");
    assert_eq!(mangle(""), "");
    assert_eq!(mangle("\0a"), "");
    assert_eq!(mangle("..a/.b/c.."), "..a/.b/c..");
    assert_eq!(mangle("\u{2603}/\u{e9}"), "\u{2603}/\u{e9}");
}

#[test]
fn no_enclosed_name_leads_above_its_start() {
    // All names of up to five parts out of a small alphabet of parts.
    let parts = ["a", "..", ".", "", "b"];
    let mut count = 0;
    for n in 0..=5usize {
        let mut index = vec![0usize; n];
        loop {
            let name: Vec<&str> = index.iter().map(|&i| parts[i]).collect();
            let name = name.join("/");
            if check_enclosed(&name) {
                let mut depth: i32 = 0;
                for part in name.split('/') {
                    match part {
                        "" | "." => {}
                        ".." => depth -= 1,
                        _ => depth += 1,
                    }
                    assert!(depth >= 0, "{:?} escapes", name);
                }
                assert!(!name.starts_with('/'));
                count += 1;
            }
            let mut k = 0;
            while k < n {
                index[k] += 1;
                if index[k] < parts.len() {
                    break;
                }
                index[k] = 0;
                k += 1;
            }
            if k == n {
                break;
            }
        }
    }
    assert!(count > 100);
}

#[test]
fn ancestors_shortest_first() {
    assert_eq!(ancestors("a/b/c"), vec!["a", "a/b", "a/b/c"]);
    assert_eq!(ancestors("a//b/./c/"), vec!["a", "a/b", "a/b/c"]);
    assert_eq!(ancestors("a/../b"), vec!["a", "a/..", "a/../b"]);
    assert_eq!(ancestors(""), Vec::<String>::new());
    assert_eq!(normalize("a//b/./c/"), "a/b/c");
    assert_eq!(normalize("./"), "");
    assert!(has_trailing_slash("a/"));
    assert!(!has_trailing_slash("a"));
    assert!(!has_trailing_slash(""));
    assert!(!has_trailing_slash("a\\"));
}

#[test]
fn action_for_each_entry() {
    let archive = archive_of(&["dir/", "dir/file", "../evil", "top"]);
    let action = extract_action(archive.entry(0).unwrap()).unwrap();
    assert_eq!(action.path, "dir/");
    assert_eq!(action.kind, EntryKind::Directory);
    assert_eq!(action.mode, Some(0o100644));
    let action = extract_action(archive.entry(1).unwrap()).unwrap();
    assert_eq!(action.path, "dir/file");
    assert_eq!(action.kind, EntryKind::File);
    match extract_action(archive.entry(2).unwrap()) {
        Err(ZipError::InvalidArchive(m)) => assert_eq!(m, "Invalid file path"),
        _ => panic!("an escaping name was accepted"),
    }
    assert!(extract_action(archive.entry(3).unwrap()).is_ok());
}

#[test]
fn plan_lists_the_files() {
    let archive = archive_of(&["dir/", "dir/file", "dir/sub/", "top", "dir/sub/deep"]);
    assert_eq!(archive.extraction_plan().unwrap(), vec![1, 3, 4]);
    let archive = archive_of(&[]);
    assert_eq!(archive.extraction_plan().unwrap(), Vec::<usize>::new());
    let archive = archive_of(&["only/dirs/", "more/"]);
    assert_eq!(archive.extraction_plan().unwrap(), Vec::<usize>::new());
}

#[test]
fn plan_refuses_the_archive_for_one_bad_name() {
    let archive = archive_of(&["fine", "also/fine", "a/../../escape", "fine/too"]);
    match archive.extraction_plan() {
        Err(ZipError::InvalidArchive(m)) => assert_eq!(m, "Invalid file path"),
        _ => panic!("planned"),
    }
    // One by one, the entries before the bad one are accepted.
    assert!(extract_action(archive.entry(0).unwrap()).is_ok());
    assert!(extract_action(archive.entry(1).unwrap()).is_ok());
    assert!(extract_action(archive.entry(2).unwrap()).is_err());
}

#[test]
fn plan_and_actions_agree() {
    let archive = archive_of(&["a/", "a/b", "c", "d/e/", "d/e/f", "g/"]);
    let plan = archive.extraction_plan().unwrap();
    for i in 0..archive.len() {
        let action = extract_action(archive.entry(i).unwrap()).unwrap();
        assert_eq!(plan.contains(&i), action.kind == EntryKind::File);
    }
}

#[test]
fn chunks_divide_the_plan() {
    assert_eq!(chunk_ranges(0, 4), vec![]);
    assert_eq!(chunk_ranges(1, 4), vec![(0, 1)]);
    assert_eq!(chunk_ranges(4, 4), vec![(0, 1), (1, 2), (2, 3), (3, 4)]);
    assert_eq!(chunk_ranges(5, 4), vec![(0, 2), (2, 4), (4, 5)]);
    assert_eq!(chunk_ranges(10, 4), vec![(0, 3), (3, 6), (6, 9), (9, 10)]);
    assert_eq!(chunk_ranges(10, 3), vec![(0, 4), (4, 8), (8, 10)]);
    assert_eq!(chunk_ranges(10, 1), vec![(0, 10)]);
    assert_eq!(chunk_ranges(10, 0), vec![(0, 10)]);
    assert_eq!(chunk_ranges(3, 100), vec![(0, 1), (1, 2), (2, 3)]);
    for len in 0..60usize {
        for workers in 1..9usize {
            let chunks = chunk_ranges(len, workers);
            assert!(chunks.len() <= workers);
            let mut at = 0;
            for (from, to) in chunks {
                assert_eq!(from, at);
                assert!(to > from);
                assert!(to - from <= (len + workers - 1) / workers);
                at = to;
            }
            assert_eq!(at, len);
        }
    }
}

#[test]
fn spool_thresholds() {
    assert_eq!(SPOOL_THRESHOLD, 2048);
    assert_eq!(UNCOMPRESSED_SPOOL_THRESHOLD, 102400);
    assert!(spools_in_memory(2047, SPOOL_THRESHOLD));
    assert!(!spools_in_memory(2048, SPOOL_THRESHOLD));
    assert!(spools_in_memory(102399, UNCOMPRESSED_SPOOL_THRESHOLD));
    assert!(!spools_in_memory(102400, UNCOMPRESSED_SPOOL_THRESHOLD));
}

#[test]
fn directories_needed_for_a_path() {
    assert_eq!(CompletedPaths::containing_dirs("a/b/c"), vec!["a/b", "a"]);
    assert_eq!(CompletedPaths::containing_dirs("a/b/c/"), vec!["a/b/c", "a/b", "a"]);
    assert_eq!(CompletedPaths::containing_dirs("a"), Vec::<String>::new());
    assert_eq!(CompletedPaths::containing_dirs("a/"), vec!["a"]);
    assert_eq!(CompletedPaths::containing_dirs(""), Vec::<String>::new());

    let mut seen = CompletedPaths::new();
    assert!(!seen.contains("a"));
    assert_eq!(seen.new_containing_dirs_needed("a/b/c"), vec!["a", "a/b"]);
    seen.write_dirs(&["a".to_string(), "a/b".to_string()]);
    assert!(seen.contains("a"));
    assert!(seen.contains("a/b"));
    assert!(seen.contains("a/b/"));
    assert!(seen.contains("a//b"));
    assert!(!seen.contains("a/b/c"));
    assert_eq!(seen.new_containing_dirs_needed("a/b/c"), Vec::<String>::new());
    assert_eq!(seen.new_containing_dirs_needed("a/b/c/d/e"), vec!["a/b/c", "a/b/c/d"]);
    assert_eq!(seen.new_containing_dirs_needed("a/x/"), vec!["a/x"]);
    assert_eq!(seen.new_containing_dirs_needed("z/y"), vec!["z"]);
    // Writing what is known changes nothing.
    seen.write_dirs(&["a/".to_string(), "a".to_string()]);
    assert_eq!(seen.new_containing_dirs_needed("a/q"), Vec::<String>::new());
}

#[test]
fn buffer_in_memory() {
    let mut buffer = IntermediateFile::immediate(5);
    assert_eq!(buffer.len(), 5);
    assert_eq!(buffer.tell(), Some(0));
    assert_eq!(buffer.backing_file(), None);
    assert_eq!(buffer.write(b"abc"), Some(3));
    assert_eq!(buffer.tell(), Some(3));
    // The buffer keeps its length: what does not fit is not written.
    assert_eq!(buffer.write(b"defg"), Some(2));
    assert_eq!(buffer.write(b"h"), Some(0));
    assert_eq!(buffer.seek(SeekTo::Start(0)), Some(0));
    assert_eq!(buffer.read(2), Some(b"ab".to_vec()));
    assert_eq!(buffer.read(10), Some(b"cde".to_vec()));
    assert_eq!(buffer.read(10), Some(Vec::new()));
    assert_eq!(buffer.seek(SeekTo::End(-1)), Some(4));
    assert_eq!(buffer.read(10), Some(b"e".to_vec()));
    assert_eq!(buffer.seek(SeekTo::Current(-3)), Some(2));
    assert_eq!(buffer.seek(SeekTo::Current(-3)), Some(0));
    assert_eq!(buffer.seek(SeekTo::End(10)), Some(15));
    assert_eq!(buffer.read(1), Some(Vec::new()));
    assert_eq!(buffer.write(b"x"), Some(0));
    assert_eq!(buffer.seek(SeekTo::End(i64::MIN)), Some(0));

    let mut buffer = IntermediateFile::from_bytes(b"xyz");
    assert_eq!(buffer.len(), 3);
    assert_eq!(buffer.read(3), Some(b"xyz".to_vec()));
    let zeros = IntermediateFile::immediate(3);
    assert!(matches!(zeros, IntermediateFile::Immediate(ref data, 0) if data == &vec![0u8; 3]));
}

#[test]
fn buffer_in_a_file_asks_for_the_file() {
    let mut buffer = IntermediateFile::paging("/tmp/intermediate1".to_string(), 9);
    assert_eq!(buffer.len(), 9);
    assert_eq!(buffer.tell(), None);
    assert_eq!(buffer.backing_file(), Some("/tmp/intermediate1"));
    assert_eq!(buffer.read(3), None);
    assert_eq!(buffer.write(b"abc"), None);
    assert_eq!(buffer.seek(SeekTo::Start(1)), None);
}
