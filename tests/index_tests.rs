use flashfind::error::FlashFindError;
use flashfind::index::{FileIndex, INDEX_VERSION, MAX_INDEX_SIZE};
use flashfind::persistence::{decode_index, encode_index};

fn s(text: &str) -> String {
    text.to_string()
}

#[test]
fn test_basic_insert() {
    let mut index = FileIndex::new();
    let path = s("C:\\test\\file.txt");

    assert!(index.insert(path.clone()).unwrap());
    assert_eq!(index.len(), 1);

    // Duplicate insert
    assert!(!index.insert(path).unwrap());
    assert_eq!(index.len(), 1);
}

#[test]
fn test_extension_search() {
    let mut index = FileIndex::new();
    index.insert(s("C:\\test\\doc.pdf")).unwrap();
    index.insert(s("C:\\test\\notes.txt")).unwrap();

    let results = index.search(".pdf");
    assert_eq!(results.len(), 1);
    assert!(results[0].contains("doc.pdf"));
}

#[test]
fn test_substring_search() {
    let mut index = FileIndex::new();
    index.insert(s("C:\\test\\budget_2024.xlsx")).unwrap();
    index.insert(s("C:\\test\\budget_report.pdf")).unwrap();
    index.insert(s("C:\\test\\invoice.pdf")).unwrap();

    let results = index.search("budget");
    assert_eq!(results.len(), 2);
}

#[test]
fn test_max_capacity() {
    let mut index = FileIndex::new();
    for i in 0..MAX_INDEX_SIZE {
        if i >= MAX_INDEX_SIZE {
            let path = format!("C:\\test\\file_{}.txt", i);
            assert!(index.insert(path).is_err());
            break;
        }
    }
}

#[test]
fn test_compound_extension() {
    let mut index = FileIndex::new();
    index.insert(s("C:\\test\\archive.tar.gz")).unwrap();

    let results = index.search(".tar.gz");
    assert_eq!(results.len(), 1);
}

#[test]
fn basic_insert_scenario() {
    let mut index = FileIndex::new();
    assert_eq!(index.insert(s("C:\\test\\file.txt")), Ok(true));
    assert_eq!(index.len(), 1);
    assert_eq!(index.search("file"), vec![s("C:\\test\\file.txt")]);
    assert_eq!(index.insert(s("C:\\test\\file.txt")), Ok(false));
    assert_eq!(index.len(), 1);
    assert_eq!(index.stats().1, 1);
}

#[test]
fn extension_search_scenario() {
    let mut index = FileIndex::new();
    index.insert(s("C:\\test\\doc.pdf")).unwrap();
    index.insert(s("C:\\test\\notes.txt")).unwrap();
    assert_eq!(index.search(".pdf"), vec![s("C:\\test\\doc.pdf")]);
}

#[test]
fn substring_search_sorted() {
    let mut index = FileIndex::new();
    index.insert(s("C:\\test\\budget_report.pdf")).unwrap();
    index.insert(s("C:\\test\\invoice.pdf")).unwrap();
    index.insert(s("C:\\test\\budget_2024.xlsx")).unwrap();
    assert_eq!(
        index.search("budget"),
        vec![s("C:\\test\\budget_2024.xlsx"), s("C:\\test\\budget_report.pdf")]
    );
}

#[test]
fn compound_extension_scenario() {
    let mut index = FileIndex::new();
    index.insert(s("C:\\test\\archive.tar.gz")).unwrap();
    assert_eq!(index.search(".tar.gz"), vec![s("C:\\test\\archive.tar.gz")]);
    assert_eq!(index.search(".gz"), vec![s("C:\\test\\archive.tar.gz")]);
}

#[test]
fn search_sorts_by_file_name_across_directories() {
    let mut index = FileIndex::new();
    index.insert(s("/b/zeta_report.txt")).unwrap();
    index.insert(s("/a/Alpha_Report.txt")).unwrap();
    index.insert(s("/c/mid_report.txt")).unwrap();
    assert_eq!(
        index.search("report"),
        vec![s("/a/Alpha_Report.txt"), s("/c/mid_report.txt"), s("/b/zeta_report.txt")]
    );
}

#[test]
fn search_ignores_case_and_outer_whitespace() {
    let mut index = FileIndex::new();
    index.insert(s("/home/user/Notes.TXT")).unwrap();
    assert_eq!(index.search("  NOTES  "), vec![s("/home/user/Notes.TXT")]);
    assert_eq!(index.search(".txt"), vec![s("/home/user/Notes.TXT")]);
}

#[test]
fn insert_grows_by_one() {
    let mut index = FileIndex::new();
    index.insert(s("/x/a.txt")).unwrap();
    let before = index.len();
    assert_eq!(index.insert(s("/x/b.txt")), Ok(true));
    assert_eq!(index.len(), before + 1);
    assert_eq!(index.stats().0, 2);
}

#[test]
fn insert_twice_counts_one_duplicate() {
    let mut index = FileIndex::new();
    assert_eq!(index.insert(s("/x/same.txt")), Ok(true));
    assert_eq!(index.insert(s("/x/same.txt")), Ok(false));
    assert_eq!(index.len(), 1);
    assert_eq!(index.stats(), (1, 1, 0));
}

#[test]
fn exact_name_query_finds_each_path() {
    let mut index = FileIndex::new();
    let paths = ["/d/report.pdf", "/d/photo.jpg", "/e/report.pdf", "/e/readme"];
    for p in paths.iter() {
        index.insert(s(p)).unwrap();
    }
    for p in paths.iter() {
        let name = p.rsplit('/').next().unwrap();
        assert!(index.search(name).contains(&s(p)));
    }
    assert_eq!(index.search("report.pdf").len(), 2);
}

#[test]
fn extension_query_finds_each_path() {
    let mut index = FileIndex::new();
    index.insert(s("/d/a.PDF")).unwrap();
    index.insert(s("/d/b.jpg")).unwrap();
    assert_eq!(index.search(".pdf"), vec![s("/d/a.PDF")]);
    assert_eq!(index.search(".jpg"), vec![s("/d/b.jpg")]);
}

#[test]
fn clear_zeroes_everything() {
    let mut index = FileIndex::new();
    index.insert(s("/x/a.txt")).unwrap();
    index.insert(s("/x/a.txt")).unwrap();
    index.search("a");
    index.clear();
    assert_eq!(index.len(), 0);
    assert!(index.is_empty());
    assert_eq!(index.stats(), (0, 0, 0));
    assert_eq!(index.remove("/x/a.txt"), Ok(false));
    assert_eq!(index.search("a"), Vec::<String>::new());
    assert_eq!(index.version(), INDEX_VERSION);
}

#[test]
fn empty_query_is_not_counted() {
    let mut index = FileIndex::new();
    index.insert(s("/x/a.txt")).unwrap();
    assert!(index.search("").is_empty());
    assert!(index.search("   ").is_empty());
    assert_eq!(index.stats().2, 0);
    index.search("a");
    assert_eq!(index.stats().2, 1);
}

#[test]
fn unknown_extension_query_is_empty() {
    let mut index = FileIndex::new();
    index.insert(s("/x/a.txt")).unwrap();
    assert!(index.search(".xyz").is_empty());
}

#[test]
fn path_without_extension_found_by_name_only() {
    let mut index = FileIndex::new();
    index.insert(s("/x/Makefile")).unwrap();
    assert_eq!(index.search("makefile"), vec![s("/x/Makefile")]);
    assert!(index.search(".makefile").is_empty());
    assert!(index.search(".").is_empty());
}

#[test]
fn path_without_file_name_is_invalid() {
    let mut index = FileIndex::new();
    assert_eq!(index.insert(s("/")), Err(FlashFindError::InvalidPath(s("/"))));
    assert_eq!(index.len(), 0);
}

#[test]
fn removed_path_stays_in_pool() {
    let mut index = FileIndex::new();
    index.insert(s("/x/a.txt")).unwrap();
    assert_eq!(index.remove("/x/a.txt"), Ok(true));
    assert_eq!(index.remove("/x/a.txt"), Ok(false));
    assert_eq!(index.len(), 1);
    assert_eq!(index.search("a.txt"), vec![s("/x/a.txt")]);
    assert_eq!(index.insert(s("/x/a.txt")), Ok(true));
    assert_eq!(index.len(), 2);
    index.rebuild_cache();
    assert_eq!(index.insert(s("/x/a.txt")), Ok(false));
}

#[test]
fn persist_roundtrip() {
    let mut index = FileIndex::new();
    let mut paths = Vec::new();
    for i in 0..10 {
        let p = format!("/data/folder_{}/file_{}.dat", i % 3, i);
        index.insert(p.clone()).unwrap();
        paths.push(p);
    }
    let bytes = encode_index(&index).unwrap();
    let mut loaded = decode_index(&bytes).unwrap();
    assert_eq!(loaded.len(), 10);
    assert_eq!(loaded.paths(), index.paths());
    assert_eq!(loaded.stats(), (0, 0, 0));
    for p in paths.iter() {
        let name = p.rsplit('/').next().unwrap();
        assert_eq!(loaded.search(name), vec![p.clone()]);
        assert_eq!(loaded.insert(p.clone()), Ok(false));
    }
    assert_eq!(loaded.search(".dat").len(), 10);
}

#[test]
fn roundtrip_keeps_postings() {
    let mut index = FileIndex::new();
    index.insert(s("/a/x.txt")).unwrap();
    index.insert(s("/b/x.txt")).unwrap();
    index.insert(s("/b/y.md")).unwrap();
    let bytes = encode_index(&index).unwrap();
    let loaded = decode_index(&bytes).unwrap();
    let mut before = index.name_entries();
    let mut after = loaded.name_entries();
    before.sort();
    after.sort();
    assert_eq!(before, after);
    assert_eq!(before, vec![(s("x.txt"), vec![0, 1]), (s("y.md"), vec![2])]);
    let mut eb = index.ext_entries();
    let mut ea = loaded.ext_entries();
    eb.sort();
    ea.sort();
    assert_eq!(eb, ea);
    assert_eq!(eb, vec![(s("md"), vec![2]), (s("txt"), vec![0, 1])]);
}

#[test]
fn garbage_bytes_are_corrupted() {
    assert!(matches!(decode_index(&[1, 2, 3]), Err(FlashFindError::CorruptedIndex)));
}

#[test]
fn other_version_is_refused() {
    assert!(matches!(
        FileIndex::restore(2, vec![s("/a/b.txt")]),
        Err(FlashFindError::VersionMismatch { found: 2, expected: 1 })
    ));
}

#[test]
fn pool_without_file_name_is_corrupted() {
    assert!(matches!(FileIndex::restore(INDEX_VERSION, vec![s("/")]), Err(FlashFindError::CorruptedIndex)));
    let restored = FileIndex::restore(INDEX_VERSION, vec![s("/a/b.txt"), s("/a/b.txt")]).unwrap();
    assert_eq!(restored.len(), 2);
}

#[test]
fn normalized_search_takes_query_as_given() {
    let mut index = FileIndex::new();
    index.insert(s("/x/File.txt")).unwrap();
    assert_eq!(index.search_normalized("file"), vec![s("/x/File.txt")]);
    assert!(index.search_normalized("FILE").is_empty());
    assert!(index.search_normalized(" file").is_empty());
    assert_eq!(index.search("FILE"), vec![s("/x/File.txt")]);
    assert_eq!(index.stats().2, 4);
    assert!(index.search_normalized("").is_empty());
    assert_eq!(index.stats().2, 4);
}

#[test]
fn lookup_is_not_counted() {
    let mut index = FileIndex::new();
    index.insert(s("/x/a.txt")).unwrap();
    assert_eq!(index.lookup(" A.TXT "), vec![s("/x/a.txt")]);
    assert_eq!(index.lookup_normalized("a.txt"), vec![s("/x/a.txt")]);
    assert_eq!(index.stats().2, 0);
    index.count_search("  ");
    assert_eq!(index.stats().2, 0);
    index.count_search("a");
    assert_eq!(index.stats().2, 1);
}

#[test]
fn stored_other_version_is_refused() {
    let empty: Vec<(String, Vec<u32>)> = Vec::new();
    let bytes = bincode::serialize(&(2u32, vec![s("/a/b.txt")], empty.clone(), empty)).unwrap();
    assert!(matches!(
        decode_index(&bytes),
        Err(FlashFindError::VersionMismatch { found: 2, expected: 1 })
    ));
}

#[test]
fn truncated_bytes_are_corrupted() {
    let mut index = FileIndex::new();
    index.insert(s("/a/b.txt")).unwrap();
    let bytes = encode_index(&index).unwrap();
    assert!(matches!(decode_index(&bytes[..bytes.len() - 3]), Err(FlashFindError::CorruptedIndex)));
    assert!(matches!(decode_index(&[]), Err(FlashFindError::CorruptedIndex)));
}
