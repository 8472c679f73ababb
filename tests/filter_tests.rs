use flashfind::file_type::{get_file_icon, FileTypeFilter};
use flashfind::filter::{
    drives_from_presence, get_available_drives, get_default_directories, get_directories_for_drives,
    is_excluded, is_safe_path, is_temp_file, roots_for_drives, should_index_change,
};

#[test]
fn test_exclusion_patterns() {
    assert!(is_excluded("C:\\$Recycle.Bin\\file.txt"));
    assert!(is_excluded("C:\\Users\\Test\\AppData\\Local\\file.txt"));
    assert!(is_excluded("C:\\project\\node_modules\\package.json"));
    assert!(is_excluded("C:\\project\\.git\\config"));
    assert!(!is_excluded("C:\\Users\\Test\\Documents\\file.txt"));
}

#[test]
fn test_hidden_files() {
    assert!(is_excluded("C:\\Users\\Test\\.hidden"));
    assert!(!is_excluded("C:\\Users\\Test\\visible.txt"));
}

#[test]
fn test_system_files() {
    assert!(is_excluded("C:\\Windows\\System32\\driver.sys"));
    assert!(is_excluded("C:\\Program Files\\app.dll"));
    assert!(!is_excluded("C:\\Users\\Test\\document.pdf"));
}

#[test]
fn every_pattern_excludes() {
    let patterns = [
        "$recycle.bin", "appdata\\local", "appdata\\locallow", "node_modules", ".git", ".svn", ".hg",
        "__pycache__", "target\\debug", "target\\release", ".vs", ".vscode", "bin\\debug",
        "bin\\release", "obj", "packages", "bower_components", ".cache", "temp", "tmp",
        "windows\\temp", "windows\\winsxs", "windows\\installer", "programdata\\microsoft",
    ];
    for p in patterns.iter() {
        assert!(is_excluded(p), "{}", p);
        assert!(is_excluded(&format!("D:\\{}\\x.txt", p.to_uppercase())), "{}", p);
    }
    assert!(!is_excluded("/home/user/report.docx"));
}

#[test]
fn hidden_name_rules() {
    assert!(is_excluded("/home/user/.profile"));
    assert!(!is_excluded("/home/user/profile"));
    assert!(is_excluded("/home/user/LIB.DLL"));
    assert!(is_excluded("/home/user/x.TMP"));
}

#[test]
fn exclusion_while_scanning() {
    let walked = vec![
        "/home/user/docs/notes.txt".to_string(),
        "/home/user/docs/.git/config".to_string(),
    ];
    assert_eq!(
        flashfind::indexer::select_indexable(&walked),
        vec!["/home/user/docs/notes.txt".to_string()]
    );
}

#[test]
fn temp_file_rules() {
    assert!(is_temp_file("/d/~$report.docx"));
    assert!(is_temp_file("/d/.~lock.odt"));
    assert!(is_temp_file("/d/Setup.EXE.crdownload"));
    assert!(is_temp_file("/d/movie.part"));
    assert!(is_temp_file("/d/a.download"));
    assert!(is_temp_file("/d/a.temp"));
    assert!(is_temp_file("/d/a.tmp"));
    assert!(is_temp_file("/d/a.tmp.x"));
    assert!(!is_temp_file("/d/report.docx"));
    assert!(!is_temp_file("/"));
}

#[test]
fn change_filter() {
    assert!(should_index_change("/home/u/docs/a.pdf"));
    assert!(!should_index_change("/home/u/docs/a.pdf.part"));
    assert!(!should_index_change("/home/u/node_modules/a.js"));
}

#[test]
fn safe_path_gate() {
    assert!(is_safe_path("/home/u/a.pdf"));
    assert!(!is_safe_path("relative/a.pdf"));
    assert!(!is_safe_path("/home/u/a&b.pdf"));
    assert!(!is_safe_path("/home/u/a|b.pdf"));
    assert!(!is_safe_path("/home/u/a;b.pdf"));
    assert!(!is_safe_path("\\\\server\\share\\a.pdf"));
}

#[test]
fn drives_from_flags() {
    let mut present = vec![false; 26];
    present[2] = true;
    present[3] = true;
    present[25] = true;
    assert_eq!(drives_from_presence(&present), vec!['C', 'D', 'Z']);
    assert_eq!(drives_from_presence(&vec![false; 26]), Vec::<char>::new());
}

#[test]
fn drives_on_this_platform() {
    let drives = get_available_drives();
    if std::path::MAIN_SEPARATOR == '/' {
        assert_eq!(drives, vec!['/']);
    } else {
        assert!(drives.iter().all(|c| c.is_ascii_uppercase()));
    }
}

#[test]
fn file_type_categories() {
    assert!(FileTypeFilter::All.matches("/x/noext"));
    assert!(FileTypeFilter::Documents.matches("/x/a.PDF"));
    assert!(!FileTypeFilter::Documents.matches("/x/a.png"));
    assert!(FileTypeFilter::Images.matches("/x/a.png"));
    assert!(FileTypeFilter::Code.matches("/x/main.rs"));
    assert!(FileTypeFilter::Archives.matches("/x/a.tar.gz"));
    assert!(FileTypeFilter::Audio.matches("/x/a.flac"));
    assert!(FileTypeFilter::Videos.matches("/x/a.mkv"));
    assert!(!FileTypeFilter::Videos.matches("/x/noext"));
    assert_eq!(FileTypeFilter::All.label(), "All Files");
    assert_eq!(FileTypeFilter::Archives.label(), "Archives");
}

#[test]
fn file_type_selection_keeps_order() {
    let results = vec![
        "/x/b.pdf".to_string(),
        "/x/a.png".to_string(),
        "/x/c.TXT".to_string(),
        "/x/noext".to_string(),
    ];
    assert_eq!(
        FileTypeFilter::Documents.select(results.clone()),
        vec!["/x/b.pdf".to_string(), "/x/c.TXT".to_string()]
    );
    assert_eq!(FileTypeFilter::All.select(results.clone()), results);
    assert!(FileTypeFilter::Audio.select(results).is_empty());
}

#[test]
fn file_icons_by_extension() {
    assert_eq!(get_file_icon("/x/a.PDF"), "\u{1F4D5}");
    assert_eq!(get_file_icon("/x/a.md"), "\u{1F4C4}");
    assert_eq!(get_file_icon("/x/a.csv"), "\u{1F4CA}");
    assert_eq!(get_file_icon("/x/a.exe"), "\u{2699}\u{FE0F}");
    assert_eq!(get_file_icon("/x/a.rs"), "\u{1F4BB}");
    assert_eq!(get_file_icon("/x/a.json"), "\u{1F310}");
    assert_eq!(get_file_icon("/x/Makefile"), "\u{1F4C1}");
}

#[test]
fn roots_for_enabled_drives() {
    let user = vec!["C:\\Users\\u\\Documents".to_string(), "C:\\Users\\u\\Music".to_string()];
    let letters = vec!['C', 'D', 'E'];
    assert_eq!(
        roots_for_drives(&letters, &user, &vec![true, true, false]),
        vec![
            "C:\\Users\\u\\Documents".to_string(),
            "C:\\Users\\u\\Music".to_string(),
            "D:\\".to_string()
        ]
    );
    assert_eq!(
        roots_for_drives(&vec!['E', 'D'], &user, &vec![true, true]),
        vec!["E:\\".to_string(), "D:\\".to_string()]
    );
    assert_eq!(get_directories_for_drives(&vec!['C'], &user), user);
    assert_eq!(get_default_directories(&user), user);
}
