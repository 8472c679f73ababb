//! The rules that decide which paths are indexed.

use vstd::prelude::*;
use crate::index::texts;
use crate::text::{
    absolute_of, contains_text, ends_with_text, file_name_of, file_name_text, has_infix, has_prefix,
    has_suffix, is_absolute_text, lower_of, lowercase, starts_with_text,
};

verus! {

/// The path fragments whose presence (ignoring case) excludes a path.
pub open spec fn exclusion_patterns() -> Seq<Seq<char>> {
    seq![
        "$recycle.bin"@, "appdata\\local"@, "appdata\\locallow"@, "node_modules"@,
        ".git"@, ".svn"@, ".hg"@, "__pycache__"@, "target\\debug"@, "target\\release"@,
        ".vs"@, ".vscode"@, "bin\\debug"@, "bin\\release"@, "obj"@, "packages"@,
        "bower_components"@, ".cache"@, "temp"@, "tmp"@, "windows\\temp"@,
        "windows\\winsxs"@, "windows\\installer"@, "programdata\\microsoft"@,
    ]
}

/// A name that begins with a dot and is neither `.` nor `..`.
pub open spec fn is_hidden_name(n: Seq<char>) -> bool {
    n.len() > 0 && n[0] == '.' && n.len() != 1 && !(n.len() == 2 && n[1] == '.')
}

/// Some exclusion pattern occurs in the lowercase path.
pub open spec fn matches_exclusion(lower: Seq<char>) -> bool {
    exists|k: int| 0 <= k < exclusion_patterns().len() && has_infix(lower, #[trigger] exclusion_patterns()[k])
}

/// Whether a path is kept out of the index.
pub open spec fn excluded(p: Seq<char>) -> bool {
    matches_exclusion(lower_of(p))
    || (match file_name_of(p) { Some(n) => is_hidden_name(n), None => false })
    || has_suffix(lower_of(p), ".sys"@)
    || has_suffix(lower_of(p), ".dll"@)
    || has_suffix(lower_of(p), ".tmp"@)
}

fn exclusion_list() -> (r: Vec<&'static str>)
    ensures
        r@.len() == exclusion_patterns().len(),
        forall|k: int| 0 <= k < r@.len() ==> (#[trigger] r@[k])@ == exclusion_patterns()[k],
{
    let r = vec![
        "$recycle.bin", "appdata\\local", "appdata\\locallow", "node_modules",
        ".git", ".svn", ".hg", "__pycache__", "target\\debug", "target\\release",
        ".vs", ".vscode", "bin\\debug", "bin\\release", "obj", "packages",
        "bower_components", ".cache", "temp", "tmp", "windows\\temp",
        "windows\\winsxs", "windows\\installer", "programdata\\microsoft",
    ];
    assert(r@.map_values(|s: &str| s@) =~= exclusion_patterns());
    assert forall|k: int| 0 <= k < r@.len() implies (#[trigger] r@[k])@ == exclusion_patterns()[k] by {
        assert(r@.map_values(|s: &str| s@)[k] == r@[k]@);
    }
    r
}

/// Whether a name begins with a dot and is neither `.` nor `..`.
fn hidden_name(n: &str) -> (r: bool)
    ensures
        r == is_hidden_name(n@),
{
    let len = n.unicode_len();
    if len == 0 || len == 1 {
        return false;
    }
    if n.get_char(0) != '.' {
        return false;
    }
    !(len == 2 && n.get_char(1) == '.')
}

/// Whether a path is kept out of the index: it holds an excluded directory
/// fragment (ignoring case), names a hidden file, or names a system file.
pub fn is_excluded(path: &str) -> (r: bool)
    ensures
        r == excluded(path@),
{
    let lower = lowercase(path);
    let pats = exclusion_list();
    let mut i: usize = 0;
    while i < pats.len()
        invariant
            i <= pats@.len(),
            lower@ == lower_of(path@),
            pats@.len() == exclusion_patterns().len(),
            forall|k: int| 0 <= k < pats@.len() ==> (#[trigger] pats@[k])@ == exclusion_patterns()[k],
            forall|k: int| 0 <= k < i ==> !has_infix(lower@, #[trigger] exclusion_patterns()[k]),
        decreases pats@.len() - i,
    {
        if contains_text(lower.as_str(), pats[i]) {
            assert(has_infix(lower@, exclusion_patterns()[i as int]));
            assert(matches_exclusion(lower@));
            return true;
        }
        i += 1;
    }
    assert(!matches_exclusion(lower@));
    if let Some(name) = file_name_text(path) {
        if hidden_name(name.as_str()) {
            return true;
        }
    }
    ends_with_text(lower.as_str(), ".sys")
        || ends_with_text(lower.as_str(), ".dll")
        || ends_with_text(lower.as_str(), ".tmp")
}

/// The lowercase file name of a path, or the lowercase empty text where it
/// has none.
pub open spec fn lower_name(p: Seq<char>) -> Seq<char> {
    match file_name_of(p) {
        Some(n) => lower_of(n),
        None => lower_of(Seq::empty()),
    }
}

/// A lowercase file name that marks a file still being written: an office
/// lock file, a partial download or a temporary file.
pub open spec fn transient_name(n: Seq<char>) -> bool {
    has_prefix(n, "~$"@) || has_prefix(n, ".~"@) || has_suffix(n, ".tmp"@) || has_suffix(n, ".temp"@)
    || has_suffix(n, ".crdownload"@) || has_suffix(n, ".part"@) || has_suffix(n, ".download"@)
    || has_infix(n, ".tmp."@)
}

/// Whether a changed path names a transient file, judged by its lowercase
/// file name.
pub fn is_temp_file(path: &str) -> (r: bool)
    ensures
        r == transient_name(lower_name(path@)),
{
    let name = match file_name_text(path) {
        Some(n) => lowercase(n.as_str()),
        None => lowercase(""),
    };
    proof {
        reveal_strlit("");
    }
    assert(name@ == lower_name(path@)) by {
        if file_name_of(path@) is None {
            assert(""@ =~= Seq::<char>::empty());
        }
    }
    let n = name.as_str();
    starts_with_text(n, "~$") || starts_with_text(n, ".~") || ends_with_text(n, ".tmp")
        || ends_with_text(n, ".temp") || ends_with_text(n, ".crdownload") || ends_with_text(n, ".part")
        || ends_with_text(n, ".download") || contains_text(n, ".tmp.")
}

/// A changed path that the watcher indexes: neither excluded nor transient.
pub fn should_index_change(path: &str) -> (r: bool)
    ensures
        r == (!excluded(path@) && !transient_name(lower_name(path@))),
{
    !is_excluded(path) && !is_temp_file(path)
}

/// A path text that cannot be read as shell syntax: no `&`, `|` or `;`, and
/// no UNC prefix.
pub open spec fn plain_path_text(p: Seq<char>) -> bool {
    !has_infix(p, "&"@) && !has_infix(p, "|"@) && !has_infix(p, ";"@) && !has_prefix(p, "\\\\"@)
}

/// Whether a path may be handed to an external opener: absolute, not UNC,
/// and free of `&`, `|` and `;`.
pub fn is_safe_path(path: &str) -> (r: bool)
    ensures
        r == (plain_path_text(path@) && absolute_of(path@)),
{
    if contains_text(path, "&") || contains_text(path, "|") || contains_text(path, ";") {
        return false;
    }
    if starts_with_text(path, "\\\\") {
        return false;
    }
    is_absolute_text(path)
}

/// Relies on `Path::exists`; what it answers depends on the machine.
#[verifier::external_body]
fn root_exists(root: &str) -> (r: bool) {
    std::path::Path::new(root).exists()
}

/// The drive letters, `A` to `Z`.
pub open spec fn drive_letters() -> Seq<char> {
    seq![
        'A', 'B', 'C', 'D', 'E', 'F', 'G', 'H', 'I', 'J', 'K', 'L', 'M',
        'N', 'O', 'P', 'Q', 'R', 'S', 'T', 'U', 'V', 'W', 'X', 'Y', 'Z',
    ]
}

/// The drive letter at position `i` of the alphabet.
pub open spec fn drive_letter(i: int) -> char {
    drive_letters()[i]
}

fn letter_list() -> (r: Vec<char>)
    ensures
        r@ == drive_letters(),
{
    let r = vec![
        'A', 'B', 'C', 'D', 'E', 'F', 'G', 'H', 'I', 'J', 'K', 'L', 'M',
        'N', 'O', 'P', 'Q', 'R', 'S', 'T', 'U', 'V', 'W', 'X', 'Y', 'Z',
    ];
    assert(r@ =~= drive_letters());
    r
}

/// The letters `A` to `Z` whose entry in `present` is true, in order.
pub open spec fn present_letters(present: Seq<bool>, n: int) -> Seq<char>
    decreases n,
{
    if n <= 0 {
        Seq::empty()
    } else if present[n - 1] {
        present_letters(present, n - 1).push(drive_letter(n - 1))
    } else {
        present_letters(present, n - 1)
    }
}

/// The drive letters, from `A` to `Z`, whose presence flag is set.
pub fn drives_from_presence(present: &Vec<bool>) -> (r: Vec<char>)
    requires
        present@.len() == 26,
    ensures
        r@ == present_letters(present@, 26),
{
    let letters = letter_list();
    let mut r: Vec<char> = Vec::new();
    let mut i: usize = 0;
    while i < 26
        invariant
            present@.len() == 26,
            letters@ == drive_letters(),
            i <= 26,
            r@ == present_letters(present@, i as int),
        decreases 26 - i,
    {
        if present[i] {
            r.push(letters[i]);
        }
        i += 1;
    }
    r
}

/// The available drives: where `/` alone is an absolute path (a Unix-like
/// platform), the single root `/`; elsewhere the letters `A` to `Z` whose
/// root `X:\` exists.
pub fn get_available_drives() -> (r: Vec<char>)
    ensures
        absolute_of("/"@) ==> r@ == seq!['/'],
        !absolute_of("/"@) ==> exists|present: Seq<bool>| present.len() == 26 && r@ == present_letters(present, 26),
{
    if is_absolute_text("/") {
        let r = vec!['/'];
        assert(r@ =~= seq!['/']);
        return r;
    }
    let letters = letter_list();
    let mut present: Vec<bool> = Vec::new();
    let mut i: usize = 0;
    while i < 26
        invariant
            letters@ == drive_letters(),
            i <= 26,
            present@.len() == i,
        decreases 26 - i,
    {
        let root = drive_root_text(letters[i]);
        present.push(root_exists(root.as_str()));
        i += 1;
    }
    drives_from_presence(&present)
}

/// The root `X:\` of a drive letter.
pub open spec fn drive_root(c: char) -> Seq<char> {
    seq![c, ':', '\\']
}

/// Relies on `format!` with `{}:\`: the letter, a colon and a backslash.
#[verifier::external_body]
fn drive_root_text(c: char) -> (r: String)
    ensures
        r@ == drive_root(c),
{
    format!("{}:\\", c)
}

/// The roots of the first `n` letters, other than `C`, whose flag is set.
pub open spec fn present_roots(letters: Seq<char>, present: Seq<bool>, n: int) -> Seq<Seq<char>>
    decreases n,
{
    if n <= 0 {
        Seq::empty()
    } else if letters[n - 1] != 'C' && present[n - 1] {
        present_roots(letters, present, n - 1).push(drive_root(letters[n - 1]))
    } else {
        present_roots(letters, present, n - 1)
    }
}

/// The directories to index: the user's folders when drive `C` is enabled,
/// then the root of every other enabled drive whose flag is set.
pub open spec fn default_roots(letters: Seq<char>, user: Seq<Seq<char>>, present: Seq<bool>) -> Seq<Seq<char>> {
    (if letters.contains('C') { user } else { Seq::empty() }) + present_roots(letters, present, letters.len() as int)
}

/// The directories to index for the enabled drives, given the user's
/// existing well-known folders and which drive roots exist.
pub fn roots_for_drives(drive_letters: &Vec<char>, user_folders: &Vec<String>, present: &Vec<bool>) -> (r: Vec<String>)
    requires
        present@.len() == drive_letters@.len(),
    ensures
        texts(r@) == default_roots(drive_letters@, texts(user_folders@), present@),
{
    let mut has_c = false;
    let mut i: usize = 0;
    while i < drive_letters.len()
        invariant
            i <= drive_letters@.len(),
            has_c == exists|k: int| 0 <= k < i && drive_letters@[k] == 'C',
        decreases drive_letters@.len() - i,
    {
        if drive_letters[i] == 'C' {
            has_c = true;
        }
        i += 1;
    }
    let mut r: Vec<String> = Vec::new();
    if has_c {
        let mut j: usize = 0;
        while j < user_folders.len()
            invariant
                j <= user_folders@.len(),
                texts(r@) == texts(user_folders@).subrange(0, j as int),
            decreases user_folders@.len() - j,
        {
            let ghost before = r@;
            r.push(user_folders[j].clone());
            assert(texts(r@) =~= texts(before).push(user_folders@[j as int]@));
            assert(texts(r@) =~= texts(user_folders@).subrange(0, j + 1));
            j += 1;
        }
    }
    let ghost head = texts(r@);
    assert(head =~= if drive_letters@.contains('C') { texts(user_folders@) } else { Seq::empty() });
    let mut k: usize = 0;
    while k < drive_letters.len()
        invariant
            present@.len() == drive_letters@.len(),
            k <= drive_letters@.len(),
            texts(r@) == head + present_roots(drive_letters@, present@, k as int),
        decreases drive_letters@.len() - k,
    {
        let c = drive_letters[k];
        if c != 'C' && present[k] {
            let ghost before = texts(r@);
            r.push(drive_root_text(c));
            assert(texts(r@) =~= before.push(drive_root(c)));
            assert(texts(r@) =~= head + present_roots(drive_letters@, present@, k + 1));
        }
        k += 1;
    }
    r
}

/// The directories to index for the enabled drives: the user's existing
/// well-known folders when drive `C` is enabled, then the root of every
/// other enabled drive whose root exists now.
pub fn get_directories_for_drives(drive_letters: &Vec<char>, user_folders: &Vec<String>) -> (r: Vec<String>)
    ensures
        exists|present: Seq<bool>| present.len() == drive_letters@.len()
            && texts(r@) == default_roots(drive_letters@, texts(user_folders@), present),
{
    let mut present: Vec<bool> = Vec::new();
    let mut i: usize = 0;
    while i < drive_letters.len()
        invariant
            i <= drive_letters@.len(),
            present@.len() == i,
        decreases drive_letters@.len() - i,
    {
        let c = drive_letters[i];
        if c == 'C' {
            present.push(false);
        } else {
            let root = drive_root_text(c);
            present.push(root_exists(root.as_str()));
        }
        i += 1;
    }
    roots_for_drives(drive_letters, user_folders, &present)
}

/// The default directories: those for drive `C` alone, which are the
/// user's existing well-known folders.
pub fn get_default_directories(user_folders: &Vec<String>) -> (r: Vec<String>)
    ensures
        texts(r@) == texts(user_folders@),
{
    let letters = vec!['C'];
    let r = get_directories_for_drives(&letters, user_folders);
    proof {
        let present = choose|present: Seq<bool>| present.len() == letters@.len()
            && texts(r@) == default_roots(letters@, texts(user_folders@), present);
        assert(letters@.contains('C')) by {
            assert(letters@[0] == 'C');
        }
        assert(present_roots(letters@, present, 0) =~= Seq::<Seq<char>>::empty());
        assert(present_roots(letters@, present, 1) =~= Seq::<Seq<char>>::empty());
        assert(texts(r@) =~= texts(user_folders@));
    }
    r
}

} // verus!

