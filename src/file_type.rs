//! Categories of files by extension, used to narrow search answers.

use vstd::prelude::*;
use vstd::string::StringExecFns;
use crate::index::{ext_key, texts};
use crate::text::{extension_text, lowercase};

verus! {

/// A category of files.
#[derive(Debug, Clone, Copy, PartialEq, Eq, Structural)]
pub enum FileTypeFilter {
    All,
    Documents,
    Images,
    Videos,
    Audio,
    Code,
    Archives,
}

/// The lowercase extensions of a category.
pub open spec fn category_exts(f: FileTypeFilter) -> Seq<Seq<char>> {
    match f {
        FileTypeFilter::All => seq![],
        FileTypeFilter::Documents => seq!["pdf"@, "doc"@, "docx"@, "txt"@, "rtf"@, "odt"@, "md"@],
        FileTypeFilter::Images => seq!["jpg"@, "jpeg"@, "png"@, "gif"@, "bmp"@, "svg"@, "webp"@, "ico"@],
        FileTypeFilter::Videos => seq!["mp4"@, "avi"@, "mkv"@, "mov"@, "wmv"@, "flv"@, "webm"@],
        FileTypeFilter::Audio => seq!["mp3"@, "wav"@, "flac"@, "aac"@, "ogg"@, "m4a"@, "wma"@],
        FileTypeFilter::Code => seq![
            "rs"@, "py"@, "js"@, "ts"@, "java"@, "c"@, "cpp"@, "h"@, "cs"@, "go"@, "rb"@, "php"@,
            "html"@, "css"@, "json"@, "xml"@, "yaml"@, "toml"@,
        ],
        FileTypeFilter::Archives => seq!["zip"@, "rar"@, "7z"@, "tar"@, "gz"@, "bz2"@, "xz"@],
    }
}

/// A path belongs to a category: every path belongs to `All`; to another
/// category, a path whose lowercase extension is one of its extensions.
pub open spec fn in_category(f: FileTypeFilter, p: Seq<char>) -> bool {
    f == FileTypeFilter::All || match ext_key(p) {
        Some(e) => category_exts(f).contains(e),
        None => false,
    }
}

/// The display name of a category.
pub open spec fn category_label(f: FileTypeFilter) -> Seq<char> {
    match f {
        FileTypeFilter::All => "All Files"@,
        FileTypeFilter::Documents => "Documents"@,
        FileTypeFilter::Images => "Images"@,
        FileTypeFilter::Videos => "Videos"@,
        FileTypeFilter::Audio => "Audio"@,
        FileTypeFilter::Code => "Code"@,
        FileTypeFilter::Archives => "Archives"@,
    }
}

proof fn lemma_filter_all(s: Seq<Seq<char>>, f: FileTypeFilter)
    requires
        f == FileTypeFilter::All,
    ensures
        s.filter(|p: Seq<char>| in_category(f, p)) == s,
    decreases s.len(),
{
    reveal(Seq::filter);
    if s.len() > 0 {
        lemma_filter_all(s.drop_last(), f);
        assert(s.drop_last().push(s.last()) =~= s);
    }
}

/// The icon shown beside a path, chosen by its lowercase extension.
pub open spec fn icon_of(p: Seq<char>) -> Seq<char> {
    let e = match ext_key(p) {
        Some(e) => e,
        None => Seq::empty(),
    };
    if e == "pdf"@ {
        "\u{1F4D5}"@
    } else if e == "docx"@ || e == "doc"@ || e == "txt"@ || e == "md"@ {
        "\u{1F4C4}"@
    } else if e == "xlsx"@ || e == "xls"@ || e == "csv"@ || e == "pptx"@ || e == "ppt"@ {
        "\u{1F4CA}"@
    } else if e == "exe"@ || e == "msi"@ {
        "\u{2699}\u{FE0F}"@
    } else if e == "jpg"@ || e == "jpeg"@ || e == "png"@ || e == "gif"@ || e == "bmp"@ {
        "\u{1F5BC}\u{FE0F}"@
    } else if e == "zip"@ || e == "7z"@ || e == "rar"@ || e == "tar"@ || e == "gz"@ {
        "\u{1F4E6}"@
    } else if e == "mp4"@ || e == "mkv"@ || e == "avi"@ || e == "mov"@ {
        "\u{1F3A5}"@
    } else if e == "mp3"@ || e == "wav"@ || e == "flac"@ || e == "m4a"@ {
        "\u{1F3B5}"@
    } else if e == "rs"@ || e == "py"@ || e == "js"@ || e == "ts"@ || e == "java"@ || e == "cpp"@ || e == "c"@ || e == "h"@ {
        "\u{1F4BB}"@
    } else if e == "html"@ || e == "css"@ || e == "json"@ || e == "xml"@ {
        "\u{1F310}"@
    } else {
        "\u{1F4C1}"@
    }
}

/// Whether the text `e` is the literal `lit`.
fn is_text(e: &String, lit: &str) -> (r: bool)
    ensures
        r == (e@ == lit@),
{
    String::from_str(lit) == *e
}

/// The icon shown beside a path, chosen by its lowercase extension.
pub fn get_file_icon(path: &str) -> (r: &'static str)
    ensures
        r@ == icon_of(path@),
{
    let e = match extension_text(path) {
        Some(x) => lowercase(x.as_str()),
        None => String::new(),
    };
    if is_text(&e, "pdf") {
        "\u{1F4D5}"
    } else if is_text(&e, "docx") || is_text(&e, "doc") || is_text(&e, "txt") || is_text(&e, "md") {
        "\u{1F4C4}"
    } else if is_text(&e, "xlsx") || is_text(&e, "xls") || is_text(&e, "csv") || is_text(&e, "pptx") || is_text(&e, "ppt") {
        "\u{1F4CA}"
    } else if is_text(&e, "exe") || is_text(&e, "msi") {
        "\u{2699}\u{FE0F}"
    } else if is_text(&e, "jpg") || is_text(&e, "jpeg") || is_text(&e, "png") || is_text(&e, "gif") || is_text(&e, "bmp") {
        "\u{1F5BC}\u{FE0F}"
    } else if is_text(&e, "zip") || is_text(&e, "7z") || is_text(&e, "rar") || is_text(&e, "tar") || is_text(&e, "gz") {
        "\u{1F4E6}"
    } else if is_text(&e, "mp4") || is_text(&e, "mkv") || is_text(&e, "avi") || is_text(&e, "mov") {
        "\u{1F3A5}"
    } else if is_text(&e, "mp3") || is_text(&e, "wav") || is_text(&e, "flac") || is_text(&e, "m4a") {
        "\u{1F3B5}"
    } else if is_text(&e, "rs") || is_text(&e, "py") || is_text(&e, "js") || is_text(&e, "ts")
        || is_text(&e, "java") || is_text(&e, "cpp") || is_text(&e, "c") || is_text(&e, "h") {
        "\u{1F4BB}"
    } else if is_text(&e, "html") || is_text(&e, "css") || is_text(&e, "json") || is_text(&e, "xml") {
        "\u{1F310}"
    } else {
        "\u{1F4C1}"
    }
}

impl FileTypeFilter {
    fn extensions(&self) -> (r: Vec<&'static str>)
        ensures
            r@.map_values(|s: &str| s@) == category_exts(*self),
    {
        let r = match self {
            FileTypeFilter::All => vec![],
            FileTypeFilter::Documents => vec!["pdf", "doc", "docx", "txt", "rtf", "odt", "md"],
            FileTypeFilter::Images => vec!["jpg", "jpeg", "png", "gif", "bmp", "svg", "webp", "ico"],
            FileTypeFilter::Videos => vec!["mp4", "avi", "mkv", "mov", "wmv", "flv", "webm"],
            FileTypeFilter::Audio => vec!["mp3", "wav", "flac", "aac", "ogg", "m4a", "wma"],
            FileTypeFilter::Code => vec![
                "rs", "py", "js", "ts", "java", "c", "cpp", "h", "cs", "go", "rb", "php", "html", "css",
                "json", "xml", "yaml", "toml",
            ],
            FileTypeFilter::Archives => vec!["zip", "rar", "7z", "tar", "gz", "bz2", "xz"],
        };
        assert(r@.map_values(|s: &str| s@) =~= category_exts(*self));
        r
    }

    /// Whether a path belongs to this category.
    pub fn matches(&self, path: &str) -> (r: bool)
        ensures
            r == in_category(*self, path@),
    {
        if let FileTypeFilter::All = self {
            return true;
        }
        let ext = match extension_text(path) {
            Some(e) => lowercase(e.as_str()),
            None => {
                return false;
            },
        };
        let list = self.extensions();
        let ghost names = list@.map_values(|s: &str| s@);
        let mut i: usize = 0;
        while i < list.len()
            invariant
                i <= list@.len(),
                names == list@.map_values(|s: &str| s@),
                names == category_exts(*self),
                ext_key(path@) == Some(ext@),
                *self != FileTypeFilter::All,
                forall|k: int| 0 <= k < i ==> names[k] != ext@,
            decreases list@.len() - i,
        {
            let candidate = String::from_str(list[i]);
            assert(names[i as int] == list@[i as int]@);
            if candidate == ext {
                assert(names[i as int] == ext@);
                return true;
            }
            i += 1;
        }
        assert(!names.contains(ext@));
        false
    }

    /// The paths of `results` that belong to this category, in order.
    pub fn select(&self, results: Vec<String>) -> (r: Vec<String>)
        ensures
            texts(r@) == texts(results@).filter(|p: Seq<char>| in_category(*self, p)),
    {
        if let FileTypeFilter::All = self {
            assert(texts(results@).filter(|p: Seq<char>| in_category(*self, p)) =~= texts(results@)) by {
                reveal(Seq::filter);
                lemma_filter_all(texts(results@), *self);
            }
            return results;
        }
        let mut r: Vec<String> = Vec::new();
        let mut i: usize = 0;
        while i < results.len()
            invariant
                i <= results@.len(),
                texts(r@) == texts(results@.subrange(0, i as int)).filter(|p: Seq<char>| in_category(*self, p)),
            decreases results@.len() - i,
        {
            let p = &results[i];
            let ghost before = texts(results@.subrange(0, i as int));
            proof {
                assert(texts(results@.subrange(0, i + 1)) =~= before.push(p@));
                reveal(Seq::filter);
                assert(before.push(p@).drop_last() =~= before);
            }
            if self.matches(p.as_str()) {
                let ghost old_r = r@;
                r.push(p.clone());
                assert(texts(r@) =~= texts(old_r).push(p@));
            }
            i += 1;
        }
        assert(results@.subrange(0, results@.len() as int) =~= results@);
        r
    }

    /// The display name of this category.
    pub fn label(&self) -> (r: &'static str)
        ensures
            r@ == category_label(*self),
    {
        match self {
            FileTypeFilter::All => "All Files",
            FileTypeFilter::Documents => "Documents",
            FileTypeFilter::Images => "Images",
            FileTypeFilter::Videos => "Videos",
            FileTypeFilter::Audio => "Audio",
            FileTypeFilter::Code => "Code",
            FileTypeFilter::Archives => "Archives",
        }
    }
}

} // verus!
