//! Text operations on paths and queries, and their mathematical meaning.

use vstd::prelude::*;
use vstd::string::StringExecFns;

verus! {

/// `p` occurs in `s` as a contiguous run of characters.
pub open spec fn has_infix(s: Seq<char>, p: Seq<char>) -> bool {
    exists|i: int| 0 <= i <= s.len() - p.len() && #[trigger] s.subrange(i, i + p.len()) == p
}

/// `s` begins with `p`.
pub open spec fn has_prefix(s: Seq<char>, p: Seq<char>) -> bool {
    p.len() <= s.len() && s.subrange(0, p.len() as int) == p
}

/// `s` ends with `p`.
pub open spec fn has_suffix(s: Seq<char>, p: Seq<char>) -> bool {
    p.len() <= s.len() && s.subrange(s.len() - p.len(), s.len() as int) == p
}

/// The lowercase form of a text, as Unicode defines it.
pub uninterp spec fn lower_of(s: Seq<char>) -> Seq<char>;

/// A text without its leading and trailing whitespace.
pub uninterp spec fn trim_of(s: Seq<char>) -> Seq<char>;

/// A path separator: `/` or `\`, whatever the platform.
pub open spec fn is_separator(c: char) -> bool {
    c == '/' || c == '\\'
}

/// The text after the last separator (all of it when there is none).
pub open spec fn last_segment(p: Seq<char>) -> Seq<char>
    decreases p.len(),
{
    if p.len() == 0 {
        p
    } else if is_separator(p.last()) {
        Seq::empty()
    } else {
        last_segment(p.drop_last()).push(p.last())
    }
}

/// The text after the last dot (all of it when there is none).
pub open spec fn dot_tail(n: Seq<char>) -> Seq<char>
    decreases n.len(),
{
    if n.len() == 0 {
        n
    } else if n.last() == '.' {
        Seq::empty()
    } else {
        dot_tail(n.drop_last()).push(n.last())
    }
}

/// A text with a dot is longer than what follows its last dot.
proof fn lemma_dot_tail_shorter(n: Seq<char>)
    requires
        n.contains('.'),
    ensures
        dot_tail(n).len() + 1 <= n.len(),
    decreases n.len(),
{
    if n.last() != '.' {
        let k = choose|k: int| 0 <= k < n.len() && n[k] == '.';
        assert(n.drop_last()[k] == '.');
        lemma_dot_tail_shorter(n.drop_last());
    }
}

/// The file name of a path: its last segment, unless that is empty, `.` or
/// `..`.
pub open spec fn file_name_of(p: Seq<char>) -> Option<Seq<char>> {
    let c = last_segment(p);
    if c.len() == 0 || c == seq!['.'] || c == seq!['.', '.'] {
        None
    } else {
        Some(c)
    }
}

/// The extension of a path: the text after the last dot of its file name,
/// where that dot is not the name's first character.
pub open spec fn extension_of(p: Seq<char>) -> Option<Seq<char>> {
    match file_name_of(p) {
        None => None,
        Some(n) => if !n.contains('.') || n.len() - dot_tail(n).len() - 1 == 0 {
            None
        } else {
            Some(dot_tail(n))
        },
    }
}

/// Whether a path is absolute, as the target platform reads paths.
pub uninterp spec fn absolute_of(p: Seq<char>) -> bool;

/// The character of one decimal digit.
pub open spec fn digit_char(d: nat) -> char {
    if d == 0 { '0' }
    else if d == 1 { '1' }
    else if d == 2 { '2' }
    else if d == 3 { '3' }
    else if d == 4 { '4' }
    else if d == 5 { '5' }
    else if d == 6 { '6' }
    else if d == 7 { '7' }
    else if d == 8 { '8' }
    else { '9' }
}

/// The decimal notation of a natural number, without leading zeros.
pub open spec fn decimal(n: nat) -> Seq<char>
    decreases n,
{
    if n < 10 {
        seq![digit_char(n)]
    } else {
        decimal(n / 10).push(digit_char(n % 10))
    }
}

/// Relies on `str::contains` with a `&str` pattern: true exactly when the
/// pattern occurs in the text.
#[verifier::external_body]
pub(crate) fn contains_text(s: &str, p: &str) -> (r: bool)
    ensures
        r == has_infix(s@, p@),
{
    s.contains(p)
}

/// Relies on `str::starts_with` with a `&str` pattern.
#[verifier::external_body]
pub(crate) fn starts_with_text(s: &str, p: &str) -> (r: bool)
    ensures
        r == has_prefix(s@, p@),
{
    s.starts_with(p)
}

/// Relies on `str::ends_with` with a `&str` pattern.
#[verifier::external_body]
pub(crate) fn ends_with_text(s: &str, p: &str) -> (r: bool)
    ensures
        r == has_suffix(s@, p@),
{
    s.ends_with(p)
}

/// Relies on `str::to_lowercase`: the result depends on the characters
/// alone, and each character lowers to at least one character, so exactly
/// the empty text lowers to the empty text.
#[verifier::external_body]
pub(crate) fn lowercase(s: &str) -> (r: String)
    ensures
        r@ == lower_of(s@),
        (r@.len() == 0) == (s@.len() == 0),
{
    s.to_lowercase()
}

/// Relies on `str::trim`: the result depends on the characters alone.
#[verifier::external_body]
pub(crate) fn trim_text(s: &str) -> (r: &str)
    ensures
        r@ == trim_of(s@),
{
    s.trim()
}

/// Relies on `str::rsplit` with the separators `/` and `\` as pattern: its
/// first item is the text after the last separator.
#[verifier::external_body]
fn last_segment_text(p: &str) -> (r: &str)
    ensures
        r@ == last_segment(p@),
{
    p.rsplit(['/', '\\']).next().unwrap_or(p)
}

/// Relies on `str::rsplit_once` with `.`: the text before and after the last
/// dot, when there is one.
#[verifier::external_body]
fn split_last_dot(n: &str) -> (r: Option<(&str, &str)>)
    ensures
        match r {
            Some(parts) => n@.contains('.') && parts.1@ == dot_tail(n@)
                && parts.0@ == n@.subrange(0, n@.len() - dot_tail(n@).len() - 1),
            None => !n@.contains('.'),
        },
{
    n.rsplit_once('.')
}

/// The file name of a path.
pub fn file_name_text(p: &str) -> (r: Option<String>)
    ensures
        match r {
            Some(n) => file_name_of(p@) == Some(n@),
            None => file_name_of(p@) == None::<Seq<char>>,
        },
{
    let seg = last_segment_text(p);
    let len = seg.unicode_len();
    if len == 0 {
        return None;
    }
    let first = seg.get_char(0);
    if len == 1 && first == '.' {
        assert(seg@ =~= seq!['.']);
        return None;
    }
    if len == 2 && first == '.' && seg.get_char(1) == '.' {
        assert(seg@ =~= seq!['.', '.']);
        return None;
    }
    assert(seg@ != seq!['.'] && seg@ != seq!['.', '.']) by {
        if seg@ == seq!['.'] {
            assert(seg@[0] == '.');
        }
        if seg@ == seq!['.', '.'] {
            assert(seg@[0] == '.' && seg@[1] == '.');
        }
    }
    Some(String::from_str(seg))
}

/// The extension of a path.
pub fn extension_text(p: &str) -> (r: Option<String>)
    ensures
        match r {
            Some(e) => extension_of(p@) == Some(e@),
            None => extension_of(p@) == None::<Seq<char>>,
        },
{
    let name = match file_name_text(p) {
        Some(n) => n,
        None => {
            return None;
        },
    };
    match split_last_dot(name.as_str()) {
        Some(parts) => {
            let head_len = parts.0.unicode_len();
            proof {
                lemma_dot_tail_shorter(name@);
            }
            if head_len == 0 {
                None
            } else {
                Some(String::from_str(parts.1))
            }
        },
        None => None,
    }
}

/// Relies on `Path::is_absolute` of std's path type, as built for the
/// target platform.
#[verifier::external_body]
pub(crate) fn is_absolute_text(p: &str) -> (r: bool)
    ensures
        r == absolute_of(p@),
{
    std::path::Path::new(p).is_absolute()
}

/// Relies on `usize`'s `to_string`: its decimal notation.
#[verifier::external_body]
pub(crate) fn decimal_text(n: usize) -> (r: String)
    ensures
        r@ == decimal(n as nat),
{
    n.to_string()
}

/// Relies on `u64`'s `to_string`: its decimal notation.
#[verifier::external_body]
pub(crate) fn decimal_text_u64(n: u64) -> (r: String)
    ensures
        r@ == decimal(n as nat),
{
    n.to_string()
}

} // verus!
