//! Where an entry goes below the output root: its name with `/` for every
//! separator, refused where it would lead out of the root.

use vstd::prelude::*;
use vstd::string::*;

verus! {

/// Trusted of `String::push`: it appends the one character to the string.
pub assume_specification[ String::push ](text: &mut String, c: char)
    ensures
        final(text)@ == old(text)@.push(c),
;

/// The character that stands for `c` in a destination path.
pub open spec fn normalized_char(c: char) -> char {
    if c == '\\' {
        '/'
    } else {
        c
    }
}

/// `name` with each backslash replaced by a slash.
pub open spec fn normalized(name: Seq<char>) -> Seq<char> {
    name.map_values(|c: char| normalized_char(c))
}

/// Whether `c` is one of the letters that name a drive.
pub open spec fn is_drive_letter(c: char) -> bool {
    ('a' <= c && c <= 'z') || ('A' <= c && c <= 'Z')
}

/// Whether `path` starts at a root: with a separator, or with a drive
/// letter and a colon.
pub open spec fn is_absolute(path: Seq<char>) -> bool {
    ||| (path.len() >= 1 && path[0] == '/')
    ||| (path.len() >= 2 && is_drive_letter(path[0]) && path[1] == ':')
}

/// Whether the segment of `path` that starts at `i` is `..`: the two dots
/// stand between separators or the ends of the path.
pub open spec fn parent_segment_at(path: Seq<char>, i: int) -> bool {
    &&& 0 <= i
    &&& i + 2 <= path.len()
    &&& path[i] == '.'
    &&& path[i + 1] == '.'
    &&& (i == 0 || path[i - 1] == '/')
    &&& (i + 2 == path.len() || path[i + 2] == '/')
}

/// Whether some segment of `path` is `..`.
pub open spec fn climbs(path: Seq<char>) -> bool {
    exists|i: int| parent_segment_at(path, i)
}

/// Whether `path`, joined to a root, stays below it.
pub open spec fn is_safe(path: Seq<char>) -> bool {
    !is_absolute(path) && !climbs(path)
}

/// The characters of `text`, one by one.
pub fn chars_of(text: &str) -> (chars: Vec<char>)
    ensures
        chars@ == text@,
{
    let mut chars: Vec<char> = Vec::new();
    for c in it: text.chars()
        invariant
            it.seq() == text@,
            chars@ == it.seq().take(it.index() as int),
    {
        chars.push(c);
    }
    chars
}

/// Whether some segment of `path` is `..`.
pub fn has_parent_segment(path: &Vec<char>) -> (found: bool)
    ensures
        found == climbs(path@),
{
    let n: usize = path.len();
    let mut i: usize = 0;
    while i < n
        invariant
            n == path@.len(),
            i <= n,
            forall|j: int| 0 <= j < i ==> !parent_segment_at(path@, j),
        decreases n - i,
    {
        if n - i >= 2 && path[i] == '.' && path[i + 1] == '.' && (i == 0 || path[i - 1] == '/') && (
        n - i == 2 || path[i + 2] == '/') {
            assert(parent_segment_at(path@, i as int));
            return true;
        }
        i += 1;
    }
    false
}

/// Whether `path` starts with a separator or with a drive letter and a
/// colon.
pub fn starts_at_root(path: &Vec<char>) -> (yes: bool)
    ensures
        yes == is_absolute(path@),
{
    if path.len() >= 1 && path[0] == '/' {
        return true;
    }
    if path.len() >= 2 && path[1] == ':' {
        let c: char = path[0];
        return ('a' <= c && c <= 'z') || ('A' <= c && c <= 'Z');
    }
    false
}

/// The path below the output root at which an entry called `name` is
/// written: `name` with `/` for each `\`. `None` where that path is
/// absolute or has a segment `..`.
pub fn destination_of(name: &str) -> (path: Option<String>)
    ensures
        path is Some <==> is_safe(normalized(name@)),
        path matches Some(p) ==> p@ == normalized(name@),
{
    let chars: Vec<char> = chars_of(name);
    let n: usize = chars.len();
    let mut clean: Vec<char> = Vec::new();
    let mut i: usize = 0;
    while i < n
        invariant
            n == chars@.len(),
            i <= n,
            clean@ == normalized(chars@.take(i as int)),
        decreases n - i,
    {
        let c: char = chars[i];
        if c == '\\' {
            clean.push('/');
        } else {
            clean.push(c);
        }
        i += 1;
    }
    assert(chars@.take(n as int) =~= chars@);
    if starts_at_root(&clean) || has_parent_segment(&clean) {
        return None;
    }
    let mut text: String = String::new();
    let mut k: usize = 0;
    while k < n
        invariant
            n == clean@.len(),
            k <= n,
            text@ == clean@.take(k as int),
        decreases n - k,
    {
        text.push(clean[k]);
        k += 1;
    }
    Some(text)
}

} // verus!
