//! Mapping file names and paths to lowercase type tags.

use vstd::prelude::*;
use vstd::utf8::is_ascii_chars;

use crate::storage::FileStorage;
use crate::text::push_char;

verus! {

/// What `str::to_lowercase` gives for `s`.
pub uninterp spec fn lower_of(s: Seq<char>) -> Seq<char>;

/// Relies on `str::to_lowercase`: the Unicode lowercase of `s`, which depends
/// on its characters alone; an empty string stays empty.
#[verifier::external_body]
fn lowercase(s: &str) -> (r: String)
    ensures
        r@ == lower_of(s@),
        s@.len() == 0 ==> r@.len() == 0,
        is_ascii_chars(s@) ==> r@ == ascii_lowercase(s@),
{
    s.to_lowercase()
}

/// The top-level type and subtype of the MIME type that `mime_guess`
/// guesses for `path`, `application/octet-stream` when it has no guess.
pub uninterp spec fn mime_guess_of(path: Seq<char>) -> (Seq<char>, Seq<char>);

/// Relies on `mime_guess::MimeGuess::from_path` and `first_or_octet_stream`:
/// the top-level type and the subtype of the MIME type guessed for `path`,
/// which depend on the path alone.
#[verifier::external_body]
fn guess_mime(path: &str) -> (r: (String, String))
    ensures
        (r.0@, r.1@) == mime_guess_of(path@),
{
    let m = mime_guess::MimeGuess::from_path(path).first_or_octet_stream();
    (m.type_().as_str().to_string(), m.subtype().as_str().to_string())
}

/// The position of the last `c` in `s`, or -1.
pub open spec fn last_index_of(s: Seq<char>, c: char) -> int
    decreases s.len(),
{
    if s.len() == 0 {
        -1
    } else if s.last() == c {
        s.len() - 1
    } else {
        last_index_of(s.drop_last(), c)
    }
}

/// `path` without what ends it and names no component: trailing `/` and
/// trailing `/.` components.
pub open spec fn strip_tail(p: Seq<char>) -> Seq<char>
    decreases p.len(),
{
    if p.len() > 0 && p.last() == '/' {
        strip_tail(p.drop_last())
    } else if p.len() >= 2 && p.last() == '.' && p[p.len() - 2] == '/' {
        strip_tail(p.drop_last())
    } else {
        p
    }
}

/// The last `/`-separated component of `path`, trailing `/` and `/.` left
/// aside.
pub open spec fn file_name_of(path: Seq<char>) -> Seq<char> {
    let p = strip_tail(path);
    p.skip(last_index_of(p, '/') + 1)
}

/// How many leading characters of `s` `strip_tail` keeps.
fn kept_len(s: &str) -> (k: usize)
    ensures
        k <= s@.len(),
        strip_tail(s@) == s@.take(k as int),
{
    let mut v: Vec<char> = Vec::new();
    for c in it: s.chars()
        invariant
            it.seq() == s@,
            v@ == s@.take(it.index() as int),
    {
        assert(s@.take(it.index() + 1) =~= s@.take(it.index() as int).push(c));
        v.push(c);
    }
    assert(v@ =~= s@);
    let mut k: usize = v.len();
    assert(s@.take(k as int) =~= s@);
    while k > 0 && (v[k - 1] == '/' || (k >= 2 && v[k - 1] == '.' && v[k - 2] == '/'))
        invariant
            k <= v@.len(),
            v@ == s@,
            strip_tail(s@) == strip_tail(s@.take(k as int)),
        decreases k,
    {
        assert(s@.take(k as int).drop_last() =~= s@.take(k - 1));
        k = k - 1;
    }
    k
}

/// The extension of `path`: what follows the last `.` of its file name,
/// where that `.` is not the name's first character and the name is not `..`.
pub open spec fn extension_of(path: Seq<char>) -> Option<Seq<char>> {
    let name = file_name_of(path);
    let dot = last_index_of(name, '.');
    if dot <= 0 || name == seq!['.', '.'] {
        None
    } else {
        Some(name.skip(dot + 1))
    }
}

/// The type tag of a file name: its lowercased extension, or `unknown`.
pub open spec fn file_type_of(filename: Seq<char>) -> Seq<char> {
    match extension_of(filename) {
        Some(e) => lower_of(e),
        None => lower_of("unknown"@),
    }
}

proof fn lemma_last_index_of(s: Seq<char>, c: char)
    ensures
        -1 <= last_index_of(s, c) < s.len(),
        last_index_of(s, c) >= 0 ==> s[last_index_of(s, c)] == c,
        forall|j: int| last_index_of(s, c) < j < s.len() ==> s[j] != c,
    decreases s.len(),
{
    if s.len() > 0 && s.last() != c {
        let p = s.drop_last();
        lemma_last_index_of(p, c);
        assert forall|j: int| last_index_of(s, c) < j < s.len() implies s[j] != c by {
            if j < s.len() - 1 {
                assert(s[j] == p[j]);
            }
        }
    }
}

proof fn lemma_last_index_unique(s: Seq<char>, c: char, k: int)
    requires
        -1 <= k < s.len(),
        k >= 0 ==> s[k] == c,
        forall|j: int| k < j < s.len() ==> s[j] != c,
    ensures
        last_index_of(s, c) == k,
    decreases s.len(),
{
    if s.len() > 0 && k < s.len() - 1 {
        let p = s.drop_last();
        assert forall|j: int| k < j < p.len() implies p[j] != c by {
            assert(p[j] == s[j]);
        }
        lemma_last_index_unique(p, c, k);
    }
}

/// Finds the position of the last `c` in `s`.
fn find_last(s: &str, c: char) -> (r: Option<usize>)
    ensures
        match r {
            Some(k) => last_index_of(s@, c) == k,
            None => last_index_of(s@, c) == -1,
        },
{
    let n = s.unicode_len();
    let mut r: Option<usize> = None;
    let mut i: usize = 0;
    for x in it: s.chars()
        invariant
            it.seq() == s@,
            n == s@.len(),
            i == it.index(),
            match r {
                Some(k) => k < i && s@[k as int] == c && forall|j: int| k < j < i ==> s@[j] != c,
                None => forall|j: int| 0 <= j < i ==> s@[j] != c,
            },
    {
        if x == c {
            r = Some(i);
        }
        i = i + 1;
    }
    proof {
        match r {
            Some(k) => lemma_last_index_unique(s@, c, k as int),
            None => lemma_last_index_unique(s@, c, -1),
        }
    }
    r
}

/// The extension of `path`, as `extension_of` states it.
pub fn extension(path: &str) -> (r: Option<String>)
    ensures
        match r {
            Some(e) => extension_of(path@) == Some(e@),
            None => extension_of(path@) is None,
        },
{
    let keep = kept_len(path);
    let trimmed = String::from_str(path.substring_char(0, keep));
    let len = trimmed.as_str().unicode_len();
    proof {
        lemma_last_index_of(trimmed@, '/');
    }
    let start: usize = match find_last(trimmed.as_str(), '/') {
        Some(k) => k + 1,
        None => 0,
    };
    let name = String::from_str(trimmed.as_str().substring_char(start, len));
    assert(name@ == file_name_of(path@));
    let nlen = name.unicode_len();
    let dot: usize = match find_last(name.as_str(), '.') {
        Some(k) => k,
        None => {
            return None;
        },
    };
    proof {
        lemma_last_index_of(name@, '.');
    }
    if dot == 0 {
        return None;
    }
    if nlen == 2 {
        let a = name.as_str().get_char(0);
        let b = name.as_str().get_char(1);
        if a == '.' && b == '.' {
            assert(name@ =~= seq!['.', '.']);
            return None;
        }
        assert(name@ != seq!['.', '.']);
    } else {
        assert(name@.len() != 2);
    }
    Some(String::from_str(name.as_str().substring_char(dot + 1, nlen)))
}

/// The type tag of `filename`: its lowercased extension, or `unknown`.
fn type_from_name(filename: &str) -> (r: String)
    ensures
        r@ == file_type_of(filename@),
        ascii_type_law(filename@, r@),
{
    match extension(filename) {
        Some(e) => lowercase(e.as_str()),
        None => {
            proof {
                reveal_strlit("unknown");
                assert(is_ascii_chars("unknown"@));
                assert(ascii_lowercase("unknown"@) =~= "unknown"@);
            }
            lowercase("unknown")
        },
    }
}

/// What the type tag of `filename` is when its extension is ASCII: that
/// extension with its letters lowercased; with no extension it is `unknown`.
pub open spec fn ascii_type_law(filename: Seq<char>, tag: Seq<char>) -> bool {
    &&& (extension_of(filename) is Some && is_ascii_chars(extension_of(filename)->0)) ==> tag
        == ascii_lowercase(extension_of(filename)->0)
    &&& extension_of(filename) is None ==> tag == "unknown"@
}

/// ASCII lowercase of one character.
pub open spec fn ascii_lower(c: char) -> char {
    if 'A' <= c && c <= 'Z' {
        ((c as u8) + 32u8) as char
    } else {
        c
    }
}

/// `s` with ASCII letters lowercased and every other character kept.
pub open spec fn ascii_lowercase(s: Seq<char>) -> Seq<char> {
    s.map_values(|c: char| ascii_lower(c))
}

fn ascii_lower_char(c: char) -> (r: char)
    ensures
        r == ascii_lower(c),
{
    if 'A' <= c && c <= 'Z' {
        ((c as u8) + 32u8) as char
    } else {
        c
    }
}

/// Lowercases the ASCII letters of `s`.
pub fn to_ascii_lower(s: &str) -> (r: String)
    ensures
        r@ == ascii_lowercase(s@),
{
    let mut r = String::new();
    for c in it: s.chars()
        invariant
            it.seq() == s@,
            r@ == ascii_lowercase(s@.take(it.index() as int)),
    {
        proof {
            assert(ascii_lowercase(s@.take(it.index() + 1)) =~= ascii_lowercase(
                s@.take(it.index() as int),
            ).push(ascii_lower(c)));
        }
        push_char(&mut r, ascii_lower_char(c));
    }
    assert(s@.take(s@.len() as int) =~= s@);
    r
}

/// The type tag for a MIME type given as top-level type and subtype.
pub open spec fn tag_for_mime(top: Seq<char>, sub: Seq<char>) -> Seq<char> {
    if top == "application"@ && sub == "pdf"@ {
        "pdf"@
    } else if top == "application"@ && sub
        == "vnd.openxmlformats-officedocument.wordprocessingml.document"@ {
        "docx"@
    } else if top == "text"@ {
        "txt"@
    } else {
        "bin"@
    }
}

/// The type tag for a MIME type given as top-level type and subtype.
pub fn mime_tag(top: &str, sub: &str) -> (r: String)
    ensures
        r@ == tag_for_mime(top@, sub@),
{
    let t = String::from_str(top);
    let s = String::from_str(sub);
    if t == String::from_str("application") && s == String::from_str("pdf") {
        String::from_str("pdf")
    } else if t == String::from_str("application") && s == String::from_str(
        "vnd.openxmlformats-officedocument.wordprocessingml.document",
    ) {
        String::from_str("docx")
    } else if t == String::from_str("text") {
        String::from_str("txt")
    } else {
        String::from_str("bin")
    }
}

/// The type tag of a path: its extension with ASCII letters lowercased when
/// it has one; otherwise the tag of the MIME type guessed for it, which is
/// one of `pdf`, `docx`, `txt` and `bin`.
pub fn detect_file_type(path: &str) -> (r: String)
    ensures
        match extension_of(path@) {
            Some(e) => r@ == ascii_lowercase(e),
            None => r@ == tag_for_mime(mime_guess_of(path@).0, mime_guess_of(path@).1),
        },
{
    match extension(path) {
        Some(e) => to_ascii_lower(e.as_str()),
        None => {
            let (top, sub) = guess_mime(path);
            mime_tag(top.as_str(), sub.as_str())
        },
    }
}

impl FileStorage {
    /// The type tag of `filename`: its lowercased extension, or `unknown`.
    pub fn get_file_type_from_name(filename: &str) -> (r: String)
        ensures
            r@ == file_type_of(filename@),
            ascii_type_law(filename@, r@),
    {
        type_from_name(filename)
    }

    /// The type tag of `filename`: its lowercased extension, or `unknown`.
    pub fn get_file_type(&self, filename: &str) -> (r: String)
        ensures
            r@ == file_type_of(filename@),
            ascii_type_law(filename@, r@),
    {
        type_from_name(filename)
    }
}

} // verus!
