//! The decisions that the command line makes before a request is sent: its
//! arguments, the display mode, `key=value` pairs, the body form, file
//! extensions and content types.
use vstd::prelude::*;
use vstd::std_specs::option::OptionAdditionalFns;
use std::path::PathBuf;
use crate::scan::string_of;
use vstd::string::StringExecFns;
use crate::render::joined;

verus! {

#[verifier::external_type_specification]
#[verifier::external_body]
pub struct ExPathBuf(PathBuf);

/// The arguments of one request.
pub struct Args {
    pub url: String,
    /// Query pairs, each `key=value`.
    pub query: Vec<String>,
    /// Header pairs, each `key=value`.
    pub header: Vec<String>,
    /// Raw body parts, sent joined together.
    pub body: Vec<String>,
    /// JSON body pairs, each `key=value`.
    pub json: Vec<String>,
    /// A JSON file sent as the body.
    pub json_file: Option<PathBuf>,
    /// Form body pairs, each `key=value`.
    pub form: Vec<String>,
    /// A file that receives the response body.
    pub output: Option<PathBuf>,
    /// The request timeout in seconds.
    pub timeout: u64,
    /// The display mode: four `0`/`1` characters for request headers,
    /// request body, response headers and response body.
    pub show: String,
}

/// Whether `s` is a valid display mode: each of its first four characters is `0` or `1`.
pub open spec fn valid_mode(s: Seq<char>) -> bool {
    forall|i: int| 0 <= i < s.len() && i < 4 ==> s[i] == '0' || s[i] == '1'
}

/// Display mode flag `i` of `s`: its character, or `0` past its end.
pub open spec fn mode_flag(s: Seq<char>, i: int) -> char {
    if i < s.len() {
        s[i]
    } else {
        '0'
    }
}

/// Reads the display mode: `None` when one of the first four characters is
/// neither `0` nor `1`; characters after the fourth are ignored, missing ones
/// count as `0`.
pub fn echo_model(s: String) -> (r: Option<[char; 4]>)
    ensures
        r is Some <==> valid_mode(s@),
        r is Some ==> forall|i: int| 0 <= i < 4 ==> r->0@[i] == mode_flag(s@, i),
{
    let mut res = ['0'; 4];
    let n = s.as_str().unicode_len();
    let mut i: usize = 0;
    while i < 4 && i < n
        invariant
            n == s@.len(),
            i <= 4,
            i <= n,
            forall|j: int| 0 <= j < i ==> s@[j] == '0' || s@[j] == '1',
            forall|j: int| 0 <= j < 4 ==> res@[j] == if j < i { s@[j] } else { '0' },
        decreases 4 - i,
    {
        let c = s.as_str().get_char(i);
        if c != '0' && c != '1' {
            return None;
        }
        res.set(i, c);
        i = i + 1;
    }
    assert forall|j: int| 0 <= j < 4 implies res@[j] == mode_flag(s@, j) by {}
    Some(res)
}

/// Whether `s` holds a `=`.
pub open spec fn has_eq(s: Seq<char>) -> bool {
    exists|k: int| 0 <= k < s.len() && s[k] == '='
}

/// Splits `key=value` at its first `=`; `None` when there is none.
pub fn split_pair(s: &str) -> (r: Option<(String, String)>)
    ensures
        r is None <==> !has_eq(s@),
        r matches Some((k, v)) ==> {
            let n = k@.len() as int;
            &&& n < s@.len()
            &&& s@[n] == '='
            &&& !k@.contains('=')
            &&& k@ == s@.take(n)
            &&& v@ == s@.skip(n + 1)
        },
{
    let mut key: Vec<char> = Vec::new();
    let mut value: Vec<char> = Vec::new();
    let mut found = false;
    for c in it: s.chars()
        invariant
            it.seq() == s@,
            !key@.contains('='),
            found ==> {
                &&& key@.len() < it.index()
                &&& s@[key@.len() as int] == '='
                &&& key@ == s@.take(key@.len() as int)
                &&& value@ == s@.subrange(key@.len() + 1int, it.index() as int)
            },
            !found ==> key@ == s@.take(it.index() as int) && value@.len() == 0,
    {
        let ghost i = it.index() as int;
        assert(c == s@[i]);
        if found {
            value.push(c);
            assert(value@ =~= s@.subrange(key@.len() + 1int, i + 1));
        } else if c == '=' {
            found = true;
            assert(value@ =~= s@.subrange(key@.len() + 1int, i + 1));
        } else {
            key.push(c);
            assert(key@ =~= s@.take(i + 1));
            assert(!key@.contains('=')) by {
                if key@.contains('=') {
                    let j = choose|j: int| 0 <= j < key@.len() && key@[j] == '=';
                    assert(j < i);
                }
            }
        }
    }
    if found {
        assert(has_eq(s@));
        assert(value@ =~= s@.skip(key@.len() + 1int));
        Some((string_of(&key), string_of(&value)))
    } else {
        assert(key@ =~= s@);
        assert(!has_eq(s@)) by {
            if has_eq(s@) {
                let k = choose|k: int| 0 <= k < s@.len() && s@[k] == '=';
                assert(key@[k] == '=');
            }
        }
        None
    }
}

/// The lower-case form of a text, as `str::to_lowercase` gives it.
pub uninterp spec fn lower_of(s: Seq<char>) -> Seq<char>;

/// Relies on `str::to_lowercase`: the result depends on the characters alone.
#[verifier::external_body]
fn lowercase(s: &str) -> (r: String)
    ensures
        r@ == lower_of(s@),
{
    s.to_lowercase()
}

/// The extension of a path as text, as `Path::extension` and `OsStr::to_str`
/// give it: `None` when there is none or it is not valid Unicode.
pub uninterp spec fn extension_of(p: PathBuf) -> Option<Seq<char>>;

/// Relies on `Path::extension` and `OsStr::to_str`: the result depends on the
/// path alone; the extension is what follows the last `.` of the file name, so
/// it holds no `.`.
#[verifier::external_body]
fn path_extension(path: &PathBuf) -> (r: Option<String>)
    ensures
        match r {
            Some(e) => extension_of(*path) == Some(e@),
            None => extension_of(*path) is None,
        },
        r matches Some(e) ==> !e@.contains('.'),
{
    match path.extension() {
        Some(e) => e.to_str().map(String::from),
        None => None,
    }
}

/// Whether an extension, once lower-cased, is `ext`.
pub open spec fn extension_matches(found: Option<Seq<char>>, ext: Seq<char>) -> bool {
    match found {
        Some(e) => lower_of(e) == ext,
        None => false,
    }
}

/// Whether a found extension, once lower-cased, is `ext`.
pub fn ext_matches(found: &Option<String>, ext: &str) -> (r: bool)
    ensures
        r == extension_matches(
            match found {
                Some(e) => Some(e@),
                None => None,
            },
            ext@,
        ),
{
    match found {
        Some(e) => lowercase(e.as_str()) == ext.to_owned(),
        None => false,
    }
}

/// Whether the file extension of `path`, once lower-cased, is `ext`.
pub fn is_ext(path: &PathBuf, ext: &str) -> (r: bool)
    ensures
        r == extension_matches(extension_of(*path), ext@),
{
    let found = path_extension(path);
    ext_matches(&found, ext)
}

/// Whether `needle` occurs in `hay` as a contiguous run.
pub open spec fn occurs_in(needle: Seq<u8>, hay: Seq<u8>) -> bool {
    exists|i: int| 0 <= i <= hay.len() - needle.len() && #[trigger] hay.subrange(i, i + needle.len()) == needle
}

/// Search of one byte string in another.
pub trait Subslice: Sized {
    spec fn holds_run(&self, s: Self) -> bool;

    /// Whether `s` occurs in `self` as a contiguous run.
    fn has_subslice(&self, s: Self) -> (r: bool)
        ensures
            r == self.holds_run(s),
    ;
}

fn occurs_at(hay: &[u8], needle: &[u8], i: usize) -> (r: bool)
    requires
        i + needle@.len() <= hay@.len(),
    ensures
        r == (hay@.subrange(i as int, i + needle@.len()) == needle@),
{
    let mut j: usize = 0;
    while j < needle.len()
        invariant
            i + needle.len() <= hay.len(),
            j <= needle@.len(),
            forall|m: int| 0 <= m < j ==> hay@[i + m] == needle@[m],
        decreases needle@.len() - j,
    {
        if hay[i + j] != needle[j] {
            assert(hay@.subrange(i as int, i + needle@.len())[j as int] != needle@[j as int]);
            return false;
        }
        j = j + 1;
    }
    assert(hay@.subrange(i as int, i + needle@.len()) =~= needle@);
    true
}

impl<'a> Subslice for &'a [u8] {
    open spec fn holds_run(&self, s: Self) -> bool {
        occurs_in(s@, self@)
    }

    fn has_subslice(&self, s: Self) -> (r: bool) {
        let hay: &[u8] = *self;
        if s.len() > hay.len() {
            return false;
        }
        let last = hay.len() - s.len();
        let mut i: usize = 0;
        while i < last
            invariant
                i <= last,
                hay == *self,
                last == hay@.len() - s@.len(),
                forall|k: int| 0 <= k < i ==> #[trigger] hay@.subrange(k, k + s@.len()) != s@,
            decreases last - i,
        {
            if occurs_at(hay, s, i) {
                assert(hay@.subrange(i as int, i + s@.len()) == s@);
                return true;
            }
            i = i + 1;
        }
        let r = occurs_at(hay, s, last);
        if r {
            assert(hay@.subrange(last as int, last + s@.len()) == s@);
        }
        r
    }
}

/// Whether a content type names JSON: `json` occurs in it.
pub fn is_json_type(content_type: &[u8]) -> (r: bool)
    ensures
        r == occurs_in(seq![106u8, 115u8, 111u8, 110u8], content_type@),
{
    let json: [u8; 4] = [106, 115, 111, 110];
    let word: &[u8] = json.as_slice();
    assert(word@ =~= seq![106u8, 115u8, 111u8, 110u8]);
    content_type.has_subslice(word)
}

/// The one body form that a request carries.
#[derive(Clone, Copy, Debug, PartialEq, Eq, Structural)]
pub enum BodyKind {
    /// The raw parts, joined.
    Raw,
    /// The JSON pairs, as an object.
    Json,
    /// The form pairs, URL-encoded.
    Form,
    /// The contents of the JSON file.
    JsonFile,
    /// No body.
    Empty,
}

impl Args {
    /// The body form to send: the first given of raw parts, JSON pairs, form
    /// pairs and a JSON file, in that order; the forms exclude each other.
    pub fn body_kind(&self) -> (r: BodyKind)
        ensures
            r == if self.body@.len() > 0 {
                BodyKind::Raw
            } else if self.json@.len() > 0 {
                BodyKind::Json
            } else if self.form@.len() > 0 {
                BodyKind::Form
            } else if self.json_file is Some {
                BodyKind::JsonFile
            } else {
                BodyKind::Empty
            },
    {
        if self.body.len() > 0 {
            BodyKind::Raw
        } else if self.json.len() > 0 {
            BodyKind::Json
        } else if self.form.len() > 0 {
            BodyKind::Form
        } else if self.json_file.is_some() {
            BodyKind::JsonFile
        } else {
            BodyKind::Empty
        }
    }

    /// The raw body: its parts joined with nothing between them.
    pub fn raw_body(&self) -> (r: String)
        ensures
            r@ == joined(self.body@.map_values(|p: String| p@)),
    {
        let mut r = String::new();
        for i in 0..self.body.len()
            invariant
                r@ == joined(self.body@.take(i as int).map_values(|p: String| p@)),
        {
            r.append(self.body[i].as_str());
            assert(self.body@.take(i + 1).map_values(|p: String| p@).drop_last()
                =~= self.body@.take(i as int).map_values(|p: String| p@));
        }
        assert(self.body@.take(self.body@.len() as int) =~= self.body@);
        r
    }
}

} // verus!
