//! References to configuration files in other repositories.
//!
//! An import names a repository, optionally a ref in it and a file under it:
//! `url[#[ref][/file]]`. A repository is cloned once per ref, into a
//! directory whose name depends on the address and the ref alone.

use vstd::prelude::*;
use crate::error::Error;
use crate::text::chars_of;
use crate::text::joined;
use crate::text::owned;
use crate::text::string_of;
use crate::util::digest;
use crate::util::hash_url_ref;

verus! {

/// `url::ParseError`, declared so that a result can carry it. Nothing is said
/// of what it holds.
#[verifier::external_type_specification]
#[verifier::external_body]
pub struct ExUrlParseError(url::ParseError);

/// A repository, a ref in it, and perhaps a file under it.
#[derive(Debug, PartialEq, Eq)]
pub struct Remote {
    /// The address of the repository.
    pub url: String,
    /// The ref to follow.
    pub ref_: String,
    /// The configuration file to read, where it is not the default one.
    pub file: Option<String>,
}

/// A [`Remote`] with its strings as character sequences.
pub ghost struct RemoteView {
    pub url: Seq<char>,
    pub ref_: Seq<char>,
    pub file: Option<Seq<char>>,
}

impl View for Remote {
    type V = RemoteView;

    open spec fn view(&self) -> RemoteView {
        RemoteView { url: self.url@, ref_: self.ref_@, file: self.file.deep_view() }
    }
}

impl DeepView for Remote {
    type V = RemoteView;

    open spec fn deep_view(&self) -> RemoteView {
        self@
    }
}

/// The path segments of an address, as the `url` crate reads it: `None`
/// where the address is no absolute URL, `Some(None)` where it is one that
/// cannot have path segments, else the segments in order.
pub uninterp spec fn url_path_segments(s: Seq<char>) -> Option<Option<Seq<Seq<char>>>>;

/// What `Path::join` of the standard library makes of a base path and a path
/// to adjoin to it, on the platform the library is built for.
pub uninterp spec fn path_join(base: Seq<char>, rel: Seq<char>) -> Seq<char>;

/// The first position from `i` on at which `c` stands, or the length of `s`
/// if there is none.
pub open spec fn find_from(s: Seq<char>, i: int, c: char) -> int
    decreases s.len() - i,
{
    if i < 0 || i >= s.len() {
        s.len() as int
    } else if s[i] == c {
        i
    } else {
        find_from(s, i + 1, c)
    }
}

/// The first position from `i` on at which something other than `c` stands,
/// or the length of `s` if there is none.
pub open spec fn skip_from(s: Seq<char>, i: int, c: char) -> int
    decreases s.len() - i,
{
    if i < 0 || i >= s.len() {
        s.len() as int
    } else if s[i] != c {
        i
    } else {
        skip_from(s, i + 1, c)
    }
}

/// The ref that a fragment names: `master` where it names none.
pub open spec fn ref_or_default(r: Seq<char>) -> Seq<char> {
    if r.len() == 0 {
        "master"@
    } else {
        r
    }
}

/// What an import address stands for. The address of the repository runs to
/// the first `#`. After the `#`s the ref runs to the first `/`, and after
/// the `/`s the rest is the file.
pub open spec fn parse_spec(s: Seq<char>) -> RemoteView {
    let hash = find_from(s, 0, '#');
    if hash >= s.len() {
        RemoteView { url: s, ref_: "master"@, file: None }
    } else {
        let frag = skip_from(s, hash, '#');
        let slash = find_from(s, frag, '/');
        let ref_ = ref_or_default(s.subrange(frag, slash));
        if slash >= s.len() {
            RemoteView { url: s.subrange(0, hash), ref_, file: None }
        } else {
            let file = skip_from(s, slash, '/');
            RemoteView {
                url: s.subrange(0, hash),
                ref_,
                file: Some(s.subrange(file, s.len() as int)),
            }
        }
    }
}

/// A remote written as an import address.
pub open spec fn render_spec(r: RemoteView) -> Seq<char> {
    match r.file {
        Some(file) => r.url + "#"@ + r.ref_ + "/"@ + file,
        None => r.url + "#"@ + r.ref_,
    }
}

/// The last of the path segments of an address, if it has any.
pub open spec fn last_of_spec(segments: Option<Seq<Seq<char>>>) -> Option<Seq<char>> {
    match segments {
        Some(list) => if list.len() > 0 {
            Some(list.last())
        } else {
            None
        },
        None => None,
    }
}

/// The last path segment of an address, read first as an `https` address
/// and then as it stands.
pub open spec fn segment_spec(url: Seq<char>) -> Option<Seq<char>> {
    match url_path_segments("https://"@ + url) {
        Some(segments) => last_of_spec(segments),
        None => match url_path_segments(url) {
            Some(segments) => last_of_spec(segments),
            None => None,
        },
    }
}

/// The name of a clone's directory, made of the last segment of the address
/// where there is one, the ref and a digest.
pub open spec fn folder_from_spec(segment: Option<Seq<char>>, ref_: Seq<char>, hash: Seq<char>) -> Seq<
    char,
> {
    match segment {
        Some(name) => name + "-"@ + ref_ + "-"@ + hash,
        None => "unknown-"@ + ref_ + "-"@ + hash,
    }
}

/// The name of the directory that holds the clone of a repository at a ref.
pub open spec fn folder_name_spec(url: Seq<char>, ref_: Seq<char>) -> Seq<char> {
    folder_from_spec(segment_spec(url), ref_, digest(url + "@"@ + ref_))
}

/// Parses an address with `Url::parse` and hands out its
/// `Url::path_segments`. The result depends on the address alone.
#[verifier::external_body]
fn path_segments(s: &str) -> (r: Result<Option<Vec<String>>, url::ParseError>)
    ensures
        match r {
            Ok(segments) => url_path_segments(s@) == Some(segments.deep_view()),
            Err(_) => url_path_segments(s@) is None,
        },
{
    let parsed = url::Url::parse(s)?;
    Ok(parsed.path_segments().map(|segments| segments.map(String::from).collect()))
}

/// The last of the path segments of an address, if it has any.
pub fn last_of(segments: Option<Vec<String>>) -> (r: Option<String>)
    ensures
        r.deep_view() == last_of_spec(segments.deep_view()),
{
    match segments {
        Some(list) => {
            if list.len() > 0 {
                Some(list[list.len() - 1].clone())
            } else {
                None
            }
        },
        None => None,
    }
}

/// The name of a clone's directory, made of the last segment of the address
/// where there is one, the ref and a digest.
pub fn folder_from(segment: Option<String>, ref_: &str, hash: &str) -> (r: String)
    ensures
        r@ == folder_from_spec(segment.deep_view(), ref_@, hash@),
{
    let head = match segment {
        Some(name) => joined(name.as_str(), "-"),
        None => owned("unknown-"),
    };
    let a = joined(head.as_str(), ref_);
    let b = joined(a.as_str(), "-");
    joined(b.as_str(), hash)
}

/// Adjoins a path to a base with `Path::join`.
#[verifier::external_body]
pub(crate) fn join_path(base: &str, rel: &str) -> (r: String)
    ensures
        r@ == path_join(base@, rel@),
{
    std::path::Path::new(base).join(rel).to_string_lossy().into_owned()
}

/// Exec form of [`find_from`].
fn find_char(chars: &Vec<char>, from: usize, c: char) -> (r: usize)
    requires
        from <= chars.len(),
    ensures
        r == find_from(chars@, from as int, c),
        from <= r <= chars.len(),
{
    let mut i: usize = from;
    while i < chars.len() && chars[i] != c
        invariant
            from <= i <= chars.len(),
            find_from(chars@, from as int, c) == find_from(chars@, i as int, c),
        decreases chars.len() - i,
    {
        i += 1;
    }
    i
}

/// Exec form of [`skip_from`].
fn skip_char(chars: &Vec<char>, from: usize, c: char) -> (r: usize)
    requires
        from <= chars.len(),
    ensures
        r == skip_from(chars@, from as int, c),
        from <= r <= chars.len(),
{
    let mut i: usize = from;
    while i < chars.len() && chars[i] == c
        invariant
            from <= i <= chars.len(),
            skip_from(chars@, from as int, c) == skip_from(chars@, i as int, c),
        decreases chars.len() - i,
    {
        i += 1;
    }
    i
}

impl Remote {
    /// Reads an import address. Every address stands for some remote.
    pub fn parse(url: &str) -> (r: Remote)
        ensures
            r@ == parse_spec(url@),
    {
        let chars = chars_of(url);
        let hash = find_char(&chars, 0, '#');
        if hash >= chars.len() {
            return Remote { url: owned(url), ref_: owned("master"), file: None };
        }
        let frag = skip_char(&chars, hash, '#');
        let slash = find_char(&chars, frag, '/');
        let ref_ = if slash == frag {
            owned("master")
        } else {
            string_of(&chars, frag, slash)
        };
        if slash >= chars.len() {
            Remote { url: string_of(&chars, 0, hash), ref_, file: None }
        } else {
            let file = skip_char(&chars, slash, '/');
            Remote {
                url: string_of(&chars, 0, hash),
                ref_,
                file: Some(string_of(&chars, file, chars.len())),
            }
        }
    }

    /// Reads an import address, as `parse` does; there is no address that it
    /// refuses.
    pub fn from_str(s: &str) -> (r: Result<Remote, Error>)
        ensures
            r matches Ok(remote) && remote@ == parse_spec(s@),
    {
        Ok(Remote::parse(s))
    }

    /// Writes the remote as an import address.
    pub fn to_string(&self) -> (r: String)
        ensures
            r@ == render_spec(self@),
    {
        let a = joined(self.url.as_str(), "#");
        let b = joined(a.as_str(), self.ref_.as_str());
        match &self.file {
            Some(file) => {
                let c = joined(b.as_str(), "/");
                joined(c.as_str(), file.as_str())
            },
            None => b,
        }
    }

    /// A copy of the remote.
    pub fn duplicate(&self) -> (r: Remote)
        ensures
            r@ == self@,
    {
        let file = match &self.file {
            Some(f) => Some(f.clone()),
            None => None,
        };
        Remote { url: self.url.clone(), ref_: self.ref_.clone(), file }
    }

    /// The name of the directory that holds the clone: the last segment of
    /// the address, the ref, and a digest of both. The file plays no part.
    pub fn folder_name(&self) -> (r: String)
        ensures
            r@ == folder_name_spec(self.url@, self.ref_@),
    {
        let with_scheme = joined("https://", self.url.as_str());
        let segment = match path_segments(with_scheme.as_str()) {
            Ok(segments) => last_of(segments),
            Err(_) => match path_segments(self.url.as_str()) {
                Ok(segments) => last_of(segments),
                Err(_) => None,
            },
        };
        let hash = hash_url_ref(self.url.as_str(), self.ref_.as_str());
        folder_from(segment, self.ref_.as_str(), hash.as_str())
    }

    /// The directory of the clone under the cache directory.
    pub fn path(&self, mold_dir: &str) -> (r: String)
        ensures
            r@ == path_join(mold_dir@, folder_name_spec(self.url@, self.ref_@)),
    {
        let name = self.folder_name();
        join_path(mold_dir, name.as_str())
    }
}

impl std::str::FromStr for Remote {
    type Err = Error;

    /// Reads an import address, as `parse` does: every address is read, and
    /// none gives an error.
    fn from_str(s: &str) -> (r: Result<Remote, Error>)
        ensures
            r matches Ok(remote) && remote@ == parse_spec(s@),
    {
        Ok(Remote::parse(s))
    }
}

impl Clone for Remote {
    fn clone(&self) -> (r: Remote)
        ensures
            r@ == self@,
    {
        self.duplicate()
    }
}

/// Two remotes with the same address and ref share one clone, whatever file
/// each of them names.
pub proof fn lemma_one_clone_per_ref(a: RemoteView, b: RemoteView, mold_dir: Seq<char>)
    requires
        a.url == b.url,
        a.ref_ == b.ref_,
    ensures
        folder_name_spec(a.url, a.ref_) == folder_name_spec(b.url, b.ref_),
        path_join(mold_dir, folder_name_spec(a.url, a.ref_)) == path_join(
            mold_dir,
            folder_name_spec(b.url, b.ref_),
        ),
{
}

/// Whether a remote is one that an address can name: its repository has no
/// `#`, its ref is not empty, begins with no `#` and has no `/`, and its
/// file, if it has one, begins with no `/`.
pub open spec fn addressable(r: RemoteView) -> bool {
    &&& !r.url.contains('#')
    &&& r.ref_.len() > 0
    &&& r.ref_[0] != '#'
    &&& !r.ref_.contains('/')
    &&& r.file matches Some(file) ==> file.len() == 0 || file[0] != '/'
}

/// A search passes over every stretch in which the character does not
/// stand.
proof fn lemma_find_passes(s: Seq<char>, i: int, j: int, c: char)
    requires
        0 <= i <= j <= s.len(),
        forall|k: int| i <= k < j ==> s[k] != c,
    ensures
        find_from(s, i, c) == find_from(s, j, c),
    decreases j - i,
{
    if i < j {
        lemma_find_passes(s, i + 1, j, c);
    }
}

/// An addressable remote, written as an address, is read back as it was.
pub proof fn lemma_address_round_trip(r: RemoteView)
    requires
        addressable(r),
    ensures
        parse_spec(render_spec(r)) == r,
{
    reveal_strlit("#");
    reveal_strlit("/");
    reveal_with_fuel(skip_from, 2);
    let s = render_spec(r);
    let hash = r.url.len() as int;
    let frag = hash + 1;
    let slash = frag + r.ref_.len();
    assert forall|k: int| 0 <= k < hash implies s[k] != '#' by {
        assert(s[k] == r.url[k]);
        assert(r.url.contains(r.url[k]));
    }
    assert(s[hash] == '#');
    lemma_find_passes(s, 0, hash, '#');
    assert(s[frag] == r.ref_[0]);
    assert forall|k: int| frag <= k < slash implies s[k] != '/' by {
        assert(s[k] == r.ref_[k - frag]);
        assert(r.ref_.contains(r.ref_[k - frag]));
    }
    lemma_find_passes(s, frag, slash, '/');
    assert(s.subrange(0, hash) =~= r.url);
    assert(s.subrange(frag, slash) =~= r.ref_);
    match r.file {
        Some(file) => {
            assert(s[slash] == '/');
            if file.len() > 0 {
                assert(s[slash + 1] == file[0]);
            }
            assert(s.subrange(slash + 1, s.len() as int) =~= file);
        },
        None => {},
    }
}

} // verus!
