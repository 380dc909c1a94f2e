//! From `file:` URIs to the paths of project folders.

use crate::session::{folder_models, FolderModel, WorkspaceFolder};
use crate::text::{chars_of, text_eq};
use std::path::PathBuf;
use url::Url;
use vstd::prelude::*;
use vstd::string::*;

verus! {

/// A parsed URL of the `url` crate.
#[verifier::external_type_specification]
#[verifier::external_body]
pub struct ExUrl(Url);

/// A path of the platform.
#[verifier::external_type_specification]
#[verifier::external_body]
pub struct ExPathBuf(PathBuf);

/// The URL that `Url::parse` reads from a text, or `None` where it fails.
pub uninterp spec fn url_parse(text: Seq<char>) -> Option<Url>;

/// The scheme that `Url::scheme` gives for a URL.
pub uninterp spec fn url_scheme(url: Url) -> Seq<char>;

/// The path that `Url::path` gives for a URL, percent-encoded.
pub uninterp spec fn url_path(url: Url) -> Seq<char>;

/// The host that `Url::host_str` gives for a URL, where it has one.
pub uninterp spec fn url_host(url: Url) -> Option<Seq<char>>;

/// Whether `Url::to_file_path`, on one platform or another, may answer a URL with this.
pub uninterp spec fn may_be_file_path(url: Url, path: Option<PathBuf>) -> bool;

/// The text that `Path::to_string_lossy` gives for a path.
pub uninterp spec fn path_text(path: PathBuf) -> Seq<char>;

/// `Url::parse`: whether it succeeds, and the URL that it then gives, is a function of the
/// text.
#[verifier::external_body]
fn parse_url(text: &str) -> (r: Option<Url>)
    ensures
        r == url_parse(text@),
{
    Url::parse(text).ok()
}

/// `Url::scheme`: a function of the URL.
#[verifier::external_body]
fn scheme_of(url: &Url) -> (r: &str)
    ensures
        r@ == url_scheme(*url),
{
    url.scheme()
}

/// `Url::path`: a function of the URL.
#[verifier::external_body]
fn path_of(url: &Url) -> (r: &str)
    ensures
        r@ == url_path(*url),
{
    url.path()
}

/// `Url::host_str`: a function of the URL.
#[verifier::external_body]
fn host_of(url: &Url) -> (r: Option<&str>)
    ensures
        match r {
            Some(host) => url_host(*url) == Some(host@),
            None => url_host(*url) is None,
        },
{
    url.host_str()
}

/// Whether a character is an ASCII letter.
pub open spec fn is_letter(c: char) -> bool {
    'a' <= c <= 'z' || 'A' <= c <= 'Z'
}

/// Whether a URL's path is a drive and nothing else: a letter and a colon, which may be
/// percent-encoded. On Windows `C:` alone is no absolute path.
pub open spec fn is_bare_drive(path: Seq<char>) -> bool {
    &&& path.len() >= 3 && path[0] == '/' && is_letter(path[1])
    &&& {
        ||| path.len() == 3 && path[2] == ':'
        ||| path.len() == 5 && path[2] == '%' && path[3] == '3' && (path[4] == 'A' || path[4]
            == 'a')
    }
}

/// Whether a URL's path begins with a name, and not with a separator, which may be
/// percent-encoded.
pub open spec fn begins_with_name(path: Seq<char>) -> bool {
    &&& path.len() >= 2 && path[0] == '/' && path[1] != '/' && path[1] != '\\'
    &&& !(path.len() >= 4 && path[1] == '%' && {
        ||| path[2] == '2' && (path[3] == 'F' || path[3] == 'f')
        ||| path[2] == '5' && (path[3] == 'C' || path[3] == 'c')
    })
}

/// Whether a URL's host is another machine.
pub open spec fn is_remote(host: Option<Seq<char>>) -> bool {
    host is Some && host != Some("localhost"@)
}

/// Whether every path that a `file` URL stands for, on one platform or another, is an
/// absolute one: on another machine it has to name a share, and on this one more than a
/// drive.
pub open spec fn is_rooted(host: Option<Seq<char>>, path: Seq<char>) -> bool {
    if is_remote(host) {
        host->0.len() > 0 && begins_with_name(path)
    } else {
        !is_bare_drive(path)
    }
}

/// `Url::to_file_path`: what it answers goes by the URL and by the platform, which decides
/// what a path looks like and which hosts it may have. So a URL is tied to its possible
/// answers, and not to one of them. With debug assertions it panics where the path that it
/// has built is not absolute, which a rooted URL rules out.
#[verifier::external_body]
fn file_path_of(url: &Url) -> (r: Option<PathBuf>)
    requires
        is_rooted(url_host(*url), url_path(*url)),
    ensures
        may_be_file_path(*url, r),
{
    url.to_file_path().ok()
}

/// `Path::to_string_lossy`: a function of the path.
#[verifier::external_body]
pub(crate) fn path_to_text(path: &PathBuf) -> (r: String)
    ensures
        r@ == path_text(*path),
{
    path.to_string_lossy().into_owned()
}

/// Tells whether a URL's path is a drive and nothing else.
fn is_drive_alone(path: &str) -> (r: bool)
    ensures
        r == is_bare_drive(path@),
{
    let chars: Vec<char> = chars_of(path);
    let n: usize = chars.len();
    if !(n >= 3 && chars[0] == '/') {
        return false;
    }
    let c: char = chars[1];
    let letter: bool = ('a' <= c && c <= 'z') || ('A' <= c && c <= 'Z');
    let plain: bool = n == 3 && chars[2] == ':';
    let encoded: bool = n == 5 && chars[2] == '%' && chars[3] == '3' && (chars[4] == 'A'
        || chars[4] == 'a');
    letter && (plain || encoded)
}

/// Tells whether a URL's path begins with a name.
fn names_something(path: &str) -> (r: bool)
    ensures
        r == begins_with_name(path@),
{
    let chars: Vec<char> = chars_of(path);
    let n: usize = chars.len();
    if !(n >= 2 && chars[0] == '/') || chars[1] == '/' || chars[1] == '\\' {
        return false;
    }
    if n < 4 || chars[1] != '%' {
        return true;
    }
    let slash: bool = chars[2] == '2' && (chars[3] == 'F' || chars[3] == 'f');
    let backslash: bool = chars[2] == '5' && (chars[3] == 'C' || chars[3] == 'c');
    !slash && !backslash
}

/// Tells whether every path that a `file` URL stands for is an absolute one.
fn has_root(url: &Url) -> (r: bool)
    ensures
        r == is_rooted(url_host(*url), url_path(*url)),
{
    match host_of(url) {
        Some(host) if !text_eq(host, "localhost") => {
            !host.is_empty() && names_something(path_of(url))
        },
        _ => !is_drive_alone(path_of(url)),
    }
}

/// The URI of the root of the drive that a URL's path is.
pub open spec fn drive_root(path: Seq<char>) -> Seq<char> {
    "file://"@ + path + "/"@
}

/// Whether a URL may stand for this path: only one that is rooted stands for any.
pub open spec fn may_be_rooted_path(url: Option<Url>, path: Option<PathBuf>) -> bool {
    match url {
        Some(url) if is_rooted(url_host(url), url_path(url)) => may_be_file_path(url, path),
        _ => path is None,
    }
}

/// Whether a URI may stand for this path: only a `file` URL stands for any. A drive alone
/// stands for the root of the drive, and another machine without a share for nothing.
pub open spec fn may_be_path_of(uri: Seq<char>, path: Option<PathBuf>) -> bool {
    match url_parse(uri) {
        Some(url) if url_scheme(url) == "file"@ => if !is_remote(url_host(url)) && is_bare_drive(
            url_path(url),
        ) {
            may_be_rooted_path(url_parse(drive_root(url_path(url))), path)
        } else {
            may_be_rooted_path(Some(url), path)
        },
        _ => path is None,
    }
}

/// The path that a URL stands for, where it is rooted.
fn rooted_path(url: Option<Url>) -> (r: Option<PathBuf>)
    ensures
        may_be_rooted_path(url, r),
{
    match url {
        Some(url) => if has_root(&url) {
            file_path_of(&url)
        } else {
            None
        },
        None => None,
    }
}

/// The path that a `file` URI stands for, where it stands for one.
pub fn uri_to_path(uri: &str) -> (r: Option<PathBuf>)
    ensures
        may_be_path_of(uri@, r),
{
    let url: Url = match parse_url(uri) {
        Some(url) => url,
        None => {
            return None;
        },
    };
    if !text_eq(scheme_of(&url), "file") {
        return None;
    }
    let remote: bool = match host_of(&url) {
        Some(host) => !text_eq(host, "localhost"),
        None => false,
    };
    if !remote && is_drive_alone(path_of(&url)) {
        let mut root: String = "file://".to_owned();
        root.append(path_of(&url));
        root.append("/");
        return rooted_path(parse_url(root.as_str()));
    }
    rooted_path(Some(url))
}

/// The text of a path that may be absent.
pub open spec fn path_text_or_empty(path: Option<PathBuf>) -> Seq<char> {
    match path {
        Some(p) => path_text(p),
        None => Seq::empty(),
    }
}

/// Whether this may be the text of the first workspace folder's path: it is empty where
/// there is no folder, or its URI stands for no path.
pub open spec fn may_be_project_path(folders: Seq<FolderModel>, text: Seq<char>) -> bool {
    if folders.len() == 0 {
        text == Seq::<char>::empty()
    } else {
        exists|path: Option<PathBuf>| #[trigger]
            may_be_path_of(folders[0].uri, path) && text == path_text_or_empty(path)
    }
}

/// The text of the first workspace folder's path, or nothing where it has none.
pub fn project_path(folders: &Vec<WorkspaceFolder>) -> (r: String)
    ensures
        may_be_project_path(folder_models(folders@), r@),
{
    if folders.len() == 0 {
        return String::new();
    }
    let path: Option<PathBuf> = uri_to_path(folders[0].uri.as_str());
    assert(may_be_path_of(folder_models(folders@)[0].uri, path));
    match path {
        Some(p) => path_to_text(&p),
        None => String::new(),
    }
}

/// Only a `file` URI stands for a path: a text that is no URL, and a URL of another scheme,
/// stand for none.
pub proof fn law_only_file_uris_stand_for_paths(uri: Seq<char>, url: Url, path: PathBuf)
    ensures
        url_parse(uri) is None ==> !may_be_path_of(uri, Some(path)) && may_be_path_of(uri, None),
        url_parse(uri) == Some(url) && url_scheme(url) != "file"@ ==> !may_be_path_of(
            uri,
            Some(path),
        ) && may_be_path_of(uri, None),
{
}

/// The path of a `file` URI on this machine is the one of its URL, as it is parsed, unless
/// it is a drive alone, which stands for the root of the drive; and so it is on another
/// machine, where the path begins with the name of a share.
pub proof fn law_file_uris_stand_for_the_path_of_their_url(
    uri: Seq<char>,
    url: Url,
    path: Option<PathBuf>,
    root: Url,
)
    requires
        url_parse(uri) == Some(url),
        url_scheme(url) == "file"@,
    ensures
        ({
            let local = url_host(url) is None || url_host(url) == Some("localhost"@);
            let text = url_path(url);
            &&& local && !is_bare_drive(text) ==> (may_be_path_of(uri, path) <==> may_be_file_path(
                url,
                path,
            ))
            &&& local && is_bare_drive(text) && url_parse("file://"@ + text + "/"@) == Some(root)
                && url_host(root) is None && !is_bare_drive(url_path(root)) ==> (may_be_path_of(
                uri,
                path,
            ) <==> may_be_file_path(root, path))
            &&& !local && url_host(url)->0.len() > 0 && begins_with_name(text) ==> (may_be_path_of(
                uri,
                path,
            ) <==> may_be_file_path(url, path))
            &&& !local && !begins_with_name(text) ==> (may_be_path_of(uri, path) <==> path is None)
        }),
{
}

/// A drive alone is a letter and a colon behind a slash, the colon as it is or encoded.
pub proof fn law_what_a_drive_alone_is(path: Seq<char>, c: char)
    ensures
        is_letter(c) <==> 'a' <= c <= 'z' || 'A' <= c <= 'Z',
        is_letter(c) ==> is_bare_drive(seq!['/', c, ':']) && is_bare_drive(
            seq!['/', c, '%', '3', 'A'],
        ) && is_bare_drive(seq!['/', c, '%', '3', 'a']),
        is_bare_drive(path) ==> exists|d: char| #[trigger]
            is_letter(d) && (path == seq!['/', d, ':'] || path == seq!['/', d, '%', '3', 'A']
                || path == seq!['/', d, '%', '3', 'a']),
{
    if is_bare_drive(path) {
        let d = path[1];
        assert(is_letter(d));
        if path.len() == 3 {
            assert(path =~= seq!['/', d, ':']);
        } else if path[4] == 'A' {
            assert(path =~= seq!['/', d, '%', '3', 'A']);
        } else {
            assert(path =~= seq!['/', d, '%', '3', 'a']);
        }
    }
}

/// A path begins with a name where its first character behind the slash is no separator.
pub proof fn law_what_begins_with_a_name(c: char, rest: Seq<char>)
    ensures
        c != '/' && c != '\\' && c != '%' ==> begins_with_name(seq!['/', c] + rest),
        !begins_with_name(seq!['/', '/'] + rest),
        !begins_with_name(seq!['/', '\\'] + rest),
        !begins_with_name(seq!['/', '%', '2', 'F'] + rest),
        !begins_with_name(seq!['/', '%', '2', 'f'] + rest),
        !begins_with_name(seq!['/', '%', '5', 'C'] + rest),
        !begins_with_name(seq!['/', '%', '5', 'c'] + rest),
        !begins_with_name(seq!['/']),
{
    assert((seq!['/', c] + rest)[0] == '/' && (seq!['/', c] + rest)[1] == c);
    assert((seq!['/', '/'] + rest)[1] == '/');
    assert((seq!['/', '\\'] + rest)[1] == '\\');
    let a = seq!['/', '%', '2', 'F'] + rest;
    let b = seq!['/', '%', '2', 'f'] + rest;
    let d = seq!['/', '%', '5', 'C'] + rest;
    let e = seq!['/', '%', '5', 'c'] + rest;
    assert(a[1] == '%' && a[2] == '2' && a[3] == 'F');
    assert(b[1] == '%' && b[2] == '2' && b[3] == 'f');
    assert(d[1] == '%' && d[2] == '5' && d[3] == 'C');
    assert(e[1] == '%' && e[2] == '5' && e[3] == 'c');
}

/// The path of the project is the text of the first folder's path, and nothing where there
/// is no folder or its URI stands for no path.
pub proof fn law_the_first_folder_is_the_project(
    folder: FolderModel,
    others: Seq<FolderModel>,
    text: Seq<char>,
)
    ensures
        may_be_project_path(Seq::empty(), text) <==> text.len() == 0,
        may_be_project_path(seq![folder] + others, text) <==> {
            ||| may_be_path_of(folder.uri, None) && text.len() == 0
            ||| exists|path: PathBuf| #[trigger]
                may_be_path_of(folder.uri, Some(path)) && text == path_text(path)
        },
{
    let folders = seq![folder] + others;
    assert(folders[0] == folder);
    if may_be_project_path(folders, text) {
        let path = choose|path: Option<PathBuf>| #[trigger]
            may_be_path_of(folders[0].uri, path) && text == path_text_or_empty(path);
        if let Some(p) = path {
            assert(may_be_path_of(folder.uri, Some(p)));
        }
    }
    if may_be_path_of(folder.uri, None) && text.len() == 0 {
        assert(text =~= path_text_or_empty(None));
        assert(may_be_path_of(folders[0].uri, None));
    }
    if exists|path: PathBuf| #[trigger]
        may_be_path_of(folder.uri, Some(path)) && text == path_text(path) {
        let p = choose|path: PathBuf| #[trigger]
            may_be_path_of(folder.uri, Some(path)) && text == path_text(path);
        assert(text == path_text_or_empty(Some(p)));
        assert(may_be_path_of(folders[0].uri, Some(p)));
    }
    if may_be_project_path(Seq::empty(), text) || text.len() == 0 {
        assert(text =~= Seq::empty());
    }
}

} // verus!
