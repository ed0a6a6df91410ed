//! URLs: whether one is usable, and the file name that its path suggests.

use crate::dncli::DncliError;
use vstd::prelude::*;

verus! {

/// What `url::Url::parse` makes of `input`. For an absolute URL it is `Ok`
/// with the path of the parsed URL, as `Url::path` gives it; for anything else
/// it is `Err` with the text of the parser's error, as the `Display` impl of
/// `url::ParseError` gives it.
pub uninterp spec fn parsed_url(input: Seq<char>) -> Result<Seq<char>, Seq<char>>;

/// The path of the URL `input`, or `None` where `input` is not an absolute URL.
pub open spec fn parsed_url_path(input: Seq<char>) -> Option<Seq<char>> {
    match parsed_url(input) {
        Ok(path) => Some(path),
        Err(_) => None,
    }
}

/// The parser's complaint about `input`, where `input` is not an absolute URL.
pub open spec fn url_parse_error_text(input: Seq<char>) -> Seq<char> {
    match parsed_url(input) {
        Ok(_) => Seq::empty(),
        Err(text) => text,
    }
}

/// Calls `url::Url::parse`, and hands back the path of the URL (`Url::path`)
/// or the text of the error (`to_string` of `url::ParseError`). What comes back
/// is a function of `input` alone, named `parsed_url`; nothing more is claimed
/// of it.
#[verifier::external_body]
fn parse_url(input: &str) -> (r: Result<String, String>)
    ensures
        match r {
            Ok(path) => parsed_url(input@) == Ok::<Seq<char>, Seq<char>>(path@),
            Err(text) => parsed_url(input@) == Err::<Seq<char>, Seq<char>>(text@),
        },
{
    match url::Url::parse(input) {
        Ok(parsed) => Ok(parsed.path().to_string()),
        Err(error) => Err(error.to_string()),
    }
}

/// Whether `error` is the refusal of `input` as a URL: a parse error that
/// carries the parser's complaint.
pub open spec fn refuses_url(error: DncliError, input: Seq<char>) -> bool {
    &&& parsed_url(input) is Err
    &&& error is UrlParse
    &&& error.detail() == url_parse_error_text(input)
}

/// The path of the absolute URL `url`.
pub fn url_path(url: &str) -> (r: Result<String, DncliError>)
    ensures
        match r {
            Ok(path) => parsed_url_path(url@) == Some(path@),
            Err(error) => refuses_url(error, url@),
        },
{
    match parse_url(url) {
        Ok(path) => Ok(path),
        Err(text) => Err(DncliError::UrlParse(text)),
    }
}

/// Accepts `url` if it is an absolute URL.
pub fn check_url(url: &str) -> (r: Result<(), DncliError>)
    ensures
        r is Ok <==> parsed_url_path(url@) is Some,
        r matches Err(error) ==> refuses_url(error, url@),
{
    match url_path(url) {
        Ok(_) => Ok(()),
        Err(error) => Err(error),
    }
}

/// What follows the last `/` of `text`; all of `text` if it has none.
pub open spec fn after_last_slash(text: Seq<char>) -> Seq<char>
    decreases text.len(),
{
    if text.len() == 0 || text.last() == '/' {
        Seq::empty()
    } else {
        after_last_slash(text.drop_last()).push(text.last())
    }
}

/// The file name that a URL path suggests: its last segment, unless that is
/// empty. A path that does not start with `/` has no segments.
pub open spec fn path_file_name(path: Seq<char>) -> Option<Seq<char>> {
    if path.len() == 0 || path[0] != '/' || after_last_slash(path).len() == 0 {
        None
    } else {
        Some(after_last_slash(path))
    }
}

/// `after_last_slash` is the tail of the text behind its last slash.
proof fn lemma_after_last_slash(text: Seq<char>, cut: int)
    requires
        0 <= cut <= text.len(),
        cut > 0 ==> text[cut - 1] == '/',
        cut == 0 ==> forall|i: int| 0 <= i < text.len() ==> text[i] != '/',
        forall|i: int| cut <= i < text.len() ==> text[i] != '/',
    ensures
        after_last_slash(text) =~= text.subrange(cut, text.len() as int),
    decreases text.len(),
{
    if text.len() > cut {
        let shorter = text.drop_last();
        lemma_after_last_slash(shorter, cut);
        assert(shorter.subrange(cut, shorter.len() as int).push(text.last()) =~= text.subrange(
            cut,
            text.len() as int,
        ));
    }
}

/// The file name that the URL path `path` suggests, if it suggests one.
pub fn file_name_of_path(path: &str) -> (name: Option<String>)
    ensures
        match name {
            Some(text) => path_file_name(path@) == Some(text@),
            None => path_file_name(path@) is None,
        },
{
    let len = path.unicode_len();
    if len == 0 || path.get_char(0) != '/' {
        return None;
    }
    let mut cut: usize = len;
    while cut > 0 && path.get_char(cut - 1) != '/'
        invariant
            0 <= cut <= len,
            len == path@.len(),
            forall|i: int| cut <= i < len ==> path@[i] != '/',
        decreases cut,
    {
        cut = cut - 1;
    }
    proof {
        lemma_after_last_slash(path@, cut as int);
    }
    if cut == len {
        None
    } else {
        Some(String::from_str(path.substring_char(cut, len)))
    }
}

/// The file name that the absolute URL `url` suggests, if it suggests one.
pub fn file_name_from_url(url: &str) -> (r: Result<Option<String>, DncliError>)
    ensures
        match r {
            Ok(Some(name)) => parsed_url_path(url@) matches Some(path) && path_file_name(path)
                == Some(name@),
            Ok(None) => parsed_url_path(url@) matches Some(path) && path_file_name(path) is None,
            Err(error) => refuses_url(error, url@),
        },
{
    match url_path(url) {
        Ok(path) => Ok(file_name_of_path(path.as_str())),
        Err(error) => Err(error),
    }
}

/// The output name that stands for "none chosen".
pub open spec fn default_output_name() -> Seq<char> {
    "output.bin"@
}

/// The output name for a download of a URL whose path is `path`: the name
/// asked for, unless that is the default and the path suggests a better one.
pub open spec fn output_name_for(path: Seq<char>, requested: Seq<char>) -> Seq<char> {
    if requested == default_output_name() {
        match path_file_name(path) {
            Some(name) => name,
            None => requested,
        }
    } else {
        requested
    }
}

/// Settles the name of the output file. A name other than the default is
/// taken as it is, whatever the URL; for the default, the URL is parsed, and
/// the last segment of its path is taken if there is one.
pub fn resolve_output_name(url: &str, requested: &str) -> (r: Result<String, DncliError>)
    ensures
        match r {
            Ok(name) => if requested@ == default_output_name() {
                parsed_url_path(url@) matches Some(path) && name@ == output_name_for(
                    path,
                    requested@,
                )
            } else {
                name@ == requested@
            },
            Err(error) => requested@ == default_output_name() && refuses_url(error, url@),
        },
{
    let requested = String::from_str(requested);
    if requested == String::from_str("output.bin") {
        match file_name_from_url(url) {
            Ok(Some(name)) => Ok(name),
            Ok(None) => Ok(requested),
            Err(error) => Err(error),
        }
    } else {
        Ok(requested)
    }
}

} // verus!
