//! What the program makes of its arguments.
use vstd::prelude::*;
use dashmap::DashMap;
#[allow(unused_imports)]
use crate::file::opt_text;
#[allow(unused_imports)]
use crate::outside::{texts_in, texts_insert, texts_new};
use crate::text::{split, split_once, trim};
#[allow(unused_imports)]
use crate::text::{cut_once, law_cut_is_at_the_first, pieces, texts, trimmed};

verus! {

/// Why the program does not start.
#[derive(Debug, Clone, Copy, PartialEq, Eq, Structural)]
pub enum StartError {
    /// A user without a password, or the other way round.
    IncompleteAuth,
    /// A certificate without a key, or the other way round.
    IncompleteTls,
}

impl StartError {
    /// The reason in words.
    pub fn message(&self) -> (res: String)
        ensures
            res@ == match *self {
                StartError::IncompleteAuth =>
                "auth-user and auth-password must be specified together."@,
                StartError::IncompleteTls => "tls-cert and tls-key must be specified together."@,
            },
    {
        match self {
            StartError::IncompleteAuth =>
            "auth-user and auth-password must be specified together.".to_owned(),
            StartError::IncompleteTls =>
            "tls-cert and tls-key must be specified together.".to_owned(),
        }
    }
}

/// The name and value that one piece of a cookie text gives, if it gives any.
pub open spec fn cookie_in(piece: Seq<char>) -> Option<(Seq<char>, Seq<char>)> {
    match cut_once(trimmed(piece), '=') {
        Some((name, value)) => Some((trimmed(name), trimmed(value))),
        None => None,
    }
}

/// The cookies that a run of pieces gives; of two with the same name the later one counts.
pub open spec fn cookies_in(parts: Seq<Seq<char>>) -> Map<Seq<char>, Seq<char>>
    decreases parts.len(),
{
    if parts.len() == 0 {
        Map::empty()
    } else {
        let before = cookies_in(parts.drop_last());
        match cookie_in(parts.last()) {
            Some((name, value)) => before.insert(name, value),
            None => before,
        }
    }
}

/// The cookies of a text like `name=value; name=value`.
pub fn parse_cookies(text: &str) -> (res: DashMap<String, String>)
    ensures
        texts_in(res) == cookies_in(pieces(text@, ';')),
{
    let parts = split(text, ';');
    let mut cookies = texts_new();
    let mut i: usize = 0;
    let ghost all = texts(parts@);
    while i < parts.len()
        invariant
            i <= parts.len(),
            all == texts(parts@),
            texts_in(cookies) == cookies_in(all.take(i as int)),
        decreases parts.len() - i,
    {
        assert(all.take(i + 1).drop_last() =~= all.take(i as int));
        assert(all.take(i + 1).last() == parts@[i as int]@);
        if let Some((name, value)) = split_once(trim(parts[i].as_str()).as_str(), '=') {
            texts_insert(&mut cookies, trim(name.as_str()), trim(value.as_str()));
        }
        i += 1;
    }
    assert(all.take(i as int) =~= all);
    cookies
}

/// Two values that make sense only together: both, neither, or an error.
pub open spec fn together(
    a: Option<Seq<char>>,
    b: Option<Seq<char>>,
    e: StartError,
) -> Result<Option<(Seq<char>, Seq<char>)>, StartError> {
    match (a, b) {
        (Some(x), Some(y)) => Ok(Some((x, y))),
        (None, None) => Ok(None),
        _ => Err(e),
    }
}

/// What a pair of values that make sense only together says.
pub open spec fn pair_view(res: Result<Option<(String, String)>, StartError>) -> Result<
    Option<(Seq<char>, Seq<char>)>,
    StartError,
> {
    match res {
        Ok(Some((x, y))) => Ok(Some((x@, y@))),
        Ok(None) => Ok(None),
        Err(e) => Err(e),
    }
}

fn both_or_neither(a: Option<String>, b: Option<String>, e: StartError) -> (res: Result<
    Option<(String, String)>,
    StartError,
>)
    ensures
        pair_view(res) == together(opt_text(a), opt_text(b), e),
{
    match (a, b) {
        (Some(x), Some(y)) => Ok(Some((x, y))),
        (None, None) => Ok(None),
        _ => Err(e),
    }
}

/// The user and password that clients have to give, if any.
pub fn auth_config(user: Option<String>, password: Option<String>) -> (res: Result<
    Option<(String, String)>,
    StartError,
>)
    ensures
        pair_view(res) == together(
            opt_text(user),
            opt_text(password),
            StartError::IncompleteAuth,
        ),
{
    both_or_neither(user, password, StartError::IncompleteAuth)
}

/// The paths of the certificate and of the key, if any.
pub fn tls_config(cert: Option<String>, key: Option<String>) -> (res: Result<
    Option<(String, String)>,
    StartError,
>)
    ensures
        pair_view(res) == together(opt_text(cert), opt_text(key), StartError::IncompleteTls),
{
    both_or_neither(cert, key, StartError::IncompleteTls)
}

/// The log filter where none is set.
pub fn default_log_filter(debug: bool) -> (res: String)
    ensures
        res@ == if debug {
            "quarkdrive_webdav=debug,reqwest=debug"@
        } else {
            "quarkdrive_webdav=info,reqwest=warn"@
        },
{
    if debug {
        "quarkdrive_webdav=debug,reqwest=debug".to_owned()
    } else {
        "quarkdrive_webdav=info,reqwest=warn".to_owned()
    }
}

/// Two values that make sense only together are taken exactly if both are given, each in its
/// place, and refused exactly if one of them is missing.
pub proof fn law_both_or_neither(a: Option<Seq<char>>, b: Option<Seq<char>>, e: StartError)
    ensures
        together(a, b, e) is Err <==> (a is Some) != (b is Some),
        together(a, b, e) matches Err(given) ==> given == e,
        together(a, b, e) matches Ok(Some(pair)) ==> a == Some(pair.0) && b == Some(pair.1),
        together(a, b, e) matches Ok(None) ==> a is None && b is None,
{
}

/// A piece gives a cookie exactly if there is a `=` in it. What stands before the first one is
/// the name, and what stands behind it the value, both without white space at either end.
pub proof fn law_cookie_is_a_name_and_a_value(piece: Seq<char>, head: Seq<char>, tail: Seq<char>)
    ensures
        trimmed(piece) == head + seq!['='] + tail && !head.contains('=') ==> cookie_in(piece)
            == Some((trimmed(head), trimmed(tail))),
        cookie_in(piece) is None <==> !trimmed(piece).contains('='),
{
    law_cut_is_at_the_first(trimmed(piece), '=', head, tail);
}

/// Whether a piece gives a cookie of that name.
pub open spec fn gives(piece: Seq<char>, name: Seq<char>) -> bool {
    cookie_in(piece) matches Some(cookie) && cookie.0 == name
}

/// A name has the value that the last piece with that name gives, and a name that no piece has
/// is not there.
pub proof fn law_last_cookie_of_a_name_counts(
    parts: Seq<Seq<char>>,
    name: Seq<char>,
    value: Seq<char>,
    i: int,
)
    ensures
        0 <= i < parts.len() && cookie_in(parts[i]) == Some((name, value)) && (forall|j: int|
            i < j < parts.len() ==> !gives(#[trigger] parts[j], name)) ==> cookies_in(
            parts,
        ).contains_key(name) && cookies_in(parts)[name] == value,
        (forall|j: int| 0 <= j < parts.len() ==> !gives(#[trigger] parts[j], name))
            ==> !cookies_in(parts).contains_key(name),
    decreases parts.len(),
{
    if parts.len() > 0 {
        let front = parts.drop_last();
        law_last_cookie_of_a_name_counts(front, name, value, i);
        assert(forall|j: int| 0 <= j < front.len() ==> #[trigger] front[j] == parts[j]);
        assert(parts.last() == parts[parts.len() - 1]);
    }
}

}
