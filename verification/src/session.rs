//! What a request brings along besides its body: the language of the user,
//! the program that made it, and the claims of a login link.

use vstd::prelude::*;
use crate::text::chars_of;

verus! {

/// The language in which a user is answered.
#[derive(Debug, PartialEq)]
pub struct I18n<'a> {
    pub locale: &'a str,
}

impl<'a> I18n<'a> {
    pub fn new(locale: &'a str) -> (i18n: Self)
        ensures
            i18n.locale@ == locale@,
    {
        Self { locale }
    }
}

/// The language that a list of accepted languages asks for first among
/// those that are spoken here, from `from` on: the entries are separated by
/// commas, and of each entry only what stands before its first semicolon
/// counts. An entry that begins with `en` asks for English, one that
/// begins with `zh` for Chinese.
pub open spec fn accepted_from(accept: Seq<char>, from: int, at_start: bool) -> Option<bool>
    decreases accept.len() - from,
{
    if from < 0 || from >= accept.len() {
        None
    } else if at_start && from + 1 < accept.len() && accept[from] == 'e' && accept[from + 1]
        == 'n' {
        Some(true)
    } else if at_start && from + 1 < accept.len() && accept[from] == 'z' && accept[from + 1]
        == 'h' {
        Some(false)
    } else {
        accepted_from(accept, from + 1, accept[from] == ',')
    }
}

/// The name of the language to answer in: what the user has set, or else
/// what the accepted languages ask for first; English if neither tells.
pub open spec fn chosen_locale(user_locale: Option<Seq<char>>, accept: Option<Seq<char>>) -> Seq<
    char,
> {
    match user_locale {
        Some(locale) => locale,
        None => match accept {
            Some(list) => match accepted_from(list, 0, true) {
                Some(false) => "zh"@,
                _ => "en"@,
            },
            None => "en"@,
        },
    }
}

/// The language that a list of accepted languages asks for first: `true`
/// for English, `false` for Chinese, none if it asks for neither.
pub fn accepted_locale(accept_language: &str) -> (english: Option<bool>)
    ensures
        english == accepted_from(accept_language@, 0, true),
{
    let chars = chars_of(accept_language);
    let mut i: usize = 0;
    let mut at_start = true;
    while i < chars.len()
        invariant
            i <= chars.len(),
            chars@ == accept_language@,
            accepted_from(chars@, 0, true) == accepted_from(chars@, i as int, at_start),
        decreases chars.len() - i,
    {
        if at_start && chars.len() - i > 1 {
            if chars[i] == 'e' && chars[i + 1] == 'n' {
                return Some(true);
            }
            if chars[i] == 'z' && chars[i + 1] == 'h' {
                return Some(false);
            }
        }
        at_start = chars[i] == ',';
        i += 1;
    }
    None
}

/// The language to answer in, given what the user has set for it and the
/// languages that the request accepts.
pub fn choose_locale<'a>(user_locale: Option<&'a str>, accept_language: Option<&'a str>) -> (i18n:
    I18n<'a>)
    ensures
        i18n.locale@ == chosen_locale(
            match user_locale {
                Some(l) => Some(l@),
                None => None,
            },
            match accept_language {
                Some(l) => Some(l@),
                None => None,
            },
        ),
{
    if let Some(locale) = user_locale {
        return I18n::new(locale);
    }
    if let Some(locales) = accept_language {
        if let Some(false) = accepted_locale(locales) {
            return I18n::new("zh");
        }
    }
    I18n::new("en")
}

/// The program that made a request.
#[derive(Debug, PartialEq)]
pub struct UserAgent(pub String);

impl UserAgent {
    /// The program that a request names, or `Unknown` if it names none.
    pub fn from_header(value: Option<&str>) -> (agent: UserAgent)
        ensures
            agent.0@ == match value {
                Some(name) => name@,
                None => "Unknown"@,
            },
    {
        match value {
            Some(name) => UserAgent(name.to_owned()),
            None => UserAgent("Unknown".to_owned()),
        }
    }
}

/// What a login link claims: who logs in, and from when until when the
/// link counts. Times are seconds since the Unix epoch.
#[derive(Debug, PartialEq)]
pub struct LoginClaims {
    pub exp: i64,
    pub iat: i64,
    pub sub: String,
    pub user_id: String,
}

/// For how many seconds a login link counts.
pub const LOGIN_TOKEN_SECONDS: i64 = 900;

impl LoginClaims {
    /// The claims of a link made at the time `now` for the user `user_id`:
    /// it counts for a quarter of an hour. None where that time cannot be
    /// told in 64 bits.
    pub fn new(user_id: String, now: i64) -> (claims: Option<LoginClaims>)
        ensures
            claims is Some <==> now + LOGIN_TOKEN_SECONDS <= i64::MAX,
            claims matches Some(made) ==> made.iat == now && made.exp == now + LOGIN_TOKEN_SECONDS
                && made.user_id == user_id && made.sub@ == "conf-ops-login"@,
    {
        if now > i64::MAX - LOGIN_TOKEN_SECONDS {
            return None;
        }
        Some(
            LoginClaims {
                exp: now + LOGIN_TOKEN_SECONDS,
                iat: now,
                sub: "conf-ops-login".to_owned(),
                user_id,
            },
        )
    }
}

} // verus!
