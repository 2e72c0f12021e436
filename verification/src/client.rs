//! HTTP clients, as `surf` configures them.

use surf::{Client, Config};
use url::Url;
use vstd::prelude::*;

verus! {

/// `surf::Config`, what an HTTP client is made from. It carries the headers of every request.
#[verifier::external_type_specification]
#[verifier::external_body]
pub struct ExConfig(surf::Config);

/// `surf::Client`, an HTTP client.
#[verifier::external_type_specification]
#[verifier::external_body]
pub struct ExClient(surf::Client);

/// `surf::Error`, the reason why a header was turned down.
#[verifier::external_type_specification]
#[verifier::external_body]
pub struct ExSurfError(surf::Error);

/// `url::ParseError`, the reason why a text is no URL.
#[verifier::external_type_specification]
#[verifier::external_body]
pub struct ExParseError(url::ParseError);

/// The headers that a configuration holds: its field `headers`, from lower-case names to the values
/// of each.
pub uninterp spec fn config_headers(config: Config) -> Map<Seq<char>, Seq<Seq<char>>>;

/// The text of the URL that a configuration's requests are relative to: its field `base_url`.
pub uninterp spec fn config_base_url(config: Config) -> Option<Seq<char>>;

/// The headers of the configuration that a client works with, which `Client::config` gives.
pub uninterp spec fn client_headers(client: Client) -> Map<Seq<char>, Seq<Seq<char>>>;

/// The text of the base URL of the configuration that a client works with.
pub uninterp spec fn client_base_url(client: Client) -> Option<Seq<char>>;

/// What `url::Url::parse` makes of a text: the text of the URL (`Url::as_str`), or nothing where
/// the text is no URL.
pub uninterp spec fn parsed_url(input: Seq<char>) -> Option<Seq<char>>;

/// No header at all.
pub open spec fn no_headers() -> Map<Seq<char>, Seq<Seq<char>>> {
    Map::empty()
}

/// `s` with the letters `A` to `Z` in lower case.
pub open spec fn ascii_lowercase(s: Seq<char>) -> Seq<char> {
    s.map_values(
        |c: char|
            if 'A' <= c <= 'Z' {
                (c as int + 32) as char
            } else {
                c
            },
    )
}

/// `surf::Config::new`: the configuration has no header and no base URL.
pub assume_specification[ surf::Config::new ]() -> (config: Config)
    ensures
        config_headers(config) == no_headers(),
        config_base_url(config) is None,
;

/// Calls `surf::Config::add_header`.
///
/// The header is turned down exactly when its value is not all ASCII. Otherwise it is kept
/// under its name in lower case, as the only value there, and nothing else changes. A name
/// that is not all ASCII makes the call panic and is left out.
#[verifier::external_body]
pub(crate) fn add_header(config: Config, name: &str, value: &str) -> (result: Result<Config, surf::Error>)
    requires
        vstd::string::is_ascii(name),
    ensures
        result is Ok <==> vstd::string::is_ascii(value),
        result matches Ok(new) ==> config_headers(new) == config_headers(config).insert(
            ascii_lowercase(name@),
            seq![value@],
        ),
        result matches Ok(new) ==> config_base_url(new) == config_base_url(config),
{
    config.add_header(name, value)
}

/// Calls `url::Url::parse` and hands the URL to `surf::Config::set_base_url`.
///
/// Fails exactly when the text is no URL. Otherwise the parsed URL becomes the base URL and the
/// headers stay.
#[verifier::external_body]
pub(crate) fn set_base_url(config: Config, base: &str) -> (result: Result<Config, url::ParseError>)
    ensures
        result is Ok <==> parsed_url(base@) is Some,
        result matches Ok(new) ==> config_base_url(new) == parsed_url(base@),
        result matches Ok(new) ==> config_headers(new) == config_headers(config),
{
    Ok(config.set_base_url(Url::parse(base)?))
}

/// Calls the conversion of a `surf::Config` to a `surf::Client`, which cannot fail: its error
/// type has no value. The client works with that configuration.
#[verifier::external_body]
pub(crate) fn into_client(config: Config) -> (client: Client)
    ensures
        client_headers(client) == config_headers(config),
        client_base_url(client) == config_base_url(config),
{
    config.try_into().unwrap()
}

/// Why a client cannot be made.
#[derive(Clone, Copy, Debug, PartialEq, Eq, Structural)]
pub enum ClientError {
    /// The endpoint is no URL.
    InvalidUrl,
    /// A header's value is not all ASCII.
    InvalidHeader,
}

/// Lower case changes the letters from `A` to `Z` to their small forms and nothing else.
pub proof fn lower_case_changes_capitals_only(s: Seq<char>, i: int, letter: int)
    requires
        0 <= i < s.len(),
        0 <= letter < 26,
    ensures
        ascii_lowercase(s).len() == s.len(),
        s[i] == "ABCDEFGHIJKLMNOPQRSTUVWXYZ"@[letter] ==> ascii_lowercase(s)[i]
            == "abcdefghijklmnopqrstuvwxyz"@[letter],
        !('A' <= s[i] <= 'Z') ==> ascii_lowercase(s)[i] == s[i],
{
    reveal_strlit("ABCDEFGHIJKLMNOPQRSTUVWXYZ");
    reveal_strlit("abcdefghijklmnopqrstuvwxyz");
}

} // verus!
