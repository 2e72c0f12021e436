//! The providers under test.

use surf::{Client, Config};
use vstd::prelude::*;

use crate::client::{add_header, into_client, set_base_url, ClientError};
use crate::success_rate::SuccessRate;
use crate::text::decimal_text;

verus! {

/// A provider and how it fared.
#[derive(Debug, PartialEq)]
pub enum Providers {
    PandaGeth(SuccessRate),
    PandaErigon(SuccessRate),
    PandaArchive(SuccessRate),
    Infura(SuccessRate),
}

/// Number of providers.
pub const PROVIDER_COUNT: usize = 4;

/// Every provider, with nothing asked for yet.
pub open spec fn all_providers() -> Seq<Providers> {
    seq![
        Providers::PandaGeth(SuccessRate::zero()),
        Providers::PandaErigon(SuccessRate::zero()),
        Providers::PandaArchive(SuccessRate::zero()),
        Providers::Infura(SuccessRate::zero()),
    ]
}

impl Providers {
    /// How the provider fared so far.
    pub open spec fn rate(self) -> SuccessRate {
        match self {
            Providers::PandaGeth(rate) => rate,
            Providers::PandaErigon(rate) => rate,
            Providers::PandaArchive(rate) => rate,
            Providers::Infura(rate) => rate,
        }
    }

    /// The same provider with another rate.
    pub open spec fn with_rate(self, rate: SuccessRate) -> Providers {
        match self {
            Providers::PandaGeth(_) => Providers::PandaGeth(rate),
            Providers::PandaErigon(_) => Providers::PandaErigon(rate),
            Providers::PandaArchive(_) => Providers::PandaArchive(rate),
            Providers::Infura(_) => Providers::Infura(rate),
        }
    }

    /// The provider's name.
    pub open spec fn name(self) -> Seq<char> {
        match self {
            Providers::PandaGeth(_) => "PandaGeth"@,
            Providers::PandaErigon(_) => "PandaErigon"@,
            Providers::PandaArchive(_) => "PandaArchive"@,
            Providers::Infura(_) => "Infura"@,
        }
    }

    /// The line that sums up the provider.
    pub open spec fn summary(self) -> Seq<char> {
        "Provider: "@ + self.name() + " // Failure Rate: "@ + crate::text::decimal(
            self.rate().failures as nat,
        ) + " / "@ + crate::text::decimal(self.rate().total as nat)
    }

    /// Where the provider is reached. Infura's address ends in the project's key.
    pub open spec fn address(self, infura_key: Seq<char>) -> Seq<char> {
        match self {
            Providers::PandaGeth(_) => "https://geth-lighthouse.mainnet.eu1.ethpandaops.io/"@,
            Providers::PandaErigon(_) => "https://erigon-lighthouse.mainnet.eu1.ethpandaops.io/"@,
            Providers::PandaArchive(_) => "https://archive.mainnet.ethpandaops.io/"@,
            Providers::Infura(_) => "https://mainnet.infura.io/v3/"@ + infura_key,
        }
    }

    /// Whether the headers that the provider is sent hold ASCII only.
    pub open spec fn accepts(self, client_id: Seq<char>, client_secret: Seq<char>) -> bool {
        self is Infura || (vstd::utf8::is_ascii_chars(client_id) && vstd::utf8::is_ascii_chars(
            client_secret,
        ))
    }

    /// The headers that the provider is sent, added to those that are there.
    pub open spec fn headers(
        self,
        there: Map<Seq<char>, Seq<Seq<char>>>,
        client_id: Seq<char>,
        client_secret: Seq<char>,
    ) -> Map<Seq<char>, Seq<Seq<char>>> {
        let common = there.insert("content-type"@, seq!["application/json"@]);
        if self is Infura {
            common
        } else {
            common.insert("cf-access-client-id"@, seq![client_id]).insert(
                "cf-access-client-secret"@,
                seq![client_secret],
            )
        }
    }

    /// The provider's name.
    pub fn to_string(&self) -> (name: String)
        ensures
            name@ == self.name(),
    {
        let name = match self {
            Providers::PandaGeth(_) => "PandaGeth",
            Providers::PandaErigon(_) => "PandaErigon",
            Providers::PandaArchive(_) => "PandaArchive",
            Providers::Infura(_) => "Infura",
        };
        name.to_owned()
    }

    /// The line that sums up how the provider fared.
    pub fn display_summary(&self) -> (line: String)
        ensures
            line@ == self.summary(),
    {
        let success_rate = match self {
            Providers::PandaGeth(success_rate)
            | Providers::PandaErigon(success_rate)
            | Providers::PandaArchive(success_rate)
            | Providers::Infura(success_rate) => success_rate,
        };
        let mut line = "Provider: ".to_owned();
        line.append(self.to_string().as_str());
        line.append(" // Failure Rate: ");
        line.append(decimal_text(success_rate.failures).as_str());
        line.append(" / ");
        line.append(decimal_text(success_rate.total).as_str());
        line
    }

    /// Adds the counts of a further round.
    pub fn update_success_rate(&mut self, failures: u64, total: u64)
        requires
            old(self).rate().has_room(failures, total),
        ensures
            *final(self) == old(self).with_rate(old(self).rate().plus(failures, total)),
    {
        match self {
            Providers::PandaGeth(success_rate) => success_rate.add_round(failures, total),
            Providers::PandaErigon(success_rate) => success_rate.add_round(failures, total),
            Providers::PandaArchive(success_rate) => success_rate.add_round(failures, total),
            Providers::Infura(success_rate) => success_rate.add_round(failures, total),
        }
    }

    /// Every provider, with nothing asked for yet.
    pub fn into_vec() -> (providers: Vec<Providers>)
        ensures
            providers@ == all_providers(),
    {
        vec![
            Providers::PandaGeth(SuccessRate::default()),
            Providers::PandaErigon(SuccessRate::default()),
            Providers::PandaArchive(SuccessRate::default()),
            Providers::Infura(SuccessRate::default()),
        ]
    }

    /// Where the provider is reached. Only Infura's address depends on the key.
    pub fn endpoint(&self, infura_key: &str) -> (address: String)
        ensures
            address@ == self.address(infura_key@),
    {
        match self {
            Providers::Infura(_) => {
                let mut address = "https://mainnet.infura.io/v3/".to_owned();
                address.append(infura_key);
                address
            }
            Providers::PandaGeth(_) => {
                "https://geth-lighthouse.mainnet.eu1.ethpandaops.io/".to_owned()
            }
            Providers::PandaErigon(_) => {
                "https://erigon-lighthouse.mainnet.eu1.ethpandaops.io/".to_owned()
            }
            Providers::PandaArchive(_) => "https://archive.mainnet.ethpandaops.io/".to_owned(),
        }
    }

    /// Adds the headers that the provider is sent. Infura is sent no client id and no secret.
    pub fn add_headers(&self, config: Config, client_id: &str, client_secret: &str) -> (result:
        Result<Config, ClientError>)
        ensures
            result is Ok <==> self.accepts(client_id@, client_secret@),
            result is Err ==> result == Err::<Config, ClientError>(ClientError::InvalidHeader),
            result matches Ok(new) ==> crate::client::config_headers(new) == self.headers(
                crate::client::config_headers(config),
                client_id@,
                client_secret@,
            ),
            result matches Ok(new) ==> crate::client::config_base_url(new)
                == crate::client::config_base_url(config),
    {
        proof {
            header_names();
        }
        let config = match add_header(config, "Content-Type", "application/json") {
            Ok(config) => config,
            Err(_) => return Err(ClientError::InvalidHeader),
        };
        match self {
            Providers::Infura(_) => Ok(config),
            _ => {
                let config = match add_header(config, "CF-Access-Client-Id", client_id) {
                    Ok(config) => config,
                    Err(_) => return Err(ClientError::InvalidHeader),
                };
                match add_header(config, "CF-Access-Client-Secret", client_secret) {
                    Ok(config) => Ok(config),
                    Err(_) => Err(ClientError::InvalidHeader),
                }
            }
        }
    }

    /// An HTTP client for the provider.
    ///
    /// Fails when the address is no URL, and after that when a header is not all ASCII.
    pub fn get_client(&self, infura_key: &str, client_id: &str, client_secret: &str) -> (result:
        Result<Client, ClientError>)
        ensures
            match crate::client::parsed_url(self.address(infura_key@)) {
                None => result == Err::<Client, ClientError>(ClientError::InvalidUrl),
                Some(url) => {
                    if self.accepts(client_id@, client_secret@) {
                        &&& result is Ok
                        &&& crate::client::client_base_url(result->Ok_0) == Some(url)
                        &&& crate::client::client_headers(result->Ok_0) == self.headers(
                            crate::client::no_headers(),
                            client_id@,
                            client_secret@,
                        )
                    } else {
                        result == Err::<Client, ClientError>(ClientError::InvalidHeader)
                    }
                },
            },
    {
        let address = self.endpoint(infura_key);
        let config = match set_base_url(Config::new(), address.as_str()) {
            Ok(config) => config,
            Err(_) => return Err(ClientError::InvalidUrl),
        };
        match self.add_headers(config, client_id, client_secret) {
            Ok(config) => Ok(into_client(config)),
            Err(error) => Err(error),
        }
    }
}

/// Credentials go only where they belong: Infura's headers hold neither client id nor secret,
/// and the other providers' addresses do not hold Infura's key.
pub proof fn credentials_stay_apart(
    provider: Providers,
    infura_key: Seq<char>,
    client_id: Seq<char>,
    client_secret: Seq<char>,
    other_key: Seq<char>,
    other_id: Seq<char>,
    other_secret: Seq<char>,
)
    ensures
        provider is Infura ==> provider.headers(
            crate::client::no_headers(),
            client_id,
            client_secret,
        ) == provider.headers(crate::client::no_headers(), other_id, other_secret),
        provider !is Infura ==> provider.address(infura_key) == provider.address(other_key),
{
}

/// Every header arrives: no name overwrites another.
pub proof fn headers_arrive(provider: Providers, client_id: Seq<char>, client_secret: Seq<char>)
    ensures
        ({
            let sent = provider.headers(crate::client::no_headers(), client_id, client_secret);
            &&& sent.dom().contains("content-type"@)
            &&& sent["content-type"@] == seq!["application/json"@]
            &&& sent.dom().contains("cf-access-client-id"@) <==> provider !is Infura
            &&& sent.dom().contains("cf-access-client-secret"@) <==> provider !is Infura
            &&& provider !is Infura ==> sent["cf-access-client-id"@] == seq![client_id]
            &&& provider !is Infura ==> sent["cf-access-client-secret"@] == seq![client_secret]
        }),
{
    reveal_strlit("content-type");
    reveal_strlit("cf-access-client-id");
    reveal_strlit("cf-access-client-secret");
    assert("content-type"@.len() == 12);
    assert("cf-access-client-id"@.len() == 19);
    assert("cf-access-client-secret"@.len() == 23);
}

/// The header names and the content type are ASCII; in lower case the names read as the
/// contracts spell them.
proof fn header_names()
    ensures
        vstd::string::is_ascii("Content-Type"),
        vstd::string::is_ascii("CF-Access-Client-Id"),
        vstd::string::is_ascii("CF-Access-Client-Secret"),
        vstd::string::is_ascii("application/json"),
        crate::client::ascii_lowercase("Content-Type"@) == "content-type"@,
        crate::client::ascii_lowercase("CF-Access-Client-Id"@) == "cf-access-client-id"@,
        crate::client::ascii_lowercase("CF-Access-Client-Secret"@) == "cf-access-client-secret"@,
{
    reveal_strlit("Content-Type");
    reveal_strlit("content-type");
    reveal_strlit("CF-Access-Client-Id");
    reveal_strlit("cf-access-client-id");
    reveal_strlit("CF-Access-Client-Secret");
    reveal_strlit("cf-access-client-secret");
    reveal_strlit("application/json");
}

/// Every provider holds the rate that it was made with, under its own name.
pub proof fn providers_hold_what_they_are_made_with(rate: SuccessRate)
    ensures
        Providers::PandaGeth(rate).rate() == rate,
        Providers::PandaGeth(rate).name() == "PandaGeth"@,
        Providers::PandaErigon(rate).rate() == rate,
        Providers::PandaErigon(rate).name() == "PandaErigon"@,
        Providers::PandaArchive(rate).rate() == rate,
        Providers::PandaArchive(rate).name() == "PandaArchive"@,
        Providers::Infura(rate).rate() == rate,
        Providers::Infura(rate).name() == "Infura"@,
{
}

/// Replacing the rate replaces nothing else.
pub proof fn rates_are_replaced_alone(provider: Providers, rate: SuccessRate, key: Seq<char>)
    ensures
        provider.with_rate(rate).rate() == rate,
        provider.with_rate(rate).name() == provider.name(),
        provider.with_rate(rate).address(key) == provider.address(key),
        provider.with_rate(rate) is Infura <==> provider is Infura,
{
}

/// The list of providers: each of the four once, none of them asked for anything.
pub proof fn every_provider_is_listed(providers: Vec<Providers>)
    requires
        call_ensures(Providers::into_vec, (), providers),
    ensures
        providers@.len() == 4,
        providers@[0] is PandaGeth,
        providers@[1] is PandaErigon,
        providers@[2] is PandaArchive,
        providers@[3] is Infura,
        forall|j: int|
            0 <= j < 4 ==> {
                &&& (#[trigger] providers@[j]).rate().failures == 0
                &&& providers@[j].rate().total == 0
            },
{
}

/// Infura's address is its fixed part and behind it the whole key, whatever the key is. The other
/// addresses are fixed.
pub proof fn addresses_are_whole(provider: Providers, key: Seq<char>)
    ensures
        provider is PandaGeth ==> provider.address(key)
            == "https://geth-lighthouse.mainnet.eu1.ethpandaops.io/"@,
        provider is PandaErigon ==> provider.address(key)
            == "https://erigon-lighthouse.mainnet.eu1.ethpandaops.io/"@,
        provider is PandaArchive ==> provider.address(key)
            == "https://archive.mainnet.ethpandaops.io/"@,
        provider is Infura ==> {
            &&& provider.address(key).len() == 29 + key.len()
            &&& provider.address(key).take(29) == "https://mainnet.infura.io/v3/"@
            &&& provider.address(key).skip(29) == key
        },
{
    reveal_strlit("https://mainnet.infura.io/v3/");
    assert("https://mainnet.infura.io/v3/"@.len() == 29);
    if provider is Infura {
        assert(provider.address(key).take(29) == "https://mainnet.infura.io/v3/"@);
        assert(provider.address(key).skip(29) == key);
    }
}

/// Different keys give different addresses at Infura.
pub proof fn keys_have_addresses_of_their_own(provider: Providers, one: Seq<char>, other: Seq<char>)
    requires
        provider is Infura,
        provider.address(one) == provider.address(other),
    ensures
        one == other,
{
    addresses_are_whole(provider, one);
    addresses_are_whole(provider, other);
}

/// Different providers have different addresses.
pub proof fn providers_have_addresses_of_their_own(
    one: Providers,
    other: Providers,
    one_key: Seq<char>,
    other_key: Seq<char>,
)
    requires
        one.address(one_key) == other.address(other_key),
    ensures
        one.name() == other.name(),
{
    reveal_strlit("https://geth-lighthouse.mainnet.eu1.ethpandaops.io/");
    reveal_strlit("https://erigon-lighthouse.mainnet.eu1.ethpandaops.io/");
    reveal_strlit("https://archive.mainnet.ethpandaops.io/");
    reveal_strlit("https://mainnet.infura.io/v3/");
    let (a, b) = (one.address(one_key), other.address(other_key));
    assert(a[8] == b[8]);
}

/// What `Providers::endpoint` gives for Infura ends in the whole key.
pub proof fn endpoints_are_whole(provider: Providers, key: &str, address: String)
    requires
        call_ensures(Providers::endpoint, (&provider, key), address),
        provider is Infura,
    ensures
        address@.len() == 29 + key@.len(),
        address@.take(29) == "https://mainnet.infura.io/v3/"@,
        address@.skip(29) == key@,
{
    addresses_are_whole(provider, key@);
}

/// The headers that a provider is sent are those named here and no others, each with one value;
/// what was there under another name stays.
pub proof fn headers_are_exactly_these(
    provider: Providers,
    there: Map<Seq<char>, Seq<Seq<char>>>,
    client_id: Seq<char>,
    client_secret: Seq<char>,
    name: Seq<char>,
)
    ensures
        ({
            let sent = provider.headers(there, client_id, client_secret);
            let panda = provider !is Infura;
            &&& name == "content-type"@ ==> sent.dom().contains(name) && sent[name]
                == seq!["application/json"@]
            &&& panda && name == "cf-access-client-id"@ ==> sent.dom().contains(name) && sent[name]
                == seq![client_id]
            &&& panda && name == "cf-access-client-secret"@ ==> sent.dom().contains(name)
                && sent[name] == seq![client_secret]
            &&& name != "content-type"@ && (panda ==> name != "cf-access-client-id"@ && name
                != "cf-access-client-secret"@) ==> {
                &&& sent.dom().contains(name) <==> there.dom().contains(name)
                &&& there.dom().contains(name) ==> sent[name] == there[name]
            }
        }),
{
    reveal_strlit("content-type");
    reveal_strlit("cf-access-client-id");
    reveal_strlit("cf-access-client-secret");
    assert("content-type"@.len() == 12);
    assert("cf-access-client-id"@.len() == 19);
    assert("cf-access-client-secret"@.len() == 23);
}

/// Credentials are turned down exactly when the provider is sent them and one of their characters
/// is not ASCII.
pub proof fn credentials_have_to_be_ascii(
    provider: Providers,
    client_id: Seq<char>,
    client_secret: Seq<char>,
)
    ensures
        provider is Infura ==> provider.accepts(client_id, client_secret),
        provider !is Infura && !provider.accepts(client_id, client_secret) ==> (exists|i: int|
            0 <= i < client_id.len() && !('\0' <= #[trigger] client_id[i] <= '\u{7f}')) || (exists|
            i: int,
        |
            0 <= i < client_secret.len() && !('\0' <= #[trigger] client_secret[i] <= '\u{7f}')),
        provider !is Infura && provider.accepts(client_id, client_secret) ==> (forall|i: int|
            0 <= i < client_id.len() ==> '\0' <= #[trigger] client_id[i] <= '\u{7f}') && (forall|
            i: int,
        |
            0 <= i < client_secret.len() ==> '\0' <= #[trigger] client_secret[i] <= '\u{7f}'),
{
}

/// What `Providers::get_client` gives for Infura: a client for the whole address, with the content
/// type as its only header, unless the address is no URL.
pub proof fn infura_clients(
    provider: Providers,
    key: &str,
    client_id: &str,
    client_secret: &str,
    result: Result<Client, ClientError>,
)
    requires
        provider is Infura,
        call_ensures(Providers::get_client, (&provider, key, client_id, client_secret), result),
    ensures
        ({
            let url = crate::client::parsed_url("https://mainnet.infura.io/v3/"@ + key@);
            &&& result is Ok <==> url is Some
            &&& result is Err ==> result->Err_0 == ClientError::InvalidUrl
            &&& result is Ok ==> {
                let headers = crate::client::client_headers(result->Ok_0);
                &&& crate::client::client_base_url(result->Ok_0) == url
                &&& headers.dom() == set!["content-type"@]
                &&& headers["content-type"@] == seq!["application/json"@]
            }
        }),
{
    addresses_are_whole(provider, key@);
    assert(provider.address(key@) == "https://mainnet.infura.io/v3/"@ + key@) by {
        reveal_strlit("https://mainnet.infura.io/v3/");
        let address = provider.address(key@);
        assert(address == address.take(29) + address.skip(29));
    }
    if result is Ok {
        assert(crate::client::client_headers(result->Ok_0).dom() == set!["content-type"@]);
    }
}

/// What `Providers::get_client` gives for the other providers: a client for the provider's own
/// address, with the content type, the client id and the secret as its headers, unless the
/// address is no URL or, after that, a credential is not all ASCII.
pub proof fn panda_clients(
    provider: Providers,
    key: &str,
    client_id: &str,
    client_secret: &str,
    result: Result<Client, ClientError>,
)
    requires
        provider !is Infura,
        call_ensures(Providers::get_client, (&provider, key, client_id, client_secret), result),
    ensures
        ({
            let url = crate::client::parsed_url(
                if provider is PandaGeth {
                    "https://geth-lighthouse.mainnet.eu1.ethpandaops.io/"@
                } else if provider is PandaErigon {
                    "https://erigon-lighthouse.mainnet.eu1.ethpandaops.io/"@
                } else {
                    "https://archive.mainnet.ethpandaops.io/"@
                },
            );
            let ascii = vstd::string::is_ascii(client_id) && vstd::string::is_ascii(client_secret);
            &&& result is Ok <==> url is Some && ascii
            &&& result is Err ==> result->Err_0 == (if url is None {
                ClientError::InvalidUrl
            } else {
                ClientError::InvalidHeader
            })
            &&& result is Ok ==> {
                let headers = crate::client::client_headers(result->Ok_0);
                &&& crate::client::client_base_url(result->Ok_0) == url
                &&& headers.dom() == set![
                    "content-type"@,
                    "cf-access-client-id"@,
                    "cf-access-client-secret"@,
                ]
                &&& headers["content-type"@] == seq!["application/json"@]
                &&& headers["cf-access-client-id"@] == seq![client_id@]
                &&& headers["cf-access-client-secret"@] == seq![client_secret@]
            }
        }),
{
    addresses_are_whole(provider, key@);
    headers_arrive(provider, client_id@, client_secret@);
    if result is Ok {
        assert(crate::client::client_headers(result->Ok_0).dom() == set![
            "content-type"@,
            "cf-access-client-id"@,
            "cf-access-client-secret"@,
        ]);
    }
}

/// The line of a provider shows its name and both counts, each as a number is usually written.
pub proof fn summaries_show_the_counts(provider: Providers) -> (counts: (Seq<char>, Seq<char>))
    ensures
        crate::text::is_decimal(counts.0, provider.rate().failures as nat),
        crate::text::is_decimal(counts.1, provider.rate().total as nat),
        provider.summary() == "Provider: "@ + provider.name() + " // Failure Rate: "@ + counts.0
            + " / "@ + counts.1,
{
    crate::text::decimals_read_back(provider.rate().failures as nat);
    crate::text::decimals_read_back(provider.rate().total as nat);
    (
        crate::text::decimal(provider.rate().failures as nat),
        crate::text::decimal(provider.rate().total as nat),
    )
}

/// The line determines the counts: the same provider with the same line has the same failures
/// and the same total.
pub proof fn summaries_determine_the_counts(one: Providers, other: Providers)
    requires
        one.name() == other.name(),
        one.summary() == other.summary(),
    ensures
        one.rate().failures == other.rate().failures,
        one.rate().total == other.rate().total,
{
    let (a, b) = summaries_show_the_counts(one);
    let (c, d) = summaries_show_the_counts(other);
    let front = "Provider: "@ + one.name() + " // Failure Rate: "@;
    reveal_strlit(" / ");
    assert(a + " / "@ + b == one.summary().skip(front.len() as int));
    assert(c + " / "@ + d == other.summary().skip(front.len() as int));
    crate::text::marks_separate_digits(a, c, " / "@, b, d);
}

/// What `Providers::display_summary` gives shows the name and both counts.
pub proof fn displayed_providers_show_the_counts(provider: Providers, line: String) -> (counts: (
    Seq<char>,
    Seq<char>,
))
    requires
        call_ensures(Providers::display_summary, (&provider,), line),
    ensures
        crate::text::is_decimal(counts.0, provider.rate().failures as nat),
        crate::text::is_decimal(counts.1, provider.rate().total as nat),
        line@ == "Provider: "@ + provider.name() + " // Failure Rate: "@ + counts.0 + " / "@
            + counts.1,
{
    summaries_show_the_counts(provider)
}

/// What `Providers::endpoint` gives for the other providers: an address that is their own, on
/// which the key has no bearing.
pub proof fn fixed_endpoints(provider: Providers, key: &str, address: String)
    requires
        call_ensures(Providers::endpoint, (&provider, key), address),
    ensures
        provider is PandaGeth ==> address@ == "https://geth-lighthouse.mainnet.eu1.ethpandaops.io/"@,
        provider is PandaErigon ==> address@
            == "https://erigon-lighthouse.mainnet.eu1.ethpandaops.io/"@,
        provider is PandaArchive ==> address@ == "https://archive.mainnet.ethpandaops.io/"@,
{
}

/// What `Providers::to_string` gives: the provider's name.
pub proof fn providers_are_called_by_their_names(provider: Providers, name: String)
    requires
        call_ensures(Providers::to_string, (&provider,), name),
    ensures
        provider is PandaGeth ==> name@ == "PandaGeth"@,
        provider is PandaErigon ==> name@ == "PandaErigon"@,
        provider is PandaArchive ==> name@ == "PandaArchive"@,
        provider is Infura ==> name@ == "Infura"@,
{
}

/// What `Providers::update_success_rate` does: each count grows by its own part of the round, and
/// the provider stays the same.
pub proof fn providers_are_updated_alone(provider: &mut Providers, failures: u64, total: u64)
    requires
        old(provider).rate().failures + failures <= u64::MAX,
        old(provider).rate().total + total <= u64::MAX,
        call_ensures(Providers::update_success_rate, (provider, failures, total), ()),
    ensures
        final(provider).rate().failures == old(provider).rate().failures + failures,
        final(provider).rate().total == old(provider).rate().total + total,
        final(provider).name() == old(provider).name(),
        *final(provider) is PandaGeth <==> *old(provider) is PandaGeth,
        *final(provider) is PandaErigon <==> *old(provider) is PandaErigon,
        *final(provider) is PandaArchive <==> *old(provider) is PandaArchive,
        *final(provider) is Infura <==> *old(provider) is Infura,
{
}

/// What `Providers::add_headers` does to a header: the content type and, where the provider is not
/// Infura, the client id and the secret get their one value. Every other header and the base URL
/// stay.
pub proof fn added_headers(
    provider: Providers,
    config: Config,
    client_id: &str,
    client_secret: &str,
    result: Result<Config, ClientError>,
    name: Seq<char>,
)
    requires
        call_ensures(Providers::add_headers, (&provider, config, client_id, client_secret), result),
    ensures
        result is Ok <==> provider is Infura || (vstd::string::is_ascii(client_id)
            && vstd::string::is_ascii(client_secret)),
        result is Err ==> result->Err_0 == ClientError::InvalidHeader,
        result is Ok ==> {
            let there = crate::client::config_headers(config);
            let sent = crate::client::config_headers(result->Ok_0);
            let panda = provider !is Infura;
            &&& crate::client::config_base_url(result->Ok_0) == crate::client::config_base_url(
                config,
            )
            &&& sent.dom().contains("content-type"@)
            &&& sent["content-type"@] == seq!["application/json"@]
            &&& panda ==> sent.dom().contains("cf-access-client-id"@)
            &&& panda ==> sent["cf-access-client-id"@] == seq![client_id@]
            &&& panda ==> sent.dom().contains("cf-access-client-secret"@)
            &&& panda ==> sent["cf-access-client-secret"@] == seq![client_secret@]
            &&& name != "content-type"@ && (panda ==> name != "cf-access-client-id"@ && name
                != "cf-access-client-secret"@) ==> {
                &&& sent.dom().contains(name) <==> there.dom().contains(name)
                &&& there.dom().contains(name) ==> sent[name] == there[name]
            }
        },
{
    if result is Ok {
        let there = crate::client::config_headers(config);
        headers_are_exactly_these(provider, there, client_id@, client_secret@, name);
        headers_are_exactly_these(provider, there, client_id@, client_secret@, "content-type"@);
        headers_are_exactly_these(
            provider,
            there,
            client_id@,
            client_secret@,
            "cf-access-client-id"@,
        );
        headers_are_exactly_these(
            provider,
            there,
            client_id@,
            client_secret@,
            "cf-access-client-secret"@,
        );
    }
}

} // verus!
