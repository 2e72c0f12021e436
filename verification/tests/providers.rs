use surf::http::headers::HeaderName;
use test_providers::client::ClientError;
use test_providers::providers::{Providers, PROVIDER_COUNT};
use test_providers::success_rate::SuccessRate;

const GETH: &str = "https://geth-lighthouse.mainnet.eu1.ethpandaops.io/";
const ERIGON: &str = "https://erigon-lighthouse.mainnet.eu1.ethpandaops.io/";
const ARCHIVE: &str = "https://archive.mainnet.ethpandaops.io/";

fn header(client: &surf::Client, name: &str) -> Option<String> {
    client
        .config()
        .headers
        .get(&HeaderName::from(name))
        .map(|values| values.iter().map(|value| value.as_str()).collect::<Vec<&str>>().join("|"))
}

fn base_url(client: &surf::Client) -> String {
    client.config().base_url.as_ref().map(|url| url.as_str().to_string()).unwrap_or_default()
}

#[test]
fn all_providers_start_at_zero() {
    let zero = SuccessRate::default();
    assert_eq!(zero, SuccessRate { failures: 0, total: 0 });
    let providers = Providers::into_vec();
    assert_eq!(providers.len(), PROVIDER_COUNT);
    assert_eq!(
        providers,
        vec![
            Providers::PandaGeth(zero),
            Providers::PandaErigon(zero),
            Providers::PandaArchive(zero),
            Providers::Infura(zero),
        ]
    );
    let names: Vec<String> = providers.iter().map(|provider| provider.to_string()).collect();
    assert_eq!(names, vec!["PandaGeth", "PandaErigon", "PandaArchive", "Infura"]);
}

#[test]
fn provider_rates_add_up() {
    for mut provider in Providers::into_vec() {
        provider.update_success_rate(4, 135);
        provider.update_success_rate(1, 0);
        assert_eq!(
            provider.display_summary(),
            format!("Provider: {} // Failure Rate: 5 / 135", provider.to_string())
        );
    }
}

#[test]
fn endpoints_are_fixed_but_for_the_key() {
    let endpoints: Vec<String> =
        Providers::into_vec().iter().map(|provider| provider.endpoint("k3y")).collect();
    assert_eq!(endpoints, vec![GETH, ERIGON, ARCHIVE, "https://mainnet.infura.io/v3/k3y"]);
}

#[test]
fn panda_clients_carry_the_credentials() {
    let providers = Providers::into_vec();
    for (i, url) in [GETH, ERIGON, ARCHIVE].iter().enumerate() {
        let client = providers[i].get_client("", "client", "hush").unwrap();
        assert_eq!(base_url(&client), *url);
        assert_eq!(header(&client, "Content-Type").as_deref(), Some("application/json"));
        assert_eq!(header(&client, "CF-Access-Client-Id").as_deref(), Some("client"));
        assert_eq!(header(&client, "cf-access-client-secret").as_deref(), Some("hush"));
        assert_eq!(client.config().headers.len(), 3);
        let names: Vec<&str> = client.config().headers.keys().map(|name| name.as_str()).collect();
        assert!(names.contains(&"cf-access-client-id"));
    }
}

#[test]
fn infura_gets_the_key_and_no_credentials() {
    let client = Providers::Infura(SuccessRate::default()).get_client("abc", "client", "hush");
    let client = client.unwrap();
    assert_eq!(base_url(&client), "https://mainnet.infura.io/v3/abc");
    assert_eq!(header(&client, "Content-Type").as_deref(), Some("application/json"));
    assert_eq!(client.config().headers.len(), 1);
}

#[test]
fn base_urls_are_parsed() {
    let client = Providers::Infura(SuccessRate::default()).get_client("a b", "", "").unwrap();
    assert_eq!(base_url(&client), "https://mainnet.infura.io/v3/a%20b");
}

#[test]
fn headers_have_to_be_ascii() {
    let panda = Providers::PandaGeth(SuccessRate::default());
    assert_eq!(panda.get_client("", "kl\u{fc}ent", "hush").err(), Some(ClientError::InvalidHeader));
    assert_eq!(panda.get_client("", "client", "h\u{fc}sh").err(), Some(ClientError::InvalidHeader));
    assert!(panda.get_client("\u{fc}", "", "").is_ok());
    let infura = Providers::Infura(SuccessRate::default());
    assert!(infura.get_client("", "kl\u{fc}ent", "h\u{fc}sh").is_ok());
}

#[test]
fn headers_join_those_that_are_there() {
    let config = surf::Config::new().add_header("x-trace", "1").unwrap();
    let config = config.add_header("content-type", "text/plain").unwrap();
    let panda = Providers::PandaArchive(SuccessRate::default());
    let config = panda.add_headers(config, "client", "hush").unwrap();
    assert_eq!(config.headers.len(), 4);
    assert_eq!(config.headers[&HeaderName::from("x-trace")][0].as_str(), "1");
    assert_eq!(config.headers[&HeaderName::from("content-type")].iter().count(), 1);
    assert_eq!(config.headers[&HeaderName::from("content-type")][0].as_str(), "application/json");
    assert!(config.base_url.is_none());
}
