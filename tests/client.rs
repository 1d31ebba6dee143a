use elastic_cli::client::{
    basic_auth_token, ClientError, ElasticClient, KibanaProxyClient, StubClient, StubFetcher,
};
use elastic_cli::config::{ElasticSearchServer, ElasticSearchServerType};
use elastic_cli::fetcher::{Collector, Fetcher, FetcherError};
use elastic_cli::search::{search_index, OutputFormat};
use elastic_cli::secrets::{Credentials, ReadSecretError, SecretsReader};

use std::sync::Arc;

struct Keychain;

impl SecretsReader for Keychain {
    fn read(&self, key: &str) -> Result<Option<String>, ReadSecretError> {
        match key {
            "user" => Ok(Some("pass".to_string())),
            "broken" => Err(ReadSecretError { key: key.to_string(), inner: "locked".to_string() }),
            _ => Ok(None),
        }
    }

    fn get_credentials(&self, username: &str) -> Result<Option<Credentials>, ReadSecretError> {
        self.read(username)
            .map(|p| elastic_cli::secrets::credentials_for(username, p))
    }
}

fn server(username: Option<&str>) -> ElasticSearchServer {
    ElasticSearchServer {
        name: "s".to_string(),
        server: "http://localhost:9200".to_string(),
        server_type: ElasticSearchServerType::Elastic,
        default_index: None,
        username: username.map(str::to_string),
    }
}

#[test]
fn basic_auth_is_base64_of_user_and_password() {
    let c = Credentials { username: "user".to_string(), password: "pass".to_string() };
    assert_eq!("dXNlcjpwYXNz", basic_auth_token(&c));
}

#[test]
fn elastic_client_authorizes_with_stored_password() {
    let client = ElasticClient::create(Arc::new(Keychain), server(Some("user")), 10);
    assert_eq!(Ok(Some("dXNlcjpwYXNz".to_string())), client.authorization());
    let client = ElasticClient::create(Arc::new(Keychain), server(None), 10);
    assert_eq!(Ok(None), client.authorization());
    let client = ElasticClient::create(Arc::new(Keychain), server(Some("nobody")), 10);
    assert_eq!(Ok(None), client.authorization());
}

#[test]
fn failed_secret_read_becomes_a_request_error() {
    let client = KibanaProxyClient::create(Arc::new(Keychain), server(Some("broken")), 10);
    assert_eq!(
        Err(ClientError::RequestError {
            inner: "cannot read credentials: cannot read secret by key broken: locked".to_string()
        }),
        client.credentials()
    );
}

#[test]
fn fetcher_error_converts_to_client_error() {
    let e: ClientError = FetcherError::RequestError { inner: "x".to_string() }.into();
    assert_eq!(ClientError::RequestError { inner: "x".to_string() }, e);
}

#[test]
fn stub_fetcher_serves_pages_up_to_its_total() {
    let f = StubFetcher::new(3, 5);
    assert_eq!(Ok((5, vec![0, 1, 2])), f.fetch_next(0));
    assert_eq!(Ok((5, vec![3, 4])), f.fetch_next(3));
    assert_eq!(Ok((5, vec![])), f.fetch_next(5));
    let stub = StubClient::new(400);
    let mut collector = Collector::create(stub.fetcher()).unwrap();
    let mut it = collector.iter();
    assert_eq!(1000, it.collect(&mut collector).len());
}

#[test]
fn output_format_is_read_from_its_name() {
    assert_eq!(OutputFormat::Pretty, OutputFormat::from_name(None));
    assert_eq!(OutputFormat::Pretty, OutputFormat::from_name(Some("pretty")));
    assert_eq!(OutputFormat::JSON, OutputFormat::from_name(Some("json")));
    assert_eq!(OutputFormat::Custom("{name}".to_string()), OutputFormat::from_name(Some("{name}")));
}

#[test]
fn search_index_falls_back_to_server_default_then_everything() {
    let mut s = server(None);
    assert_eq!("*", search_index(None, &s));
    s.default_index = Some("logs".to_string());
    assert_eq!("logs", search_index(None, &s));
    assert_eq!("given", search_index(Some("given".to_string()), &s));
}
