//! Search clients: the request, the credentials and basic authorization that a
//! server entry asks for, and a stub that serves numbered records.
use vstd::prelude::*;
use vstd::string::StringExecFns;

use std::sync::Arc;

use crate::config::ElasticSearchServer;
use crate::fetcher::{Fetcher, FetcherError};
use crate::secrets::{Credentials, ReadSecretError, SecretsReader};

verus! {

/// A search: the index to search and the query string.
#[derive(Debug, Clone, PartialEq, Eq)]
pub struct SearchRequest {
    pub index: String,
    pub query: String,
}

/// A search that could not be started or answered.
#[derive(Debug, Clone, PartialEq, Eq)]
pub enum ClientError {
    RequestError { inner: String },
}

impl From<FetcherError> for ClientError {
    fn from(err: FetcherError) -> (r: ClientError)
        ensures
            r == (match err {
                FetcherError::RequestError { inner } => ClientError::RequestError { inner },
            }),
    {
        match err {
            FetcherError::RequestError { inner } => ClientError::RequestError { inner },
        }
    }
}

impl vstd::std_specs::convert::FromSpecImpl<FetcherError> for ClientError {
    open spec fn obeys_from_spec() -> bool {
        true
    }

    open spec fn from_spec(err: FetcherError) -> ClientError {
        match err {
            FetcherError::RequestError { inner } => ClientError::RequestError { inner },
        }
    }
}

/// The base64 encoding (standard alphabet, padded) of the UTF-8 bytes of a text.
pub uninterp spec fn base64_of(text: Seq<char>) -> Seq<char>;

/// Relies on `base64::Engine::encode` with the `STANDARD` engine: the padded
/// base64 text of the input's bytes.
#[verifier::external_body]
fn encode_base64(text: &str) -> (r: String)
    ensures
        r@ == base64_of(text@),
{
    base64::Engine::encode(&base64::engine::general_purpose::STANDARD, text)
}

/// The user name, a colon, and the password.
fn user_colon_password(c: &Credentials) -> (r: String)
    ensures
        r@ == c.username@ + ":"@ + c.password@,
{
    let mut s = c.username.clone();
    s.append(":");
    s.append(c.password.as_str());
    s
}

/// The message of a failed credentials read.
fn read_error_message(e: &ReadSecretError) -> (r: String)
    ensures
        r@ == "cannot read credentials: cannot read secret by key "@ + e.key@ + ": "@ + e.inner@,
{
    let mut s = String::from_str("cannot read credentials: cannot read secret by key ");
    s.append(e.key.as_str());
    s.append(": ");
    s.append(e.inner.as_str());
    s
}

/// The value of an HTTP basic authorization: `user:password` in base64.
pub fn basic_auth_token(c: &Credentials) -> (r: String)
    ensures
        r@ == base64_of(c.username@ + ":"@ + c.password@),
{
    let joined = user_colon_password(c);
    encode_base64(joined.as_str())
}

/// The credentials that a server entry asks for: none without a user name, else
/// what the secrets store holds for that user.
pub fn server_credentials<S: SecretsReader>(secrets: &S, server: &ElasticSearchServer) -> (r: Result<
    Option<Credentials>,
    ClientError,
>)
    ensures
        server.username is None ==> r == Ok::<Option<Credentials>, ClientError>(None),
{
    match &server.username {
        None => Ok(None),
        Some(username) => match secrets.get_credentials(username.as_str()) {
            Ok(c) => Ok(c),
            Err(e) => Err(ClientError::RequestError { inner: read_error_message(&e) }),
        },
    }
}

/// A client for an Elasticsearch server.
pub struct ElasticClient<S> {
    pub secrets: Arc<S>,
    pub server_config: ElasticSearchServer,
    pub buffer_size: usize,
}

impl<S: SecretsReader> ElasticClient<S> {
    pub fn create(secrets: Arc<S>, server_config: ElasticSearchServer, buffer_size: usize) -> (r:
        Self)
        ensures
            r.secrets == secrets,
            r.server_config == server_config,
            r.buffer_size == buffer_size,
    {
        ElasticClient { secrets, server_config, buffer_size }
    }

    /// The basic authorization to send: none without a user name or a stored
    /// password, else the base64 of `user:password`.
    pub fn authorization(&self) -> (r: Result<Option<String>, ClientError>)
        ensures
            self.server_config.username is None ==> r == Ok::<Option<String>, ClientError>(None),
            r matches Ok(Some(t)) ==> exists|c: Credentials|
                t@ == base64_of(#[trigger] c.username@ + ":"@ + c.password@),
    {
        match server_credentials(&*self.secrets, &self.server_config) {
            Err(e) => Err(e),
            Ok(None) => Ok(None),
            Ok(Some(c)) => {
                let t = basic_auth_token(&c);
                assert(t@ == base64_of(c.username@ + ":"@ + c.password@));
                Ok(Some(t))
            },
        }
    }
}

/// A client that reaches Elasticsearch through Kibana's console proxy.
pub struct KibanaProxyClient<S> {
    pub secrets: Arc<S>,
    pub server_config: ElasticSearchServer,
    pub buffer_size: usize,
}

impl<S: SecretsReader> KibanaProxyClient<S> {
    pub fn create(secrets: Arc<S>, server_config: ElasticSearchServer, buffer_size: usize) -> (r:
        Self)
        ensures
            r.secrets == secrets,
            r.server_config == server_config,
            r.buffer_size == buffer_size,
    {
        KibanaProxyClient { secrets, server_config, buffer_size }
    }

    /// The credentials to send with each request.
    pub fn credentials(&self) -> (r: Result<Option<Credentials>, ClientError>)
        ensures
            self.server_config.username is None ==> r == Ok::<Option<Credentials>, ClientError>(
                None,
            ),
    {
        server_credentials(&*self.secrets, &self.server_config)
    }
}

/// A client that serves made-up records, for trying the pager without a server.
pub struct StubClient {
    pub buffer_size: usize,
}

impl StubClient {
    pub fn new(buffer_size: usize) -> (r: Self)
        ensures
            r.buffer_size == buffer_size,
    {
        StubClient { buffer_size }
    }

    /// The fetcher of a stub search: a thousand records in pages of the buffer size.
    pub fn fetcher(&self) -> (r: StubFetcher)
        ensures
            r.buffer_size == self.buffer_size,
            r.total_count == 1000,
    {
        StubFetcher::new(self.buffer_size, 1000)
    }
}

/// Serves the record numbers `0..total_count`, `buffer_size` at a time.
pub struct StubFetcher {
    pub buffer_size: usize,
    pub total_count: usize,
}

impl StubFetcher {
    pub fn new(buffer_size: usize, total_count: usize) -> (r: Self)
        ensures
            r.buffer_size == buffer_size,
            r.total_count == total_count,
    {
        StubFetcher { buffer_size, total_count }
    }

    /// The record numbers of the page at `from`: up to `buffer_size` of them, none at
    /// or past `total_count`.
    pub fn page(&self, from: usize) -> (r: Vec<usize>)
        ensures
            r@.len() == if from >= self.total_count {
                0
            } else if self.total_count - from < self.buffer_size {
                self.total_count - from
            } else {
                self.buffer_size as int
            },
            forall|i: int| 0 <= i < r@.len() ==> r@[i] == from + i,
    {
        let to = if from >= self.total_count {
            from
        } else if self.total_count - from < self.buffer_size {
            self.total_count
        } else {
            from + self.buffer_size
        };
        let mut out: Vec<usize> = Vec::new();
        let mut i = from;
        while i < to
            invariant
                from <= i <= to,
                out@.len() == i - from,
                forall|k: int| 0 <= k < out@.len() ==> out@[k] == from + k,
            decreases to - i,
        {
            out.push(i);
            i = i + 1;
        }
        out
    }
}

impl Fetcher<usize> for StubFetcher {
    fn fetch_next(&self, from: usize) -> Result<(usize, Vec<usize>), FetcherError> {
        Ok((self.total_count, self.page(from)))
    }
}

} // verus!
