//! Configuration changes: adding, updating and choosing servers, and storing passwords.
use vstd::prelude::*;

use std::sync::Arc;

use crate::config::{
    find_server, first_server, has_server, ApplicationConfig, ElasticSearchServer,
    ElasticSearchServerType,
};
use crate::secrets::{SecretsWriter, WriteSecretError};

verus! {

/// A failure to obtain a password from the user.
#[derive(Debug, Clone, PartialEq, Eq)]
pub struct PasswordQuestionerError {
    pub inner: String,
}

/// Asks the user for the password of a user name.
pub trait PasswordQuestioner {
    fn ask_password(&self, username: &str) -> Result<String, PasswordQuestionerError>;
}

/// A change to the configuration that the user asked for.
#[derive(Debug, Clone)]
pub enum ConfigAction {
    AddServer {
        name: String,
        address: String,
        server_type: ElasticSearchServerType,
        index: Option<String>,
        username: Option<String>,
        password: Option<String>,
    },
    UpdateServer {
        name: String,
        address: Option<String>,
        server_type: Option<ElasticSearchServerType>,
        index: Option<String>,
        username: Option<String>,
        password: Option<String>,
        ask_password: bool,
    },
    UseServer { name: String },
    Show,
}

/// Why a configuration change was refused.
#[derive(Debug, Clone, PartialEq, Eq)]
pub enum ConfigActionError {
    ServerAlreadyExists { server_name: String },
    ServerDoesNotExists { server_name: String },
    UsernameShouldBeSpecified,
    CannotSavePassword { inner: WriteSecretError },
    CannotRetrievePassword { inner: PasswordQuestionerError },
}

/// What to do about a password, given the user name, the password given, and
/// whether one is wanted.
pub enum CredentialRule {
    /// Nothing to store.
    Nothing,
    /// Store the given password for the user name.
    Store,
    /// Ask the user for the password, then store it.
    Ask,
    /// A password is given or wanted, but there is no user name.
    MissingUsername,
}

pub open spec fn credential_rule(
    username: Option<String>,
    password: Option<String>,
    wanted: bool,
) -> CredentialRule {
    match (username, password) {
        (Some(_), Some(_)) => CredentialRule::Store,
        (Some(_), None) => if wanted {
            CredentialRule::Ask
        } else {
            CredentialRule::Nothing
        },
        (None, Some(_)) => CredentialRule::MissingUsername,
        (None, None) => if wanted {
            CredentialRule::MissingUsername
        } else {
            CredentialRule::Nothing
        },
    }
}

/// The outcome of a change whose success may hang on storing a password: with
/// nothing to store it succeeds with `c`; where a password is stored, it either
/// succeeds with `c` or fails to store (or, when asking, to obtain) the password.
pub open spec fn credential_outcome(
    rule: CredentialRule,
    c: ApplicationConfig,
    r: Result<ApplicationConfig, ConfigActionError>,
) -> bool {
    match rule {
        CredentialRule::MissingUsername => r == Err::<ApplicationConfig, _>(
            ConfigActionError::UsernameShouldBeSpecified,
        ),
        CredentialRule::Nothing => r == Ok::<_, ConfigActionError>(c),
        CredentialRule::Store => r == Ok::<_, ConfigActionError>(c) || r matches Err(
            ConfigActionError::CannotSavePassword { .. },
        ),
        CredentialRule::Ask => r == Ok::<_, ConfigActionError>(c) || r matches Err(
            ConfigActionError::CannotSavePassword { .. },
        ) || r matches Err(ConfigActionError::CannotRetrievePassword { .. }),
    }
}

/// `new` is `old` with `s` appended to its servers, and `s` made the default server
/// when there was none.
pub open spec fn with_server_added(
    old: ApplicationConfig,
    new: ApplicationConfig,
    s: ElasticSearchServer,
) -> bool {
    &&& new.file_path == old.file_path
    &&& new.default_server == if old.default_server is None {
        Some(s.name)
    } else {
        old.default_server
    }
    &&& new.servers@ == old.servers@.push(s)
}

/// A field of a server after an update: the new value where one is given.
pub open spec fn updated<V>(given: Option<V>, current: V) -> V {
    match given {
        Some(v) => v,
        None => current,
    }
}

/// `s` with the given fields replaced.
pub open spec fn server_updated(
    s: ElasticSearchServer,
    address: Option<String>,
    server_type: Option<ElasticSearchServerType>,
    index: Option<String>,
    username: Option<String>,
) -> ElasticSearchServer {
    ElasticSearchServer {
        name: s.name,
        server: updated(address, s.server),
        server_type: updated(server_type, s.server_type),
        default_index: if index is Some {
            index
        } else {
            s.default_index
        },
        username: if username is Some {
            username
        } else {
            s.username
        },
    }
}

/// What `resolve` does with `action` on `config`.
pub open spec fn resolves(
    action: ConfigAction,
    config: ApplicationConfig,
    r: Result<ApplicationConfig, ConfigActionError>,
) -> bool {
    match action {
        ConfigAction::AddServer { name, address, server_type, index, username, password } => {
            let s = ElasticSearchServer {
                name,
                server: address,
                server_type,
                default_index: index,
                username,
            };
            if has_server(config.servers@, name@) {
                r == Err::<ApplicationConfig, _>(
                    ConfigActionError::ServerAlreadyExists { server_name: name },
                )
            } else {
                &&& credential_outcome(
                    credential_rule(username, password, username is Some),
                    r->Ok_0,
                    r,
                )
                &&& (r matches Ok(c) ==> with_server_added(config, c, s))
            }
        },
        ConfigAction::UpdateServer {
            name,
            address,
            server_type,
            index,
            username,
            password,
            ask_password,
        } => {
            if !has_server(config.servers@, name@) {
                r == Err::<ApplicationConfig, _>(
                    ConfigActionError::ServerDoesNotExists { server_name: name },
                )
            } else {
                exists|i: int|
                    #![trigger config.servers@[i]]
                    {
                        let s = server_updated(
                            config.servers@[i],
                            address,
                            server_type,
                            index,
                            username,
                        );
                        &&& first_server(config.servers@, name@, i)
                        &&& credential_outcome(
                            credential_rule(s.username, password, username is Some || ask_password),
                            r->Ok_0,
                            r,
                        )
                        &&& (r matches Ok(c) ==> {
                            &&& c.file_path == config.file_path
                            &&& c.default_server == config.default_server
                            &&& c.servers@ == config.servers@.update(i, s)
                        })
                    }
            }
        },
        ConfigAction::UseServer { name } => {
            if !has_server(config.servers@, name@) {
                r == Err::<ApplicationConfig, _>(
                    ConfigActionError::ServerDoesNotExists { server_name: name },
                )
            } else {
                r matches Ok(c) && c.file_path == config.file_path && c.default_server == Some(name)
                    && c.servers == config.servers
            }
        },
        ConfigAction::Show => r == Ok::<_, ConfigActionError>(config),
    }
}

fn clone_text(s: &Option<String>) -> (r: Option<String>)
    ensures
        r == *s,
{
    match s {
        Some(t) => Some(t.clone()),
        None => None,
    }
}

/// Applies configuration changes, asking for passwords and storing them as needed.
pub struct ConfigActionResolver<Q, W> {
    password_questioner: Arc<Q>,
    secrets_writer: Arc<W>,
}

impl<Q, W> ConfigActionResolver<Q, W> {
    /// The questioner that asks for passwords.
    pub closed spec fn questioner(&self) -> Arc<Q> {
        self.password_questioner
    }

    /// The store that passwords are written to.
    pub closed spec fn writer(&self) -> Arc<W> {
        self.secrets_writer
    }
}

impl<Q: PasswordQuestioner, W: SecretsWriter> ConfigActionResolver<Q, W> {
    pub fn new(password_questioner: Arc<Q>, secrets_writer: Arc<W>) -> (r: Self)
        ensures
            r.questioner() == password_questioner,
            r.writer() == secrets_writer,
    {
        ConfigActionResolver { password_questioner, secrets_writer }
    }

    /// Obtains the password to store, following `credential_rule`.
    fn fetch_credentials(
        &self,
        username: Option<String>,
        password: Option<String>,
        ask_password: bool,
    ) -> (r: Result<Option<(String, String)>, ConfigActionError>)
        ensures
            match credential_rule(username, password, ask_password) {
                CredentialRule::Nothing => r == Ok::<_, ConfigActionError>(
                    None::<(String, String)>,
                ),
                CredentialRule::MissingUsername => r == Err::<Option<(String, String)>, _>(
                    ConfigActionError::UsernameShouldBeSpecified,
                ),
                CredentialRule::Store => r == Ok::<_, ConfigActionError>(
                    Some((username->Some_0, password->Some_0)),
                ),
                CredentialRule::Ask => (r matches Ok(Some((u, _))) && u == username->Some_0)
                    || r matches Err(ConfigActionError::CannotRetrievePassword { .. }),
            },
    {
        match (username, password) {
            (Some(username), Some(password)) => Ok(Some((username, password))),
            (Some(username), None) => {
                if ask_password {
                    match self.password_questioner.ask_password(username.as_str()) {
                        Ok(p) => Ok(Some((username, p))),
                        Err(err) => Err(ConfigActionError::CannotRetrievePassword { inner: err }),
                    }
                } else {
                    Ok(None)
                }
            },
            (None, Some(_)) => Err(ConfigActionError::UsernameShouldBeSpecified),
            (None, None) => {
                if ask_password {
                    Err(ConfigActionError::UsernameShouldBeSpecified)
                } else {
                    Ok(None)
                }
            },
        }
    }

    /// Obtains and stores the password that `credential_rule` asks for.
    fn store_credentials(
        &self,
        username: Option<String>,
        password: Option<String>,
        ask_password: bool,
    ) -> (r: Result<(), ConfigActionError>)
        ensures
            match credential_rule(username, password, ask_password) {
                CredentialRule::Nothing => r is Ok,
                CredentialRule::MissingUsername => r == Err::<(), _>(
                    ConfigActionError::UsernameShouldBeSpecified,
                ),
                CredentialRule::Store => r is Ok || r matches Err(
                    ConfigActionError::CannotSavePassword { .. },
                ),
                CredentialRule::Ask => r is Ok || r matches Err(
                    ConfigActionError::CannotSavePassword { .. },
                ) || r matches Err(ConfigActionError::CannotRetrievePassword { .. }),
            },
    {
        match self.fetch_credentials(username, password, ask_password) {
            Err(e) => Err(e),
            Ok(None) => Ok(()),
            Ok(Some((username, password))) => {
                match self.secrets_writer.write(username.as_str(), password.as_str()) {
                    Ok(()) => Ok(()),
                    Err(err) => Err(ConfigActionError::CannotSavePassword { inner: err }),
                }
            },
        }
    }

    /// Applies `action` to `config` and returns the new configuration.
    pub fn resolve(&self, action: ConfigAction, config: ApplicationConfig) -> (r: Result<
        ApplicationConfig,
        ConfigActionError,
    >)
        ensures
            resolves(action, config, r),
    {
        let ghost config0 = config;
        let mut config = config;
        match action {
            ConfigAction::AddServer { name, address, server_type, index, username, password } => {
                if find_server(&config.servers, &name).is_some() {
                    return Err(ConfigActionError::ServerAlreadyExists { server_name: name });
                }
                if config.default_server.is_none() {
                    config.default_server = Some(name.clone());
                }
                let wanted = username.is_some();
                let user = clone_text(&username);
                config.servers.push(
                    ElasticSearchServer {
                        name,
                        server: address,
                        server_type,
                        default_index: index,
                        username,
                    },
                );
                match self.store_credentials(user, password, wanted) {
                    Ok(()) => Ok(config),
                    Err(e) => Err(e),
                }
            },
            ConfigAction::UpdateServer {
                name,
                address,
                server_type,
                index,
                username,
                password,
                ask_password,
            } => {
                let i = match find_server(&config.servers, &name) {
                    Some(i) => i,
                    None => {
                        return Err(ConfigActionError::ServerDoesNotExists { server_name: name });
                    },
                };
                let current = &config.servers[i];
                let wanted = username.is_some() || ask_password;
                let s = ElasticSearchServer {
                    name: current.name.clone(),
                    server: match address {
                        Some(a) => a,
                        None => current.server.clone(),
                    },
                    server_type: match server_type {
                        Some(t) => t,
                        None => current.server_type,
                    },
                    default_index: match index {
                        Some(x) => Some(x),
                        None => clone_text(&current.default_index),
                    },
                    username: match username {
                        Some(u) => Some(u),
                        None => clone_text(&current.username),
                    },
                };
                let user = clone_text(&s.username);
                config.servers.set(i, s);
                let r = match self.store_credentials(user, password, wanted) {
                    Ok(()) => Ok(config),
                    Err(e) => Err(e),
                };
                assert(first_server(config0.servers@, name@, i as int));
                r
            },
            ConfigAction::UseServer { name } => {
                if find_server(&config.servers, &name).is_none() {
                    return Err(ConfigActionError::ServerDoesNotExists { server_name: name });
                }
                config.default_server = Some(name);
                Ok(config)
            },
            ConfigAction::Show => Ok(config),
        }
    }
}

/// The `config` command: a configuration change and what it applies to.
pub struct ConfigCommand<Q, W> {
    pub config: ApplicationConfig,
    pub action: ConfigAction,
    pub resolver: ConfigActionResolver<Q, W>,
}

impl<Q: PasswordQuestioner, W: SecretsWriter> ConfigCommand<Q, W> {
    pub fn new(
        config: ApplicationConfig,
        password_questioner: Arc<Q>,
        secrets: Arc<W>,
        action: ConfigAction,
    ) -> (r: Self)
        ensures
            r.config == config,
            r.action == action,
            r.resolver.questioner() == password_questioner,
            r.resolver.writer() == secrets,
    {
        ConfigCommand {
            config,
            action,
            resolver: ConfigActionResolver::new(password_questioner, secrets),
        }
    }

    /// The configuration after the change, to be shown and saved.
    pub fn new_config(self) -> (r: Result<ApplicationConfig, ConfigActionError>)
        ensures
            resolves(self.action, self.config, r),
    {
        self.resolver.resolve(self.action, self.config)
    }
}

} // verus!
