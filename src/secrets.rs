//! Stores of secrets, and credentials read from them.
use vstd::prelude::*;

verus! {

/// A failed read of a secret: its key and the store's message.
#[derive(Debug, Clone, PartialEq, Eq)]
pub struct ReadSecretError {
    pub key: String,
    pub inner: String,
}

/// A failed write of a secret: its key and the store's message.
#[derive(Debug, Clone, PartialEq, Eq)]
pub struct WriteSecretError {
    pub key: String,
    pub inner: String,
}

/// A user name with its password.
#[derive(Debug, Clone, PartialEq, Eq)]
pub struct Credentials {
    pub username: String,
    pub password: String,
}

/// Credentials for `username` made from the password stored for it, if any.
pub fn credentials_for(username: &str, password: Option<String>) -> (r: Option<Credentials>)
    ensures
        password is None ==> r is None,
        password matches Some(p) ==> (r matches Some(c) && c.username@ == username@ && c.password
            == p),
{
    match password {
        Some(password) => Some(Credentials { username: username.to_owned(), password }),
        None => None,
    }
}

/// A store of secrets that can be read by key.
pub trait SecretsReader {
    /// The secret stored under `key`, or `None` when nothing is stored there.
    fn read(&self, key: &str) -> Result<Option<String>, ReadSecretError>;

    /// The credentials of `username`: its stored password, if any.
    fn get_credentials(&self, username: &str) -> Result<Option<Credentials>, ReadSecretError>;
}

/// A store of secrets that can be written by key.
pub trait SecretsWriter {
    fn write(&self, key: &str, secret: &str) -> Result<(), WriteSecretError>;
}

} // verus!
