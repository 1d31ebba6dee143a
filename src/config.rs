//! The tool's configuration: servers, their types, and choosing a server.
use vstd::prelude::*;

verus! {

/// The kind of server that a configuration entry points at.
#[derive(Debug, Clone, Copy, PartialEq, Eq, Structural)]
pub enum ElasticSearchServerType {
    Elastic,
    Kibana,
}

impl Default for ElasticSearchServerType {
    fn default() -> (r: Self)
        ensures
            r == ElasticSearchServerType::Elastic,
    {
        ElasticSearchServerType::Elastic
    }
}

/// A server type name that is neither `elastic` nor `kibana`.
#[derive(Debug, Clone, PartialEq, Eq)]
pub struct UnknownElasticSearchServerTypeError {
    pub value: String,
}

/// Text equality of a `String` and a `str`.
pub fn same_text(a: &String, b: &str) -> (r: bool)
    ensures
        r == (a@ == b@),
{
    let b = b.to_owned();
    *a == b
}

impl ElasticSearchServerType {
    /// Reads a server type from its name: `elastic` or `kibana`.
    pub fn parse(s: &str) -> (r: Result<ElasticSearchServerType, UnknownElasticSearchServerTypeError>)
        ensures
            s@ == "elastic"@ ==> r == Ok::<_, UnknownElasticSearchServerTypeError>(
                ElasticSearchServerType::Elastic,
            ),
            s@ == "kibana"@ ==> r == Ok::<_, UnknownElasticSearchServerTypeError>(
                ElasticSearchServerType::Kibana,
            ),
            s@ != "elastic"@ && s@ != "kibana"@ ==> (r matches Err(e) && e.value@ == s@),
    {
        proof {
            reveal_strlit("elastic");
            reveal_strlit("kibana");
            assert("kibana"@.len() != "elastic"@.len());
        }
        let owned = s.to_owned();
        let elastic = "elastic".to_owned();
        let kibana = "kibana".to_owned();
        if owned == elastic {
            Ok(ElasticSearchServerType::Elastic)
        } else if owned == kibana {
            Ok(ElasticSearchServerType::Kibana)
        } else {
            Err(UnknownElasticSearchServerTypeError { value: owned })
        }
    }

    /// The name of a server type, as `parse` reads it.
    pub fn name(&self) -> (r: &'static str)
        ensures
            *self == ElasticSearchServerType::Elastic ==> r@ == "elastic"@,
            *self == ElasticSearchServerType::Kibana ==> r@ == "kibana"@,
    {
        match self {
            ElasticSearchServerType::Elastic => "elastic",
            ElasticSearchServerType::Kibana => "kibana",
        }
    }
}

impl std::str::FromStr for ElasticSearchServerType {
    type Err = UnknownElasticSearchServerTypeError;

    fn from_str(s: &str) -> Result<Self, Self::Err> {
        ElasticSearchServerType::parse(s)
    }
}

/// One configured server.
#[derive(Debug, Clone, PartialEq)]
pub struct ElasticSearchServer {
    pub name: String,
    pub server: String,
    pub server_type: ElasticSearchServerType,
    pub default_index: Option<String>,
    pub username: Option<String>,
}

/// The tool's configuration: where it is stored, the default server, and the servers.
#[derive(Debug, Clone, PartialEq)]
pub struct ApplicationConfig {
    pub file_path: String,
    pub default_server: Option<String>,
    pub servers: Vec<ElasticSearchServer>,
}

/// Why no server could be chosen.
#[derive(Debug, Clone, PartialEq, Eq)]
pub enum GetServerError {
    ServerNotFound { server: String },
    NoConfiguredServers,
    ServerNotSpecified,
}

/// Some server in `servers` is named `name`.
pub open spec fn has_server(servers: Seq<ElasticSearchServer>, name: Seq<char>) -> bool {
    exists|i: int| 0 <= i < servers.len() && (#[trigger] servers[i]).name@ == name
}

/// `i` is the first server in `servers` named `name`.
pub open spec fn first_server(servers: Seq<ElasticSearchServer>, name: Seq<char>, i: int) -> bool {
    &&& 0 <= i < servers.len()
    &&& servers[i].name@ == name
    &&& forall|j: int| 0 <= j < i ==> (#[trigger] servers[j]).name@ != name
}

/// Finds the first server named `name`.
pub fn find_server(servers: &Vec<ElasticSearchServer>, name: &String) -> (r: Option<usize>)
    ensures
        r matches Some(i) ==> first_server(servers@, name@, i as int),
        r is None <==> !has_server(servers@, name@),
{
    let mut i: usize = 0;
    while i < servers.len()
        invariant
            i <= servers@.len(),
            forall|j: int| 0 <= j < i ==> (#[trigger] servers@[j]).name@ != name@,
        decreases servers@.len() - i,
    {
        if servers[i].name == *name {
            return Some(i);
        }
        i = i + 1;
    }
    None
}

/// The text of an optional name.
pub open spec fn text_of(name: Option<&str>) -> Option<Seq<char>> {
    match name {
        Some(n) => Some(n@),
        None => None,
    }
}

impl ApplicationConfig {
    /// The name of the server that a request for `name` means: `name` itself when
    /// given, else the default server.
    pub open spec fn wanted_server(&self, name: Option<Seq<char>>) -> Option<Seq<char>> {
        match name {
            Some(n) => Some(n),
            None => match self.default_server {
                Some(d) => Some(d@),
                None => None,
            },
        }
    }

    /// The server named `name`, or the default server when no name is given. Fails
    /// when no server is configured, when neither a name nor a default is set, or
    /// when no server has the name.
    pub fn get_server(&self, name: Option<&str>) -> (r: Result<&ElasticSearchServer, GetServerError>)
        ensures
            self.servers@.len() == 0 ==> r == Err::<&ElasticSearchServer, _>(
                GetServerError::NoConfiguredServers,
            ),
            self.servers@.len() > 0 && self.wanted_server(text_of(name)) is None ==> r == Err::<
                &ElasticSearchServer,
                _,
            >(GetServerError::ServerNotSpecified),
            self.servers@.len() > 0 ==> (self.wanted_server(text_of(name)) matches Some(w) ==> {
                &&& (r matches Ok(s) ==> exists|i: int|
                    first_server(self.servers@, w, i) && *s == #[trigger] self.servers@[i])
                &&& (r matches Err(e) ==> (e matches GetServerError::ServerNotFound { server }
                    && server@ == w))
                &&& (r is Ok <==> has_server(self.servers@, w))
            }),
    {
        if self.servers.len() == 0 {
            return Err(GetServerError::NoConfiguredServers);
        }
        let server_name = match name {
            Some(n) => n.to_owned(),
            None => match &self.default_server {
                Some(d) => d.clone(),
                None => {
                    return Err(GetServerError::ServerNotSpecified);
                },
            },
        };
        match find_server(&self.servers, &server_name) {
            Some(i) => Ok(&self.servers[i]),
            None => Err(GetServerError::ServerNotFound { server: server_name }),
        }
    }
}

} // verus!
