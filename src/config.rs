//! Application settings and the paths derived from them.
use vstd::prelude::*;

verus! {

/// `name` appended to the directory `base` as one more path component, as
/// `Path::join` does for a relative name.
pub open spec fn joined_path(base: Seq<char>, name: Seq<char>) -> Seq<char> {
    if base.len() == 0 || base.last() == '/' {
        base + name
    } else {
        base + "/"@ + name
    }
}

/// Joins the relative file name `name` to the directory `base`.
pub fn join_path(base: &str, name: &str) -> (r: String)
    requires
        name@.len() == 0 || name@[0] != '/',
    ensures
        r@ == joined_path(base@, name@),
{
    let n = base.unicode_len();
    if n == 0 || base.get_char(n - 1) == '/' {
        String::from_str(base).concat(name)
    } else {
        String::from_str(base).concat("/").concat(name)
    }
}

/// Settings of the UniFi controller integration.
#[derive(Clone, Debug)]
pub struct UnifiConfig {
    pub enabled: bool,
    pub url: String,
    pub username: Option<String>,
    pub password: Option<String>,
}

impl Default for UnifiConfig {
    fn default() -> (r: Self)
        ensures
            !r.enabled,
            r.url@ == "https://192.168.1.1/"@,
            r.username is None,
            r.password is None,
    {
        UnifiConfig {
            enabled: false,
            url: String::from_str("https://192.168.1.1/"),
            username: None,
            password: None,
        }
    }
}

/// Application-wide settings.
#[derive(Clone, Debug)]
pub struct Conf {
    pub config_dir: String,
    pub squid_config_dir: String,
    pub squid_log_dir: String,
    pub hup_squid_daemon: bool,
    pub require_auth: bool,
    pub authorized_users: Vec<String>,
    pub unifi: UnifiConfig,
}

proof fn lemma_file_names()
    ensures
        "clients.json"@.len() > 0 && "clients.json"@[0] != '/',
        "domains.json"@.len() > 0 && "domains.json"@[0] != '/',
        "netaccess.json"@.len() > 0 && "netaccess.json"@[0] != '/',
{
    reveal_strlit("clients.json");
    reveal_strlit("domains.json");
    reveal_strlit("netaccess.json");
}

impl Conf {
    /// The directory that holds the record files.
    pub fn config_path(&self) -> (r: String)
        ensures
            r@ == self.config_dir@,
    {
        String::from_str(self.config_dir.as_str())
    }

    /// The file of client records.
    pub fn clients_json(&self) -> (r: String)
        ensures
            r@ == joined_path(self.config_dir@, "clients.json"@),
    {
        proof {
            lemma_file_names();
        }
        join_path(self.config_dir.as_str(), "clients.json")
    }

    /// The file of domain-list records.
    pub fn domains_json(&self) -> (r: String)
        ensures
            r@ == joined_path(self.config_dir@, "domains.json"@),
    {
        proof {
            lemma_file_names();
        }
        join_path(self.config_dir.as_str(), "domains.json")
    }

    /// The file of network-access settings.
    pub fn netaccess_json(&self) -> (r: String)
        ensures
            r@ == joined_path(self.config_dir@, "netaccess.json"@),
    {
        proof {
            lemma_file_names();
        }
        join_path(self.config_dir.as_str(), "netaccess.json")
    }
}

/// The two record files kept in one directory.
pub struct ConfigPaths {
    pub clients: String,
    pub domains: String,
}

impl ConfigPaths {
    pub fn new(dir: &str) -> (r: Self)
        ensures
            r.clients@ == joined_path(dir@, "clients.json"@),
            r.domains@ == joined_path(dir@, "domains.json"@),
    {
        proof {
            lemma_file_names();
        }
        ConfigPaths { clients: join_path(dir, "clients.json"), domains: join_path(dir, "domains.json") }
    }
}

} // verus!
