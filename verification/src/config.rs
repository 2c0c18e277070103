//! Server settings and their defaults.

use vstd::prelude::*;

use crate::storage::joined_path;
use crate::text::{chars_of, push_str, str_eq, string_of};

verus! {

broadcast use vstd::string::group_string_axioms;

/// Server settings. Paths are kept as text.
#[derive(Debug, Clone)]
pub struct Config {
    /// Address to bind, e.g. "0.0.0.0:8080"
    pub bind: String,
    /// Root directory holding vault, trash, conflicts, db
    pub data_dir: String,
    pub vault_path: String,
    pub trash_path: String,
    pub conflicts_path: String,
    pub db_path: String,
    /// TTL before items in trash are permanently removed
    pub trash_ttl_days: u32,
    /// Reject PUTs with body larger than this
    pub max_file_size_mb: u64,
    /// JWT signing secret
    pub jwt_secret: String,
    /// Pairing code required to register a new device. If `None`, pairing is disabled.
    pub pairing_code: Option<String>,
    /// JWT lifetime in days
    pub jwt_ttl_days: u32,
    /// Password for the /admin web console. If `None`, the console is disabled.
    pub admin_password: Option<String>,
}

/// The signing secret shipped as a placeholder.
pub open spec fn placeholder_secret() -> Seq<char> {
    "change-me-in-production"@
}

/// `base` joined with a relative `name`, as `Path::join` does.
pub fn path_join(base: &str, name: &str) -> (r: String)
    ensures
        r@ == joined_path(base@, name@),
{
    let cs = chars_of(base);
    let mut out = string_of(cs.as_slice());
    if cs.len() > 0 && cs[cs.len() - 1] != '/' {
        out.push('/');
    }
    push_str(&mut out, name);
    out
}

impl Default for Config {
    fn default() -> (c: Self)
        ensures
            c.bind@ == "0.0.0.0:8080"@,
            c.data_dir@ == "./data"@,
            c.vault_path@ == joined_path("./data"@, "vault"@),
            c.trash_path@ == joined_path("./data"@, "trash"@),
            c.conflicts_path@ == joined_path("./data"@, "conflicts"@),
            c.db_path@ == joined_path("./data"@, "meta.db"@),
            c.trash_ttl_days == 30,
            c.max_file_size_mb == 100,
            c.jwt_secret@ == placeholder_secret(),
            c.pairing_code is None,
            c.jwt_ttl_days == 365,
            c.admin_password is None,
    {
        let data_dir = "./data";
        Config {
            bind: "0.0.0.0:8080".to_owned(),
            vault_path: path_join(data_dir, "vault"),
            trash_path: path_join(data_dir, "trash"),
            conflicts_path: path_join(data_dir, "conflicts"),
            db_path: path_join(data_dir, "meta.db"),
            data_dir: data_dir.to_owned(),
            trash_ttl_days: 30,
            max_file_size_mb: 100,
            jwt_secret: "change-me-in-production".to_owned(),
            pairing_code: None,
            jwt_ttl_days: 365,
            admin_password: None,
        }
    }
}

impl Config {
    /// Whether the signing secret is still the shipped placeholder.
    pub fn uses_placeholder_secret(&self) -> (r: bool)
        ensures
            r == (self.jwt_secret@ == placeholder_secret()),
    {
        str_eq(self.jwt_secret.as_str(), "change-me-in-production")
    }

    /// The largest accepted request body, in bytes.
    pub fn max_body_bytes(&self) -> (r: usize)
        requires
            self.max_file_size_mb * 1048576 <= usize::MAX,
        ensures
            r == self.max_file_size_mb * 1048576,
    {
        (self.max_file_size_mb as usize) * 1024 * 1024
    }
}

} // verus!
