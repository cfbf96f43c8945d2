//! What extensions of the toolkit implement.

use vstd::prelude::*;
use crate::error::{AsahiError, AsahiResult};

verus! {

/// An extension point of the toolkit.
pub trait AsahiExtension: Send + Sync {
    /// Sets the extension up. Unless an extension says otherwise there is
    /// nothing to do, and it succeeds.
    fn setup(&self) -> (out: AsahiResult<()>)
        default_ensures
            out is Ok,
    {
        Ok(())
    }
}

/// Something that intercepts requests.
pub trait AsahiMiddleware<Request, Response> {
    fn handle(&self, request: Request) -> AsahiResult<Response>;
}

/// A plugin that a user of the toolkit declares.
pub trait AsahiPlugin: Send + Sync {
    fn name(&self) -> &'static str;

    fn setup(&self) -> AsahiResult<()>;
}

/// A configuration that can be overridden.
pub trait AsahiConfigurable: Sized {
    /// Reads the configuration from where the process keeps it.
    fn from_env() -> AsahiResult<Self>;

    /// Takes over the values of `overrides`.
    fn apply_overrides(&mut self, overrides: Self);
}

/// The databases that a connection can be opened to.
#[derive(Debug, Clone, Copy, PartialEq, Eq, Structural)]
pub enum AsahiDatabaseKind {
    Postgres,
    Sqlite,
}

/// What is said of a configuration that is for another kind of database.
pub open spec fn wrong_kind_text(wanted: AsahiDatabaseKind) -> Seq<char> {
    match wanted {
        AsahiDatabaseKind::Postgres => "asahi_utils: this is not a Postgres config"@,
        AsahiDatabaseKind::Sqlite => "asahi_utils: this is not a Sqlite config"@,
    }
}

/// Checks that a configuration is for the kind of database that is about
/// to be opened; an error of configuration where it is not.
pub fn ensure_kind(found: AsahiDatabaseKind, wanted: AsahiDatabaseKind) -> (out: AsahiResult<()>)
    ensures
        out is Ok <==> found == wanted,
        out matches Err(e) ==> e matches AsahiError::Config(detail) && detail@ == wrong_kind_text(
            wanted,
        ),
{
    if found == wanted {
        Ok(())
    } else {
        match wanted {
            AsahiDatabaseKind::Postgres => Err(
                AsahiError::Config(String::from_str("asahi_utils: this is not a Postgres config")),
            ),
            AsahiDatabaseKind::Sqlite => Err(
                AsahiError::Config(String::from_str("asahi_utils: this is not a Sqlite config")),
            ),
        }
    }
}

/// The configuration of a database connection.
pub trait AsahiDatabaseConfig: Send + Sync {
    /// The connection string.
    fn uri(&self) -> &str;

    /// The kind of database.
    fn kind(&self) -> AsahiDatabaseKind;

    /// How many connections the pool keeps at most.
    fn max_connections(&self) -> u32;
}

} // verus!
