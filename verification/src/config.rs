use vstd::prelude::*;
use vstd::string::StringExecFns;

verus! {

/// The most connections the database pool keeps open.
pub const MAX_CONNECTIONS: u32 = 10;

/// How long, in seconds, the pool waits for a free connection.
pub const ACQUIRE_TIMEOUT_SECS: u64 = 30;

/// How often, in seconds, the reminder daemon looks for due tasks.
pub const CHECK_INTERVAL_SECS: u64 = 300;

/// Where, below the home directory, the settings file is looked for when
/// the environment names no database.
pub fn home_env_file() -> (r: &'static str)
    ensures
        r@ == ".config/task-manager/.env"@,
{
    ".config/task-manager/.env"
}

/// The message when no database is named anywhere.
pub fn missing_database_url_message() -> (r: String)
    ensures
        r@ == "DATABASE_URL not set. Set it in your shell profile or in ~/.config/task-manager/.env"@,
{
    String::from_str("DATABASE_URL not set. Set it in your shell profile or in ~/.config/task-manager/.env")
}

} // verus!
