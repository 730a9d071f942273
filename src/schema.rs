//! Table definitions and the schema version bookkeeping.
use vstd::prelude::*;

verus! {

/// The schema version that this library writes.
pub const LATEST_VERSION: i32 = 1;

pub const CREATE_AUTH: &'static str = "CREATE TABLE IF NOT EXISTS auth (id INTEGER PRIMARY KEY AUTOINCREMENT, token TEXT NOT NULL, expires_at TEXT NOT NULL, created_at TEXT DEFAULT CURRENT_TIMESTAMP, updated_at TEXT DEFAULT CURRENT_TIMESTAMP)";

pub const CREATE_TASKS: &'static str = "CREATE TABLE IF NOT EXISTS tasks (id INTEGER PRIMARY KEY AUTOINCREMENT, task_id INTEGER, keywords TEXT NOT NULL, platforms TEXT NOT NULL, query_count INTEGER NOT NULL, status TEXT NOT NULL, result_data TEXT, created_at TEXT DEFAULT CURRENT_TIMESTAMP, updated_at TEXT DEFAULT CURRENT_TIMESTAMP, UNIQUE(task_id))";

pub const INDEX_TASKS_STATUS: &'static str = "CREATE INDEX IF NOT EXISTS idx_tasks_status ON tasks(status)";

pub const CREATE_LOGIN_STATUS: &'static str = "CREATE TABLE IF NOT EXISTS login_status (id INTEGER PRIMARY KEY AUTOINCREMENT, platform_type TEXT NOT NULL, platform_name TEXT NOT NULL, is_logged_in INTEGER NOT NULL DEFAULT 0, last_check_at TEXT, updated_at TEXT DEFAULT CURRENT_TIMESTAMP, UNIQUE(platform_name))";

pub const INDEX_LOGIN_PLATFORM: &'static str = "CREATE INDEX IF NOT EXISTS idx_login_status_platform ON login_status(platform_name)";

pub const CREATE_SETTINGS: &'static str = "CREATE TABLE IF NOT EXISTS settings (key TEXT PRIMARY KEY, value TEXT NOT NULL)";

pub const CREATE_LOGS: &'static str = "CREATE TABLE IF NOT EXISTS logs (id INTEGER PRIMARY KEY AUTOINCREMENT, timestamp TEXT NOT NULL, level TEXT NOT NULL, module TEXT, message TEXT NOT NULL, error_detail TEXT, task_id INTEGER, created_at TEXT DEFAULT CURRENT_TIMESTAMP)";

pub const INDEX_LOGS_TIMESTAMP: &'static str = "CREATE INDEX IF NOT EXISTS idx_logs_timestamp ON logs(timestamp)";

pub const INDEX_LOGS_LEVEL: &'static str = "CREATE INDEX IF NOT EXISTS idx_logs_level ON logs(level)";

pub const INDEX_LOGS_MODULE: &'static str = "CREATE INDEX IF NOT EXISTS idx_logs_module ON logs(module)";

pub const INDEX_LOGS_TASK: &'static str = "CREATE INDEX IF NOT EXISTS idx_logs_task_id ON logs(task_id)";

pub const CREATE_SCHEMA_VERSION: &'static str = "CREATE TABLE IF NOT EXISTS schema_version (version INTEGER PRIMARY KEY)";

/// The create-if-absent statements, in the order they run.
pub open spec fn schema_spec() -> Seq<&'static str> {
    seq![
        CREATE_AUTH,
        CREATE_TASKS,
        INDEX_TASKS_STATUS,
        CREATE_LOGIN_STATUS,
        INDEX_LOGIN_PLATFORM,
        CREATE_SETTINGS,
        CREATE_LOGS,
        INDEX_LOGS_TIMESTAMP,
        INDEX_LOGS_LEVEL,
        INDEX_LOGS_MODULE,
        INDEX_LOGS_TASK,
        CREATE_SCHEMA_VERSION,
    ]
}

/// The version to write after the tables exist: the latest one when the stored
/// version (0 when none is stored) is lower, nothing otherwise.
pub open spec fn migration_target(stored_version: Option<i32>) -> Option<i32> {
    let current = match stored_version {
        Some(v) => v,
        None => 0,
    };
    if current < LATEST_VERSION {
        Some(LATEST_VERSION)
    } else {
        None
    }
}

/// The create-if-absent statements, in the order they run. Each is idempotent.
pub fn schema_statements() -> (r: Vec<&'static str>)
    ensures
        r@ == schema_spec(),
{
    let r = vec![
        CREATE_AUTH,
        CREATE_TASKS,
        INDEX_TASKS_STATUS,
        CREATE_LOGIN_STATUS,
        INDEX_LOGIN_PLATFORM,
        CREATE_SETTINGS,
        CREATE_LOGS,
        INDEX_LOGS_TIMESTAMP,
        INDEX_LOGS_LEVEL,
        INDEX_LOGS_MODULE,
        INDEX_LOGS_TASK,
        CREATE_SCHEMA_VERSION,
    ];
    assert(r@ =~= schema_spec());
    r
}

/// Decides the schema migration: given the stored version, the version to
/// write, if any. The written version is never lower than the stored one.
pub fn init(stored_version: Option<i32>) -> (r: Option<i32>)
    ensures
        r == migration_target(stored_version),
        r.is_some() ==> r.unwrap() > (match stored_version {
            Some(v) => v,
            None => 0,
        }),
{
    let current = match stored_version {
        Some(v) => v,
        None => 0,
    };
    if current < LATEST_VERSION {
        Some(LATEST_VERSION)
    } else {
        None
    }
}

} // verus!
