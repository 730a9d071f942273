//! Local persistence logic for the desktop client: the single cached
//! credential with its expiry evaluation, the append-only log table with
//! filtered queries, retention pruning and statistics, CSV export, and the
//! schema version bookkeeping.
pub mod text;
pub mod csv;
pub mod order;
pub mod error;
pub mod clock;
pub mod auth;
pub mod logs;
pub mod export;
pub mod schema;
pub mod greeting;
