//! Inspection and structural diffing of SQLite / SQLCipher database files:
//! connecting with automatic plain-vs-encrypted detection, listing tables and
//! columns, paging through row data, and comparing two databases' schemas.

pub mod diff;
pub mod manager;
pub mod models;
pub mod sqlext;
pub mod sqltext;
