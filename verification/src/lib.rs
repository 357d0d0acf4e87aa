//! Raw page backup of a database whose file lives in a canister's stable
//! memory.
//!
//! The database engine stores its file as fixed-size pages behind a small
//! header at the start of the storage region. A backup is the plain
//! concatenation of those pages, in ascending order, with nothing in between.
//! The caller holds the database transaction and hands in the page count that
//! it read inside it; the backup is built while that transaction is open.
//!
//! * [`utils`] reads one block of bytes from the storage region.
//! * [`backup`] turns a page count into the sequence of page reads and joins
//!   what they return.
//! * [`stream`] hands a finished backup out piece by piece.
//! * [`laws`] states what holds of every backup.
//!
//! Stable memory exists in a canister only. What reads it ([`utils::read`],
//! [`backup::read_page_from_vfs`], [`backup::db_backup_on_memory`],
//! [`backup::stream_db_backup`]) is for code that runs there. The same
//! reader and assembler work on a storage region that is held in memory
//! ([`utils::read_from`], [`backup::read_page_from`],
//! [`backup::backup_from`]), and on any page reader at all
//! ([`backup::build_backup`]).

pub mod backup;
pub mod laws;
pub mod stream;
pub mod utils;
