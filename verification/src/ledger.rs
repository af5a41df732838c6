//! The one place that knows the whole book: how it is opened, and who draws a store off it.

use vstd::prelude::*;

use crate::archive::MessageStore;
use crate::layout::LayoutStore;
use crate::mentions::MentionStore;
use crate::modlog::ModlogStore;
use crate::text::{contains, has_text, push_text, same, texts};

verus! {

/// Finds out whether the full-text index is there.
pub const FTS_EXISTS: &'static str = "select 1 from sqlite_master where name = 'msg_fts'";

/// Lets readers and a writer share the book. It is kept in the file, so that every later
/// connection inherits it.
pub const WAL_MODE: &'static str = "pragma journal_mode = 'wal'";

pub const ADD_AUTHOR_DISPLAY: &'static str = "alter table messages add column author_display text";

/// A column of the book that nothing here writes or reads: a deleted message stays as it was
/// kept.
pub const ADD_DELETED_AT: &'static str = "alter table messages add column deleted_at text";

/// Builds the full-text index over the rows already there.
pub const REBUILD: &'static str = "insert into msg_fts(msg_fts) values ('rebuild')";

/// How long a connection waits for another one's lock, in seconds.
pub const BUSY_TIMEOUT_SECS: u64 = 5;

/// The ledger, at a path.
pub struct Ledger {
    pub path: String,
}

/// The journal's mode first; then every tenant's tables, in the order they are made; then the
/// columns that older archives lack; then the index, where it was not there before.
pub open spec fn opening(fts_exists: bool) -> Seq<Seq<char>> {
    seq![
        WAL_MODE@,
        crate::mentions::SCHEMA@,
        crate::layout::SCHEMA@,
        crate::modlog::SCHEMA@,
        crate::archive::SCHEMA@,
        ADD_AUTHOR_DISPLAY@,
        ADD_DELETED_AT@,
    ] + if fts_exists {
        seq![]
    } else {
        seq![REBUILD@]
    }
}

impl Ledger {
    /// The ledger at a path.
    pub fn at(path: String) -> (r: Self)
        ensures
            r.path == path,
    {
        Ledger { path }
    }

    /// What to run to open the ledger, given whether the full-text index was there.
    pub fn open(&self, fts_exists: bool) -> (r: Vec<String>)
        ensures
            texts(r@) == opening(fts_exists),
    {
        let mut r: Vec<String> = Vec::new();
        assert(texts(r@) =~= seq![]);
        push_text(&mut r, WAL_MODE.to_owned());
        push_text(&mut r, crate::mentions::SCHEMA.to_owned());
        push_text(&mut r, crate::layout::SCHEMA.to_owned());
        push_text(&mut r, crate::modlog::SCHEMA.to_owned());
        push_text(&mut r, crate::archive::SCHEMA.to_owned());
        push_text(&mut r, ADD_AUTHOR_DISPLAY.to_owned());
        push_text(&mut r, ADD_DELETED_AT.to_owned());
        if !fts_exists {
            push_text(&mut r, REBUILD.to_owned());
        }
        assert(texts(r@) =~= opening(fts_exists));
        r
    }

    /// Whether the error of an opening statement can be passed over: a column that is already
    /// there needs no adding, and nothing else may fail.
    pub fn is_harmless(sql: &str, error: &str) -> (r: bool)
        ensures
            r == ((sql@ == ADD_AUTHOR_DISPLAY@ || sql@ == ADD_DELETED_AT@) && has_text(
                error@,
                "duplicate column"@,
            )),
    {
        (same(sql, ADD_AUTHOR_DISPLAY) || same(sql, ADD_DELETED_AT)) && contains(
            error,
            "duplicate column",
        )
    }

    pub fn mentions(&self) -> (r: MentionStore)
        ensures
            r.path == self.path,
    {
        MentionStore::new(self.path.clone())
    }

    pub fn layout(&self) -> (r: LayoutStore)
        ensures
            r.path == self.path,
    {
        LayoutStore::new(self.path.clone())
    }

    pub fn archive(&self) -> (r: MessageStore)
        ensures
            r.path == self.path,
    {
        MessageStore::new(self.path.clone())
    }

    pub fn modlog(&self) -> (r: ModlogStore)
        ensures
            r.path == self.path,
            r.notifier is None,
    {
        ModlogStore::new(self.path.clone())
    }
}

} // verus!
