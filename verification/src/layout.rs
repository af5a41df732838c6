//! The watch-wall's layout: one row, kept and never read into.

use vstd::prelude::*;

use crate::sql::{bind_text, bound, push_param, Bound, SqlValue, Statement};

verus! {

pub const SCHEMA: &'static str = "
    create table if not exists watch_layout (
        id integer primary key check (id = 1),
        data text not null,
        updated_at text not null default current_timestamp
    );
";

pub const GET: &'static str = "select data from watch_layout where id = 1";

pub const PUT: &'static str = "
                insert into watch_layout (id, data, updated_at)
                values (1, ?1, current_timestamp)
                on conflict(id) do update set data = excluded.data, updated_at = current_timestamp
                ";

/// The store of the layout, at a path.
pub struct LayoutStore {
    pub path: String,
}

impl LayoutStore {
    /// The layout at a path.
    pub fn new(path: String) -> (r: Self)
        ensures
            r.path == path,
    {
        LayoutStore { path }
    }

    /// The statement that reads the layout.
    pub fn get(&self) -> (r: Statement)
        ensures
            r.is(GET@, seq![]),
    {
        let params: Vec<SqlValue> = Vec::new();
        assert(bound(params@) =~= seq![]);
        Statement { sql: GET.to_owned(), params }
    }

    /// The statement that keeps a layout in the place of the one before.
    pub fn put(&self, data: &str) -> (r: Statement)
        ensures
            r.is(PUT@, seq![Bound::Text(data@)]),
    {
        let mut params: Vec<SqlValue> = Vec::new();
        assert(bound(params@) =~= seq![]);
        push_param(&mut params, bind_text(data));
        assert(bound(params@) =~= seq![Bound::Text(data@)]);
        Statement { sql: PUT.to_owned(), params }
    }
}

} // verus!
