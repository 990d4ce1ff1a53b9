//! Why the save plan, carried out on the tables, saves: what holds of the
//! database between two statements of a save.

use vstd::prelude::*;
use crate::model::{
    after_save, can_save, database_wf, lemma_save_keeps_wf, next_cat_id, Cat, DatabaseView,
};
use crate::plan::{next, Command, Reply, SaveState, Table};
use crate::table::{
    after_insert, can_store, has_id, has_value, id_of, insert_reply, lemma_insert_tells,
    lemma_select_tells, lemma_stored_wf, select_reply, stored,
};
use crate::url::{origin_of, path_of};

verus! {

/// Whether an image row with these references can be added.
pub open spec fn can_add(v: DatabaseView, bicmid_id: int, url_origin_id: int) -> bool {
    &&& has_id(v.bicmids, bicmid_id)
    &&& has_id(v.url_origins, url_origin_id)
    &&& next_cat_id(v.cats) <= i64::MAX
}

/// What an image row with these references is answered: added, or refused.
pub open spec fn add_reply(v: DatabaseView, bicmid_id: int, url_origin_id: int) -> Reply {
    if can_add(v, bicmid_id, url_origin_id) {
        Reply::Done
    } else {
        Reply::Failed
    }
}

/// The database after an image row with these references was asked for.
pub open spec fn after_add(
    v: DatabaseView,
    bicmid_id: int,
    url_origin_id: int,
    url_path: Seq<char>,
) -> DatabaseView {
    if can_add(v, bicmid_id, url_origin_id) {
        DatabaseView {
            cats: v.cats.push(Cat { id: next_cat_id(v.cats), bicmid_id, url_origin_id, url_path }),
            ..v
        }
    } else {
        v
    }
}

/// Adding an image row keeps the database well formed.
pub proof fn lemma_add_keeps_wf(
    v: DatabaseView,
    bicmid_id: int,
    url_origin_id: int,
    url_path: Seq<char>,
)
    requires
        database_wf(v),
    ensures
        database_wf(after_add(v, bicmid_id, url_origin_id, url_path)),
{
    let after = after_add(v, bicmid_id, url_origin_id, url_path);
    if can_add(v, bicmid_id, url_origin_id) {
        assert forall|i: int, j: int| 0 <= i < j < after.cats.len() implies after.cats[i].id
            < after.cats[j].id by {
            if j == v.cats.len() && i < v.cats.len() - 1 {
                assert(v.cats[i].id < v.cats[v.cats.len() - 1].id);
            }
        }
        assert forall|i: int| 0 <= i < after.cats.len() implies {
            &&& 1 <= #[trigger] after.cats[i].id <= i64::MAX
            &&& has_id(after.bicmids, after.cats[i].bicmid_id)
            &&& has_id(after.url_origins, after.cats[i].url_origin_id)
        } by {
            if i < v.cats.len() {
                assert(1 <= v.cats[i].id);
            } else if v.cats.len() > 0 {
                assert(1 <= v.cats[v.cats.len() - 1].id);
            }
        }
    }
}

/// The database in the middle of a save: the identity is stored, the origin
/// too where `origin_too` says so, and no image row has been added.
pub open spec fn partly_saved(
    v: DatabaseView,
    bicmid: Seq<char>,
    url: Seq<char>,
    origin_too: bool,
) -> DatabaseView {
    DatabaseView {
        bicmids: stored(v.bicmids, bicmid),
        url_origins: if origin_too {
            stored(v.url_origins, origin_of(url))
        } else {
            v.url_origins
        },
        cats: v.cats,
    }
}

/// Rows that a save has stored in the lookup tables leave the database well
/// formed, also while the image row is still missing.
pub proof fn lemma_partly_saved_wf(
    v: DatabaseView,
    bicmid: Seq<char>,
    url: Seq<char>,
    origin_too: bool,
)
    requires
        database_wf(v),
        can_store(v.bicmids, bicmid),
        origin_too ==> can_store(v.url_origins, origin_of(url)),
    ensures
        database_wf(partly_saved(v, bicmid, url, origin_too)),
{
    let now = partly_saved(v, bicmid, url, origin_too);
    lemma_stored_wf(v.bicmids, bicmid);
    if origin_too {
        lemma_stored_wf(v.url_origins, origin_of(url));
    }
    assert forall|i: int| 0 <= i < now.cats.len() implies {
        &&& 1 <= #[trigger] now.cats[i].id <= i64::MAX
        &&& has_id(now.bicmids, now.cats[i].bicmid_id)
        &&& has_id(now.url_origins, now.cats[i].url_origin_id)
    } by {
        assert(1 <= v.cats[i].id);
        let a = choose|a: int| 0 <= a < v.bicmids.len() && v.bicmids[a].id == v.cats[i].bicmid_id;
        assert(now.bicmids[a] == v.bicmids[a]);
        let b = choose|b: int|
            0 <= b < v.url_origins.len() && v.url_origins[b].id == v.cats[i].url_origin_id;
        assert(now.url_origins[b] == v.url_origins[b]);
    }
}

/// What holds while a save that began on `v` waits in `state` with the
/// answer `reply`: which rows the database `now` holds, and what the answer
/// tells about `v`.
pub open spec fn waiting(
    v: DatabaseView,
    bicmid: Seq<char>,
    url: Seq<char>,
    state: SaveState,
    reply: Reply,
    now: DatabaseView,
) -> bool {
    let origin = origin_of(url);
    match state {
        SaveState::Start => now == v,
        SaveState::Beginning => now == v && reply is Done,
        SaveState::FindingOwner => now == v && reply == select_reply(v.bicmids, bicmid),
        SaveState::StoringOwner => {
            &&& v.bicmids.len() > 0
            &&& !has_value(v.bicmids, bicmid)
            &&& reply == insert_reply(v.bicmids, bicmid)
            &&& now == (DatabaseView { bicmids: after_insert(v.bicmids, bicmid), ..v })
        },
        SaveState::FindingOrigin { bicmid_id } => {
            &&& can_store(v.bicmids, bicmid)
            &&& id_of(stored(v.bicmids, bicmid), bicmid) == Some(bicmid_id as int)
            &&& has_id(stored(v.bicmids, bicmid), bicmid_id as int)
            &&& reply == select_reply(v.url_origins, origin)
            &&& now == partly_saved(v, bicmid, url, false)
        },
        SaveState::StoringOrigin { bicmid_id } => {
            &&& can_store(v.bicmids, bicmid)
            &&& id_of(stored(v.bicmids, bicmid), bicmid) == Some(bicmid_id as int)
            &&& has_id(stored(v.bicmids, bicmid), bicmid_id as int)
            &&& v.url_origins.len() > 0
            &&& !has_value(v.url_origins, origin)
            &&& reply == insert_reply(v.url_origins, origin)
            &&& now == (DatabaseView {
                url_origins: after_insert(v.url_origins, origin),
                ..partly_saved(v, bicmid, url, false)
            })
        },
        SaveState::AddingCat => {
            &&& can_store(v.bicmids, bicmid)
            &&& can_store(v.url_origins, origin)
            &&& if next_cat_id(v.cats) <= i64::MAX {
                reply is Done && now == after_save(v, bicmid, url)
            } else {
                reply is Failed && now == partly_saved(v, bicmid, url, true)
            }
        },
        SaveState::Committing => can_save(v, bicmid, url) && reply is Done && now == after_save(
            v,
            bicmid,
            url,
        ),
        SaveState::Aborting => !can_save(v, bicmid, url) && now == v,
        SaveState::Finished { .. } => false,
    }
}

/// While a save waits, the database holds what it held when the save began,
/// and perhaps more behind it: going back to the old lengths undoes the save.
pub proof fn lemma_save_can_be_undone(
    v: DatabaseView,
    bicmid: Seq<char>,
    url: Seq<char>,
    state: SaveState,
    reply: Reply,
    now: DatabaseView,
)
    requires
        waiting(v, bicmid, url, state, reply, now),
    ensures
        v.bicmids.len() <= now.bicmids.len(),
        v.url_origins.len() <= now.url_origins.len(),
        v.cats.len() <= now.cats.len(),
        now.bicmids.take(v.bicmids.len() as int) == v.bicmids,
        now.url_origins.take(v.url_origins.len() as int) == v.url_origins,
        now.cats.take(v.cats.len() as int) == v.cats,
{
    assert(now.bicmids.take(v.bicmids.len() as int) =~= v.bicmids);
    assert(now.url_origins.take(v.url_origins.len() as int) =~= v.url_origins);
    assert(now.cats.take(v.cats.len() as int) =~= v.cats);
}

/// While a save waits, the database is well formed.
pub proof fn lemma_waiting_wf(
    v: DatabaseView,
    bicmid: Seq<char>,
    url: Seq<char>,
    state: SaveState,
    reply: Reply,
    now: DatabaseView,
)
    requires
        database_wf(v),
        waiting(v, bicmid, url, state, reply, now),
    ensures
        database_wf(now),
{
    let origin = origin_of(url);
    match state {
        SaveState::StoringOwner => {
            lemma_insert_tells(v.bicmids, bicmid);
            if can_store(v.bicmids, bicmid) {
                lemma_partly_saved_wf(v, bicmid, url, false);
                assert(now == partly_saved(v, bicmid, url, false));
            }
        },
        SaveState::FindingOrigin { .. } => {
            lemma_partly_saved_wf(v, bicmid, url, false);
        },
        SaveState::StoringOrigin { .. } => {
            lemma_insert_tells(v.url_origins, origin);
            if can_store(v.url_origins, origin) {
                lemma_partly_saved_wf(v, bicmid, url, true);
                assert(now == partly_saved(v, bicmid, url, true));
            } else {
                lemma_partly_saved_wf(v, bicmid, url, false);
                assert(now == partly_saved(v, bicmid, url, false));
            }
        },
        SaveState::AddingCat => {
            if next_cat_id(v.cats) <= i64::MAX {
                lemma_save_keeps_wf(v, bicmid, url);
            } else {
                lemma_partly_saved_wf(v, bicmid, url, true);
            }
        },
        SaveState::Committing => {
            lemma_save_keeps_wf(v, bicmid, url);
        },
        _ => {},
    }
}

/// The plan decides rightly: where it rolls back or gives up, the save was
/// not possible; where it reports a saved image, the database holds it; and
/// where it asks for the image row, both references name the rows that the
/// identity and the origin are stored in.
pub proof fn lemma_plan_decides(
    v: DatabaseView,
    bicmid: Seq<char>,
    url: Seq<char>,
    state: SaveState,
    reply: Reply,
    now: DatabaseView,
)
    requires
        database_wf(v),
        waiting(v, bicmid, url, state, reply, now),
    ensures
        next(state, reply).1 is Rollback ==> !can_save(v, bicmid, url),
        next(state, reply).1 matches Command::Finish { saved } ==> if saved {
            can_save(v, bicmid, url) && now == after_save(v, bicmid, url)
        } else {
            !can_save(v, bicmid, url) && now == v
        },
        next(state, reply).1 matches Command::AddCat { bicmid_id, url_origin_id } ==> {
            &&& can_store(v.bicmids, bicmid)
            &&& can_store(v.url_origins, origin_of(url))
            &&& now == partly_saved(v, bicmid, url, true)
            &&& id_of(now.bicmids, bicmid) == Some(bicmid_id as int)
            &&& id_of(now.url_origins, origin_of(url)) == Some(url_origin_id as int)
            &&& has_id(now.bicmids, bicmid_id as int)
            &&& has_id(now.url_origins, url_origin_id as int)
        },
{
    let origin = origin_of(url);
    match state {
        SaveState::FindingOwner => {
            lemma_select_tells(v.bicmids, bicmid);
        },
        SaveState::StoringOwner => {
            lemma_insert_tells(v.bicmids, bicmid);
        },
        SaveState::FindingOrigin { .. } => {
            lemma_select_tells(v.url_origins, origin);
        },
        SaveState::StoringOrigin { .. } => {
            lemma_insert_tells(v.url_origins, origin);
        },
        _ => {},
    }
}

/// What carrying out `command` on the database `before` gives: the
/// database `after` and the answer.
pub open spec fn carried_out(
    v: DatabaseView,
    bicmid: Seq<char>,
    url: Seq<char>,
    command: Command,
    before: DatabaseView,
    after: DatabaseView,
    answer: Reply,
) -> bool {
    match command {
        Command::Begin | Command::Commit => after == before && answer is Done,
        Command::Select(Table::Bicmid) => after == before && answer == select_reply(
            before.bicmids,
            bicmid,
        ),
        Command::Select(Table::UrlOrigin) => after == before && answer == select_reply(
            before.url_origins,
            origin_of(url),
        ),
        Command::Insert(Table::Bicmid) => answer == insert_reply(before.bicmids, bicmid) && after
            == (DatabaseView { bicmids: after_insert(before.bicmids, bicmid), ..before }),
        Command::Insert(Table::UrlOrigin) => answer == insert_reply(
            before.url_origins,
            origin_of(url),
        ) && after == (DatabaseView {
            url_origins: after_insert(before.url_origins, origin_of(url)),
            ..before
        }),
        Command::AddCat { bicmid_id, url_origin_id } => answer == add_reply(
            before,
            bicmid_id as int,
            url_origin_id as int,
        ) && after == after_add(before, bicmid_id as int, url_origin_id as int, path_of(url)),
        Command::Rollback => after == v && answer is Done,
        Command::Finish { .. } => false,
    }
}

/// One round of a save: the plan's next statement, carried out on the
/// database, leaves the save waiting in the plan's next state.
pub proof fn lemma_save_goes_on(
    v: DatabaseView,
    bicmid: Seq<char>,
    url: Seq<char>,
    state: SaveState,
    reply: Reply,
    before: DatabaseView,
    after: DatabaseView,
    answer: Reply,
)
    requires
        database_wf(v),
        waiting(v, bicmid, url, state, reply, before),
        carried_out(v, bicmid, url, next(state, reply).1, before, after, answer),
    ensures
        waiting(v, bicmid, url, next(state, reply).0, answer, after),
{
    let origin = origin_of(url);
    lemma_plan_decides(v, bicmid, url, state, reply, before);
    match state {
        SaveState::Start | SaveState::Beginning => {},
        SaveState::FindingOwner => {
            lemma_select_tells(v.bicmids, bicmid);
        },
        SaveState::StoringOwner => {
            lemma_insert_tells(v.bicmids, bicmid);
        },
        SaveState::FindingOrigin { .. } => {
            lemma_select_tells(v.url_origins, origin);
        },
        SaveState::StoringOrigin { .. } => {
            lemma_insert_tells(v.url_origins, origin);
        },
        SaveState::AddingCat | SaveState::Committing | SaveState::Aborting => {},
        SaveState::Finished { .. } => {},
    }
}

} // verus!
