//! The database as contracts see it: three tables of plain rows, the
//! invariant that ties them together, and what each statement of the service
//! makes of them.

use vstd::prelude::*;
use crate::seqs::{lemma_filter_agree, lemma_filter_all, lemma_filter_commutes, lemma_filter_push};
use crate::table::{
    can_store, has_id, has_value, id_of, lemma_id_of_is_row, lemma_row_found, lemma_stored_wf,
    sentinel, stored, table_wf, value_of, Row,
};
use crate::url::{lemma_split_rejoins, origin_of, path_of};

verus! {

/// One saved image: its id, its owner, and its URL as an origin row and a path.
pub struct Cat {
    pub id: int,
    pub bicmid_id: int,
    pub url_origin_id: int,
    pub url_path: Seq<char>,
}

/// The three tables. `bicmids` holds one row per session identity,
/// `url_origins` one per URL origin, `cats` one per saved image.
pub struct DatabaseView {
    pub bicmids: Seq<Row>,
    pub url_origins: Seq<Row>,
    pub cats: Seq<Cat>,
}

/// How many rows one listing returns at most.
pub open spec fn page_size() -> int {
    20
}

/// The tables have been created.
pub open spec fn created(v: DatabaseView) -> bool {
    v.bicmids.len() > 0
}

/// Ids of saved images grow strictly from each row to the next.
pub open spec fn cat_ids_ascending(cats: Seq<Cat>) -> bool {
    forall|i: int, j: int| 0 <= i < j < cats.len() ==> cats[i].id < cats[j].id
}

/// The invariant of the database: both lookup tables are well formed and
/// exist together, ids of saved images are positive and ascend, and every
/// saved image refers to an existing identity row and an existing origin row.
pub open spec fn database_wf(v: DatabaseView) -> bool {
    &&& table_wf(v.bicmids)
    &&& table_wf(v.url_origins)
    &&& (v.bicmids.len() > 0) == (v.url_origins.len() > 0)
    &&& !created(v) ==> v.cats.len() == 0
    &&& cat_ids_ascending(v.cats)
    &&& forall|i: int|
        0 <= i < v.cats.len() ==> {
            &&& 1 <= #[trigger] v.cats[i].id <= i64::MAX
            &&& has_id(v.bicmids, v.cats[i].bicmid_id)
            &&& has_id(v.url_origins, v.cats[i].url_origin_id)
        }
}

/// The database right after its tables were created: two sentinel rows.
pub open spec fn fresh_tables() -> DatabaseView {
    DatabaseView { bicmids: seq![sentinel()], url_origins: seq![sentinel()], cats: Seq::empty() }
}

/// The database after the statement that creates the tables: a database
/// without tables gets them, one with tables is left as it is.
pub open spec fn after_create(v: DatabaseView) -> DatabaseView {
    if created(v) {
        v
    } else {
        fresh_tables()
    }
}

/// `cat` belongs to the session whose identity is `bicmid`.
pub open spec fn owned_by(v: DatabaseView, cat: Cat, bicmid: Seq<char>) -> bool {
    id_of(v.bicmids, bicmid) == Some(cat.bicmid_id)
}

/// The test "belongs to `bicmid`" as a function on rows.
pub open spec fn owner_pred(v: DatabaseView, bicmid: Seq<char>) -> spec_fn(Cat) -> bool {
    |c: Cat| owned_by(v, c, bicmid)
}

/// The saved images of one session, oldest first.
pub open spec fn session_cats(v: DatabaseView, bicmid: Seq<char>) -> Seq<Cat> {
    v.cats.filter(owner_pred(v, bicmid))
}

/// The URL of a saved image: the value of its origin row, then its path.
pub open spec fn full_url(v: DatabaseView, cat: Cat) -> Seq<char> {
    value_of(v.url_origins, cat.url_origin_id).unwrap() + cat.url_path
}

/// One line of a listing: the image's id and its URL.
pub open spec fn entry(v: DatabaseView, cat: Cat) -> (int, Seq<char>) {
    (cat.id, full_url(v, cat))
}

/// `entry` for the rows of one database, as a function on rows.
pub open spec fn entry_fn(v: DatabaseView) -> spec_fn(Cat) -> (int, Seq<char>) {
    |c: Cat| entry(v, c)
}

/// At most `page_size()` items of `items`, from position `offset` on.
pub open spec fn page<T>(items: Seq<T>, offset: int) -> Seq<T> {
    let from = if offset < items.len() {
        offset
    } else {
        items.len() as int
    };
    let to = if offset + page_size() < items.len() {
        offset + page_size()
    } else {
        items.len() as int
    };
    items.subrange(from, to)
}

/// The listing of one session: its images, newest first, one page of them
/// from `offset` on, each with its id and URL.
pub open spec fn listing(v: DatabaseView, bicmid: Seq<char>, offset: int) -> Seq<
    (int, Seq<char>),
> {
    page(session_cats(v, bicmid).reverse(), offset).map_values(entry_fn(v))
}

/// The test "is not the image `id` of session `bicmid`" as a function on rows.
pub open spec fn keep_pred(v: DatabaseView, bicmid: Seq<char>, id: int) -> spec_fn(Cat) -> bool {
    |c: Cat| !(c.id == id && owned_by(v, c, bicmid))
}

/// The database after session `bicmid` has deleted image `id`: the image is
/// gone if it was that session's, and nothing else has changed.
pub open spec fn after_delete(v: DatabaseView, bicmid: Seq<char>, id: int) -> DatabaseView {
    DatabaseView { cats: v.cats.filter(keep_pred(v, bicmid, id)), ..v }
}

/// The id that the next saved image gets.
pub open spec fn next_cat_id(cats: Seq<Cat>) -> int {
    if cats.len() == 0 {
        1
    } else {
        cats.last().id + 1
    }
}

/// Whether session `bicmid` can save `url`: the tables exist, and every row
/// that has to be written still gets an id.
pub open spec fn can_save(v: DatabaseView, bicmid: Seq<char>, url: Seq<char>) -> bool {
    &&& can_store(v.bicmids, bicmid)
    &&& can_store(v.url_origins, origin_of(url))
    &&& next_cat_id(v.cats) <= i64::MAX
}

/// The row that saving `url` for session `bicmid` adds.
pub open spec fn saved_cat(v: DatabaseView, bicmid: Seq<char>, url: Seq<char>) -> Cat {
    Cat {
        id: next_cat_id(v.cats),
        bicmid_id: id_of(stored(v.bicmids, bicmid), bicmid).unwrap(),
        url_origin_id: id_of(stored(v.url_origins, origin_of(url)), origin_of(url)).unwrap(),
        url_path: path_of(url),
    }
}

/// The database after session `bicmid` has saved `url`: the identity and the
/// origin are stored where they were missing, and one image row is added.
pub open spec fn after_save(v: DatabaseView, bicmid: Seq<char>, url: Seq<char>) -> DatabaseView {
    DatabaseView {
        bicmids: stored(v.bicmids, bicmid),
        url_origins: stored(v.url_origins, origin_of(url)),
        cats: v.cats.push(saved_cat(v, bicmid, url)),
    }
}

/// A page with one more item behind the listed ones: the item joins the
/// page where the page starts at or before it and is not full yet.
pub proof fn lemma_page_push<T>(items: Seq<T>, x: T, offset: int)
    requires
        0 <= offset,
    ensures
        page(items.push(x), offset) == if offset <= items.len() < offset + page_size() {
            page(items, offset).push(x)
        } else {
            page(items, offset)
        },
{
    if offset <= items.len() < offset + page_size() {
        assert(page(items.push(x), offset) =~= page(items, offset).push(x));
    } else {
        assert(page(items.push(x), offset) =~= page(items, offset));
    }
}

/// Creating the tables gives a well-formed database with tables, and doing
/// it again changes nothing.
pub proof fn lemma_create_is_idempotent(v: DatabaseView)
    requires
        database_wf(v),
    ensures
        database_wf(after_create(v)),
        created(after_create(v)),
        after_create(after_create(v)) == after_create(v),
        created(v) ==> after_create(v) == v,
{
}

/// Filtering rows whose ids ascend leaves rows whose ids ascend, each of
/// them a row of the table and none with an id above the table's last.
pub proof fn lemma_filter_keeps_order(cats: Seq<Cat>, p: spec_fn(Cat) -> bool)
    requires
        cat_ids_ascending(cats),
    ensures
        cat_ids_ascending(cats.filter(p)),
        forall|k: int|
            0 <= k < cats.filter(p).len() ==> cats.contains(#[trigger] cats.filter(p)[k]) && p(
                cats.filter(p)[k],
            ),
        forall|k: int|
            0 <= k < cats.filter(p).len() ==> (#[trigger] cats.filter(p)[k]).id <= cats.last().id,
    decreases cats.len(),
{
    reveal(Seq::filter);
    if cats.len() > 0 {
        let front = cats.drop_last();
        let last = cats.last();
        assert(forall|i: int| 0 <= i < front.len() ==> front[i] == cats[i]);
        lemma_filter_keeps_order(front, p);
        let kept = front.filter(p);
        assert forall|k: int| 0 <= k < kept.len() implies cats.contains(#[trigger] kept[k])
            && kept[k].id < last.id by {
            assert(front.contains(kept[k]));
            let a = choose|a: int| 0 <= a < front.len() && front[a] == kept[k];
            assert(cats[a] == kept[k]);
            assert(cats[a].id < cats[cats.len() - 1].id);
        }
        assert(cats.contains(last)) by {
            assert(cats[cats.len() - 1] == last);
        }
    }
}

/// Every listing has at most `page_size()` lines, and their ids descend
/// strictly: the newest image comes first.
pub proof fn lemma_listing_descends(v: DatabaseView, bicmid: Seq<char>, offset: int)
    requires
        database_wf(v),
        0 <= offset,
    ensures
        listing(v, bicmid, offset).len() <= page_size(),
        forall|i: int, j: int|
            0 <= i < j < listing(v, bicmid, offset).len() ==> listing(v, bicmid, offset)[i].0
                > listing(v, bicmid, offset)[j].0,
{
    let owned = session_cats(v, bicmid);
    lemma_filter_keeps_order(v.cats, owner_pred(v, bicmid));
    let newest_first = owned.reverse();
    let shown = page(newest_first, offset);
    let from = if offset < newest_first.len() {
        offset
    } else {
        newest_first.len() as int
    };
    assert forall|i: int, j: int| 0 <= i < j < listing(v, bicmid, offset).len() implies listing(
        v,
        bicmid,
        offset,
    )[i].0 > listing(v, bicmid, offset)[j].0 by {
        assert(shown[i] == newest_first[from + i]);
        assert(shown[j] == newest_first[from + j]);
        assert(newest_first[from + i] == owned[owned.len() - 1 - (from + i)]);
        assert(newest_first[from + j] == owned[owned.len() - 1 - (from + j)]);
    }
}

/// Every line of a listing shows an image of the session that asked.
pub proof fn lemma_listing_shows_own(v: DatabaseView, bicmid: Seq<char>, offset: int, i: int)
    requires
        database_wf(v),
        0 <= offset,
        0 <= i < listing(v, bicmid, offset).len(),
    ensures
        exists|c: Cat|
            v.cats.contains(c) && owned_by(v, c, bicmid) && listing(v, bicmid, offset)[i] == entry(
                v,
                c,
            ),
{
    let owned = session_cats(v, bicmid);
    lemma_filter_keeps_order(v.cats, owner_pred(v, bicmid));
    let newest_first = owned.reverse();
    let shown = page(newest_first, offset);
    let from = if offset < newest_first.len() {
        offset
    } else {
        newest_first.len() as int
    };
    let c = shown[i];
    assert(c == newest_first[from + i]);
    assert(c == owned[owned.len() - 1 - (from + i)]);
    assert(v.cats.contains(c) && owner_pred(v, bicmid)(c));
    assert(listing(v, bicmid, offset)[i] == entry(v, c));
    assert(v.cats.contains(c) && owned_by(v, c, bicmid) && listing(v, bicmid, offset)[i] == entry(
        v,
        c,
    ));
}

/// Deleting keeps the database well formed.
pub proof fn lemma_delete_keeps_wf(v: DatabaseView, bicmid: Seq<char>, id: int)
    requires
        database_wf(v),
    ensures
        database_wf(after_delete(v, bicmid, id)),
{
    let after = after_delete(v, bicmid, id);
    lemma_filter_keeps_order(v.cats, keep_pred(v, bicmid, id));
    v.cats.lemma_filter_len(keep_pred(v, bicmid, id));
    assert forall|i: int| 0 <= i < after.cats.len() implies {
        &&& 1 <= #[trigger] after.cats[i].id <= i64::MAX
        &&& has_id(after.bicmids, after.cats[i].bicmid_id)
        &&& has_id(after.url_origins, after.cats[i].url_origin_id)
    } by {
        assert(v.cats.contains(after.cats[i]));
        let a = choose|a: int| 0 <= a < v.cats.len() && v.cats[a] == after.cats[i];
        assert(1 <= v.cats[a].id);
    }
}

/// A session that deletes an id which is none of its own, be it another
/// session's or nobody's, changes nothing.
pub proof fn lemma_delete_foreign_changes_nothing(v: DatabaseView, bicmid: Seq<char>, id: int)
    requires
        database_wf(v),
        forall|i: int|
            0 <= i < v.cats.len() && v.cats[i].id == id ==> !owned_by(v, v.cats[i], bicmid),
    ensures
        after_delete(v, bicmid, id) == v,
{
    lemma_filter_all(v.cats, keep_pred(v, bicmid, id));
}

/// A session that deletes one of its own images removes that row and no
/// other: the listing of any other session stays as it was.
pub proof fn lemma_delete_spares_others(
    v: DatabaseView,
    bicmid: Seq<char>,
    id: int,
    other: Seq<char>,
)
    requires
        database_wf(v),
        other != bicmid,
    ensures
        session_cats(after_delete(v, bicmid, id), other) == session_cats(v, other),
{
    let after = after_delete(v, bicmid, id);
    let keep = keep_pred(v, bicmid, id);
    let theirs = owner_pred(v, other);
    assert(owner_pred(after, other) == theirs) by {
        assert forall|c: Cat| #[trigger] owner_pred(after, other)(c) == theirs(c) by {}
        assert(owner_pred(after, other) =~= theirs);
    }
    lemma_filter_commutes(v.cats, keep, theirs);
    let mine = v.cats.filter(theirs);
    lemma_filter_keeps_order(v.cats, theirs);
    assert forall|i: int| 0 <= i < mine.len() implies keep(mine[i]) by {
        assert(theirs(mine[i]));
        if owned_by(v, mine[i], bicmid) {
            lemma_owner_is_one(v, mine[i], bicmid, other);
        }
    }
    lemma_filter_all(mine, keep);
}

/// What a delete leaves of the deleter's own images: all of them but the
/// one with the deleted id, in their old order.
pub proof fn lemma_delete_removes_own(v: DatabaseView, bicmid: Seq<char>, id: int)
    requires
        database_wf(v),
    ensures
        session_cats(after_delete(v, bicmid, id), bicmid) == session_cats(v, bicmid).filter(
            |c: Cat| c.id != id,
        ),
{
    let after = after_delete(v, bicmid, id);
    let keep = keep_pred(v, bicmid, id);
    let mine = owner_pred(v, bicmid);
    let other_id = |c: Cat| c.id != id;
    assert(owner_pred(after, bicmid) == mine) by {
        assert forall|c: Cat| #[trigger] owner_pred(after, bicmid)(c) == mine(c) by {}
        assert(owner_pred(after, bicmid) =~= mine);
    }
    lemma_filter_commutes(v.cats, keep, mine);
    let owned = v.cats.filter(mine);
    lemma_filter_keeps_order(v.cats, mine);
    assert forall|i: int| 0 <= i < owned.len() implies keep(owned[i]) == other_id(owned[i]) by {
        assert(mine(owned[i]));
    }
    lemma_filter_agree(owned, keep, other_id);
}

/// A row has one owner: two identities that own the same row are the same.
pub proof fn lemma_owner_is_one(v: DatabaseView, c: Cat, a: Seq<char>, b: Seq<char>)
    requires
        database_wf(v),
        owned_by(v, c, a),
        owned_by(v, c, b),
    ensures
        a == b,
{
    let i = choose|i: int| 0 <= i < v.bicmids.len() && v.bicmids[i].value == a;
    let j = choose|j: int| 0 <= j < v.bicmids.len() && v.bicmids[j].value == b;
    assert(v.bicmids[i].id == v.bicmids[j].id);
    if i < j {
        assert(v.bicmids[i].id < v.bicmids[j].id);
    } else if j < i {
        assert(v.bicmids[j].id < v.bicmids[i].id);
    }
}

/// What saving does to ownership: rows that were in the table before belong
/// to whom they belonged, whoever saves.
pub proof fn lemma_save_keeps_owners(
    v: DatabaseView,
    bicmid: Seq<char>,
    url: Seq<char>,
    other: Seq<char>,
    c: Cat,
)
    requires
        database_wf(v),
        can_save(v, bicmid, url),
        v.cats.contains(c),
    ensures
        owned_by(after_save(v, bicmid, url), c, other) == owned_by(v, c, other),
{
    let after = after_save(v, bicmid, url);
    lemma_stored_wf(v.bicmids, bicmid);
    let a = choose|a: int| 0 <= a < v.cats.len() && v.cats[a] == c;
    assert(has_id(v.bicmids, v.cats[a].bicmid_id));
    if has_value(v.bicmids, other) {
    } else if has_value(after.bicmids, other) {
        // `other` is the identity that this save stored: its id is new.
        let n = v.bicmids.len() as int;
        let k = choose|k: int| 0 <= k < after.bicmids.len() && after.bicmids[k].value == other;
        assert(k == n) by {
            if k < n {
                assert(v.bicmids[k].value == other);
            }
        }
        lemma_row_found(after.bicmids, n);
        let r = choose|r: int| 0 <= r < v.bicmids.len() && v.bicmids[r].id == c.bicmid_id;
        assert(after.bicmids[r].id < after.bicmids[n].id);
    }
}

/// Saving keeps the database well formed.
pub proof fn lemma_save_keeps_wf(v: DatabaseView, bicmid: Seq<char>, url: Seq<char>)
    requires
        database_wf(v),
        can_save(v, bicmid, url),
    ensures
        database_wf(after_save(v, bicmid, url)),
        created(after_save(v, bicmid, url)),
{
    let after = after_save(v, bicmid, url);
    let new = saved_cat(v, bicmid, url);
    lemma_stored_wf(v.bicmids, bicmid);
    lemma_stored_wf(v.url_origins, origin_of(url));
    lemma_id_of_is_row(after.bicmids, bicmid);
    lemma_id_of_is_row(after.url_origins, origin_of(url));
    assert forall|i: int, j: int| 0 <= i < j < after.cats.len() implies after.cats[i].id
        < after.cats[j].id by {
        if j == v.cats.len() && i < v.cats.len() - 1 {
            assert(v.cats[i].id < v.cats[v.cats.len() - 1].id);
        }
    }
    assert forall|i: int| 0 <= i < after.cats.len() implies {
        &&& 1 <= #[trigger] after.cats[i].id <= i64::MAX
        &&& has_id(after.bicmids, after.cats[i].bicmid_id)
        &&& has_id(after.url_origins, after.cats[i].url_origin_id)
    } by {
        if i < v.cats.len() {
            assert(after.cats[i] == v.cats[i]);
            let a = choose|a: int|
                0 <= a < v.bicmids.len() && v.bicmids[a].id == v.cats[i].bicmid_id;
            assert(after.bicmids[a] == v.bicmids[a]);
            let b = choose|b: int|
                0 <= b < v.url_origins.len() && v.url_origins[b].id == v.cats[i].url_origin_id;
            assert(after.url_origins[b] == v.url_origins[b]);
        } else {
            if v.cats.len() > 0 {
                assert(1 <= v.cats[v.cats.len() - 1].id);
            }
        }
    }
}

/// Saving adds one image to the saver's images, as their newest, and none
/// to anybody else's.
pub proof fn lemma_save_adds_one(
    v: DatabaseView,
    bicmid: Seq<char>,
    url: Seq<char>,
    other: Seq<char>,
)
    requires
        database_wf(v),
        can_save(v, bicmid, url),
    ensures
        session_cats(after_save(v, bicmid, url), other) == if other == bicmid {
            session_cats(v, other).push(saved_cat(v, bicmid, url))
        } else {
            session_cats(v, other)
        },
{
    let after = after_save(v, bicmid, url);
    let new = saved_cat(v, bicmid, url);
    let now = owner_pred(after, other);
    let before = owner_pred(v, other);
    lemma_filter_push(v.cats, now, new);
    assert forall|i: int| 0 <= i < v.cats.len() implies now(v.cats[i]) == before(v.cats[i]) by {
        lemma_save_keeps_owners(v, bicmid, url, other, v.cats[i]);
    }
    lemma_filter_agree(v.cats, now, before);
    lemma_stored_wf(v.bicmids, bicmid);
    lemma_id_of_is_row(after.bicmids, bicmid);
    if other == bicmid {
        assert(now(new));
    } else {
        if owned_by(after, new, other) {
            lemma_save_keeps_wf(v, bicmid, url);
            lemma_owner_is_one(after, new, bicmid, other);
        }
    }
}

/// A saved URL is read back as it was given: right after a save, the saver's
/// listing starts with the new image, under its new id, and its URL is the
/// saved one, character for character.
pub proof fn lemma_saved_is_listed_first(v: DatabaseView, bicmid: Seq<char>, url: Seq<char>)
    requires
        database_wf(v),
        can_save(v, bicmid, url),
    ensures
        listing(after_save(v, bicmid, url), bicmid, 0).len() >= 1,
        listing(after_save(v, bicmid, url), bicmid, 0)[0] == (next_cat_id(v.cats), url),
        full_url(after_save(v, bicmid, url), saved_cat(v, bicmid, url)) == url,
{
    let after = after_save(v, bicmid, url);
    let new = saved_cat(v, bicmid, url);
    lemma_save_adds_one(v, bicmid, url, bicmid);
    let owned = session_cats(after, bicmid);
    assert(owned.last() == new);
    assert(owned.reverse()[0] == new);
    assert(page(owned.reverse(), 0)[0] == new);
    lemma_stored_wf(v.url_origins, origin_of(url));
    lemma_id_of_is_row(after.url_origins, origin_of(url));
    lemma_split_rejoins(url);
    assert(listing(after, bicmid, 0)[0] == entry(after, new));
}

} // verus!
