//! The database held in memory: the tables as vectors of rows, and the
//! statements of the service as methods that keep the invariant.

use vstd::prelude::*;
use crate::error::ServiceError;
use crate::model::{
    after_create, after_delete, after_save, can_save, created, database_wf, entry, entry_fn,
    keep_pred, lemma_delete_keeps_wf, lemma_page_push, listing, owner_pred, page, session_cats, Cat, DatabaseView,
};
use crate::seqs::{
    lemma_filter_all, lemma_filter_none, lemma_filter_one_out, lemma_filter_push,
    lemma_filter_suffix_step,
};
use crate::plan::{lemma_plan_ends, start, step, steps_left, Command, Reply, SaveState, Table};
use crate::saving::{
    add_reply, after_add, lemma_add_keeps_wf, lemma_plan_decides, lemma_save_can_be_undone,
    lemma_save_goes_on, lemma_waiting_wf, waiting,
};
use crate::table::{has_id, id_of, LookupTable};
use crate::url::{join_url, origin_of, path_of, split_url};

verus! {

/// One stored image row.
pub struct CatRow {
    id: i64,
    bicmid_id: i64,
    url_origin_id: i64,
    url_path: String,
}

impl View for CatRow {
    type V = Cat;

    closed spec fn view(&self) -> Cat {
        Cat {
            id: self.id as int,
            bicmid_id: self.bicmid_id as int,
            url_origin_id: self.url_origin_id as int,
            url_path: self.url_path@,
        }
    }
}

/// The database: the table of session identities, the table of URL origins
/// and the table of saved images.
pub struct Database {
    bicmids: LookupTable,
    url_origins: LookupTable,
    cats: Vec<CatRow>,
}

impl View for Database {
    type V = DatabaseView;

    closed spec fn view(&self) -> DatabaseView {
        DatabaseView {
            bicmids: self.bicmids@,
            url_origins: self.url_origins@,
            cats: Seq::new(self.cats@.len(), |i: int| self.cats@[i]@),
        }
    }
}

/// The lines of a listing as contracts see them.
pub open spec fn lines_view(lines: Seq<(i64, String)>) -> Seq<(int, Seq<char>)> {
    lines.map_values(|line: (i64, String)| (line.0 as int, line.1@))
}

impl Database {
    /// The database's invariant.
    pub open spec fn wf(&self) -> bool {
        database_wf(self@)
    }

    /// A database without tables, as a file is that was just made.
    pub fn new() -> (db: Database)
        ensures
            db.wf(),
            db@ == (DatabaseView {
                bicmids: Seq::empty(),
                url_origins: Seq::empty(),
                cats: Seq::empty(),
            }),
    {
        let db = Database {
            bicmids: LookupTable::new(),
            url_origins: LookupTable::new(),
            cats: Vec::new(),
        };
        assert(db@.cats =~= Seq::<Cat>::empty());
        db
    }

    /// Creates the tables where they are missing, each lookup table with its
    /// sentinel row. On a database that has its tables this changes nothing.
    pub fn create_tables(&mut self)
        requires
            old(self).wf(),
        ensures
            final(self).wf(),
            final(self)@ == after_create(old(self)@),
    {
        self.bicmids.create();
        self.url_origins.create();
        proof {
            if !created(old(self)@) {
                assert(self@.cats =~= Seq::<Cat>::empty());
            }
            assert(self@.cats =~= old(self)@.cats);
        }
    }

    /// The table of session identities.
    pub fn bicmids(&self) -> (table: &LookupTable)
        ensures
            table@ == self@.bicmids,
    {
        &self.bicmids
    }

    /// The table of URL origins.
    pub fn url_origins(&self) -> (table: &LookupTable)
        ensures
            table@ == self@.url_origins,
    {
        &self.url_origins
    }

    /// The number of saved images, whoever saved them.
    pub fn total_cats(&self) -> (n: usize)
        ensures
            n == self@.cats.len(),
    {
        self.cats.len()
    }

    /// The number of images that the session `bicmid` has saved.
    pub fn count(&self, bicmid: &String) -> (res: Result<usize, ServiceError>)
        requires
            self.wf(),
        ensures
            match res {
                Ok(n) => created(self@) && n == session_cats(self@, bicmid@).len(),
                Err(e) => !created(self@) && e == ServiceError::Storage,
            },
    {
        if !self.bicmids.is_created() {
            return Err(ServiceError::Storage);
        }
        let ghost v = self@;
        let ghost p = owner_pred(v, bicmid@);
        let owner: i64 = match self.bicmids.find(bicmid) {
            Some(owner) => owner,
            None => {
                proof {
                    lemma_filter_none(v.cats, p);
                }
                return Ok(0);
            },
        };
        let mut n: usize = 0;
        let mut i: usize = 0;
        while i < self.cats.len()
            invariant
                v == self@,
                p == owner_pred(v, bicmid@),
                id_of(v.bicmids, bicmid@) == Some(owner as int),
                i <= self.cats@.len(),
                n == v.cats.take(i as int).filter(p).len(),
                n <= i,
            decreases self.cats@.len() - i,
        {
            proof {
                lemma_filter_push(v.cats.take(i as int), p, v.cats[i as int]);
                assert(v.cats.take(i as int).push(v.cats[i as int]) =~= v.cats.take(i + 1));
            }
            if self.cats[i].bicmid_id == owner {
                n = n + 1;
            }
            i = i + 1;
        }
        assert(v.cats.take(i as int) =~= v.cats);
        Ok(n)
    }

    /// One page of the images that the session `bicmid` has saved, newest
    /// first, from position `offset` of that order on: each with its id and
    /// its URL, put together from its origin and its path.
    pub fn list(&self, bicmid: &String, offset: usize) -> (res: Result<
        Vec<(i64, String)>,
        ServiceError,
    >)
        requires
            self.wf(),
        ensures
            match res {
                Ok(lines) => created(self@) && lines_view(lines@) == listing(
                    self@,
                    bicmid@,
                    offset as int,
                ),
                Err(e) => !created(self@) && e == ServiceError::Storage,
            },
    {
        if !self.bicmids.is_created() {
            return Err(ServiceError::Storage);
        }
        let ghost v = self@;
        let ghost p = owner_pred(v, bicmid@);
        let mut lines: Vec<(i64, String)> = Vec::new();
        let owner: i64 = match self.bicmids.find(bicmid) {
            Some(owner) => owner,
            None => {
                proof {
                    lemma_filter_none(v.cats, p);
                    assert(lines_view(lines@) =~= listing(v, bicmid@, offset as int));
                }
                return Ok(lines);
            },
        };
        let mut seen: usize = 0;
        let mut i: usize = self.cats.len();
        proof {
            assert(v.cats.skip(i as int) =~= Seq::<Cat>::empty());
            lemma_filter_none(v.cats.skip(i as int), p);
            assert(lines_view(lines@) =~= page(
                v.cats.skip(i as int).filter(p).reverse(),
                offset as int,
            ).map_values(entry_fn(v)));
        }
        while i > 0
            invariant
                self.wf(),
                v == self@,
                p == owner_pred(v, bicmid@),
                id_of(v.bicmids, bicmid@) == Some(owner as int),
                i <= self.cats@.len() <= usize::MAX,
                seen == v.cats.skip(i as int).filter(p).len(),
                lines_view(lines@) == page(
                    v.cats.skip(i as int).filter(p).reverse(),
                    offset as int,
                ).map_values(entry_fn(v)),
            decreases i,
        {
            let ghost matched = v.cats.skip(i as int).filter(p);
            let ghost shown = page(matched.reverse(), offset as int);
            proof {
                lemma_filter_suffix_step(v.cats, p, i as int);
                v.cats.skip(i as int).lemma_filter_len(p);
                assert(matched.len() <= v.cats.len() - i);
            }
            i = i - 1;
            let row = &self.cats[i];
            let ghost c = v.cats[i as int];
            if row.bicmid_id == owner {
                proof {
                    assert((seq![c] + matched).reverse() =~= matched.reverse().push(c));
                    lemma_page_push(matched.reverse(), c, offset as int);
                }
                if seen >= offset && seen - offset < 20 {
                    proof {
                        assert(1 <= v.cats[i as int].id);
                        assert(has_id(v.url_origins, c.url_origin_id));
                    }
                    match self.url_origins.value(row.url_origin_id) {
                        Some(origin) => {
                            let url: String = join_url(origin.as_str(), row.url_path.as_str());
                            let ghost before = lines@;
                            lines.push((row.id, url));
                            proof {
                                assert(lines_view(lines@) =~= lines_view(before).push(
                                    entry(v, c),
                                ));
                                assert(shown.push(c).map_values(entry_fn(v)) =~= shown.map_values(
                                    entry_fn(v),
                                ).push(entry(v, c)));
                            }
                        },
                        None => {},
                    }
                }
                assert(seen < self.cats@.len());
                seen = seen + 1;
            }
        }
        assert(v.cats.skip(0) =~= v.cats);
        Ok(lines)
    }

    /// Removes the image `id` if it is one of the session `bicmid`. An id of
    /// another session, or of no image at all, is not an error: nothing is
    /// removed then.
    pub fn delete(&mut self, bicmid: &String, id: i64) -> (res: Result<(), ServiceError>)
        requires
            old(self).wf(),
        ensures
            final(self).wf(),
            match res {
                Ok(()) => created(old(self)@) && final(self)@ == after_delete(
                    old(self)@,
                    bicmid@,
                    id as int,
                ),
                Err(e) => !created(old(self)@) && final(self)@ == old(self)@ && e
                    == ServiceError::Storage,
            },
    {
        if !self.bicmids.is_created() {
            return Err(ServiceError::Storage);
        }
        let ghost v = self@;
        let ghost keep = keep_pred(v, bicmid@, id as int);
        let owner: i64 = match self.bicmids.find(bicmid) {
            Some(owner) => owner,
            None => {
                proof {
                    lemma_filter_all(v.cats, keep);
                }
                return Ok(());
            },
        };
        let mut i: usize = 0;
        while i < self.cats.len()
            invariant
                self.wf(),
                v == self@,
                v == old(self)@,
                created(v),
                keep == keep_pred(v, bicmid@, id as int),
                id_of(v.bicmids, bicmid@) == Some(owner as int),
                i <= self.cats@.len(),
                forall|j: int| 0 <= j < i ==> v.cats[j].id != id,
            decreases self.cats@.len() - i,
        {
            if self.cats[i].id == id {
                proof {
                    assert forall|j: int| 0 <= j < v.cats.len() && j != i implies v.cats[j].id
                        != id by {
                        if i < j {
                            assert(v.cats[i as int].id < v.cats[j].id);
                        }
                    }
                }
                if self.cats[i].bicmid_id == owner {
                    self.cats.remove(i);
                    proof {
                        lemma_filter_one_out(v.cats, keep, i as int);
                        assert(self@.cats =~= v.cats.remove(i as int));
                        lemma_delete_keeps_wf(v, bicmid@, id as int);
                    }
                } else {
                    proof {
                        lemma_filter_all(v.cats, keep);
                    }
                }
                return Ok(());
            }
            i = i + 1;
        }
        proof {
            lemma_filter_all(v.cats, keep);
        }
        Ok(())
    }

    /// Adds an image row with the next id, as one statement of a
    /// transaction. Refused where the tables are missing, where one of the
    /// two references names no row, or where no id is left.
    pub fn add_cat(&mut self, bicmid_id: i64, url_origin_id: i64, url_path: String) -> (reply:
        Reply)
        requires
            old(self).wf(),
        ensures
            final(self).wf(),
            reply == add_reply(old(self)@, bicmid_id as int, url_origin_id as int),
            final(self)@ == after_add(
                old(self)@,
                bicmid_id as int,
                url_origin_id as int,
                url_path@,
            ),
    {
        let ghost v = self@;
        let n: usize = self.cats.len();
        let id: i64 = if n == 0 {
            1
        } else {
            let last: i64 = self.cats[n - 1].id;
            assert(v.cats.last().id == last);
            assert(1 <= v.cats[n - 1].id);
            if last == i64::MAX {
                return Reply::Failed;
            }
            last + 1
        };
        if self.bicmids.value(bicmid_id).is_none() || self.url_origins.value(
            url_origin_id,
        ).is_none() {
            return Reply::Failed;
        }
        let ghost path = url_path@;
        self.cats.push(CatRow { id, bicmid_id, url_origin_id, url_path });
        proof {
            let after = after_add(v, bicmid_id as int, url_origin_id as int, path);
            assert(self@.cats =~= after.cats);
            lemma_add_keeps_wf(v, bicmid_id as int, url_origin_id as int, path);
        }
        Reply::Done
    }

    /// Undoes what a transaction wrote: every table goes back to the length
    /// that `mark` holds for it.
    fn rollback(&mut self, mark: (usize, usize, usize))
        requires
            old(self).wf(),
            mark.0 <= old(self)@.bicmids.len(),
            mark.1 <= old(self)@.url_origins.len(),
            mark.2 <= old(self)@.cats.len(),
            mark.0 == 0 ==> mark.2 == 0,
            (mark.0 > 0) == (mark.1 > 0),
            forall|i: int|
                0 <= i < mark.2 ==> has_id(
                    old(self)@.bicmids.take(mark.0 as int),
                    old(self)@.cats[i].bicmid_id,
                ) && has_id(
                    old(self)@.url_origins.take(mark.1 as int),
                    old(self)@.cats[i].url_origin_id,
                ),
        ensures
            final(self).wf(),
            final(self)@ == (DatabaseView {
                bicmids: old(self)@.bicmids.take(mark.0 as int),
                url_origins: old(self)@.url_origins.take(mark.1 as int),
                cats: old(self)@.cats.take(mark.2 as int),
            }),
    {
        let ghost v = self@;
        self.bicmids.truncate(mark.0);
        self.url_origins.truncate(mark.1);
        self.cats.truncate(mark.2);
        proof {
            assert(self@.cats =~= v.cats.take(mark.2 as int));
            assert forall|i: int| 0 <= i < self@.cats.len() implies 1 <= #[trigger] self@.cats[i].id
                <= i64::MAX by {
                assert(1 <= v.cats[i].id);
            }
        }
    }

    /// Saves `url` for the session `bicmid`: stores the identity and the
    /// URL's origin where they are missing, and adds one image row that
    /// refers to both and holds the URL's path. Either all of this happens or,
    /// where the tables are missing or a row would get no id, none of it.
    ///
    /// The statements are those that the save plan asks for, one by one,
    /// carried out on the tables in memory.
    pub fn save(&mut self, bicmid: String, url: &str) -> (res: Result<(), ServiceError>)
        requires
            old(self).wf(),
        ensures
            final(self).wf(),
            match res {
                Ok(()) => can_save(old(self)@, bicmid@, url@) && final(self)@ == after_save(
                    old(self)@,
                    bicmid@,
                    url@,
                ),
                Err(e) => !can_save(old(self)@, bicmid@, url@) && final(self)@ == old(self)@ && e
                    == ServiceError::Storage,
            },
    {
        let ghost v = self@;
        let (origin, path) = split_url(url);
        let origin: String = origin.to_owned();
        let mark: (usize, usize, usize) = (
            self.bicmids.len(),
            self.url_origins.len(),
            self.cats.len(),
        );
        let mut state: SaveState = start();
        let mut reply: Reply = Reply::Done;
        loop
            invariant
                self.wf(),
                database_wf(v),
                v == old(self)@,
                origin@ == origin_of(url@),
                path@ == path_of(url@),
                mark.0 == v.bicmids.len(),
                mark.1 == v.url_origins.len(),
                mark.2 == v.cats.len(),
                waiting(v, bicmid@, url@, state, reply, self@),
            decreases steps_left(state),
        {
            let ghost before = self@;
            let ghost from = state;
            let ghost answer = reply;
            proof {
                lemma_plan_ends(state, reply);
                lemma_save_can_be_undone(v, bicmid@, url@, state, reply, before);
                lemma_plan_decides(v, bicmid@, url@, state, reply, before);
            }
            let (to, command) = step(state, reply);
            state = to;
            match command {
                Command::Begin => {
                    reply = Reply::Done;
                },
                Command::Select(Table::Bicmid) => {
                    reply = self.bicmids.select(&bicmid);
                },
                Command::Select(Table::UrlOrigin) => {
                    reply = self.url_origins.select(&origin);
                },
                Command::Insert(Table::Bicmid) => {
                    reply = self.bicmids.insert(bicmid.clone());
                },
                Command::Insert(Table::UrlOrigin) => {
                    reply = self.url_origins.insert(origin.clone());
                },
                Command::AddCat { bicmid_id, url_origin_id } => {
                    reply = self.add_cat(bicmid_id, url_origin_id, path.to_owned());
                },
                Command::Commit => {
                    reply = Reply::Done;
                },
                Command::Rollback => {
                    self.rollback(mark);
                    reply = Reply::Done;
                    proof {
                        assert(self@.bicmids =~= v.bicmids);
                        assert(self@.url_origins =~= v.url_origins);
                        assert(self@.cats =~= v.cats);
                    }
                },
                Command::Finish { saved } => {
                    return if saved {
                        Ok(())
                    } else {
                        Err(ServiceError::Storage)
                    };
                },
            }
            proof {
                lemma_save_goes_on(v, bicmid@, url@, from, answer, before, self@, reply);
                lemma_waiting_wf(v, bicmid@, url@, state, reply, self@);
            }
        }
    }
}

} // verus!
