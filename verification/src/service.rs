//! The four operations on saved images, each for the session that asks.

use vstd::prelude::*;
use crate::error::ServiceError;
use crate::model::{after_delete, after_save, can_save, created, listing, session_cats, DatabaseView};
use crate::session::{get_bicmid_from_session, Session};
use crate::store::{lines_view, Database};

verus! {

/// The largest offset that a listing takes: a row count of the storage is a
/// signed 64-bit number.
pub open spec fn max_offset() -> int {
    0x7fff_ffff_ffff_ffff
}

/// Why a read of the database for a session fails, if it does: an unbound
/// session comes first, then missing tables.
pub open spec fn read_failure(session: Option<Seq<char>>, v: DatabaseView) -> Option<
    ServiceError,
> {
    if session is None {
        Some(ServiceError::NoSession)
    } else if !created(v) {
        Some(ServiceError::Storage)
    } else {
        None
    }
}

/// Why a listing fails, if it does: an unbound session comes first, then an
/// offset that is too large, then missing tables.
pub open spec fn list_failure(session: Option<Seq<char>>, offset: int, v: DatabaseView) -> Option<
    ServiceError,
> {
    if session is None {
        Some(ServiceError::NoSession)
    } else if offset > max_offset() {
        Some(ServiceError::InvalidOffset)
    } else if !created(v) {
        Some(ServiceError::Storage)
    } else {
        None
    }
}

/// Why saving `url` fails, if it does: for an unbound session, or where the
/// storage cannot take the rows.
pub open spec fn save_failure(session: Option<Seq<char>>, url: Seq<char>, v: DatabaseView) -> Option<
    ServiceError,
> {
    match session {
        None => Some(ServiceError::NoSession),
        Some(bicmid) => if can_save(v, bicmid, url) {
            None
        } else {
            Some(ServiceError::Storage)
        },
    }
}

/// The offset of a listing as the storage takes it: a signed 64-bit number.
pub fn checked_offset(offset: usize) -> (res: Result<i64, ServiceError>)
    ensures
        match res {
            Ok(o) => offset <= max_offset() && o == offset,
            Err(e) => offset > max_offset() && e == ServiceError::InvalidOffset,
        },
{
    if offset as u64 > 0x7fff_ffff_ffff_ffffu64 {
        Err(ServiceError::InvalidOffset)
    } else {
        Ok(offset as i64)
    }
}

/// Lists the session's saved images, newest first: at most twenty of them,
/// from position `offset` on, each with its id and its full URL.
pub fn list_cats(db: &Database, session: &Session, offset: usize) -> (res: Result<
    Vec<(i64, String)>,
    ServiceError,
>)
    requires
        db.wf(),
    ensures
        match res {
            Ok(lines) => list_failure(session@, offset as int, db@) is None && lines_view(lines@)
                == listing(db@, session@.unwrap(), offset as int),
            Err(e) => list_failure(session@, offset as int, db@) == Some(e),
        },
{
    let bicmid: String = match get_bicmid_from_session(session) {
        Ok(bicmid) => bicmid,
        Err(e) => {
            return Err(e);
        },
    };
    match checked_offset(offset) {
        Ok(_) => db.list(&bicmid, offset),
        Err(e) => Err(e),
    }
}

/// Counts the session's saved images.
pub fn count_of_cats(db: &Database, session: &Session) -> (res: Result<usize, ServiceError>)
    requires
        db.wf(),
    ensures
        match res {
            Ok(n) => read_failure(session@, db@) is None && n == session_cats(
                db@,
                session@.unwrap(),
            ).len(),
            Err(e) => read_failure(session@, db@) == Some(e),
        },
{
    let bicmid: String = match get_bicmid_from_session(session) {
        Ok(bicmid) => bicmid,
        Err(e) => {
            return Err(e);
        },
    };
    db.count(&bicmid)
}

/// Deletes the image `id` if it is one of the session's. Where it is not,
/// the call succeeds and the database stays as it is.
pub fn delete_cat(db: &mut Database, session: &Session, id: i64) -> (res: Result<(), ServiceError>)
    requires
        old(db).wf(),
    ensures
        final(db).wf(),
        match res {
            Ok(()) => read_failure(session@, old(db)@) is None && final(db)@ == after_delete(
                old(db)@,
                session@.unwrap(),
                id as int,
            ),
            Err(e) => read_failure(session@, old(db)@) == Some(e) && final(db)@ == old(db)@,
        },
{
    let bicmid: String = match get_bicmid_from_session(session) {
        Ok(bicmid) => bicmid,
        Err(e) => {
            return Err(e);
        },
    };
    db.delete(&bicmid, id)
}

/// Saves the URL `image` for the session. On failure nothing is written.
pub fn save_cat(db: &mut Database, session: &Session, image: String) -> (res: Result<
    (),
    ServiceError,
>)
    requires
        old(db).wf(),
    ensures
        final(db).wf(),
        match res {
            Ok(()) => save_failure(session@, image@, old(db)@) is None && final(db)@ == after_save(
                old(db)@,
                session@.unwrap(),
                image@,
            ),
            Err(e) => save_failure(session@, image@, old(db)@) == Some(e) && final(db)@ == old(
                db,
            )@,
        },
{
    let bicmid: String = match get_bicmid_from_session(session) {
        Ok(bicmid) => bicmid,
        Err(e) => {
            return Err(e);
        },
    };
    db.save(bicmid, image.as_str())
}

} // verus!
