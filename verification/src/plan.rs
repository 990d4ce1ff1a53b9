//! Saving an image as a conversation with the storage: the plan says which
//! statement comes next, the storage carries it out and answers, and the plan
//! decides from the answer how to go on. Whatever storage runs the
//! statements, the decisions are these.

use vstd::prelude::*;

verus! {

/// The two lookup tables.
#[derive(Clone, Copy, Debug, PartialEq, Eq, Structural)]
pub enum Table {
    /// The table of session identities.
    Bicmid,
    /// The table of URL origins.
    UrlOrigin,
}

/// What the storage answers to a statement.
#[derive(Clone, Copy, Debug, PartialEq, Eq, Structural)]
pub enum Reply {
    /// The statement was carried out; there is nothing to hand back.
    Done,
    /// The row that was looked for has this id.
    Found(i64),
    /// No row holds the value that was looked for.
    Missing,
    /// The value was stored in a new row with this id.
    Stored(i64),
    /// The storage could not carry the statement out.
    Failed,
}

/// What the plan asks for next.
#[derive(Clone, Copy, Debug, PartialEq, Eq, Structural)]
pub enum Command {
    /// Open a transaction.
    Begin,
    /// Look the session's identity, or the URL's origin, up in its table.
    Select(Table),
    /// Store the session's identity, or the URL's origin, in a new row.
    Insert(Table),
    /// Add the image row, with the URL's path and these two references.
    AddCat { bicmid_id: i64, url_origin_id: i64 },
    /// Make the transaction's writes permanent.
    Commit,
    /// Undo the transaction's writes.
    Rollback,
    /// Nothing more to do: the image was saved, or it was not and nothing
    /// was written.
    Finish { saved: bool },
}

/// How far a save has come. Each state but the first and the last waits for
/// the answer to the statement that led to it.
#[derive(Clone, Copy, Debug, PartialEq, Eq, Structural)]
pub enum SaveState {
    /// Nothing has been asked for yet.
    Start,
    /// The transaction is being opened.
    Beginning,
    /// The session's identity is being looked up.
    FindingOwner,
    /// The session's identity is being stored.
    StoringOwner,
    /// The URL's origin is being looked up; the identity has this id.
    FindingOrigin { bicmid_id: i64 },
    /// The URL's origin is being stored; the identity has this id.
    StoringOrigin { bicmid_id: i64 },
    /// The image row is being added.
    AddingCat,
    /// The transaction is being committed.
    Committing,
    /// The transaction is being rolled back.
    Aborting,
    /// The save is over.
    Finished { saved: bool },
}

/// Rolling back, after an answer that the plan cannot go on from.
pub open spec fn abort() -> (SaveState, Command) {
    (SaveState::Aborting, Command::Rollback)
}

/// Giving up where no transaction is open.
pub open spec fn give_up() -> (SaveState, Command) {
    (SaveState::Finished { saved: false }, Command::Finish { saved: false })
}

/// Going on to the origin once the identity's row id is known. Row ids are
/// not negative; an answer with a negative one is not gone on from.
pub open spec fn with_owner(bicmid_id: i64) -> (SaveState, Command) {
    if bicmid_id >= 0 {
        (SaveState::FindingOrigin { bicmid_id }, Command::Select(Table::UrlOrigin))
    } else {
        abort()
    }
}

/// Going on to the image row once both row ids are known.
pub open spec fn with_origin(bicmid_id: i64, url_origin_id: i64) -> (SaveState, Command) {
    if url_origin_id >= 0 {
        (SaveState::AddingCat, Command::AddCat { bicmid_id, url_origin_id })
    } else {
        abort()
    }
}

/// The plan: from a state and the storage's answer to the next state and the
/// next statement.
pub open spec fn next(state: SaveState, reply: Reply) -> (SaveState, Command) {
    match state {
        SaveState::Start => (SaveState::Beginning, Command::Begin),
        SaveState::Beginning => match reply {
            Reply::Done => (SaveState::FindingOwner, Command::Select(Table::Bicmid)),
            _ => give_up(),
        },
        SaveState::FindingOwner => match reply {
            Reply::Found(id) => with_owner(id),
            Reply::Missing => (SaveState::StoringOwner, Command::Insert(Table::Bicmid)),
            _ => abort(),
        },
        SaveState::StoringOwner => match reply {
            Reply::Stored(id) => with_owner(id),
            _ => abort(),
        },
        SaveState::FindingOrigin { bicmid_id } => match reply {
            Reply::Found(id) => with_origin(bicmid_id, id),
            Reply::Missing => (
                SaveState::StoringOrigin { bicmid_id },
                Command::Insert(Table::UrlOrigin),
            ),
            _ => abort(),
        },
        SaveState::StoringOrigin { bicmid_id } => match reply {
            Reply::Stored(id) => with_origin(bicmid_id, id),
            _ => abort(),
        },
        SaveState::AddingCat => match reply {
            Reply::Done => (SaveState::Committing, Command::Commit),
            _ => abort(),
        },
        SaveState::Committing => match reply {
            Reply::Done => (SaveState::Finished { saved: true }, Command::Finish { saved: true }),
            _ => give_up(),
        },
        SaveState::Aborting => give_up(),
        SaveState::Finished { saved } => (SaveState::Finished { saved }, Command::Finish { saved }),
    }
}

/// How many statements a save in this state may still ask for.
pub open spec fn steps_left(state: SaveState) -> nat {
    match state {
        SaveState::Start => 9,
        SaveState::Beginning => 8,
        SaveState::FindingOwner => 7,
        SaveState::StoringOwner => 6,
        SaveState::FindingOrigin { .. } => 5,
        SaveState::StoringOrigin { .. } => 4,
        SaveState::AddingCat => 3,
        SaveState::Committing => 2,
        SaveState::Aborting => 1,
        SaveState::Finished { .. } => 0,
    }
}

/// The plan's first state.
pub fn start() -> (state: SaveState)
    ensures
        state == SaveState::Start,
{
    SaveState::Start
}

fn abort_now() -> (to: (SaveState, Command))
    ensures
        to == abort(),
{
    (SaveState::Aborting, Command::Rollback)
}

fn give_up_now() -> (to: (SaveState, Command))
    ensures
        to == give_up(),
{
    (SaveState::Finished { saved: false }, Command::Finish { saved: false })
}

fn go_on_with_owner(bicmid_id: i64) -> (to: (SaveState, Command))
    ensures
        to == with_owner(bicmid_id),
{
    if bicmid_id >= 0 {
        (SaveState::FindingOrigin { bicmid_id }, Command::Select(Table::UrlOrigin))
    } else {
        abort_now()
    }
}

fn go_on_with_origin(bicmid_id: i64, url_origin_id: i64) -> (to: (SaveState, Command))
    ensures
        to == with_origin(bicmid_id, url_origin_id),
{
    if url_origin_id >= 0 {
        (SaveState::AddingCat, Command::AddCat { bicmid_id, url_origin_id })
    } else {
        abort_now()
    }
}

/// One step of the plan: takes the state and the storage's answer to the
/// last statement, and gives the next state and the next statement. In the
/// first state no statement has been made, and the answer is not looked at.
pub fn step(state: SaveState, reply: Reply) -> (to: (SaveState, Command))
    ensures
        to == next(state, reply),
{
    match state {
        SaveState::Start => (SaveState::Beginning, Command::Begin),
        SaveState::Beginning => match reply {
            Reply::Done => (SaveState::FindingOwner, Command::Select(Table::Bicmid)),
            _ => give_up_now(),
        },
        SaveState::FindingOwner => match reply {
            Reply::Found(id) => go_on_with_owner(id),
            Reply::Missing => (SaveState::StoringOwner, Command::Insert(Table::Bicmid)),
            _ => abort_now(),
        },
        SaveState::StoringOwner => match reply {
            Reply::Stored(id) => go_on_with_owner(id),
            _ => abort_now(),
        },
        SaveState::FindingOrigin { bicmid_id } => match reply {
            Reply::Found(id) => go_on_with_origin(bicmid_id, id),
            Reply::Missing => (
                SaveState::StoringOrigin { bicmid_id },
                Command::Insert(Table::UrlOrigin),
            ),
            _ => abort_now(),
        },
        SaveState::StoringOrigin { bicmid_id } => match reply {
            Reply::Stored(id) => go_on_with_origin(bicmid_id, id),
            _ => abort_now(),
        },
        SaveState::AddingCat => match reply {
            Reply::Done => (SaveState::Committing, Command::Commit),
            _ => abort_now(),
        },
        SaveState::Committing => match reply {
            Reply::Done => (SaveState::Finished { saved: true }, Command::Finish { saved: true }),
            _ => give_up_now(),
        },
        SaveState::Aborting => give_up_now(),
        SaveState::Finished { saved } => (SaveState::Finished { saved }, Command::Finish { saved }),
    }
}

/// Every step brings the save nearer to its end: at most nine statements
/// are asked for.
pub proof fn lemma_plan_ends(state: SaveState, reply: Reply)
    requires
        !(state is Finished),
    ensures
        steps_left(next(state, reply).0) < steps_left(state),
{
}

/// The plan says `Finish` exactly when it reaches its last state, and says
/// there what that state holds.
pub proof fn lemma_finish_is_last(state: SaveState, reply: Reply)
    ensures
        next(state, reply).1 is Finish <==> next(state, reply).0 is Finished,
        next(state, reply).0 matches SaveState::Finished { saved } ==> next(state, reply).1
            == (Command::Finish { saved }),
{
}

/// The plan commits only right after the image row was added, and reports
/// a saved image only right after the commit went through.
pub proof fn lemma_commit_follows_cat(state: SaveState, reply: Reply)
    ensures
        next(state, reply).1 is Commit ==> state is AddingCat && reply is Done,
        !(state is Finished) && next(state, reply).1 == (Command::Finish { saved: true })
            ==> state is Committing && reply is Done,
{
}

/// After an answer `Failed` the plan writes nothing more: inside a
/// transaction it rolls back, and else it ends without a saved image.
pub proof fn lemma_failure_stops_writing(state: SaveState)
    requires
        !(state is Start),
        !(state is Finished),
    ensures
        next(state, Reply::Failed).1 is Rollback || next(state, Reply::Failed).1 == (
            Command::Finish { saved: false }),
{
}

/// The image row refers to the rows that the storage named: the identity's
/// id is the one found or stored for it, and so is the origin's.
pub proof fn lemma_cat_refers_to_answers(state: SaveState, reply: Reply)
    requires
        next(state, reply).1 is AddCat,
    ensures
        match state {
            SaveState::FindingOrigin { bicmid_id } => reply matches Reply::Found(id) && next(
                state,
                reply,
            ).1 == (Command::AddCat { bicmid_id, url_origin_id: id }),
            SaveState::StoringOrigin { bicmid_id } => reply matches Reply::Stored(id) && next(
                state,
                reply,
            ).1 == (Command::AddCat { bicmid_id, url_origin_id: id }),
            _ => false,
        },
{
}

} // verus!
