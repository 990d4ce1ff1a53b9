//! Where the database files lie: read from the settings that the process
//! was started with, with defaults for what is not set.

use vstd::prelude::*;

verus! {

/// The settings that decide where the files lie. Each is `None` where the
/// process was started without it.
pub struct Settings {
    /// The full path of the database file.
    pub db_path: Option<String>,
    /// The directory that holds the files.
    pub db_base_path: Option<String>,
    /// The name of the database file inside that directory.
    pub db_file: Option<String>,
    /// The full path of the file that holds the sessions.
    pub db_session_path: Option<String>,
}

/// A place for a file: a full path, or a file name inside a directory that
/// is made first where it does not exist.
pub enum Location {
    /// The file lies at this path.
    Path(String),
    /// The file `file` lies in the directory `dir`.
    InDirectory { dir: String, file: String },
}

/// A `Location` as contracts see it.
pub enum LocationView {
    Path(Seq<char>),
    InDirectory { dir: Seq<char>, file: Seq<char> },
}

impl View for Location {
    type V = LocationView;

    open spec fn view(&self) -> LocationView {
        match *self {
            Location::Path(p) => LocationView::Path(p@),
            Location::InDirectory { dir, file } => LocationView::InDirectory {
                dir: dir@,
                file: file@,
            },
        }
    }
}

/// The text that is set, or else the default.
pub open spec fn or_default(setting: Option<String>, default: Seq<char>) -> Seq<char> {
    match setting {
        Some(s) => s@,
        None => default,
    }
}

/// The directory for the files where none is set.
pub open spec fn default_base_dir() -> Seq<char> {
    "/var/local/data/cattongue"@
}

/// The name of the database file where none is set.
pub open spec fn default_db_file() -> Seq<char> {
    "cattongue.sqlite3"@
}

/// The name of the file that holds the sessions.
pub open spec fn session_db_file() -> Seq<char> {
    "sessions.sqlite3"@
}

/// The place of a file: the full path where one is set, else the file in
/// the base directory.
pub open spec fn location_of(
    full_path: Option<String>,
    base: Option<String>,
    file: Seq<char>,
) -> LocationView {
    match full_path {
        Some(p) => LocationView::Path(p@),
        None => LocationView::InDirectory { dir: or_default(base, default_base_dir()), file },
    }
}

/// The directory that holds the files: the one that is set, or the default.
pub fn data_base_dir(settings: &Settings) -> (dir: String)
    ensures
        dir@ == or_default(settings.db_base_path, default_base_dir()),
{
    match &settings.db_base_path {
        Some(dir) => dir.clone(),
        None => "/var/local/data/cattongue".to_owned(),
    }
}

/// The place of the database file.
pub fn db_location(settings: &Settings) -> (place: Location)
    ensures
        place@ == location_of(
            settings.db_path,
            settings.db_base_path,
            or_default(settings.db_file, default_db_file()),
        ),
{
    match &settings.db_path {
        Some(path) => Location::Path(path.clone()),
        None => {
            let file: String = match &settings.db_file {
                Some(file) => file.clone(),
                None => "cattongue.sqlite3".to_owned(),
            };
            Location::InDirectory { dir: data_base_dir(settings), file }
        },
    }
}

/// The place of the file that holds the sessions.
pub fn session_db_location(settings: &Settings) -> (place: Location)
    ensures
        place@ == location_of(settings.db_session_path, settings.db_base_path, session_db_file()),
{
    match &settings.db_session_path {
        Some(path) => Location::Path(path.clone()),
        None => Location::InDirectory {
            dir: data_base_dir(settings),
            file: "sessions.sqlite3".to_owned(),
        },
    }
}

/// The two files lie in the same directory wherever neither has a full path
/// of its own.
pub proof fn lemma_files_share_directory(settings: Settings)
    requires
        settings.db_path is None,
        settings.db_session_path is None,
    ensures
        location_of(
            settings.db_path,
            settings.db_base_path,
            or_default(settings.db_file, default_db_file()),
        ) matches LocationView::InDirectory { dir: a, .. } && location_of(
            settings.db_session_path,
            settings.db_base_path,
            session_db_file(),
        ) matches LocationView::InDirectory { dir: b, .. } && a == b,
{
}

} // verus!
