//! One run over a directory tree: which directory to read next, and what to
//! do with each entry that a directory holds.

use vstd::prelude::*;

use crate::calendar::{get_year_month_day, resolvable, utc_date_of, Timestamp};
use crate::config::{Config, Mode, SortType};
use crate::metadata::{
    creation_time, get_creation_time, get_modification_time, modification_time, tells_unavailable,
    IoFailure, Metadata, MetadataError,
};
use crate::paths::{
    file_name_of, first_normal, is_normal, lemma_first_normal_is_normal,
    lemma_first_normal_of_joined, lemma_named_path_has_first_normal,
};
use crate::planner::{
    anchor_of, dated, destination, get_parent_dir, lemma_destination_layout, plan_destination,
    text_of, DestinationPlan, DestinationPlanView,
};

verus! {

/// What a directory holds under one name, as the walker found it.
#[derive(Debug, PartialEq, Eq)]
pub struct FileEntry {
    /// The entry's path: the directory that was read, and the entry's name.
    pub path: String,
    /// The entry's name, the last component of `path`.
    pub file_name: String,
    /// Whether the entry is a directory.
    pub is_directory: bool,
    /// The entry's metadata, or why it could not be read.
    pub metadata: Result<Metadata, IoFailure>,
}

impl FileEntry {
    /// The entry has a name, and its path leads to that name.
    pub open spec fn wf(self) -> bool {
        is_normal(self.file_name@) && file_name_of(self.path@) == self.file_name@
    }
}

/// Why no destination could be planned for a file.
#[derive(Clone, Copy, Debug, PartialEq, Eq, Structural)]
pub enum PlanningError {
    /// The file's path holds no name and no other anchor directory is known.
    AnchorUnknown,
    /// The file's timestamp lies outside the years that have a calendar date.
    TimeOutOfRange,
}

/// Why a file is left where it is.
#[derive(Debug, PartialEq, Eq)]
pub enum FileError {
    Metadata(MetadataError),
    Planning(PlanningError),
}

impl FileError {
    /// The text shown to the user for this error.
    pub open spec fn message_text(self) -> Seq<char> {
        match self {
            FileError::Metadata(e) => e.message_text(),
            FileError::Planning(PlanningError::AnchorUnknown) =>
                "Error getting the parent directory"@,
            FileError::Planning(PlanningError::TimeOutOfRange) => "Timestamp is out of range"@,
        }
    }

    /// The text shown to the user for this error.
    pub fn message(&self) -> (text: String)
        ensures
            text@ == self.message_text(),
    {
        match self {
            FileError::Metadata(e) => e.message(),
            FileError::Planning(PlanningError::AnchorUnknown) => String::from_str(
                "Error getting the parent directory",
            ),
            FileError::Planning(PlanningError::TimeOutOfRange) => String::from_str(
                "Timestamp is out of range",
            ),
        }
    }
}

/// What is to happen to one file: the move in `outcome`, or nothing, for
/// the reason in `outcome`.
#[derive(Debug, PartialEq, Eq)]
pub struct FileAction {
    /// The file's path as it is now.
    pub source: String,
    pub outcome: Result<DestinationPlan, FileError>,
}

/// A directory could not be read. This ends the run.
#[derive(Debug, PartialEq, Eq)]
pub struct DirectoryReadError {
    pub cause: IoFailure,
}

/// A run in progress.
#[derive(Debug, PartialEq, Eq)]
pub struct Run {
    pub config: Config,
    /// The anchor directory for files whose own path names none.
    pub fallback_anchor: Option<String>,
    /// The directories that are still to be read, the next one first.
    pub pending: Vec<String>,
}

/// The timestamp of `entry` that `sort_type` selects, or why there is none.
pub open spec fn selected_time(entry: FileEntry, sort_type: SortType) -> Result<
    Timestamp,
    MetadataError,
> {
    match entry.metadata {
        Err(failure) => Err(MetadataError::IoError(failure)),
        Ok(metadata) => match sort_type {
            SortType::Created => creation_time(metadata),
            SortType::Modified => modification_time(metadata),
        },
    }
}

/// What is decided for the file `entry`: its destination, or why it stays.
pub open spec fn planned(
    entry: FileEntry,
    mode: Mode,
    sort_type: SortType,
    fallback: Option<Seq<char>>,
) -> Result<DestinationPlanView, FileError> {
    match anchor_of(entry.path@, fallback) {
        None => Err(FileError::Planning(PlanningError::AnchorUnknown)),
        Some(anchor) => match selected_time(entry, sort_type) {
            Err(e) => Err(FileError::Metadata(e)),
            Ok(time) => if resolvable(time) {
                Ok(destination(anchor, utc_date_of(time), mode, entry.file_name@))
            } else {
                Err(FileError::Planning(PlanningError::TimeOutOfRange))
            },
        },
    }
}

/// The entries of a listing that are files, in the listing's order.
pub open spec fn files_of(listing: Seq<FileEntry>) -> Seq<FileEntry> {
    listing.filter(|entry: FileEntry| !entry.is_directory)
}

/// The paths of the entries of a listing that are directories, in the
/// listing's order.
pub open spec fn directories_of(listing: Seq<FileEntry>) -> Seq<Seq<char>> {
    listing.filter(|entry: FileEntry| entry.is_directory).map_values(|entry: FileEntry| entry.path@)
}

/// The directories that a listing adds to those waiting to be read: its
/// directories where the run is recursive, none where it is not.
pub open spec fn queued(listing: Seq<FileEntry>, recursive: bool) -> Seq<Seq<char>> {
    if recursive {
        directories_of(listing)
    } else {
        Seq::empty()
    }
}

impl FileAction {
    /// This action is what is decided for `entry`.
    pub open spec fn decides(
        self,
        entry: FileEntry,
        mode: Mode,
        sort_type: SortType,
        fallback: Option<Seq<char>>,
    ) -> bool {
        &&& self.source@ == entry.path@
        &&& match planned(entry, mode, sort_type, fallback) {
            Ok(plan) => self.outcome matches Ok(p) && p@ == plan,
            Err(e) => self.outcome matches Err(reason) && reason == e,
        }
    }
}

/// Decides where the file `entry` is to be moved, or why it is left alone.
///
/// The anchor directory is looked for first, then the timestamp that
/// `sort_type` selects, then its date.
pub fn move_file(
    entry: &FileEntry,
    mode: Mode,
    sort_type: SortType,
    fallback: &Option<String>,
) -> (outcome: Result<DestinationPlan, FileError>)
    ensures
        match planned(*entry, mode, sort_type, text_of(*fallback)) {
            Ok(plan) => outcome matches Ok(p) && p@ == plan,
            Err(e) => outcome matches Err(reason) && reason == e,
        },
{
    let anchor = match get_parent_dir(entry.path.as_str(), fallback) {
        Some(anchor) => anchor,
        None => {
            return Err(FileError::Planning(PlanningError::AnchorUnknown));
        },
    };
    let metadata = match &entry.metadata {
        Ok(metadata) => metadata,
        Err(failure) => {
            return Err(FileError::Metadata(MetadataError::from(failure.clone())));
        },
    };
    let selected = match sort_type {
        SortType::Created => get_creation_time(metadata),
        SortType::Modified => get_modification_time(metadata),
    };
    let time = match selected {
        Ok(time) => time,
        Err(e) => {
            return Err(FileError::Metadata(e));
        },
    };
    match get_year_month_day(time) {
        Some(date) => Ok(plan_destination(anchor.as_str(), date, mode, entry.file_name.as_str())),
        None => Err(FileError::Planning(PlanningError::TimeOutOfRange)),
    }
}

/// Starts a run over the directory that `config` names. At the start that
/// directory alone is waiting to be read.
pub fn run(config: Config, fallback_anchor: Option<String>) -> (started: Run)
    ensures
        started.config == config,
        started.fallback_anchor == fallback_anchor,
        started.pending.deep_view() == seq![config.directory_path@],
{
    let mut pending: Vec<String> = Vec::new();
    pending.push(config.directory_path.clone());
    Run { config, fallback_anchor, pending }
}

impl Run {
    /// Takes the next directory to read off the waiting ones. With `None`
    /// the run is over.
    pub fn next_directory(&mut self) -> (next: Option<String>)
        ensures
            final(self).config == old(self).config,
            final(self).fallback_anchor == old(self).fallback_anchor,
            old(self).pending@.len() == 0 ==> next is None,
            old(self).pending@.len() == 0 ==> final(self).pending@ == old(self).pending@,
            old(self).pending@.len() > 0 ==> next == Some(old(self).pending@[0]),
            old(self).pending@.len() > 0 ==> final(self).pending@ == old(self).pending@.skip(1),
    {
        if self.pending.len() == 0 {
            None
        } else {
            let next = self.pending.remove(0);
            Some(next)
        }
    }

    /// Takes in what reading a directory gave.
    ///
    /// For a listing: one action for each entry that is a file, in the
    /// listing's order, and no action for a directory. With recursion on, the
    /// directories of the listing join the waiting ones, behind them; with
    /// recursion off they are passed over. For a failed read: the error, and
    /// no directory is left waiting.
    pub fn process_directory(
        &mut self,
        listing: Result<Vec<FileEntry>, IoFailure>,
    ) -> (outcome: Result<Vec<FileAction>, DirectoryReadError>)
        ensures
            final(self).config == old(self).config,
            final(self).fallback_anchor == old(self).fallback_anchor,
            match listing {
                Ok(entries) => {
                    &&& outcome matches Ok(actions)
                    &&& actions@.len() == files_of(entries@).len()
                    &&& forall|i: int|
                        0 <= i < actions@.len() ==> (#[trigger] actions@[i]).decides(
                            files_of(entries@)[i],
                            old(self).config.mode,
                            old(self).config.sort_type,
                            text_of(old(self).fallback_anchor),
                        )
                    &&& final(self).pending.deep_view() == old(self).pending.deep_view()
                        + queued(entries@, old(self).config.recursive)
                },
                Err(cause) => {
                    &&& outcome == Err::<Vec<FileAction>, DirectoryReadError>(
                        DirectoryReadError { cause },
                    )
                    &&& final(self).pending@.len() == 0
                },
            },
    {
        let entries = match listing {
            Ok(entries) => entries,
            Err(cause) => {
                self.pending.clear();
                return Err(DirectoryReadError { cause });
            },
        };
        let mut actions: Vec<FileAction> = Vec::new();
        let ghost mode = self.config.mode;
        let ghost sort_type = self.config.sort_type;
        let ghost fallback = text_of(self.fallback_anchor);
        let mut i: usize = 0;
        while i < entries.len()
            invariant
                i <= entries@.len(),
                self.config == old(self).config,
                self.fallback_anchor == old(self).fallback_anchor,
                mode == self.config.mode,
                sort_type == self.config.sort_type,
                fallback == text_of(self.fallback_anchor),
                actions@.len() == files_of(entries@.take(i as int)).len(),
                forall|k: int|
                    0 <= k < actions@.len() ==> (#[trigger] actions@[k]).decides(
                        files_of(entries@.take(i as int))[k],
                        mode,
                        sort_type,
                        fallback,
                    ),
                self.pending.deep_view() == old(self).pending.deep_view() + queued(
                    entries@.take(i as int),
                    self.config.recursive,
                ),
            decreases entries@.len() - i,
        {
            let entry = &entries[i];
            proof {
                lemma_listing_grows(entries@.take(i + 1));
                assert(entries@.take(i + 1).drop_last() == entries@.take(i as int));
            }
            let ghost before = self.pending.deep_view();
            if entry.is_directory {
                if self.config.recursive {
                    self.pending.push(entry.path.clone());
                    assert(self.pending.deep_view() == before.push(entry.path@));
                }
            } else {
                let outcome = move_file(
                    entry,
                    self.config.mode,
                    self.config.sort_type,
                    &self.fallback_anchor,
                );
                actions.push(FileAction { source: entry.path.clone(), outcome });
            }
            i += 1;
        }
        assert(entries@.take(i as int) == entries@);
        Ok(actions)
    }
}

/// A file with a name always has an anchor directory, the first name of its
/// own path: no other anchor is looked at, and none is missed.
pub proof fn lemma_named_file_has_anchor(entry: FileEntry, fallback: Option<Seq<char>>)
    requires
        entry.wf(),
    ensures
        anchor_of(entry.path@, fallback) == first_normal(entry.path@),
        anchor_of(entry.path@, fallback) matches Some(anchor) && is_normal(anchor),
{
    lemma_named_path_has_first_normal(entry.path@);
    lemma_first_normal_is_normal(entry.path@);
}

/// A file that is moved goes under the first name of its own path, into the
/// directory named by the date of the timestamp that `sort_type` selects,
/// and keeps its name.
pub proof fn lemma_moved_file_layout(
    entry: FileEntry,
    mode: Mode,
    sort_type: SortType,
    fallback: Option<Seq<char>>,
)
    requires
        entry.wf(),
        planned(entry, mode, sort_type, fallback) is Ok,
    ensures
        ({
            let plan = planned(entry, mode, sort_type, fallback)->Ok_0;
            &&& first_normal(entry.path@) matches Some(anchor)
            &&& selected_time(entry, sort_type) matches Ok(time)
            &&& plan.target_directory == anchor + seq!['/'] + dated(utc_date_of(time), mode)
            &&& plan.target_path == plan.target_directory + seq!['/'] + entry.file_name@
            &&& file_name_of(plan.target_path) == entry.file_name@
        }),
{
    lemma_named_file_has_anchor(entry, fallback);
    lemma_destination_layout(
        first_normal(entry.path@)->Some_0,
        utc_date_of(selected_time(entry, sort_type)->Ok_0),
        mode,
        entry.file_name@,
    );
}

/// A file that was moved to its destination is at its destination: if
/// `moved` is `entry` at the path planned for it, what is planned for `moved`
/// is that same path, so a second run moves nothing further.
pub proof fn lemma_moved_file_stays(
    entry: FileEntry,
    moved: FileEntry,
    mode: Mode,
    sort_type: SortType,
    fallback: Option<Seq<char>>,
)
    requires
        entry.wf(),
        planned(entry, mode, sort_type, fallback) matches Ok(plan) && moved.path@
            == plan.target_path,
        moved.file_name@ == entry.file_name@,
        moved.metadata == entry.metadata,
    ensures
        moved.wf(),
        planned(moved, mode, sort_type, fallback) == planned(entry, mode, sort_type, fallback),
        planned(moved, mode, sort_type, fallback) matches Ok(plan) && plan.target_path
            == moved.path@,
{
    lemma_named_file_has_anchor(entry, fallback);
    lemma_moved_file_layout(entry, mode, sort_type, fallback);
    let anchor = first_normal(entry.path@)->Some_0;
    let below = dated(utc_date_of(selected_time(entry, sort_type)->Ok_0), mode) + seq!['/']
        + entry.file_name@;
    assert(moved.path@ =~= anchor + seq!['/'] + below);
    lemma_first_normal_of_joined(anchor, below);
}

/// A file whose creation time the platform does not keep is left where it
/// is when files are sorted by creation time, and the reason given is that
/// the creation time is unavailable.
pub proof fn lemma_missing_creation_time_skips(
    entry: FileEntry,
    mode: Mode,
    fallback: Option<Seq<char>>,
)
    requires
        entry.wf(),
        entry.metadata matches Ok(metadata) && metadata.created matches Err(failure)
            && tells_unavailable(failure.kind),
    ensures
        planned(entry, mode, SortType::Created, fallback) == Err::<DestinationPlanView, FileError>(
            FileError::Metadata(MetadataError::CreationTimeUnavailable),
        ),
{
    lemma_named_file_has_anchor(entry, fallback);
}

/// No directory is among the files of a listing, and every file of it is:
/// the entries that get an action are the listing's files and nothing else.
pub proof fn lemma_directories_are_left_out(listing: Seq<FileEntry>)
    ensures
        forall|i: int|
            0 <= i < files_of(listing).len() ==> !(#[trigger] files_of(listing)[i]).is_directory
                && listing.contains(files_of(listing)[i]),
        forall|i: int|
            0 <= i < listing.len() && !listing[i].is_directory ==> files_of(listing).contains(
                #[trigger] listing[i],
            ),
{
    let is_file = |entry: FileEntry| !entry.is_directory;
    assert forall|i: int| 0 <= i < files_of(listing).len() implies !(#[trigger] files_of(
        listing,
    )[i]).is_directory && listing.contains(files_of(listing)[i]) by {
        listing.lemma_filter_pred(is_file, i);
        listing.lemma_filter_contains_rev(is_file, listing.filter(is_file)[i]);
    }
    assert forall|i: int| 0 <= i < listing.len() && !listing[i].is_directory implies files_of(
        listing,
    ).contains(#[trigger] listing[i]) by {
        listing.lemma_filter_contains(is_file, i);
    }
}

/// What the last entry of a listing adds to its files and its directories.
pub proof fn lemma_listing_grows(listing: Seq<FileEntry>)
    requires
        listing.len() > 0,
    ensures
        files_of(listing) == if listing.last().is_directory {
            files_of(listing.drop_last())
        } else {
            files_of(listing.drop_last()).push(listing.last())
        },
        directories_of(listing) == if listing.last().is_directory {
            directories_of(listing.drop_last()).push(listing.last().path@)
        } else {
            directories_of(listing.drop_last())
        },
{
    reveal(Seq::filter);
}

} // verus!
