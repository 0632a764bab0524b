//! Where a file goes: the anchor directory and the dated path under it.

use vstd::prelude::*;

use crate::calendar::ResolvedTimestamp;
use crate::config::Mode;
use crate::paths::{
    file_name_of, first_normal, first_normal_component, join, joined, lemma_file_name_of_joined,
};
use crate::text::{decimal, decimal_string, lemma_decimal_is_plain};

verus! {

/// Where a file is to be moved.
#[derive(Debug, PartialEq, Eq)]
pub struct DestinationPlan {
    /// The directory that is to hold the file.
    pub target_directory: String,
    /// The file's new path: its own name inside `target_directory`.
    pub target_path: String,
}

/// A `DestinationPlan` as plain values.
pub struct DestinationPlanView {
    pub target_directory: Seq<char>,
    pub target_path: Seq<char>,
}

impl View for DestinationPlan {
    type V = DestinationPlanView;

    open spec fn view(&self) -> DestinationPlanView {
        DestinationPlanView {
            target_directory: self.target_directory@,
            target_path: self.target_path@,
        }
    }
}

/// The text of an optional string.
pub open spec fn text_of(s: Option<String>) -> Option<Seq<char>> {
    match s {
        Some(s) => Some(s@),
        None => None,
    }
}

/// The directory under which a file's dated directories are made: the
/// first name among the components of the file's own path, or `fallback`
/// for a path without one.
pub open spec fn anchor_of(path: Seq<char>, fallback: Option<Seq<char>>) -> Option<Seq<char>> {
    match first_normal(path) {
        Some(name) => Some(name),
        None => fallback,
    }
}

/// The dated directory under `anchor`: `anchor/year/month`, and under
/// `Mode::Day` `anchor/year/month/day`, the numbers in decimal and not padded.
pub open spec fn target_directory(
    anchor: Seq<char>,
    date: ResolvedTimestamp,
    mode: Mode,
) -> Seq<char> {
    let month_directory = joined(
        joined(anchor, decimal(date.year as int)),
        decimal(date.month as int),
    );
    match mode {
        Mode::Month => month_directory,
        Mode::Day => joined(month_directory, decimal(date.day as int)),
    }
}

/// Where a file named `file_name` goes for `date`.
pub open spec fn destination(
    anchor: Seq<char>,
    date: ResolvedTimestamp,
    mode: Mode,
    file_name: Seq<char>,
) -> DestinationPlanView {
    DestinationPlanView {
        target_directory: target_directory(anchor, date, mode),
        target_path: joined(target_directory(anchor, date, mode), file_name),
    }
}

/// `directory` as the front of a longer path: followed by a separator
/// unless it is empty or ends in one.
pub open spec fn as_prefix(directory: Seq<char>) -> Seq<char> {
    if directory.len() > 0 && directory.last() != '/' {
        directory + seq!['/']
    } else {
        directory
    }
}

/// The dated part of a target directory: `year/month` or `year/month/day`.
pub open spec fn dated(date: ResolvedTimestamp, mode: Mode) -> Seq<char> {
    let month_part = decimal(date.year as int) + seq!['/'] + decimal(date.month as int);
    match mode {
        Mode::Month => month_part,
        Mode::Day => month_part + seq!['/'] + decimal(date.day as int),
    }
}

/// A destination lies under its anchor, in the directory that the date and
/// the mode name, and keeps the file's name: the target directory is the
/// anchor and, behind a separator, `year/month` or `year/month/day`; the
/// target path is the target directory, a separator and the file name; and
/// where the file name holds no separator it is the file name of the target
/// path. This holds for every file name that does not start at the root.
pub proof fn lemma_destination_layout(
    anchor: Seq<char>,
    date: ResolvedTimestamp,
    mode: Mode,
    file_name: Seq<char>,
)
    requires
        file_name.len() == 0 || file_name[0] != '/',
    ensures
        ({
            let plan = destination(anchor, date, mode, file_name);
            &&& plan.target_directory == as_prefix(anchor) + dated(date, mode)
            &&& anchor.is_prefix_of(plan.target_directory)
            &&& plan.target_path == plan.target_directory + seq!['/'] + file_name
            &&& !file_name.contains('/') ==> file_name_of(plan.target_path) == file_name
        }),
{
    lemma_decimal_is_plain(date.year as int);
    lemma_decimal_is_plain(date.month as int);
    lemma_decimal_is_plain(date.day as int);
    if !file_name.contains('/') {
        lemma_file_name_of_joined(target_directory(anchor, date, mode), file_name);
    }
}

/// The anchor directory of the file at `path`, if one can be told.
pub fn get_parent_dir(path: &str, fallback: &Option<String>) -> (anchor: Option<String>)
    ensures
        text_of(anchor) == anchor_of(path@, text_of(*fallback)),
{
    match first_normal_component(path) {
        Some(name) => Some(name),
        None => match fallback {
            Some(directory) => Some(directory.clone()),
            None => None,
        },
    }
}

/// Plans the move of a file named `file_name` into the directory of `date`
/// under `anchor`.
pub fn plan_destination(
    anchor: &str,
    date: ResolvedTimestamp,
    mode: Mode,
    file_name: &str,
) -> (plan: DestinationPlan)
    ensures
        plan@ == destination(anchor@, date, mode, file_name@),
{
    let year_directory = join(anchor, decimal_string(date.year as i64).as_str());
    let month_directory = join(year_directory.as_str(), decimal_string(date.month as i64).as_str());
    let target_directory = match mode {
        Mode::Month => month_directory,
        Mode::Day => join(month_directory.as_str(), decimal_string(date.day as i64).as_str()),
    };
    let target_path = join(target_directory.as_str(), file_name);
    DestinationPlan { target_directory, target_path }
}

} // verus!
