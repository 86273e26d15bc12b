//! The snapshot executor: what to run for a snapshot of a volume, and what
//! the result of running it means.
//!
//! Nothing here starts a process. The caller runs the command line that
//! [`Snapshot::command_line`] gives and hands back a [`CommandResult`], or
//! hands [`perform_snapshot`] a function that does so.

use crate::date::{date_tag, is_calendar_date, CalendarDate};
use crate::date::{lemma_date_tag_is_injective, lemma_date_tag_shape};
use crate::text::texts;
use vstd::prelude::*;
use vstd::string::StringExecFns;

verus! {

/// The program that takes snapshots.
pub const SNAPSHOT_TOOL: &'static str = "zfs";

/// The subcommand of [`SNAPSHOT_TOOL`] that takes a snapshot.
pub const SNAPSHOT_ACTION: &'static str = "snapshot";

/// The character between the volume and the date tag in a snapshot name.
pub const NAME_SEPARATOR: char = '@';

/// The name of the snapshot of `volume` taken on a day: the volume, `@`, and
/// the date tag of the day.
pub open spec fn snapshot_name_of(volume: Seq<char>, year: int, month: int, day: int) -> Seq<char> {
    volume + seq![NAME_SEPARATOR] + date_tag(year, month, day)
}

/// From the year 0 to the year 9999 a snapshot name is the volume, `@`, and
/// ten characters of date, so that it tells volumes and days apart: two
/// snapshots with the same name are of the same volume on the same day.
pub proof fn lemma_snapshot_name_is_injective(
    volume: Seq<char>,
    year: int,
    month: int,
    day: int,
    other_volume: Seq<char>,
    other_year: int,
    other_month: int,
    other_day: int,
)
    requires
        is_calendar_date(year, month, day),
        is_calendar_date(other_year, other_month, other_day),
        0 <= year <= 9999,
        0 <= other_year <= 9999,
        snapshot_name_of(volume, year, month, day) == snapshot_name_of(
            other_volume,
            other_year,
            other_month,
            other_day,
        ),
    ensures
        snapshot_name_of(volume, year, month, day).len() == volume.len() + 11,
        volume == other_volume,
        year == other_year,
        month == other_month,
        day == other_day,
{
    lemma_date_tag_shape(year, month, day);
    lemma_date_tag_shape(other_year, other_month, other_day);
    let name = snapshot_name_of(volume, year, month, day);
    let tag = date_tag(year, month, day);
    let other_tag = date_tag(other_year, other_month, other_day);
    assert(name.len() == volume.len() + 11);
    assert(name.len() == other_volume.len() + 11);
    assert(name.take(volume.len() as int) =~= volume);
    assert(name.take(volume.len() as int) =~= other_volume);
    assert(name.skip(volume.len() as int + 1) =~= tag);
    assert(name.skip(volume.len() as int + 1) =~= other_tag);
    lemma_date_tag_is_injective(year, month, day, other_year, other_month, other_day);
}

/// The name of the snapshot of `volume` taken on `date`.
pub fn snapshot_name(volume: &str, date: &CalendarDate) -> (name: String)
    ensures
        name@ == snapshot_name_of(volume@, date@.year, date@.month, date@.day),
{
    let mut name = volume.to_owned();
    name.append("@");
    let tag = date.tag();
    name.append(tag.as_str());
    proof {
        reveal_strlit("@");
        assert("@"@ =~= seq![NAME_SEPARATOR]);
    }
    name
}

/// A snapshot to take: of which volume, on which day, under which name.
#[derive(Debug, Clone, PartialEq, Eq)]
pub struct Snapshot {
    /// The volume identifier.
    pub volume: String,
    /// The day whose date tag the name ends with.
    pub date: CalendarDate,
    /// The snapshot name, `volume@YYYY-MM-DD`.
    pub name: String,
}

impl Snapshot {
    /// Whether the name is the one that the volume and the day give.
    pub open spec fn well_named(&self) -> bool {
        &&& self.date.is_valid()
        &&& self.name@ == snapshot_name_of(
            self.volume@,
            self.date@.year,
            self.date@.month,
            self.date@.day,
        )
    }

    /// The snapshot of `volume` on `date`.
    pub fn on(volume: &str, date: CalendarDate) -> (snapshot: Snapshot)
        ensures
            snapshot.volume@ == volume@,
            snapshot.date == date,
            snapshot.well_named(),
    {
        proof {
            use_type_invariant(&date);
        }
        let name = snapshot_name(volume, &date);
        Snapshot { volume: volume.to_owned(), date, name }
    }

    /// The snapshot of `volume` on the day that it is now.
    pub fn today(volume: &str) -> (snapshot: Snapshot)
        ensures
            snapshot.volume@ == volume@,
            snapshot.well_named(),
    {
        Snapshot::on(volume, CalendarDate::today())
    }

    /// The command line that takes this snapshot: the tool, its subcommand
    /// and the snapshot name.
    pub fn command_line(&self) -> (words: Vec<String>)
        ensures
            texts(words@) == seq![SNAPSHOT_TOOL@, SNAPSHOT_ACTION@, self.name@],
    {
        let mut words: Vec<String> = Vec::new();
        words.push(SNAPSHOT_TOOL.to_owned());
        words.push(SNAPSHOT_ACTION.to_owned());
        words.push(self.name.clone());
        assert(texts(words@) =~= seq![SNAPSHOT_TOOL@, SNAPSHOT_ACTION@, self.name@]);
        words
    }
}

/// What running a command gave.
#[derive(Debug, Clone, PartialEq, Eq)]
pub enum CommandResult {
    /// The process could not be started; the text is what the system said.
    SpawnFailed(String),
    /// The process ran and ended, with a status that is either success or
    /// failure.
    Exited { success: bool },
}

/// Why a snapshot was not taken.
#[derive(Debug, Clone, PartialEq, Eq)]
pub enum ExecutionError {
    /// The command could not be started; the text is what the system said.
    SpawnFailed(String),
    /// The command ran and ended with a failure status.
    CommandFailed,
}

/// What became of a snapshot: `Ok` if it was taken, else the reason.
pub type SnapshotOutcome = Result<(), ExecutionError>;

/// The outcome that a command result stands for.
pub open spec fn outcome_of(result: CommandResult) -> SnapshotOutcome {
    match result {
        CommandResult::SpawnFailed(reason) => Err(ExecutionError::SpawnFailed(reason)),
        CommandResult::Exited { success } => if success {
            Ok(())
        } else {
            Err(ExecutionError::CommandFailed)
        },
    }
}

/// Tells from the result of the snapshot command whether the snapshot was
/// taken: it was if the process ran and ended with success.
pub fn interpret(result: CommandResult) -> (outcome: SnapshotOutcome)
    ensures
        outcome == outcome_of(result),
{
    match result {
        CommandResult::SpawnFailed(reason) => Err(ExecutionError::SpawnFailed(reason)),
        CommandResult::Exited { success } => if success {
            Ok(())
        } else {
            Err(ExecutionError::CommandFailed)
        },
    }
}

/// Takes the snapshot of the volume `path` for the day `date`: names the
/// snapshot, has `run` run the snapshot command for it, and tells from the
/// result whether the snapshot was taken.
///
/// The volume is taken as it is: whether it may be snapshotted is for the
/// caller to have found out.
pub fn perform_snapshot_on<F: FnOnce(&Snapshot) -> CommandResult>(
    path: &String,
    date: CalendarDate,
    run: F,
) -> (outcome: SnapshotOutcome)
    requires
        forall|snapshot: &Snapshot|
            snapshot.volume@ == path@ && snapshot.well_named() ==> #[trigger] call_requires(
                run,
                (snapshot,),
            ),
    ensures
        exists|snapshot: &Snapshot, result: CommandResult|
            {
                &&& snapshot.volume@ == path@
                &&& snapshot.date == date
                &&& snapshot.well_named()
                &&& call_ensures(run, (snapshot,), result)
                &&& outcome == outcome_of(result)
            },
{
    let snapshot = Snapshot::on(path.as_str(), date);
    let result = run(&snapshot);
    interpret(result)
}

/// Takes the snapshot of the volume `path` for the day that it is now: as
/// [`perform_snapshot_on`], with the day taken from the clock of this
/// machine.
pub fn perform_snapshot<F: FnOnce(&Snapshot) -> CommandResult>(
    path: &String,
    run: F,
) -> (outcome: SnapshotOutcome)
    requires
        forall|snapshot: &Snapshot|
            snapshot.volume@ == path@ && snapshot.well_named() ==> #[trigger] call_requires(
                run,
                (snapshot,),
            ),
    ensures
        exists|snapshot: &Snapshot, result: CommandResult|
            {
                &&& snapshot.volume@ == path@
                &&& snapshot.well_named()
                &&& call_ensures(run, (snapshot,), result)
                &&& outcome == outcome_of(result)
            },
{
    perform_snapshot_on(path, CalendarDate::today(), run)
}

} // verus!
