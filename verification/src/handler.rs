//! The request handler: from the query of a request to a response.
//!
//! A request goes through two steps. [`begin`] looks at the query and the
//! whitelist, and either rejects the request or names the snapshot to take.
//! Once the snapshot command has run, [`conclude`] turns its result into the
//! response. [`handle`] goes the whole way, around a function that runs the
//! command.

use crate::date::CalendarDate;
use crate::executor::{interpret, outcome_of, perform_snapshot, perform_snapshot_on};
use crate::executor::{CommandResult, Snapshot, SnapshotOutcome};
use crate::text::{trim, trimmed};
use crate::whitelist::VolumeWhitelist;
use vstd::prelude::*;

verus! {

/// The status of the response that says the snapshot was taken.
pub const STATUS_OK: u16 = 200;

/// The status of the response to a request that is not acted on.
pub const STATUS_BAD_REQUEST: u16 = 400;

/// The status of the response that says the snapshot failed.
pub const STATUS_INTERNAL_SERVER_ERROR: u16 = 500;

/// The body of the response that says the snapshot was taken.
pub const SUCCESS_MESSAGE: &'static str = "Snapshot successful.";

/// The body of the response that says the snapshot failed.
pub const FAILURE_MESSAGE: &'static str = "Snapshot failed.";

/// The body of the response to a request that is not acted on, whatever
/// the reason.
pub const BAD_REQUEST_MESSAGE: &'static str = "Check documentation for instructions.";

/// A response: a status code and a body.
///
/// Its model (`@`) is the pair of the status and the text of the body.
#[derive(Debug, Clone, Copy, PartialEq, Eq)]
pub struct Response {
    pub status: u16,
    pub body: &'static str,
}

impl View for Response {
    type V = (int, Seq<char>);

    open spec fn view(&self) -> (int, Seq<char>) {
        (self.status as int, self.body@)
    }
}

/// The response that says the snapshot was taken.
pub open spec fn ok_response() -> (int, Seq<char>) {
    (STATUS_OK as int, SUCCESS_MESSAGE@)
}

/// The response to a request that is not acted on.
pub open spec fn bad_request_response() -> (int, Seq<char>) {
    (STATUS_BAD_REQUEST as int, BAD_REQUEST_MESSAGE@)
}

/// The response that says the snapshot failed.
pub open spec fn failure_response() -> (int, Seq<char>) {
    (STATUS_INTERNAL_SERVER_ERROR as int, FAILURE_MESSAGE@)
}

/// The text of a query, if there is a query.
pub open spec fn query_text(query: Option<&str>) -> Option<Seq<char>> {
    match query {
        Some(q) => Some(q@),
        None => None,
    }
}

/// Whether a request is acted on: it has a query, and the query, trimmed, is
/// an entry of the whitelist.
pub open spec fn is_authorized(whitelist: Seq<Seq<char>>, query: Option<Seq<char>>) -> bool {
    query matches Some(q) && whitelist.contains(trimmed(q))
}

/// Whether `snapshot` is what a request with this query asks for: a snapshot
/// of the volume that the trimmed query names, under the name that the
/// volume and the day of the snapshot give.
pub open spec fn is_asked_for(snapshot: Snapshot, query: Option<Seq<char>>) -> bool {
    &&& query matches Some(q)
    &&& snapshot.volume@ == trimmed(q)
    &&& snapshot.well_named()
}

/// The response that an outcome of the snapshot gets.
pub open spec fn response_for(outcome: SnapshotOutcome) -> (int, Seq<char>) {
    if outcome is Ok {
        ok_response()
    } else {
        failure_response()
    }
}

/// The response to a request, where `result` is what running the snapshot
/// command gives. The command is run only for a request that is acted on.
pub open spec fn response_to(
    whitelist: Seq<Seq<char>>,
    query: Option<Seq<char>>,
    result: CommandResult,
) -> (int, Seq<char>) {
    if is_authorized(whitelist, query) {
        response_for(outcome_of(result))
    } else {
        bad_request_response()
    }
}

/// A request without a query gets the bad-request response, whatever the
/// whitelist holds.
pub proof fn lemma_no_query_is_rejected(whitelist: Seq<Seq<char>>, result: CommandResult)
    ensures
        response_to(whitelist, None, result) == bad_request_response(),
{
}

/// A request whose trimmed query is not on the whitelist gets the same
/// response as a request without a query.
pub proof fn lemma_unlisted_volume_is_rejected(
    whitelist: Seq<Seq<char>>,
    query: Seq<char>,
    result: CommandResult,
)
    requires
        !whitelist.contains(trimmed(query)),
    ensures
        response_to(whitelist, Some(query), result) == bad_request_response(),
        response_to(whitelist, Some(query), result) == response_to(whitelist, None, result),
{
}

/// A request for a listed volume whose snapshot command ends with success
/// gets status 200 and the success message.
pub proof fn lemma_success_is_ok(whitelist: Seq<Seq<char>>, query: Seq<char>)
    requires
        whitelist.contains(trimmed(query)),
    ensures
        response_to(whitelist, Some(query), CommandResult::Exited { success: true }) == (
            200int,
            "Snapshot successful."@,
        ),
{
}

/// A request for a listed volume whose snapshot command ends with failure,
/// or cannot be started, gets status 500 and the failure message.
pub proof fn lemma_failure_is_server_error(
    whitelist: Seq<Seq<char>>,
    query: Seq<char>,
    result: CommandResult,
)
    requires
        whitelist.contains(trimmed(query)),
        result is SpawnFailed || result == (CommandResult::Exited { success: false }),
    ensures
        response_to(whitelist, Some(query), result) == (500int, "Snapshot failed."@),
{
}

/// The three responses differ from each other, in status and in body.
pub proof fn lemma_responses_differ()
    ensures
        ok_response().0 != bad_request_response().0,
        ok_response().0 != failure_response().0,
        bad_request_response().0 != failure_response().0,
        ok_response().1 != bad_request_response().1,
        ok_response().1 != failure_response().1,
        bad_request_response().1 != failure_response().1,
{
    reveal_strlit("Snapshot successful.");
    reveal_strlit("Snapshot failed.");
    reveal_strlit("Check documentation for instructions.");
    assert(SUCCESS_MESSAGE@.len() == 20);
    assert(FAILURE_MESSAGE@.len() == 16);
    assert(BAD_REQUEST_MESSAGE@.len() == 37);
}

/// What to do about a request once it has been looked at.
#[derive(Debug, Clone, PartialEq, Eq)]
pub enum Step {
    /// Send this response; no command is to be run.
    Reply(Response),
    /// Take this snapshot, then [`conclude`].
    Execute(Snapshot),
}

/// The volume that a request asks for, if the request is acted on: the
/// trimmed query, where there is a query and the whitelist has it.
pub fn authorize(whitelist: &VolumeWhitelist, query: Option<&str>) -> (volume: Option<String>)
    ensures
        volume is Some <==> is_authorized(whitelist@, query_text(query)),
        volume matches Some(v) ==> query matches Some(q) && v@ == trimmed(q@),
{
    match query {
        None => None,
        Some(q) => {
            let candidate = trim(q).to_owned();
            if whitelist.is_allowed(&candidate) {
                Some(candidate)
            } else {
                None
            }
        },
    }
}

/// The first step for a request received on the day `today`: to reject it
/// with the bad-request response, or to take the snapshot of the volume it
/// asks for, named after that day.
pub fn begin_on(
    whitelist: &VolumeWhitelist,
    query: Option<&str>,
    today: CalendarDate,
) -> (step: Step)
    ensures
        match step {
            Step::Reply(response) => !is_authorized(whitelist@, query_text(query)) && response@
                == bad_request_response(),
            Step::Execute(snapshot) => is_authorized(whitelist@, query_text(query))
                && is_asked_for(snapshot, query_text(query)) && snapshot.date == today,
        },
{
    match authorize(whitelist, query) {
        None => Step::Reply(
            Response { status: STATUS_BAD_REQUEST, body: BAD_REQUEST_MESSAGE },
        ),
        Some(volume) => Step::Execute(Snapshot::on(volume.as_str(), today)),
    }
}

/// The first step for a request received now: as [`begin_on`], with the day
/// taken from the clock of this machine where a snapshot is to be taken.
pub fn begin(whitelist: &VolumeWhitelist, query: Option<&str>) -> (step: Step)
    ensures
        match step {
            Step::Reply(response) => !is_authorized(whitelist@, query_text(query)) && response@
                == bad_request_response(),
            Step::Execute(snapshot) => is_authorized(whitelist@, query_text(query))
                && is_asked_for(snapshot, query_text(query)),
        },
{
    match authorize(whitelist, query) {
        None => Step::Reply(
            Response { status: STATUS_BAD_REQUEST, body: BAD_REQUEST_MESSAGE },
        ),
        Some(volume) => Step::Execute(Snapshot::today(volume.as_str())),
    }
}

/// The response for an outcome of the snapshot: the success response if it
/// was taken, else the failure response, which does not say why.
pub fn respond(outcome: &SnapshotOutcome) -> (response: Response)
    ensures
        response@ == response_for(*outcome),
{
    match outcome {
        Ok(_) => Response { status: STATUS_OK, body: SUCCESS_MESSAGE },
        Err(_) => Response { status: STATUS_INTERNAL_SERVER_ERROR, body: FAILURE_MESSAGE },
    }
}

/// The second step: the response for the result of the snapshot command.
pub fn conclude(result: CommandResult) -> (response: Response)
    ensures
        response@ == response_for(outcome_of(result)),
{
    let outcome = interpret(result);
    respond(&outcome)
}

/// Handles a request received on the day `today`: rejects it, or takes the
/// snapshot that it asks for and answers with the outcome. `run` is called
/// at most once, and only for a request that is acted on; it is given the
/// snapshot to take and returns what running the snapshot command gave.
pub fn handle_on<F: FnOnce(&Snapshot) -> CommandResult>(
    whitelist: &VolumeWhitelist,
    query: Option<&str>,
    today: CalendarDate,
    run: F,
) -> (response: Response)
    requires
        forall|snapshot: &Snapshot|
            is_asked_for(*snapshot, query_text(query)) ==> #[trigger] call_requires(
                run,
                (snapshot,),
            ),
    ensures
        !is_authorized(whitelist@, query_text(query)) ==> response@ == bad_request_response(),
        is_authorized(whitelist@, query_text(query)) ==> exists|
            snapshot: &Snapshot,
            result: CommandResult,
        |
            {
                &&& is_asked_for(*snapshot, query_text(query))
                &&& snapshot.date == today
                &&& call_ensures(run, (snapshot,), result)
                &&& response@ == response_to(whitelist@, query_text(query), result)
            },
{
    match authorize(whitelist, query) {
        None => Response { status: STATUS_BAD_REQUEST, body: BAD_REQUEST_MESSAGE },
        Some(volume) => {
            let outcome = perform_snapshot_on(&volume, today, run);
            respond(&outcome)
        },
    }
}

/// Handles a request received now: as [`handle_on`], with the day taken
/// from the clock of this machine where a snapshot is to be taken.
pub fn handle<F: FnOnce(&Snapshot) -> CommandResult>(
    whitelist: &VolumeWhitelist,
    query: Option<&str>,
    run: F,
) -> (response: Response)
    requires
        forall|snapshot: &Snapshot|
            is_asked_for(*snapshot, query_text(query)) ==> #[trigger] call_requires(
                run,
                (snapshot,),
            ),
    ensures
        !is_authorized(whitelist@, query_text(query)) ==> response@ == bad_request_response(),
        is_authorized(whitelist@, query_text(query)) ==> exists|
            snapshot: &Snapshot,
            result: CommandResult,
        |
            {
                &&& is_asked_for(*snapshot, query_text(query))
                &&& call_ensures(run, (snapshot,), result)
                &&& response@ == response_to(whitelist@, query_text(query), result)
            },
{
    match authorize(whitelist, query) {
        None => Response { status: STATUS_BAD_REQUEST, body: BAD_REQUEST_MESSAGE },
        Some(volume) => {
            let outcome = perform_snapshot(&volume, run);
            respond(&outcome)
        },
    }
}

} // verus!
