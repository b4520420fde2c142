//! The publisher: a state machine that decides, from what the external
//! invocations gave back, what is to be done next. Whoever drives it performs
//! each action and hands back the event that the action ends in.
use vstd::prelude::*;
use vstd::string::*;
use crate::bindings::{style_with_template, template_accepted};
use crate::firebase::interface::{
    is_project_error,
    project_selection,
    run_succeeded,
    FirebaseInterface,
    FirebaseInterfaceError,
    InterfaceView,
    InvocationResult,
    ProcessInvocation,
};
use crate::mapping::{entries_map, keys_distinct, lemma_entry_lookup};
use crate::secret::SecretEntry;

verus! {

/// What the driver reports to the publisher.
pub enum Event {
    /// Publishing is to begin; this is how setting up the style of the
    /// progress indicator ended.
    Begin(Result<indicatif::ProgressStyle, indicatif::style::TemplateError>),
    /// The invocation that selects the project ended.
    ProjectOutput(InvocationResult),
    /// One unit of work ended: its secret was set, or setting it failed.
    SecretSet(Result<(), FirebaseInterfaceError>),
}

/// What the publisher asks of the driver.
pub enum Action {
    /// Show the progress indicator in `style`, run `invocation`, and report
    /// how it ended.
    SelectProject { style: indicatif::ProgressStyle, invocation: ProcessInvocation },
    /// Show `message` on the progress indicator, launch one unit of work for
    /// each of `units`, all at once, and report each as it ends.
    Dispatch { message: String, units: Vec<SecretEntry> },
    /// Units are still in flight: wait for the next one to end.
    Wait,
    /// Publishing is over. On success the text is the summary with which the
    /// progress indicator finishes.
    Finish(Result<String, FirebaseInterfaceError>),
    /// The event does not belong to the state the publisher is in; nothing
    /// changed.
    Ignored,
}

/// The states of the publisher. The moment between a project selection that
/// succeeded and the dispatch of the units is no state of its own: the
/// publisher passes it within one step.
pub enum PublisherView {
    /// Nothing has happened yet.
    Idle(InterfaceView),
    /// The invocation that selects the project is running.
    SelectingProject(InterfaceView),
    /// The project is selected and `in_flight` units have not ended yet;
    /// `failure` is the first failure that a unit reported, if one did.
    Publishing { in_flight: nat, failure: Option<FirebaseInterfaceError> },
    /// Publishing is over.
    Completed { success: bool },
}

enum State {
    Idle(FirebaseInterface),
    SelectingProject(FirebaseInterface),
    Publishing { in_flight: usize, failure: Option<FirebaseInterfaceError> },
    Completed { success: bool },
}

/// Publishes a finished collection, step by step.
pub struct Publisher {
    state: State,
}

impl View for Publisher {
    type V = PublisherView;

    closed spec fn view(&self) -> PublisherView {
        match self.state {
            State::Idle(interface) => PublisherView::Idle(interface@),
            State::SelectingProject(interface) => PublisherView::SelectingProject(interface@),
            State::Publishing { in_flight, failure } => PublisherView::Publishing {
                in_flight: in_flight as nat,
                failure,
            },
            State::Completed { success } => PublisherView::Completed { success },
        }
    }
}

/// The template of the progress indicator: a spinner and a message.
pub open spec fn indicator_template() -> Seq<char> {
    "{spinner} {msg}"@
}

/// The message that the progress indicator shows while units are in flight.
pub open spec fn progress_text() -> Seq<char> {
    "Setting secrets..."@
}

/// The summary with which the progress indicator finishes on success.
pub open spec fn summary_text() -> Seq<char> {
    "All secrets are set !"@
}

/// The first failure on record once one more unit has reported `result`: an
/// earlier failure stays, a later one is dropped.
pub open spec fn first_failure(
    failure: Option<FirebaseInterfaceError>,
    result: Result<(), FirebaseInterfaceError>,
) -> Option<FirebaseInterfaceError> {
    match failure {
        Some(e) => Some(e),
        None => match result {
            Err(e) => Some(e),
            Ok(_) => None,
        },
    }
}

/// Whether `action` ends publishing with the outcome that `failure` stands
/// for: that failure, or the summary where there is none.
pub open spec fn finishes_with(action: Action, failure: Option<FirebaseInterfaceError>) -> bool {
    match failure {
        Some(e) => action == Action::Finish(Err(e)),
        None => action matches Action::Finish(Ok(summary)) && summary@ == summary_text(),
    }
}

/// The transitions of the publisher: whether, in state `pre`, the event takes
/// it to state `post` with `action` as its answer.
///
/// - `Idle`: to begin is to select the project; without a style for the
///   progress indicator publishing fails at once.
/// - `SelectingProject`: a project selection that failed ends publishing, and
///   no unit is dispatched. One that succeeded dispatches one unit for each
///   key, or ends publishing with success where there is no key.
/// - `Publishing`: each unit that ends is counted and its failure recorded if
///   it is the first. Publishing ends when the last unit in flight has ended,
///   never before, with the first failure on record or with success.
/// - Any other event is ignored and changes nothing.
pub open spec fn follows(pre: PublisherView, event: Event, post: PublisherView, action: Action) -> bool {
    match (pre, event) {
        (PublisherView::Idle(interface), Event::Begin(Ok(style))) => {
            &&& post == PublisherView::SelectingProject(interface)
            &&& action matches Action::SelectProject { style: shown, invocation }
            &&& shown == style
            &&& invocation@ == project_selection(interface.alias)
        },
        (PublisherView::Idle(_), Event::Begin(Err(cause))) => {
            &&& post == (PublisherView::Completed { success: false })
            &&& action == Action::Finish(Err(FirebaseInterfaceError::IndicatifError(cause)))
        },
        (PublisherView::SelectingProject(interface), Event::ProjectOutput(run)) => {
            if !run_succeeded(run) {
                &&& post == (PublisherView::Completed { success: false })
                &&& action matches Action::Finish(Err(e))
                &&& is_project_error(run, e)
            } else if interface.secrets == Map::<Seq<char>, Seq<char>>::empty() {
                &&& post == (PublisherView::Completed { success: true })
                &&& finishes_with(action, None)
            } else {
                &&& action matches Action::Dispatch { message, units }
                &&& message@ == progress_text()
                &&& keys_distinct(units@)
                &&& entries_map(units@) == interface.secrets
                &&& post == (PublisherView::Publishing {
                    in_flight: units@.len(),
                    failure: None,
                })
            }
        },
        (PublisherView::Publishing { in_flight, failure }, Event::SecretSet(result)) => {
            if in_flight <= 1 {
                &&& post == (PublisherView::Completed {
                    success: first_failure(failure, result) is None,
                })
                &&& finishes_with(action, first_failure(failure, result))
            } else {
                &&& post == (PublisherView::Publishing {
                    in_flight: (in_flight - 1) as nat,
                    failure: first_failure(failure, result),
                })
                &&& action is Wait
            }
        },
        _ => post == pre && action is Ignored,
    }
}

impl Publisher {
    /// A publisher for `interface` that has not started yet.
    pub fn new(interface: FirebaseInterface) -> (p: Self)
        ensures
            p@ == PublisherView::Idle(interface@),
    {
        Publisher { state: State::Idle(interface) }
    }

    /// Whether publishing is over.
    pub fn is_completed(&self) -> (b: bool)
        ensures
            b == (self@ is Completed),
    {
        match &self.state {
            State::Completed { .. } => true,
            _ => false,
        }
    }

    /// The number of units that were dispatched and have not ended yet.
    pub fn in_flight(&self) -> (n: usize)
        ensures
            n == match self@ {
                PublisherView::Publishing { in_flight, .. } => in_flight,
                _ => 0,
            },
    {
        match &self.state {
            State::Publishing { in_flight, .. } => *in_flight,
            _ => 0,
        }
    }

    /// Begins publishing: sets up the style of the progress indicator and
    /// takes the first step with it. Whether the style can be set up is not
    /// decided here; the step is taken either way.
    pub fn start(&mut self) -> (action: Action)
        ensures
            exists|style: Result<indicatif::ProgressStyle, indicatif::style::TemplateError>|
                (style is Ok <==> template_accepted(indicator_template())) && follows(
                    old(self)@,
                    Event::Begin(style),
                    final(self)@,
                    action,
                ),
    {
        proof {
            reveal_strlit("{spinner} {msg}");
        }
        let style = style_with_template("{spinner} {msg}");
        self.step(Event::Begin(style))
    }

    /// Takes one step: moves to the state that follows on `event` and answers
    /// with what is to be done next.
    pub fn step(&mut self, event: Event) -> (action: Action)
        ensures
            follows(old(self)@, event, final(self)@, action),
    {
        let mut state = State::Completed { success: false };
        std::mem::swap(&mut self.state, &mut state);
        let (next, action) = advance(state, event);
        self.state = next;
        action
    }
}

fn finish(failure: Option<FirebaseInterfaceError>) -> (action: Action)
    ensures
        finishes_with(action, failure),
{
    match failure {
        Some(e) => Action::Finish(Err(e)),
        None => Action::Finish(Ok("All secrets are set !".to_owned())),
    }
}

fn advance(state: State, event: Event) -> (r: (State, Action))
    ensures
        follows(
            (Publisher { state })@,
            event,
            (Publisher { state: r.0 })@,
            r.1,
        ),
{
    match (state, event) {
        (State::Idle(interface), Event::Begin(Ok(style))) => {
            let invocation = interface.project_invocation();
            (State::SelectingProject(interface), Action::SelectProject { style, invocation })
        },
        (State::Idle(_), Event::Begin(Err(cause))) => (
            State::Completed { success: false },
            Action::Finish(Err(FirebaseInterfaceError::from(cause))),
        ),
        (State::SelectingProject(interface), Event::ProjectOutput(run)) => {
            match interface.set_project(run) {
                Err(e) => (State::Completed { success: false }, Action::Finish(Err(e))),
                Ok(()) => {
                    let units = interface.into_units();
                    if units.len() == 0 {
                        assert(entries_map(units@) =~= Map::<Seq<char>, Seq<char>>::empty());
                        (State::Completed { success: true }, finish(None))
                    } else {
                        proof {
                            lemma_entry_lookup(units@, 0);
                        }
                        (
                            State::Publishing { in_flight: units.len(), failure: None },
                            Action::Dispatch { message: "Setting secrets...".to_owned(), units },
                        )
                    }
                },
            }
        },
        (State::Publishing { in_flight, failure }, Event::SecretSet(result)) => {
            let failure = match failure {
                Some(e) => Some(e),
                None => match result {
                    Err(e) => Some(e),
                    Ok(()) => None,
                },
            };
            if in_flight <= 1 {
                (State::Completed { success: failure.is_none() }, finish(failure))
            } else {
                (State::Publishing { in_flight: in_flight - 1, failure }, Action::Wait)
            }
        },
        (state, _) => (state, Action::Ignored),
    }
}

/// The first failure among `results`, taken in the order in which the units
/// reported them.
pub open spec fn recorded(results: Seq<Result<(), FirebaseInterfaceError>>) -> Option<
    FirebaseInterfaceError,
>
    decreases results.len(),
{
    if results.len() == 0 {
        None
    } else {
        first_failure(recorded(results.drop_last()), results.last())
    }
}

/// The first error wins: the failure on record is that of the first unit
/// that reported one, whatever the units after it reported.
pub proof fn lemma_first_error_wins(results: Seq<Result<(), FirebaseInterfaceError>>, i: int)
    requires
        0 <= i < results.len(),
        results[i] is Err,
        forall|j: int| 0 <= j < i ==> results[j] is Ok,
    ensures
        recorded(results) == Some(results[i]->Err_0),
    decreases results.len(),
{
    let earlier = results.drop_last();
    if i < results.len() - 1 {
        lemma_first_error_wins(earlier, i);
    } else {
        lemma_no_failure_recorded(earlier);
    }
}

/// No failure is on record exactly if every unit reported success.
pub proof fn lemma_no_failure_recorded(results: Seq<Result<(), FirebaseInterfaceError>>)
    ensures
        recorded(results) is None <==> forall|i: int| 0 <= i < results.len() ==> results[i] is Ok,
    decreases results.len(),
{
    if results.len() > 0 {
        let earlier = results.drop_last();
        lemma_no_failure_recorded(earlier);
        if recorded(results) is None {
            assert forall|i: int| 0 <= i < results.len() implies results[i] is Ok by {
                if i < earlier.len() {
                    assert(earlier[i] == results[i]);
                }
            }
        }
    }
}

/// The join barrier. Once `units` units are dispatched, the publisher waits
/// for each of them: it answers every report but the last with `Wait` and
/// stays in `Publishing`, whether or not a unit has failed already. The last
/// report ends publishing, with the first failure that was reported, or with
/// success and the summary where every unit succeeded.
pub proof fn lemma_join_barrier(
    units: nat,
    states: Seq<PublisherView>,
    results: Seq<Result<(), FirebaseInterfaceError>>,
    actions: Seq<Action>,
)
    requires
        units >= 1,
        results.len() == units,
        actions.len() == units,
        states.len() == units + 1,
        states[0] == (PublisherView::Publishing { in_flight: units, failure: None }),
        forall|i: int|
            0 <= i < units ==> follows(
                #[trigger] states[i],
                Event::SecretSet(results[i]),
                states[i + 1],
                actions[i],
            ),
    ensures
        forall|i: int| 0 <= i < units - 1 ==> #[trigger] actions[i] is Wait,
        forall|i: int| 0 <= i < units ==> #[trigger] states[i] is Publishing,
        states[units as int] == (PublisherView::Completed { success: recorded(results) is None }),
        finishes_with(actions[units - 1], recorded(results)),
{
    assert forall|k: int| 0 <= k < units implies #[trigger] states[k] == (
    PublisherView::Publishing {
        in_flight: (units - k) as nat,
        failure: recorded(results.take(k)),
    }) by {
        lemma_reports_counted(units, states, results, actions, k);
    }
    let last = units - 1;
    assert(follows(states[last], Event::SecretSet(results[last]), states[last + 1], actions[last]));
    assert forall|i: int| 0 <= i < units - 1 implies #[trigger] actions[i] is Wait by {
        assert(follows(states[i], Event::SecretSet(results[i]), states[i + 1], actions[i]));
    }
}

/// After `k` reports, `k` units fewer are in flight, and the failure on
/// record is the first among those reports.
proof fn lemma_reports_counted(
    units: nat,
    states: Seq<PublisherView>,
    results: Seq<Result<(), FirebaseInterfaceError>>,
    actions: Seq<Action>,
    k: int,
)
    requires
        units >= 1,
        results.len() == units,
        actions.len() == units,
        states.len() == units + 1,
        states[0] == (PublisherView::Publishing { in_flight: units, failure: None }),
        forall|i: int|
            0 <= i < units ==> follows(
                #[trigger] states[i],
                Event::SecretSet(results[i]),
                states[i + 1],
                actions[i],
            ),
        0 <= k < units,
    ensures
        states[k] == (PublisherView::Publishing {
            in_flight: (units - k) as nat,
            failure: recorded(results.take(k)),
        }),
    decreases k,
{
    if k > 0 {
        lemma_reports_counted(units, states, results, actions, k - 1);
        assert(follows(
            states[k - 1],
            Event::SecretSet(results[k - 1]),
            states[k - 1 + 1],
            actions[k - 1],
        ));
        assert(results.take(k).drop_last() == results.take(k - 1));
    }
}

/// Units are dispatched by one transition only: the one that follows a
/// project selection that succeeded. The units are then the secrets of the
/// collection, one for each key.
pub proof fn lemma_dispatch_follows_selection(
    pre: PublisherView,
    event: Event,
    post: PublisherView,
    action: Action,
)
    requires
        follows(pre, event, post, action),
        action is Dispatch,
    ensures
        pre is SelectingProject,
        event matches Event::ProjectOutput(run) && run_succeeded(run),
        keys_distinct(action->units@),
        entries_map(action->units@) == pre->SelectingProject_0.secrets,
        post == (PublisherView::Publishing { in_flight: action->units@.len(), failure: None }),
{
}

/// Once publishing is over nothing follows: every event is ignored, so the
/// outcome is handed out once.
pub proof fn lemma_completed_is_final(
    pre: PublisherView,
    event: Event,
    post: PublisherView,
    action: Action,
)
    requires
        pre is Completed,
        follows(pre, event, post, action),
    ensures
        post == pre,
        action is Ignored,
{
}

} // verus!
