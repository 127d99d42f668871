//! Acting on a step of a ticket: who may act, what the step makes of what
//! was handed in, and how the states of the ticket's steps change.

use vstd::prelude::*;
use crate::forms::form::{form_outcome, FieldIssue, FieldIssueView};
use crate::forms::validate::{Uploads, UploadsView};
use crate::json::{object_entries, JsonValueView};
use crate::target::{Target, User};
use crate::ticket::{
    assigned_to, clone_user_id, comes_before, is_candidate, is_picked, latest_flow_at,
    lemma_least_candidate, lemma_picked_flow, order_at, previous_flow_at, process_flow_at,
    step_order, FlowChoice, Ticket, TicketFlow,
};
use crate::views::view_each;
use crate::workflow::{
    is_user_in_target, target_with_id_names, TicketSchemaFlow, TicketSchemaFlowItem,
    TicketSchemaFlowValue,
};

verus! {

/// The verdict that is handed in at a review step.
#[derive(Debug, PartialEq)]
pub struct TicketFlowReviewReq {
    pub approved: bool,
    pub comment: Option<String>,
}

/// What is handed in at a step: the values of a form, or a verdict.
#[derive(Debug, PartialEq)]
pub enum TicketProcessFlow {
    Form(serde_json::Map<String, serde_json::Value>),
    Review(TicketFlowReviewReq),
}

/// A request to act on the step of a ticket that is to be acted on.
#[derive(Debug, PartialEq)]
pub struct TicketFlowProcessReq {
    pub flow: TicketProcessFlow,
}

/// What a step keeps of what was handed in: the values kept of a form, or
/// the verdict.
#[derive(Debug, PartialEq)]
pub enum StepOutcome {
    FormAnswer(serde_json::Map<String, serde_json::Value>),
    Review(TicketFlowReviewReq),
}

/// Why a step was not acted on. Nothing changes in any of these cases.
#[derive(Debug, PartialEq)]
pub enum ProcessError {
    /// All steps of the ticket are done.
    NoProcessFlow,
    /// The step is assigned to somebody else.
    NotAssignedToFlow,
    /// The target of the step does not name the user.
    NotAssignedToSchema,
    /// What was handed in is not what the step asks for.
    InvalidRequest,
    /// The form refused what was handed in; every error is listed.
    InvalidFields(Vec<FieldIssue>),
    /// A rejection is to go back one step, and there is no step before.
    NoPreviousFlow,
}

/// How the states of a ticket change when a step has been acted on.
#[derive(Debug, PartialEq, Eq, Clone, Copy, Structural)]
pub enum StepEffect {
    /// The step is done.
    Finish,
    /// Every step of the ticket is to be done again.
    Restart,
    /// The step before is to be done again.
    Rollback,
}

/// A ticket after a step has been acted on: the ticket, the states of the
/// steps (in the places they had), the place of the state acted on, and
/// what the step keeps.
#[derive(Debug, PartialEq)]
pub struct TicketProcessed {
    pub ticket: Ticket,
    pub flows: Vec<TicketFlow>,
    pub flow_index: usize,
    pub outcome: StepOutcome,
}

/// What a `StepOutcome` is to the contracts: texts and lists are sequences.
pub enum StepOutcomeView {
    FormAnswer(Map<Seq<char>, JsonValueView>),
    Review(TicketFlowReviewReq),
}

/// What a `TicketProcessed` is to the contracts: texts and lists are sequences.
pub struct TicketProcessedView {
    pub ticket: Ticket,
    pub flows: Seq<TicketFlow>,
    pub flow_index: int,
    pub outcome: StepOutcomeView,
}

/// What a `ProcessError` is to the contracts: texts and lists are sequences.
pub enum ProcessErrorView {
    NoProcessFlow,
    NotAssignedToFlow,
    NotAssignedToSchema,
    InvalidRequest,
    InvalidFields(Seq<FieldIssueView>),
    NoPreviousFlow,
}

impl View for StepOutcome {
    type V = StepOutcomeView;

    open spec fn view(&self) -> StepOutcomeView {
        match self {
            StepOutcome::FormAnswer(object) => StepOutcomeView::FormAnswer(object_entries(*object)),
            StepOutcome::Review(verdict) => StepOutcomeView::Review(*verdict),
        }
    }
}

impl View for TicketProcessed {
    type V = TicketProcessedView;

    open spec fn view(&self) -> TicketProcessedView {
        TicketProcessedView {
            ticket: self.ticket,
            flows: self.flows@,
            flow_index: self.flow_index as int,
            outcome: self.outcome@,
        }
    }
}

impl View for ProcessError {
    type V = ProcessErrorView;

    open spec fn view(&self) -> ProcessErrorView {
        match self {
            ProcessError::NoProcessFlow => ProcessErrorView::NoProcessFlow,
            ProcessError::NotAssignedToFlow => ProcessErrorView::NotAssignedToFlow,
            ProcessError::NotAssignedToSchema => ProcessErrorView::NotAssignedToSchema,
            ProcessError::InvalidRequest => ProcessErrorView::InvalidRequest,
            ProcessError::InvalidFields(issues) => ProcessErrorView::InvalidFields(
                view_each(issues@),
            ),
            ProcessError::NoPreviousFlow => ProcessErrorView::NoPreviousFlow,
        }
    }
}

/// The result of acting on a step as the contracts speak of it.
pub open spec fn processed_view(result: Result<TicketProcessed, ProcessError>) -> Result<
    TicketProcessedView,
    ProcessErrorView,
> {
    match result {
        Ok(processed) => Ok(processed@),
        Err(error) => Err(error@),
    }
}

/// The steps of a template, without what they ask for.
pub open spec fn schema_steps(schema: Seq<TicketSchemaFlowItem>) -> Seq<TicketSchemaFlow> {
    Seq::new(schema.len(), |i: int| schema[i].schema)
}

/// The place, from `from` on, of the first step with the id `step_id`.
pub open spec fn item_index_from(
    schema: Seq<TicketSchemaFlowItem>,
    step_id: i32,
    from: int,
) -> Option<int>
    decreases schema.len() - from,
{
    if from < 0 || from >= schema.len() {
        None
    } else if schema[from].schema.id == step_id {
        Some(from)
    } else {
        item_index_from(schema, step_id, from + 1)
    }
}

/// The place of the first step with the id `step_id`.
pub open spec fn item_index(schema: Seq<TicketSchemaFlowItem>, step_id: i32) -> Option<int> {
    item_index_from(schema, step_id, 0)
}

/// The state at the place `j` after the step whose state is at `at` has
/// been acted on by `actor`. The state acted on is assigned to the actor.
/// What is done and what is not changes with the effect: the state acted
/// on is done; or every state of the ticket is to be done again; or the
/// state at `previous` is.
pub open spec fn flow_after(
    flow: TicketFlow,
    j: int,
    at: int,
    previous: Option<int>,
    ticket_id: i32,
    actor: String,
    effect: StepEffect,
) -> TicketFlow {
    TicketFlow {
        user_id: if j == at {
            Some(actor)
        } else {
            flow.user_id
        },
        finished: match effect {
            StepEffect::Finish => j == at || flow.finished,
            StepEffect::Restart => flow.ticket_id != ticket_id && flow.finished,
            StepEffect::Rollback => previous != Some(j) && flow.finished,
        },
        ..flow
    }
}

/// The states after the step whose state is at `at` has been acted on.
pub open spec fn flows_after(
    flows: Seq<TicketFlow>,
    at: int,
    previous: Option<int>,
    ticket_id: i32,
    actor: String,
    effect: StepEffect,
) -> Seq<TicketFlow> {
    Seq::new(flows.len(), |j: int| flow_after(flows[j], j, at, previous, ticket_id, actor, effect))
}

/// The ticket after a step has been acted on at the time `now`; it is
/// finished once its last step is done.
pub open spec fn ticket_after(ticket: Ticket, now: i64, last_done: bool) -> Ticket {
    Ticket { updated_at: now, finished: last_done || ticket.finished, ..ticket }
}

/// What acting on the step at `at` comes to, once the user is known to be
/// allowed to act on it.
pub open spec fn step_outcome(
    ticket: Ticket,
    flows: Seq<TicketFlow>,
    schema: Seq<TicketSchemaFlowItem>,
    at: int,
    actor: String,
    uploads: UploadsView,
    req: TicketFlowProcessReq,
    now: i64,
) -> Result<TicketProcessedView, ProcessErrorView> {
    let steps = schema_steps(schema);
    let flow = flows[at];
    let item = schema[item_index(schema, flow.ticket_schema_flow_id)->0];
    let last = latest_flow_at(flows, steps, ticket.id) == Some(at);
    match (item.module, req.flow) {
        (TicketSchemaFlowValue::Form(form), TicketProcessFlow::Form(data)) => match form_outcome(
            form@.fields,
            uploads,
            object_entries(data),
        ) {
            Err(issues) => Err(ProcessErrorView::InvalidFields(issues)),
            Ok(kept) => Ok(
                TicketProcessedView {
                    ticket: ticket_after(ticket, now, last),
                    flows: flows_after(flows, at, None, ticket.id, actor, StepEffect::Finish),
                    flow_index: at,
                    outcome: StepOutcomeView::FormAnswer(kept),
                },
            ),
        },
        (TicketSchemaFlowValue::Review(review), TicketProcessFlow::Review(verdict)) => {
            if verdict.approved {
                Ok(
                    TicketProcessedView {
                        ticket: ticket_after(ticket, now, last),
                        flows: flows_after(flows, at, None, ticket.id, actor, StepEffect::Finish),
                        flow_index: at,
                        outcome: StepOutcomeView::Review(verdict),
                    },
                )
            } else if review.restarted {
                Ok(
                    TicketProcessedView {
                        ticket: ticket_after(ticket, now, false),
                        flows: flows_after(flows, at, None, ticket.id, actor, StepEffect::Restart),
                        flow_index: at,
                        outcome: StepOutcomeView::Review(verdict),
                    },
                )
            } else {
                match previous_flow_at(flows, steps, ticket.id, flow.ticket_schema_flow_id) {
                    None => Err(ProcessErrorView::NoPreviousFlow),
                    Some(previous) => Ok(
                        TicketProcessedView {
                            ticket: ticket_after(ticket, now, false),
                            flows: flows_after(
                                flows,
                                at,
                                Some(previous),
                                ticket.id,
                                actor,
                                StepEffect::Rollback,
                            ),
                            flow_index: at,
                            outcome: StepOutcomeView::Review(verdict),
                        },
                    ),
                }
            }
        },
        _ => Err(ProcessErrorView::InvalidRequest),
    }
}

/// What a request to act on a ticket comes to. A step must be left to act
/// on; that step must not be assigned to somebody else; and the target of
/// the step must name the user. Then the step decides.
pub open spec fn process_outcome(
    ticket: Ticket,
    flows: Seq<TicketFlow>,
    schema: Seq<TicketSchemaFlowItem>,
    targets: Seq<Target>,
    user: User,
    label_ids: Seq<i32>,
    uploads: UploadsView,
    req: TicketFlowProcessReq,
    now: i64,
) -> Result<TicketProcessedView, ProcessErrorView> {
    match process_flow_at(flows, schema_steps(schema), ticket.id) {
        None => Err(ProcessErrorView::NoProcessFlow),
        Some(at) => {
            let flow = flows[at];
            let item = schema[item_index(schema, flow.ticket_schema_flow_id)->0];
            if flow.user_id is Some && !assigned_to(flow, user.id@) {
                Err(ProcessErrorView::NotAssignedToFlow)
            } else if !target_with_id_names(
                targets,
                item.schema.operator_id,
                user.id@,
                label_ids,
            ) {
                Err(ProcessErrorView::NotAssignedToSchema)
            } else {
                step_outcome(ticket, flows, schema, at, user.id, uploads, req, now)
            }
        },
    }
}

/// The choice of the state that is to be acted on.
pub open spec fn process_choice(ticket_id: i32) -> FlowChoice {
    FlowChoice { ticket_id, unfinished_only: true, below: None, greatest: false }
}

/// A step whose order is known is one of the steps, and its place is that
/// of the first step with its id.
pub proof fn lemma_item_index(schema: Seq<TicketSchemaFlowItem>, step_id: i32, from: int)
    requires
        0 <= from <= schema.len(),
    ensures
        step_order(schema_steps(schema).skip(from), step_id) is Some <==> item_index_from(
            schema,
            step_id,
            from,
        ) is Some,
        item_index_from(schema, step_id, from) matches Some(i) ==> from <= i < schema.len()
            && schema[i].schema.id == step_id && step_order(
            schema_steps(schema).skip(from),
            step_id,
        ) == Some(schema[i].schema.order),
    decreases schema.len() - from,
{
    let steps = schema_steps(schema).skip(from);
    if from < schema.len() {
        assert(steps[0] == schema[from].schema);
        if schema[from].schema.id != step_id {
            lemma_item_index(schema, step_id, from + 1);
            assert(steps.drop_first() =~= schema_steps(schema).skip(from + 1));
        }
    }
}

/// The steps of a template, without what they ask for.
pub fn steps_of(schema: &Vec<TicketSchemaFlowItem>) -> (steps: Vec<TicketSchemaFlow>)
    ensures
        steps@ == schema_steps(schema@),
{
    let mut steps: Vec<TicketSchemaFlow> = Vec::new();
    let mut i: usize = 0;
    while i < schema.len()
        invariant
            i <= schema.len(),
            steps.len() == i,
            forall|j: int| 0 <= j < i ==> steps[j] == schema[j].schema,
        decreases schema.len() - i,
    {
        steps.push(schema[i].schema.clone());
        i += 1;
    }
    proof {
        assert(steps@ =~= schema_steps(schema@));
    }
    steps
}

/// The place of the first step with the id `step_id`.
pub fn find_item(schema: &Vec<TicketSchemaFlowItem>, step_id: i32) -> (at: Option<usize>)
    ensures
        match at {
            Some(i) => item_index(schema@, step_id) == Some(i as int) && i < schema.len(),
            None => item_index(schema@, step_id) is None,
        },
{
    let mut i: usize = 0;
    while i < schema.len()
        invariant
            i <= schema.len(),
            item_index(schema@, step_id) == item_index_from(schema@, step_id, i as int),
        decreases schema.len() - i,
    {
        if schema[i].schema.id == step_id {
            return Some(i);
        }
        i += 1;
    }
    None
}

/// The states after the step whose state is at `at` has been acted on.
pub fn update_flows(
    flows: &Vec<TicketFlow>,
    at: usize,
    previous: Option<usize>,
    ticket_id: i32,
    actor: &String,
    effect: StepEffect,
) -> (updated: Vec<TicketFlow>)
    ensures
        updated@ == flows_after(
            flows@,
            at as int,
            match previous {
                Some(p) => Some(p as int),
                None => None,
            },
            ticket_id,
            *actor,
            effect,
        ),
{
    let ghost before: Option<int> = match previous {
        Some(p) => Some(p as int),
        None => None,
    };
    let mut updated: Vec<TicketFlow> = Vec::new();
    let mut j: usize = 0;
    while j < flows.len()
        invariant
            j <= flows.len(),
            updated.len() == j,
            before == match previous {
                Some(p) => Some(p as int),
                None => None,
            },
            forall|k: int|
                0 <= k < j ==> #[trigger] updated[k] == flow_after(
                    flows[k],
                    k,
                    at as int,
                    before,
                    ticket_id,
                    *actor,
                    effect,
                ),
        decreases flows.len() - j,
    {
        let flow = &flows[j];
        let user_id = if j == at {
            Some(actor.clone())
        } else {
            clone_user_id(&flow.user_id)
        };
        let is_previous = match previous {
            Some(p) => p == j,
            None => false,
        };
        let finished = match effect {
            StepEffect::Finish => j == at || flow.finished,
            StepEffect::Restart => flow.ticket_id != ticket_id && flow.finished,
            StepEffect::Rollback => !is_previous && flow.finished,
        };
        updated.push(
            TicketFlow {
                id: flow.id,
                ticket_id: flow.ticket_id,
                user_id,
                ticket_schema_flow_id: flow.ticket_schema_flow_id,
                finished,
                created_at: flow.created_at,
                updated_at: flow.updated_at,
            },
        );
        j += 1;
    }
    proof {
        assert(updated@ =~= flows_after(flows@, at as int, before, ticket_id, *actor, effect));
    }
    updated
}

/// A copy of a verdict.
pub fn clone_verdict(verdict: &TicketFlowReviewReq) -> (copy: TicketFlowReviewReq)
    ensures
        copy == *verdict,
{
    TicketFlowReviewReq { approved: verdict.approved, comment: clone_user_id(&verdict.comment) }
}

/// Acts on the step of `ticket` that is to be acted on, for `user`, who
/// carries the labels `user_label_ids`, at the time `now`.
///
/// `flows` holds the states of the ticket's steps, `schema` the steps of
/// its template with what they ask for, `targets` the targets that the
/// steps name, and `uploads` the names of what has been uploaded. Nothing
/// is changed in place: the result holds the ticket and the states as they
/// are to be stored, and what the step keeps of the request.
pub fn process_ticket_flow(
    ticket: &Ticket,
    flows: &Vec<TicketFlow>,
    schema: &Vec<TicketSchemaFlowItem>,
    targets: &Vec<Target>,
    user: &User,
    user_label_ids: &Vec<i32>,
    uploads: &Uploads,
    req: &TicketFlowProcessReq,
    now: i64,
) -> (result: Result<TicketProcessed, ProcessError>)
    ensures
        processed_view(result) == process_outcome(
            *ticket,
            flows@,
            schema@,
            targets@,
            *user,
            user_label_ids@,
            uploads@,
            *req,
            now,
        ),
{
    let steps = steps_of(schema);
    let at = match ticket.process_flow_index(flows, &steps) {
        Some(at) => at,
        None => {
            return Err(ProcessError::NoProcessFlow);
        },
    };
    proof {
        assert(is_picked(flows@, steps@, process_choice(ticket.id), at as int));
        lemma_item_index(schema@, flows[at as int].ticket_schema_flow_id, 0);
        assert(schema_steps(schema@).skip(0) =~= schema_steps(schema@));
    }
    let process_flow = &flows[at];
    if let Some(flow_user_id) = &process_flow.user_id {
        if *flow_user_id != user.id {
            return Err(ProcessError::NotAssignedToFlow);
        }
    }
    let item = match find_item(schema, process_flow.ticket_schema_flow_id) {
        Some(i) => &schema[i],
        None => {
            return Err(ProcessError::NoProcessFlow);
        },
    };
    if !is_user_in_target(targets, item.schema.operator_id, user, user_label_ids) {
        return Err(ProcessError::NotAssignedToSchema);
    }
    let last = match ticket.latest_flow_index(flows, &steps) {
        Some(k) => k == at,
        None => false,
    };
    match (&item.module, &req.flow) {
        (TicketSchemaFlowValue::Form(form_schema), TicketProcessFlow::Form(form_data)) => {
            match form_schema.validate_and_normalize(uploads, form_data) {
                Ok(normalized_data) => {
                    let updated = update_flows(
                        flows,
                        at,
                        None,
                        ticket.id,
                        &user.id,
                        StepEffect::Finish,
                    );
                    Ok(
                        TicketProcessed {
                            ticket: Ticket {
                                id: ticket.id,
                                ticket_schema_id: ticket.ticket_schema_id,
                                title: ticket.title.clone(),
                                finished: last || ticket.finished,
                                created_at: ticket.created_at,
                                updated_at: now,
                            },
                            flows: updated,
                            flow_index: at,
                            outcome: StepOutcome::FormAnswer(normalized_data),
                        },
                    )
                },
                Err(fields) => Err(ProcessError::InvalidFields(fields)),
            }
        },
        (TicketSchemaFlowValue::Review(review_schema), TicketProcessFlow::Review(review_req)) => {
            let (finished, previous, effect) = if review_req.approved {
                (last || ticket.finished, None, StepEffect::Finish)
            } else if review_schema.restarted {
                (ticket.finished, None, StepEffect::Restart)
            } else {
                match ticket.previous_flow_index(flows, &steps, process_flow) {
                    Some(previous) => (ticket.finished, Some(previous), StepEffect::Rollback),
                    None => {
                        return Err(ProcessError::NoPreviousFlow);
                    },
                }
            };
            let updated = update_flows(flows, at, previous, ticket.id, &user.id, effect);
            Ok(
                TicketProcessed {
                    ticket: Ticket {
                        id: ticket.id,
                        ticket_schema_id: ticket.ticket_schema_id,
                        title: ticket.title.clone(),
                        finished,
                        created_at: ticket.created_at,
                        updated_at: now,
                    },
                    flows: updated,
                    flow_index: at,
                    outcome: StepOutcome::Review(clone_verdict(review_req)),
                },
            )
        },
        _ => Err(ProcessError::InvalidRequest),
    }
}

/// Acting on a step changes no state but in who it is assigned to and in
/// whether it is done; and of the states of other tickets it changes nothing.
pub proof fn lemma_flows_after_keeps_places(
    flows: Seq<TicketFlow>,
    at: int,
    previous: Option<int>,
    ticket_id: i32,
    actor: String,
    effect: StepEffect,
)
    requires
        0 <= at < flows.len(),
        flows[at].ticket_id == ticket_id,
        previous matches Some(p) ==> 0 <= p < flows.len() && flows[p].ticket_id == ticket_id,
    ensures
        flows_after(flows, at, previous, ticket_id, actor, effect).len() == flows.len(),
        forall|j: int|
            0 <= j < flows.len() ==> {
                let after = #[trigger] flows_after(
                    flows,
                    at,
                    previous,
                    ticket_id,
                    actor,
                    effect,
                )[j];
                &&& after.id == flows[j].id
                &&& after.ticket_id == flows[j].ticket_id
                &&& after.ticket_schema_flow_id == flows[j].ticket_schema_flow_id
                &&& flows[j].ticket_id != ticket_id ==> after == flows[j]
            },
{
}

/// When the step that is to be acted on is done, it is left behind: its
/// state is done and assigned to the actor, every other state is as it
/// was, and the state that is to be acted on next, if there is one,
/// belongs to a step that does not come before.
pub proof fn lemma_finished_step_is_left(
    flows: Seq<TicketFlow>,
    steps: Seq<TicketSchemaFlow>,
    ticket_id: i32,
    actor: String,
)
    requires
        process_flow_at(flows, steps, ticket_id) is Some,
    ensures
        ({
            let at = process_flow_at(flows, steps, ticket_id)->0;
            let after = flows_after(flows, at, None, ticket_id, actor, StepEffect::Finish);
            &&& 0 <= at < flows.len()
            &&& after[at] == TicketFlow { finished: true, user_id: Some(actor), ..flows[at] }
            &&& forall|j: int| 0 <= j < flows.len() && j != at ==> #[trigger] after[j] == flows[j]
            &&& process_flow_at(after, steps, ticket_id) != Some(at)
            &&& process_flow_at(after, steps, ticket_id) matches Some(next) ==> order_at(
                flows,
                steps,
                at,
            ) <= order_at(flows, steps, next)
        }),
{
    let choice = process_choice(ticket_id);
    let at = process_flow_at(flows, steps, ticket_id)->0;
    let after = flows_after(flows, at, None, ticket_id, actor, StepEffect::Finish);
    assert(is_picked(flows, steps, choice, at));
    if let Some(next) = process_flow_at(after, steps, ticket_id) {
        assert(is_picked(after, steps, choice, next));
        assert(is_candidate(after, steps, choice, next));
        assert(next != at);
        assert(after[next] == flows[next]);
        assert(is_candidate(flows, steps, choice, next));
        assert(comes_before(flows, steps, false, at, next));
    }
}

/// When a rejection restarts a ticket, none of its states is done, and the
/// state that is to be acted on is the one of its first step.
pub proof fn lemma_restart_resets_every_step(
    flows: Seq<TicketFlow>,
    steps: Seq<TicketSchemaFlow>,
    ticket_id: i32,
    actor: String,
)
    requires
        process_flow_at(flows, steps, ticket_id) is Some,
    ensures
        ({
            let at = process_flow_at(flows, steps, ticket_id)->0;
            let after = flows_after(flows, at, None, ticket_id, actor, StepEffect::Restart);
            &&& forall|j: int|
                0 <= j < flows.len() && flows[j].ticket_id == ticket_id ==> !(
                #[trigger] after[j]).finished
            &&& process_flow_at(after, steps, ticket_id) is Some
            &&& forall|j: int|
                0 <= j < flows.len() && flows[j].ticket_id == ticket_id && step_order(
                    steps,
                    (#[trigger] flows[j]).ticket_schema_flow_id,
                ) is Some ==> order_at(
                    after,
                    steps,
                    process_flow_at(after, steps, ticket_id)->0,
                ) <= order_at(flows, steps, j)
        }),
{
    let choice = process_choice(ticket_id);
    let at = process_flow_at(flows, steps, ticket_id)->0;
    let after = flows_after(flows, at, None, ticket_id, actor, StepEffect::Restart);
    assert(is_picked(flows, steps, choice, at));
    assert(is_candidate(after, steps, choice, at));
    lemma_least_candidate(after, steps, choice, after.len() as int);
    let first = process_flow_at(after, steps, ticket_id)->0;
    assert(is_picked(after, steps, choice, first));
    assert forall|j: int|
        0 <= j < flows.len() && flows[j].ticket_id == ticket_id && step_order(
            steps,
            (#[trigger] flows[j]).ticket_schema_flow_id,
        ) is Some implies order_at(after, steps, first) <= order_at(flows, steps, j) by {
        assert(is_candidate(after, steps, choice, j));
        assert(comes_before(after, steps, false, first, j));
    }
}

/// When a rejection goes back one step, the state of the step before is
/// the one that is to be acted on next.
pub proof fn lemma_rollback_returns_to_previous(
    flows: Seq<TicketFlow>,
    steps: Seq<TicketSchemaFlow>,
    ticket_id: i32,
    actor: String,
)
    requires
        process_flow_at(flows, steps, ticket_id) is Some,
        previous_flow_at(
            flows,
            steps,
            ticket_id,
            flows[process_flow_at(flows, steps, ticket_id)->0].ticket_schema_flow_id,
        ) is Some,
    ensures
        ({
            let at = process_flow_at(flows, steps, ticket_id)->0;
            let previous = previous_flow_at(
                flows,
                steps,
                ticket_id,
                flows[at].ticket_schema_flow_id,
            );
            let after = flows_after(flows, at, previous, ticket_id, actor, StepEffect::Rollback);
            &&& process_flow_at(after, steps, ticket_id) == previous
            &&& forall|j: int|
                0 <= j < flows.len() && j != at && Some(j) != previous ==> #[trigger] after[j]
                    == flows[j]
        }),
{
    let choice = process_choice(ticket_id);
    let at = process_flow_at(flows, steps, ticket_id)->0;
    assert(is_picked(flows, steps, choice, at));
    let bound = step_order(steps, flows[at].ticket_schema_flow_id);
    let back = FlowChoice { ticket_id, unfinished_only: false, below: bound, greatest: true };
    let p = previous_flow_at(flows, steps, ticket_id, flows[at].ticket_schema_flow_id)->0;
    assert(is_picked(flows, steps, back, p));
    let after = flows_after(flows, at, Some(p), ticket_id, actor, StepEffect::Rollback);
    assert(is_candidate(after, steps, choice, p));
    assert forall|j: int| #[trigger] is_candidate(after, steps, choice, j) implies comes_before(
        after,
        steps,
        false,
        p,
        j,
    ) by {
        if j != p {
            assert(is_candidate(flows, steps, choice, j));
            assert(comes_before(flows, steps, false, at, j));
        }
    }
    assert(is_picked(after, steps, choice, p));
    lemma_picked_flow(after, steps, choice, p);
}

} // verus!
