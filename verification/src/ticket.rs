//! Tickets and the state of their steps: which step is to be acted on,
//! which came before it, which is the last.

use vstd::prelude::*;
use std::collections::HashMap;
use crate::forms::answers::TicketFormAnswer;
use crate::target::{Role, User};
use crate::workflow::{TicketSchema, TicketSchemaFlow, TicketSchemaFlowItem};

verus! {

broadcast use vstd::std_specs::hash::group_hash_axioms;

/// A ticket of a template. Times are seconds since the Unix epoch.
#[derive(Debug, PartialEq)]
pub struct Ticket {
    pub id: i32,
    pub ticket_schema_id: i32,
    pub title: String,
    pub finished: bool,
    pub created_at: i64,
    pub updated_at: i64,
}

impl Clone for Ticket {
    fn clone(&self) -> (copy: Self)
        ensures
            copy == *self,
    {
        Ticket {
            id: self.id,
            ticket_schema_id: self.ticket_schema_id,
            title: self.title.clone(),
            finished: self.finished,
            created_at: self.created_at,
            updated_at: self.updated_at,
        }
    }
}

/// The state of one step of a ticket: who is to act or has acted on it, and
/// whether it is done.
#[derive(Debug, PartialEq)]
pub struct TicketFlow {
    pub id: i32,
    pub ticket_id: i32,
    pub user_id: Option<String>,
    pub ticket_schema_flow_id: i32,
    pub finished: bool,
    pub created_at: i64,
    pub updated_at: i64,
}

/// A copy of a user's id that may be absent.
pub fn clone_user_id(user_id: &Option<String>) -> (copy: Option<String>)
    ensures
        copy == *user_id,
{
    match user_id {
        Some(id) => Some(id.clone()),
        None => None,
    }
}

impl Clone for TicketFlow {
    fn clone(&self) -> (copy: Self)
        ensures
            copy == *self,
    {
        TicketFlow {
            id: self.id,
            ticket_id: self.ticket_id,
            user_id: clone_user_id(&self.user_id),
            ticket_schema_flow_id: self.ticket_schema_flow_id,
            finished: self.finished,
            created_at: self.created_at,
            updated_at: self.updated_at,
        }
    }
}

/// The verdict of a review step.
#[derive(Debug, PartialEq)]
pub struct TicketReview {
    pub id: i32,
    pub ticket_flow_id: i32,
    pub ticket_schema_review_id: i32,
    pub approved: bool,
    pub comment: Option<String>,
    pub created_at: i64,
    pub updated_at: i64,
}

impl Clone for TicketReview {
    fn clone(&self) -> (copy: Self)
        ensures
            copy == *self,
    {
        TicketReview {
            id: self.id,
            ticket_flow_id: self.ticket_flow_id,
            ticket_schema_review_id: self.ticket_schema_review_id,
            approved: self.approved,
            comment: clone_user_id(&self.comment),
            created_at: self.created_at,
            updated_at: self.updated_at,
        }
    }
}

/// What has been handed in at a step.
#[derive(Debug, PartialEq)]
pub enum TicketFlowValue {
    /// Nothing has been handed in yet.
    Empty,
    Form(TicketFormAnswer),
    Review(TicketReview),
}

/// Who acts on a step of a ticket.
#[derive(Debug, PartialEq)]
pub enum TicketFlowOperator {
    User(User),
    Role(Role),
    /// Nobody is known to act.
    Nobody,
}

/// The state of a step with what was handed in and who acts on it.
#[derive(Debug, PartialEq)]
pub struct TicketFlowItem {
    pub flow: TicketFlow,
    pub module: TicketFlowValue,
    pub operator: TicketFlowOperator,
}

/// A step of the template beside the state of that step in a ticket, if
/// the ticket has one.
#[derive(Debug, PartialEq)]
pub struct TicketFlowStatus {
    pub schema: TicketSchemaFlowItem,
    pub flow: Option<TicketFlowItem>,
}

/// How a ticket stands for the user who looks at it.
#[derive(Debug, PartialEq, Eq, Clone, Copy, Structural)]
pub enum TicketStatus {
    /// Somebody else has to act.
    InProgress,
    /// The user has to act.
    Pending,
    Finished,
}

/// A ticket with how it stands for a user.
#[derive(Debug, PartialEq)]
pub struct TicketWithStatus {
    pub ticket: Ticket,
    pub status: TicketStatus,
}

/// The order of the step with the id `step_id`: that of the first step
/// among `steps` with this id.
pub open spec fn step_order(steps: Seq<TicketSchemaFlow>, step_id: i32) -> Option<i32>
    decreases steps.len(),
{
    if steps.len() == 0 {
        None
    } else if steps[0].id == step_id {
        Some(steps[0].order)
    } else {
        step_order(steps.drop_first(), step_id)
    }
}

/// Which step states are looked at when one is picked.
pub struct FlowChoice {
    /// The ticket whose step states count.
    pub ticket_id: i32,
    /// Whether only states that are not done count.
    pub unfinished_only: bool,
    /// Where set, only states of steps with a smaller order count.
    pub below: Option<i32>,
    /// Whether the state of the greatest order is picked, or that of the least.
    pub greatest: bool,
}

/// Whether the state at `j` counts: it belongs to the ticket, its step is
/// known, and it meets what the choice asks for.
pub open spec fn is_candidate(
    flows: Seq<TicketFlow>,
    steps: Seq<TicketSchemaFlow>,
    choice: FlowChoice,
    j: int,
) -> bool {
    &&& 0 <= j < flows.len()
    &&& flows[j].ticket_id == choice.ticket_id
    &&& choice.unfinished_only ==> !flows[j].finished
    &&& match step_order(steps, flows[j].ticket_schema_flow_id) {
        Some(order) => choice.below matches Some(bound) ==> order < bound,
        None => false,
    }
}

/// The order of the step of the state at `j`.
pub open spec fn order_at(flows: Seq<TicketFlow>, steps: Seq<TicketSchemaFlow>, j: int) -> int {
    step_order(steps, flows[j].ticket_schema_flow_id)->0 as int
}

/// Whether the state at `k` comes before that at `j` in the choice: its
/// order is better, or the same and it stands no later.
pub open spec fn comes_before(
    flows: Seq<TicketFlow>,
    steps: Seq<TicketSchemaFlow>,
    greatest: bool,
    k: int,
    j: int,
) -> bool {
    let a = order_at(flows, steps, k);
    let b = order_at(flows, steps, j);
    (if greatest {
        a > b
    } else {
        a < b
    }) || (a == b && k <= j)
}

/// Whether the state at `k` is the one to pick: it counts, and it comes
/// before every other that counts.
pub open spec fn is_picked(
    flows: Seq<TicketFlow>,
    steps: Seq<TicketSchemaFlow>,
    choice: FlowChoice,
    k: int,
) -> bool {
    &&& is_candidate(flows, steps, choice, k)
    &&& forall|j: int| #[trigger]
        is_candidate(flows, steps, choice, j) ==> comes_before(flows, steps, choice.greatest, k, j)
}

/// The place of the state to pick, if any state counts.
pub open spec fn picked_flow(
    flows: Seq<TicketFlow>,
    steps: Seq<TicketSchemaFlow>,
    choice: FlowChoice,
) -> Option<int> {
    if exists|k: int| is_picked(flows, steps, choice, k) {
        Some(choose|k: int| is_picked(flows, steps, choice, k))
    } else {
        None
    }
}

/// The place of the state that is to be acted on: of the states of the
/// ticket that are not done, the one whose step has the least order.
pub open spec fn process_flow_at(
    flows: Seq<TicketFlow>,
    steps: Seq<TicketSchemaFlow>,
    ticket_id: i32,
) -> Option<int> {
    picked_flow(
        flows,
        steps,
        FlowChoice { ticket_id, unfinished_only: true, below: None, greatest: false },
    )
}

/// The place of the state of the ticket's last step: the one whose step
/// has the greatest order.
pub open spec fn latest_flow_at(
    flows: Seq<TicketFlow>,
    steps: Seq<TicketSchemaFlow>,
    ticket_id: i32,
) -> Option<int> {
    picked_flow(
        flows,
        steps,
        FlowChoice { ticket_id, unfinished_only: false, below: None, greatest: true },
    )
}

/// The place of the state of the step before the step `step_id`: of the
/// ticket's states of steps with a smaller order, the one with the greatest.
pub open spec fn previous_flow_at(
    flows: Seq<TicketFlow>,
    steps: Seq<TicketSchemaFlow>,
    ticket_id: i32,
    step_id: i32,
) -> Option<int> {
    match step_order(steps, step_id) {
        Some(order) => picked_flow(
            flows,
            steps,
            FlowChoice { ticket_id, unfinished_only: false, below: Some(order), greatest: true },
        ),
        None => None,
    }
}

/// The place of the state to pick among the first `n` states.
pub open spec fn best_among(
    flows: Seq<TicketFlow>,
    steps: Seq<TicketSchemaFlow>,
    choice: FlowChoice,
    n: int,
) -> Option<int>
    decreases n,
{
    if n <= 0 {
        None
    } else {
        let before = best_among(flows, steps, choice, n - 1);
        if is_candidate(flows, steps, choice, n - 1) && (before matches Some(k) ==> !comes_before(
            flows,
            steps,
            choice.greatest,
            k,
            n - 1,
        )) {
            Some(n - 1)
        } else {
            before
        }
    }
}

/// The state that a new ticket gets for the step `step`: not done, and
/// assigned to the user that `assign` names for the step, if it names one.
pub open spec fn first_state(
    ticket_id: i32,
    step: TicketSchemaFlow,
    assign: Map<i32, String>,
    now: i64,
) -> TicketFlow {
    TicketFlow {
        id: 0,
        ticket_id,
        user_id: if assign.contains_key(step.id) {
            Some(assign[step.id])
        } else {
            None
        },
        ticket_schema_flow_id: step.id,
        finished: false,
        created_at: now,
        updated_at: now,
    }
}

/// Whether the state is assigned to the user.
pub open spec fn assigned_to(flow: TicketFlow, user_id: Seq<char>) -> bool {
    match flow.user_id {
        Some(assigned) => assigned@ == user_id,
        None => false,
    }
}

/// Whether a user is taking part in the ticket: one of its states is assigned to the user.
pub open spec fn takes_part(flows: Seq<TicketFlow>, ticket_id: i32, user_id: Seq<char>) -> bool {
    exists|j: int|
        0 <= j < flows.len() && (#[trigger] flows[j]).ticket_id == ticket_id && assigned_to(
            flows[j],
            user_id,
        )
}

/// The place of the verdict of the review `review_id` at the step state
/// `flow_id`: that of the first such verdict, from `from` on.
pub open spec fn review_index_from(
    reviews: Seq<TicketReview>,
    flow_id: i32,
    review_id: i32,
    from: int,
) -> Option<int>
    decreases reviews.len() - from,
{
    if from < 0 || from >= reviews.len() {
        None
    } else if reviews[from].ticket_flow_id == flow_id && reviews[from].ticket_schema_review_id
        == review_id {
        Some(from)
    } else {
        review_index_from(reviews, flow_id, review_id, from + 1)
    }
}

/// The verdict to store when one is handed in for the review `review_id`
/// at the step state `flow_id`: the verdict that is there already, with
/// what was handed in; or a new one, whose id is 0 until it is stored.
pub open spec fn stored_review(
    reviews: Seq<TicketReview>,
    flow_id: i32,
    review_id: i32,
    approved: bool,
    comment: Option<String>,
    now: i64,
) -> TicketReview {
    match review_index_from(reviews, flow_id, review_id, 0) {
        Some(at) => TicketReview { approved, comment, updated_at: now, ..reviews[at] },
        None => TicketReview {
            id: 0,
            ticket_flow_id: flow_id,
            ticket_schema_review_id: review_id,
            approved,
            comment,
            created_at: now,
            updated_at: now,
        },
    }
}

/// At most one state is the one to pick.
pub proof fn lemma_picked_unique(
    flows: Seq<TicketFlow>,
    steps: Seq<TicketSchemaFlow>,
    choice: FlowChoice,
    a: int,
    b: int,
)
    requires
        is_picked(flows, steps, choice, a),
        is_picked(flows, steps, choice, b),
    ensures
        a == b,
{
    assert(comes_before(flows, steps, choice.greatest, a, b));
    assert(comes_before(flows, steps, choice.greatest, b, a));
}

/// The state that is to be picked is found at the place that `picked_flow` names.
pub proof fn lemma_picked_flow(
    flows: Seq<TicketFlow>,
    steps: Seq<TicketSchemaFlow>,
    choice: FlowChoice,
    k: int,
)
    requires
        is_picked(flows, steps, choice, k),
    ensures
        picked_flow(flows, steps, choice) == Some(k),
{
    let found = choose|k: int| is_picked(flows, steps, choice, k);
    lemma_picked_unique(flows, steps, choice, found, k);
}

/// Where no state counts, none is picked.
pub proof fn lemma_none_picked(
    flows: Seq<TicketFlow>,
    steps: Seq<TicketSchemaFlow>,
    choice: FlowChoice,
)
    requires
        forall|j: int| !#[trigger] is_candidate(flows, steps, choice, j),
    ensures
        picked_flow(flows, steps, choice) is None,
{
}

/// The state picked among the first `n` counts and comes before every
/// other of them that counts; none is picked only if none of them counts.
pub proof fn lemma_best_among(
    flows: Seq<TicketFlow>,
    steps: Seq<TicketSchemaFlow>,
    choice: FlowChoice,
    n: int,
)
    requires
        0 <= n <= flows.len(),
    ensures
        match best_among(flows, steps, choice, n) {
            Some(k) => 0 <= k < n && is_candidate(flows, steps, choice, k) && forall|j: int|
                0 <= j < n && #[trigger] is_candidate(flows, steps, choice, j) ==> comes_before(
                    flows,
                    steps,
                    choice.greatest,
                    k,
                    j,
                ),
            None => forall|j: int| 0 <= j < n ==> !#[trigger] is_candidate(flows, steps, choice, j),
        },
    decreases n,
{
    if n > 0 {
        lemma_best_among(flows, steps, choice, n - 1);
    }
}

/// Where a state counts, one is picked.
pub proof fn lemma_least_candidate(
    flows: Seq<TicketFlow>,
    steps: Seq<TicketSchemaFlow>,
    choice: FlowChoice,
    n: int,
)
    requires
        n == flows.len(),
        exists|j: int| is_candidate(flows, steps, choice, j),
    ensures
        picked_flow(flows, steps, choice) is Some,
{
    lemma_best_among(flows, steps, choice, n);
    let j = choose|j: int| is_candidate(flows, steps, choice, j);
    assert(0 <= j < n);
    let k = best_among(flows, steps, choice, n)->0;
    assert(is_picked(flows, steps, choice, k));
    lemma_picked_flow(flows, steps, choice, k);
}

/// The order of the step with the id `step_id`.
pub fn find_step_order(steps: &Vec<TicketSchemaFlow>, step_id: i32) -> (order: Option<i32>)
    ensures
        order == step_order(steps@, step_id),
{
    let mut i: usize = 0;
    proof {
        assert(steps@.skip(0) =~= steps@);
    }
    while i < steps.len()
        invariant
            i <= steps.len(),
            step_order(steps@, step_id) == step_order(steps@.skip(i as int), step_id),
        decreases steps.len() - i,
    {
        if steps[i].id == step_id {
            return Some(steps[i].order);
        }
        proof {
            assert(steps@.skip(i as int).drop_first() =~= steps@.skip(i + 1));
        }
        i += 1;
    }
    None
}

/// The place of the state to pick among `flows`.
pub fn pick_flow(
    flows: &Vec<TicketFlow>,
    steps: &Vec<TicketSchemaFlow>,
    ticket_id: i32,
    unfinished_only: bool,
    below: Option<i32>,
    greatest: bool,
) -> (picked: Option<usize>)
    ensures
        match picked {
            Some(k) => picked_flow(
                flows@,
                steps@,
                FlowChoice { ticket_id, unfinished_only, below, greatest },
            ) == Some(k as int),
            None => picked_flow(
                flows@,
                steps@,
                FlowChoice { ticket_id, unfinished_only, below, greatest },
            ) is None,
        },
{
    let ghost choice = FlowChoice { ticket_id, unfinished_only, below, greatest };
    let mut best: Option<(usize, i32)> = None;
    let mut i: usize = 0;
    while i < flows.len()
        invariant
            i <= flows.len(),
            choice == (FlowChoice { ticket_id, unfinished_only, below, greatest }),
            match best {
                Some((k, order)) => {
                    &&& k < i
                    &&& is_candidate(flows@, steps@, choice, k as int)
                    &&& order == order_at(flows@, steps@, k as int)
                    &&& forall|j: int|
                        0 <= j < i && #[trigger] is_candidate(flows@, steps@, choice, j)
                            ==> comes_before(flows@, steps@, greatest, k as int, j)
                },
                None => forall|j: int|
                    0 <= j < i ==> !#[trigger] is_candidate(flows@, steps@, choice, j),
            },
        decreases flows.len() - i,
    {
        let flow = &flows[i];
        if flow.ticket_id == ticket_id && !(unfinished_only && flow.finished) {
            if let Some(order) = find_step_order(steps, flow.ticket_schema_flow_id) {
                let within = match below {
                    Some(bound) => order < bound,
                    None => true,
                };
                if within {
                    let better = match best {
                        Some((_, found)) => if greatest {
                            order > found
                        } else {
                            order < found
                        },
                        None => true,
                    };
                    if better {
                        best = Some((i, order));
                    }
                }
            }
        }
        i += 1;
    }
    match best {
        Some((k, _)) => {
            proof {
                assert(is_picked(flows@, steps@, choice, k as int));
                lemma_picked_flow(flows@, steps@, choice, k as int);
            }
            Some(k)
        },
        None => {
            proof {
                lemma_none_picked(flows@, steps@, choice);
            }
            None
        },
    }
}

/// Whether one of the states of the ticket `ticket_id` is assigned to the user.
pub fn user_takes_part(flows: &Vec<TicketFlow>, ticket_id: i32, user: &User) -> (found: bool)
    ensures
        found == takes_part(flows@, ticket_id, user.id@),
{
    let mut i: usize = 0;
    while i < flows.len()
        invariant
            i <= flows.len(),
            forall|j: int|
                0 <= j < i ==> !((#[trigger] flows[j]).ticket_id == ticket_id && assigned_to(
                    flows[j],
                    user.id@,
                )),
        decreases flows.len() - i,
    {
        if flows[i].ticket_id == ticket_id {
            if let Some(assigned) = &flows[i].user_id {
                if *assigned == user.id {
                    return true;
                }
            }
        }
        i += 1;
    }
    false
}

impl Ticket {
    /// The states that a new ticket starts with: one for each of `flows`,
    /// the steps of its template, in their order; none is done. Their ids
    /// are 0 until they are stored.
    pub fn fill_flows(
        &self,
        flows: &Vec<TicketSchemaFlow>,
        assign_flow_users: &HashMap<i32, String>,
        now: i64,
    ) -> (states: Vec<TicketFlow>)
        ensures
            states.len() == flows.len(),
            forall|i: int| 0 <= i < states.len() ==> !(#[trigger] states[i]).finished,
            forall|i: int|
                0 <= i < states.len() ==> #[trigger] states[i] == first_state(
                    self.id,
                    flows[i],
                    assign_flow_users@,
                    now,
                ),
    {
        let mut states: Vec<TicketFlow> = Vec::new();
        let mut i: usize = 0;
        while i < flows.len()
            invariant
                i <= flows.len(),
                states.len() == i,
                forall|j: int|
                    0 <= j < i ==> #[trigger] states[j] == first_state(
                        self.id,
                        flows[j],
                        assign_flow_users@,
                        now,
                    ),
            decreases flows.len() - i,
        {
            let flow = &flows[i];
            let user_id = match assign_flow_users.get(&flow.id) {
                Some(id) => Some(id.clone()),
                None => None,
            };
            states.push(
                TicketFlow {
                    id: 0,
                    ticket_id: self.id,
                    user_id,
                    ticket_schema_flow_id: flow.id,
                    finished: false,
                    created_at: now,
                    updated_at: now,
                },
            );
            i += 1;
        }
        states
    }

    /// The place among `flows` of the state that is to be acted on.
    pub fn process_flow_index(&self, flows: &Vec<TicketFlow>, steps: &Vec<TicketSchemaFlow>) -> (at:
        Option<usize>)
        ensures
            match at {
                Some(k) => process_flow_at(flows@, steps@, self.id) == Some(k as int),
                None => process_flow_at(flows@, steps@, self.id) is None,
            },
    {
        pick_flow(flows, steps, self.id, true, None, false)
    }

    /// The state that is to be acted on: of the states of this ticket that
    /// are not done, the one whose step comes first. None if all are done.
    pub fn get_process_flow(&self, flows: &Vec<TicketFlow>, steps: &Vec<TicketSchemaFlow>) -> (flow:
        Option<TicketFlow>)
        ensures
            flow == match process_flow_at(flows@, steps@, self.id) {
                Some(k) => Some(flows[k]),
                None => None,
            },
    {
        match self.process_flow_index(flows, steps) {
            Some(k) => {
                proof {
                    assert(is_picked(
                        flows@,
                        steps@,
                        FlowChoice {
                            ticket_id: self.id,
                            unfinished_only: true,
                            below: None,
                            greatest: false,
                        },
                        k as int,
                    ));
                }
                Some(flows[k].clone())
            },
            None => None,
        }
    }

    /// The place among `flows` of the state of the step before that of `flow`.
    pub fn previous_flow_index(
        &self,
        flows: &Vec<TicketFlow>,
        steps: &Vec<TicketSchemaFlow>,
        flow: &TicketFlow,
    ) -> (at: Option<usize>)
        ensures
            match at {
                Some(k) => previous_flow_at(flows@, steps@, self.id, flow.ticket_schema_flow_id)
                    == Some(k as int),
                None => previous_flow_at(flows@, steps@, self.id, flow.ticket_schema_flow_id)
                    is None,
            },
    {
        match find_step_order(steps, flow.ticket_schema_flow_id) {
            Some(order) => pick_flow(flows, steps, self.id, false, Some(order), true),
            None => None,
        }
    }

    /// The state of the step before that of `flow`. None if `flow` belongs
    /// to the first step.
    pub fn get_previous_flow(
        &self,
        flows: &Vec<TicketFlow>,
        steps: &Vec<TicketSchemaFlow>,
        flow: &TicketFlow,
    ) -> (previous: Option<TicketFlow>)
        ensures
            previous == match previous_flow_at(
                flows@,
                steps@,
                self.id,
                flow.ticket_schema_flow_id,
            ) {
                Some(k) => Some(flows[k]),
                None => None,
            },
    {
        match self.previous_flow_index(flows, steps, flow) {
            Some(k) => {
                proof {
                    assert(is_picked(
                        flows@,
                        steps@,
                        FlowChoice {
                            ticket_id: self.id,
                            unfinished_only: false,
                            below: step_order(steps@, flow.ticket_schema_flow_id),
                            greatest: true,
                        },
                        k as int,
                    ));
                }
                Some(flows[k].clone())
            },
            None => None,
        }
    }

    /// The place among `flows` of the state of this ticket's last step.
    pub fn latest_flow_index(&self, flows: &Vec<TicketFlow>, steps: &Vec<TicketSchemaFlow>) -> (at:
        Option<usize>)
        ensures
            match at {
                Some(k) => latest_flow_at(flows@, steps@, self.id) == Some(k as int),
                None => latest_flow_at(flows@, steps@, self.id) is None,
            },
    {
        pick_flow(flows, steps, self.id, false, None, true)
    }

    /// The state of this ticket's last step. None if it has no states.
    pub fn get_latest_flow(&self, flows: &Vec<TicketFlow>, steps: &Vec<TicketSchemaFlow>) -> (flow:
        Option<TicketFlow>)
        ensures
            flow == match latest_flow_at(flows@, steps@, self.id) {
                Some(k) => Some(flows[k]),
                None => None,
            },
    {
        match self.latest_flow_index(flows, steps) {
            Some(k) => {
                proof {
                    assert(is_picked(
                        flows@,
                        steps@,
                        FlowChoice {
                            ticket_id: self.id,
                            unfinished_only: false,
                            below: None,
                            greatest: true,
                        },
                        k as int,
                    ));
                }
                Some(flows[k].clone())
            },
            None => None,
        }
    }

    /// Whether one of this ticket's states is assigned to the user.
    pub fn has_flow_of(&self, flows: &Vec<TicketFlow>, user: &User) -> (found: bool)
        ensures
            found == takes_part(flows@, self.id, user.id@),
    {
        user_takes_part(flows, self.id, user)
    }

    /// A new ticket of the template `schema`, as it is before it is stored:
    /// its id is 0, and it is not finished.
    pub fn create(schema: &TicketSchema, title: &String, now: i64) -> (ticket: Ticket)
        ensures
            ticket == (Ticket {
                id: 0,
                ticket_schema_id: schema.id,
                title: *title,
                finished: false,
                created_at: now,
                updated_at: now,
            }),
    {
        Ticket {
            id: 0,
            ticket_schema_id: schema.id,
            title: title.clone(),
            finished: false,
            created_at: now,
            updated_at: now,
        }
    }

    /// This ticket, finished or not as told.
    pub fn set_finish(&self, finished: bool) -> (ticket: Ticket)
        ensures
            ticket == (Ticket { finished, ..*self }),
    {
        Ticket {
            id: self.id,
            ticket_schema_id: self.ticket_schema_id,
            title: self.title.clone(),
            finished,
            created_at: self.created_at,
            updated_at: self.updated_at,
        }
    }
}

impl TicketFlow {
    /// The state of the step `ticket_schema_flow` in `ticket`, as it is
    /// before it is stored: its id is 0.
    pub fn create(
        ticket: &Ticket,
        ticket_schema_flow: &TicketSchemaFlow,
        user_id: Option<String>,
        finished: bool,
        now: i64,
    ) -> (flow: TicketFlow)
        ensures
            flow == (TicketFlow {
                id: 0,
                ticket_id: ticket.id,
                user_id,
                ticket_schema_flow_id: ticket_schema_flow.id,
                finished,
                created_at: now,
                updated_at: now,
            }),
    {
        TicketFlow {
            id: 0,
            ticket_id: ticket.id,
            user_id,
            ticket_schema_flow_id: ticket_schema_flow.id,
            finished,
            created_at: now,
            updated_at: now,
        }
    }
}

impl TicketReview {
    /// The verdict to store for a step state: a verdict handed in again
    /// replaces the one handed in before, so that a step state never has
    /// two verdicts of one review.
    pub fn save_or_create(
        reviews: &Vec<TicketReview>,
        ticket_flow_id: i32,
        ticket_schema_review_id: i32,
        approved: bool,
        comment: Option<String>,
        now: i64,
    ) -> (review: TicketReview)
        ensures
            review == stored_review(
                reviews@,
                ticket_flow_id,
                ticket_schema_review_id,
                approved,
                comment,
                now,
            ),
    {
        let mut i: usize = 0;
        while i < reviews.len()
            invariant
                i <= reviews.len(),
                review_index_from(reviews@, ticket_flow_id, ticket_schema_review_id, 0)
                    == review_index_from(
                    reviews@,
                    ticket_flow_id,
                    ticket_schema_review_id,
                    i as int,
                ),
            decreases reviews.len() - i,
        {
            let found = &reviews[i];
            if found.ticket_flow_id == ticket_flow_id && found.ticket_schema_review_id
                == ticket_schema_review_id {
                return TicketReview {
                    id: found.id,
                    ticket_flow_id: found.ticket_flow_id,
                    ticket_schema_review_id: found.ticket_schema_review_id,
                    approved,
                    comment,
                    created_at: found.created_at,
                    updated_at: now,
                };
            }
            i += 1;
        }
        TicketReview {
            id: 0,
            ticket_flow_id,
            ticket_schema_review_id,
            approved,
            comment,
            created_at: now,
            updated_at: now,
        }
    }
}

} // verus!
