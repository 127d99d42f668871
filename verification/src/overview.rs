//! What a user sees of tickets: how each ticket stands for the user, the
//! list of the user's tickets, and the steps of a ticket beside those of
//! its template.

use vstd::prelude::*;
use crate::detail::{order_steps, ordered_steps};
use crate::forms::answers::TicketFormAnswer;
use crate::target::{
    find_role_of_label, find_target, find_user, role_of_label, target_with_id, user_with_id,
    Label, Role, Target, User,
};
use crate::ticket::{
    assigned_to, process_flow_at, takes_part, Ticket, TicketFlow, TicketFlowItem,
    TicketFlowOperator, TicketFlowStatus, TicketFlowValue, TicketReview, TicketStatus,
    TicketWithStatus,
};
use crate::workflow::{
    is_operator, is_user_in_target, operators_name, target_with_id_names, TicketSchemaFlow,
    TicketSchemaFlowItem,
};

verus! {

/// What a user may do in a project, with the numbers to show beside it.
#[derive(Debug, PartialEq, Eq, Clone, Copy, Structural)]
pub enum EnabledFeature {
    RoleManage(usize, usize),
    /// Tickets, with the number of those that wait for the user and of
    /// those that wait for somebody else.
    Ticket(usize, usize),
    TicketManage(usize, usize),
}

/// Who is who in a project: its targets, users, labels and roles.
#[derive(Debug, PartialEq)]
pub struct Directory {
    pub targets: Vec<Target>,
    pub users: Vec<User>,
    pub labels: Vec<Label>,
    pub roles: Vec<Role>,
}

/// The target of the step with the id `step_id`: that of the first step
/// among `steps` with this id.
pub open spec fn step_operator(steps: Seq<TicketSchemaFlow>, step_id: i32) -> Option<i32>
    decreases steps.len(),
{
    if steps.len() == 0 {
        None
    } else if steps[0].id == step_id {
        Some(steps[0].operator_id)
    } else {
        step_operator(steps.drop_first(), step_id)
    }
}

/// Whether the user may act on the state `flow` now: it is assigned to the
/// user, or to nobody while the target of its step names the user.
pub open spec fn may_act(
    flow: TicketFlow,
    steps: Seq<TicketSchemaFlow>,
    targets: Seq<Target>,
    user_id: Seq<char>,
    label_ids: Seq<i32>,
) -> bool {
    if flow.user_id is Some {
        assigned_to(flow, user_id)
    } else {
        match step_operator(steps, flow.ticket_schema_flow_id) {
            Some(operator_id) => target_with_id_names(targets, operator_id, user_id, label_ids),
            None => false,
        }
    }
}

/// How the ticket stands for the user: finished, exactly if it is marked
/// so; else pending, if the user may act on the step that is to be acted on;
/// in progress otherwise, also where no step is left to act on.
pub open spec fn status_of(
    ticket: Ticket,
    flows: Seq<TicketFlow>,
    steps: Seq<TicketSchemaFlow>,
    targets: Seq<Target>,
    user_id: Seq<char>,
    label_ids: Seq<i32>,
) -> TicketStatus {
    if ticket.finished {
        TicketStatus::Finished
    } else {
        match process_flow_at(flows, steps, ticket.id) {
            None => TicketStatus::InProgress,
            Some(at) => if may_act(flows[at], steps, targets, user_id, label_ids) {
                TicketStatus::Pending
            } else {
                TicketStatus::InProgress
            },
        }
    }
}

/// Whether the ticket is on the user's list: the user takes part in it, or
/// may act on it now.
pub open spec fn is_listed(
    ticket: Ticket,
    flows: Seq<TicketFlow>,
    steps: Seq<TicketSchemaFlow>,
    targets: Seq<Target>,
    user_id: Seq<char>,
    label_ids: Seq<i32>,
) -> bool {
    takes_part(flows, ticket.id, user_id) || status_of(
        ticket,
        flows,
        steps,
        targets,
        user_id,
        label_ids,
    ) == TicketStatus::Pending
}

/// The tickets among `tickets` that are on the user's list, each with how
/// it stands, in the order of `tickets`.
pub open spec fn listed_tickets(
    tickets: Seq<Ticket>,
    flows: Seq<TicketFlow>,
    steps: Seq<TicketSchemaFlow>,
    targets: Seq<Target>,
    user_id: Seq<char>,
    label_ids: Seq<i32>,
) -> Seq<TicketWithStatus>
    decreases tickets.len(),
{
    if tickets.len() == 0 {
        Seq::empty()
    } else {
        let before = listed_tickets(tickets.drop_last(), flows, steps, targets, user_id, label_ids);
        let ticket = tickets.last();
        if is_listed(ticket, flows, steps, targets, user_id, label_ids) {
            before.push(
                TicketWithStatus {
                    ticket,
                    status: status_of(ticket, flows, steps, targets, user_id, label_ids),
                },
            )
        } else {
            before
        }
    }
}

/// The ids of the tickets among `tickets` that wait for the user, in the
/// order of `tickets`.
pub open spec fn pending_ids(
    tickets: Seq<Ticket>,
    flows: Seq<TicketFlow>,
    steps: Seq<TicketSchemaFlow>,
    targets: Seq<Target>,
    user_id: Seq<char>,
    label_ids: Seq<i32>,
) -> Seq<i32>
    decreases tickets.len(),
{
    if tickets.len() == 0 {
        Seq::empty()
    } else {
        let before = pending_ids(tickets.drop_last(), flows, steps, targets, user_id, label_ids);
        if status_of(tickets.last(), flows, steps, targets, user_id, label_ids)
            == TicketStatus::Pending {
            before.push(tickets.last().id)
        } else {
            before
        }
    }
}

/// The tickets among `tickets` that wait for the user, in their order.
pub open spec fn pending_tickets(
    tickets: Seq<Ticket>,
    flows: Seq<TicketFlow>,
    steps: Seq<TicketSchemaFlow>,
    targets: Seq<Target>,
    user_id: Seq<char>,
    label_ids: Seq<i32>,
) -> Seq<Ticket>
    decreases tickets.len(),
{
    if tickets.len() == 0 {
        Seq::empty()
    } else {
        let before = pending_tickets(
            tickets.drop_last(),
            flows,
            steps,
            targets,
            user_id,
            label_ids,
        );
        if status_of(tickets.last(), flows, steps, targets, user_id, label_ids)
            == TicketStatus::Pending {
            before.push(tickets.last())
        } else {
            before
        }
    }
}

/// Where a status stands in a list: pending first, finished last.
pub open spec fn status_rank(status: TicketStatus) -> int {
    match status {
        TicketStatus::Pending => 0,
        TicketStatus::InProgress => 1,
        TicketStatus::Finished => 2,
    }
}

/// Whether `a` may stand before `b` in a list: its status comes first, or
/// the statuses are the same and it was not created later.
pub open spec fn lists_before(a: TicketWithStatus, b: TicketWithStatus) -> bool {
    status_rank(a.status) < status_rank(b.status) || (status_rank(a.status) == status_rank(
        b.status,
    ) && a.ticket.created_at <= b.ticket.created_at)
}

/// `sorted` with `item` put behind the last entry that may stand before it.
pub open spec fn insert_listed(sorted: Seq<TicketWithStatus>, item: TicketWithStatus) -> Seq<
    TicketWithStatus,
>
    decreases sorted.len(),
{
    if sorted.len() == 0 || lists_before(sorted.last(), item) {
        sorted.push(item)
    } else {
        insert_listed(sorted.drop_last(), item).push(sorted.last())
    }
}

/// The list by status and, within a status, by time of creation; entries
/// that are alike in both stay as they were.
pub open spec fn sorted_listed(list: Seq<TicketWithStatus>) -> Seq<TicketWithStatus>
    decreases list.len(),
{
    if list.len() == 0 {
        Seq::empty()
    } else {
        insert_listed(sorted_listed(list.drop_last()), list.last())
    }
}

/// Whether no two of the tickets have the same id.
pub open spec fn distinct_tickets(tickets: Seq<Ticket>) -> bool {
    forall|i: int, j: int|
        0 <= i < j < tickets.len() ==> (#[trigger] tickets[i]).id != (#[trigger] tickets[j]).id
}

/// Whether no two entries of the list are of tickets with the same id.
pub open spec fn distinct_listed(list: Seq<TicketWithStatus>) -> bool {
    forall|i: int, j: int|
        0 <= i < j < list.len() ==> (#[trigger] list[i]).ticket.id != (#[trigger] list[j]).ticket.id
}

/// Whether every entry of the list may stand before all that follow it.
pub open spec fn in_listed_order(list: Seq<TicketWithStatus>) -> bool {
    forall|i: int, j: int|
        0 <= i < j < list.len() ==> lists_before(#[trigger] list[i], #[trigger] list[j])
}

/// The place at which an entry is put into a sorted list: behind the last
/// entry that may stand before it.
pub open spec fn place_listed(sorted: Seq<TicketWithStatus>, item: TicketWithStatus) -> int
    decreases sorted.len(),
{
    if sorted.len() == 0 || lists_before(sorted.last(), item) {
        sorted.len() as int
    } else {
        place_listed(sorted.drop_last(), item)
    }
}

/// The numbers of tickets in a list that wait for the user, and that wait
/// for somebody else.
pub open spec fn status_counts(list: Seq<TicketWithStatus>) -> (int, int)
    decreases list.len(),
{
    if list.len() == 0 {
        (0, 0)
    } else {
        let before = status_counts(list.drop_last());
        match list.last().status {
            TicketStatus::Pending => (before.0 + 1, before.1),
            TicketStatus::InProgress => (before.0, before.1 + 1),
            TicketStatus::Finished => before,
        }
    }
}

/// Who acts on a step state: the user it is assigned to or, failing that,
/// the user or else the role that its step names.
pub open spec fn operator_of(
    flow_user: Option<User>,
    schema_user: Option<User>,
    schema_label: Option<Role>,
) -> TicketFlowOperator {
    match (flow_user, schema_user, schema_label) {
        (Some(user), _, _) => TicketFlowOperator::User(user),
        (_, Some(user), _) => TicketFlowOperator::User(user),
        (_, _, Some(role)) => TicketFlowOperator::Role(role),
        (None, None, None) => TicketFlowOperator::Nobody,
    }
}

/// What has been handed in at a step state: the answer to its form or,
/// failing that, the verdict of its review.
pub open spec fn handed_in(
    form: Option<TicketFormAnswer>,
    review: Option<TicketReview>,
) -> TicketFlowValue {
    match (form, review) {
        (Some(answer), _) => TicketFlowValue::Form(answer),
        (None, Some(verdict)) => TicketFlowValue::Review(verdict),
        (None, None) => TicketFlowValue::Empty,
    }
}

/// The first of the answers given at the step state `flow_id`.
pub open spec fn answer_of_flow(answers: Seq<TicketFormAnswer>, flow_id: i32) -> Option<
    TicketFormAnswer,
>
    decreases answers.len(),
{
    if answers.len() == 0 {
        None
    } else if answers[0].ticket_flow_id == flow_id {
        Some(answers[0])
    } else {
        answer_of_flow(answers.drop_first(), flow_id)
    }
}

/// The first of the verdicts given at the step state `flow_id`.
pub open spec fn review_of_flow(reviews: Seq<TicketReview>, flow_id: i32) -> Option<TicketReview>
    decreases reviews.len(),
{
    if reviews.len() == 0 {
        None
    } else if reviews[0].ticket_flow_id == flow_id {
        Some(reviews[0])
    } else {
        review_of_flow(reviews.drop_first(), flow_id)
    }
}

/// The user with the id that may be absent.
pub open spec fn user_named(users: Seq<User>, id: Option<String>) -> Option<User> {
    match id {
        Some(id) => user_with_id(users, id@),
        None => None,
    }
}

/// The target of the step of a state.
pub open spec fn operator_target(
    flow: TicketFlow,
    steps: Seq<TicketSchemaFlow>,
    targets: Seq<Target>,
) -> Option<Target> {
    match step_operator(steps, flow.ticket_schema_flow_id) {
        Some(operator_id) => target_with_id(targets, operator_id),
        None => None,
    }
}

/// The state of a step with what was handed in at it and who acts on it:
/// the user it is assigned to; or the user that the target of its step
/// names; or the role that the label of that target stands for.
pub open spec fn flow_item_of(
    flow: TicketFlow,
    steps: Seq<TicketSchemaFlow>,
    directory: Directory,
    answers: Seq<TicketFormAnswer>,
    reviews: Seq<TicketReview>,
) -> TicketFlowItem {
    let target = operator_target(flow, steps, directory.targets@);
    TicketFlowItem {
        flow,
        module: handed_in(answer_of_flow(answers, flow.id), review_of_flow(reviews, flow.id)),
        operator: operator_of(
            user_named(directory.users@, flow.user_id),
            match target {
                Some(t) => user_named(directory.users@, t.user_id),
                None => None,
            },
            match target {
                Some(Target { label_id: Some(label_id), .. }) => role_of_label(
                    directory.labels@,
                    directory.roles@,
                    label_id,
                ),
                _ => None,
            },
        ),
    }
}

/// The states of the ticket `ticket_id` that belong to the step `step_id`,
/// each put together with what is known of it, in the order of `flows`.
pub open spec fn step_flow_items(
    flows: Seq<TicketFlow>,
    ticket_id: i32,
    step_id: i32,
    steps: Seq<TicketSchemaFlow>,
    directory: Directory,
    answers: Seq<TicketFormAnswer>,
    reviews: Seq<TicketReview>,
) -> Seq<TicketFlowItem>
    decreases flows.len(),
{
    if flows.len() == 0 {
        Seq::empty()
    } else {
        let before = step_flow_items(
            flows.drop_last(),
            ticket_id,
            step_id,
            steps,
            directory,
            answers,
            reviews,
        );
        let flow = flows.last();
        if flow.ticket_id == ticket_id && flow.ticket_schema_flow_id == step_id {
            before.push(flow_item_of(flow, steps, directory, answers, reviews))
        } else {
            before
        }
    }
}

/// The states of the ticket `ticket_id`, step by step in the order of
/// `ordered`, each put together with what is known of it.
pub open spec fn ticket_flow_items(
    ordered: Seq<TicketSchemaFlow>,
    flows: Seq<TicketFlow>,
    ticket_id: i32,
    steps: Seq<TicketSchemaFlow>,
    directory: Directory,
    answers: Seq<TicketFormAnswer>,
    reviews: Seq<TicketReview>,
) -> Seq<TicketFlowItem>
    decreases ordered.len(),
{
    if ordered.len() == 0 {
        Seq::empty()
    } else {
        ticket_flow_items(
            ordered.drop_last(),
            flows,
            ticket_id,
            steps,
            directory,
            answers,
            reviews,
        ) + step_flow_items(
            flows,
            ticket_id,
            ordered.last().id,
            steps,
            directory,
            answers,
            reviews,
        )
    }
}

/// Putting an entry at the place found by walking back from the end over
/// the entries that may not stand before it is putting it in by rank.
pub proof fn lemma_insert_listed(sorted: Seq<TicketWithStatus>, item: TicketWithStatus, at: int)
    requires
        0 <= at <= sorted.len(),
        forall|j: int| at <= j < sorted.len() ==> !lists_before(#[trigger] sorted[j], item),
        at > 0 ==> lists_before(sorted[at - 1], item),
    ensures
        insert_listed(sorted, item) == sorted.insert(at, item),
    decreases sorted.len(),
{
    if sorted.len() == 0 || lists_before(sorted.last(), item) {
        if at < sorted.len() {
            assert(!lists_before(sorted[sorted.len() - 1], item));
        }
        assert(sorted.push(item) =~= sorted.insert(at, item));
    } else {
        let front = sorted.drop_last();
        assert forall|j: int| at <= j < front.len() implies !lists_before(
            #[trigger] front[j],
            item,
        ) by {
            assert(front[j] == sorted[j]);
        }
        lemma_insert_listed(front, item, at);
        assert(front.insert(at, item).push(sorted.last()) =~= sorted.insert(at, item));
    }
}

/// Putting an entry into a sorted list puts it at its place.
pub proof fn lemma_place_listed(sorted: Seq<TicketWithStatus>, item: TicketWithStatus)
    ensures
        0 <= place_listed(sorted, item) <= sorted.len(),
        insert_listed(sorted, item) == sorted.insert(place_listed(sorted, item), item),
        forall|j: int|
            place_listed(sorted, item) <= j < sorted.len() ==> !lists_before(
                #[trigger] sorted[j],
                item,
            ),
        place_listed(sorted, item) > 0 ==> lists_before(
            sorted[place_listed(sorted, item) - 1],
            item,
        ),
    decreases sorted.len(),
{
    if sorted.len() == 0 || lists_before(sorted.last(), item) {
    } else {
        let front = sorted.drop_last();
        lemma_place_listed(front, item);
        assert forall|j: int| place_listed(sorted, item) <= j < sorted.len() implies !lists_before(
            #[trigger] sorted[j],
            item,
        ) by {
            if j < front.len() {
                assert(front[j] == sorted[j]);
            }
        }
        if place_listed(sorted, item) > 0 {
            assert(front[place_listed(sorted, item) - 1] == sorted[place_listed(sorted, item) - 1]);
        }
    }
    lemma_insert_listed(sorted, item, place_listed(sorted, item));
}

/// The list of a user's tickets is in order: the tickets that wait for the
/// user come first, then those that wait for somebody else, then the
/// finished ones, and of two tickets that stand alike the one created
/// earlier comes first. Sorting neither adds nor loses a ticket.
pub proof fn lemma_sorted_listed(list: Seq<TicketWithStatus>)
    ensures
        in_listed_order(sorted_listed(list)),
        sorted_listed(list).to_multiset() == list.to_multiset(),
        sorted_listed(list).len() == list.len(),
    decreases list.len(),
{
    broadcast use vstd::seq_lib::to_multiset_build, vstd::seq_lib::to_multiset_insert;

    if list.len() == 0 {
        assert(list =~= Seq::<TicketWithStatus>::empty());
    } else {
        let front = list.drop_last();
        let last = list.last();
        lemma_sorted_listed(front);
        let sorted = sorted_listed(front);
        lemma_place_listed(sorted, last);
        let at = place_listed(sorted, last);
        let all = sorted.insert(at, last);
        assert forall|i: int, j: int| 0 <= i < j < all.len() implies lists_before(
            #[trigger] all[i],
            #[trigger] all[j],
        ) by {
            if j < at {
                assert(all[i] == sorted[i] && all[j] == sorted[j]);
            } else if j == at {
                assert(all[i] == sorted[i]);
                if i < at - 1 {
                    assert(lists_before(sorted[i], sorted[at - 1]));
                }
            } else if i < at {
                assert(all[i] == sorted[i] && all[j] == sorted[j - 1]);
            } else if i == at {
                assert(all[j] == sorted[j - 1]);
                assert(!lists_before(sorted[j - 1], last));
            } else {
                assert(all[i] == sorted[i - 1] && all[j] == sorted[j - 1]);
            }
        }
        assert(front.push(last) =~= list);
    }
}

/// A list that is in order stays as it is when sorted: in particular,
/// tickets that stand alike keep their places.
pub proof fn lemma_sorted_listed_stays(list: Seq<TicketWithStatus>)
    requires
        in_listed_order(list),
    ensures
        sorted_listed(list) == list,
    decreases list.len(),
{
    if list.len() > 0 {
        let front = list.drop_last();
        assert(in_listed_order(front)) by {
            assert forall|i: int, j: int| 0 <= i < j < front.len() implies lists_before(
                #[trigger] front[i],
                #[trigger] front[j],
            ) by {
                assert(front[i] == list[i] && front[j] == list[j]);
            }
        }
        lemma_sorted_listed_stays(front);
        if front.len() > 0 {
            assert(front.last() == list[front.len() - 1]);
            assert(lists_before(list[front.len() - 1], list[list.len() - 1]));
        }
        assert(front.push(list.last()) =~= list);
    } else {
        assert(list =~= Seq::<TicketWithStatus>::empty());
    }
}

/// A ticket stands as finished exactly if it is marked finished, whoever
/// looks at it and whatever the states of its steps are.
pub proof fn lemma_finished_status(
    ticket: Ticket,
    flows: Seq<TicketFlow>,
    steps: Seq<TicketSchemaFlow>,
    targets: Seq<Target>,
    user_id: Seq<char>,
    label_ids: Seq<i32>,
)
    ensures
        status_of(ticket, flows, steps, targets, user_id, label_ids) == TicketStatus::Finished
            <==> ticket.finished,
{
}

/// What is on a user's list before it is put in order: each entry is of
/// one of the tickets given, which is on the list, with how it stands; and
/// every ticket given that is on the list has its entry. Tickets with
/// different ids give entries with different ids.
pub proof fn lemma_listed_tickets(
    tickets: Seq<Ticket>,
    flows: Seq<TicketFlow>,
    steps: Seq<TicketSchemaFlow>,
    targets: Seq<Target>,
    user_id: Seq<char>,
    label_ids: Seq<i32>,
)
    ensures
        forall|k: int|
            0 <= k < listed_tickets(tickets, flows, steps, targets, user_id, label_ids).len() ==> {
                let entry = #[trigger] listed_tickets(
                    tickets,
                    flows,
                    steps,
                    targets,
                    user_id,
                    label_ids,
                )[k];
                &&& tickets.contains(entry.ticket)
                &&& is_listed(entry.ticket, flows, steps, targets, user_id, label_ids)
                &&& entry.status == status_of(
                    entry.ticket,
                    flows,
                    steps,
                    targets,
                    user_id,
                    label_ids,
                )
            },
        forall|i: int|
            0 <= i < tickets.len() && is_listed(
                #[trigger] tickets[i],
                flows,
                steps,
                targets,
                user_id,
                label_ids,
            ) ==> listed_tickets(tickets, flows, steps, targets, user_id, label_ids).contains(
                TicketWithStatus {
                    ticket: tickets[i],
                    status: status_of(tickets[i], flows, steps, targets, user_id, label_ids),
                },
            ),
        distinct_tickets(tickets) ==> distinct_listed(
            listed_tickets(tickets, flows, steps, targets, user_id, label_ids),
        ),
    decreases tickets.len(),
{
    let listed = listed_tickets(tickets, flows, steps, targets, user_id, label_ids);
    if tickets.len() > 0 {
        let front = tickets.drop_last();
        let last = tickets.last();
        lemma_listed_tickets(front, flows, steps, targets, user_id, label_ids);
        let before = listed_tickets(front, flows, steps, targets, user_id, label_ids);
        assert forall|k: int| 0 <= k < listed.len() implies {
            let entry = #[trigger] listed[k];
            &&& tickets.contains(entry.ticket)
            &&& is_listed(entry.ticket, flows, steps, targets, user_id, label_ids)
            &&& entry.status == status_of(entry.ticket, flows, steps, targets, user_id, label_ids)
        } by {
            if k < before.len() {
                assert(listed[k] == before[k]);
                let m = choose|m: int| 0 <= m < front.len() && front[m] == before[k].ticket;
                assert(tickets[m] == before[k].ticket);
            } else {
                assert(tickets[tickets.len() - 1] == listed[k].ticket);
            }
        }
        assert forall|i: int|
            0 <= i < tickets.len() && is_listed(
                #[trigger] tickets[i],
                flows,
                steps,
                targets,
                user_id,
                label_ids,
            ) implies listed.contains(
            TicketWithStatus {
                ticket: tickets[i],
                status: status_of(tickets[i], flows, steps, targets, user_id, label_ids),
            },
        ) by {
            let entry = TicketWithStatus {
                ticket: tickets[i],
                status: status_of(tickets[i], flows, steps, targets, user_id, label_ids),
            };
            if i < front.len() {
                assert(front[i] == tickets[i]);
                let m = choose|m: int| 0 <= m < before.len() && before[m] == entry;
                assert(listed[m] == entry);
            } else {
                assert(listed[listed.len() - 1] == entry);
            }
        }
        if distinct_tickets(tickets) {
            assert(distinct_tickets(front)) by {
                assert forall|i: int, j: int| 0 <= i < j < front.len() implies (
                #[trigger] front[i]).id != (#[trigger] front[j]).id by {
                    assert(front[i] == tickets[i] && front[j] == tickets[j]);
                }
            }
            assert forall|i: int, j: int| 0 <= i < j < listed.len() implies (
            #[trigger] listed[i]).ticket.id != (#[trigger] listed[j]).ticket.id by {
                assert(listed[i] == before[i]);
                if j < before.len() {
                    assert(listed[j] == before[j]);
                } else {
                    let m = choose|m: int| 0 <= m < front.len() && front[m] == before[i].ticket;
                    assert(tickets[m].id != tickets[tickets.len() - 1].id);
                }
            }
        }
    }
}

/// Putting a list in order neither adds nor loses an entry, and entries of
/// tickets with different ids stay so.
pub proof fn lemma_sorted_listed_entries(list: Seq<TicketWithStatus>)
    ensures
        forall|k: int|
            0 <= k < sorted_listed(list).len() ==> list.contains(#[trigger] sorted_listed(list)[k]),
        forall|j: int| 0 <= j < list.len() ==> sorted_listed(list).contains(#[trigger] list[j]),
        distinct_listed(list) ==> distinct_listed(sorted_listed(list)),
    decreases list.len(),
{
    let all = sorted_listed(list);
    if list.len() > 0 {
        let front = list.drop_last();
        let last = list.last();
        lemma_sorted_listed_entries(front);
        let sorted = sorted_listed(front);
        lemma_place_listed(sorted, last);
        let at = place_listed(sorted, last);
        assert(all == sorted.insert(at, last));
        assert forall|k: int| 0 <= k < all.len() implies list.contains(#[trigger] all[k]) by {
            if k == at {
                assert(list[list.len() - 1] == all[k]);
            } else {
                let from = if k < at { k } else { k - 1 };
                assert(all[k] == sorted[from]);
                let m = choose|m: int| 0 <= m < front.len() && front[m] == sorted[from];
                assert(list[m] == all[k]);
            }
        }
        assert forall|j: int| 0 <= j < list.len() implies all.contains(#[trigger] list[j]) by {
            if j < front.len() {
                assert(front[j] == list[j]);
                let m = choose|m: int| 0 <= m < sorted.len() && sorted[m] == front[j];
                let to = if m < at { m } else { m + 1 };
                assert(all[to] == list[j]);
            } else {
                assert(all[at] == list[j]);
            }
        }
        if distinct_listed(list) {
            assert(distinct_listed(front)) by {
                assert forall|i: int, j: int| 0 <= i < j < front.len() implies (
                #[trigger] front[i]).ticket.id != (#[trigger] front[j]).ticket.id by {
                    assert(front[i] == list[i] && front[j] == list[j]);
                }
            }
            assert forall|k: int| 0 <= k < sorted.len() implies (#[trigger] sorted[k]).ticket.id
                != last.ticket.id by {
                let m = choose|m: int| 0 <= m < front.len() && front[m] == sorted[k];
                assert(list[m].ticket.id != list[list.len() - 1].ticket.id);
            }
            assert forall|i: int, j: int| 0 <= i < j < all.len() implies (
            #[trigger] all[i]).ticket.id != (#[trigger] all[j]).ticket.id by {
                let a = if i < at { i } else { i - 1 };
                let b = if j < at { j } else { j - 1 };
                if i == at {
                    assert(all[j] == sorted[b]);
                } else if j == at {
                    assert(all[i] == sorted[a]);
                } else {
                    assert(all[i] == sorted[a] && all[j] == sorted[b]);
                }
            }
        }
    }
}

/// The list of a user's tickets: it is in order; each entry is of one of
/// the tickets given, which is on the list, and tells how that ticket
/// stands, as finished exactly if the ticket is marked finished; every
/// ticket given that is on the list has its entry; and where the tickets
/// given have different ids, no ticket is listed twice.
pub proof fn lemma_user_list(
    tickets: Seq<Ticket>,
    flows: Seq<TicketFlow>,
    steps: Seq<TicketSchemaFlow>,
    targets: Seq<Target>,
    user_id: Seq<char>,
    label_ids: Seq<i32>,
)
    ensures
        ({
            let list = sorted_listed(
                listed_tickets(tickets, flows, steps, targets, user_id, label_ids),
            );
            &&& in_listed_order(list)
            &&& forall|k: int|
                0 <= k < list.len() ==> {
                    let entry = #[trigger] list[k];
                    &&& tickets.contains(entry.ticket)
                    &&& is_listed(entry.ticket, flows, steps, targets, user_id, label_ids)
                    &&& entry.status == status_of(
                        entry.ticket,
                        flows,
                        steps,
                        targets,
                        user_id,
                        label_ids,
                    )
                    &&& (entry.status == TicketStatus::Finished <==> entry.ticket.finished)
                }
            &&& forall|i: int|
                0 <= i < tickets.len() && is_listed(
                    #[trigger] tickets[i],
                    flows,
                    steps,
                    targets,
                    user_id,
                    label_ids,
                ) ==> list.contains(
                    TicketWithStatus {
                        ticket: tickets[i],
                        status: status_of(tickets[i], flows, steps, targets, user_id, label_ids),
                    },
                )
            &&& distinct_tickets(tickets) ==> distinct_listed(list)
        }),
{
    let listed = listed_tickets(tickets, flows, steps, targets, user_id, label_ids);
    let list = sorted_listed(listed);
    lemma_listed_tickets(tickets, flows, steps, targets, user_id, label_ids);
    lemma_sorted_listed(listed);
    lemma_sorted_listed_entries(listed);
    assert forall|k: int| 0 <= k < list.len() implies {
        let entry = #[trigger] list[k];
        &&& tickets.contains(entry.ticket)
        &&& is_listed(entry.ticket, flows, steps, targets, user_id, label_ids)
        &&& entry.status == status_of(entry.ticket, flows, steps, targets, user_id, label_ids)
        &&& (entry.status == TicketStatus::Finished <==> entry.ticket.finished)
    } by {
        let m = choose|m: int| 0 <= m < listed.len() && listed[m] == list[k];
        assert(tickets.contains(listed[m].ticket));
    }
    assert forall|i: int|
        0 <= i < tickets.len() && is_listed(
            #[trigger] tickets[i],
            flows,
            steps,
            targets,
            user_id,
            label_ids,
        ) implies list.contains(
        TicketWithStatus {
            ticket: tickets[i],
            status: status_of(tickets[i], flows, steps, targets, user_id, label_ids),
        },
    ) by {
        let entry = TicketWithStatus {
            ticket: tickets[i],
            status: status_of(tickets[i], flows, steps, targets, user_id, label_ids),
        };
        let m = choose|m: int| 0 <= m < listed.len() && listed[m] == entry;
        assert(list.contains(listed[m]));
    }
}

/// The target of the step with the id `step_id`.
pub fn find_step_operator(steps: &Vec<TicketSchemaFlow>, step_id: i32) -> (operator_id: Option<i32>)
    ensures
        operator_id == step_operator(steps@, step_id),
{
    let mut i: usize = 0;
    proof {
        assert(steps@.skip(0) =~= steps@);
    }
    while i < steps.len()
        invariant
            i <= steps.len(),
            step_operator(steps@, step_id) == step_operator(steps@.skip(i as int), step_id),
        decreases steps.len() - i,
    {
        if steps[i].id == step_id {
            return Some(steps[i].operator_id);
        }
        proof {
            assert(steps@.skip(i as int).drop_first() =~= steps@.skip(i + 1));
        }
        i += 1;
    }
    None
}

/// Where a status stands in a list.
pub fn rank_of(status: TicketStatus) -> (rank: u8)
    ensures
        rank == status_rank(status),
{
    match status {
        TicketStatus::Pending => 0,
        TicketStatus::InProgress => 1,
        TicketStatus::Finished => 2,
    }
}

/// The list by status and, within a status, by time of creation.
pub fn sort_listed(list: &Vec<TicketWithStatus>) -> (sorted: Vec<TicketWithStatus>)
    ensures
        sorted@ == sorted_listed(list@),
{
    let mut sorted: Vec<TicketWithStatus> = Vec::new();
    let mut i: usize = 0;
    proof {
        assert(sorted@ =~= sorted_listed(list@.take(0)));
    }
    while i < list.len()
        invariant
            i <= list.len(),
            sorted.len() == i,
            sorted@ == sorted_listed(list@.take(i as int)),
        decreases list.len() - i,
    {
        let item = TicketWithStatus { ticket: list[i].ticket.clone(), status: list[i].status };
        let rank = rank_of(item.status);
        let mut at: usize = sorted.len();
        while at > 0 && !(rank_of(sorted[at - 1].status) < rank || (rank_of(sorted[at - 1].status)
            == rank && sorted[at - 1].ticket.created_at <= item.ticket.created_at))
            invariant
                at <= sorted.len(),
                rank == status_rank(item.status),
                forall|j: int| at <= j < sorted.len() ==> !lists_before(#[trigger] sorted[j], item),
            decreases at,
        {
            at -= 1;
        }
        proof {
            assert(list@.take(i + 1).drop_last() =~= list@.take(i as int));
            assert(list@.take(i + 1).last() == item);
            lemma_insert_listed(sorted@, item, at as int);
        }
        sorted.insert(at, item);
        i += 1;
    }
    proof {
        assert(list@.take(list.len() as int) =~= list@);
    }
    sorted
}

/// The first of the answers given at the step state `flow_id`.
pub fn find_answer(answers: &Vec<TicketFormAnswer>, flow_id: i32) -> (found: Option<
    TicketFormAnswer,
>)
    ensures
        found == answer_of_flow(answers@, flow_id),
{
    let mut i: usize = 0;
    proof {
        assert(answers@.skip(0) =~= answers@);
    }
    while i < answers.len()
        invariant
            i <= answers.len(),
            answer_of_flow(answers@, flow_id) == answer_of_flow(answers@.skip(i as int), flow_id),
        decreases answers.len() - i,
    {
        if answers[i].ticket_flow_id == flow_id {
            return Some(answers[i].clone());
        }
        proof {
            assert(answers@.skip(i as int).drop_first() =~= answers@.skip(i + 1));
        }
        i += 1;
    }
    None
}

/// The first of the verdicts given at the step state `flow_id`.
pub fn find_verdict(reviews: &Vec<TicketReview>, flow_id: i32) -> (found: Option<TicketReview>)
    ensures
        found == review_of_flow(reviews@, flow_id),
{
    let mut i: usize = 0;
    proof {
        assert(reviews@.skip(0) =~= reviews@);
    }
    while i < reviews.len()
        invariant
            i <= reviews.len(),
            review_of_flow(reviews@, flow_id) == review_of_flow(reviews@.skip(i as int), flow_id),
        decreases reviews.len() - i,
    {
        if reviews[i].ticket_flow_id == flow_id {
            return Some(reviews[i].clone());
        }
        proof {
            assert(reviews@.skip(i as int).drop_first() =~= reviews@.skip(i + 1));
        }
        i += 1;
    }
    None
}

impl TicketFlowItem {
    /// The state of a step put together with what is known of it: it is
    /// acted on by the user it is assigned to or, failing that, by the user
    /// or else the role that its step names; it holds the answer to its
    /// form or, failing that, the verdict of its review.
    pub fn new(
        flow: TicketFlow,
        flow_user: Option<User>,
        schema_user: Option<User>,
        schema_label: Option<Role>,
        form: Option<TicketFormAnswer>,
        review: Option<TicketReview>,
    ) -> (item: TicketFlowItem)
        ensures
            item == (TicketFlowItem {
                flow,
                module: handed_in(form, review),
                operator: operator_of(flow_user, schema_user, schema_label),
            }),
    {
        let operator = match (flow_user, schema_user, schema_label) {
            (Some(user), _, _) => TicketFlowOperator::User(user),
            (_, Some(user), _) => TicketFlowOperator::User(user),
            (_, _, Some(role)) => TicketFlowOperator::Role(role),
            (None, None, None) => TicketFlowOperator::Nobody,
        };
        let module = match (form, review) {
            (Some(answer), _) => TicketFlowValue::Form(answer),
            (None, Some(verdict)) => TicketFlowValue::Review(verdict),
            (None, None) => TicketFlowValue::Empty,
        };
        TicketFlowItem { flow, module, operator }
    }
}

/// The state of a step with what was handed in at it and who acts on it.
pub fn assemble_flow_item(
    flow: &TicketFlow,
    steps: &Vec<TicketSchemaFlow>,
    directory: &Directory,
    answers: &Vec<TicketFormAnswer>,
    reviews: &Vec<TicketReview>,
) -> (item: TicketFlowItem)
    ensures
        item == flow_item_of(*flow, steps@, *directory, answers@, reviews@),
{
    let flow_user = match &flow.user_id {
        Some(id) => find_user(&directory.users, id),
        None => None,
    };
    let target = match find_step_operator(steps, flow.ticket_schema_flow_id) {
        Some(operator_id) => find_target(&directory.targets, operator_id),
        None => None,
    };
    let (schema_user, schema_label) = match &target {
        Some(t) => {
            let user = match &t.user_id {
                Some(id) => find_user(&directory.users, id),
                None => None,
            };
            let role = match t.label_id {
                Some(label_id) => find_role_of_label(
                    &directory.labels,
                    &directory.roles,
                    label_id,
                ),
                None => None,
            };
            (user, role)
        },
        None => (None, None),
    };
    TicketFlowItem::new(
        flow.clone(),
        flow_user,
        schema_user,
        schema_label,
        find_answer(answers, flow.id),
        find_verdict(reviews, flow.id),
    )
}

impl Ticket {
    /// Whether the user has to do with this ticket: the user takes part in
    /// it, or the target of a first step of its template names the user.
    pub fn is_user(
        &self,
        flows: &Vec<TicketFlow>,
        steps: &Vec<TicketSchemaFlow>,
        targets: &Vec<Target>,
        user: &User,
        user_label_ids: &Vec<i32>,
    ) -> (joined: bool)
        ensures
            joined == (takes_part(flows@, self.id, user.id@) || operators_name(
                steps@,
                targets@,
                self.ticket_schema_id,
                true,
                user.id@,
                user_label_ids@,
            )),
    {
        if self.has_flow_of(flows, user) {
            return true;
        }
        is_operator(steps, targets, self.ticket_schema_id, true, user, user_label_ids)
    }

    /// How this ticket stands for the user who carries the labels `user_label_ids`.
    pub fn get_status(
        &self,
        flows: &Vec<TicketFlow>,
        steps: &Vec<TicketSchemaFlow>,
        targets: &Vec<Target>,
        user: &User,
        user_label_ids: &Vec<i32>,
    ) -> (status: TicketStatus)
        ensures
            status == status_of(*self, flows@, steps@, targets@, user.id@, user_label_ids@),
    {
        if self.finished {
            return TicketStatus::Finished;
        }
        match self.process_flow_index(flows, steps) {
            None => TicketStatus::InProgress,
            Some(at) => {
                let flow = &flows[at];
                let acts = match &flow.user_id {
                    Some(flow_user_id) => *flow_user_id == user.id,
                    None => match find_step_operator(steps, flow.ticket_schema_flow_id) {
                        Some(operator_id) => is_user_in_target(
                            targets,
                            operator_id,
                            user,
                            user_label_ids,
                        ),
                        None => false,
                    },
                };
                if acts {
                    TicketStatus::Pending
                } else {
                    TicketStatus::InProgress
                }
            },
        }
    }

    /// The ids of the tickets among `tickets` that wait for the user.
    pub fn get_pending_ticket_ids_by_user(
        tickets: &Vec<Ticket>,
        flows: &Vec<TicketFlow>,
        steps: &Vec<TicketSchemaFlow>,
        targets: &Vec<Target>,
        user: &User,
        user_label_ids: &Vec<i32>,
    ) -> (ids: Vec<i32>)
        ensures
            ids@ == pending_ids(tickets@, flows@, steps@, targets@, user.id@, user_label_ids@),
    {
        let mut ids: Vec<i32> = Vec::new();
        let mut i: usize = 0;
        while i < tickets.len()
            invariant
                i <= tickets.len(),
                ids@ == pending_ids(
                    tickets@.take(i as int),
                    flows@,
                    steps@,
                    targets@,
                    user.id@,
                    user_label_ids@,
                ),
            decreases tickets.len() - i,
        {
            proof {
                assert(tickets@.take(i + 1).drop_last() =~= tickets@.take(i as int));
            }
            let status = tickets[i].get_status(flows, steps, targets, user, user_label_ids);
            if status == TicketStatus::Pending {
                ids.push(tickets[i].id);
            }
            i += 1;
        }
        proof {
            assert(tickets@.take(tickets.len() as int) =~= tickets@);
        }
        ids
    }

    /// The tickets among `tickets` that are on the user's list, each with
    /// how it stands: those that wait for the user first, then those that
    /// wait for somebody else, then the finished ones, and within each of
    /// these the older before the newer.
    pub fn get_tickets_by_user(
        tickets: &Vec<Ticket>,
        flows: &Vec<TicketFlow>,
        steps: &Vec<TicketSchemaFlow>,
        targets: &Vec<Target>,
        user: &User,
        user_label_ids: &Vec<i32>,
    ) -> (list: Vec<TicketWithStatus>)
        ensures
            list@ == sorted_listed(
                listed_tickets(tickets@, flows@, steps@, targets@, user.id@, user_label_ids@),
            ),
    {
        let mut listed: Vec<TicketWithStatus> = Vec::new();
        let mut i: usize = 0;
        while i < tickets.len()
            invariant
                i <= tickets.len(),
                listed@ == listed_tickets(
                    tickets@.take(i as int),
                    flows@,
                    steps@,
                    targets@,
                    user.id@,
                    user_label_ids@,
                ),
            decreases tickets.len() - i,
        {
            proof {
                assert(tickets@.take(i + 1).drop_last() =~= tickets@.take(i as int));
            }
            let ticket = &tickets[i];
            let status = ticket.get_status(flows, steps, targets, user, user_label_ids);
            if status == TicketStatus::Pending || ticket.has_flow_of(flows, user) {
                listed.push(TicketWithStatus { ticket: ticket.clone(), status });
            }
            i += 1;
        }
        proof {
            assert(tickets@.take(tickets.len() as int) =~= tickets@);
        }
        sort_listed(&listed)
    }

    /// The states of this ticket's steps, in the order of the steps of its
    /// template, each with what was handed in at it and who acts on it.
    /// States whose step is not among `steps` are left out.
    pub fn get_flows(
        &self,
        flows: &Vec<TicketFlow>,
        steps: &Vec<TicketSchemaFlow>,
        directory: &Directory,
        answers: &Vec<TicketFormAnswer>,
        reviews: &Vec<TicketReview>,
    ) -> (items: Vec<TicketFlowItem>)
        ensures
            items@ == ticket_flow_items(
                ordered_steps(steps@, self.ticket_schema_id),
                flows@,
                self.id,
                steps@,
                *directory,
                answers@,
                reviews@,
            ),
    {
        let ordered = order_steps(steps, self.ticket_schema_id);
        let mut items: Vec<TicketFlowItem> = Vec::new();
        let mut i: usize = 0;
        proof {
            assert(ordered@.take(0) =~= Seq::<TicketSchemaFlow>::empty());
        }
        while i < ordered.len()
            invariant
                i <= ordered.len(),
                items@ == ticket_flow_items(
                    ordered@.take(i as int),
                    flows@,
                    self.id,
                    steps@,
                    *directory,
                    answers@,
                    reviews@,
                ),
            decreases ordered.len() - i,
        {
            let step_id = ordered[i].id;
            let ghost before = items@;
            proof {
                assert(ordered@.take(i + 1).drop_last() =~= ordered@.take(i as int));
                assert(flows@.take(0) =~= Seq::<TicketFlow>::empty());
                assert(before + Seq::<TicketFlowItem>::empty() =~= before);
            }
            let mut j: usize = 0;
            while j < flows.len()
                invariant
                    j <= flows.len(),
                    items@ == before + step_flow_items(
                        flows@.take(j as int),
                        self.id,
                        step_id,
                        steps@,
                        *directory,
                        answers@,
                        reviews@,
                    ),
                decreases flows.len() - j,
            {
                let ghost part = step_flow_items(
                    flows@.take(j as int),
                    self.id,
                    step_id,
                    steps@,
                    *directory,
                    answers@,
                    reviews@,
                );
                proof {
                    assert(flows@.take(j + 1).drop_last() =~= flows@.take(j as int));
                }
                if flows[j].ticket_id == self.id && flows[j].ticket_schema_flow_id == step_id {
                    let item = assemble_flow_item(&flows[j], steps, directory, answers, reviews);
                    proof {
                        assert((before + part).push(item) =~= before + part.push(item));
                    }
                    items.push(item);
                }
                j += 1;
            }
            proof {
                assert(flows@.take(flows.len() as int) =~= flows@);
            }
            i += 1;
        }
        proof {
            assert(ordered@.take(ordered.len() as int) =~= ordered@);
        }
        items
    }

    /// The tickets among `tickets` that wait for the user.
    pub fn get_pending_tickets_by_user(
        tickets: &Vec<Ticket>,
        flows: &Vec<TicketFlow>,
        steps: &Vec<TicketSchemaFlow>,
        targets: &Vec<Target>,
        user: &User,
        user_label_ids: &Vec<i32>,
    ) -> (pending: Vec<Ticket>)
        ensures
            pending@ == pending_tickets(
                tickets@,
                flows@,
                steps@,
                targets@,
                user.id@,
                user_label_ids@,
            ),
    {
        let mut pending: Vec<Ticket> = Vec::new();
        let mut i: usize = 0;
        while i < tickets.len()
            invariant
                i <= tickets.len(),
                pending@ == pending_tickets(
                    tickets@.take(i as int),
                    flows@,
                    steps@,
                    targets@,
                    user.id@,
                    user_label_ids@,
                ),
            decreases tickets.len() - i,
        {
            proof {
                assert(tickets@.take(i + 1).drop_last() =~= tickets@.take(i as int));
            }
            let status = tickets[i].get_status(flows, steps, targets, user, user_label_ids);
            if status == TicketStatus::Pending {
                pending.push(tickets[i].clone());
            }
            i += 1;
        }
        proof {
            assert(tickets@.take(tickets.len() as int) =~= tickets@);
        }
        pending
    }
}

/// The steps of a template, each beside the state that a ticket has for
/// it: the `i`-th step beside the `i`-th state. Steps beyond the states
/// stand beside none; states beyond the steps are left out.
pub fn flow_statuses(
    schema_flows: Vec<TicketSchemaFlowItem>,
    flows: Vec<TicketFlowItem>,
) -> (statuses: Vec<TicketFlowStatus>)
    ensures
        statuses.len() == schema_flows.len(),
        forall|i: int|
            0 <= i < statuses.len() ==> (#[trigger] statuses[i]).schema == schema_flows[i]
                && statuses[i].flow == if i < flows.len() {
                Some(flows[i])
            } else {
                None
            },
{
    let ghost steps = schema_flows@;
    let ghost states = flows@;
    let count = schema_flows.len();
    let mut schema_flows = schema_flows;
    let mut flows = flows;
    while flows.len() > count
        invariant
            flows.len() <= states.len(),
            flows.len() == states.len() || flows.len() >= count,
            flows@ == states.take(flows.len() as int),
        decreases flows.len(),
    {
        let _ = flows.pop();
        proof {
            assert(flows@ =~= states.take(flows.len() as int));
        }
    }
    let mut reversed: Vec<TicketFlowStatus> = Vec::new();
    proof {
        assert(schema_flows@ =~= steps.take(count as int));
    }
    while schema_flows.len() > 0
        invariant
            count == steps.len(),
            schema_flows.len() <= count,
            schema_flows@ == steps.take(schema_flows.len() as int),
            flows.len() <= states.len(),
            flows.len() <= count,
            flows.len() <= schema_flows.len() || flows.len() == states.len(),
            flows@ == states.take(flows.len() as int),
            flows.len() == if states.len() < schema_flows.len() {
                states.len()
            } else {
                schema_flows.len() as nat
            },
            reversed.len() == count - schema_flows.len(),
            forall|k: int|
                0 <= k < reversed.len() ==> (#[trigger] reversed[k]).schema == steps[count - 1 - k]
                    && reversed[k].flow == if count - 1 - k < states.len() {
                    Some(states[count - 1 - k])
                } else {
                    None
                },
        decreases schema_flows.len(),
    {
        let at = schema_flows.len() - 1;
        let schema = schema_flows.pop().unwrap();
        let flow = if flows.len() > at {
            let state = flows.pop().unwrap();
            proof {
                assert(flows@ =~= states.take(flows.len() as int));
            }
            Some(state)
        } else {
            None
        };
        proof {
            assert(schema_flows@ =~= steps.take(at as int));
        }
        reversed.push(TicketFlowStatus { schema, flow });
    }
    let mut statuses: Vec<TicketFlowStatus> = Vec::new();
    while reversed.len() > 0
        invariant
            count == steps.len(),
            reversed.len() <= count,
            statuses.len() == count - reversed.len(),
            forall|k: int|
                0 <= k < reversed.len() ==> (#[trigger] reversed[k]).schema == steps[count - 1 - k]
                    && reversed[k].flow == if count - 1 - k < states.len() {
                    Some(states[count - 1 - k])
                } else {
                    None
                },
            forall|k: int|
                0 <= k < statuses.len() ==> (#[trigger] statuses[k]).schema == steps[k]
                    && statuses[k].flow == if k < states.len() {
                    Some(states[k])
                } else {
                    None
                },
        decreases reversed.len(),
    {
        let status = reversed.pop().unwrap();
        statuses.push(status);
    }
    statuses
}

/// The features to show to a user, given the user's list of tickets and
/// whether the user manages any template: tickets, with the numbers of
/// those that wait for the user and of those that wait for somebody else;
/// and the managing of templates, if the user manages one.
pub fn get_enabled_features_by_user(
    tickets: &Vec<TicketWithStatus>,
    manages_schemas: bool,
) -> (features: Vec<EnabledFeature>)
    ensures
        features@ == if manages_schemas {
            seq![
                EnabledFeature::Ticket(
                    status_counts(tickets@).0 as usize,
                    status_counts(tickets@).1 as usize,
                ),
                EnabledFeature::TicketManage(0, 0),
            ]
        } else {
            seq![
                EnabledFeature::Ticket(
                    status_counts(tickets@).0 as usize,
                    status_counts(tickets@).1 as usize,
                ),
            ]
        },
{
    let mut pending: usize = 0;
    let mut in_progress: usize = 0;
    let mut i: usize = 0;
    while i < tickets.len()
        invariant
            i <= tickets.len(),
            pending <= i,
            in_progress <= i,
            status_counts(tickets@.take(i as int)) == (pending as int, in_progress as int),
        decreases tickets.len() - i,
    {
        proof {
            assert(tickets@.take(i + 1).drop_last() =~= tickets@.take(i as int));
        }
        match tickets[i].status {
            TicketStatus::Pending => {
                pending += 1;
            },
            TicketStatus::InProgress => {
                in_progress += 1;
            },
            TicketStatus::Finished => {},
        }
        i += 1;
    }
    proof {
        assert(tickets@.take(tickets.len() as int) =~= tickets@);
    }
    let mut features: Vec<EnabledFeature> = Vec::new();
    features.push(EnabledFeature::Ticket(pending, in_progress));
    if manages_schemas {
        features.push(EnabledFeature::TicketManage(0, 0));
    }
    proof {
        if manages_schemas {
            assert(features@ =~= seq![
                EnabledFeature::Ticket(pending, in_progress),
                EnabledFeature::TicketManage(0, 0),
            ]);
        } else {
            assert(features@ =~= seq![EnabledFeature::Ticket(pending, in_progress)]);
        }
    }
    features
}

} // verus!
