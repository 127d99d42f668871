//! Ticket templates: the steps of a workflow in their order, each with the
//! form or the review it asks for and with the target that may act on it.

use vstd::prelude::*;
use crate::fields::FormSchemaField;
use crate::forms::schema::{
    FormSchema, FormSchemaView, TicketSchemaForm, TicketSchemaFormField,
};
use crate::target::{target_names, Target, User};

verus! {

/// A template of tickets. Times are seconds since the Unix epoch.
#[derive(Debug, PartialEq)]
pub struct TicketSchema {
    pub id: i32,
    pub title: String,
    pub description: String,
    pub project_id: String,
    pub created_at: i64,
    pub updated_at: i64,
}

impl Clone for TicketSchema {
    fn clone(&self) -> (copy: Self)
        ensures
            copy == *self,
    {
        TicketSchema {
            id: self.id,
            title: self.title.clone(),
            description: self.description.clone(),
            project_id: self.project_id.clone(),
            created_at: self.created_at,
            updated_at: self.updated_at,
        }
    }
}

/// Names a target whose users may change a template.
#[derive(Debug, PartialEq, Eq, Clone, Copy, Structural)]
pub struct TicketSchemaManager {
    pub id: i32,
    pub ticket_schema_id: i32,
    pub target_id: i32,
    pub created_at: i64,
    pub updated_at: i64,
}

/// One step of a template. Steps are taken in ascending `order`, from 1 on;
/// `operator_id` names the target that may act on the step.
#[derive(Debug, PartialEq)]
pub struct TicketSchemaFlow {
    pub id: i32,
    pub ticket_schema_id: i32,
    pub order: i32,
    pub operator_id: i32,
    pub name: String,
    pub created_at: i64,
    pub updated_at: i64,
}

impl Clone for TicketSchemaFlow {
    fn clone(&self) -> (copy: Self)
        ensures
            copy == *self,
    {
        TicketSchemaFlow {
            id: self.id,
            ticket_schema_id: self.ticket_schema_id,
            order: self.order,
            operator_id: self.operator_id,
            name: self.name.clone(),
            created_at: self.created_at,
            updated_at: self.updated_at,
        }
    }
}

/// The review of a step. When `restarted` is set, a rejection sends the
/// ticket back to its first step; otherwise it goes back one step.
#[derive(Debug, PartialEq, Eq, Clone, Copy, Structural)]
pub struct TicketSchemaReview {
    pub id: i32,
    pub ticket_schema_flow_id: i32,
    pub restarted: bool,
    pub created_at: i64,
    pub updated_at: i64,
}

/// What a step asks for.
#[derive(Debug, PartialEq)]
pub enum TicketSchemaFlowValue {
    Form(FormSchema),
    Review(TicketSchemaReview),
}

/// A step together with what it asks for.
#[derive(Debug, PartialEq)]
pub struct TicketSchemaFlowItem {
    pub schema: TicketSchemaFlow,
    pub module: TicketSchemaFlowValue,
}

/// What a `TicketSchemaFlowValue` is to the contracts: texts and lists are sequences.
pub enum FlowModuleView {
    Form(FormSchemaView),
    Review(TicketSchemaReview),
}

/// What a `TicketSchemaFlowItem` is to the contracts: texts and lists are sequences.
pub struct FlowItemView {
    pub schema: TicketSchemaFlow,
    pub module: FlowModuleView,
}

impl View for TicketSchemaFlowValue {
    type V = FlowModuleView;

    open spec fn view(&self) -> FlowModuleView {
        match self {
            TicketSchemaFlowValue::Form(form) => FlowModuleView::Form(form@),
            TicketSchemaFlowValue::Review(review) => FlowModuleView::Review(*review),
        }
    }
}

impl View for TicketSchemaFlowItem {
    type V = FlowItemView;

    open spec fn view(&self) -> FlowItemView {
        FlowItemView { schema: self.schema, module: self.module@ }
    }
}

/// The greatest order among the steps of the template `schema_id`, if it has steps.
pub open spec fn greatest_order(flows: Seq<TicketSchemaFlow>, schema_id: i32) -> Option<i32>
    decreases flows.len(),
{
    if flows.len() == 0 {
        None
    } else {
        let before = greatest_order(flows.drop_last(), schema_id);
        let last = flows.last();
        if last.ticket_schema_id == schema_id && (before matches Some(order) ==> last.order
            > order) {
            Some(last.order)
        } else {
            before
        }
    }
}

/// The order that the next step of the template gets: one more than the
/// greatest so far, or 1 for the first step.
pub open spec fn next_order(flows: Seq<TicketSchemaFlow>, schema_id: i32) -> int {
    match greatest_order(flows, schema_id) {
        Some(order) => order + 1,
        None => 1,
    }
}

/// Whether the steps of the template `schema_id` among `flows` have, in the
/// sequence in which they occur, the orders 1, 2, 3 and so on.
pub open spec fn orders_contiguous(flows: Seq<TicketSchemaFlow>, schema_id: i32) -> bool
    decreases flows.len(),
{
    if flows.len() == 0 {
        true
    } else {
        let front = flows.drop_last();
        orders_contiguous(front, schema_id) && (flows.last().ticket_schema_id == schema_id
            ==> flows.last().order == next_order(front, schema_id))
    }
}

/// The number of steps of the template `schema_id` among `flows`.
pub open spec fn step_count(flows: Seq<TicketSchemaFlow>, schema_id: i32) -> nat
    decreases flows.len(),
{
    if flows.len() == 0 {
        0
    } else {
        step_count(flows.drop_last(), schema_id) + if flows.last().ticket_schema_id == schema_id {
            1nat
        } else {
            0nat
        }
    }
}

/// Whether the user is named by the target of one of the steps of the
/// template `schema_id`; with `first_only`, of one of its steps of order 1.
pub open spec fn operators_name(
    flows: Seq<TicketSchemaFlow>,
    targets: Seq<Target>,
    schema_id: i32,
    first_only: bool,
    user_id: Seq<char>,
    label_ids: Seq<i32>,
) -> bool {
    exists|i: int, j: int|
        0 <= i < flows.len() && 0 <= j < targets.len() && (#[trigger] flows[i]).ticket_schema_id
            == schema_id && (first_only ==> flows[i].order == 1) && (#[trigger] targets[j]).id
            == flows[i].operator_id && target_names(targets[j], user_id, label_ids)
}

/// Whether the user is named by one of the targets that manage the template `schema_id`.
pub open spec fn managers_name(
    managers: Seq<TicketSchemaManager>,
    targets: Seq<Target>,
    schema_id: i32,
    user_id: Seq<char>,
    label_ids: Seq<i32>,
) -> bool {
    exists|i: int, j: int|
        0 <= i < managers.len() && 0 <= j < targets.len() && (
        #[trigger] managers[i]).ticket_schema_id == schema_id && (#[trigger] targets[j]).id
            == managers[i].target_id && target_names(targets[j], user_id, label_ids)
}

/// Whether the target with the id `target_id` names the user.
pub open spec fn target_with_id_names(
    targets: Seq<Target>,
    target_id: i32,
    user_id: Seq<char>,
    label_ids: Seq<i32>,
) -> bool {
    exists|j: int|
        0 <= j < targets.len() && (#[trigger] targets[j]).id == target_id && target_names(
            targets[j],
            user_id,
            label_ids,
        )
}

/// The field to store for the `at`-th of the fields added to the form
/// `form_id`, where the first of them gets the order `first_order`.
pub open spec fn numbered_field(
    form_id: i32,
    first_order: int,
    at: int,
    field: FormSchemaField,
    now: i64,
) -> TicketSchemaFormField {
    TicketSchemaFormField {
        id: 0,
        ticket_schema_form_id: form_id,
        order: (first_order + at) as i32,
        key: field.key,
        name_zh: field.name_zh,
        description_zh: field.description_zh,
        define: field.define,
        required: field.required,
        editable: field.editable,
        created_at: now,
        updated_at: now,
        name_en: field.name_en,
        description_en: field.description_en,
    }
}

/// The order that the first of the fields added to a form gets: one more
/// than the greatest order so far, or 0 in an empty form.
pub open spec fn first_new_order(max_order: Option<i32>) -> int {
    match max_order {
        Some(order) => order + 1,
        None => 0,
    }
}

/// In a template whose steps are numbered from 1 on without a gap, the
/// next step gets the number of steps plus one.
pub proof fn lemma_next_order_counts(flows: Seq<TicketSchemaFlow>, schema_id: i32)
    requires
        orders_contiguous(flows, schema_id),
    ensures
        next_order(flows, schema_id) == step_count(flows, schema_id) + 1,
    decreases flows.len(),
{
    if flows.len() > 0 {
        lemma_next_order_counts(flows.drop_last(), schema_id);
    }
}

/// Adding a step keeps the numbering: a template whose steps are numbered
/// from 1 on without a gap is so still when the step that `add_flow` makes
/// is put behind them.
pub proof fn lemma_added_step_keeps_orders(
    flows: Seq<TicketSchemaFlow>,
    schema_id: i32,
    added: TicketSchemaFlow,
)
    requires
        orders_contiguous(flows, schema_id),
        added.ticket_schema_id == schema_id,
        added.order == next_order(flows, schema_id),
    ensures
        orders_contiguous(flows.push(added), schema_id),
        step_count(flows.push(added), schema_id) == step_count(flows, schema_id) + 1,
{
    assert(flows.push(added).drop_last() =~= flows);
}

/// Whether one of the targets with the id `target_id` names the user.
pub fn is_user_in_target(
    targets: &Vec<Target>,
    target_id: i32,
    user: &User,
    user_label_ids: &Vec<i32>,
) -> (named: bool)
    ensures
        named == target_with_id_names(targets@, target_id, user.id@, user_label_ids@),
{
    let mut j: usize = 0;
    while j < targets.len()
        invariant
            j <= targets.len(),
            forall|k: int|
                0 <= k < j ==> !((#[trigger] targets[k]).id == target_id && target_names(
                    targets[k],
                    user.id@,
                    user_label_ids@,
                )),
        decreases targets.len() - j,
    {
        if targets[j].id == target_id && targets[j].is_user(user, user_label_ids) {
            return true;
        }
        j += 1;
    }
    false
}

/// Whether the user is named by the target of one of the steps of the
/// template `schema_id`; with `first_only`, of one of its steps of order 1.
pub fn is_operator(
    flows: &Vec<TicketSchemaFlow>,
    targets: &Vec<Target>,
    schema_id: i32,
    first_only: bool,
    user: &User,
    user_label_ids: &Vec<i32>,
) -> (named: bool)
    ensures
        named == operators_name(
            flows@,
            targets@,
            schema_id,
            first_only,
            user.id@,
            user_label_ids@,
        ),
{
    let mut i: usize = 0;
    while i < flows.len()
        invariant
            i <= flows.len(),
            forall|a: int, b: int|
                0 <= a < i && 0 <= b < targets.len() ==> !((#[trigger] flows[a]).ticket_schema_id
                    == schema_id && (first_only ==> flows[a].order == 1) && (
                #[trigger] targets[b]).id == flows[a].operator_id && target_names(
                    targets[b],
                    user.id@,
                    user_label_ids@,
                )),
        decreases flows.len() - i,
    {
        let flow = &flows[i];
        if flow.ticket_schema_id == schema_id && (!first_only || flow.order == 1) {
            if is_user_in_target(targets, flow.operator_id, user, user_label_ids) {
                proof {
                    let j = choose|j: int|
                        0 <= j < targets.len() && (#[trigger] targets[j]).id == flow.operator_id
                            && target_names(targets[j], user.id@, user_label_ids@);
                    assert(flows[i as int].ticket_schema_id == schema_id && targets[j].id
                        == flows[i as int].operator_id);
                }
                return true;
            }
        }
        i += 1;
    }
    false
}

impl TicketSchema {
    /// Whether one of the targets that manage this template names the user.
    pub fn is_manager(
        &self,
        managers: &Vec<TicketSchemaManager>,
        targets: &Vec<Target>,
        user: &User,
        user_label_ids: &Vec<i32>,
    ) -> (named: bool)
        ensures
            named == managers_name(managers@, targets@, self.id, user.id@, user_label_ids@),
    {
        let mut i: usize = 0;
        while i < managers.len()
            invariant
                i <= managers.len(),
                forall|a: int, b: int|
                    0 <= a < i && 0 <= b < targets.len() ==> !((
                    #[trigger] managers[a]).ticket_schema_id == self.id && (
                    #[trigger] targets[b]).id == managers[a].target_id && target_names(
                        targets[b],
                        user.id@,
                        user_label_ids@,
                    )),
            decreases managers.len() - i,
        {
            let manager = &managers[i];
            if manager.ticket_schema_id == self.id {
                if is_user_in_target(targets, manager.target_id, user, user_label_ids) {
                    proof {
                        let j = choose|j: int|
                            0 <= j < targets.len() && (#[trigger] targets[j]).id
                                == manager.target_id && target_names(
                                targets[j],
                                user.id@,
                                user_label_ids@,
                            );
                        assert(managers[i as int].ticket_schema_id == self.id && targets[j].id
                            == managers[i as int].target_id);
                    }
                    return true;
                }
            }
            i += 1;
        }
        false
    }

    /// Whether the user may start a ticket of this template: the target of
    /// one of its first steps names the user.
    pub fn is_probably_join_user(
        &self,
        flows: &Vec<TicketSchemaFlow>,
        targets: &Vec<Target>,
        user: &User,
        user_label_ids: &Vec<i32>,
    ) -> (named: bool)
        ensures
            named == operators_name(flows@, targets@, self.id, true, user.id@, user_label_ids@),
    {
        is_operator(flows, targets, self.id, true, user, user_label_ids)
    }

    /// Whether the target of any step of this template names the user.
    pub fn is_probably_user(
        &self,
        flows: &Vec<TicketSchemaFlow>,
        targets: &Vec<Target>,
        user: &User,
        user_label_ids: &Vec<i32>,
    ) -> (named: bool)
        ensures
            named == operators_name(flows@, targets@, self.id, false, user.id@, user_label_ids@),
    {
        is_operator(flows, targets, self.id, false, user, user_label_ids)
    }

    /// The greatest order among the steps of this template.
    pub fn max_flow_order(&self, flows: &Vec<TicketSchemaFlow>) -> (order: Option<i32>)
        ensures
            order == greatest_order(flows@, self.id),
    {
        let mut order: Option<i32> = None;
        let mut i: usize = 0;
        while i < flows.len()
            invariant
                i <= flows.len(),
                order == greatest_order(flows@.take(i as int), self.id),
            decreases flows.len() - i,
        {
            proof {
                assert(flows@.take(i + 1).drop_last() =~= flows@.take(i as int));
            }
            let greater = match order {
                Some(found) => flows[i].order > found,
                None => true,
            };
            if flows[i].ticket_schema_id == self.id && greater {
                order = Some(flows[i].order);
            }
            i += 1;
        }
        proof {
            assert(flows@.take(flows.len() as int) =~= flows@);
        }
        order
    }

    /// The step to add to this template behind the steps `flows`: it gets
    /// the next order. Its id is 0 until it is stored. There is no next
    /// step once the greatest order is the greatest number.
    pub fn add_flow(
        &self,
        flows: &Vec<TicketSchemaFlow>,
        operator_id: i32,
        name: String,
        now: i64,
    ) -> (added: Option<TicketSchemaFlow>)
        ensures
            next_order(flows@, self.id) <= i32::MAX <==> added is Some,
            added matches Some(flow) ==> flow == (TicketSchemaFlow {
                id: 0,
                ticket_schema_id: self.id,
                order: next_order(flows@, self.id) as i32,
                operator_id,
                name,
                created_at: now,
                updated_at: now,
            }),
    {
        let order = match self.max_flow_order(flows) {
            Some(order) => {
                if order == i32::MAX {
                    return None;
                }
                order + 1
            },
            None => 1,
        };
        Some(
            TicketSchemaFlow {
                id: 0,
                ticket_schema_id: self.id,
                order,
                operator_id,
                name,
                created_at: now,
                updated_at: now,
            },
        )
    }

    /// A new template, as it is before it is stored: its id is 0.
    pub fn create(title: String, description: String, project_id: String, now: i64) -> (schema:
        TicketSchema)
        ensures
            schema == (TicketSchema {
                id: 0,
                title,
                description,
                project_id,
                created_at: now,
                updated_at: now,
            }),
    {
        TicketSchema { id: 0, title, description, project_id, created_at: now, updated_at: now }
    }
}

impl TicketSchemaForm {
    /// The fields to store when `fields` are added to this form, whose
    /// greatest order so far is `max_order`: they are numbered on from
    /// there, in the order given. Their ids are 0 until they are stored.
    /// Nothing is added if the orders would run out of numbers.
    pub fn add_fields(
        &self,
        max_order: Option<i32>,
        fields: Vec<FormSchemaField>,
        now: i64,
    ) -> (added: Option<Vec<TicketSchemaFormField>>)
        ensures
            first_new_order(max_order) + fields.len() <= i32::MAX + 1 <==> added is Some,
            added matches Some(records) ==> {
                &&& records.len() == fields.len()
                &&& forall|i: int|
                    0 <= i < records.len() ==> #[trigger] records[i] == numbered_field(
                        self.id,
                        first_new_order(max_order),
                        i,
                        fields[i],
                        now,
                    )
            },
    {
        let first: i64 = match max_order {
            Some(order) => order as i64 + 1,
            None => 0,
        };
        let count = fields.len();
        if count as u128 > (i32::MAX as i64 + 1 - first) as u128 {
            return None;
        }
        let mut fields = fields;
        let ghost given = fields@;
        let mut reversed: Vec<TicketSchemaFormField> = Vec::new();
        while fields.len() > 0
            invariant
                fields.len() <= count,
                count == given.len(),
                first == first_new_order(max_order),
                first + count <= i32::MAX + 1,
                i32::MIN < first,
                fields@ == given.take(fields.len() as int),
                reversed.len() == count - fields.len(),
                forall|k: int|
                    0 <= k < reversed.len() ==> #[trigger] reversed[k] == numbered_field(
                        self.id,
                        first as int,
                        count - 1 - k,
                        given[count - 1 - k],
                        now,
                    ),
            decreases fields.len(),
        {
            let at = fields.len() - 1;
            let field = fields.pop().unwrap();
            proof {
                assert(field == given[at as int]);
                assert(fields@ =~= given.take(at as int));
            }
            reversed.push(
                TicketSchemaFormField {
                    id: 0,
                    ticket_schema_form_id: self.id,
                    order: (first + at as i64) as i32,
                    key: field.key,
                    name_zh: field.name_zh,
                    description_zh: field.description_zh,
                    define: field.define,
                    required: field.required,
                    editable: field.editable,
                    created_at: now,
                    updated_at: now,
                    name_en: field.name_en,
                    description_en: field.description_en,
                },
            );
        }
        let mut records: Vec<TicketSchemaFormField> = Vec::new();
        while reversed.len() > 0
            invariant
                reversed.len() <= count,
                count == given.len(),
                records.len() == count - reversed.len(),
                forall|k: int|
                    0 <= k < reversed.len() ==> #[trigger] reversed[k] == numbered_field(
                        self.id,
                        first as int,
                        count - 1 - k,
                        given[count - 1 - k],
                        now,
                    ),
                forall|k: int|
                    0 <= k < records.len() ==> #[trigger] records[k] == numbered_field(
                        self.id,
                        first as int,
                        k,
                        given[k],
                        now,
                    ),
            decreases reversed.len(),
        {
            let record = reversed.pop().unwrap();
            records.push(record);
        }
        Some(records)
    }

    /// The form of a step, as it is before it is stored: its id is 0.
    pub fn create(schema_flow: &TicketSchemaFlow, expired_at: Option<i64>, now: i64) -> (form:
        TicketSchemaForm)
        ensures
            form == (TicketSchemaForm {
                id: 0,
                ticket_schema_flow_id: schema_flow.id,
                expired_at,
                created_at: now,
                updated_at: now,
            }),
    {
        TicketSchemaForm {
            id: 0,
            ticket_schema_flow_id: schema_flow.id,
            expired_at,
            created_at: now,
            updated_at: now,
        }
    }
}

impl TicketSchemaReview {
    /// The review of a step, as it is before it is stored: its id is 0.
    pub fn create(schema_flow: &TicketSchemaFlow, restarted: bool, now: i64) -> (review:
        TicketSchemaReview)
        ensures
            review == (TicketSchemaReview {
                id: 0,
                ticket_schema_flow_id: schema_flow.id,
                restarted,
                created_at: now,
                updated_at: now,
            }),
    {
        TicketSchemaReview {
            id: 0,
            ticket_schema_flow_id: schema_flow.id,
            restarted,
            created_at: now,
            updated_at: now,
        }
    }
}

} // verus!
