//! A template laid out: its steps in their order, each with the form or
//! the review that it asks for.

use vstd::prelude::*;
use crate::forms::answers::{FormAnswerView, TicketFormAnswer};
use crate::forms::form::{effective_fields, sorted_by_order};
use crate::forms::schema::{
    FormSchema, FormSchemaView, SchemaFieldView, TicketSchemaForm, TicketSchemaFormField,
};
use crate::target::{named_users, users_by_id, Target, User, UserLabel};
use crate::ticket::{Ticket, TicketFlow};
use crate::views::{lemma_view_each_push, view_each};
use crate::workflow::{
    managers_name, operators_name, FlowItemView, FlowModuleView, TicketSchema, TicketSchemaFlow,
    TicketSchemaFlowItem, TicketSchemaFlowValue, TicketSchemaManager, TicketSchemaReview,
};

verus! {

/// `sorted` with `step` put behind the last step whose order is not greater.
pub open spec fn insert_step(sorted: Seq<TicketSchemaFlow>, step: TicketSchemaFlow) -> Seq<
    TicketSchemaFlow,
>
    decreases sorted.len(),
{
    if sorted.len() == 0 || sorted.last().order <= step.order {
        sorted.push(step)
    } else {
        insert_step(sorted.drop_last(), step).push(sorted.last())
    }
}

/// The steps of the template `schema_id` among `flows`, in ascending
/// order; steps of equal order stay as they were.
pub open spec fn ordered_steps(flows: Seq<TicketSchemaFlow>, schema_id: i32) -> Seq<
    TicketSchemaFlow,
>
    decreases flows.len(),
{
    if flows.len() == 0 {
        Seq::empty()
    } else {
        let before = ordered_steps(flows.drop_last(), schema_id);
        if flows.last().ticket_schema_id == schema_id {
            insert_step(before, flows.last())
        } else {
            before
        }
    }
}

/// The fields of the form `form_id` among `fields`, in the order of `fields`.
pub open spec fn fields_of_form(fields: Seq<SchemaFieldView>, form_id: i32) -> Seq<SchemaFieldView>
    decreases fields.len(),
{
    if fields.len() == 0 {
        Seq::empty()
    } else {
        let before = fields_of_form(fields.drop_last(), form_id);
        if fields.last().ticket_schema_form_id == form_id {
            before.push(fields.last())
        } else {
            before
        }
    }
}

/// The form of the step `step_id`: the first among `forms` that belongs to it.
pub open spec fn form_of_step(forms: Seq<TicketSchemaForm>, step_id: i32) -> Option<
    TicketSchemaForm,
>
    decreases forms.len(),
{
    if forms.len() == 0 {
        None
    } else if forms[0].ticket_schema_flow_id == step_id {
        Some(forms[0])
    } else {
        form_of_step(forms.drop_first(), step_id)
    }
}

/// The review of the step `step_id`: the first among `reviews` that belongs to it.
pub open spec fn review_of_step(reviews: Seq<TicketSchemaReview>, step_id: i32) -> Option<
    TicketSchemaReview,
>
    decreases reviews.len(),
{
    if reviews.len() == 0 {
        None
    } else if reviews[0].ticket_schema_flow_id == step_id {
        Some(reviews[0])
    } else {
        review_of_step(reviews.drop_first(), step_id)
    }
}

/// The fields of a form as they are shown: in ascending order; and where a
/// history of answers is given, resolved against it, with skipped blocks
/// and markers left out.
pub open spec fn shown_fields(
    fields: Seq<SchemaFieldView>,
    form_id: i32,
    history: Option<Seq<FormAnswerView>>,
) -> Seq<SchemaFieldView> {
    let sorted = sorted_by_order(fields_of_form(fields, form_id));
    match history {
        Some(answers) => effective_fields(sorted, answers),
        None => sorted,
    }
}

/// What the step asks for: its form with the fields as they are shown, or
/// else its review. A step with neither asks for nothing.
pub open spec fn module_of(
    step_id: i32,
    forms: Seq<TicketSchemaForm>,
    reviews: Seq<TicketSchemaReview>,
    fields: Seq<SchemaFieldView>,
    history: Option<Seq<FormAnswerView>>,
) -> Option<FlowModuleView> {
    match form_of_step(forms, step_id) {
        Some(form) => Some(
            FlowModuleView::Form(
                FormSchemaView { form, fields: shown_fields(fields, form.id, history) },
            ),
        ),
        None => match review_of_step(reviews, step_id) {
            Some(review) => Some(FlowModuleView::Review(review)),
            None => None,
        },
    }
}

/// The steps in the order given, each with what it asks for; steps that
/// ask for nothing are left out.
pub open spec fn detail_items(
    steps: Seq<TicketSchemaFlow>,
    forms: Seq<TicketSchemaForm>,
    reviews: Seq<TicketSchemaReview>,
    fields: Seq<SchemaFieldView>,
    history: Option<Seq<FormAnswerView>>,
) -> Seq<FlowItemView>
    decreases steps.len(),
{
    if steps.len() == 0 {
        Seq::empty()
    } else {
        let before = detail_items(steps.drop_last(), forms, reviews, fields, history);
        match module_of(steps.last().id, forms, reviews, fields, history) {
            Some(module) => before.push(FlowItemView { schema: steps.last(), module }),
            None => before,
        }
    }
}

/// The view of a history of answers that may be absent.
pub open spec fn history_view(history: Option<&Vec<TicketFormAnswer>>) -> Option<
    Seq<FormAnswerView>,
> {
    match history {
        Some(answers) => Some(view_each(answers@)),
        None => None,
    }
}

/// The place of the first step with the id `step_id`, from `from` on.
pub open spec fn step_index_from(steps: Seq<TicketSchemaFlow>, step_id: i32, from: int) -> Option<
    int,
>
    decreases steps.len() - from,
{
    if from < 0 || from >= steps.len() {
        None
    } else if steps[from].id == step_id {
        Some(from)
    } else {
        step_index_from(steps, step_id, from + 1)
    }
}

/// The targets with the id `target_id`, in the order of `targets`.
pub open spec fn targets_with_id(targets: Seq<Target>, target_id: i32) -> Seq<Target>
    decreases targets.len(),
{
    if targets.len() == 0 {
        Seq::empty()
    } else {
        let before = targets_with_id(targets.drop_last(), target_id);
        if targets.last().id == target_id {
            before.push(targets.last())
        } else {
            before
        }
    }
}

/// The targets that manage the template `schema_id`: for each of its
/// managers, in their order, the targets with the id that the manager names.
pub open spec fn manager_targets(
    managers: Seq<TicketSchemaManager>,
    targets: Seq<Target>,
    schema_id: i32,
) -> Seq<Target>
    decreases managers.len(),
{
    if managers.len() == 0 {
        Seq::empty()
    } else {
        let before = manager_targets(managers.drop_last(), targets, schema_id);
        if managers.last().ticket_schema_id == schema_id {
            before + targets_with_id(targets, managers.last().target_id)
        } else {
            before
        }
    }
}

/// The templates among `schemas` that the user manages, in the order of `schemas`.
pub open spec fn managed_schemas(
    schemas: Seq<TicketSchema>,
    managers: Seq<TicketSchemaManager>,
    targets: Seq<Target>,
    user_id: Seq<char>,
    label_ids: Seq<i32>,
) -> Seq<TicketSchema>
    decreases schemas.len(),
{
    if schemas.len() == 0 {
        Seq::empty()
    } else {
        let before = managed_schemas(schemas.drop_last(), managers, targets, user_id, label_ids);
        if managers_name(managers, targets, schemas.last().id, user_id, label_ids) {
            before.push(schemas.last())
        } else {
            before
        }
    }
}

/// The templates among `schemas` of which the user may start a ticket, in
/// the order of `schemas`.
pub open spec fn startable_schemas(
    schemas: Seq<TicketSchema>,
    flows: Seq<TicketSchemaFlow>,
    targets: Seq<Target>,
    user_id: Seq<char>,
    label_ids: Seq<i32>,
) -> Seq<TicketSchema>
    decreases schemas.len(),
{
    if schemas.len() == 0 {
        Seq::empty()
    } else {
        let before = startable_schemas(schemas.drop_last(), flows, targets, user_id, label_ids);
        if operators_name(flows, targets, schemas.last().id, true, user_id, label_ids) {
            before.push(schemas.last())
        } else {
            before
        }
    }
}

/// The tickets of the template `schema_id` among `tickets`, in their order.
pub open spec fn tickets_of_schema(tickets: Seq<Ticket>, schema_id: i32) -> Seq<Ticket>
    decreases tickets.len(),
{
    if tickets.len() == 0 {
        Seq::empty()
    } else {
        let before = tickets_of_schema(tickets.drop_last(), schema_id);
        if tickets.last().ticket_schema_id == schema_id {
            before.push(tickets.last())
        } else {
            before
        }
    }
}

/// The first of the templates with the id `id`.
pub open spec fn schema_with_id(schemas: Seq<TicketSchema>, id: i32) -> Option<TicketSchema>
    decreases schemas.len(),
{
    if schemas.len() == 0 {
        None
    } else if schemas[0].id == id {
        Some(schemas[0])
    } else {
        schema_with_id(schemas.drop_first(), id)
    }
}

/// Putting a step at the place found by walking back from the end over the
/// steps of greater order is putting it in by order.
pub proof fn lemma_insert_step(sorted: Seq<TicketSchemaFlow>, step: TicketSchemaFlow, at: int)
    requires
        0 <= at <= sorted.len(),
        forall|j: int| at <= j < sorted.len() ==> (#[trigger] sorted[j]).order > step.order,
        at > 0 ==> sorted[at - 1].order <= step.order,
    ensures
        insert_step(sorted, step) == sorted.insert(at, step),
    decreases sorted.len(),
{
    if sorted.len() == 0 || sorted.last().order <= step.order {
        if at < sorted.len() {
            assert(sorted[sorted.len() - 1].order > step.order);
        }
        assert(sorted.push(step) =~= sorted.insert(at, step));
    } else {
        let front = sorted.drop_last();
        assert forall|j: int| at <= j < front.len() implies (#[trigger] front[j]).order
            > step.order by {
            assert(front[j] == sorted[j]);
        }
        lemma_insert_step(front, step, at);
        assert(front.insert(at, step).push(sorted.last()) =~= sorted.insert(at, step));
    }
}

/// The fields of the form `form_id` among `fields`.
pub fn select_fields(fields: &Vec<TicketSchemaFormField>, form_id: i32) -> (selected: Vec<
    TicketSchemaFormField,
>)
    ensures
        view_each(selected@) == fields_of_form(view_each(fields@), form_id),
{
    let mut selected: Vec<TicketSchemaFormField> = Vec::new();
    let ghost views = view_each(fields@);
    let mut i: usize = 0;
    proof {
        assert(view_each(selected@) =~= fields_of_form(views.take(0), form_id));
    }
    while i < fields.len()
        invariant
            i <= fields.len(),
            views == view_each(fields@),
            view_each(selected@) == fields_of_form(views.take(i as int), form_id),
        decreases fields.len() - i,
    {
        proof {
            assert(views.take(i + 1).drop_last() =~= views.take(i as int));
            assert(views.take(i + 1).last() == fields[i as int]@);
        }
        if fields[i].ticket_schema_form_id == form_id {
            let field = fields[i].clone();
            proof {
                lemma_view_each_push(selected@, field);
            }
            selected.push(field);
        }
        i += 1;
    }
    proof {
        assert(views.take(fields.len() as int) =~= views);
    }
    selected
}

/// The form of the step `step_id`.
pub fn find_form(forms: &Vec<TicketSchemaForm>, step_id: i32) -> (form: Option<TicketSchemaForm>)
    ensures
        form == form_of_step(forms@, step_id),
{
    let mut i: usize = 0;
    proof {
        assert(forms@.skip(0) =~= forms@);
    }
    while i < forms.len()
        invariant
            i <= forms.len(),
            form_of_step(forms@, step_id) == form_of_step(forms@.skip(i as int), step_id),
        decreases forms.len() - i,
    {
        if forms[i].ticket_schema_flow_id == step_id {
            return Some(forms[i]);
        }
        proof {
            assert(forms@.skip(i as int).drop_first() =~= forms@.skip(i + 1));
        }
        i += 1;
    }
    None
}

/// The review of the step `step_id`.
pub fn find_review(reviews: &Vec<TicketSchemaReview>, step_id: i32) -> (review: Option<
    TicketSchemaReview,
>)
    ensures
        review == review_of_step(reviews@, step_id),
{
    let mut i: usize = 0;
    proof {
        assert(reviews@.skip(0) =~= reviews@);
    }
    while i < reviews.len()
        invariant
            i <= reviews.len(),
            review_of_step(reviews@, step_id) == review_of_step(
                reviews@.skip(i as int),
                step_id,
            ),
        decreases reviews.len() - i,
    {
        if reviews[i].ticket_schema_flow_id == step_id {
            return Some(reviews[i]);
        }
        proof {
            assert(reviews@.skip(i as int).drop_first() =~= reviews@.skip(i + 1));
        }
        i += 1;
    }
    None
}

/// What the step `step_id` asks for.
pub fn find_module(
    step_id: i32,
    forms: &Vec<TicketSchemaForm>,
    reviews: &Vec<TicketSchemaReview>,
    fields: &Vec<TicketSchemaFormField>,
    history: Option<&Vec<TicketFormAnswer>>,
) -> (module: Option<TicketSchemaFlowValue>)
    ensures
        match module {
            Some(found) => module_of(
                step_id,
                forms@,
                reviews@,
                view_each(fields@),
                history_view(history),
            ) == Some(found@),
            None => module_of(step_id, forms@, reviews@, view_each(fields@), history_view(history))
                is None,
        },
{
    match find_form(forms, step_id) {
        Some(form) => {
            let selected = select_fields(fields, form.id);
            let schema = match history {
                Some(answers) => FormSchema::new_with_ticket(answers, form, selected),
                None => FormSchema::new(form, selected),
            };
            Some(TicketSchemaFlowValue::Form(schema))
        },
        None => match find_review(reviews, step_id) {
            Some(review) => Some(TicketSchemaFlowValue::Review(review)),
            None => None,
        },
    }
}

/// The steps in the order given, each with what it asks for.
pub fn assemble_items(
    steps: &Vec<TicketSchemaFlow>,
    forms: &Vec<TicketSchemaForm>,
    reviews: &Vec<TicketSchemaReview>,
    fields: &Vec<TicketSchemaFormField>,
    history: Option<&Vec<TicketFormAnswer>>,
) -> (items: Vec<TicketSchemaFlowItem>)
    ensures
        view_each(items@) == detail_items(
            steps@,
            forms@,
            reviews@,
            view_each(fields@),
            history_view(history),
        ),
{
    let mut items: Vec<TicketSchemaFlowItem> = Vec::new();
    let mut i: usize = 0;
    proof {
        assert(view_each(items@) =~= detail_items(
            steps@.take(0),
            forms@,
            reviews@,
            view_each(fields@),
            history_view(history),
        ));
    }
    while i < steps.len()
        invariant
            i <= steps.len(),
            view_each(items@) == detail_items(
                steps@.take(i as int),
                forms@,
                reviews@,
                view_each(fields@),
                history_view(history),
            ),
        decreases steps.len() - i,
    {
        proof {
            assert(steps@.take(i + 1).drop_last() =~= steps@.take(i as int));
        }
        match find_module(steps[i].id, forms, reviews, fields, history) {
            Some(module) => {
                let item = TicketSchemaFlowItem { schema: steps[i].clone(), module };
                proof {
                    lemma_view_each_push(items@, item);
                }
                items.push(item);
            },
            None => {},
        }
        i += 1;
    }
    proof {
        assert(steps@.take(steps.len() as int) =~= steps@);
    }
    items
}

/// The steps of the template `schema_id` among `flows`, in ascending order.
pub fn order_steps(flows: &Vec<TicketSchemaFlow>, schema_id: i32) -> (steps: Vec<TicketSchemaFlow>)
    ensures
        steps@ == ordered_steps(flows@, schema_id),
{
    let mut steps: Vec<TicketSchemaFlow> = Vec::new();
    let mut i: usize = 0;
    while i < flows.len()
        invariant
            i <= flows.len(),
            steps@ == ordered_steps(flows@.take(i as int), schema_id),
        decreases flows.len() - i,
    {
        proof {
            assert(flows@.take(i + 1).drop_last() =~= flows@.take(i as int));
        }
        if flows[i].ticket_schema_id == schema_id {
            let step = flows[i].clone();
            let mut at: usize = steps.len();
            while at > 0 && steps[at - 1].order > step.order
                invariant
                    at <= steps.len(),
                    forall|j: int|
                        at <= j < steps.len() ==> (#[trigger] steps[j]).order > step.order,
                decreases at,
            {
                at -= 1;
            }
            proof {
                lemma_insert_step(steps@, step, at as int);
            }
            steps.insert(at, step);
        }
        i += 1;
    }
    proof {
        assert(flows@.take(flows.len() as int) =~= flows@);
    }
    steps
}

/// The targets with the id `target_id`.
pub fn select_targets(targets: &Vec<Target>, target_id: i32) -> (selected: Vec<Target>)
    ensures
        selected@ == targets_with_id(targets@, target_id),
{
    let mut selected: Vec<Target> = Vec::new();
    let mut i: usize = 0;
    while i < targets.len()
        invariant
            i <= targets.len(),
            selected@ == targets_with_id(targets@.take(i as int), target_id),
        decreases targets.len() - i,
    {
        proof {
            assert(targets@.take(i + 1).drop_last() =~= targets@.take(i as int));
        }
        if targets[i].id == target_id {
            selected.push(targets[i].clone());
        }
        i += 1;
    }
    proof {
        assert(targets@.take(targets.len() as int) =~= targets@);
    }
    selected
}

impl TicketSchema {
    /// The steps of this template among `flows`, in ascending order.
    pub fn get_flows(&self, flows: &Vec<TicketSchemaFlow>) -> (steps: Vec<TicketSchemaFlow>)
        ensures
            steps@ == ordered_steps(flows@, self.id),
    {
        order_steps(flows, self.id)
    }

    /// The steps of this template in ascending order, each with what it
    /// asks for; the fields of the forms as a manager wrote them.
    pub fn get_detail_flows(
        &self,
        flows: &Vec<TicketSchemaFlow>,
        forms: &Vec<TicketSchemaForm>,
        reviews: &Vec<TicketSchemaReview>,
        fields: &Vec<TicketSchemaFormField>,
    ) -> (items: Vec<TicketSchemaFlowItem>)
        ensures
            view_each(items@) == detail_items(
                ordered_steps(flows@, self.id),
                forms@,
                reviews@,
                view_each(fields@),
                None,
            ),
    {
        let steps = self.get_flows(flows);
        assemble_items(&steps, forms, reviews, fields, None)
    }

    /// The steps of this template in ascending order, each with what it
    /// asks for; the fields of the forms as they count for a principal
    /// whose answers so far are `history`.
    pub fn get_detail_flows_with_user(
        &self,
        history: &Vec<TicketFormAnswer>,
        flows: &Vec<TicketSchemaFlow>,
        forms: &Vec<TicketSchemaForm>,
        reviews: &Vec<TicketSchemaReview>,
        fields: &Vec<TicketSchemaFormField>,
    ) -> (items: Vec<TicketSchemaFlowItem>)
        ensures
            view_each(items@) == detail_items(
                ordered_steps(flows@, self.id),
                forms@,
                reviews@,
                view_each(fields@),
                Some(view_each(history@)),
            ),
    {
        let steps = self.get_flows(flows);
        assemble_items(&steps, forms, reviews, fields, Some(history))
    }

    /// The templates among `schemas` that the user manages.
    pub fn get_manager_schemas(
        schemas: &Vec<TicketSchema>,
        managers: &Vec<TicketSchemaManager>,
        targets: &Vec<Target>,
        user: &User,
        user_label_ids: &Vec<i32>,
    ) -> (managed: Vec<TicketSchema>)
        ensures
            managed@ == managed_schemas(
                schemas@,
                managers@,
                targets@,
                user.id@,
                user_label_ids@,
            ),
    {
        let mut managed: Vec<TicketSchema> = Vec::new();
        let mut i: usize = 0;
        while i < schemas.len()
            invariant
                i <= schemas.len(),
                managed@ == managed_schemas(
                    schemas@.take(i as int),
                    managers@,
                    targets@,
                    user.id@,
                    user_label_ids@,
                ),
            decreases schemas.len() - i,
        {
            proof {
                assert(schemas@.take(i + 1).drop_last() =~= schemas@.take(i as int));
            }
            if schemas[i].is_manager(managers, targets, user, user_label_ids) {
                managed.push(schemas[i].clone());
            }
            i += 1;
        }
        proof {
            assert(schemas@.take(schemas.len() as int) =~= schemas@);
        }
        managed
    }

    /// The templates among `schemas` of which the user may start a ticket.
    pub fn get_probably_schemas(
        schemas: &Vec<TicketSchema>,
        flows: &Vec<TicketSchemaFlow>,
        targets: &Vec<Target>,
        user: &User,
        user_label_ids: &Vec<i32>,
    ) -> (startable: Vec<TicketSchema>)
        ensures
            startable@ == startable_schemas(
                schemas@,
                flows@,
                targets@,
                user.id@,
                user_label_ids@,
            ),
    {
        let mut startable: Vec<TicketSchema> = Vec::new();
        let mut i: usize = 0;
        while i < schemas.len()
            invariant
                i <= schemas.len(),
                startable@ == startable_schemas(
                    schemas@.take(i as int),
                    flows@,
                    targets@,
                    user.id@,
                    user_label_ids@,
                ),
            decreases schemas.len() - i,
        {
            proof {
                assert(schemas@.take(i + 1).drop_last() =~= schemas@.take(i as int));
            }
            if schemas[i].is_probably_join_user(flows, targets, user, user_label_ids) {
                startable.push(schemas[i].clone());
            }
            i += 1;
        }
        proof {
            assert(schemas@.take(schemas.len() as int) =~= schemas@);
        }
        startable
    }

    /// The targets that manage this template.
    pub fn get_manager_targets(
        &self,
        managers: &Vec<TicketSchemaManager>,
        targets: &Vec<Target>,
    ) -> (selected: Vec<Target>)
        ensures
            selected@ == manager_targets(managers@, targets@, self.id),
    {
        let mut selected: Vec<Target> = Vec::new();
        let mut i: usize = 0;
        while i < managers.len()
            invariant
                i <= managers.len(),
                selected@ == manager_targets(managers@.take(i as int), targets@, self.id),
            decreases managers.len() - i,
        {
            proof {
                assert(managers@.take(i + 1).drop_last() =~= managers@.take(i as int));
            }
            if managers[i].ticket_schema_id == self.id {
                let mut found = select_targets(targets, managers[i].target_id);
                selected.append(&mut found);
            }
            i += 1;
        }
        proof {
            assert(managers@.take(managers.len() as int) =~= managers@);
        }
        selected
    }

    /// The users who manage this template: those among `users` whom one of
    /// its managing targets names; each user once, in the order of the
    /// users' ids.
    pub fn get_managers(
        &self,
        managers: &Vec<TicketSchemaManager>,
        targets: &Vec<Target>,
        users: &Vec<User>,
        user_labels: &Vec<UserLabel>,
    ) -> (named: Vec<User>)
        ensures
            view_each(named@) == users_by_id(
                named_users(
                    view_each(users@),
                    user_labels@,
                    manager_targets(managers@, targets@, self.id),
                ),
            ),
    {
        let selected = self.get_manager_targets(managers, targets);
        Target::get_users(&selected, users, user_labels)
    }

    /// The tickets of this template among `tickets`.
    pub fn get_tickets(&self, tickets: &Vec<Ticket>) -> (own: Vec<Ticket>)
        ensures
            own@ == tickets_of_schema(tickets@, self.id),
    {
        let mut own: Vec<Ticket> = Vec::new();
        let mut i: usize = 0;
        while i < tickets.len()
            invariant
                i <= tickets.len(),
                own@ == tickets_of_schema(tickets@.take(i as int), self.id),
            decreases tickets.len() - i,
        {
            proof {
                assert(tickets@.take(i + 1).drop_last() =~= tickets@.take(i as int));
            }
            if tickets[i].ticket_schema_id == self.id {
                own.push(tickets[i].clone());
            }
            i += 1;
        }
        proof {
            assert(tickets@.take(tickets.len() as int) =~= tickets@);
        }
        own
    }
}

impl TicketSchemaFlow {
    /// This step with what it asks for, the fields of a form as a manager
    /// wrote them. None if it asks for nothing.
    pub fn get_detail(
        &self,
        forms: &Vec<TicketSchemaForm>,
        reviews: &Vec<TicketSchemaReview>,
        fields: &Vec<TicketSchemaFormField>,
    ) -> (detail: Option<TicketSchemaFlowItem>)
        ensures
            match detail {
                Some(item) => item.schema == *self && module_of(
                    self.id,
                    forms@,
                    reviews@,
                    view_each(fields@),
                    None,
                ) == Some(item.module@),
                None => module_of(self.id, forms@, reviews@, view_each(fields@), None) is None,
            },
    {
        match find_module(self.id, forms, reviews, fields, None) {
            Some(module) => Some(TicketSchemaFlowItem { schema: self.clone(), module }),
            None => None,
        }
    }

    /// The users who may be assigned to this step: those among `users`
    /// whom the target of the step names; each user once, in the order of
    /// the users' ids.
    pub fn get_probably_assign_users(
        &self,
        targets: &Vec<Target>,
        users: &Vec<User>,
        user_labels: &Vec<UserLabel>,
    ) -> (named: Vec<User>)
        ensures
            view_each(named@) == users_by_id(
                named_users(
                    view_each(users@),
                    user_labels@,
                    targets_with_id(targets@, self.operator_id),
                ),
            ),
    {
        let selected = select_targets(targets, self.operator_id);
        Target::get_users(&selected, users, user_labels)
    }
}

impl TicketFlow {
    /// The step of this state with what it asks for, the fields of a form
    /// as a manager wrote them. None if the step is not among `steps` or
    /// asks for nothing.
    pub fn get_schema(
        &self,
        steps: &Vec<TicketSchemaFlow>,
        forms: &Vec<TicketSchemaForm>,
        reviews: &Vec<TicketSchemaReview>,
        fields: &Vec<TicketSchemaFormField>,
    ) -> (detail: Option<TicketSchemaFlowItem>)
        ensures
            match detail {
                Some(item) => {
                    &&& step_index_from(steps@, self.ticket_schema_flow_id, 0) matches Some(at)
                    &&& item.schema == steps[at]
                    &&& module_of(
                        self.ticket_schema_flow_id,
                        forms@,
                        reviews@,
                        view_each(fields@),
                        None,
                    ) == Some(item.module@)
                },
                None => step_index_from(steps@, self.ticket_schema_flow_id, 0) is None || module_of(
                    self.ticket_schema_flow_id,
                    forms@,
                    reviews@,
                    view_each(fields@),
                    None,
                ) is None,
            },
    {
        let mut i: usize = 0;
        while i < steps.len()
            invariant
                i <= steps.len(),
                step_index_from(steps@, self.ticket_schema_flow_id, 0) == step_index_from(
                    steps@,
                    self.ticket_schema_flow_id,
                    i as int,
                ),
            decreases steps.len() - i,
        {
            if steps[i].id == self.ticket_schema_flow_id {
                return steps[i].get_detail(forms, reviews, fields);
            }
            i += 1;
        }
        None
    }
}

impl Ticket {
    /// The template of this ticket and its steps as they count for a
    /// principal whose answers so far are `history`. None if the template
    /// is not among `schemas`.
    pub fn get_schema(
        &self,
        schemas: &Vec<TicketSchema>,
        history: &Vec<TicketFormAnswer>,
        flows: &Vec<TicketSchemaFlow>,
        forms: &Vec<TicketSchemaForm>,
        reviews: &Vec<TicketSchemaReview>,
        fields: &Vec<TicketSchemaFormField>,
    ) -> (found: Option<(TicketSchema, Vec<TicketSchemaFlowItem>)>)
        ensures
            match found {
                Some((schema, items)) => schema_with_id(schemas@, self.ticket_schema_id) == Some(
                    schema,
                ) && view_each(items@) == detail_items(
                    ordered_steps(flows@, schema.id),
                    forms@,
                    reviews@,
                    view_each(fields@),
                    Some(view_each(history@)),
                ),
                None => schema_with_id(schemas@, self.ticket_schema_id) is None,
            },
    {
        let mut i: usize = 0;
        proof {
            assert(schemas@.skip(0) =~= schemas@);
        }
        while i < schemas.len()
            invariant
                i <= schemas.len(),
                schema_with_id(schemas@, self.ticket_schema_id) == schema_with_id(
                    schemas@.skip(i as int),
                    self.ticket_schema_id,
                ),
            decreases schemas.len() - i,
        {
            if schemas[i].id == self.ticket_schema_id {
                let schema = schemas[i].clone();
                let items = schema.get_detail_flows_with_user(history, flows, forms, reviews, fields);
                return Some((schema, items));
            }
            proof {
                assert(schemas@.skip(i as int).drop_first() =~= schemas@.skip(i + 1));
            }
            i += 1;
        }
        None
    }
}

} // verus!
