//! The answers given to forms, and the lookup of an earlier answer that a
//! field's default is bound to.

use vstd::prelude::*;
use crate::fields::{FieldValueView, FormFieldOptionValue, FormFieldValue, OptionValueView};
use crate::json::{
    object_clone, object_entries, object_get, JsonItem, JsonItemView, JsonValue, JsonValueView,
};
use crate::target::User;
use crate::ticket::{takes_part, user_takes_part, TicketFlow};
use crate::views::{lemma_view_each_push, view_each, view_option};

verus! {

/// The answer given to a form at one step of a ticket: a JSON object with
/// the value kept for each field. Answers made later have greater ids.
#[derive(Debug, PartialEq)]
pub struct TicketFormAnswer {
    pub id: i32,
    pub ticket_flow_id: i32,
    pub ticket_schema_form_id: i32,
    pub value: serde_json::Map<String, serde_json::Value>,
    pub created_at: i64,
    pub updated_at: i64,
}

/// What a `TicketFormAnswer` is to the contracts: texts and lists are sequences.
pub struct FormAnswerView {
    pub id: i32,
    pub ticket_flow_id: i32,
    pub ticket_schema_form_id: i32,
    pub value: Map<Seq<char>, JsonValueView>,
    pub created_at: i64,
    pub updated_at: i64,
}

impl View for TicketFormAnswer {
    type V = FormAnswerView;

    open spec fn view(&self) -> FormAnswerView {
        FormAnswerView {
            id: self.id,
            ticket_flow_id: self.ticket_flow_id,
            ticket_schema_form_id: self.ticket_schema_form_id,
            value: object_entries(self.value),
            created_at: self.created_at,
            updated_at: self.updated_at,
        }
    }
}

impl Clone for TicketFormAnswer {
    fn clone(&self) -> (copy: Self)
        ensures
            copy == *self,
    {
        TicketFormAnswer {
            id: self.id,
            ticket_flow_id: self.ticket_flow_id,
            ticket_schema_form_id: self.ticket_schema_form_id,
            value: object_clone(&self.value),
            created_at: self.created_at,
            updated_at: self.updated_at,
        }
    }
}

/// The option value that a list element stands for, if it is an integer or a text.
pub open spec fn option_value_of(item: JsonItemView) -> Option<OptionValueView> {
    match item {
        JsonItemView::Integer(i) => Some(OptionValueView::Integer(i)),
        JsonItemView::Text(s) => Some(OptionValueView::String(s)),
        JsonItemView::Other => None,
    }
}

/// The field value that a stored JSON value stands for: an integer of 32
/// bits, a text, a truth value, or a list of integers and texts. Anything
/// else stands for none.
pub open spec fn field_value_of(json: JsonValueView) -> Option<FieldValueView> {
    match json {
        JsonValueView::Integer(i) => if i32::MIN <= i <= i32::MAX {
            Some(FieldValueView::Integer(i as i32))
        } else {
            None
        },
        JsonValueView::Text(s) => Some(FieldValueView::String(s)),
        JsonValueView::Bool(b) => Some(FieldValueView::Bool(b)),
        JsonValueView::List(items) => if forall|i: int|
            0 <= i < items.len() ==> !(#[trigger] items[i] is Other) {
            Some(
                FieldValueView::Array(
                    Seq::new(items.len(), |i: int| option_value_of(items[i])->0),
                ),
            )
        } else {
            None
        },
        _ => None,
    }
}

/// Whether an answer belongs to the form asked for and, where a step is
/// named, to that step.
pub open spec fn answer_matches(
    answer: FormAnswerView,
    schema_form_id: i32,
    flow_id: Option<i32>,
) -> bool {
    answer.ticket_schema_form_id == schema_form_id && (flow_id matches Some(id)
        ==> answer.ticket_flow_id == id)
}

/// The most recent of the answers that match: the one with the greatest id,
/// and of several with that id the first.
pub open spec fn latest_answer(
    history: Seq<FormAnswerView>,
    schema_form_id: i32,
    flow_id: Option<i32>,
) -> Option<FormAnswerView>
    decreases history.len(),
{
    if history.len() == 0 {
        None
    } else {
        let before = latest_answer(history.drop_last(), schema_form_id, flow_id);
        let last = history.last();
        if answer_matches(last, schema_form_id, flow_id) && (before matches Some(found)
            ==> last.id > found.id) {
            Some(last)
        } else {
            before
        }
    }
}

/// The value that the most recent matching answer holds under `field_key`.
pub open spec fn answered_value(
    history: Seq<FormAnswerView>,
    schema_form_id: i32,
    flow_id: Option<i32>,
    field_key: Seq<char>,
) -> Option<FieldValueView> {
    match latest_answer(history, schema_form_id, flow_id) {
        Some(answer) => if answer.value.dom().contains(field_key) {
            field_value_of(answer.value[field_key])
        } else {
            None
        },
        None => None,
    }
}

/// The ticket of the step state with the id `flow_id`: that of the first
/// state among `flows` with this id.
pub open spec fn ticket_of_flow(flows: Seq<TicketFlow>, flow_id: i32) -> Option<i32>
    decreases flows.len(),
{
    if flows.len() == 0 {
        None
    } else if flows[0].id == flow_id {
        Some(flows[0].ticket_id)
    } else {
        ticket_of_flow(flows.drop_first(), flow_id)
    }
}

/// Whether the user may see the answer: it was given in a ticket in which
/// the user takes part.
pub open spec fn may_see(
    answer: FormAnswerView,
    flows: Seq<TicketFlow>,
    user_id: Seq<char>,
) -> bool {
    match ticket_of_flow(flows, answer.ticket_flow_id) {
        Some(ticket_id) => takes_part(flows, ticket_id, user_id),
        None => false,
    }
}

/// The answers that the user may see, in the order of `answers`.
pub open spec fn visible_answers(
    answers: Seq<FormAnswerView>,
    flows: Seq<TicketFlow>,
    user_id: Seq<char>,
) -> Seq<FormAnswerView>
    decreases answers.len(),
{
    if answers.len() == 0 {
        Seq::empty()
    } else {
        let before = visible_answers(answers.drop_last(), flows, user_id);
        if may_see(answers.last(), flows, user_id) {
            before.push(answers.last())
        } else {
            before
        }
    }
}

/// The place of the answer to the form `form_id` at the step state
/// `flow_id`: that of the first such answer, from `from` on.
pub open spec fn answer_index_from(
    answers: Seq<FormAnswerView>,
    flow_id: i32,
    form_id: i32,
    from: int,
) -> Option<int>
    decreases answers.len() - from,
{
    if from < 0 || from >= answers.len() {
        None
    } else if answers[from].ticket_flow_id == flow_id && answers[from].ticket_schema_form_id
        == form_id {
        Some(from)
    } else {
        answer_index_from(answers, flow_id, form_id, from + 1)
    }
}

/// The answer to store when `value` is handed in for the form `form_id` at
/// the step state `flow_id`: the answer that is there already, with the
/// new value; or a new answer, whose id is 0 until it is stored.
pub open spec fn stored_answer(
    answers: Seq<FormAnswerView>,
    flow_id: i32,
    form_id: i32,
    value: Map<Seq<char>, JsonValueView>,
    now: i64,
) -> FormAnswerView {
    match answer_index_from(answers, flow_id, form_id, 0) {
        Some(at) => FormAnswerView { value, updated_at: now, ..answers[at] },
        None => FormAnswerView {
            id: 0,
            ticket_flow_id: flow_id,
            ticket_schema_form_id: form_id,
            value,
            created_at: now,
            updated_at: now,
        },
    }
}

/// The most recent matching answer matches, is one of the answers, and none
/// that matches has a greater id; there is none only if no answer matches.
pub proof fn lemma_latest_answer(
    history: Seq<FormAnswerView>,
    schema_form_id: i32,
    flow_id: Option<i32>,
)
    ensures
        match latest_answer(history, schema_form_id, flow_id) {
            Some(found) => {
                &&& history.contains(found)
                &&& answer_matches(found, schema_form_id, flow_id)
                &&& forall|i: int|
                    0 <= i < history.len() && answer_matches(
                        #[trigger] history[i],
                        schema_form_id,
                        flow_id,
                    ) ==> history[i].id <= found.id
            },
            None => forall|i: int|
                0 <= i < history.len() ==> !answer_matches(
                    #[trigger] history[i],
                    schema_form_id,
                    flow_id,
                ),
        },
    decreases history.len(),
{
    if history.len() > 0 {
        let front = history.drop_last();
        lemma_latest_answer(front, schema_form_id, flow_id);
        assert forall|i: int| 0 <= i < front.len() implies front[i] == history[i] by {}
        match latest_answer(history, schema_form_id, flow_id) {
            Some(found) => {
                if found == history.last() {
                    assert(history[history.len() - 1] == found);
                } else {
                    let k = choose|k: int| 0 <= k < front.len() && front[k] == found;
                    assert(history[k] == found);
                }
                assert forall|i: int|
                    0 <= i < history.len() && answer_matches(
                        #[trigger] history[i],
                        schema_form_id,
                        flow_id,
                    ) implies history[i].id <= found.id by {
                    if i < front.len() {
                        assert(front[i] == history[i]);
                    }
                }
            },
            None => {
                assert forall|i: int| 0 <= i < history.len() implies !answer_matches(
                    #[trigger] history[i],
                    schema_form_id,
                    flow_id,
                ) by {
                    if i < front.len() {
                        assert(front[i] == history[i]);
                    }
                }
            },
        }
    }
}

impl FormFieldValue {
    /// The field value that a stored JSON value stands for.
    pub fn from_json(json: &JsonValue) -> (value: Option<FormFieldValue>)
        ensures
            view_option(value) == field_value_of(json@),
    {
        match json {
            JsonValue::Integer(i) => {
                if -2147483648 <= *i && *i <= 2147483647 {
                    Some(FormFieldValue::Integer(*i as i32))
                } else {
                    None
                }
            },
            JsonValue::Text(s) => Some(FormFieldValue::String(s.clone())),
            JsonValue::Bool(b) => Some(FormFieldValue::Bool(*b)),
            JsonValue::List(items) => {
                let mut values: Vec<FormFieldOptionValue> = Vec::new();
                let mut i: usize = 0;
                while i < items.len()
                    invariant
                        i <= items.len(),
                        values.len() == i,
                        json@ == JsonValueView::List(view_each(items@)),
                        forall|j: int| 0 <= j < i ==> !(items[j]@ is Other),
                        forall|j: int|
                            0 <= j < i ==> option_value_of(items[j]@) == Some(values[j]@),
                    decreases items.len() - i,
                {
                    match &items[i] {
                        JsonItem::Integer(n) => values.push(FormFieldOptionValue::Integer(*n)),
                        JsonItem::Text(s) => values.push(FormFieldOptionValue::String(s.clone())),
                        JsonItem::Other => {
                            proof {
                                assert(view_each(items@)[i as int] is Other);
                            }
                            return None;
                        },
                    }
                    i += 1;
                }
                proof {
                    let listed = view_each(items@);
                    assert forall|j: int| 0 <= j < listed.len() implies !(
                    #[trigger] listed[j] is Other) by {
                        assert(listed[j] == items[j]@);
                    }
                    assert(view_each(values@) =~= Seq::new(
                        listed.len(),
                        |j: int| option_value_of(listed[j])->0,
                    ));
                }
                Some(FormFieldValue::Array(values))
            },
            _ => None,
        }
    }
}

/// The ticket of the step state with the id `flow_id`.
pub fn find_ticket_of_flow(flows: &Vec<TicketFlow>, flow_id: i32) -> (ticket_id: Option<i32>)
    ensures
        ticket_id == ticket_of_flow(flows@, flow_id),
{
    let mut i: usize = 0;
    proof {
        assert(flows@.skip(0) =~= flows@);
    }
    while i < flows.len()
        invariant
            i <= flows.len(),
            ticket_of_flow(flows@, flow_id) == ticket_of_flow(flows@.skip(i as int), flow_id),
        decreases flows.len() - i,
    {
        if flows[i].id == flow_id {
            return Some(flows[i].ticket_id);
        }
        proof {
            assert(flows@.skip(i as int).drop_first() =~= flows@.skip(i + 1));
        }
        i += 1;
    }
    None
}

impl TicketFormAnswer {
    /// The value that the most recent answer to the form `ticket_schema_form_id`
    /// (at the step `flow_id`, where one is named) holds under `field_key`.
    /// `history` holds the answers that the asking principal may see.
    pub fn get_field_value(
        history: &Vec<TicketFormAnswer>,
        ticket_schema_form_id: i32,
        flow_id: Option<i32>,
        field_key: &str,
    ) -> (value: Option<FormFieldValue>)
        ensures
            view_option(value) == answered_value(
                view_each(history@),
                ticket_schema_form_id,
                flow_id,
                field_key@,
            ),
    {
        let mut latest: Option<usize> = None;
        let mut i: usize = 0;
        while i < history.len()
            invariant
                i <= history.len(),
                latest matches Some(k) ==> k < i,
                match latest {
                    Some(k) => latest_answer(
                        view_each(history@).take(i as int),
                        ticket_schema_form_id,
                        flow_id,
                    ) == Some(history[k as int]@),
                    None => latest_answer(
                        view_each(history@).take(i as int),
                        ticket_schema_form_id,
                        flow_id,
                    ) is None,
                },
            decreases history.len() - i,
        {
            let answer = &history[i];
            let matches = answer.ticket_schema_form_id == ticket_schema_form_id && match flow_id {
                Some(id) => answer.ticket_flow_id == id,
                None => true,
            };
            let newer = match latest {
                Some(k) => answer.id > history[k].id,
                None => true,
            };
            proof {
                let views = view_each(history@);
                assert(views.take(i + 1).drop_last() =~= views.take(i as int));
                assert(views.take(i + 1).last() == history[i as int]@);
            }
            if matches && newer {
                latest = Some(i);
            }
            i += 1;
        }
        proof {
            assert(view_each(history@).take(history.len() as int) =~= view_each(history@));
        }
        match latest {
            Some(k) => match object_get(&history[k].value, field_key) {
                Some(json) => FormFieldValue::from_json(&json),
                None => None,
            },
            None => None,
        }
    }

    /// The answer to store for a step state: an answer handed in again
    /// replaces the one handed in before, so that a step state never has
    /// two answers to one form.
    pub fn save_or_create(
        answers: &Vec<TicketFormAnswer>,
        ticket_flow_id: i32,
        ticket_schema_form_id: i32,
        value: serde_json::Map<String, serde_json::Value>,
        now: i64,
    ) -> (answer: TicketFormAnswer)
        ensures
            answer@ == stored_answer(
                view_each(answers@),
                ticket_flow_id,
                ticket_schema_form_id,
                object_entries(value),
                now,
            ),
    {
        let mut i: usize = 0;
        while i < answers.len()
            invariant
                i <= answers.len(),
                answer_index_from(view_each(answers@), ticket_flow_id, ticket_schema_form_id, 0)
                    == answer_index_from(
                    view_each(answers@),
                    ticket_flow_id,
                    ticket_schema_form_id,
                    i as int,
                ),
            decreases answers.len() - i,
        {
            let found = &answers[i];
            proof {
                assert(view_each(answers@)[i as int] == found@);
            }
            if found.ticket_flow_id == ticket_flow_id && found.ticket_schema_form_id
                == ticket_schema_form_id {
                return TicketFormAnswer {
                    id: found.id,
                    ticket_flow_id: found.ticket_flow_id,
                    ticket_schema_form_id: found.ticket_schema_form_id,
                    value,
                    created_at: found.created_at,
                    updated_at: now,
                };
            }
            i += 1;
        }
        TicketFormAnswer {
            id: 0,
            ticket_flow_id,
            ticket_schema_form_id,
            value,
            created_at: now,
            updated_at: now,
        }
    }

    /// The answers among `answers` that the user may see: those given in
    /// tickets in which the user takes part, as the step states `flows` tell.
    pub fn visible_to(
        answers: &Vec<TicketFormAnswer>,
        flows: &Vec<TicketFlow>,
        user: &User,
    ) -> (seen: Vec<TicketFormAnswer>)
        ensures
            view_each(seen@) == visible_answers(view_each(answers@), flows@, user.id@),
    {
        let mut seen: Vec<TicketFormAnswer> = Vec::new();
        let ghost views = view_each(answers@);
        let mut i: usize = 0;
        proof {
            assert(view_each(seen@) =~= visible_answers(views.take(0), flows@, user.id@));
        }
        while i < answers.len()
            invariant
                i <= answers.len(),
                views == view_each(answers@),
                view_each(seen@) == visible_answers(views.take(i as int), flows@, user.id@),
            decreases answers.len() - i,
        {
            let answer = &answers[i];
            proof {
                assert(views.take(i + 1).drop_last() =~= views.take(i as int));
                assert(views.take(i + 1).last() == answer@);
            }
            let shown = match find_ticket_of_flow(flows, answer.ticket_flow_id) {
                Some(ticket_id) => user_takes_part(flows, ticket_id, user),
                None => false,
            };
            if shown {
                let copy = answer.clone();
                proof {
                    lemma_view_each_push(seen@, copy);
                }
                seen.push(copy);
            }
            i += 1;
        }
        proof {
            assert(views.take(answers.len() as int) =~= views);
        }
        seen
    }
}

} // verus!
