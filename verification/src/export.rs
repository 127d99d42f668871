//! The tickets of a template as a table: one column for each field and
//! each verdict, one row for each ticket.

use vstd::prelude::*;
use vstd::string::StringExecFns;
use crate::forms::schema::{SchemaFieldView, TicketSchemaFormField};
use crate::json::{
    no_entries, object_append, object_clone, object_entries, object_insert, object_new, JsonValue,
    JsonValueView,
};
use crate::ticket::{find_step_order, step_order, Ticket, TicketFlowItem, TicketFlowValue};
use crate::views::{lemma_view_each_push, view_each};
use crate::workflow::{
    FlowItemView, FlowModuleView, TicketSchemaFlow, TicketSchemaFlowItem, TicketSchemaFlowValue,
};

verus! {

/// The digit that stands for a number below ten.
pub open spec fn digit_char(digit: int) -> char {
    if digit == 0 {
        '0'
    } else if digit == 1 {
        '1'
    } else if digit == 2 {
        '2'
    } else if digit == 3 {
        '3'
    } else if digit == 4 {
        '4'
    } else if digit == 5 {
        '5'
    } else if digit == 6 {
        '6'
    } else if digit == 7 {
        '7'
    } else if digit == 8 {
        '8'
    } else {
        '9'
    }
}

/// The digits of a number in base ten, without leading zeros.
pub open spec fn digits_of(number: nat) -> Seq<char>
    decreases number,
{
    if number < 10 {
        seq![digit_char(number as int)]
    } else {
        digits_of(number / 10).push(digit_char((number % 10) as int))
    }
}

/// A number in base ten, with a minus sign before its digits if it is negative.
pub open spec fn decimal_text(number: i32) -> Seq<char> {
    if number < 0 {
        seq!['-'] + digits_of((-number) as nat)
    } else {
        digits_of(number as nat)
    }
}

/// The digit that stands for a number below ten.
fn digit_text(digit: u32) -> (text: &'static str)
    requires
        digit < 10,
    ensures
        text@ == seq![digit_char(digit as int)],
{
    proof {
        reveal_strlit("0");
        reveal_strlit("1");
        reveal_strlit("2");
        reveal_strlit("3");
        reveal_strlit("4");
        reveal_strlit("5");
        reveal_strlit("6");
        reveal_strlit("7");
        reveal_strlit("8");
        reveal_strlit("9");
    }
    let text = if digit == 0 {
        "0"
    } else if digit == 1 {
        "1"
    } else if digit == 2 {
        "2"
    } else if digit == 3 {
        "3"
    } else if digit == 4 {
        "4"
    } else if digit == 5 {
        "5"
    } else if digit == 6 {
        "6"
    } else if digit == 7 {
        "7"
    } else if digit == 8 {
        "8"
    } else {
        "9"
    };
    proof {
        assert(text@ =~= seq![digit_char(digit as int)]);
    }
    text
}

/// The digits of a number in base ten.
fn digits_text(number: u32) -> (text: String)
    ensures
        text@ == digits_of(number as nat),
    decreases number,
{
    if number < 10 {
        digit_text(number).to_owned()
    } else {
        let mut text = digits_text(number / 10);
        text.append(digit_text(number % 10));
        proof {
            let front = digits_of((number / 10) as nat);
            assert(front + seq![digit_char((number % 10) as int)] =~= front.push(
                digit_char((number % 10) as int),
            ));
        }
        text
    }
}

/// A number in base ten.
pub fn number_text(number: i32) -> (text: String)
    ensures
        text@ == decimal_text(number),
{
    if number < 0 {
        let mut text = "-".to_owned();
        proof {
            reveal_strlit("-");
            assert("-"@ =~= seq!['-']);
        }
        let digits = digits_text((-(number as i64)) as u32);
        text.append(digits.as_str());
        text
    } else {
        digits_text(number as u32)
    }
}

/// A column of the table.
#[derive(Debug, PartialEq)]
pub enum ExportField {
    /// A column that every table has.
    Base { key: String },
    /// The column of a field of a form.
    Form { key: String, field: TicketSchemaFormField },
    /// A column of the verdict of a review.
    Review { key: String },
}

/// What a `ExportField` is to the contracts: texts and lists are sequences.
pub enum ExportFieldView {
    Base { key: Seq<char> },
    Form { key: Seq<char>, field: SchemaFieldView },
    Review { key: Seq<char> },
}

impl View for ExportField {
    type V = ExportFieldView;

    open spec fn view(&self) -> ExportFieldView {
        match self {
            ExportField::Base { key } => ExportFieldView::Base { key: key@ },
            ExportField::Form { key, field } => ExportFieldView::Form { key: key@, field: field@ },
            ExportField::Review { key } => ExportFieldView::Review { key: key@ },
        }
    }
}

/// The key of the column that tells whether the review of the step of the
/// order `order` approved.
pub open spec fn approved_key(order: i32) -> Seq<char> {
    "review_"@ + decimal_text(order) + "_approved"@
}

/// The key of the column that holds the comment of the review of the step
/// of the order `order`.
pub open spec fn comment_key(order: i32) -> Seq<char> {
    "review_"@ + decimal_text(order) + "_comment"@
}

/// The columns of the fields of a form: one for each field with a key, in
/// the order of the fields.
pub open spec fn form_columns(fields: Seq<SchemaFieldView>) -> Seq<ExportFieldView>
    decreases fields.len(),
{
    if fields.len() == 0 {
        Seq::empty()
    } else {
        let before = form_columns(fields.drop_last());
        if fields.last().key.len() == 0 {
            before
        } else {
            before.push(ExportFieldView::Form { key: fields.last().key, field: fields.last() })
        }
    }
}

/// The columns of a step: those of its form, or the two of its review.
pub open spec fn step_columns(item: FlowItemView) -> Seq<ExportFieldView> {
    match item.module {
        FlowModuleView::Form(form) => form_columns(form.fields),
        FlowModuleView::Review(_) => seq![
            ExportFieldView::Review { key: approved_key(item.schema.order) },
            ExportFieldView::Review { key: comment_key(item.schema.order) },
        ],
    }
}

/// The columns of the steps, in the order of the steps.
pub open spec fn steps_columns(items: Seq<FlowItemView>) -> Seq<ExportFieldView>
    decreases items.len(),
{
    if items.len() == 0 {
        Seq::empty()
    } else {
        steps_columns(items.drop_last()) + step_columns(items.last())
    }
}

/// The columns of the table of a template: the id of the ticket, then the
/// columns of the steps.
pub open spec fn export_columns(items: Seq<FlowItemView>) -> Seq<ExportFieldView> {
    seq![ExportFieldView::Base { key: "ticket_id"@ }] + steps_columns(items)
}

/// What a step state adds to the row of its ticket: the answer to its form,
/// value by value, or the verdict of its review in the two columns of the
/// step; a verdict without comment has the empty comment.
pub open spec fn row_with(
    row: Map<Seq<char>, JsonValueView>,
    module: TicketFlowValue,
    order: i32,
) -> Map<Seq<char>, JsonValueView> {
    match module {
        TicketFlowValue::Empty => row,
        TicketFlowValue::Form(answer) => row.union_prefer_right(object_entries(answer.value)),
        TicketFlowValue::Review(review) => row.insert(
            approved_key(order),
            JsonValueView::Bool(review.approved),
        ).insert(
            comment_key(order),
            JsonValueView::Text(
                match review.comment {
                    Some(comment) => comment@,
                    None => Seq::empty(),
                },
            ),
        ),
    }
}

/// The row of a ticket: its id, and what each of its step states adds, in
/// their order. There is no row if the step of a state is not known.
pub open spec fn export_row_entries(
    ticket_id: i32,
    flows: Seq<TicketFlowItem>,
    steps: Seq<TicketSchemaFlow>,
) -> Option<Map<Seq<char>, JsonValueView>>
    decreases flows.len(),
{
    if flows.len() == 0 {
        Some(no_entries().insert("ticket_id"@, JsonValueView::Integer(ticket_id as i64)))
    } else {
        match (
            export_row_entries(ticket_id, flows.drop_last(), steps),
            step_order(steps, flows.last().flow.ticket_schema_flow_id),
        ) {
            (Some(row), Some(order)) => Some(row_with(row, flows.last().module, order)),
            _ => None,
        }
    }
}

/// The row as the contracts speak of it.
pub open spec fn row_view(row: Option<serde_json::Map<String, serde_json::Value>>) -> Option<
    Map<Seq<char>, JsonValueView>,
> {
    match row {
        Some(object) => Some(object_entries(object)),
        None => None,
    }
}

/// The key of a column of the review of the step of the order `order`.
pub fn review_key(order: i32, approved: bool) -> (key: String)
    ensures
        key@ == if approved {
            approved_key(order)
        } else {
            comment_key(order)
        },
{
    let mut key = "review_".to_owned();
    let number = number_text(order);
    key.append(number.as_str());
    if approved {
        key.append("_approved");
    } else {
        key.append("_comment");
    }
    key
}

/// The columns of the table of a template with the steps `items`.
pub fn export_fields(items: &Vec<TicketSchemaFlowItem>) -> (columns: Vec<ExportField>)
    ensures
        view_each(columns@) == export_columns(view_each(items@)),
{
    let mut columns: Vec<ExportField> = Vec::new();
    let first = ExportField::Base { key: "ticket_id".to_owned() };
    proof {
        lemma_view_each_push(columns@, first);
    }
    columns.push(first);
    let ghost views = view_each(items@);
    let ghost head = seq![ExportFieldView::Base { key: "ticket_id"@ }];
    let mut i: usize = 0;
    proof {
        assert(view_each(columns@) =~= head + steps_columns(views.take(0)));
    }
    while i < items.len()
        invariant
            i <= items.len(),
            views == view_each(items@),
            head == seq![ExportFieldView::Base { key: "ticket_id"@ }],
            view_each(columns@) == head + steps_columns(views.take(i as int)),
        decreases items.len() - i,
    {
        let item = &items[i];
        let ghost before = view_each(columns@);
        proof {
            assert(views.take(i + 1).drop_last() =~= views.take(i as int));
            assert(views.take(i + 1).last() == item@);
        }
        match &item.module {
            TicketSchemaFlowValue::Form(form) => {
                let ghost fields = view_each(form.fields@);
                let mut j: usize = 0;
                proof {
                    assert(view_each(columns@) =~= before + form_columns(fields.take(0)));
                }
                while j < form.fields.len()
                    invariant
                        j <= form.fields.len(),
                        fields == view_each(form.fields@),
                        view_each(columns@) == before + form_columns(fields.take(j as int)),
                    decreases form.fields.len() - j,
                {
                    let field = &form.fields[j];
                    proof {
                        assert(fields.take(j + 1).drop_last() =~= fields.take(j as int));
                        assert(fields.take(j + 1).last() == field@);
                    }
                    if !field.key.as_str().is_empty() {
                        let column = ExportField::Form {
                            key: field.key.clone(),
                            field: field.clone(),
                        };
                        proof {
                            lemma_view_each_push(columns@, column);
                            assert((before + form_columns(fields.take(j as int))).push(column@)
                                =~= before + form_columns(fields.take(j as int)).push(column@));
                        }
                        columns.push(column);
                    }
                    j += 1;
                }
                proof {
                    assert(fields.take(form.fields.len() as int) =~= fields);
                }
            },
            TicketSchemaFlowValue::Review(_) => {
                let approved = ExportField::Review { key: review_key(item.schema.order, true) };
                let comment = ExportField::Review { key: review_key(item.schema.order, false) };
                proof {
                    lemma_view_each_push(columns@, approved);
                    lemma_view_each_push(columns@.push(approved), comment);
                    assert(before.push(approved@).push(comment@) =~= before + seq![
                        approved@,
                        comment@,
                    ]);
                }
                columns.push(approved);
                columns.push(comment);
            },
        }
        proof {
            assert((head + steps_columns(views.take(i as int))) + step_columns(item@) =~= head + (
            steps_columns(views.take(i as int)) + step_columns(item@)));
        }
        i += 1;
    }
    proof {
        assert(views.take(items.len() as int) =~= views);
    }
    columns
}

/// The row of `ticket` in the table, given its step states `flows` in
/// their order and the steps of its template.
pub fn export_row(
    ticket: &Ticket,
    flows: &Vec<TicketFlowItem>,
    steps: &Vec<TicketSchemaFlow>,
) -> (row: Option<serde_json::Map<String, serde_json::Value>>)
    ensures
        row_view(row) == export_row_entries(ticket.id, flows@, steps@),
{
    let mut row = object_new();
    object_insert(&mut row, "ticket_id".to_owned(), JsonValue::Integer(ticket.id as i64));
    let mut i: usize = 0;
    proof {
        assert(flows@.take(0) =~= Seq::<TicketFlowItem>::empty());
    }
    while i < flows.len()
        invariant
            i <= flows.len(),
            export_row_entries(ticket.id, flows@.take(i as int), steps@) == Some(
                object_entries(row),
            ),
        decreases flows.len() - i,
    {
        let item = &flows[i];
        proof {
            assert(flows@.take(i + 1).drop_last() =~= flows@.take(i as int));
            assert(flows@.take(i + 1).last() == *item);
        }
        let order = match find_step_order(steps, item.flow.ticket_schema_flow_id) {
            Some(order) => order,
            None => {
                proof {
                    lemma_no_row(ticket.id, flows@, steps@, i + 1);
                }
                return None;
            },
        };
        match &item.module {
            TicketFlowValue::Empty => {},
            TicketFlowValue::Form(answer) => {
                object_append(&mut row, object_clone(&answer.value));
            },
            TicketFlowValue::Review(review) => {
                object_insert(&mut row, review_key(order, true), JsonValue::Bool(review.approved));
                let comment = match &review.comment {
                    Some(comment) => comment.clone(),
                    None => String::new(),
                };
                object_insert(&mut row, review_key(order, false), JsonValue::Text(comment));
            },
        }
        i += 1;
    }
    proof {
        assert(flows@.take(flows.len() as int) =~= flows@);
    }
    Some(row)
}

/// If the first `n` step states have no row, the ticket has none.
pub proof fn lemma_no_row(
    ticket_id: i32,
    flows: Seq<TicketFlowItem>,
    steps: Seq<TicketSchemaFlow>,
    n: int,
)
    requires
        0 <= n <= flows.len(),
        export_row_entries(ticket_id, flows.take(n), steps) is None,
    ensures
        export_row_entries(ticket_id, flows, steps) is None,
    decreases flows.len() - n,
{
    if n < flows.len() {
        assert(flows.take(n + 1).drop_last() =~= flows.take(n));
        lemma_no_row(ticket_id, flows, steps, n + 1);
    } else {
        assert(flows.take(n) =~= flows);
    }
}

} // verus!
