//! A form at work: putting its fields in order, leaving out what does not
//! count for a ticket, and checking a submission as a whole.

use vstd::prelude::*;
use crate::fields::FormFieldDefine;
use crate::forms::answers::{FormAnswerView, TicketFormAnswer};
use crate::forms::blocks::{block_scan, block_step, visible_fields, BlockScan};
use crate::forms::defaults::{resolved_field, resolved_fields};
use crate::forms::schema::{
    FormSchema, SchemaFieldView, TicketSchemaForm, TicketSchemaFormField,
};
use crate::forms::validate::{
    field_outcome, lemma_kept_value_storable, FieldError, Uploads, UploadsView,
};
use crate::json::{
    object_entries, object_get, object_insert, object_new, JsonValue, JsonValueView,
};
use crate::text::{before_dot, text_before_dot};
use crate::views::{lemma_view_each_push, view_each, view_option};

verus! {

/// A field together with the reason why what was submitted for it was refused.
#[derive(Debug, PartialEq)]
pub struct FieldIssue {
    pub key: String,
    pub error: FieldError,
}

/// What a `FieldIssue` is to the contracts: texts and lists are sequences.
pub struct FieldIssueView {
    pub key: Seq<char>,
    pub error: FieldError,
}

impl View for FieldIssue {
    type V = FieldIssueView;

    open spec fn view(&self) -> FieldIssueView {
        FieldIssueView { key: self.key@, error: self.error }
    }
}

/// `sorted` with `field` put behind the last field whose order is not greater.
pub open spec fn insert_by_order(
    sorted: Seq<SchemaFieldView>,
    field: SchemaFieldView,
) -> Seq<SchemaFieldView>
    decreases sorted.len(),
{
    if sorted.len() == 0 || sorted.last().order <= field.order {
        sorted.push(field)
    } else {
        insert_by_order(sorted.drop_last(), field).push(sorted.last())
    }
}

/// The fields in ascending order; fields of equal order stay as they were.
pub open spec fn sorted_by_order(fields: Seq<SchemaFieldView>) -> Seq<SchemaFieldView>
    decreases fields.len(),
{
    if fields.len() == 0 {
        Seq::empty()
    } else {
        insert_by_order(sorted_by_order(fields.drop_last()), fields.last())
    }
}

/// The fields that a ticket's form shows: defaults and conditions resolved
/// against `history`, skipped blocks and markers left out.
pub open spec fn effective_fields(
    fields: Seq<SchemaFieldView>,
    history: Seq<FormAnswerView>,
) -> Seq<SchemaFieldView> {
    visible_fields(resolved_fields(fields, history))
}

/// What is recorded for one field of a submission: nothing, a value to
/// keep, or an error. A required field that is missing is an error; a field
/// that is missing otherwise, or that keeps `Null`, records nothing.
pub open spec fn entry_outcome(
    field: SchemaFieldView,
    uploads: UploadsView,
    data: Map<Seq<char>, JsonValueView>,
) -> Option<Result<JsonValueView, FieldError>> {
    if !data.dom().contains(field.key) {
        if field.required {
            Some(Err(FieldError::Required))
        } else {
            None
        }
    } else {
        match field_outcome(field, uploads, data[field.key]) {
            Ok(JsonValueView::Null) => None,
            Ok(kept) => Some(Ok(kept)),
            Err(error) => Some(Err(error)),
        }
    }
}

/// The values kept for `fields`, under their keys; a later field replaces
/// what an earlier one kept under the same key.
pub open spec fn kept_entries(
    fields: Seq<SchemaFieldView>,
    uploads: UploadsView,
    data: Map<Seq<char>, JsonValueView>,
) -> Map<Seq<char>, JsonValueView>
    decreases fields.len(),
{
    if fields.len() == 0 {
        Map::empty()
    } else {
        let before = kept_entries(fields.drop_last(), uploads, data);
        match entry_outcome(fields.last(), uploads, data) {
            Some(Ok(kept)) => before.insert(fields.last().key, kept),
            _ => before,
        }
    }
}

/// The errors found for `fields`, in the order of the fields.
pub open spec fn found_issues(
    fields: Seq<SchemaFieldView>,
    uploads: UploadsView,
    data: Map<Seq<char>, JsonValueView>,
) -> Seq<FieldIssueView>
    decreases fields.len(),
{
    if fields.len() == 0 {
        Seq::empty()
    } else {
        let before = found_issues(fields.drop_last(), uploads, data);
        match entry_outcome(fields.last(), uploads, data) {
            Some(Err(error)) => before.push(FieldIssueView { key: fields.last().key, error }),
            _ => before,
        }
    }
}

/// What a form makes of a submission: every field that counts is checked;
/// if none is refused the kept values are the result, else all the errors.
pub open spec fn form_outcome(
    fields: Seq<SchemaFieldView>,
    uploads: UploadsView,
    data: Map<Seq<char>, JsonValueView>,
) -> Result<Map<Seq<char>, JsonValueView>, Seq<FieldIssueView>> {
    let visible = visible_fields(fields);
    let issues = found_issues(visible, uploads, data);
    if issues.len() == 0 {
        Ok(kept_entries(visible, uploads, data))
    } else {
        Err(issues)
    }
}

/// The outcome of a check as the contracts speak of it.
pub open spec fn outcome_view(
    outcome: Result<serde_json::Map<String, serde_json::Value>, Vec<FieldIssue>>,
) -> Result<Map<Seq<char>, JsonValueView>, Seq<FieldIssueView>> {
    match outcome {
        Ok(object) => Ok(object_entries(object)),
        Err(issues) => Err(view_each(issues@)),
    }
}

/// The names of uploads that a submission gives for the file and image
/// fields among `fields`: for each such field that holds a text, the part
/// of the text before its first dot, in the order of the fields.
pub open spec fn named_uploads(
    fields: Seq<SchemaFieldView>,
    data: Map<Seq<char>, JsonValueView>,
) -> UploadsView
    decreases fields.len(),
{
    if fields.len() == 0 {
        UploadsView { files: Seq::empty(), images: Seq::empty() }
    } else {
        let before = named_uploads(fields.drop_last(), data);
        let field = fields.last();
        if data.dom().contains(field.key) && data[field.key] is Text {
            let name = before_dot(data[field.key]->Text_0);
            if field.define is File {
                UploadsView { files: before.files.push(name), images: before.images }
            } else if field.define is Image {
                UploadsView { files: before.files, images: before.images.push(name) }
            } else {
                before
            }
        } else {
            before
        }
    }
}

/// Putting a field at the place found by walking back from the end over the
/// fields of greater order is putting it in by order.
pub proof fn lemma_insert_by_order(sorted: Seq<SchemaFieldView>, field: SchemaFieldView, at: int)
    requires
        0 <= at <= sorted.len(),
        forall|j: int| at <= j < sorted.len() ==> (#[trigger] sorted[j]).order > field.order,
        at > 0 ==> sorted[at - 1].order <= field.order,
    ensures
        insert_by_order(sorted, field) == sorted.insert(at, field),
    decreases sorted.len(),
{
    if sorted.len() == 0 || sorted.last().order <= field.order {
        if at < sorted.len() {
            assert(sorted[sorted.len() - 1].order > field.order);
        }
        assert(sorted.push(field) =~= sorted.insert(at, field));
    } else {
        let front = sorted.drop_last();
        assert forall|j: int| at <= j < front.len() implies (#[trigger] front[j]).order
            > field.order by {
            assert(front[j] == sorted[j]);
        }
        lemma_insert_by_order(front, field, at);
        assert(front.insert(at, field).push(sorted.last()) =~= sorted.insert(at, field));
    }
}

/// The fields in ascending order; fields of equal order stay as they were.
pub fn sort_fields(fields: &Vec<TicketSchemaFormField>) -> (sorted: Vec<TicketSchemaFormField>)
    ensures
        view_each(sorted@) == sorted_by_order(view_each(fields@)),
{
    let mut sorted: Vec<TicketSchemaFormField> = Vec::new();
    let mut i: usize = 0;
    proof {
        assert(view_each(sorted@) =~= sorted_by_order(view_each(fields@).take(0)));
    }
    while i < fields.len()
        invariant
            i <= fields.len(),
            sorted.len() == i,
            view_each(sorted@) == sorted_by_order(view_each(fields@).take(i as int)),
        decreases fields.len() - i,
    {
        let field = fields[i].clone();
        let mut at: usize = sorted.len();
        while at > 0 && sorted[at - 1].order > field.order
            invariant
                at <= sorted.len(),
                forall|j: int|
                    at <= j < sorted.len() ==> (#[trigger] sorted[j]).order > field.order,
            decreases at,
        {
            at -= 1;
        }
        proof {
            let views = view_each(fields@);
            let before = view_each(sorted@);
            assert(views.take(i + 1).drop_last() =~= views.take(i as int));
            assert(views.take(i + 1).last() == field@);
            assert forall|j: int| at <= j < before.len() implies (#[trigger] before[j]).order
                > field@.order by {
                assert(before[j] == sorted[j]@);
            }
            if at > 0 {
                assert(before[at - 1] == sorted[at - 1]@);
            }
            lemma_insert_by_order(before, field@, at as int);
            assert(view_each(sorted@.insert(at as int, field)) =~= before.insert(
                at as int,
                field@,
            ));
        }
        sorted.insert(at, field);
        i += 1;
    }
    proof {
        assert(view_each(fields@).take(fields.len() as int) =~= view_each(fields@));
    }
    sorted
}

impl FormSchema {
    /// The form with its fields in ascending order.
    pub fn new(form: TicketSchemaForm, fields: Vec<TicketSchemaFormField>) -> (schema: FormSchema)
        ensures
            schema@.form == form,
            schema@.fields == sorted_by_order(view_each(fields@)),
    {
        FormSchema { form, fields: sort_fields(&fields) }
    }

    /// The form as a ticket shows it: the fields in ascending order, then
    /// resolved against `history` (the answers that the asking principal may
    /// see), with skipped blocks and markers left out.
    pub fn new_with_ticket(
        history: &Vec<TicketFormAnswer>,
        form: TicketSchemaForm,
        fields: Vec<TicketSchemaFormField>,
    ) -> (schema: FormSchema)
        ensures
            schema@.form == form,
            schema@.fields == effective_fields(
                sorted_by_order(view_each(fields@)),
                view_each(history@),
            ),
    {
        let sorted = sort_fields(&fields);
        FormSchema { form, fields: FormSchema::get_processed_fields(&sorted, history) }
    }

    /// The fields that count for a ticket, in the order given: each resolved
    /// against `history`; the fields of a block whose condition fails, and
    /// all markers, left out.
    pub fn get_processed_fields(
        fields: &Vec<TicketSchemaFormField>,
        history: &Vec<TicketFormAnswer>,
    ) -> (result: Vec<TicketSchemaFormField>)
        ensures
            view_each(result@) == effective_fields(view_each(fields@), view_each(history@)),
    {
        let mut result: Vec<TicketSchemaFormField> = Vec::new();
        let mut last_falsy_if: Option<String> = None;
        let ghost resolved = resolved_fields(view_each(fields@), view_each(history@));
        let mut i: usize = 0;
        proof {
            assert(view_each(result@) =~= block_scan(resolved.take(0)).kept);
        }
        while i < fields.len()
            invariant
                i <= fields.len(),
                resolved == resolved_fields(view_each(fields@), view_each(history@)),
                block_scan(resolved.take(i as int)) == (BlockScan {
                    suppressed: view_option(last_falsy_if),
                    kept: view_each(result@),
                }),
            decreases fields.len() - i,
        {
            let raw_field = &fields[i];
            proof {
                assert(resolved.take(i + 1).drop_last() =~= resolved.take(i as int));
                assert(resolved.take(i + 1).last() == resolved_field(
                    raw_field@,
                    view_each(history@),
                ));
            }
            if last_falsy_if.is_some() {
                let closes = match (&last_falsy_if, &raw_field.define) {
                    (Some(falsy_if_key), FormFieldDefine::IfEnd { key }) => *key == *falsy_if_key,
                    _ => false,
                };
                if closes {
                    last_falsy_if = None;
                }
            } else {
                let field = raw_field.with_default_value(history);
                match &field.define {
                    FormFieldDefine::IfEqual { key, .. } => {
                        if !field.define.condition_holds() {
                            last_falsy_if = Some(key.clone());
                        }
                    },
                    FormFieldDefine::IfEnd { .. } => {},
                    _ => {
                        proof {
                            lemma_view_each_push(result@, field);
                        }
                        result.push(field);
                    },
                }
            }
            i += 1;
        }
        proof {
            assert(resolved.take(fields.len() as int) =~= resolved);
        }
        result
    }

    /// Checks a submission against the fields that count and gives the
    /// values to keep, or every error found. `uploads` names the files and
    /// images that have been uploaded.
    pub fn validate_and_normalize(
        &self,
        uploads: &Uploads,
        data: &serde_json::Map<String, serde_json::Value>,
    ) -> (outcome: Result<serde_json::Map<String, serde_json::Value>, Vec<FieldIssue>>)
        ensures
            outcome_view(outcome) == form_outcome(self@.fields, uploads@, object_entries(*data)),
    {
        let mut result = object_new();
        let mut errors: Vec<FieldIssue> = Vec::new();
        let mut last_falsy_if: Option<String> = None;
        let ghost views = view_each(self.fields@);
        let ghost entries = object_entries(*data);
        let mut i: usize = 0;
        proof {
            assert(view_each(errors@) =~= found_issues(
                block_scan(views.take(0)).kept,
                uploads@,
                entries,
            ));
        }
        while i < self.fields.len()
            invariant
                i <= self.fields.len(),
                views == view_each(self.fields@),
                entries == object_entries(*data),
                block_scan(views.take(i as int)).suppressed == view_option(last_falsy_if),
                object_entries(result) == kept_entries(
                    block_scan(views.take(i as int)).kept,
                    uploads@,
                    entries,
                ),
                view_each(errors@) == found_issues(
                    block_scan(views.take(i as int)).kept,
                    uploads@,
                    entries,
                ),
            decreases self.fields.len() - i,
        {
            let field = &self.fields[i];
            let ghost before = block_scan(views.take(i as int));
            proof {
                assert(views.take(i + 1).drop_last() =~= views.take(i as int));
                assert(views.take(i + 1).last() == field@);
                assert(block_scan(views.take(i + 1)) == block_step(before, field@));
            }
            if last_falsy_if.is_some() {
                let closes = match (&last_falsy_if, &field.define) {
                    (Some(falsy_if_key), FormFieldDefine::IfEnd { key }) => *key == *falsy_if_key,
                    _ => false,
                };
                if closes {
                    last_falsy_if = None;
                }
            } else {
                match &field.define {
                    FormFieldDefine::IfEqual { key, .. } => {
                        if !field.define.condition_holds() {
                            last_falsy_if = Some(key.clone());
                        }
                    },
                    FormFieldDefine::IfEnd { .. } => {},
                    _ => {
                        proof {
                            assert(before.kept.push(field@).drop_last() =~= before.kept);
                            assert(before.kept.push(field@).last() == field@);
                        }
                        match object_get(data, field.key.as_str()) {
                            None => {
                                if field.required {
                                    let issue = FieldIssue {
                                        key: field.key.clone(),
                                        error: FieldError::Required,
                                    };
                                    proof {
                                        lemma_view_each_push(errors@, issue);
                                    }
                                    errors.push(issue);
                                }
                            },
                            Some(user_value) => {
                                proof {
                                    lemma_kept_value_storable(field@, uploads@, user_value@);
                                }
                                match field.validate_and_normalize(uploads, &user_value) {
                                    Ok(JsonValue::Null) => {},
                                    Ok(new_value) => {
                                        object_insert(&mut result, field.key.clone(), new_value);
                                    },
                                    Err(error) => {
                                        let issue = FieldIssue { key: field.key.clone(), error };
                                        proof {
                                            lemma_view_each_push(errors@, issue);
                                        }
                                        errors.push(issue);
                                    },
                                }
                            },
                        }
                    },
                }
            }
            i += 1;
        }
        proof {
            assert(views.take(self.fields.len() as int) =~= views);
        }
        if errors.len() > 0 {
            Err(errors)
        } else {
            Ok(result)
        }
    }

    /// The names of the uploads that a submission speaks of. Which of them
    /// exist is for the caller to find out before the submission is checked.
    pub fn get_upload_names(&self, data: &serde_json::Map<String, serde_json::Value>) -> (names:
        Uploads)
        ensures
            names@ == named_uploads(self@.fields, object_entries(*data)),
    {
        let mut names = Uploads { files: Vec::new(), images: Vec::new() };
        let ghost views = view_each(self.fields@);
        let mut i: usize = 0;
        proof {
            assert(names@.files =~= named_uploads(views.take(0), object_entries(*data)).files);
            assert(names@.images =~= named_uploads(views.take(0), object_entries(*data)).images);
        }
        while i < self.fields.len()
            invariant
                i <= self.fields.len(),
                views == view_each(self.fields@),
                names@ == named_uploads(views.take(i as int), object_entries(*data)),
            decreases self.fields.len() - i,
        {
            let field = &self.fields[i];
            proof {
                assert(views.take(i + 1).drop_last() =~= views.take(i as int));
                assert(views.take(i + 1).last() == field@);
            }
            if let Some(JsonValue::Text(value)) = object_get(data, field.key.as_str()) {
                let name = text_before_dot(value.as_str());
                if field.is_file_define() {
                    proof {
                        lemma_view_each_push(names.files@, name);
                    }
                    names.files.push(name);
                } else if field.is_image_define() {
                    proof {
                        lemma_view_each_push(names.images@, name);
                    }
                    names.images.push(name);
                }
            }
            i += 1;
        }
        proof {
            assert(views.take(self.fields.len() as int) =~= views);
        }
        names
    }
}

} // verus!
