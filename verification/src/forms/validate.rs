//! The rules that a submitted value must meet, field by field and for a
//! whole form.

use vstd::prelude::*;
use crate::fields::{
    FieldDefineView, FieldOptionView, FormFieldDefine, FormFieldOption, FormFieldOptionValue,
    OptionValueView,
};
use crate::forms::schema::{SchemaFieldView, TicketSchemaFormField};
use crate::json::{JsonItem, JsonItemView, JsonValue, JsonValueView};
use crate::text::{before_dot, count_pieces, piece_count, text_before_dot, trim, trimmed};
use crate::views::{view_each, view_result};

verus! {

/// Why a submitted value was refused.
#[derive(Debug, PartialEq, Eq, Clone, Copy, Structural)]
pub enum FieldError {
    /// A required field was left out or left empty.
    Required,
    /// The text is longer than the field allows.
    TextTooLong,
    /// The text has more lines than the field allows.
    TextTooManyLines,
    /// The value is none of the field's options.
    NotValidChoice,
    /// More options were chosen than the field allows.
    TooManyChoice,
    /// No uploaded file goes by the name given.
    NotUploadFile,
    /// No uploaded image goes by the name given.
    NotUploadImage,
    /// The value has a shape that this kind of field does not take.
    Unknown,
}

impl FieldError {
    /// The key of the message that tells a user of this error.
    pub fn message_key(&self) -> (key: &'static str)
        ensures
            key@ == match *self {
                FieldError::Required => "ticket.rules.required"@,
                FieldError::TextTooLong => "ticket.rules.text_too_long"@,
                FieldError::TextTooManyLines => "ticket.rules.text_too_many_lines"@,
                FieldError::NotValidChoice => "ticket.rules.not_valid_choice"@,
                FieldError::TooManyChoice => "ticket.rules.too_many_choice"@,
                FieldError::NotUploadFile => "ticket.rules.not_upload_file"@,
                FieldError::NotUploadImage => "ticket.rules.not_upload_image"@,
                FieldError::Unknown => "ticket.rules.unknown"@,
            },
    {
        match self {
            FieldError::Required => "ticket.rules.required",
            FieldError::TextTooLong => "ticket.rules.text_too_long",
            FieldError::TextTooManyLines => "ticket.rules.text_too_many_lines",
            FieldError::NotValidChoice => "ticket.rules.not_valid_choice",
            FieldError::TooManyChoice => "ticket.rules.too_many_choice",
            FieldError::NotUploadFile => "ticket.rules.not_upload_file",
            FieldError::NotUploadImage => "ticket.rules.not_upload_image",
            FieldError::Unknown => "ticket.rules.unknown",
        }
    }
}

/// The names of the files and images that have been uploaded.
#[derive(Debug, PartialEq)]
pub struct Uploads {
    pub files: Vec<String>,
    pub images: Vec<String>,
}

/// What a `Uploads` is to the contracts: texts and lists are sequences.
pub struct UploadsView {
    pub files: Seq<Seq<char>>,
    pub images: Seq<Seq<char>>,
}

impl View for Uploads {
    type V = UploadsView;

    open spec fn view(&self) -> UploadsView {
        UploadsView { files: view_each(self.files@), images: view_each(self.images@) }
    }
}

/// The separator of lines.
pub open spec fn newline() -> Seq<char> {
    seq!['\n']
}

/// Whether an option stands for the submitted value.
pub open spec fn option_is_value(option: OptionValueView, value: JsonValueView) -> bool {
    match (option, value) {
        (OptionValueView::String(a), JsonValueView::Text(b)) => a == b,
        (OptionValueView::Integer(a), JsonValueView::Integer(b)) => a == b,
        _ => false,
    }
}

/// Whether an option stands for the submitted list element.
pub open spec fn option_is_item(option: OptionValueView, item: JsonItemView) -> bool {
    match (option, item) {
        (OptionValueView::String(a), JsonItemView::Text(b)) => a == b,
        (OptionValueView::Integer(a), JsonItemView::Integer(b)) => a == b,
        _ => false,
    }
}

/// Whether the value is one of the options.
pub open spec fn offers_value(
    options: Seq<FieldOptionView<OptionValueView>>,
    value: JsonValueView,
) -> bool {
    exists|i: int| 0 <= i < options.len() && option_is_value(#[trigger] options[i].value, value)
}

/// Whether the list element is one of the options.
pub open spec fn offers_item(
    options: Seq<FieldOptionView<OptionValueView>>,
    item: JsonItemView,
) -> bool {
    exists|i: int| 0 <= i < options.len() && option_is_item(#[trigger] options[i].value, item)
}

/// Whether every element of the list is one of the options.
pub open spec fn offers_all(
    options: Seq<FieldOptionView<OptionValueView>>,
    items: Seq<JsonItemView>,
) -> bool {
    forall|j: int| 0 <= j < items.len() ==> offers_item(options, #[trigger] items[j])
}

/// What a text field makes of a text that has been trimmed: the text,
/// unless it is empty though required, or of more than `max_texts`
/// characters, or
/// of more than `max_lines` lines where lines are limited.
pub open spec fn trimmed_text_outcome(
    text: Seq<char>,
    required: bool,
    max_texts: u32,
    max_lines: Option<u32>,
) -> Result<JsonValueView, FieldError> {
    if text.len() == 0 && required {
        Err(FieldError::Required)
    } else if text.len() > max_texts {
        Err(FieldError::TextTooLong)
    } else if max_lines matches Some(lines) && piece_count(text, newline()) > lines {
        Err(FieldError::TextTooManyLines)
    } else {
        Ok(JsonValueView::Text(text))
    }
}

/// What a text field makes of a submitted text: it is trimmed, and then
/// measured against the limits of the field.
pub open spec fn text_outcome(
    value: Seq<char>,
    required: bool,
    max_texts: u32,
    max_lines: Option<u32>,
) -> Result<JsonValueView, FieldError> {
    trimmed_text_outcome(trimmed(value), required, max_texts, max_lines)
}

/// What a multiple-choice field makes of a submitted list.
pub open spec fn choices_outcome(
    items: Seq<JsonItemView>,
    required: bool,
    options: Seq<FieldOptionView<OptionValueView>>,
    max_options: u32,
) -> Result<JsonValueView, FieldError> {
    if items.len() == 0 && required {
        Err(FieldError::Required)
    } else if items.len() > max_options {
        Err(FieldError::TooManyChoice)
    } else if !offers_all(options, items) {
        Err(FieldError::NotValidChoice)
    } else {
        Ok(JsonValueView::List(items))
    }
}

/// What a field makes of the value submitted for it: the value to keep, or
/// the reason to refuse it. A field that cannot be edited keeps nothing,
/// whatever was submitted. `Null` stands for "nothing to keep".
pub open spec fn field_outcome(
    field: SchemaFieldView,
    uploads: UploadsView,
    data: JsonValueView,
) -> Result<JsonValueView, FieldError> {
    if !field.editable {
        Ok(JsonValueView::Null)
    } else {
        match data {
            JsonValueView::Null => if field.required {
                Err(FieldError::Required)
            } else {
                Ok(JsonValueView::Null)
            },
            JsonValueView::Bool(_) => if field.define is Bool {
                Ok(data)
            } else {
                Err(FieldError::Unknown)
            },
            JsonValueView::Text(value) => match field.define {
                FieldDefineView::SingleLineText { max_texts, .. } => text_outcome(
                    value,
                    field.required,
                    max_texts,
                    None,
                ),
                FieldDefineView::MultiLineText { max_texts, max_lines, .. } => text_outcome(
                    value,
                    field.required,
                    max_texts,
                    Some(max_lines),
                ),
                FieldDefineView::SingleChoice { options, .. } => if offers_value(options, data) {
                    Ok(data)
                } else {
                    Err(FieldError::NotValidChoice)
                },
                FieldDefineView::File { .. } => if uploads.files.contains(before_dot(value)) {
                    Ok(data)
                } else {
                    Err(FieldError::NotUploadFile)
                },
                FieldDefineView::Image { .. } => if uploads.images.contains(before_dot(value)) {
                    Ok(data)
                } else {
                    Err(FieldError::NotUploadImage)
                },
                _ => Err(FieldError::Unknown),
            },
            JsonValueView::Integer(_) | JsonValueView::Number => match field.define {
                FieldDefineView::SingleChoice { options, .. } => if offers_value(options, data) {
                    Ok(data)
                } else {
                    Err(FieldError::NotValidChoice)
                },
                _ => Err(FieldError::Unknown),
            },
            JsonValueView::List(items) => match field.define {
                FieldDefineView::MultipleChoice { options, max_options, .. } => choices_outcome(
                    items,
                    field.required,
                    options,
                    max_options,
                ),
                _ => Err(FieldError::Unknown),
            },
            JsonValueView::Object => Err(FieldError::Unknown),
        }
    }
}

/// A value that is kept can be stored in a JSON object as it is.
pub proof fn lemma_kept_value_storable(
    field: SchemaFieldView,
    uploads: UploadsView,
    data: JsonValueView,
)
    ensures
        field_outcome(field, uploads, data) matches Ok(kept) ==> kept.storable(),
{
    if let Ok(kept) = field_outcome(field, uploads, data) {
        if let JsonValueView::List(items) = kept {
            if let FieldDefineView::MultipleChoice { options, .. } = field.define {
                assert forall|i: int| 0 <= i < items.len() implies !(
                #[trigger] items[i] is Other) by {
                    assert(offers_item(options, items[i]));
                }
            }
        }
    }
}

/// Whether `id` is one of `ids`.
pub fn has_id(ids: &Vec<String>, id: &String) -> (found: bool)
    ensures
        found == view_each(ids@).contains(id@),
{
    let mut i: usize = 0;
    while i < ids.len()
        invariant
            i <= ids.len(),
            forall|j: int| 0 <= j < i ==> ids[j]@ != id@,
        decreases ids.len() - i,
    {
        if ids[i] == *id {
            proof {
                assert(view_each(ids@)[i as int] == id@);
            }
            return true;
        }
        i += 1;
    }
    false
}

/// Whether the submitted value is one of the options.
pub fn options_offer_value(
    options: &Vec<FormFieldOption<FormFieldOptionValue>>,
    value: &JsonValue,
) -> (offered: bool)
    ensures
        offered == offers_value(view_each(options@), value@),
{
    let mut i: usize = 0;
    while i < options.len()
        invariant
            i <= options.len(),
            forall|j: int| 0 <= j < i ==> !option_is_value(options[j]@.value, value@),
        decreases options.len() - i,
    {
        let same = match (&options[i].value, value) {
            (FormFieldOptionValue::String(a), JsonValue::Text(b)) => *a == *b,
            (FormFieldOptionValue::Integer(a), JsonValue::Integer(b)) => *a == *b,
            _ => false,
        };
        if same {
            proof {
                assert(option_is_value(view_each(options@)[i as int].value, value@));
            }
            return true;
        }
        i += 1;
    }
    proof {
        assert forall|j: int| 0 <= j < options.len() implies !option_is_value(
            #[trigger] view_each(options@)[j].value,
            value@,
        ) by {
            assert(view_each(options@)[j] == options[j]@);
        }
    }
    false
}

/// Whether the submitted list element is one of the options.
pub fn options_offer_item(
    options: &Vec<FormFieldOption<FormFieldOptionValue>>,
    item: &JsonItem,
) -> (offered: bool)
    ensures
        offered == offers_item(view_each(options@), item@),
{
    let mut i: usize = 0;
    while i < options.len()
        invariant
            i <= options.len(),
            forall|j: int| 0 <= j < i ==> !option_is_item(options[j]@.value, item@),
        decreases options.len() - i,
    {
        let same = match (&options[i].value, item) {
            (FormFieldOptionValue::String(a), JsonItem::Text(b)) => *a == *b,
            (FormFieldOptionValue::Integer(a), JsonItem::Integer(b)) => *a == *b,
            _ => false,
        };
        if same {
            proof {
                assert(option_is_item(view_each(options@)[i as int].value, item@));
            }
            return true;
        }
        i += 1;
    }
    proof {
        assert forall|j: int| 0 <= j < options.len() implies !option_is_item(
            #[trigger] view_each(options@)[j].value,
            item@,
        ) by {
            assert(view_each(options@)[j] == options[j]@);
        }
    }
    false
}

/// Whether every element of the submitted list is one of the options.
pub fn options_offer_all(
    options: &Vec<FormFieldOption<FormFieldOptionValue>>,
    items: &Vec<JsonItem>,
) -> (offered: bool)
    ensures
        offered == offers_all(view_each(options@), view_each(items@)),
{
    let mut j: usize = 0;
    while j < items.len()
        invariant
            j <= items.len(),
            forall|k: int| 0 <= k < j ==> offers_item(view_each(options@), items[k]@),
        decreases items.len() - j,
    {
        if !options_offer_item(options, &items[j]) {
            proof {
                assert(view_each(items@)[j as int] == items[j as int]@);
            }
            return false;
        }
        j += 1;
    }
    proof {
        assert forall|k: int| 0 <= k < view_each(items@).len() implies offers_item(
            view_each(options@),
            #[trigger] view_each(items@)[k],
        ) by {
            assert(view_each(items@)[k] == items[k]@);
        }
    }
    true
}

/// What a text field makes of a text that has been trimmed.
pub fn check_trimmed_text(
    text: String,
    required: bool,
    max_texts: u32,
    max_lines: Option<u32>,
) -> (outcome: Result<JsonValue, FieldError>)
    ensures
        view_result(outcome) == trimmed_text_outcome(text@, required, max_texts, max_lines),
{
    if text.as_str().is_empty() && required {
        return Err(FieldError::Required);
    }
    if text.as_str().unicode_len() > max_texts as usize {
        return Err(FieldError::TextTooLong);
    }
    if let Some(lines) = max_lines {
        proof {
            reveal_strlit("\n");
            assert("\n"@ =~= newline());
        }
        if count_pieces(text.as_str(), "\n") > lines as u128 {
            return Err(FieldError::TextTooManyLines);
        }
    }
    Ok(JsonValue::Text(text))
}

/// What a text field makes of a submitted text.
pub fn check_text(value: &str, required: bool, max_texts: u32, max_lines: Option<u32>) -> (outcome:
    Result<JsonValue, FieldError>)
    ensures
        view_result(outcome) == text_outcome(value@, required, max_texts, max_lines),
{
    check_trimmed_text(trim(value), required, max_texts, max_lines)
}

impl TicketSchemaFormField {
    /// Checks the value submitted for this field and gives the value to keep.
    /// `uploads` names the files and images that have been uploaded.
    pub fn validate_and_normalize(&self, uploads: &Uploads, data: &JsonValue) -> (outcome: Result<
        JsonValue,
        FieldError,
    >)
        ensures
            view_result(outcome) == field_outcome(self@, uploads@, data@),
    {
        if !self.editable {
            return Ok(JsonValue::Null);
        }
        match data {
            JsonValue::Null => {
                if self.required {
                    Err(FieldError::Required)
                } else {
                    Ok(JsonValue::Null)
                }
            },
            JsonValue::Bool(_) => {
                match self.define {
                    FormFieldDefine::Bool { .. } => Ok(data.clone()),
                    _ => Err(FieldError::Unknown),
                }
            },
            JsonValue::Text(value) => {
                match &self.define {
                    FormFieldDefine::SingleLineText { max_texts, .. } => check_text(
                        value.as_str(),
                        self.required,
                        *max_texts,
                        None,
                    ),
                    FormFieldDefine::MultiLineText { max_texts, max_lines, .. } => check_text(
                        value.as_str(),
                        self.required,
                        *max_texts,
                        Some(*max_lines),
                    ),
                    FormFieldDefine::SingleChoice { options, .. } => {
                        if !options_offer_value(options, data) {
                            return Err(FieldError::NotValidChoice);
                        }
                        Ok(data.clone())
                    },
                    FormFieldDefine::File { .. } => {
                        let id = text_before_dot(value.as_str());
                        if !has_id(&uploads.files, &id) {
                            return Err(FieldError::NotUploadFile);
                        }
                        Ok(data.clone())
                    },
                    FormFieldDefine::Image { .. } => {
                        let id = text_before_dot(value.as_str());
                        if !has_id(&uploads.images, &id) {
                            return Err(FieldError::NotUploadImage);
                        }
                        Ok(data.clone())
                    },
                    _ => Err(FieldError::Unknown),
                }
            },
            JsonValue::Integer(_) | JsonValue::Number => {
                match &self.define {
                    FormFieldDefine::SingleChoice { options, .. } => {
                        if !options_offer_value(options, data) {
                            return Err(FieldError::NotValidChoice);
                        }
                        Ok(data.clone())
                    },
                    _ => Err(FieldError::Unknown),
                }
            },
            JsonValue::List(items) => {
                match &self.define {
                    FormFieldDefine::MultipleChoice { options, max_options, .. } => {
                        if items.len() == 0 && self.required {
                            return Err(FieldError::Required);
                        }
                        if items.len() > *max_options as usize {
                            return Err(FieldError::TooManyChoice);
                        }
                        if !options_offer_all(options, items) {
                            return Err(FieldError::NotValidChoice);
                        }
                        Ok(data.clone())
                    },
                    _ => Err(FieldError::Unknown),
                }
            },
            JsonValue::Object => Err(FieldError::Unknown),
        }
    }
}

} // verus!
