//! Resolving the defaults of fields against the answers given earlier.

use vstd::prelude::*;
use crate::fields::{
    clone_file_mimes, clone_image_mimes, clone_options, clone_values, FieldDefaultView,
    FieldDefineView, FormFieldDefault, FormFieldDefine, FormFieldOptionValue, OptionValueView,
};
use crate::forms::answers::{answered_value, FormAnswerView, TicketFormAnswer};
use crate::forms::schema::{SchemaFieldView, TicketSchemaFormField};
use crate::views::{view_each, view_option};

verus! {

/// The default with its answer looked up: a fixed value stays as it is; a
/// bound default gets the value that the most recent matching answer holds
/// under its key, or none.
pub open spec fn resolved_default(
    default: FieldDefaultView,
    history: Seq<FormAnswerView>,
) -> FieldDefaultView {
    match default {
        FieldDefaultView::Static(_) => default,
        FieldDefaultView::Dynamic { schema_form_id, flow_id, field_key, value } => {
            FieldDefaultView::Dynamic {
                schema_form_id,
                flow_id,
                field_key,
                value: answered_value(history, schema_form_id, flow_id, field_key),
            }
        },
    }
}

/// A default that may be absent, with its answer looked up.
pub open spec fn resolved_optional(
    default: Option<FieldDefaultView>,
    history: Seq<FormAnswerView>,
) -> Option<FieldDefaultView> {
    match default {
        Some(d) => Some(resolved_default(d, history)),
        None => None,
    }
}

/// The definition with its default, or the source of its condition, looked
/// up. Nothing else changes.
pub open spec fn resolved_define(
    define: FieldDefineView<OptionValueView>,
    history: Seq<FormAnswerView>,
) -> FieldDefineView<OptionValueView> {
    match define {
        FieldDefineView::SingleLineText { text_type, max_texts, default } => {
            FieldDefineView::SingleLineText {
                text_type,
                max_texts,
                default: resolved_optional(default, history),
            }
        },
        FieldDefineView::MultiLineText { max_texts, max_lines, default } => {
            FieldDefineView::MultiLineText {
                max_texts,
                max_lines,
                default: resolved_optional(default, history),
            }
        },
        FieldDefineView::SingleChoice { options, default } => FieldDefineView::SingleChoice {
            options,
            default: resolved_optional(default, history),
        },
        FieldDefineView::MultipleChoice { options, max_options, is_checkbox, default } => {
            FieldDefineView::MultipleChoice {
                options,
                max_options,
                is_checkbox,
                default: resolved_optional(default, history),
            }
        },
        FieldDefineView::Bool { default } => FieldDefineView::Bool {
            default: resolved_optional(default, history),
        },
        FieldDefineView::Image {
            max_size,
            min_width,
            max_width,
            min_height,
            max_height,
            mimes,
            default,
        } => FieldDefineView::Image {
            max_size,
            min_width,
            max_width,
            min_height,
            max_height,
            mimes,
            default: resolved_optional(default, history),
        },
        FieldDefineView::File { max_size, mimes, default } => FieldDefineView::File {
            max_size,
            mimes,
            default: resolved_optional(default, history),
        },
        FieldDefineView::IfEqual { key, from, value } => FieldDefineView::IfEqual {
            key,
            from: resolved_default(from, history),
            value,
        },
        FieldDefineView::IfEnd { key } => define,
    }
}

/// The field with its definition resolved.
pub open spec fn resolved_field(
    field: SchemaFieldView,
    history: Seq<FormAnswerView>,
) -> SchemaFieldView {
    SchemaFieldView { define: resolved_define(field.define, history), ..field }
}

/// Every field with its definition resolved.
pub open spec fn resolved_fields(
    fields: Seq<SchemaFieldView>,
    history: Seq<FormAnswerView>,
) -> Seq<SchemaFieldView> {
    Seq::new(fields.len(), |i: int| resolved_field(fields[i], history))
}

impl FormFieldDefault {
    /// The default with its answer looked up in `history`, the answers that
    /// the asking principal may see.
    pub fn resolve_default(&self, history: &Vec<TicketFormAnswer>) -> (resolved: FormFieldDefault)
        ensures
            resolved@ == resolved_default(self@, view_each(history@)),
    {
        match self {
            FormFieldDefault::Static(_) => self.clone(),
            FormFieldDefault::Dynamic { schema_form_id, flow_id, field_key, .. } => {
                FormFieldDefault::Dynamic {
                    schema_form_id: *schema_form_id,
                    flow_id: *flow_id,
                    field_key: field_key.clone(),
                    value: TicketFormAnswer::get_field_value(
                        history,
                        *schema_form_id,
                        *flow_id,
                        field_key.as_str(),
                    ),
                }
            },
        }
    }
}

/// A default that may be absent, with its answer looked up.
pub fn resolve_optional_default(
    default: &Option<FormFieldDefault>,
    history: &Vec<TicketFormAnswer>,
) -> (resolved: Option<FormFieldDefault>)
    ensures
        view_option(resolved) == resolved_optional(view_option(*default), view_each(history@)),
{
    match default {
        Some(d) => Some(d.resolve_default(history)),
        None => None,
    }
}

impl TicketSchemaFormField {
    /// The field's definition with its default, or the source of its
    /// condition, looked up in `history`.
    pub fn get_define_with_default_value(&self, history: &Vec<TicketFormAnswer>) -> (define:
        FormFieldDefine<FormFieldOptionValue>)
        ensures
            define@ == resolved_define(self@.define, view_each(history@)),
    {
        match &self.define {
            FormFieldDefine::SingleLineText { max_texts, text_type, default } => {
                FormFieldDefine::SingleLineText {
                    default: resolve_optional_default(default, history),
                    text_type: *text_type,
                    max_texts: *max_texts,
                }
            },
            FormFieldDefine::MultiLineText { max_texts, max_lines, default } => {
                FormFieldDefine::MultiLineText {
                    default: resolve_optional_default(default, history),
                    max_texts: *max_texts,
                    max_lines: *max_lines,
                }
            },
            FormFieldDefine::SingleChoice { options, default } => FormFieldDefine::SingleChoice {
                default: resolve_optional_default(default, history),
                options: clone_options(options),
            },
            FormFieldDefine::MultipleChoice { default, options, max_options, is_checkbox } => {
                FormFieldDefine::MultipleChoice {
                    default: resolve_optional_default(default, history),
                    options: clone_options(options),
                    max_options: *max_options,
                    is_checkbox: *is_checkbox,
                }
            },
            FormFieldDefine::Bool { default } => FormFieldDefine::Bool {
                default: resolve_optional_default(default, history),
            },
            FormFieldDefine::Image {
                default,
                max_size,
                min_width,
                max_width,
                min_height,
                max_height,
                mimes,
            } => FormFieldDefine::Image {
                default: resolve_optional_default(default, history),
                max_size: *max_size,
                min_width: *min_width,
                max_width: *max_width,
                min_height: *min_height,
                max_height: *max_height,
                mimes: clone_image_mimes(mimes),
            },
            FormFieldDefine::File { default, max_size, mimes } => FormFieldDefine::File {
                default: resolve_optional_default(default, history),
                max_size: *max_size,
                mimes: clone_file_mimes(mimes),
            },
            FormFieldDefine::IfEqual { key, from, value } => FormFieldDefine::IfEqual {
                key: key.clone(),
                from: from.resolve_default(history),
                value: clone_values(value),
            },
            FormFieldDefine::IfEnd { key } => FormFieldDefine::IfEnd { key: key.clone() },
        }
    }

    /// The field with its definition resolved against `history`.
    pub fn with_default_value(&self, history: &Vec<TicketFormAnswer>) -> (field:
        TicketSchemaFormField)
        ensures
            field@ == resolved_field(self@, view_each(history@)),
    {
        TicketSchemaFormField {
            id: self.id,
            ticket_schema_form_id: self.ticket_schema_form_id,
            order: self.order,
            key: self.key.clone(),
            name_zh: self.name_zh.clone(),
            description_zh: self.description_zh.clone(),
            define: self.get_define_with_default_value(history),
            required: self.required,
            editable: self.editable,
            created_at: self.created_at,
            updated_at: self.updated_at,
            name_en: self.name_en.clone(),
            description_en: self.description_en.clone(),
        }
    }
}

} // verus!
