//! A form and its fields as they are stored.

use vstd::prelude::*;
use crate::fields::{FieldDefineView, FormFieldDefine, FormFieldOptionValue, OptionValueView};
use crate::views::view_each;

verus! {

/// The form of a step. Times are seconds since the Unix epoch.
#[derive(Debug, PartialEq, Eq, Clone, Copy, Structural)]
pub struct TicketSchemaForm {
    pub id: i32,
    pub ticket_schema_flow_id: i32,
    pub expired_at: Option<i64>,
    pub created_at: i64,
    pub updated_at: i64,
}

/// One field of a form. `order` places it among the fields of its form.
#[derive(Debug, PartialEq)]
pub struct TicketSchemaFormField {
    pub id: i32,
    pub ticket_schema_form_id: i32,
    pub order: i32,
    pub key: String,
    pub name_zh: String,
    pub description_zh: String,
    pub define: FormFieldDefine<FormFieldOptionValue>,
    pub required: bool,
    pub editable: bool,
    pub created_at: i64,
    pub updated_at: i64,
    pub name_en: String,
    pub description_en: String,
}

/// What a `TicketSchemaFormField` is to the contracts: texts and lists are sequences.
pub struct SchemaFieldView {
    pub id: i32,
    pub ticket_schema_form_id: i32,
    pub order: i32,
    pub key: Seq<char>,
    pub name_zh: Seq<char>,
    pub description_zh: Seq<char>,
    pub define: FieldDefineView<OptionValueView>,
    pub required: bool,
    pub editable: bool,
    pub created_at: i64,
    pub updated_at: i64,
    pub name_en: Seq<char>,
    pub description_en: Seq<char>,
}

impl View for TicketSchemaFormField {
    type V = SchemaFieldView;

    open spec fn view(&self) -> SchemaFieldView {
        SchemaFieldView {
            id: self.id,
            ticket_schema_form_id: self.ticket_schema_form_id,
            order: self.order,
            key: self.key@,
            name_zh: self.name_zh@,
            description_zh: self.description_zh@,
            define: self.define@,
            required: self.required,
            editable: self.editable,
            created_at: self.created_at,
            updated_at: self.updated_at,
            name_en: self.name_en@,
            description_en: self.description_en@,
        }
    }
}

impl Clone for TicketSchemaFormField {
    fn clone(&self) -> (copy: Self)
        ensures
            copy@ == self@,
    {
        TicketSchemaFormField {
            id: self.id,
            ticket_schema_form_id: self.ticket_schema_form_id,
            order: self.order,
            key: self.key.clone(),
            name_zh: self.name_zh.clone(),
            description_zh: self.description_zh.clone(),
            define: self.define.clone(),
            required: self.required,
            editable: self.editable,
            created_at: self.created_at,
            updated_at: self.updated_at,
            name_en: self.name_en.clone(),
            description_en: self.description_en.clone(),
        }
    }
}

impl TicketSchemaFormField {
    pub fn is_file_define(&self) -> (file: bool)
        ensures
            file == (self@.define is File),
    {
        match self.define {
            FormFieldDefine::File { .. } => true,
            _ => false,
        }
    }

    pub fn is_image_define(&self) -> (image: bool)
        ensures
            image == (self@.define is Image),
    {
        match self.define {
            FormFieldDefine::Image { .. } => true,
            _ => false,
        }
    }
}

/// A form together with its fields.
#[derive(Debug, PartialEq)]
pub struct FormSchema {
    pub form: TicketSchemaForm,
    pub fields: Vec<TicketSchemaFormField>,
}

/// What a `FormSchema` is to the contracts: texts and lists are sequences.
pub struct FormSchemaView {
    pub form: TicketSchemaForm,
    pub fields: Seq<SchemaFieldView>,
}

impl View for FormSchema {
    type V = FormSchemaView;

    open spec fn view(&self) -> FormSchemaView {
        FormSchemaView { form: self.form, fields: view_each(self.fields@) }
    }
}

/// A form together with one of its fields.
#[derive(Debug, PartialEq)]
pub struct PartFormSchema {
    pub form: TicketSchemaForm,
    pub field: TicketSchemaFormField,
}

} // verus!
