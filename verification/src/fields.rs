//! The kinds of form field, their limits, and where a field's default comes from.

use vstd::prelude::*;
use crate::mime::{FileMime, ImageMime};
use crate::views::{lemma_view_each_eq, view_each, view_option};

verus! {

/// The value of one option of a choice field.
#[derive(Debug, PartialEq)]
pub enum FormFieldOptionValue {
    Integer(i64),
    String(String),
}

/// What a `FormFieldOptionValue` is to the contracts: texts and lists are sequences.
pub enum OptionValueView {
    Integer(i64),
    String(Seq<char>),
}

impl View for FormFieldOptionValue {
    type V = OptionValueView;

    open spec fn view(&self) -> OptionValueView {
        match self {
            FormFieldOptionValue::Integer(i) => OptionValueView::Integer(*i),
            FormFieldOptionValue::String(s) => OptionValueView::String(s@),
        }
    }
}

impl Clone for FormFieldOptionValue {
    fn clone(&self) -> (copy: Self)
        ensures
            copy@ == self@,
    {
        match self {
            FormFieldOptionValue::Integer(i) => FormFieldOptionValue::Integer(*i),
            FormFieldOptionValue::String(s) => FormFieldOptionValue::String(s.clone()),
        }
    }
}

impl FormFieldOptionValue {
    /// Whether two option values are the same value.
    pub fn same_as(&self, other: &FormFieldOptionValue) -> (same: bool)
        ensures
            same == (self@ == other@),
    {
        match (self, other) {
            (FormFieldOptionValue::Integer(a), FormFieldOptionValue::Integer(b)) => *a == *b,
            (FormFieldOptionValue::String(a), FormFieldOptionValue::String(b)) => *a == *b,
            _ => false,
        }
    }
}

/// A value that a field can have as its default, or that a condition compares.
#[derive(Debug, PartialEq)]
pub enum FormFieldValue {
    Integer(i32),
    String(String),
    Bool(bool),
    Array(Vec<FormFieldOptionValue>),
}

/// What a `FormFieldValue` is to the contracts: texts and lists are sequences.
pub enum FieldValueView {
    Integer(i32),
    String(Seq<char>),
    Bool(bool),
    Array(Seq<OptionValueView>),
}

impl View for FormFieldValue {
    type V = FieldValueView;

    open spec fn view(&self) -> FieldValueView {
        match self {
            FormFieldValue::Integer(i) => FieldValueView::Integer(*i),
            FormFieldValue::String(s) => FieldValueView::String(s@),
            FormFieldValue::Bool(b) => FieldValueView::Bool(*b),
            FormFieldValue::Array(items) => FieldValueView::Array(view_each(items@)),
        }
    }
}

/// A copy of a list of option values.
pub fn clone_option_values(items: &Vec<FormFieldOptionValue>) -> (copy: Vec<FormFieldOptionValue>)
    ensures
        view_each(copy@) == view_each(items@),
{
    let mut copy: Vec<FormFieldOptionValue> = Vec::new();
    let mut i: usize = 0;
    while i < items.len()
        invariant
            i <= items.len(),
            copy.len() == i,
            forall|j: int| 0 <= j < i ==> copy[j]@ == items[j]@,
        decreases items.len() - i,
    {
        copy.push(items[i].clone());
        i += 1;
    }
    proof {
        lemma_view_each_eq(copy@, items@);
    }
    copy
}

impl Clone for FormFieldValue {
    fn clone(&self) -> (copy: Self)
        ensures
            copy@ == self@,
    {
        match self {
            FormFieldValue::Integer(i) => FormFieldValue::Integer(*i),
            FormFieldValue::String(s) => FormFieldValue::String(s.clone()),
            FormFieldValue::Bool(b) => FormFieldValue::Bool(*b),
            FormFieldValue::Array(items) => FormFieldValue::Array(clone_option_values(items)),
        }
    }
}

impl FormFieldValue {
    /// Whether two values are the same value.
    pub fn same_as(&self, other: &FormFieldValue) -> (same: bool)
        ensures
            same == (self@ == other@),
    {
        match (self, other) {
            (FormFieldValue::Integer(a), FormFieldValue::Integer(b)) => *a == *b,
            (FormFieldValue::String(a), FormFieldValue::String(b)) => *a == *b,
            (FormFieldValue::Bool(a), FormFieldValue::Bool(b)) => *a == *b,
            (FormFieldValue::Array(a), FormFieldValue::Array(b)) => {
                if a.len() != b.len() {
                    proof {
                        assert(view_each(a@).len() != view_each(b@).len());
                    }
                    return false;
                }
                let mut i: usize = 0;
                while i < a.len()
                    invariant
                        i <= a.len(),
                        a.len() == b.len(),
                        self@ == FieldValueView::Array(view_each(a@)),
                        other@ == FieldValueView::Array(view_each(b@)),
                        forall|j: int| 0 <= j < i ==> a[j]@ == b[j]@,
                    decreases a.len() - i,
                {
                    if !a[i].same_as(&b[i]) {
                        proof {
                            assert(view_each(a@)[i as int] == a[i as int]@);
                            assert(view_each(b@)[i as int] == b[i as int]@);
                        }
                        return false;
                    }
                    i += 1;
                }
                proof {
                    lemma_view_each_eq(a@, b@);
                }
                true
            },
            _ => false,
        }
    }

    /// Whether the value is one of `list`.
    pub fn is_one_of(&self, list: &Vec<FormFieldValue>) -> (found: bool)
        ensures
            found == view_each(list@).contains(self@),
    {
        let mut i: usize = 0;
        while i < list.len()
            invariant
                i <= list.len(),
                forall|j: int| 0 <= j < i ==> list[j]@ != self@,
            decreases list.len() - i,
        {
            if self.same_as(&list[i]) {
                proof {
                    assert(view_each(list@)[i as int] == self@);
                }
                return true;
            }
            i += 1;
        }
        false
    }
}

/// Where the default of a field comes from.
#[derive(Debug, PartialEq)]
pub enum FormFieldDefault {
    /// A value fixed in the schema.
    Static(FormFieldValue),
    /// The answer that an earlier form holds under `field_key`. `value` is
    /// that answer once it has been looked up, and `None` before that or
    /// when there is none.
    Dynamic { schema_form_id: i32, flow_id: Option<i32>, field_key: String, value: Option<
        FormFieldValue,
    > },
}

/// What a `FormFieldDefault` is to the contracts: texts and lists are sequences.
pub enum FieldDefaultView {
    Static(FieldValueView),
    Dynamic {
        schema_form_id: i32,
        flow_id: Option<i32>,
        field_key: Seq<char>,
        value: Option<FieldValueView>,
    },
}

impl View for FormFieldDefault {
    type V = FieldDefaultView;

    open spec fn view(&self) -> FieldDefaultView {
        match self {
            FormFieldDefault::Static(v) => FieldDefaultView::Static(v@),
            FormFieldDefault::Dynamic { schema_form_id, flow_id, field_key, value } => {
                FieldDefaultView::Dynamic {
                    schema_form_id: *schema_form_id,
                    flow_id: *flow_id,
                    field_key: field_key@,
                    value: view_option(*value),
                }
            },
        }
    }
}

/// A copy of a value that may be absent.
pub fn clone_optional_value(value: &Option<FormFieldValue>) -> (copy: Option<FormFieldValue>)
    ensures
        view_option(copy) == view_option(*value),
{
    match value {
        Some(v) => Some(v.clone()),
        None => None,
    }
}

impl Clone for FormFieldDefault {
    fn clone(&self) -> (copy: Self)
        ensures
            copy@ == self@,
    {
        match self {
            FormFieldDefault::Static(v) => FormFieldDefault::Static(v.clone()),
            FormFieldDefault::Dynamic { schema_form_id, flow_id, field_key, value } => {
                FormFieldDefault::Dynamic {
                    schema_form_id: *schema_form_id,
                    flow_id: *flow_id,
                    field_key: field_key.clone(),
                    value: clone_optional_value(value),
                }
            },
        }
    }
}

impl FieldDefaultView {
    /// The value that the default stands for: the fixed value, or the answer
    /// that was looked up.
    pub open spec fn resolved(self) -> Option<FieldValueView> {
        match self {
            FieldDefaultView::Static(v) => Some(v),
            FieldDefaultView::Dynamic { value, .. } => value,
        }
    }

    /// The same default with `found` as the answer that was looked up; a
    /// fixed value stays as it is.
    pub open spec fn with_answer(self, found: Option<FieldValueView>) -> FieldDefaultView {
        match self {
            FieldDefaultView::Static(v) => self,
            FieldDefaultView::Dynamic { schema_form_id, flow_id, field_key, value } => {
                FieldDefaultView::Dynamic { schema_form_id, flow_id, field_key, value: found }
            },
        }
    }
}

/// One option of a choice field: what is shown, and the value it stands for.
#[derive(Debug, PartialEq)]
pub struct FormFieldOption<T> {
    pub text: String,
    pub value: T,
}

/// What a `FormFieldOption` is to the contracts: texts and lists are sequences.
pub struct FieldOptionView<V> {
    pub text: Seq<char>,
    pub value: V,
}

impl<T: View> View for FormFieldOption<T> {
    type V = FieldOptionView<T::V>;

    open spec fn view(&self) -> FieldOptionView<T::V> {
        FieldOptionView { text: self.text@, value: self.value@ }
    }
}

impl Clone for FormFieldOption<FormFieldOptionValue> {
    fn clone(&self) -> (copy: Self)
        ensures
            copy@ == self@,
    {
        FormFieldOption { text: self.text.clone(), value: self.value.clone() }
    }
}

/// What a single-line text field is meant to hold.
#[derive(Debug, PartialEq, Eq, Clone, Copy, Structural)]
pub enum FormTextFieldType {
    String,
    Email,
    Url,
}

/// The definition of a field: its kind and that kind's limits, or one of the
/// two markers that open and close a conditional block.
#[derive(Debug, PartialEq)]
#[allow(inconsistent_fields)]
pub enum FormFieldDefine<OV> {
    SingleLineText { text_type: Option<FormTextFieldType>, max_texts: u32, default: Option<
        FormFieldDefault,
    > },
    MultiLineText { max_texts: u32, max_lines: u32, default: Option<FormFieldDefault> },
    SingleChoice { options: Vec<FormFieldOption<OV>>, default: Option<FormFieldDefault> },
    MultipleChoice {
        options: Vec<FormFieldOption<OV>>,
        max_options: u32,
        is_checkbox: bool,
        default: Option<FormFieldDefault>,
    },
    Bool { default: Option<FormFieldDefault> },
    Image {
        max_size: u32,
        min_width: Option<u32>,
        max_width: Option<u32>,
        min_height: Option<u32>,
        max_height: Option<u32>,
        mimes: Vec<ImageMime>,
        default: Option<FormFieldDefault>,
    },
    File { max_size: u32, mimes: Vec<FileMime>, default: Option<FormFieldDefault> },
    /// Opens a conditional block: the fields up to the `IfEnd` with the same
    /// key count only if what `from` stands for is one of `value`.
    IfEqual { key: String, from: FormFieldDefault, value: Vec<FormFieldValue> },
    /// Closes the conditional block with the same key.
    IfEnd { key: String },
}

/// What a `FormFieldDefine` is to the contracts: texts and lists are sequences.
#[allow(inconsistent_fields)]
pub enum FieldDefineView<V> {
    SingleLineText {
        text_type: Option<FormTextFieldType>,
        max_texts: u32,
        default: Option<FieldDefaultView>,
    },
    MultiLineText { max_texts: u32, max_lines: u32, default: Option<FieldDefaultView> },
    SingleChoice { options: Seq<FieldOptionView<V>>, default: Option<FieldDefaultView> },
    MultipleChoice {
        options: Seq<FieldOptionView<V>>,
        max_options: u32,
        is_checkbox: bool,
        default: Option<FieldDefaultView>,
    },
    Bool { default: Option<FieldDefaultView> },
    Image {
        max_size: u32,
        min_width: Option<u32>,
        max_width: Option<u32>,
        min_height: Option<u32>,
        max_height: Option<u32>,
        mimes: Seq<ImageMime>,
        default: Option<FieldDefaultView>,
    },
    File { max_size: u32, mimes: Seq<FileMime>, default: Option<FieldDefaultView> },
    IfEqual { key: Seq<char>, from: FieldDefaultView, value: Seq<FieldValueView> },
    IfEnd { key: Seq<char> },
}

impl<OV: View> View for FormFieldDefine<OV> {
    type V = FieldDefineView<OV::V>;

    open spec fn view(&self) -> FieldDefineView<OV::V> {
        match self {
            FormFieldDefine::SingleLineText { text_type, max_texts, default } => {
                FieldDefineView::SingleLineText {
                    text_type: *text_type,
                    max_texts: *max_texts,
                    default: view_option(*default),
                }
            },
            FormFieldDefine::MultiLineText { max_texts, max_lines, default } => {
                FieldDefineView::MultiLineText {
                    max_texts: *max_texts,
                    max_lines: *max_lines,
                    default: view_option(*default),
                }
            },
            FormFieldDefine::SingleChoice { options, default } => FieldDefineView::SingleChoice {
                options: view_each(options@),
                default: view_option(*default),
            },
            FormFieldDefine::MultipleChoice { options, max_options, is_checkbox, default } => {
                FieldDefineView::MultipleChoice {
                    options: view_each(options@),
                    max_options: *max_options,
                    is_checkbox: *is_checkbox,
                    default: view_option(*default),
                }
            },
            FormFieldDefine::Bool { default } => FieldDefineView::Bool {
                default: view_option(*default),
            },
            FormFieldDefine::Image {
                max_size,
                min_width,
                max_width,
                min_height,
                max_height,
                mimes,
                default,
            } => FieldDefineView::Image {
                max_size: *max_size,
                min_width: *min_width,
                max_width: *max_width,
                min_height: *min_height,
                max_height: *max_height,
                mimes: mimes@,
                default: view_option(*default),
            },
            FormFieldDefine::File { max_size, mimes, default } => FieldDefineView::File {
                max_size: *max_size,
                mimes: mimes@,
                default: view_option(*default),
            },
            FormFieldDefine::IfEqual { key, from, value } => FieldDefineView::IfEqual {
                key: key@,
                from: from@,
                value: view_each(value@),
            },
            FormFieldDefine::IfEnd { key } => FieldDefineView::IfEnd { key: key@ },
        }
    }
}

impl<V> FieldDefineView<V> {
    /// Whether the definition is one of the two markers of a conditional block.
    pub open spec fn is_marker(self) -> bool {
        self is IfEqual || self is IfEnd
    }

    /// Whether an opening marker's condition holds: what `from` stands for is
    /// one of the values listed. With nothing to stand for it does not hold.
    pub open spec fn condition_holds(self) -> bool {
        match self {
            FieldDefineView::IfEqual { key, from, value } => condition_met(from, value),
            _ => false,
        }
    }
}

/// Whether what `from` stands for is one of `value`.
pub open spec fn condition_met(from: FieldDefaultView, value: Seq<FieldValueView>) -> bool {
    match from.resolved() {
        Some(v) => value.contains(v),
        None => false,
    }
}

impl<OV: View> FormFieldDefine<OV> {
    /// Whether this is an opening marker whose condition holds.
    pub fn condition_holds(&self) -> (holds: bool)
        ensures
            holds == self@.condition_holds(),
    {
        match self {
            FormFieldDefine::IfEqual { from, value, .. } => match from {
                FormFieldDefault::Static(v) => v.is_one_of(value),
                FormFieldDefault::Dynamic { value: found, .. } => match found {
                    Some(v) => v.is_one_of(value),
                    None => false,
                },
            },
            _ => false,
        }
    }
}


/// A copy of a default that may be absent.
pub fn clone_optional_default(default: &Option<FormFieldDefault>) -> (copy: Option<
    FormFieldDefault,
>)
    ensures
        view_option(copy) == view_option(*default),
{
    match default {
        Some(d) => Some(d.clone()),
        None => None,
    }
}

/// A copy of the options of a choice field.
pub fn clone_options(options: &Vec<FormFieldOption<FormFieldOptionValue>>) -> (copy: Vec<
    FormFieldOption<FormFieldOptionValue>,
>)
    ensures
        view_each(copy@) == view_each(options@),
{
    let mut copy: Vec<FormFieldOption<FormFieldOptionValue>> = Vec::new();
    let mut i: usize = 0;
    while i < options.len()
        invariant
            i <= options.len(),
            copy.len() == i,
            forall|j: int| 0 <= j < i ==> copy[j]@ == options[j]@,
        decreases options.len() - i,
    {
        copy.push(options[i].clone());
        i += 1;
    }
    proof {
        lemma_view_each_eq(copy@, options@);
    }
    copy
}

/// A copy of a list of values.
pub fn clone_values(values: &Vec<FormFieldValue>) -> (copy: Vec<FormFieldValue>)
    ensures
        view_each(copy@) == view_each(values@),
{
    let mut copy: Vec<FormFieldValue> = Vec::new();
    let mut i: usize = 0;
    while i < values.len()
        invariant
            i <= values.len(),
            copy.len() == i,
            forall|j: int| 0 <= j < i ==> copy[j]@ == values[j]@,
        decreases values.len() - i,
    {
        copy.push(values[i].clone());
        i += 1;
    }
    proof {
        lemma_view_each_eq(copy@, values@);
    }
    copy
}

/// A copy of a list of image types.
pub fn clone_image_mimes(mimes: &Vec<ImageMime>) -> (copy: Vec<ImageMime>)
    ensures
        copy@ == mimes@,
{
    let mut copy: Vec<ImageMime> = Vec::new();
    let mut i: usize = 0;
    while i < mimes.len()
        invariant
            i <= mimes.len(),
            copy@ == mimes@.take(i as int),
        decreases mimes.len() - i,
    {
        copy.push(mimes[i]);
        proof {
            assert(mimes@.take(i + 1) =~= mimes@.take(i as int).push(mimes@[i as int]));
        }
        i += 1;
    }
    proof {
        assert(mimes@.take(mimes.len() as int) =~= mimes@);
    }
    copy
}

/// A copy of a list of document types.
pub fn clone_file_mimes(mimes: &Vec<FileMime>) -> (copy: Vec<FileMime>)
    ensures
        copy@ == mimes@,
{
    let mut copy: Vec<FileMime> = Vec::new();
    let mut i: usize = 0;
    while i < mimes.len()
        invariant
            i <= mimes.len(),
            copy@ == mimes@.take(i as int),
        decreases mimes.len() - i,
    {
        copy.push(mimes[i]);
        proof {
            assert(mimes@.take(i + 1) =~= mimes@.take(i as int).push(mimes@[i as int]));
        }
        i += 1;
    }
    proof {
        assert(mimes@.take(mimes.len() as int) =~= mimes@);
    }
    copy
}

impl Clone for FormFieldDefine<FormFieldOptionValue> {
    fn clone(&self) -> (copy: Self)
        ensures
            copy@ == self@,
    {
        match self {
            FormFieldDefine::SingleLineText { text_type, max_texts, default } => {
                FormFieldDefine::SingleLineText {
                    text_type: *text_type,
                    max_texts: *max_texts,
                    default: clone_optional_default(default),
                }
            },
            FormFieldDefine::MultiLineText { max_texts, max_lines, default } => {
                FormFieldDefine::MultiLineText {
                    max_texts: *max_texts,
                    max_lines: *max_lines,
                    default: clone_optional_default(default),
                }
            },
            FormFieldDefine::SingleChoice { options, default } => FormFieldDefine::SingleChoice {
                options: clone_options(options),
                default: clone_optional_default(default),
            },
            FormFieldDefine::MultipleChoice { options, max_options, is_checkbox, default } => {
                FormFieldDefine::MultipleChoice {
                    options: clone_options(options),
                    max_options: *max_options,
                    is_checkbox: *is_checkbox,
                    default: clone_optional_default(default),
                }
            },
            FormFieldDefine::Bool { default } => FormFieldDefine::Bool {
                default: clone_optional_default(default),
            },
            FormFieldDefine::Image {
                max_size,
                min_width,
                max_width,
                min_height,
                max_height,
                mimes,
                default,
            } => FormFieldDefine::Image {
                max_size: *max_size,
                min_width: *min_width,
                max_width: *max_width,
                min_height: *min_height,
                max_height: *max_height,
                mimes: clone_image_mimes(mimes),
                default: clone_optional_default(default),
            },
            FormFieldDefine::File { max_size, mimes, default } => FormFieldDefine::File {
                max_size: *max_size,
                mimes: clone_file_mimes(mimes),
                default: clone_optional_default(default),
            },
            FormFieldDefine::IfEqual { key, from, value } => FormFieldDefine::IfEqual {
                key: key.clone(),
                from: from.clone(),
                value: clone_values(value),
            },
            FormFieldDefine::IfEnd { key } => FormFieldDefine::IfEnd { key: key.clone() },
        }
    }
}

/// A field as a manager writes it into a form.
#[derive(Debug, PartialEq)]
pub struct FormSchemaField {
    pub name_zh: String,
    pub name_en: String,
    pub description_zh: String,
    pub description_en: String,
    pub key: String,
    pub define: FormFieldDefine<FormFieldOptionValue>,
    pub required: bool,
    pub editable: bool,
}

} // verus!
