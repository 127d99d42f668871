use conf_ops::fields::{
    FormFieldDefault, FormFieldDefine, FormFieldOption, FormFieldOptionValue, FormFieldValue,
};
use conf_ops::forms::answers::TicketFormAnswer;
use conf_ops::forms::form::FieldIssue;
use conf_ops::forms::schema::{FormSchema, TicketSchemaForm, TicketSchemaFormField};
use conf_ops::forms::validate::{FieldError, Uploads};
use conf_ops::json::{JsonItem, JsonValue};
use conf_ops::mime::{FileMime, ImageMime};
use conf_ops::target::User;
use conf_ops::ticket::TicketFlow;
use serde_json::Value;

fn field(
    key: &str,
    order: i32,
    define: FormFieldDefine<FormFieldOptionValue>,
    required: bool,
    editable: bool,
) -> TicketSchemaFormField {
    TicketSchemaFormField {
        id: order + 1,
        ticket_schema_form_id: 1,
        order,
        key: key.to_owned(),
        name_zh: String::new(),
        description_zh: String::new(),
        define,
        required,
        editable,
        created_at: 0,
        updated_at: 0,
        name_en: key.to_owned(),
        description_en: String::new(),
    }
}

fn single_line(max_texts: u32) -> FormFieldDefine<FormFieldOptionValue> {
    FormFieldDefine::SingleLineText { text_type: None, max_texts, default: None }
}

fn option(value: &str) -> FormFieldOption<FormFieldOptionValue> {
    FormFieldOption { text: value.to_owned(), value: FormFieldOptionValue::String(value.to_owned()) }
}

fn number_option(value: i64) -> FormFieldOption<FormFieldOptionValue> {
    FormFieldOption { text: format!("{}", value), value: FormFieldOptionValue::Integer(value) }
}

fn multiple_choice(max_options: u32) -> FormFieldDefine<FormFieldOptionValue> {
    FormFieldDefine::MultipleChoice {
        options: vec![option("A"), option("B"), option("C")],
        max_options,
        is_checkbox: true,
        default: None,
    }
}

fn if_equal(key: &str, from: FormFieldValue, value: Vec<FormFieldValue>) -> FormFieldDefine<FormFieldOptionValue> {
    FormFieldDefine::IfEqual { key: key.to_owned(), from: FormFieldDefault::Static(from), value }
}

fn if_end(key: &str) -> FormFieldDefine<FormFieldOptionValue> {
    FormFieldDefine::IfEnd { key: key.to_owned() }
}

fn no_uploads() -> Uploads {
    Uploads { files: vec![], images: vec![] }
}

fn form() -> TicketSchemaForm {
    TicketSchemaForm { id: 1, ticket_schema_flow_id: 1, expired_at: None, created_at: 0, updated_at: 0 }
}

fn text(value: &str) -> JsonValue {
    JsonValue::Text(value.to_owned())
}

fn items(values: &[&str]) -> JsonValue {
    JsonValue::List(values.iter().map(|v| JsonItem::Text((*v).to_owned())).collect())
}

fn object(entries: Vec<(&str, Value)>) -> serde_json::Map<String, Value> {
    let mut map = serde_json::Map::new();
    for (key, value) in entries {
        map.insert(key.to_owned(), value);
    }
    map
}

fn string(value: &str) -> Value {
    Value::String(value.to_owned())
}

fn issue(key: &str, error: FieldError) -> FieldIssue {
    FieldIssue { key: key.to_owned(), error }
}

fn keys(fields: &[TicketSchemaFormField]) -> Vec<String> {
    fields.iter().map(|f| f.key.clone()).collect()
}

#[test]
fn single_line_text_accepts_five_and_rejects_six_characters() {
    let name = field("name", 0, single_line(5), true, true);
    assert_eq!(name.validate_and_normalize(&no_uploads(), &text("  abcde  ")), Ok(text("abcde")));
    assert_eq!(
        name.validate_and_normalize(&no_uploads(), &text("abcdef")),
        Err(FieldError::TextTooLong)
    );
    let schema = FormSchema::new(form(), vec![name]);
    assert_eq!(
        schema.validate_and_normalize(&no_uploads(), &object(vec![("name", string("abcdef"))])),
        Err(vec![issue("name", FieldError::TextTooLong)])
    );
    assert_eq!(
        schema.validate_and_normalize(&no_uploads(), &object(vec![("name", string("abcde"))])),
        Ok(object(vec![("name", string("abcde"))]))
    );
}

#[test]
fn text_length_counts_characters() {
    let name = field("name", 0, single_line(5), true, true);
    let five = "\u{65e5}\u{672c}\u{8a9e}\u{65e5}\u{672c}";
    assert_eq!(five.len(), 15);
    assert_eq!(name.validate_and_normalize(&no_uploads(), &text(five)), Ok(text(five)));
    let six = "\u{65e5}\u{672c}\u{8a9e}\u{65e5}\u{672c}\u{8a9e}";
    assert_eq!(
        name.validate_and_normalize(&no_uploads(), &text(six)),
        Err(FieldError::TextTooLong)
    );
    assert_eq!(
        name.validate_and_normalize(&no_uploads(), &text("abcdef")),
        Err(FieldError::TextTooLong)
    );
    assert_eq!(name.validate_and_normalize(&no_uploads(), &text("abcde")), Ok(text("abcde")));
    assert_eq!(
        name.validate_and_normalize(&no_uploads(), &text("  \u{4e2d}\u{6587}abc \n")),
        Ok(text("\u{4e2d}\u{6587}abc"))
    );
}

#[test]
fn required_text_must_not_be_blank() {
    let required = field("name", 0, single_line(5), true, true);
    assert_eq!(
        required.validate_and_normalize(&no_uploads(), &text(" \t\n ")),
        Err(FieldError::Required)
    );
    let optional = field("name", 0, single_line(5), false, true);
    assert_eq!(optional.validate_and_normalize(&no_uploads(), &text(" \t\n ")), Ok(text("")));
}

#[test]
fn multi_line_text_limits_lines() {
    let define = FormFieldDefine::MultiLineText { max_texts: 100, max_lines: 2, default: None };
    let note = field("note", 0, define, false, true);
    assert_eq!(note.validate_and_normalize(&no_uploads(), &text("a\nb\n")), Ok(text("a\nb")));
    assert_eq!(
        note.validate_and_normalize(&no_uploads(), &text("a\nb\nc")),
        Err(FieldError::TextTooManyLines)
    );
    let define = FormFieldDefine::MultiLineText { max_texts: 3, max_lines: 9, default: None };
    let short = field("note", 0, define, false, true);
    assert_eq!(
        short.validate_and_normalize(&no_uploads(), &text("a\nbc")),
        Err(FieldError::TextTooLong)
    );
}

#[test]
fn multiple_choice_with_two_of_three_options() {
    let choice = field("choice", 0, multiple_choice(2), true, true);
    assert_eq!(
        choice.validate_and_normalize(&no_uploads(), &items(&["A", "B", "C"])),
        Err(FieldError::TooManyChoice)
    );
    assert_eq!(
        choice.validate_and_normalize(&no_uploads(), &items(&[])),
        Err(FieldError::Required)
    );
    assert_eq!(
        choice.validate_and_normalize(&no_uploads(), &items(&["A", "B"])),
        Ok(items(&["A", "B"]))
    );
    assert_eq!(
        choice.validate_and_normalize(&no_uploads(), &items(&["A", "D"])),
        Err(FieldError::NotValidChoice)
    );
    let schema = FormSchema::new(form(), vec![choice]);
    let chosen = Value::Array(vec![string("A"), string("B")]);
    assert_eq!(
        schema.validate_and_normalize(&no_uploads(), &object(vec![("choice", chosen.clone())])),
        Ok(object(vec![("choice", chosen)]))
    );
    let too_many = Value::Array(vec![string("A"), string("B"), string("C")]);
    assert_eq!(
        schema.validate_and_normalize(&no_uploads(), &object(vec![("choice", too_many)])),
        Err(vec![issue("choice", FieldError::TooManyChoice)])
    );
    assert_eq!(
        schema.validate_and_normalize(&no_uploads(), &object(vec![("choice", Value::Array(vec![]))])),
        Err(vec![issue("choice", FieldError::Required)])
    );
}

#[test]
fn single_choice_compares_by_value() {
    let define = FormFieldDefine::SingleChoice {
        options: vec![option("yes"), number_option(7)],
        default: None,
    };
    let pick = field("pick", 0, define, true, true);
    assert_eq!(pick.validate_and_normalize(&no_uploads(), &text("yes")), Ok(text("yes")));
    assert_eq!(
        pick.validate_and_normalize(&no_uploads(), &JsonValue::Integer(7)),
        Ok(JsonValue::Integer(7))
    );
    assert_eq!(
        pick.validate_and_normalize(&no_uploads(), &text("7")),
        Err(FieldError::NotValidChoice)
    );
    assert_eq!(
        pick.validate_and_normalize(&no_uploads(), &JsonValue::Integer(8)),
        Err(FieldError::NotValidChoice)
    );
    assert_eq!(
        pick.validate_and_normalize(&no_uploads(), &JsonValue::Number),
        Err(FieldError::NotValidChoice)
    );
    assert_eq!(
        pick.validate_and_normalize(&no_uploads(), &JsonValue::Bool(true)),
        Err(FieldError::Unknown)
    );
}

#[test]
fn mismatched_shapes_are_unknown() {
    let name = field("name", 0, single_line(5), false, true);
    assert_eq!(
        name.validate_and_normalize(&no_uploads(), &JsonValue::Bool(true)),
        Err(FieldError::Unknown)
    );
    assert_eq!(
        name.validate_and_normalize(&no_uploads(), &JsonValue::Integer(1)),
        Err(FieldError::Unknown)
    );
    assert_eq!(name.validate_and_normalize(&no_uploads(), &items(&["A"])), Err(FieldError::Unknown));
    assert_eq!(
        name.validate_and_normalize(&no_uploads(), &JsonValue::Object),
        Err(FieldError::Unknown)
    );
    let flag = field("flag", 0, FormFieldDefine::Bool { default: None }, false, true);
    assert_eq!(
        flag.validate_and_normalize(&no_uploads(), &JsonValue::Bool(false)),
        Ok(JsonValue::Bool(false))
    );
    assert_eq!(flag.validate_and_normalize(&no_uploads(), &text("true")), Err(FieldError::Unknown));
}

#[test]
fn null_is_refused_only_where_required() {
    let required = field("name", 0, single_line(5), true, true);
    assert_eq!(
        required.validate_and_normalize(&no_uploads(), &JsonValue::Null),
        Err(FieldError::Required)
    );
    let optional = field("name", 0, single_line(5), false, true);
    assert_eq!(
        optional.validate_and_normalize(&no_uploads(), &JsonValue::Null),
        Ok(JsonValue::Null)
    );
}

#[test]
fn field_that_cannot_be_edited_keeps_nothing() {
    let locked = field("name", 0, single_line(5), true, false);
    assert_eq!(
        locked.validate_and_normalize(&no_uploads(), &text("far too long a text")),
        Ok(JsonValue::Null)
    );
    let schema = FormSchema::new(form(), vec![locked]);
    assert_eq!(
        schema.validate_and_normalize(&no_uploads(), &object(vec![("name", string("anything"))])),
        Ok(serde_json::Map::new())
    );
}

#[test]
fn file_and_image_must_be_uploaded() {
    let uploads = Uploads { files: vec!["abc".to_owned()], images: vec!["img".to_owned()] };
    let file = field(
        "file",
        0,
        FormFieldDefine::File { max_size: 10, mimes: vec![FileMime::Pdf], default: None },
        true,
        true,
    );
    assert_eq!(file.validate_and_normalize(&uploads, &text("abc.pdf")), Ok(text("abc.pdf")));
    assert_eq!(file.validate_and_normalize(&uploads, &text("abc")), Ok(text("abc")));
    assert_eq!(file.validate_and_normalize(&uploads, &text("img")), Err(FieldError::NotUploadFile));
    let image = field(
        "image",
        1,
        FormFieldDefine::Image {
            max_size: 10,
            min_width: None,
            max_width: None,
            min_height: None,
            max_height: None,
            mimes: vec![ImageMime::Png],
            default: None,
        },
        true,
        true,
    );
    assert_eq!(image.validate_and_normalize(&uploads, &text("img.png.bak")), Ok(text("img.png.bak")));
    assert_eq!(image.validate_and_normalize(&uploads, &text("abc")), Err(FieldError::NotUploadImage));
    assert!(file.is_file_define() && !file.is_image_define());
    assert!(image.is_image_define() && !image.is_file_define());
}

#[test]
fn form_collects_every_error() {
    let schema = FormSchema::new(
        form(),
        vec![
            field("name", 0, single_line(5), true, true),
            field("choice", 1, multiple_choice(2), true, true),
            field("note", 2, single_line(3), false, true),
            field("missing", 3, single_line(3), true, true),
            field("absent", 4, single_line(3), false, true),
        ],
    );
    let data = object(vec![
        ("name", string("abcdef")),
        ("choice", Value::Array(vec![string("Z")])),
        ("note", string("ok")),
    ]);
    assert_eq!(
        schema.validate_and_normalize(&no_uploads(), &data),
        Err(vec![
            issue("name", FieldError::TextTooLong),
            issue("choice", FieldError::NotValidChoice),
            issue("missing", FieldError::Required),
        ])
    );
}

#[test]
fn form_reads_json_values_by_kind() {
    let schema = FormSchema::new(
        form(),
        vec![
            field("flag", 0, FormFieldDefine::Bool { default: None }, false, true),
            field(
                "pick",
                1,
                FormFieldDefine::SingleChoice { options: vec![number_option(3)], default: None },
                false,
                true,
            ),
            field("name", 2, single_line(10), false, true),
            field("gone", 3, single_line(10), false, true),
        ],
    );
    let data = object(vec![
        ("flag", Value::Bool(true)),
        ("pick", Value::from(3)),
        ("name", string(" Alice ")),
        ("gone", Value::Null),
        ("extra", string("ignored")),
    ]);
    assert_eq!(
        schema.validate_and_normalize(&no_uploads(), &data),
        Ok(object(vec![
            ("flag", Value::Bool(true)),
            ("pick", Value::from(3)),
            ("name", string("Alice")),
        ]))
    );
    let fraction = object(vec![("pick", Value::from(1.5))]);
    assert_eq!(
        schema.validate_and_normalize(&no_uploads(), &fraction),
        Err(vec![issue("pick", FieldError::NotValidChoice)])
    );
    let nested = object(vec![("name", Value::Object(serde_json::Map::new()))]);
    assert_eq!(
        schema.validate_and_normalize(&no_uploads(), &nested),
        Err(vec![issue("name", FieldError::Unknown)])
    );
}

#[test]
fn normalized_output_is_stable_under_revalidation() {
    let schema = FormSchema::new(
        form(),
        vec![
            field("name", 0, single_line(10), true, true),
            field("choice", 1, multiple_choice(2), false, true),
            field("note", 2, single_line(10), false, true),
        ],
    );
    let data = object(vec![
        ("name", string("  Alice ")),
        ("choice", Value::Array(vec![string("B")])),
        ("note", Value::Null),
    ]);
    let first = schema.validate_and_normalize(&no_uploads(), &data).unwrap();
    assert_eq!(
        first,
        object(vec![("name", string("Alice")), ("choice", Value::Array(vec![string("B")]))])
    );
    let second = schema.validate_and_normalize(&no_uploads(), &first).unwrap();
    assert_eq!(second, first);
}

#[test]
fn required_locked_field_breaks_revalidation() {
    let schema = FormSchema::new(form(), vec![field("a", 0, single_line(10), true, false)]);
    let first = schema
        .validate_and_normalize(&no_uploads(), &object(vec![("a", string("x"))]))
        .unwrap();
    assert_eq!(first, serde_json::Map::new());
    assert_eq!(
        schema.validate_and_normalize(&no_uploads(), &first),
        Err(vec![issue("a", FieldError::Required)])
    );
}

#[test]
fn conditional_block_shows_only_if_condition_holds() {
    let fields = |from: i32| {
        vec![
            field("before", 0, single_line(5), false, true),
            field(
                "",
                1,
                if_equal("k", FormFieldValue::Integer(from), vec![
                    FormFieldValue::Integer(1),
                    FormFieldValue::Integer(2),
                ]),
                false,
                true,
            ),
            field("inside", 2, single_line(5), true, true),
            field("", 3, if_end("k"), false, true),
            field("after", 4, single_line(5), false, true),
        ]
    };
    let shown = FormSchema::get_processed_fields(&fields(2), &vec![]);
    assert_eq!(keys(&shown), vec!["before", "inside", "after"]);
    let hidden = FormSchema::get_processed_fields(&fields(3), &vec![]);
    assert_eq!(keys(&hidden), vec!["before", "after"]);
    let schema = FormSchema::new(form(), fields(3));
    assert_eq!(schema.validate_and_normalize(&no_uploads(), &serde_json::Map::new()), Ok(serde_json::Map::new()));
    let schema = FormSchema::new(form(), fields(1));
    assert_eq!(
        schema.validate_and_normalize(&no_uploads(), &serde_json::Map::new()),
        Err(vec![issue("inside", FieldError::Required)])
    );
}

#[test]
fn skipped_block_ends_only_at_its_own_end() {
    let fields = vec![
        field("", 0, if_equal("a", FormFieldValue::Bool(true), vec![FormFieldValue::Bool(false)]), false, true),
        field("x", 1, single_line(5), false, true),
        field("", 2, if_equal("b", FormFieldValue::Bool(true), vec![FormFieldValue::Bool(true)]), false, true),
        field("y", 3, single_line(5), false, true),
        field("", 4, if_end("b"), false, true),
        field("z", 5, single_line(5), false, true),
        field("", 6, if_end("a"), false, true),
        field("w", 7, single_line(5), false, true),
    ];
    let shown = FormSchema::get_processed_fields(&fields, &vec![]);
    assert_eq!(keys(&shown), vec!["w"]);
}

#[test]
fn condition_compares_arrays_and_texts() {
    let array = FormFieldValue::Array(vec![
        FormFieldOptionValue::String("a".to_owned()),
        FormFieldOptionValue::Integer(1),
    ]);
    assert!(array.is_one_of(&vec![FormFieldValue::Bool(true), array.clone()]));
    assert!(!array.is_one_of(&vec![FormFieldValue::Array(vec![FormFieldOptionValue::Integer(1)])]));
    assert!(FormFieldValue::String("x".to_owned()).same_as(&FormFieldValue::String("x".to_owned())));
    assert!(!FormFieldValue::String("1".to_owned()).same_as(&FormFieldValue::Integer(1)));
    let define = if_equal("k", FormFieldValue::String("b".to_owned()), vec![
        FormFieldValue::String("a".to_owned()),
        FormFieldValue::String("b".to_owned()),
    ]);
    assert!(define.condition_holds());
    let unresolved: FormFieldDefine<FormFieldOptionValue> = FormFieldDefine::IfEqual {
        key: "k".to_owned(),
        from: FormFieldDefault::Dynamic {
            schema_form_id: 1,
            flow_id: None,
            field_key: "x".to_owned(),
            value: None,
        },
        value: vec![FormFieldValue::Bool(true)],
    };
    assert!(!unresolved.condition_holds());
    assert!(!single_line(3).condition_holds());
}

fn answer(id: i32, flow: i32, form: i32, entries: Vec<(&str, Value)>) -> TicketFormAnswer {
    TicketFormAnswer {
        id,
        ticket_flow_id: flow,
        ticket_schema_form_id: form,
        value: object(entries),
        created_at: 0,
        updated_at: 0,
    }
}

#[test]
fn dynamic_default_takes_the_latest_matching_answer() {
    let history = vec![
        answer(1, 10, 7, vec![("name", string("old"))]),
        answer(3, 11, 7, vec![("name", string("new"))]),
        answer(2, 12, 7, vec![("name", string("middle"))]),
        answer(9, 13, 8, vec![("name", string("other form"))]),
    ];
    let default = FormFieldDefault::Dynamic {
        schema_form_id: 7,
        flow_id: None,
        field_key: "name".to_owned(),
        value: None,
    };
    assert_eq!(
        default.resolve_default(&history),
        FormFieldDefault::Dynamic {
            schema_form_id: 7,
            flow_id: None,
            field_key: "name".to_owned(),
            value: Some(FormFieldValue::String("new".to_owned())),
        }
    );
    assert_eq!(
        default.resolve_default(&vec![]),
        FormFieldDefault::Dynamic {
            schema_form_id: 7,
            flow_id: None,
            field_key: "name".to_owned(),
            value: None,
        }
    );
    assert_eq!(
        TicketFormAnswer::get_field_value(&history, 7, Some(10), "name"),
        Some(FormFieldValue::String("old".to_owned()))
    );
    assert_eq!(TicketFormAnswer::get_field_value(&history, 7, Some(13), "name"), None);
    assert_eq!(TicketFormAnswer::get_field_value(&history, 7, None, "email"), None);
    assert_eq!(TicketFormAnswer::get_field_value(&history, 6, None, "name"), None);
    let fixed = FormFieldDefault::Static(FormFieldValue::Integer(4));
    assert_eq!(fixed.resolve_default(&history), FormFieldDefault::Static(FormFieldValue::Integer(4)));
}

#[test]
fn stored_values_become_field_values() {
    let history = vec![answer(
        1,
        1,
        1,
        vec![
            ("int", Value::from(5)),
            ("big", Value::from(5_000_000_000i64)),
            ("flag", Value::Bool(true)),
            ("list", Value::Array(vec![string("a"), Value::from(2)])),
            ("mixed", Value::Array(vec![string("a"), Value::Bool(true)])),
            ("null", Value::Null),
            ("float", Value::from(0.5)),
        ],
    )];
    let get = |key: &str| TicketFormAnswer::get_field_value(&history, 1, None, key);
    assert_eq!(get("int"), Some(FormFieldValue::Integer(5)));
    assert_eq!(get("big"), None);
    assert_eq!(get("flag"), Some(FormFieldValue::Bool(true)));
    assert_eq!(
        get("list"),
        Some(FormFieldValue::Array(vec![
            FormFieldOptionValue::String("a".to_owned()),
            FormFieldOptionValue::Integer(2),
        ]))
    );
    assert_eq!(get("mixed"), None);
    assert_eq!(get("null"), None);
    assert_eq!(get("float"), None);
    assert_eq!(FormFieldValue::from_json(&JsonValue::Integer(-2147483648)), Some(FormFieldValue::Integer(i32::MIN)));
    assert_eq!(FormFieldValue::from_json(&JsonValue::Integer(2147483648)), None);
}

#[test]
fn condition_follows_a_dynamic_source() {
    let fields = vec![
        field(
            "",
            0,
            FormFieldDefine::IfEqual {
                key: "k".to_owned(),
                from: FormFieldDefault::Dynamic {
                    schema_form_id: 7,
                    flow_id: None,
                    field_key: "kind".to_owned(),
                    value: None,
                },
                value: vec![FormFieldValue::String("speaker".to_owned())],
            },
            false,
            true,
        ),
        field("talk", 1, single_line(50), true, true),
        field("", 2, if_end("k"), false, true),
    ];
    let speaker = vec![answer(1, 1, 7, vec![("kind", string("speaker"))])];
    let visitor = vec![answer(1, 1, 7, vec![("kind", string("visitor"))])];
    assert_eq!(keys(&FormSchema::get_processed_fields(&fields, &speaker)), vec!["talk"]);
    assert!(FormSchema::get_processed_fields(&fields, &visitor).is_empty());
    assert!(FormSchema::get_processed_fields(&fields, &vec![]).is_empty());
}

#[test]
fn expanding_twice_gives_the_same_fields() {
    let fields = vec![
        field(
            "name",
            0,
            FormFieldDefine::SingleLineText {
                text_type: None,
                max_texts: 10,
                default: Some(FormFieldDefault::Dynamic {
                    schema_form_id: 7,
                    flow_id: None,
                    field_key: "name".to_owned(),
                    value: None,
                }),
            },
            true,
            true,
        ),
        field("", 1, if_equal("k", FormFieldValue::Bool(true), vec![FormFieldValue::Bool(true)]), false, true),
        field("inside", 2, single_line(5), false, true),
        field("", 3, if_end("k"), false, true),
    ];
    let history = vec![answer(1, 1, 7, vec![("name", string("Alice"))])];
    let first = FormSchema::get_processed_fields(&fields, &history);
    let second = FormSchema::get_processed_fields(&fields, &history);
    assert_eq!(first, second);
    let again = FormSchema::get_processed_fields(&first, &history);
    assert_eq!(again, first);
    assert_eq!(
        first[0].define,
        FormFieldDefine::SingleLineText {
            text_type: None,
            max_texts: 10,
            default: Some(FormFieldDefault::Dynamic {
                schema_form_id: 7,
                flow_id: None,
                field_key: "name".to_owned(),
                value: Some(FormFieldValue::String("Alice".to_owned())),
            }),
        }
    );
}

#[test]
fn form_schema_sorts_fields_by_order() {
    let schema = FormSchema::new(
        form(),
        vec![
            field("c", 2, single_line(5), false, true),
            field("a", 0, single_line(5), false, true),
            field("b2", 1, single_line(5), false, true),
            field("b1", 1, single_line(5), false, true),
        ],
    );
    assert_eq!(keys(&schema.fields), vec!["a", "b2", "b1", "c"]);
    let with_ticket = FormSchema::new_with_ticket(
        &vec![],
        form(),
        vec![
            field("", 2, if_end("k"), false, true),
            field("x", 1, single_line(5), false, true),
            field("", 0, if_equal("k", FormFieldValue::Bool(true), vec![]), false, true),
            field("y", 3, single_line(5), false, true),
        ],
    );
    assert_eq!(keys(&with_ticket.fields), vec!["y"]);
}

#[test]
fn field_errors_name_their_messages() {
    assert_eq!(FieldError::Required.message_key(), "ticket.rules.required");
    assert_eq!(FieldError::TextTooLong.message_key(), "ticket.rules.text_too_long");
    assert_eq!(FieldError::TextTooManyLines.message_key(), "ticket.rules.text_too_many_lines");
    assert_eq!(FieldError::NotValidChoice.message_key(), "ticket.rules.not_valid_choice");
    assert_eq!(FieldError::TooManyChoice.message_key(), "ticket.rules.too_many_choice");
    assert_eq!(FieldError::NotUploadFile.message_key(), "ticket.rules.not_upload_file");
    assert_eq!(FieldError::NotUploadImage.message_key(), "ticket.rules.not_upload_image");
    assert_eq!(FieldError::Unknown.message_key(), "ticket.rules.unknown");
}

#[test]
fn answer_handed_in_again_replaces_the_first() {
    let answers = vec![answer(4, 10, 7, vec![("name", string("old"))])];
    let mut created = answer(4, 10, 7, vec![("name", string("new"))]);
    created.updated_at = 99;
    assert_eq!(
        TicketFormAnswer::save_or_create(&answers, 10, 7, object(vec![("name", string("new"))]), 99),
        created
    );
    let mut fresh = answer(0, 11, 7, vec![]);
    fresh.created_at = 99;
    fresh.updated_at = 99;
    assert_eq!(TicketFormAnswer::save_or_create(&answers, 11, 7, serde_json::Map::new(), 99), fresh);
}

#[test]
fn answers_are_seen_by_those_who_take_part() {
    let flow = |id: i32, ticket_id: i32, user_id: Option<&str>| TicketFlow {
        id,
        ticket_id,
        user_id: user_id.map(|u| u.to_owned()),
        ticket_schema_flow_id: 1,
        finished: true,
        created_at: 0,
        updated_at: 0,
    };
    let flows = vec![flow(1, 1, Some("alice")), flow(2, 1, None), flow(3, 2, Some("bob"))];
    let answers = vec![
        answer(1, 2, 7, vec![("name", string("in ticket 1"))]),
        answer(2, 3, 7, vec![("name", string("in ticket 2"))]),
        answer(3, 9, 7, vec![("name", string("nowhere"))]),
    ];
    let alice = User {
        id: "alice".to_owned(),
        name: String::new(),
        project_id: String::new(),
        locale: String::new(),
        created_at: 0,
        updated_at: 0,
    };
    let seen = TicketFormAnswer::visible_to(&answers, &flows, &alice);
    assert_eq!(seen, vec![answer(1, 2, 7, vec![("name", string("in ticket 1"))])]);
    assert_eq!(
        TicketFormAnswer::get_field_value(&seen, 7, None, "name"),
        Some(FormFieldValue::String("in ticket 1".to_owned()))
    );
}

#[test]
fn submission_names_its_uploads() {
    let file = FormFieldDefine::File { max_size: 10, mimes: vec![FileMime::Pdf], default: None };
    let image = FormFieldDefine::Image {
        max_size: 10,
        min_width: None,
        max_width: None,
        min_height: None,
        max_height: None,
        mimes: vec![ImageMime::Png],
        default: None,
    };
    let schema = FormSchema::new(
        form(),
        vec![
            field("cv", 0, file, true, true),
            field("photo", 1, image, true, true),
            field("name", 2, single_line(10), true, true),
            field("logo", 3, FormFieldDefine::Bool { default: None }, false, true),
        ],
    );
    let data = object(vec![
        ("cv", string("abc.pdf")),
        ("photo", string("img")),
        ("name", string("x.y")),
        ("logo", Value::Bool(true)),
    ]);
    assert_eq!(
        schema.get_upload_names(&data),
        Uploads { files: vec!["abc".to_owned()], images: vec!["img".to_owned()] }
    );
    assert_eq!(
        schema.get_upload_names(&object(vec![("cv", Value::from(3))])),
        Uploads { files: vec![], images: vec![] }
    );
}

#[test]
fn form_shape_is_checked() {
    let good = FormSchema::new(
        form(),
        vec![
            field("a", 0, single_line(5), true, true),
            field("", 1, if_equal("k", FormFieldValue::Bool(true), vec![]), false, true),
            field("b", 2, single_line(5), true, true),
            field("", 3, if_end("k"), false, true),
            field("", 4, if_end("other"), false, true),
        ],
    );
    assert!(good.is_well_formed());
    assert!(FormSchema::new(form(), vec![]).is_well_formed());
    let twice = FormSchema::new(
        form(),
        vec![
            field("a", 0, single_line(5), true, true),
            field("b", 1, single_line(5), true, true),
            field("a", 2, single_line(9), true, true),
        ],
    );
    assert!(!twice.is_well_formed());
    let nameless = FormSchema::new(form(), vec![field("", 0, single_line(5), true, true)]);
    assert!(!nameless.is_well_formed());
    let open = FormSchema::new(
        form(),
        vec![
            field("", 0, if_end("k"), false, true),
            field("", 1, if_equal("k", FormFieldValue::Bool(true), vec![]), false, true),
            field("a", 2, single_line(5), true, true),
            field("", 3, if_end("j"), false, true),
        ],
    );
    assert!(!open.is_well_formed());
}
