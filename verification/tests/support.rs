use conf_ops::detail::select_targets;
use conf_ops::error::{AppError, Status};
use conf_ops::fields::{FormFieldDefine, FormFieldOptionValue, FormSchemaField};
use conf_ops::forms::schema::{
    FormSchema, PartFormSchema, TicketSchemaForm, TicketSchemaFormField,
};
use conf_ops::forms::upload::{
    AcceptedFile, AcceptedImage, FileUpload, ImageUpload, RasterImage, TicketFormFile,
    TicketFormImage, UploadError,
};
use conf_ops::mime::{FileMime, ImageMime};
use conf_ops::process::ProcessError;
use conf_ops::session::{accepted_locale, choose_locale, I18n, LoginClaims, UserAgent};
use conf_ops::target::{unique_by_id, Target, User, UserLabel};
use conf_ops::forms::upload::file_name_of;
use conf_ops::forms::validate::{check_text, check_trimmed_text, FieldError};
use conf_ops::json::JsonValue;
use conf_ops::text::{
    chars_of, comes_before, count_pieces, same_text, text_before_dot, trim, trim_marked,
    white_space_marks, StringExt,
};
use conf_ops::ticket::{Ticket, TicketFlow};
use conf_ops::workflow::{
    TicketSchema, TicketSchemaFlow, TicketSchemaFlowValue, TicketSchemaManager,
    TicketSchemaReview,
};

#[test]
fn trim_removes_white_space_at_both_ends() {
    assert_eq!(trim("  a b \t\n"), "a b");
    assert_eq!(trim("\u{3000}x\u{a0}"), "x");
    assert_eq!(trim("   "), "");
    assert_eq!(trim(""), "");
    assert_eq!(trim("x"), "x");
    assert_eq!(trim(" \u{4e2d} \u{6587} "), "\u{4e2d} \u{6587}");
    for text in ["", " ", "a", " a", "a ", "\t a\u{2003}b \r\n", "\u{85}x\u{1680}", "\u{200b}y "] {
        assert_eq!(trim(text), text.trim());
    }
}

#[test]
fn marked_ends_are_cut_off() {
    assert_eq!(trim_marked("abcde", &vec![true, true, false, true, true]), "c");
    assert_eq!(trim_marked("abcde", &vec![false, true, false, true, false]), "abcde");
    assert_eq!(trim_marked("abcde", &vec![true, true, true, true, true]), "");
    assert_eq!(trim_marked("abcde", &vec![true]), "bcde");
    assert_eq!(trim_marked("abcde", &vec![]), "abcde");
    assert_eq!(trim_marked("", &vec![true, true]), "");
    assert_eq!(white_space_marks(&vec![' ', 'a', '\n']), vec![true, false, true]);
}

#[test]
fn trimmed_text_is_measured_as_it_is() {
    assert_eq!(
        check_trimmed_text("abcde".to_owned(), true, 5, None),
        Ok(JsonValue::Text("abcde".to_owned()))
    );
    assert_eq!(check_trimmed_text("abcdef".to_owned(), true, 5, None), Err(FieldError::TextTooLong));
    assert_eq!(check_trimmed_text(" a ".to_owned(), true, 5, None), Ok(JsonValue::Text(" a ".to_owned())));
    assert_eq!(check_trimmed_text(String::new(), true, 5, Some(1)), Err(FieldError::Required));
    assert_eq!(check_trimmed_text(String::new(), false, 5, Some(1)), Ok(JsonValue::Text(String::new())));
    assert_eq!(
        check_trimmed_text("a\nb".to_owned(), false, 5, Some(1)),
        Err(FieldError::TextTooManyLines)
    );
    assert_eq!(check_text("  a\nb  ", false, 5, Some(2)), Ok(JsonValue::Text("a\nb".to_owned())));
    assert_eq!(file_name_of("abc", "png"), "abc.png");
    assert_eq!(file_name_of("", ""), ".");
    assert_eq!(FileMime::from_type_and_subtype("text", "csv"), Some(FileMime::Csv));
    assert_eq!(FileMime::from_type_and_subtype("Text", "csv"), None);
}

#[test]
fn pieces_are_counted_as_split_counts_them() {
    for (text, word) in [
        ("a\nb\nc", "\n"),
        ("", "\n"),
        ("\n\n", "\n"),
        ("aaaa", "aa"),
        ("aaa", "aa"),
        ("abc", ""),
        ("", ""),
        ("abcabc", "bc"),
        ("ab", "abc"),
    ] {
        assert_eq!(count_pieces(text, word), text.split(word).count() as u128);
        assert_eq!(text.count_words(word), text.split(word).count() as u32);
    }
    assert_eq!("a\nb\nc".count_words("\n"), 3);
    assert_eq!(count_pieces("abc", ""), 5);
}

#[test]
fn text_helpers_agree_with_std() {
    assert_eq!(chars_of("a\u{4e2d}b"), vec!['a', '\u{4e2d}', 'b']);
    assert!(same_text("abc", "abc"));
    assert!(!same_text("abc", "abd"));
    assert_eq!(text_before_dot("abc.tar.gz"), "abc");
    assert_eq!(text_before_dot("abc"), "abc");
    assert_eq!(text_before_dot(".hidden"), "");
    assert_eq!(text_before_dot(""), "");
}

fn part(define: FormFieldDefine<FormFieldOptionValue>) -> PartFormSchema {
    PartFormSchema {
        form: TicketSchemaForm {
            id: 1,
            ticket_schema_flow_id: 1,
            expired_at: None,
            created_at: 0,
            updated_at: 0,
        },
        field: TicketSchemaFormField {
            id: 4,
            ticket_schema_form_id: 1,
            order: 0,
            key: "upload".to_owned(),
            name_zh: String::new(),
            description_zh: String::new(),
            define,
            required: true,
            editable: true,
            created_at: 0,
            updated_at: 0,
            name_en: String::new(),
            description_en: String::new(),
        },
    }
}

fn image_field() -> PartFormSchema {
    part(FormFieldDefine::Image {
        max_size: 100,
        min_width: Some(10),
        max_width: Some(20),
        min_height: Some(30),
        max_height: Some(40),
        mimes: vec![ImageMime::Png, ImageMime::Svg],
        default: None,
    })
}

fn file_field() -> PartFormSchema {
    part(FormFieldDefine::File { max_size: 100, mimes: vec![FileMime::Pdf], default: None })
}

fn png(width: u32, height: u32) -> ImageUpload {
    ImageUpload {
        file_size: 5,
        content: b"hello".to_vec(),
        is_svg: false,
        raster: Some(RasterImage { mime: Some(ImageMime::Png), width, height }),
        extension: Some("png".to_owned()),
    }
}

const HELLO: &str = "2cf24dba5fb0a30e26e83b2ac5b9e29e1b161e5c1fa7425e73043362938b9824";

#[test]
fn accepted_image_is_named_by_its_content() {
    let accepted = image_field().upload_image(&png(10, 40)).unwrap();
    assert_eq!(
        accepted,
        AcceptedImage {
            id: HELLO.to_owned(),
            file_name: format!("{}.png", HELLO),
            mime: ImageMime::Png,
            size: 5,
            width: 10,
            height: 40,
        }
    );
    assert_eq!(
        accepted.into_record(4, "/data/images/x.png".to_owned(), 77),
        TicketFormImage {
            id: HELLO.to_owned(),
            ticket_schema_form_field_id: 4,
            path: "/data/images/x.png".to_owned(),
            mime: ImageMime::Png,
            size: 5,
            width: 10,
            height: 40,
            created_at: 77,
            updated_at: 77,
        }
    );
    let mut other = png(10, 40);
    other.content = b"hello!".to_vec();
    assert_ne!(image_field().upload_image(&other).unwrap().id, HELLO);
}

#[test]
fn image_is_measured_against_the_field() {
    let refuse = |upload: ImageUpload| image_field().upload_image(&upload).unwrap_err();
    assert_eq!(refuse(png(9, 35)), UploadError::ImageWidthTooSmall);
    assert_eq!(refuse(png(21, 35)), UploadError::ImageWidthTooLarge);
    assert_eq!(refuse(png(15, 29)), UploadError::ImageHeightTooSmall);
    assert_eq!(refuse(png(15, 41)), UploadError::ImageHeightTooLarge);
    let mut large = png(15, 35);
    large.file_size = 101;
    assert_eq!(refuse(large), UploadError::ImageTooLarge);
    let mut limit = png(20, 30);
    limit.file_size = 100;
    assert_eq!(image_field().upload_image(&limit).unwrap().size, 100);
    let mut jpeg = png(15, 35);
    jpeg.raster = Some(RasterImage { mime: Some(ImageMime::Jpeg), width: 15, height: 35 });
    assert_eq!(refuse(jpeg), UploadError::InvalidImageType);
    let mut unknown = png(15, 35);
    unknown.raster = Some(RasterImage { mime: None, width: 15, height: 35 });
    assert_eq!(refuse(unknown), UploadError::InvalidImageType);
    let mut broken = png(15, 35);
    broken.raster = None;
    assert_eq!(refuse(broken), UploadError::UnreadableImage);
    let mut nameless = png(15, 35);
    nameless.extension = None;
    assert_eq!(refuse(nameless), UploadError::NoFileExtension);
    assert_eq!(file_field().upload_image(&png(15, 35)).unwrap_err(), UploadError::NotAnImage);
}

#[test]
fn vector_image_is_not_measured() {
    let svg = ImageUpload {
        file_size: 5,
        content: b"hello".to_vec(),
        is_svg: true,
        raster: None,
        extension: Some("svg".to_owned()),
    };
    let accepted = image_field().upload_image(&svg).unwrap();
    assert_eq!((accepted.mime, accepted.width, accepted.height), (ImageMime::Svg, 0, 0));
    assert_eq!(accepted.file_name, format!("{}.svg", HELLO));
    let no_svg = part(FormFieldDefine::Image {
        max_size: 100,
        min_width: None,
        max_width: None,
        min_height: None,
        max_height: None,
        mimes: vec![ImageMime::Png],
        default: None,
    });
    assert_eq!(no_svg.upload_image(&svg).unwrap_err(), UploadError::ImageFormatNotAllowed);
}

#[test]
fn file_is_accepted_by_its_declared_type() {
    let pdf = |top: &str, sub: &str| FileUpload {
        file_size: 5,
        content: b"hello".to_vec(),
        content_type: Some((top.to_owned(), sub.to_owned())),
        extension: Some("pdf".to_owned()),
    };
    let accepted = file_field().upload_file(&pdf("Application", "PDF")).unwrap();
    assert_eq!(
        accepted,
        AcceptedFile {
            id: HELLO.to_owned(),
            file_name: format!("{}.pdf", HELLO),
            mime: FileMime::Pdf,
            size: 5,
        }
    );
    assert_eq!(
        accepted.into_record(4, "p".to_owned(), 7),
        TicketFormFile {
            id: HELLO.to_owned(),
            ticket_schema_form_field_id: 4,
            path: "p".to_owned(),
            mime: FileMime::Pdf,
            size: 5,
            created_at: 7,
            updated_at: 7,
        }
    );
    let refuse = |upload: FileUpload| file_field().upload_file(&upload).unwrap_err();
    assert_eq!(refuse(pdf("text", "plain")), UploadError::InvalidFileType);
    assert_eq!(refuse(pdf("image", "png")), UploadError::InvalidFileType);
    let mut untyped = pdf("application", "pdf");
    untyped.content_type = None;
    assert_eq!(refuse(untyped), UploadError::InvalidFileType);
    let mut large = pdf("application", "pdf");
    large.file_size = 1 << 40;
    assert_eq!(refuse(large), UploadError::FileTooLarge);
    let mut nameless = pdf("application", "pdf");
    nameless.extension = None;
    assert_eq!(refuse(nameless), UploadError::NoFileExtension);
    assert_eq!(
        image_field().upload_file(&pdf("application", "pdf")).unwrap_err(),
        UploadError::NotAFile
    );
}

fn user(id: &str) -> User {
    User {
        id: id.to_owned(),
        name: id.to_owned(),
        project_id: "p".to_owned(),
        locale: "en".to_owned(),
        created_at: 0,
        updated_at: 0,
    }
}

fn target(id: i32, user_id: Option<&str>, label_id: Option<i32>) -> Target {
    Target { id, user_id: user_id.map(|u| u.to_owned()), label_id, created_at: 0, updated_at: 0 }
}

fn label(user_id: &str, label_id: i32) -> UserLabel {
    UserLabel { user_id: user_id.to_owned(), label_id, created_at: 0, updated_at: 0 }
}

#[test]
fn targets_name_users_directly_or_by_label() {
    let list = vec![target(1, Some("alice"), None), target(2, None, Some(5)), target(3, None, None)];
    assert!(Target::is_user_in_targets(&user("alice"), &vec![], &list));
    assert!(Target::is_user_in_targets(&user("bob"), &vec![4, 5], &list));
    assert!(!Target::is_user_in_targets(&user("bob"), &vec![4], &list));
    assert!(!Target::is_user_in_targets(&user("alice"), &vec![5], &vec![]));
    assert!(!list[2].is_user(&user("alice"), &vec![5]));
    assert_eq!(select_targets(&list, 2), vec![target(2, None, Some(5))]);
}

#[test]
fn named_users_come_once_each() {
    let targets = vec![target(1, Some("alice"), None), target(2, None, Some(5)), target(3, None, Some(6))];
    let users = vec![user("carol"), user("alice"), user("bob"), user("alice"), user("dave")];
    let labels = vec![label("alice", 5), label("bob", 6), label("bob", 5), label("dave", 7)];
    assert_eq!(Target::get_users(&targets, &users, &labels), vec![user("alice"), user("bob")]);
    assert!(Target::get_users(&vec![], &users, &labels).is_empty());
    let users = vec![user("dave"), user("bob"), user("carol"), user("bob"), user("alice")];
    let labels = vec![label("dave", 5), label("bob", 6), label("carol", 7)];
    assert_eq!(
        Target::get_users(&targets, &users, &labels),
        vec![user("alice"), user("bob"), user("dave")]
    );
    let step = TicketSchemaFlow {
        id: 1,
        ticket_schema_id: 1,
        order: 1,
        operator_id: 3,
        name: String::new(),
        created_at: 0,
        updated_at: 0,
    };
    assert_eq!(step.get_probably_assign_users(&targets, &users, &labels), vec![user("bob")]);
}

fn schema(id: i32) -> TicketSchema {
    TicketSchema {
        id,
        title: format!("schema {}", id),
        description: String::new(),
        project_id: "p".to_owned(),
        created_at: 0,
        updated_at: 0,
    }
}

fn step(id: i32, schema_id: i32, order: i32, operator_id: i32) -> TicketSchemaFlow {
    TicketSchemaFlow {
        id,
        ticket_schema_id: schema_id,
        order,
        operator_id,
        name: format!("step {}", id),
        created_at: 0,
        updated_at: 0,
    }
}

#[test]
fn next_step_gets_the_next_order() {
    let flows = vec![step(1, 1, 1, 1), step(2, 2, 7, 1), step(3, 1, 2, 1)];
    assert_eq!(schema(1).max_flow_order(&flows), Some(2));
    assert_eq!(
        schema(1).add_flow(&flows, 4, "third".to_owned(), 9),
        Some(TicketSchemaFlow {
            id: 0,
            ticket_schema_id: 1,
            order: 3,
            operator_id: 4,
            name: "third".to_owned(),
            created_at: 9,
            updated_at: 9,
        })
    );
    assert_eq!(schema(3).add_flow(&flows, 4, "first".to_owned(), 9).unwrap().order, 1);
    assert_eq!(schema(2).add_flow(&flows, 4, "next".to_owned(), 9).unwrap().order, 8);
    let full = vec![step(1, 1, i32::MAX, 1)];
    assert_eq!(schema(1).add_flow(&full, 4, "none".to_owned(), 9), None);
}

fn written(key: &str) -> FormSchemaField {
    FormSchemaField {
        name_zh: String::new(),
        name_en: key.to_owned(),
        description_zh: String::new(),
        description_en: String::new(),
        key: key.to_owned(),
        define: FormFieldDefine::Bool { default: None },
        required: false,
        editable: true,
    }
}

#[test]
fn added_fields_are_numbered_on() {
    let form = TicketSchemaForm {
        id: 6,
        ticket_schema_flow_id: 1,
        expired_at: None,
        created_at: 0,
        updated_at: 0,
    };
    let added = form.add_fields(None, vec![written("a"), written("b")], 3).unwrap();
    assert_eq!(added.iter().map(|f| (f.key.as_str(), f.order)).collect::<Vec<_>>(), vec![("a", 0), ("b", 1)]);
    assert!(added.iter().all(|f| f.ticket_schema_form_id == 6 && f.id == 0 && f.created_at == 3));
    let added = form.add_fields(Some(4), vec![written("c"), written("d"), written("e")], 3).unwrap();
    assert_eq!(added.iter().map(|f| (f.key.as_str(), f.order)).collect::<Vec<_>>(), vec![
        ("c", 5),
        ("d", 6),
        ("e", 7)
    ]);
    assert_eq!(form.add_fields(Some(i32::MAX - 1), vec![written("x")], 3).unwrap()[0].order, i32::MAX);
    assert_eq!(form.add_fields(Some(i32::MAX - 1), vec![written("x"), written("y")], 3), None);
    assert_eq!(form.add_fields(Some(i32::MAX), vec![], 3), Some(vec![]));
}

fn stored_field(id: i32, form_id: i32, order: i32, key: &str) -> TicketSchemaFormField {
    TicketSchemaFormField {
        id,
        ticket_schema_form_id: form_id,
        order,
        key: key.to_owned(),
        name_zh: String::new(),
        description_zh: String::new(),
        define: FormFieldDefine::Bool { default: None },
        required: false,
        editable: true,
        created_at: 0,
        updated_at: 0,
        name_en: String::new(),
        description_en: String::new(),
    }
}

#[test]
fn template_is_laid_out_in_order() {
    let flows = vec![step(3, 1, 3, 1), step(1, 1, 1, 1), step(9, 2, 1, 1), step(2, 1, 2, 1)];
    let forms = vec![TicketSchemaForm {
        id: 6,
        ticket_schema_flow_id: 1,
        expired_at: None,
        created_at: 0,
        updated_at: 0,
    }];
    let reviews = vec![TicketSchemaReview {
        id: 8,
        ticket_schema_flow_id: 3,
        restarted: true,
        created_at: 0,
        updated_at: 0,
    }];
    let fields = vec![
        stored_field(1, 6, 1, "b"),
        stored_field(2, 7, 0, "other"),
        stored_field(3, 6, 0, "a"),
    ];
    assert_eq!(
        schema(1).get_flows(&flows).iter().map(|f| f.id).collect::<Vec<_>>(),
        vec![1, 2, 3]
    );
    let items = schema(1).get_detail_flows(&flows, &forms, &reviews, &fields);
    assert_eq!(items.len(), 2);
    assert_eq!(items[0].schema, step(1, 1, 1, 1));
    assert_eq!(
        items[0].module,
        TicketSchemaFlowValue::Form(FormSchema {
            form: forms[0],
            fields: vec![stored_field(3, 6, 0, "a"), stored_field(1, 6, 1, "b")],
        })
    );
    assert_eq!(items[1].schema, step(3, 1, 3, 1));
    assert_eq!(items[1].module, TicketSchemaFlowValue::Review(reviews[0]));
    assert_eq!(schema(1).get_detail_flows_with_user(&vec![], &flows, &forms, &reviews, &fields), items);
    assert_eq!(step(2, 1, 2, 1).get_detail(&forms, &reviews, &fields), None);
    assert_eq!(step(3, 1, 3, 1).get_detail(&forms, &reviews, &fields).unwrap().module, items[1].module);
    let state = TicketFlow {
        id: 1,
        ticket_id: 1,
        user_id: None,
        ticket_schema_flow_id: 3,
        finished: false,
        created_at: 0,
        updated_at: 0,
    };
    assert_eq!(state.get_schema(&flows, &forms, &reviews, &fields).unwrap().schema, step(3, 1, 3, 1));
    let lost = TicketFlow { ticket_schema_flow_id: 77, ..state };
    assert_eq!(lost.get_schema(&flows, &forms, &reviews, &fields), None);
}

#[test]
fn managers_and_starters_are_named_by_targets() {
    let targets = vec![target(1, Some("alice"), None), target(2, None, Some(5))];
    let managers = vec![TicketSchemaManager {
        id: 1,
        ticket_schema_id: 1,
        target_id: 2,
        created_at: 0,
        updated_at: 0,
    }];
    let flows = vec![step(1, 1, 1, 1), step(2, 1, 2, 2), step(3, 2, 1, 2)];
    assert!(schema(1).is_manager(&managers, &targets, &user("bob"), &vec![5]));
    assert!(!schema(1).is_manager(&managers, &targets, &user("alice"), &vec![]));
    assert!(!schema(2).is_manager(&managers, &targets, &user("bob"), &vec![5]));
    assert!(schema(1).is_probably_join_user(&flows, &targets, &user("alice"), &vec![]));
    assert!(!schema(1).is_probably_join_user(&flows, &targets, &user("bob"), &vec![5]));
    assert!(schema(1).is_probably_user(&flows, &targets, &user("bob"), &vec![5]));
    assert!(schema(2).is_probably_join_user(&flows, &targets, &user("bob"), &vec![5]));
    let all = vec![schema(1), schema(2)];
    assert_eq!(
        TicketSchema::get_probably_schemas(&all, &flows, &targets, &user("bob"), &vec![5]),
        vec![schema(2)]
    );
    assert_eq!(
        TicketSchema::get_manager_schemas(&all, &managers, &targets, &user("bob"), &vec![5]),
        vec![schema(1)]
    );
    let users = vec![user("alice"), user("bob"), user("carol")];
    let labels = vec![label("bob", 5), label("carol", 4)];
    assert_eq!(schema(1).get_managers(&managers, &targets, &users, &labels), vec![user("bob")]);
    assert!(schema(2).get_managers(&managers, &targets, &users, &labels).is_empty());
    assert_eq!(schema(1).get_manager_targets(&managers, &targets), vec![target(2, None, Some(5))]);
    let ticket = |id: i32, schema_id: i32| Ticket {
        id,
        ticket_schema_id: schema_id,
        title: String::new(),
        finished: false,
        created_at: 0,
        updated_at: 0,
    };
    let tickets = vec![ticket(1, 1), ticket(2, 2), ticket(3, 1)];
    assert_eq!(schema(1).get_tickets(&tickets), vec![ticket(1, 1), ticket(3, 1)]);
    let found = ticket(2, 2).get_schema(&all, &vec![], &flows, &vec![], &vec![], &vec![]);
    assert_eq!(found, Some((schema(2), vec![])));
    assert_eq!(ticket(4, 9).get_schema(&all, &vec![], &flows, &vec![], &vec![], &vec![]), None);
}

#[test]
fn errors_carry_their_status() {
    let message = || "m".to_owned();
    assert_eq!(AppError::not_found(message()).status, Status::NotFound);
    assert_eq!(AppError::unauthorized(message()).status, Status::Unauthorized);
    assert_eq!(AppError::bad_request(message()).status, Status::BadRequest);
    assert_eq!(AppError::forbidden(message()).status, Status::Forbidden);
    assert_eq!(AppError::too_many_requests(message()).status, Status::TooManyRequests);
    assert_eq!(AppError::unknown_host(message()).status, Status::BadRequest);
    assert_eq!(AppError::internal(message()).status, Status::InternalServerError);
    let mut fields = serde_json::Map::new();
    fields.insert("name".to_owned(), serde_json::Value::String("required".to_owned()));
    let error = AppError::bad_request_with_fields(message(), fields.clone());
    assert_eq!(error, AppError { status: Status::BadRequest, message: message(), fields: Some(fields) });
    assert_eq!(AppError::internal(message()).fields, None);
    assert_eq!(
        [
            Status::BadRequest.code(),
            Status::Unauthorized.code(),
            Status::Forbidden.code(),
            Status::NotFound.code(),
            Status::TooManyRequests.code(),
            Status::InternalServerError.code(),
        ],
        [400, 401, 403, 404, 429, 500]
    );
    assert_eq!(ProcessError::NoProcessFlow.status(), Status::NotFound);
    assert_eq!(ProcessError::NotAssignedToFlow.status(), Status::Forbidden);
    assert_eq!(ProcessError::NotAssignedToSchema.status(), Status::Forbidden);
    assert_eq!(ProcessError::InvalidRequest.status(), Status::BadRequest);
    assert_eq!(ProcessError::InvalidFields(vec![]).status(), Status::BadRequest);
    assert_eq!(ProcessError::NoPreviousFlow.status(), Status::InternalServerError);
    assert_eq!(
        ProcessError::NotAssignedToFlow.message_key(),
        "ticket.error.not_assign_to_this_flow"
    );
    assert_eq!(ProcessError::InvalidFields(vec![]).message_key(), "error.wrong_fields");
    assert_eq!(UploadError::ImageTooLarge.message_key(), "ticket.rules.image_too_large");
    assert_eq!(UploadError::InvalidFileType.message_key(), "ticket.rules.invalid_file_type");
}

#[test]
fn locale_follows_the_request() {
    assert_eq!(choose_locale(Some("fr"), Some("zh")), I18n::new("fr"));
    assert_eq!(choose_locale(None, Some("zh-TW,zh;q=0.9,en;q=0.8")).locale, "zh");
    assert_eq!(choose_locale(None, Some("fr-FR,en-US;q=0.9,zh;q=0.8")).locale, "en");
    assert_eq!(choose_locale(None, Some("fr, zh")).locale, "en");
    assert_eq!(choose_locale(None, Some("de,fr")).locale, "en");
    assert_eq!(choose_locale(None, None).locale, "en");
    assert_eq!(accepted_locale("fr,zh"), Some(false));
    assert_eq!(accepted_locale("fr;en"), None);
    assert_eq!(accepted_locale("e"), None);
    assert_eq!(accepted_locale(""), None);
    assert_eq!(UserAgent::from_header(Some("curl")), UserAgent("curl".to_owned()));
    assert_eq!(UserAgent::from_header(None), UserAgent("Unknown".to_owned()));
}

#[test]
fn login_link_counts_for_a_quarter_of_an_hour() {
    let claims = LoginClaims::new("alice".to_owned(), 1000).unwrap();
    assert_eq!(
        claims,
        LoginClaims {
            exp: 1900,
            iat: 1000,
            sub: "conf-ops-login".to_owned(),
            user_id: "alice".to_owned(),
        }
    );
    assert_eq!(LoginClaims::new("alice".to_owned(), i64::MAX - 899), None);
    assert!(LoginClaims::new("alice".to_owned(), i64::MAX - 900).is_some());
}

fn in_white_space_set(c: char) -> bool {
    let code = c as u32;
    (0x09..=0x0d).contains(&code)
        || [0x20, 0x85, 0xa0, 0x1680, 0x2028, 0x2029, 0x202f, 0x205f, 0x3000].contains(&code)
        || (0x2000..=0x200a).contains(&code)
}

#[test]
fn white_space_is_the_same_set_for_every_character() {
    let all: Vec<char> = (0..=0x10ffff_u32).filter_map(char::from_u32).collect();
    assert_eq!(all.len(), 0x110000 - 0x800);
    let marks = white_space_marks(&all);
    assert_eq!(marks.len(), all.len());
    for (c, mark) in all.iter().zip(marks.iter()) {
        assert_eq!(*mark, in_white_space_set(*c), "U+{:04X}", *c as u32);
        assert_eq!(*mark, c.is_whitespace(), "U+{:04X}", *c as u32);
    }
    assert_eq!(marks.iter().filter(|m| **m).count(), 25);
    assert_eq!(trim("\u{3000}\u{2003}a\u{a0}b\u{85}\u{1680}"), "a\u{a0}b");
    assert_eq!(trim("\u{200b}a\u{feff}"), "\u{200b}a\u{feff}");
}

#[test]
fn texts_are_ordered_as_strings_are() {
    let texts = [
        "", "a", "A", "ab", "abc", "abd", "b", "ba", "alice", "bob", "10", "9", "\u{e9}",
        "\u{4e2d}", "\u{4e2d}a", "\u{ffff}", "\u{10000}", "\u{1f600}", "z\u{10000}", "z\u{ffff}",
    ];
    for a in texts {
        for b in texts {
            assert_eq!(comes_before(a, b), a < b, "{:?} {:?}", a, b);
            assert_eq!(comes_before(a, b), a.to_owned() < b.to_owned(), "{:?} {:?}", a, b);
        }
    }
    assert!(comes_before("alice", "bob"));
    assert!(comes_before("ab", "abc"));
    assert!(!comes_before("abc", "abc"));
    assert!(!comes_before("b", "abc"));
    assert!(comes_before("\u{ffff}", "\u{10000}"));
}

fn named(id: &str, name: &str) -> User {
    let mut found = user(id);
    found.name = name.to_owned();
    found
}

#[test]
fn users_come_in_the_order_of_their_ids() {
    let users = vec![
        named("m", "first m"),
        named("b", "first b"),
        named("z", "z"),
        named("m", "second m"),
        named("a", "a"),
        named("b", "second b"),
        named("ab", "ab"),
        named("", "nameless"),
        named("\u{4e2d}", "wide"),
    ];
    let unique = unique_by_id(&users);
    let ids: Vec<&str> = unique.iter().map(|u| u.id.as_str()).collect();
    assert_eq!(ids, vec!["", "a", "ab", "b", "m", "z", "\u{4e2d}"]);
    assert_eq!(unique[3], named("b", "first b"));
    assert_eq!(unique[4], named("m", "first m"));
    let mut expected = users;
    expected.sort_by_key(|u| u.id.clone());
    expected.dedup_by_key(|u| u.id.clone());
    assert_eq!(unique, expected);
    assert!(unique_by_id(&vec![]).is_empty());
    assert_eq!(unique_by_id(&unique), unique);
}
