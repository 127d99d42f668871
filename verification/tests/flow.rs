use conf_ops::export::{export_fields, export_row, number_text, review_key, ExportField};
use conf_ops::fields::{FormFieldDefine, FormFieldOptionValue};
use conf_ops::forms::form::FieldIssue;
use conf_ops::forms::schema::{FormSchema, TicketSchemaForm, TicketSchemaFormField};
use conf_ops::forms::validate::{FieldError, Uploads};
use conf_ops::overview::{
    flow_statuses, get_enabled_features_by_user, Directory, EnabledFeature,
};
use conf_ops::process::{
    process_ticket_flow, ProcessError, StepOutcome, TicketFlowProcessReq, TicketFlowReviewReq,
    TicketProcessFlow, TicketProcessed,
};
use conf_ops::target::{Label, Role, Target, User};
use conf_ops::ticket::{
    Ticket, TicketFlow, TicketFlowItem, TicketFlowOperator, TicketFlowValue, TicketReview,
    TicketStatus, TicketWithStatus,
};
use conf_ops::workflow::{
    TicketSchemaFlow, TicketSchemaFlowItem, TicketSchemaFlowValue, TicketSchemaReview,
};
use conf_ops::forms::answers::TicketFormAnswer;
use serde_json::Value;
use std::collections::HashMap;

fn user(id: &str) -> User {
    User {
        id: id.to_owned(),
        name: id.to_owned(),
        project_id: "p".to_owned(),
        locale: "en".to_owned(),
        created_at: 0,
        updated_at: 0,
    }
}

fn step(id: i32, order: i32, operator_id: i32) -> TicketSchemaFlow {
    TicketSchemaFlow {
        id,
        ticket_schema_id: 1,
        order,
        operator_id,
        name: format!("step {}", order),
        created_at: 0,
        updated_at: 0,
    }
}

fn name_form() -> FormSchema {
    let define: FormFieldDefine<FormFieldOptionValue> =
        FormFieldDefine::SingleLineText { text_type: None, max_texts: 20, default: None };
    FormSchema {
        form: TicketSchemaForm {
            id: 1,
            ticket_schema_flow_id: 1,
            expired_at: None,
            created_at: 0,
            updated_at: 0,
        },
        fields: vec![TicketSchemaFormField {
            id: 1,
            ticket_schema_form_id: 1,
            order: 0,
            key: "name".to_owned(),
            name_zh: String::new(),
            description_zh: String::new(),
            define,
            required: true,
            editable: true,
            created_at: 0,
            updated_at: 0,
            name_en: "Name".to_owned(),
            description_en: String::new(),
        }],
    }
}

fn review(id: i32, flow_id: i32, restarted: bool) -> TicketSchemaReview {
    TicketSchemaReview { id, ticket_schema_flow_id: flow_id, restarted, created_at: 0, updated_at: 0 }
}

fn form_then_review() -> Vec<TicketSchemaFlowItem> {
    vec![
        TicketSchemaFlowItem { schema: step(1, 1, 1), module: TicketSchemaFlowValue::Form(name_form()) },
        TicketSchemaFlowItem {
            schema: step(2, 2, 2),
            module: TicketSchemaFlowValue::Review(review(1, 2, false)),
        },
    ]
}

fn steps_of(schema: &[TicketSchemaFlowItem]) -> Vec<TicketSchemaFlow> {
    schema.iter().map(|item| item.schema.clone()).collect()
}

fn targets() -> Vec<Target> {
    vec![
        Target { id: 1, user_id: Some("alice".to_owned()), label_id: None, created_at: 0, updated_at: 0 },
        Target { id: 2, user_id: None, label_id: Some(5), created_at: 0, updated_at: 0 },
    ]
}

fn ticket() -> Ticket {
    Ticket {
        id: 9,
        ticket_schema_id: 1,
        title: "Talk".to_owned(),
        finished: false,
        created_at: 100,
        updated_at: 100,
    }
}

fn state(id: i32, step_id: i32, user_id: Option<&str>, finished: bool) -> TicketFlow {
    TicketFlow {
        id,
        ticket_id: 9,
        user_id: user_id.map(|u| u.to_owned()),
        ticket_schema_flow_id: step_id,
        finished,
        created_at: 100,
        updated_at: 100,
    }
}

fn no_uploads() -> Uploads {
    Uploads { files: vec![], images: vec![] }
}

fn form_request(name: &str) -> TicketFlowProcessReq {
    let mut data = serde_json::Map::new();
    data.insert("name".to_owned(), Value::String(name.to_owned()));
    TicketFlowProcessReq { flow: TicketProcessFlow::Form(data) }
}

fn verdict(approved: bool) -> TicketFlowProcessReq {
    TicketFlowProcessReq {
        flow: TicketProcessFlow::Review(TicketFlowReviewReq { approved, comment: None }),
    }
}

fn act(
    ticket: &Ticket,
    flows: &Vec<TicketFlow>,
    schema: &Vec<TicketSchemaFlowItem>,
    who: &str,
    labels: Vec<i32>,
    req: TicketFlowProcessReq,
) -> Result<TicketProcessed, ProcessError> {
    process_ticket_flow(ticket, flows, schema, &targets(), &user(who), &labels, &no_uploads(), &req, 200)
}

#[test]
fn new_ticket_gets_one_unfinished_state_per_step() {
    let steps = vec![step(1, 1, 1), step(2, 2, 2), step(3, 3, 2)];
    let mut assign = HashMap::new();
    assign.insert(2, "bob".to_owned());
    let states = ticket().fill_flows(&steps, &assign, 150);
    assert_eq!(states.len(), 3);
    assert!(states.iter().all(|s| !s.finished && s.ticket_id == 9 && s.id == 0));
    assert_eq!(
        states.iter().map(|s| s.ticket_schema_flow_id).collect::<Vec<_>>(),
        vec![1, 2, 3]
    );
    assert_eq!(
        states.iter().map(|s| s.user_id.clone()).collect::<Vec<_>>(),
        vec![None, Some("bob".to_owned()), None]
    );
    assert!(states.iter().all(|s| s.created_at == 150 && s.updated_at == 150));
    assert!(ticket().fill_flows(&vec![], &assign, 150).is_empty());
}

#[test]
fn submitting_the_form_moves_on_to_the_review() {
    let schema = form_then_review();
    let steps = steps_of(&schema);
    let flows = vec![state(1, 1, None, false), state(2, 2, None, false)];
    let done = act(&ticket(), &flows, &schema, "alice", vec![], form_request("Alice")).unwrap();
    assert_eq!(done.flow_index, 0);
    assert_eq!(done.flows, vec![state(1, 1, Some("alice"), true), state(2, 2, None, false)]);
    assert!(!done.ticket.finished);
    assert_eq!(done.ticket.updated_at, 200);
    let mut kept = serde_json::Map::new();
    kept.insert("name".to_owned(), Value::String("Alice".to_owned()));
    assert_eq!(done.outcome, StepOutcome::FormAnswer(kept));
    assert_eq!(done.ticket.get_process_flow(&done.flows, &steps), Some(state(2, 2, None, false)));
}

#[test]
fn rejection_without_restart_goes_back_one_step() {
    let schema = form_then_review();
    let steps = steps_of(&schema);
    let flows = vec![state(1, 1, Some("alice"), true), state(2, 2, None, false)];
    let done = act(&ticket(), &flows, &schema, "bob", vec![5], verdict(false)).unwrap();
    assert_eq!(done.flow_index, 1);
    assert_eq!(
        done.flows,
        vec![state(1, 1, Some("alice"), false), state(2, 2, Some("bob"), false)]
    );
    assert!(!done.ticket.finished);
    assert_eq!(
        done.outcome,
        StepOutcome::Review(TicketFlowReviewReq { approved: false, comment: None })
    );
    assert_eq!(
        done.ticket.get_process_flow(&done.flows, &steps),
        Some(state(1, 1, Some("alice"), false))
    );
}

#[test]
fn rejection_with_restart_resets_every_step() {
    let schema = vec![TicketSchemaFlowItem {
        schema: step(1, 1, 2),
        module: TicketSchemaFlowValue::Review(review(1, 1, true)),
    }];
    let steps = steps_of(&schema);
    let flows = vec![state(1, 1, None, false)];
    let done = act(&ticket(), &flows, &schema, "bob", vec![5], verdict(false)).unwrap();
    assert_eq!(done.flows, vec![state(1, 1, Some("bob"), false)]);
    assert!(!done.ticket.finished);
    assert_eq!(
        done.ticket.get_process_flow(&done.flows, &steps),
        Some(state(1, 1, Some("bob"), false))
    );

    let schema = vec![
        TicketSchemaFlowItem { schema: step(1, 1, 1), module: TicketSchemaFlowValue::Form(name_form()) },
        TicketSchemaFlowItem { schema: step(2, 2, 1), module: TicketSchemaFlowValue::Form(name_form()) },
        TicketSchemaFlowItem {
            schema: step(3, 3, 2),
            module: TicketSchemaFlowValue::Review(review(1, 3, true)),
        },
    ];
    let mut other = state(7, 1, Some("carol"), true);
    other.ticket_id = 10;
    let flows = vec![
        state(1, 1, Some("alice"), true),
        other.clone(),
        state(2, 2, Some("alice"), true),
        state(3, 3, None, false),
    ];
    let done = act(&ticket(), &flows, &schema, "bob", vec![5], verdict(false)).unwrap();
    assert_eq!(
        done.flows,
        vec![
            state(1, 1, Some("alice"), false),
            other,
            state(2, 2, Some("alice"), false),
            state(3, 3, Some("bob"), false),
        ]
    );
    assert_eq!(done.flow_index, 3);
}

#[test]
fn approval_of_the_last_step_finishes_the_ticket() {
    let schema = form_then_review();
    let flows = vec![state(1, 1, Some("alice"), true), state(2, 2, Some("bob"), false)];
    let request = TicketFlowProcessReq {
        flow: TicketProcessFlow::Review(TicketFlowReviewReq {
            approved: true,
            comment: Some("fine".to_owned()),
        }),
    };
    let done = act(&ticket(), &flows, &schema, "bob", vec![5], request).unwrap();
    assert!(done.ticket.finished);
    assert_eq!(done.flows, vec![state(1, 1, Some("alice"), true), state(2, 2, Some("bob"), true)]);
    assert_eq!(
        done.outcome,
        StepOutcome::Review(TicketFlowReviewReq { approved: true, comment: Some("fine".to_owned()) })
    );
    assert_eq!(done.ticket.get_process_flow(&done.flows, &steps_of(&schema)), None);
}

#[test]
fn invalid_form_changes_nothing_and_lists_the_errors() {
    let schema = form_then_review();
    let flows = vec![state(1, 1, None, false), state(2, 2, None, false)];
    let empty = TicketFlowProcessReq { flow: TicketProcessFlow::Form(serde_json::Map::new()) };
    assert_eq!(
        act(&ticket(), &flows, &schema, "alice", vec![], empty),
        Err(ProcessError::InvalidFields(vec![FieldIssue {
            key: "name".to_owned(),
            error: FieldError::Required,
        }]))
    );
}

#[test]
fn only_those_who_may_act_can_act() {
    let schema = form_then_review();
    let open = vec![state(1, 1, None, false), state(2, 2, None, false)];
    assert_eq!(
        act(&ticket(), &open, &schema, "mallory", vec![], form_request("x")),
        Err(ProcessError::NotAssignedToSchema)
    );
    let assigned = vec![state(1, 1, Some("carol"), false), state(2, 2, None, false)];
    assert_eq!(
        act(&ticket(), &assigned, &schema, "alice", vec![], form_request("x")),
        Err(ProcessError::NotAssignedToFlow)
    );
    let review_open = vec![state(1, 1, Some("alice"), true), state(2, 2, None, false)];
    assert_eq!(
        act(&ticket(), &review_open, &schema, "alice", vec![], verdict(true)),
        Err(ProcessError::NotAssignedToSchema)
    );
    let assigned_outsider = vec![state(1, 1, Some("alice"), true), state(2, 2, Some("alice"), false)];
    assert_eq!(
        act(&ticket(), &assigned_outsider, &schema, "alice", vec![], verdict(true)),
        Err(ProcessError::NotAssignedToSchema)
    );
    assert_eq!(
        act(&ticket(), &open, &schema, "alice", vec![], verdict(true)),
        Err(ProcessError::InvalidRequest)
    );
    assert_eq!(
        act(&ticket(), &review_open, &schema, "bob", vec![5], form_request("x")),
        Err(ProcessError::InvalidRequest)
    );
    let all_done = vec![state(1, 1, Some("alice"), true), state(2, 2, Some("bob"), true)];
    assert_eq!(
        act(&ticket(), &all_done, &schema, "alice", vec![], form_request("x")),
        Err(ProcessError::NoProcessFlow)
    );
}

#[test]
fn rejection_at_the_first_step_has_nowhere_to_go() {
    let schema = vec![TicketSchemaFlowItem {
        schema: step(1, 1, 2),
        module: TicketSchemaFlowValue::Review(review(1, 1, false)),
    }];
    let flows = vec![state(1, 1, None, false)];
    assert_eq!(
        act(&ticket(), &flows, &schema, "bob", vec![5], verdict(false)),
        Err(ProcessError::NoPreviousFlow)
    );
}

#[test]
fn steps_are_found_by_order_not_by_place() {
    let steps = vec![step(3, 3, 1), step(1, 1, 1), step(2, 2, 1)];
    let flows = vec![
        state(30, 3, None, false),
        state(20, 2, None, false),
        state(10, 1, None, true),
        state(40, 4, None, false),
    ];
    let t = ticket();
    assert_eq!(t.get_process_flow(&flows, &steps), Some(state(20, 2, None, false)));
    assert_eq!(t.process_flow_index(&flows, &steps), Some(1));
    assert_eq!(t.get_latest_flow(&flows, &steps), Some(state(30, 3, None, false)));
    assert_eq!(t.get_previous_flow(&flows, &steps, &flows[0]), Some(state(20, 2, None, false)));
    assert_eq!(t.get_previous_flow(&flows, &steps, &flows[1]), Some(state(10, 1, None, true)));
    assert_eq!(t.get_previous_flow(&flows, &steps, &flows[2]), None);
    assert_eq!(t.get_previous_flow(&flows, &steps, &flows[3]), None);
    let mut other = ticket();
    other.id = 10;
    assert_eq!(other.get_process_flow(&flows, &steps), None);
    assert_eq!(other.get_latest_flow(&flows, &steps), None);
}

#[test]
fn status_depends_on_who_looks() {
    let steps = vec![step(1, 1, 1), step(2, 2, 2)];
    let flows = vec![state(1, 1, Some("alice"), true), state(2, 2, None, false)];
    let t = ticket();
    assert_eq!(t.get_status(&flows, &steps, &targets(), &user("bob"), &vec![5]), TicketStatus::Pending);
    assert_eq!(
        t.get_status(&flows, &steps, &targets(), &user("alice"), &vec![]),
        TicketStatus::InProgress
    );
    let assigned = vec![state(1, 1, Some("alice"), true), state(2, 2, Some("carol"), false)];
    assert_eq!(
        t.get_status(&assigned, &steps, &targets(), &user("bob"), &vec![5]),
        TicketStatus::InProgress
    );
    assert_eq!(
        t.get_status(&assigned, &steps, &targets(), &user("carol"), &vec![]),
        TicketStatus::Pending
    );
    let done = vec![state(1, 1, Some("alice"), true), state(2, 2, Some("bob"), true)];
    assert_eq!(
        t.get_status(&done, &steps, &targets(), &user("bob"), &vec![5]),
        TicketStatus::InProgress
    );
    assert_eq!(
        t.get_status(&vec![], &steps, &targets(), &user("bob"), &vec![5]),
        TicketStatus::InProgress
    );
    let mut finished = ticket();
    finished.finished = true;
    assert_eq!(
        finished.get_status(&flows, &steps, &targets(), &user("bob"), &vec![5]),
        TicketStatus::Finished
    );
    assert!(t.is_user(&flows, &steps, &targets(), &user("alice"), &vec![]));
    assert!(!t.is_user(&flows, &steps, &targets(), &user("bob"), &vec![5]));
    assert!(t.is_user(&assigned, &steps, &targets(), &user("carol"), &vec![]));
    assert!(!t.is_user(&flows, &steps, &targets(), &user("mallory"), &vec![]));
    assert!(!t.is_user(&done, &steps, &targets(), &user("carol"), &vec![5]));
}

fn ticket_at(id: i32, created_at: i64, finished: bool) -> Ticket {
    Ticket {
        id,
        ticket_schema_id: 1,
        title: format!("ticket {}", id),
        finished,
        created_at,
        updated_at: created_at,
    }
}

fn state_of(ticket_id: i32, step_id: i32, user_id: Option<&str>, finished: bool) -> TicketFlow {
    let mut flow = state(ticket_id * 10 + step_id, step_id, user_id, finished);
    flow.ticket_id = ticket_id;
    flow
}

#[test]
fn list_puts_pending_first_and_older_before_newer() {
    let steps = vec![step(1, 1, 1), step(2, 2, 2)];
    let tickets = vec![
        ticket_at(1, 500, true),
        ticket_at(2, 400, false),
        ticket_at(3, 300, false),
        ticket_at(4, 200, false),
        ticket_at(5, 100, false),
        ticket_at(6, 50, true),
    ];
    let flows = vec![
        state_of(1, 1, Some("bob"), true),
        state_of(1, 2, Some("bob"), true),
        state_of(2, 1, Some("alice"), true),
        state_of(2, 2, None, false),
        state_of(3, 1, Some("bob"), true),
        state_of(3, 2, Some("carol"), false),
        state_of(4, 1, Some("alice"), true),
        state_of(4, 2, Some("bob"), false),
        state_of(5, 1, Some("alice"), false),
        state_of(5, 2, None, false),
        state_of(6, 1, Some("bob"), true),
    ];
    let bob = user("bob");
    let list = Ticket::get_tickets_by_user(&tickets, &flows, &steps, &targets(), &bob, &vec![5]);
    let seen: Vec<(i32, TicketStatus)> = list.iter().map(|t| (t.ticket.id, t.status)).collect();
    assert_eq!(
        seen,
        vec![
            (4, TicketStatus::Pending),
            (2, TicketStatus::Pending),
            (3, TicketStatus::InProgress),
            (6, TicketStatus::Finished),
            (1, TicketStatus::Finished),
        ]
    );
    assert_eq!(
        Ticket::get_pending_ticket_ids_by_user(&tickets, &flows, &steps, &targets(), &bob, &vec![5]),
        vec![2, 4]
    );
    assert_eq!(
        Ticket::get_pending_tickets_by_user(&tickets, &flows, &steps, &targets(), &bob, &vec![5]),
        vec![ticket_at(2, 400, false), ticket_at(4, 200, false)]
    );
    assert_eq!(
        get_enabled_features_by_user(&list, true),
        vec![EnabledFeature::Ticket(2, 1), EnabledFeature::TicketManage(0, 0)]
    );
    assert_eq!(get_enabled_features_by_user(&vec![], false), vec![EnabledFeature::Ticket(0, 0)]);
}

#[test]
fn ticket_is_listed_as_finished_only_when_marked() {
    let steps = vec![step(1, 1, 1), step(2, 2, 2)];
    let tickets = vec![ticket_at(1, 300, false), ticket_at(2, 200, true), ticket_at(3, 100, false)];
    let flows = vec![
        state_of(1, 1, Some("bob"), true),
        state_of(1, 2, Some("bob"), true),
        state_of(2, 1, Some("bob"), false),
        state_of(3, 1, Some("bob"), false),
    ];
    let bob = user("bob");
    let list = Ticket::get_tickets_by_user(&tickets, &flows, &steps, &targets(), &bob, &vec![]);
    let seen: Vec<(i32, TicketStatus)> = list.iter().map(|t| (t.ticket.id, t.status)).collect();
    assert_eq!(
        seen,
        vec![
            (3, TicketStatus::Pending),
            (1, TicketStatus::InProgress),
            (2, TicketStatus::Finished),
        ]
    );
    for entry in &list {
        assert_eq!(entry.status == TicketStatus::Finished, entry.ticket.finished);
    }
    for (i, a) in list.iter().enumerate() {
        for b in &list[i + 1..] {
            assert_ne!(a.ticket.id, b.ticket.id);
        }
    }
    assert_eq!(
        get_enabled_features_by_user(&list, false),
        vec![EnabledFeature::Ticket(1, 1)]
    );
}

#[test]
fn flow_item_prefers_the_assigned_user() {
    let role = Role {
        id: "r".to_owned(),
        name_zh: String::new(),
        project_id: "p".to_owned(),
        login_message_zh: None,
        welcome_message_zh: None,
        created_at: 0,
        updated_at: 0,
        name_en: "Staff".to_owned(),
        login_message_en: None,
        welcome_message_en: None,
    };
    let verdict = TicketReview {
        id: 1,
        ticket_flow_id: 1,
        ticket_schema_review_id: 1,
        approved: true,
        comment: None,
        created_at: 0,
        updated_at: 0,
    };
    let item = TicketFlowItem::new(state(1, 1, None, false), Some(user("a")), Some(user("b")), None, None, None);
    assert_eq!(item.operator, TicketFlowOperator::User(user("a")));
    assert_eq!(item.module, TicketFlowValue::Empty);
    let item = TicketFlowItem::new(state(1, 1, None, false), None, Some(user("b")), None, None, None);
    assert_eq!(item.operator, TicketFlowOperator::User(user("b")));
    let item = TicketFlowItem::new(state(1, 1, None, false), None, None, None, None, Some(verdict));
    assert_eq!(item.operator, TicketFlowOperator::Nobody);
    assert!(matches!(item.module, TicketFlowValue::Review(_)));
    let answer = TicketFormAnswer {
        id: 1,
        ticket_flow_id: 1,
        ticket_schema_form_id: 1,
        value: serde_json::Map::new(),
        created_at: 0,
        updated_at: 0,
    };
    let item = TicketFlowItem::new(state(1, 1, None, false), None, None, Some(role), Some(answer), None);
    assert!(matches!(item.operator, TicketFlowOperator::Role(_)));
    assert!(matches!(item.module, TicketFlowValue::Form(_)));
}

#[test]
fn ticket_detail_has_one_entry_per_step() {
    let item = |id: i32| TicketFlowItem::new(state(id, id, None, false), None, None, None, None, None);
    let statuses = flow_statuses(form_then_review(), vec![item(1)]);
    assert_eq!(statuses.len(), 2);
    assert_eq!(statuses[0].schema, form_then_review().remove(0));
    assert_eq!(statuses[0].flow, Some(item(1)));
    assert_eq!(statuses[1].schema, form_then_review().remove(1));
    assert_eq!(statuses[1].flow, None);
    let statuses = flow_statuses(form_then_review(), vec![item(1), item(2), item(3)]);
    assert_eq!(statuses.len(), 2);
    assert_eq!(statuses[1].flow, Some(item(2)));
    assert!(flow_statuses(vec![], vec![item(1)]).is_empty());
}

#[test]
fn verdict_handed_in_again_replaces_the_first() {
    let stored = TicketReview {
        id: 3,
        ticket_flow_id: 2,
        ticket_schema_review_id: 1,
        approved: false,
        comment: Some("no".to_owned()),
        created_at: 10,
        updated_at: 10,
    };
    let reviews = vec![stored];
    assert_eq!(
        TicketReview::save_or_create(&reviews, 2, 1, true, None, 50),
        TicketReview {
            id: 3,
            ticket_flow_id: 2,
            ticket_schema_review_id: 1,
            approved: true,
            comment: None,
            created_at: 10,
            updated_at: 50,
        }
    );
    assert_eq!(
        TicketReview::save_or_create(&reviews, 4, 1, true, Some("ok".to_owned()), 50),
        TicketReview {
            id: 0,
            ticket_flow_id: 4,
            ticket_schema_review_id: 1,
            approved: true,
            comment: Some("ok".to_owned()),
            created_at: 50,
            updated_at: 50,
        }
    );
}

#[test]
fn list_entries_keep_their_tickets() {
    let entry = TicketWithStatus { ticket: ticket(), status: TicketStatus::Pending };
    assert_eq!(entry.ticket, ticket());
}

#[test]
fn table_has_a_column_for_each_field_and_verdict() {
    let mut form = name_form();
    let mut unnamed = form.fields[0].clone();
    unnamed.key = String::new();
    form.fields.push(unnamed);
    let schema = vec![
        TicketSchemaFlowItem { schema: step(1, 1, 1), module: TicketSchemaFlowValue::Form(form) },
        TicketSchemaFlowItem {
            schema: step(2, 12, 2),
            module: TicketSchemaFlowValue::Review(review(1, 2, false)),
        },
    ];
    assert_eq!(
        export_fields(&schema),
        vec![
            ExportField::Base { key: "ticket_id".to_owned() },
            ExportField::Form { key: "name".to_owned(), field: name_form().fields.remove(0) },
            ExportField::Review { key: "review_12_approved".to_owned() },
            ExportField::Review { key: "review_12_comment".to_owned() },
        ]
    );
    assert_eq!(export_fields(&vec![]), vec![ExportField::Base { key: "ticket_id".to_owned() }]);
    assert_eq!(review_key(-3, true), "review_-3_approved");
    for number in [0, 7, 10, 99, 100, 1234567890, i32::MAX, -1, -10, -2147483647, i32::MIN] {
        assert_eq!(number_text(number), number.to_string());
    }
    assert_eq!(review_key(0, false), "review_0_comment");
}

#[test]
fn row_holds_the_answers_and_verdicts_of_a_ticket() {
    let steps = vec![step(1, 1, 1), step(2, 2, 2), step(3, 3, 2)];
    let mut value = serde_json::Map::new();
    value.insert("name".to_owned(), Value::String("Alice".to_owned()));
    let mut nested = serde_json::Map::new();
    nested.insert("deep".to_owned(), Value::from(1.5));
    value.insert("extra".to_owned(), Value::Object(nested.clone()));
    let answer = TicketFormAnswer {
        id: 1,
        ticket_flow_id: 1,
        ticket_schema_form_id: 1,
        value,
        created_at: 0,
        updated_at: 0,
    };
    let verdict = |comment: Option<&str>| TicketReview {
        id: 1,
        ticket_flow_id: 2,
        ticket_schema_review_id: 1,
        approved: true,
        comment: comment.map(|c| c.to_owned()),
        created_at: 0,
        updated_at: 0,
    };
    let flows = vec![
        TicketFlowItem::new(state(1, 1, None, true), None, None, None, Some(answer), None),
        TicketFlowItem::new(state(2, 2, None, true), None, None, None, None, Some(verdict(None))),
        TicketFlowItem::new(state(3, 3, None, true), None, None, None, None, Some(verdict(Some("ok")))),
        TicketFlowItem::new(state(4, 3, None, false), None, None, None, None, None),
    ];
    let mut expected = serde_json::Map::new();
    expected.insert("ticket_id".to_owned(), Value::from(9));
    expected.insert("name".to_owned(), Value::String("Alice".to_owned()));
    expected.insert("extra".to_owned(), Value::Object(nested));
    expected.insert("review_2_approved".to_owned(), Value::Bool(true));
    expected.insert("review_2_comment".to_owned(), Value::String(String::new()));
    expected.insert("review_3_approved".to_owned(), Value::Bool(true));
    expected.insert("review_3_comment".to_owned(), Value::String("ok".to_owned()));
    assert_eq!(export_row(&ticket(), &flows, &steps), Some(expected));
    let lost = vec![TicketFlowItem::new(state(5, 8, None, false), None, None, None, None, None)];
    assert_eq!(export_row(&ticket(), &lost, &steps), None);
    let mut only_id = serde_json::Map::new();
    only_id.insert("ticket_id".to_owned(), Value::from(9));
    assert_eq!(export_row(&ticket(), &vec![], &steps), Some(only_id));
}

#[test]
fn flows_of_a_ticket_come_in_the_order_of_its_steps() {
    let steps = vec![step(2, 2, 2), step(1, 1, 1), step(3, 3, 3)];
    let role = Role {
        id: "staff".to_owned(),
        name_zh: String::new(),
        project_id: "p".to_owned(),
        login_message_zh: None,
        welcome_message_zh: None,
        created_at: 0,
        updated_at: 0,
        name_en: "Staff".to_owned(),
        login_message_en: None,
        welcome_message_en: None,
    };
    let label = |id: i32, key: &str, value: &str| Label {
        id,
        project_id: "p".to_owned(),
        key: key.to_owned(),
        value: value.to_owned(),
        created_at: 0,
        updated_at: 0,
    };
    let mut all_targets = targets();
    all_targets.push(Target { id: 3, user_id: None, label_id: Some(6), created_at: 0, updated_at: 0 });
    let directory = Directory {
        targets: all_targets,
        users: vec![user("alice"), user("bob")],
        labels: vec![label(5, "role", "staff"), label(6, "team", "staff")],
        roles: vec![role.clone()],
    };
    let answer = TicketFormAnswer {
        id: 1,
        ticket_flow_id: 10,
        ticket_schema_form_id: 1,
        value: serde_json::Map::new(),
        created_at: 0,
        updated_at: 0,
    };
    let verdict = TicketReview {
        id: 1,
        ticket_flow_id: 20,
        ticket_schema_review_id: 1,
        approved: false,
        comment: None,
        created_at: 0,
        updated_at: 0,
    };
    let mut other = state(40, 1, None, false);
    other.ticket_id = 10;
    let flows = vec![
        state(30, 3, None, false),
        state(20, 2, None, false),
        other,
        state(10, 1, Some("bob"), true),
        state(50, 9, None, false),
    ];
    let items = ticket().get_flows(
        &flows,
        &steps,
        &directory,
        &vec![answer.clone()],
        &vec![verdict.clone()],
    );
    assert_eq!(
        items,
        vec![
            TicketFlowItem {
                flow: state(10, 1, Some("bob"), true),
                module: TicketFlowValue::Form(answer),
                operator: TicketFlowOperator::User(user("bob")),
            },
            TicketFlowItem {
                flow: state(20, 2, None, false),
                module: TicketFlowValue::Review(verdict),
                operator: TicketFlowOperator::Role(role),
            },
            TicketFlowItem {
                flow: state(30, 3, None, false),
                module: TicketFlowValue::Empty,
                operator: TicketFlowOperator::Nobody,
            },
        ]
    );
    let unassigned = vec![state(10, 1, None, false)];
    let items = ticket().get_flows(&unassigned, &steps, &directory, &vec![], &vec![]);
    assert_eq!(items[0].operator, TicketFlowOperator::User(user("alice")));
}
