use todo_server::ids::Uid;
use todo_server::model::{State, Task, TodoCard};
use todo_server::store::{
    scanoutput_to_todocards, AttrVal, DbItem, InnerAttr, ScalarAttr, StateDb, TaskDb, TodoCardDb,
};
use todo_server::store::todo_json_to_db;

fn new_uid() -> Uid {
    Uid::parse(&uuid::Uuid::new_v4().to_string()).unwrap()
}

#[test]
fn converts_json_to_db() {
    let id = new_uid();
    let owner = new_uid();
    let json = TodoCard {
        id: None,
        title: "title".to_string(),
        description: "description".to_string(),
        owner: owner.clone(),
        state: State::Done,
        tasks: vec![Task {
            is_done: true,
            title: "title".to_string(),
        }],
    };
    let expected = TodoCardDb {
        id: id.clone(),
        title: "title".to_string(),
        description: "description".to_string(),
        owner,
        state: StateDb::Done,
        tasks: vec![TaskDb {
            is_done: true,
            title: "title".to_string(),
        }],
    };
    assert_eq!(todo_json_to_db(&json, id), expected);
}

#[test]
fn task_db_to_db_val() {
    let actual = TaskDb {
        title: "blob".to_string(),
        is_done: true,
    }
    .to_db_val();
    let expected = InnerAttr::M(vec![
        ("title".to_string(), ScalarAttr::S("blob".to_string())),
        ("is_done".to_string(), ScalarAttr::Bool(true)),
    ]);
    assert_eq!(actual, expected);
}

#[test]
fn todo_card_db_to_db_val() {
    let id = new_uid();
    let actual: DbItem = TodoCardDb {
        id: id.clone(),
        title: "title".to_string(),
        description: "description".to_string(),
        owner: id.clone(),
        state: StateDb::Done,
        tasks: vec![TaskDb {
            is_done: true,
            title: "title".to_string(),
        }],
    }
    .to_db_val();
    let expected: DbItem = vec![
        ("id".to_string(), AttrVal::S(id.to_text())),
        ("title".to_string(), AttrVal::S("title".to_string())),
        ("description".to_string(), AttrVal::S("description".to_string())),
        ("owner".to_string(), AttrVal::S(id.to_text())),
        ("state".to_string(), AttrVal::S("Done".to_string())),
        (
            "tasks".to_string(),
            AttrVal::L(vec![TaskDb {
                is_done: true,
                title: "title".to_string(),
            }
            .to_db_val()]),
        ),
    ];
    assert_eq!(actual, expected);
}

fn attr_values() -> DbItem {
    let tasks_map = InnerAttr::M(vec![
        ("is_done".to_string(), ScalarAttr::Bool(true)),
        ("title".to_string(), ScalarAttr::S("blob".to_string())),
    ]);
    vec![
        ("title".to_string(), AttrVal::S("title".to_string())),
        ("description".to_string(), AttrVal::S("description".to_string())),
        (
            "owner".to_string(),
            AttrVal::S("90e700b0-2b9b-4c74-9285-f5fc94764995".to_string()),
        ),
        (
            "id".to_string(),
            AttrVal::S("646b670c-bb50-45a4-ba08-3ab684bc4e95".to_string()),
        ),
        ("state".to_string(), AttrVal::S("Done".to_string())),
        ("tasks".to_string(), AttrVal::L(vec![tasks_map])),
    ]
}

fn expected_card() -> TodoCard {
    TodoCard {
        title: "title".to_string(),
        description: "description".to_string(),
        state: State::Done,
        id: Some(Uid::parse("646b670c-bb50-45a4-ba08-3ab684bc4e95").unwrap()),
        owner: Uid::parse("90e700b0-2b9b-4c74-9285-f5fc94764995").unwrap(),
        tasks: vec![Task {
            is_done: true,
            title: "blob".to_string(),
        }],
    }
}

#[test]
fn scanoutput_has_one_item() {
    let scan = vec![attr_values()];
    let todos = vec![expected_card()];
    assert_eq!(scanoutput_to_todocards(&scan), todos);
}

#[test]
fn scanoutput_has_two_items() {
    let scan = vec![attr_values(), attr_values()];
    let todo = expected_card();
    let todos = vec![todo.clone(), todo];
    assert_eq!(scanoutput_to_todocards(&scan), todos);
}
