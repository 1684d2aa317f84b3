use todo_server::ids::Uid;
use todo_server::model::{State, Task, TodoCard, TodoCardsResponse, TodoIdResponse};
use todo_server::service::CardService;
use todo_server::store::{scanoutput_to_todocards, AttrVal, DbItem, InnerAttr, ScalarAttr};

fn new_uid() -> Uid {
    Uid::parse(&uuid::Uuid::new_v4().to_string()).unwrap()
}

fn sample_card(owner: Uid) -> TodoCard {
    TodoCard {
        id: None,
        title: "This is a card".to_string(),
        description: "This is the description of the card".to_string(),
        owner,
        tasks: vec![
            Task {
                title: "title 1".to_string(),
                is_done: true,
            },
            Task {
                title: "title 2".to_string(),
                is_done: false,
            },
        ],
        state: State::Doing,
    }
}

fn item(entries: Vec<(&str, AttrVal)>) -> DbItem {
    entries.into_iter().map(|(k, v)| (k.to_string(), v)).collect()
}

fn good_item(id: &str, owner: &str, state: &str) -> DbItem {
    item(vec![
        ("id", AttrVal::S(id.to_string())),
        ("title", AttrVal::S("title".to_string())),
        ("description", AttrVal::S("description".to_string())),
        ("owner", AttrVal::S(owner.to_string())),
        ("state", AttrVal::S(state.to_string())),
        (
            "tasks",
            AttrVal::L(vec![InnerAttr::M(vec![
                ("title".to_string(), ScalarAttr::S("blob".to_string())),
                ("is_done".to_string(), ScalarAttr::Bool(true)),
            ])]),
        ),
    ])
}

const ID_A: &str = "646b670c-bb50-45a4-ba08-3ab684bc4e95";
const ID_B: &str = "90e700b0-2b9b-4c74-9285-f5fc94764995";

#[test]
fn create_then_list_returns_the_card() {
    let mut svc = CardService::new();
    let owner = new_uid();
    let card = sample_card(owner.clone());
    let id = svc.create(&card);
    let cards = svc.list();
    assert_eq!(cards.len(), 1);
    let listed = &cards[0];
    assert_eq!(listed.id, Some(id));
    assert_eq!(listed.title, card.title);
    assert_eq!(listed.description, card.description);
    assert_eq!(listed.owner, owner);
    assert_eq!(listed.tasks, card.tasks);
    assert_eq!(listed.state, State::Doing);
}

#[test]
fn two_creates_get_distinct_ids() {
    let mut svc = CardService::new();
    let card = sample_card(new_uid());
    let first = svc.create(&card);
    let second = svc.create(&card);
    assert_ne!(first.to_text(), second.to_text());
    assert_eq!(svc.list().len(), 2);
}

#[test]
fn malformed_state_defaults_to_todo() {
    let scan = vec![good_item(ID_A, ID_B, "Banana")];
    let cards = scanoutput_to_todocards(&scan);
    assert_eq!(cards.len(), 1);
    assert_eq!(cards[0].state, State::Todo);
}

#[test]
fn state_tags_are_case_sensitive() {
    let scan = vec![
        good_item(ID_A, ID_B, "Doing"),
        good_item(ID_A, ID_B, "doing"),
        good_item(ID_A, ID_B, "Done"),
    ];
    let cards = scanoutput_to_todocards(&scan);
    let states: Vec<State> = cards.into_iter().map(|c| c.state).collect();
    assert_eq!(states, vec![State::Doing, State::Todo, State::Done]);
}

#[test]
fn absent_state_defaults_to_todo() {
    let scan = vec![item(vec![
        ("id", AttrVal::S(ID_A.to_string())),
        ("title", AttrVal::S("title".to_string())),
        ("description", AttrVal::S("description".to_string())),
        ("owner", AttrVal::S(ID_B.to_string())),
        ("tasks", AttrVal::L(vec![])),
    ])];
    let cards = scanoutput_to_todocards(&scan);
    assert_eq!(cards.len(), 1);
    assert_eq!(cards[0].state, State::Todo);
    assert!(cards[0].tasks.is_empty());
}

#[test]
fn unparseable_identifiers_skip_the_record() {
    let scan = vec![
        good_item("not-a-uuid", ID_B, "Todo"),
        good_item(ID_A, "nor this", "Todo"),
        good_item(ID_A, ID_B, "Todo"),
    ];
    let cards = scanoutput_to_todocards(&scan);
    assert_eq!(cards.len(), 1);
    assert_eq!(cards[0].id, Uid::parse(ID_A));
}

#[test]
fn missing_attribute_skips_the_record() {
    let scan = vec![item(vec![
        ("id", AttrVal::S(ID_A.to_string())),
        ("title", AttrVal::S("title".to_string())),
        ("owner", AttrVal::S(ID_B.to_string())),
        ("state", AttrVal::S("Todo".to_string())),
        ("tasks", AttrVal::L(vec![])),
    ])];
    assert_eq!(scanoutput_to_todocards(&scan), vec![]);
}

#[test]
fn broken_task_is_dropped_from_its_card() {
    let tasks = AttrVal::L(vec![
        InnerAttr::M(vec![
            ("title".to_string(), ScalarAttr::S("kept".to_string())),
            ("is_done".to_string(), ScalarAttr::Bool(false)),
        ]),
        InnerAttr::M(vec![(
            "title".to_string(),
            ScalarAttr::S("no flag".to_string()),
        )]),
        InnerAttr::Bool(true),
        InnerAttr::S("not a map".to_string()),
    ]);
    let scan = vec![item(vec![
        ("id", AttrVal::S(ID_A.to_string())),
        ("title", AttrVal::S("title".to_string())),
        ("description", AttrVal::S("description".to_string())),
        ("owner", AttrVal::S(ID_B.to_string())),
        ("state", AttrVal::S("Todo".to_string())),
        ("tasks", tasks),
    ])];
    let cards = scanoutput_to_todocards(&scan);
    assert_eq!(cards.len(), 1);
    assert_eq!(
        cards[0].tasks,
        vec![Task {
            title: "kept".to_string(),
            is_done: false,
        }]
    );
}

#[test]
fn state_from_reads_the_tags() {
    assert_eq!(State::from(&"Todo".to_string()), State::Todo);
    assert_eq!(State::from(&"Doing".to_string()), State::Doing);
    assert_eq!(State::from(&"Done".to_string()), State::Done);
    assert_eq!(State::from(&"banana".to_string()), State::Todo);
    assert_eq!(State::from(&"done".to_string()), State::Todo);
    assert_eq!(State::from(&String::new()), State::Todo);
}

#[test]
fn listing_response_wraps_the_cards() {
    let mut svc = CardService::new();
    svc.create(&sample_card(new_uid()));
    let resp = TodoCardsResponse { cards: svc.list() };
    assert_eq!(resp, TodoCardsResponse { cards: svc.list() });
    assert_eq!(resp.cards.len(), 1);
}

#[test]
fn id_response_carries_the_text() {
    let id = new_uid();
    let text = id.to_text();
    let resp = TodoIdResponse::new(id);
    assert_eq!(resp.get_id(), text);
}
