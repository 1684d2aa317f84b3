//! The record codec: between the wire-format card and its storage-record
//! representation.
//!
//! A stored item is a list of named attributes. An attribute value is text,
//! a boolean, a list, or a map of scalars — the two nesting levels the card
//! schema uses (a card's `tasks` attribute is a list of maps). Decoding is
//! tolerant: a record whose identifiers do not parse is skipped, a task
//! missing a field is dropped from its card, and an unrecognized or absent
//! state tag degrades to `Todo`.
use vstd::prelude::*;

use crate::ids::{is_canonical_uid, str_eq, Uid};
use crate::model::{CardModel, State, Task, TaskModel, TodoCard};

verus! {

/// Model of a scalar attribute value.
#[verifier::ext_equal]
pub enum ScalarModel {
    S(Seq<char>),
    B(bool),
}

/// Model of an attribute value standing inside a list.
#[verifier::ext_equal]
pub enum InnerModel {
    S(Seq<char>),
    B(bool),
    M(Seq<(Seq<char>, ScalarModel)>),
}

/// Model of a top-level attribute value.
#[verifier::ext_equal]
pub enum ValModel {
    S(Seq<char>),
    B(bool),
    L(Seq<InnerModel>),
    M(Seq<(Seq<char>, ScalarModel)>),
}

/// Model of a stored item: a list of named attributes.
pub type ItemModel = Seq<(Seq<char>, ValModel)>;

/// A scalar attribute value: text or a boolean.
#[derive(Debug, PartialEq, Clone)]
pub enum ScalarAttr {
    S(String),
    Bool(bool),
}

impl View for ScalarAttr {
    type V = ScalarModel;

    open spec fn view(&self) -> ScalarModel {
        match self {
            ScalarAttr::S(s) => ScalarModel::S(s@),
            ScalarAttr::Bool(b) => ScalarModel::B(*b),
        }
    }
}

/// An attribute value inside a list: text, a boolean, or a map of scalars.
#[derive(Debug, PartialEq, Clone)]
pub enum InnerAttr {
    S(String),
    Bool(bool),
    M(Vec<(String, ScalarAttr)>),
}

impl View for InnerAttr {
    type V = InnerModel;

    open spec fn view(&self) -> InnerModel {
        match self {
            InnerAttr::S(s) => InnerModel::S(s@),
            InnerAttr::Bool(b) => InnerModel::B(*b),
            InnerAttr::M(m) => InnerModel::M(m@.map(|i: int, p: (String, ScalarAttr)| (p.0@, p.1@))),
        }
    }
}

/// A top-level attribute value.
#[derive(Debug, PartialEq, Clone)]
pub enum AttrVal {
    S(String),
    Bool(bool),
    L(Vec<InnerAttr>),
    M(Vec<(String, ScalarAttr)>),
}

impl View for AttrVal {
    type V = ValModel;

    open spec fn view(&self) -> ValModel {
        match self {
            AttrVal::S(s) => ValModel::S(s@),
            AttrVal::Bool(b) => ValModel::B(*b),
            AttrVal::L(v) => ValModel::L(v@.map(|i: int, t: InnerAttr| t@)),
            AttrVal::M(m) => ValModel::M(m@.map(|i: int, p: (String, ScalarAttr)| (p.0@, p.1@))),
        }
    }
}

/// A stored item as the storage port hands it over.
pub type DbItem = Vec<(String, AttrVal)>;

/// The model of a stored item.
pub open spec fn dbitem_model(item: Seq<(String, AttrVal)>) -> ItemModel {
    item.map(|i: int, p: (String, AttrVal)| (p.0@, p.1@))
}

/// The first attribute named `key`, if any.
pub open spec fn lookup_val(m: ItemModel, key: Seq<char>) -> Option<ValModel>
    decreases m.len(),
{
    if m.len() == 0 {
        None
    } else if m[0].0 == key {
        Some(m[0].1)
    } else {
        lookup_val(m.drop_first(), key)
    }
}

/// The first scalar attribute named `key`, if any.
pub open spec fn lookup_scalar(m: Seq<(Seq<char>, ScalarModel)>, key: Seq<char>) -> Option<
    ScalarModel,
>
    decreases m.len(),
{
    if m.len() == 0 {
        None
    } else if m[0].0 == key {
        Some(m[0].1)
    } else {
        lookup_scalar(m.drop_first(), key)
    }
}

proof fn lemma_lookup_val_skip(m: ItemModel, key: Seq<char>, i: int)
    requires
        0 <= i <= m.len(),
        forall|j: int| 0 <= j < i ==> m[j].0 != key,
    ensures
        lookup_val(m, key) == lookup_val(m.skip(i), key),
    decreases i,
{
    if i > 0 {
        lemma_lookup_val_skip(m.drop_first(), key, i - 1);
        assert(m.drop_first().skip(i - 1) =~= m.skip(i));
    } else {
        assert(m.skip(0) =~= m);
    }
}

proof fn lemma_lookup_scalar_skip(m: Seq<(Seq<char>, ScalarModel)>, key: Seq<char>, i: int)
    requires
        0 <= i <= m.len(),
        forall|j: int| 0 <= j < i ==> m[j].0 != key,
    ensures
        lookup_scalar(m, key) == lookup_scalar(m.skip(i), key),
    decreases i,
{
    if i > 0 {
        lemma_lookup_scalar_skip(m.drop_first(), key, i - 1);
        assert(m.drop_first().skip(i - 1) =~= m.skip(i));
    } else {
        assert(m.skip(0) =~= m);
    }
}

/// The first attribute of `item` named `key`, if any.
fn db_get<'a>(item: &'a DbItem, key: &str) -> (r: Option<&'a AttrVal>)
    ensures
        r matches Some(v) ==> lookup_val(dbitem_model(item@), key@) == Some(v@),
        r is None ==> lookup_val(dbitem_model(item@), key@) is None,
{
    let ghost m = dbitem_model(item@);
    let mut i: usize = 0;
    while i < item.len()
        invariant
            i <= item.len(),
            m == dbitem_model(item@),
            m.len() == item@.len(),
            forall|j: int| 0 <= j < item@.len() ==> m[j] == (item@[j].0@, item@[j].1@),
            forall|j: int| 0 <= j < i ==> m[j].0 != key@,
        decreases item.len() - i,
    {
        let p = &item[i];
        if str_eq(p.0.as_str(), key) {
            proof {
                lemma_lookup_val_skip(m, key@, i as int);
                assert(m.skip(i as int)[0] == m[i as int]);
            }
            return Some(&p.1);
        }
        i += 1;
    }
    proof {
        lemma_lookup_val_skip(m, key@, m.len() as int);
        assert(m.skip(m.len() as int) =~= Seq::empty());
    }
    None
}

/// The first scalar attribute of `m` named `key`, if any.
fn scalar_get<'a>(map: &'a Vec<(String, ScalarAttr)>, key: &str) -> (r: Option<&'a ScalarAttr>)
    ensures
        r matches Some(v) ==> lookup_scalar(
            map@.map(|i: int, p: (String, ScalarAttr)| (p.0@, p.1@)),
            key@,
        ) == Some(v@),
        r is None ==> lookup_scalar(
            map@.map(|i: int, p: (String, ScalarAttr)| (p.0@, p.1@)),
            key@,
        ) is None,
{
    let ghost m = map@.map(|i: int, p: (String, ScalarAttr)| (p.0@, p.1@));
    let mut i: usize = 0;
    while i < map.len()
        invariant
            i <= map.len(),
            m == map@.map(|i: int, p: (String, ScalarAttr)| (p.0@, p.1@)),
            m.len() == map@.len(),
            forall|j: int| 0 <= j < map@.len() ==> m[j] == (map@[j].0@, map@[j].1@),
            forall|j: int| 0 <= j < i ==> m[j].0 != key@,
        decreases map.len() - i,
    {
        let p = &map[i];
        if str_eq(p.0.as_str(), key) {
            proof {
                lemma_lookup_scalar_skip(m, key@, i as int);
                assert(m.skip(i as int)[0] == m[i as int]);
            }
            return Some(&p.1);
        }
        i += 1;
    }
    proof {
        lemma_lookup_scalar_skip(m, key@, m.len() as int);
        assert(m.skip(m.len() as int) =~= Seq::empty());
    }
    None
}

/// A task in its storage-record form.
#[derive(Debug, PartialEq)]
pub struct TaskDb {
    pub is_done: bool,
    pub title: String,
}

impl View for TaskDb {
    type V = TaskModel;

    open spec fn view(&self) -> TaskModel {
        TaskModel { is_done: self.is_done, title: self.title@ }
    }
}

impl Clone for TaskDb {
    fn clone(&self) -> (r: Self)
        ensures
            r@ == self@,
    {
        TaskDb { is_done: self.is_done, title: self.title.clone() }
    }
}

/// A card's lifecycle state in its storage-record form.
#[derive(Debug, PartialEq, Eq, Structural, Clone, Copy)]
pub enum StateDb {
    Todo,
    Doing,
    Done,
}

/// The textual tag a state is stored under.
pub open spec fn tag_chars(s: StateDb) -> Seq<char> {
    match s {
        StateDb::Todo => "Todo"@,
        StateDb::Doing => "Doing"@,
        StateDb::Done => "Done"@,
    }
}

/// The storage-record state a wire state maps to.
pub open spec fn state_db_of(s: State) -> StateDb {
    match s {
        State::Todo => StateDb::Todo,
        State::Doing => StateDb::Doing,
        State::Done => StateDb::Done,
    }
}

impl StateDb {
    /// The textual tag this state is stored under.
    pub fn tag(&self) -> (r: &'static str)
        ensures
            r@ == tag_chars(*self),
    {
        match self {
            StateDb::Todo => "Todo",
            StateDb::Doing => "Doing",
            StateDb::Done => "Done",
        }
    }
}

/// Mathematical model of a stored card record: every field mandatory.
#[verifier::ext_equal]
pub struct RecordModel {
    pub id: Seq<char>,
    pub title: Seq<char>,
    pub description: Seq<char>,
    pub owner: Seq<char>,
    pub tasks: Seq<TaskModel>,
    pub state: StateDb,
}

/// A card in its storage-record form: `id` mandatory, state as its tag.
#[derive(Debug, PartialEq)]
pub struct TodoCardDb {
    pub id: Uid,
    pub title: String,
    pub description: String,
    pub owner: Uid,
    pub tasks: Vec<TaskDb>,
    pub state: StateDb,
}

impl View for TodoCardDb {
    type V = RecordModel;

    open spec fn view(&self) -> RecordModel {
        RecordModel {
            id: self.id@,
            title: self.title@,
            description: self.description@,
            owner: self.owner@,
            tasks: self.tasks@.map(|i: int, t: TaskDb| t@),
            state: self.state,
        }
    }
}

/// The record a card encodes to under a given identifier: scalar fields
/// copied, each task kept in order, the state mapped to its record form.
pub open spec fn record_of(c: CardModel, id: Seq<char>) -> RecordModel {
    RecordModel {
        id: id,
        title: c.title,
        description: c.description,
        owner: c.owner,
        tasks: c.tasks,
        state: state_db_of(c.state),
    }
}

/// Encodes a wire card into its storage-record form under `id`.
pub fn todo_json_to_db(card: &TodoCard, id: Uid) -> (r: TodoCardDb)
    ensures
        r@ == record_of(card@, id@),
{
    let mut tasks: Vec<TaskDb> = Vec::new();
    let mut i: usize = 0;
    while i < card.tasks.len()
        invariant
            i <= card.tasks.len(),
            tasks@.len() == i,
            forall|j: int| 0 <= j < i ==> tasks@[j]@ == card.tasks@[j]@,
        decreases card.tasks.len() - i,
    {
        let t = &card.tasks[i];
        tasks.push(TaskDb { is_done: t.is_done, title: t.title.clone() });
        i += 1;
    }
    proof {
        assert(tasks@.map(|j: int, t: TaskDb| t@) =~= card.tasks@.map(|j: int, t: Task| t@));
    }
    TodoCardDb {
        id,
        title: card.title.clone(),
        description: card.description.clone(),
        owner: card.owner.clone(),
        tasks,
        state: match card.state {
            State::Todo => StateDb::Todo,
            State::Doing => StateDb::Doing,
            State::Done => StateDb::Done,
        },
    }
}

impl TodoCardDb {
    /// Encodes a wire card under a fresh random identifier.
    pub fn new(card: &TodoCard) -> (r: TodoCardDb)
        ensures
            is_canonical_uid(r@.id),
            r@ == record_of(card@, r@.id),
    {
        let id = Uid::fresh();
        todo_json_to_db(card, id)
    }
}

/// The attribute value a task is stored as: a map holding its title and
/// completion flag.
pub open spec fn task_val_of(t: TaskModel) -> InnerModel {
    InnerModel::M(
        seq![("title"@, ScalarModel::S(t.title)), ("is_done"@, ScalarModel::B(t.is_done))],
    )
}

impl TaskDb {
    /// The attribute value the task is stored as.
    pub fn to_db_val(&self) -> (r: InnerAttr)
        ensures
            r@ == task_val_of(self@),
    {
        let m: Vec<(String, ScalarAttr)> = vec![
            ("title".to_owned(), ScalarAttr::S(self.title.clone())),
            ("is_done".to_owned(), ScalarAttr::Bool(self.is_done)),
        ];
        let r = InnerAttr::M(m);
        proof {
            assert(r@ =~~= task_val_of(self@));
        }
        r
    }
}

/// The attribute values a task list is stored as, in order.
pub fn task_to_db_val(tasks: &Vec<TaskDb>) -> (r: Vec<InnerAttr>)
    ensures
        r@.map(|i: int, a: InnerAttr| a@) == tasks@.map(
            |i: int, t: TaskDb| task_val_of(t@),
        ),
{
    let mut out: Vec<InnerAttr> = Vec::new();
    let mut i: usize = 0;
    while i < tasks.len()
        invariant
            i <= tasks.len(),
            out@.len() == i,
            forall|j: int| 0 <= j < i ==> out@[j]@ == task_val_of(tasks@[j]@),
        decreases tasks.len() - i,
    {
        let v = tasks[i].to_db_val();
        out.push(v);
        i += 1;
    }
    proof {
        assert(out@.map(|i: int, a: InnerAttr| a@) =~= tasks@.map(
            |i: int, t: TaskDb| task_val_of(t@),
        ));
    }
    out
}

/// The stored item a record maps to: one attribute per field, the task list
/// as a list of maps.
pub open spec fn item_of(r: RecordModel) -> ItemModel {
    seq![
        ("id"@, ValModel::S(r.id)),
        ("title"@, ValModel::S(r.title)),
        ("description"@, ValModel::S(r.description)),
        ("owner"@, ValModel::S(r.owner)),
        ("state"@, ValModel::S(tag_chars(r.state))),
        ("tasks"@, ValModel::L(r.tasks.map(|i: int, t: TaskModel| task_val_of(t)))),
    ]
}

impl TodoCardDb {
    /// This record's stored item.
    pub fn to_db_val(&self) -> (r: DbItem)
        ensures
            dbitem_model(r@) == item_of(self@),
    {
        let tasks = task_to_db_val(&self.tasks);
        let item: DbItem = vec![
            ("id".to_owned(), AttrVal::S(self.id.to_text())),
            ("title".to_owned(), AttrVal::S(self.title.clone())),
            ("description".to_owned(), AttrVal::S(self.description.clone())),
            ("owner".to_owned(), AttrVal::S(self.owner.to_text())),
            ("state".to_owned(), AttrVal::S(self.state.tag().to_owned())),
            ("tasks".to_owned(), AttrVal::L(tasks)),
        ];
        proof {
            assert(dbitem_model(item@) =~~= item_of(self@));
        }
        item
    }
}

/// The state a stored `state` attribute denotes: a recognized textual tag
/// maps to its state; anything else — another tag, a non-text value, or an
/// absent attribute — degrades to `Todo`.
pub open spec fn decode_state(v: Option<ValModel>) -> State {
    match v {
        Some(ValModel::S(tag)) => crate::model::state_of_tag(tag),
        _ => State::Todo,
    }
}

/// The task a stored list element denotes: a map holding a boolean
/// `is_done` and a textual `title`; an element of any other shape is
/// dropped from its card.
pub open spec fn decode_task(v: InnerModel) -> Option<TaskModel> {
    match v {
        InnerModel::M(m) => match (lookup_scalar(m, "is_done"@), lookup_scalar(m, "title"@)) {
            (Some(ScalarModel::B(b)), Some(ScalarModel::S(t))) => Some(
                TaskModel { is_done: b, title: t },
            ),
            _ => None,
        },
        _ => None,
    }
}

/// The tasks a stored list denotes, in order, undecodable elements dropped.
pub open spec fn decode_tasks(ts: Seq<InnerModel>) -> Seq<TaskModel>
    decreases ts.len(),
{
    if ts.len() == 0 {
        Seq::empty()
    } else {
        decode_tasks(ts.drop_last()) + (match decode_task(ts.last()) {
            Some(t) => seq![t],
            None => Seq::empty(),
        })
    }
}

/// The wire card a stored item denotes, if any: `id` and `owner` must be
/// text in canonical identifier form, `title` and `description` text, and
/// `tasks` a list; otherwise the whole item is skipped. The state tolerates
/// any shape.
pub open spec fn decode_card(item: ItemModel) -> Option<CardModel> {
    match (
        lookup_val(item, "id"@),
        lookup_val(item, "owner"@),
        lookup_val(item, "title"@),
        lookup_val(item, "description"@),
        lookup_val(item, "tasks"@),
    ) {
        (
            Some(ValModel::S(id)),
            Some(ValModel::S(owner)),
            Some(ValModel::S(title)),
            Some(ValModel::S(description)),
            Some(ValModel::L(ts)),
        ) => if is_canonical_uid(id) && is_canonical_uid(owner) {
            Some(
                CardModel {
                    id: Some(id),
                    title: title,
                    description: description,
                    owner: owner,
                    tasks: decode_tasks(ts),
                    state: decode_state(lookup_val(item, "state"@)),
                },
            )
        } else {
            None
        },
        _ => None,
    }
}

/// The cards a batch of stored items denotes, in order, undecodable items
/// skipped.
pub open spec fn decode_cards(items: Seq<ItemModel>) -> Seq<CardModel>
    decreases items.len(),
{
    if items.len() == 0 {
        Seq::empty()
    } else {
        decode_cards(items.drop_last()) + (match decode_card(items.last()) {
            Some(c) => seq![c],
            None => Seq::empty(),
        })
    }
}

/// Decodes one stored item back into a wire card, if it has the record
/// shape.
pub fn decode_item(item: &DbItem) -> (r: Option<TodoCard>)
    ensures
        r matches Some(c) ==> decode_card(dbitem_model(item@)) == Some(c@),
        r is None ==> decode_card(dbitem_model(item@)) is None,
{
    let ghost m = dbitem_model(item@);
    let id = match db_get(item, "id") {
        Some(AttrVal::S(s)) => match Uid::parse(s.as_str()) {
            Some(u) => u,
            None => {
                return None;
            },
        },
        _ => {
            return None;
        },
    };
    let owner = match db_get(item, "owner") {
        Some(AttrVal::S(s)) => match Uid::parse(s.as_str()) {
            Some(u) => u,
            None => {
                return None;
            },
        },
        _ => {
            return None;
        },
    };
    let title = match db_get(item, "title") {
        Some(AttrVal::S(s)) => s.clone(),
        _ => {
            return None;
        },
    };
    let description = match db_get(item, "description") {
        Some(AttrVal::S(s)) => s.clone(),
        _ => {
            return None;
        },
    };
    let state = match db_get(item, "state") {
        Some(AttrVal::S(s)) => State::from(s),
        _ => State::Todo,
    };
    let task_list = match db_get(item, "tasks") {
        Some(AttrVal::L(ts)) => ts,
        _ => {
            return None;
        },
    };
    let ghost ts_model = task_list@.map(|i: int, t: InnerAttr| t@);
    let mut tasks: Vec<Task> = Vec::new();
    let mut i: usize = 0;
    while i < task_list.len()
        invariant
            i <= task_list.len(),
            ts_model == task_list@.map(|i: int, t: InnerAttr| t@),
            ts_model.len() == task_list@.len(),
            forall|j: int| 0 <= j < task_list@.len() ==> ts_model[j] == task_list@[j]@,
            tasks@.map(|j: int, t: Task| t@) =~= decode_tasks(ts_model.take(i as int)),
        decreases task_list.len() - i,
    {
        let entry = &task_list[i];
        match entry {
            InnerAttr::M(tm) => {
                match (scalar_get(tm, "is_done"), scalar_get(tm, "title")) {
                    (Some(ScalarAttr::Bool(b)), Some(ScalarAttr::S(t))) => {
                        tasks.push(Task { is_done: *b, title: t.clone() });
                    },
                    _ => {},
                }
            },
            _ => {},
        }
        proof {
            assert(ts_model.take(i + 1).drop_last() =~= ts_model.take(i as int));
            assert(ts_model.take(i + 1).last() == ts_model[i as int]);
        }
        i += 1;
    }
    proof {
        assert(ts_model.take(ts_model.len() as int) =~= ts_model);
    }
    let card = TodoCard {
        id: Some(id),
        title,
        description,
        owner,
        tasks,
        state,
    };
    proof {
        assert(decode_card(m) matches Some(cm) && cm =~= card@);
    }
    Some(card)
}

/// Decodes a batch of stored items, in order, skipping undecodable items.
pub fn scanoutput_to_todocards(items: &Vec<DbItem>) -> (r: Vec<TodoCard>)
    ensures
        r@.map(|i: int, c: TodoCard| c@) == decode_cards(
            items@.map(|i: int, it: DbItem| dbitem_model(it@)),
        ),
{
    let ghost ms = items@.map(|i: int, it: DbItem| dbitem_model(it@));
    let mut out: Vec<TodoCard> = Vec::new();
    let mut i: usize = 0;
    while i < items.len()
        invariant
            i <= items.len(),
            ms == items@.map(|i: int, it: DbItem| dbitem_model(it@)),
            ms.len() == items@.len(),
            forall|j: int| 0 <= j < items@.len() ==> ms[j] == dbitem_model(items@[j]@),
            out@.map(|j: int, c: TodoCard| c@) =~= decode_cards(ms.take(i as int)),
        decreases items.len() - i,
    {
        match decode_item(&items[i]) {
            Some(c) => {
                out.push(c);
            },
            None => {},
        }
        proof {
            assert(ms.take(i + 1).drop_last() =~= ms.take(i as int));
            assert(ms.take(i + 1).last() == ms[i as int]);
        }
        i += 1;
    }
    proof {
        assert(ms.take(ms.len() as int) =~= ms);
    }
    out
}

/// A task's attribute value decodes back to the task itself.
pub proof fn lemma_decode_task_of_encoded(t: TaskModel)
    ensures
        decode_task(task_val_of(t)) == Some(t),
{
    reveal_strlit("title");
    reveal_strlit("is_done");
    let m = seq![("title"@, ScalarModel::S(t.title)), ("is_done"@, ScalarModel::B(t.is_done))];
    assert(m.drop_first() =~= seq![("is_done"@, ScalarModel::B(t.is_done))]);
    assert("title"@.len() == 5);
    assert("is_done"@.len() == 7);
    assert("title"@ != "is_done"@);
    reveal_with_fuel(lookup_scalar, 3);
    assert(lookup_scalar(m, "title"@) == Some(ScalarModel::S(t.title)));
    assert(lookup_scalar(m, "is_done"@) == Some(ScalarModel::B(t.is_done)));
    assert(decode_task(task_val_of(t)) matches Some(t2) && t2 =~= t);
}

/// An encoded task list decodes back to the same tasks in the same order.
pub proof fn lemma_decode_tasks_of_encoded(ts: Seq<TaskModel>)
    ensures
        decode_tasks(ts.map(|i: int, t: TaskModel| task_val_of(t))) == ts,
    decreases ts.len(),
{
    let m = ts.map(|i: int, t: TaskModel| task_val_of(t));
    if ts.len() == 0 {
        assert(decode_tasks(m) =~= ts);
    } else {
        lemma_decode_tasks_of_encoded(ts.drop_last());
        assert(m.drop_last() =~= ts.drop_last().map(|i: int, t: TaskModel| task_val_of(t)));
        assert(m.last() == task_val_of(ts.last()));
        lemma_decode_task_of_encoded(ts.last());
        assert(decode_tasks(m) =~= ts);
    }
}

/// A state's stored tag decodes back to the state itself.
pub proof fn lemma_state_round_trip(s: State)
    ensures
        crate::model::state_of_tag(tag_chars(state_db_of(s))) == s,
{
    reveal_strlit("Todo");
    reveal_strlit("Doing");
    reveal_strlit("Done");
    assert("Todo"@.len() == 4);
    assert("Doing"@.len() == 5);
    assert("Done"@.len() == 4);
    assert("Todo"@[0] == 'T');
    assert("Done"@[0] == 'D');
    assert("Todo"@ != "Doing"@);
    assert("Todo"@ != "Done"@);
    assert("Doing"@ != "Done"@);
}

/// Round trip: for every card and every identifier in canonical form, the
/// record the card encodes to decodes back to the same card, with the
/// identifier now populated.
pub proof fn lemma_encode_decode_round_trip(c: CardModel, id: Seq<char>)
    requires
        is_canonical_uid(id),
        is_canonical_uid(c.owner),
    ensures
        decode_card(item_of(record_of(c, id))) == Some(
            CardModel {
                id: Some(id),
                title: c.title,
                description: c.description,
                owner: c.owner,
                tasks: c.tasks,
                state: c.state,
            },
        ),
{
    reveal_strlit("id");
    reveal_strlit("title");
    reveal_strlit("description");
    reveal_strlit("owner");
    reveal_strlit("state");
    reveal_strlit("tasks");
    assert("id"@.len() == 2);
    assert("title"@.len() == 5);
    assert("description"@.len() == 11);
    assert("owner"@.len() == 5);
    assert("state"@.len() == 5);
    assert("tasks"@.len() == 5);
    assert("title"@[0] == 't' && "title"@[1] == 'i');
    assert("owner"@[0] == 'o');
    assert("state"@[0] == 's');
    assert("tasks"@[0] == 't' && "tasks"@[1] == 'a');
    assert("title"@ != "owner"@ && "title"@ != "state"@ && "title"@ != "tasks"@);
    assert("owner"@ != "state"@ && "owner"@ != "tasks"@);
    assert("state"@ != "tasks"@);
    reveal_with_fuel(lookup_val, 7);
    let item = item_of(record_of(c, id));
    assert(lookup_val(item, "id"@) == Some(ValModel::S(id)));
    assert(lookup_val(item, "title"@) == Some(ValModel::S(c.title)));
    assert(lookup_val(item, "description"@) == Some(ValModel::S(c.description)));
    assert(lookup_val(item, "owner"@) == Some(ValModel::S(c.owner)));
    assert(lookup_val(item, "state"@) == Some(ValModel::S(tag_chars(state_db_of(c.state)))));
    assert(lookup_val(item, "tasks"@) == Some(
        ValModel::L(c.tasks.map(|i: int, t: TaskModel| task_val_of(t))),
    ));
    lemma_decode_tasks_of_encoded(c.tasks);
    lemma_state_round_trip(c.state);
    assert(decode_card(item) matches Some(c2) && c2 =~= (CardModel {
        id: Some(id),
        title: c.title,
        description: c.description,
        owner: c.owner,
        tasks: c.tasks,
        state: c.state,
    }));
}

/// Malformed-state tolerance: a stored record whose state tag is not one of
/// the three recognized tags decodes with state `Todo`.
pub proof fn lemma_unrecognized_tag_decodes_todo(tag: Seq<char>)
    requires
        tag != "Todo"@,
        tag != "Doing"@,
        tag != "Done"@,
    ensures
        decode_state(Some(ValModel::S(tag))) == State::Todo,
{
}

} // verus!
