//! Wire-format entities: the todo card as clients send and receive it.
use vstd::prelude::*;

use crate::ids::Uid;

verus! {

/// Mathematical model of a task: a titled checklist entry.
#[verifier::ext_equal]
pub struct TaskModel {
    pub is_done: bool,
    pub title: Seq<char>,
}

/// Mathematical model of a card as it travels on the wire.
#[verifier::ext_equal]
pub struct CardModel {
    pub id: Option<Seq<char>>,
    pub title: Seq<char>,
    pub description: Seq<char>,
    pub owner: Seq<char>,
    pub tasks: Seq<TaskModel>,
    pub state: State,
}

/// A titled boolean checklist entry owned by a card.
#[derive(Debug, PartialEq)]
pub struct Task {
    pub is_done: bool,
    pub title: String,
}

impl View for Task {
    type V = TaskModel;

    open spec fn view(&self) -> TaskModel {
        TaskModel { is_done: self.is_done, title: self.title@ }
    }
}

impl Clone for Task {
    fn clone(&self) -> (r: Self)
        ensures
            r@ == self@,
    {
        Task { is_done: self.is_done, title: self.title.clone() }
    }
}

/// A card's lifecycle state.
#[derive(Debug, PartialEq, Eq, Structural, Clone, Copy)]
pub enum State {
    Todo,
    Doing,
    Done,
}

/// The state a stored textual tag denotes: the three tags are matched
/// case-sensitively, and any other tag falls back to `Todo`.
pub open spec fn state_of_tag(tag: Seq<char>) -> State {
    if tag == "Todo"@ {
        State::Todo
    } else if tag == "Doing"@ {
        State::Doing
    } else if tag == "Done"@ {
        State::Done
    } else {
        State::Todo
    }
}

impl State {
    /// Reads a stored state tag; an unrecognized tag degrades to `Todo`.
    pub fn from(s: &String) -> (r: State)
        ensures
            r == state_of_tag(s@),
    {
        if crate::ids::str_eq(s.as_str(), "Todo") {
            State::Todo
        } else if crate::ids::str_eq(s.as_str(), "Doing") {
            State::Doing
        } else if crate::ids::str_eq(s.as_str(), "Done") {
            State::Done
        } else {
            State::Todo
        }
    }
}

/// A todo card as clients send and receive it. The `id` is absent on
/// create-request payloads and present on read responses.
#[derive(Debug, PartialEq)]
pub struct TodoCard {
    pub id: Option<Uid>,
    pub title: String,
    pub description: String,
    pub owner: Uid,
    pub tasks: Vec<Task>,
    pub state: State,
}

impl View for TodoCard {
    type V = CardModel;

    open spec fn view(&self) -> CardModel {
        CardModel {
            id: match self.id {
                Some(u) => Some(u@),
                None => None,
            },
            title: self.title@,
            description: self.description@,
            owner: self.owner@,
            tasks: self.tasks@.map(|i: int, t: Task| t@),
            state: self.state,
        }
    }
}

impl Clone for TodoCard {
    fn clone(&self) -> (r: Self)
        ensures
            r@ == self@,
    {
        let mut tasks: Vec<Task> = Vec::new();
        let mut i: usize = 0;
        while i < self.tasks.len()
            invariant
                i <= self.tasks.len(),
                tasks@.len() == i,
                forall|j: int| 0 <= j < i ==> tasks@[j]@ == self.tasks@[j]@,
            decreases self.tasks.len() - i,
        {
            tasks.push(self.tasks[i].clone());
            i += 1;
        }
        proof {
            assert(tasks@.map(|j: int, t: Task| t@) =~= self.tasks@.map(|j: int, t: Task| t@));
        }
        TodoCard {
            id: match &self.id {
                Some(u) => Some(u.clone()),
                None => None,
            },
            title: self.title.clone(),
            description: self.description.clone(),
            owner: self.owner.clone(),
            tasks,
            state: self.state,
        }
    }
}

/// The identifier a successful create responds with.
#[derive(Debug, PartialEq)]
pub struct TodoIdResponse {
    id: Uid,
}

impl View for TodoIdResponse {
    type V = Seq<char>;

    closed spec fn view(&self) -> Seq<char> {
        self.id@
    }
}

impl TodoIdResponse {
    pub fn new(id: Uid) -> (r: Self)
        ensures
            r@ == id@,
    {
        TodoIdResponse { id }
    }

    /// The identifier's text.
    pub fn get_id(self) -> (r: String)
        ensures
            r@ == self@,
    {
        self.id.to_text()
    }
}

/// The body of a listing response.
#[derive(Debug, PartialEq)]
pub struct TodoCardsResponse {
    pub cards: Vec<TodoCard>,
}

} // verus!
