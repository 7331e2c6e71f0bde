//! Questions in flight between the work in the background and the interface.
use std::collections::HashSet;
use vstd::prelude::*;
use vstd::string::*;
use crate::model::Prompt;
use crate::text::{joined3, texts};

verus! {

broadcast use vstd::std_specs::hash::group_hash_axioms;

/// A question to ask.
#[derive(Debug, PartialEq, Eq)]
pub struct Question {
    pub title: String,
    pub body: String,
    pub choices: Vec<String>,
    /// The choice drawn as the obvious one, if there is one.
    pub primary: Option<usize>,
    /// The choices stand one above the other, not side by side.
    pub stacked: bool,
}

/// A question as the texts it holds.
#[verifier::ext_equal]
pub struct QuestionView {
    pub title: Seq<char>,
    pub body: Seq<char>,
    pub choices: Seq<Seq<char>>,
    pub primary: Option<usize>,
    pub stacked: bool,
}

impl View for Question {
    type V = QuestionView;

    open spec fn view(&self) -> QuestionView {
        QuestionView {
            title: self.title@,
            body: self.body@,
            choices: texts(self.choices@),
            primary: self.primary,
            stacked: self.stacked,
        }
    }
}

/// A row of choices with the first as the primary one.
pub open spec fn asks(title: Seq<char>, body: Seq<char>, choices: Seq<Seq<char>>) -> QuestionView {
    QuestionView { title, body, choices, primary: Some(0), stacked: false }
}

/// A pick between equals: a column, none drawn as primary.
pub open spec fn picks(title: Seq<char>, body: Seq<char>, choices: Seq<Seq<char>>) -> QuestionView {
    QuestionView { title, body, choices, primary: None, stacked: true }
}

/// A row of choices with the first as the primary one.
pub fn ask(title: &str, body: String, choices: Vec<String>) -> (r: Question)
    ensures
        r@ == asks(title@, body@, texts(choices@)),
{
    Question { title: title.to_owned(), body, choices, primary: Some(0), stacked: false }
}

/// A pick between equals: a column, none drawn as primary.
pub fn pick(title: &str, body: String, choices: Vec<String>) -> (r: Question)
    ensures
        r@ == picks(title@, body@, texts(choices@)),
{
    Question { title: title.to_owned(), body, choices, primary: None, stacked: true }
}

/// Two words to choose from.
pub fn either(first: &str, second: &str) -> (r: Vec<String>)
    ensures
        texts(r@) == seq![first@, second@],
{
    let mut r: Vec<String> = Vec::new();
    r.push(first.to_owned());
    r.push(second.to_owned());
    assert(texts(r@) =~= seq![first@, second@]);
    r
}

/// The questions that wait for an answer.
pub struct Prompts {
    /// The id of the last question.
    pub last: u64,
    pub waiting: HashSet<u64>,
}

/// The question as it is shown.
pub open spec fn is_prompt(prompt: Prompt, id: u64, question: QuestionView) -> bool {
    &&& prompt.id == id
    &&& prompt.title@ == question.title
    &&& prompt.body@ == question.body
    &&& texts(prompt.choices@) == question.choices
    &&& prompt.focus == 0
    &&& prompt.primary == question.primary
    &&& prompt.stacked == question.stacked
}

impl Prompts {
    /// No question that waits has an id that is still to be given out.
    pub open spec fn wf(&self) -> bool {
        forall|id: u64| self.waiting@.contains(id) ==> 0 < id <= self.last
    }

    pub fn new() -> (r: Self)
        ensures
            r.wf(),
            r.last == 0,
            r.waiting@ == Set::<u64>::empty(),
    {
        Prompts { last: 0, waiting: HashSet::new() }
    }

    /// Shows a question; its id is one that no question had before.
    pub fn show(&mut self, question: Question) -> (r: Prompt)
        requires
            old(self).wf(),
            old(self).last < u64::MAX,
        ensures
            final(self).wf(),
            is_prompt(r, final(self).last, question@),
            final(self).last == old(self).last + 1,
            !old(self).waiting@.contains(r.id),
            final(self).waiting@ == old(self).waiting@.insert(r.id),
    {
        self.last = self.last + 1;
        self.waiting.insert(self.last);
        Prompt {
            id: self.last,
            title: question.title,
            body: question.body,
            choices: question.choices,
            focus: 0,
            primary: question.primary,
            stacked: question.stacked,
        }
    }

    /// Whether somebody waits for an answer to a question.
    pub fn answer(&self, id: u64) -> (r: bool)
        ensures
            r == self.waiting@.contains(id),
    {
        self.waiting.contains(&id)
    }

    /// A question is done with, answered or not.
    pub fn close(&mut self, id: u64)
        requires
            old(self).wf(),
        ensures
            final(self).wf(),
            final(self).last == old(self).last,
            final(self).waiting@ == old(self).waiting@.remove(id),
    {
        self.waiting.remove(&id);
    }
}

// ---------------------------------------------------------------------------
// Yes or no
// ---------------------------------------------------------------------------

/// What is asked before a download is thrown away.
pub open spec fn discard_asks(title: Seq<char>) -> QuestionView {
    asks(
        "Cancel downloading "@ + title + "?"@,
        "What has downloaded so far is thrown away."@,
        seq!["Keep downloading"@, "Cancel download"@],
    )
}

/// What is asked before a game is removed.
pub open spec fn uninstall_asks(title: Seq<char>) -> QuestionView {
    asks(
        "Uninstall "@ + title + "?"@,
        "Removes the installed files. Anything the game saved elsewhere stays."@,
        seq!["Cancel"@, "Uninstall"@],
    )
}

/// The second choice.
pub open spec fn agrees(choice: Option<usize>) -> bool {
    choice == Some(1usize)
}

/// The first choice.
pub open spec fn accepts(choice: Option<usize>) -> bool {
    choice == Some(0usize)
}

/// One of the first so many choices.
pub open spec fn takes(choice: Option<usize>, offers: nat) -> Option<usize> {
    match choice {
        Some(index) if index < offers => Some(index),
        _ => None,
    }
}

/// Keep comes first so a reflex press keeps the download.
pub fn discard_question(title: &str) -> (r: Question)
    ensures
        r@ == discard_asks(title@),
{
    ask(
        joined3("Cancel downloading ", title, "?").as_str(),
        "What has downloaded so far is thrown away.".to_owned(),
        either("Keep downloading", "Cancel download"),
    )
}

/// Cancel comes first so a reflex press keeps the game.
pub fn uninstall_question(title: &str) -> (r: Question)
    ensures
        r@ == uninstall_asks(title@),
{
    ask(
        joined3("Uninstall ", title, "?").as_str(),
        "Removes the installed files. Anything the game saved elsewhere stays.".to_owned(),
        either("Cancel", "Uninstall"),
    )
}

/// Whether the user agreed to what a question would throw away: only the second choice does,
/// so neither a reflex press nor a dismissal loses anything.
pub fn agreed(choice: Option<usize>) -> (r: bool)
    ensures
        r == agrees(choice),
{
    match choice {
        Some(index) => index == 1,
        None => false,
    }
}

/// Whether the user took the first choice.
pub fn accepted(choice: Option<usize>) -> (r: bool)
    ensures
        r == accepts(choice),
{
    match choice {
        Some(index) => index == 0,
        None => false,
    }
}

/// The choice, where it is one of the first `offers`; the one behind them is to cancel.
pub fn taken(choice: Option<usize>, offers: usize) -> (r: Option<usize>)
    ensures
        r == takes(choice, offers as nat),
{
    match choice {
        Some(index) => if index < offers {
            Some(index)
        } else {
            None
        },
        None => None,
    }
}

/// A download is thrown away, and a game removed, only by the choice that says so: not by the
/// one in focus at first, nor by a dismissal.
pub proof fn only_the_choice_that_says_so_throws_away(title: Seq<char>, choice: Option<usize>)
    ensures
        agrees(choice) <==> (choice matches Some(i) && i < discard_asks(title).choices.len()
            && discard_asks(title).choices[i as int] == "Cancel download"@),
        agrees(choice) <==> (choice matches Some(i) && i < uninstall_asks(title).choices.len()
            && uninstall_asks(title).choices[i as int] == "Uninstall"@),
        discard_asks(title).choices[0] == "Keep downloading"@,
        uninstall_asks(title).choices[0] == "Cancel"@,
        discard_asks(title).primary == Some(0usize) && uninstall_asks(title).primary == Some(0usize),
        !agrees(None) && !agrees(Some(0)),
{
    reveal_strlit("Keep downloading");
    reveal_strlit("Cancel download");
    reveal_strlit("Cancel");
    reveal_strlit("Uninstall");
    assert("Keep downloading"@.len() != "Cancel download"@.len());
    assert("Cancel"@.len() != "Uninstall"@.len());
}

/// A choice is taken where it is one of those on offer, as it is; the one behind them, and a
/// dismissal, take none.
pub proof fn choices_on_offer_are_taken(index: usize, offers: nat)
    ensures
        index < offers ==> takes(Some(index), offers) == Some(index),
        index >= offers ==> takes(Some(index), offers) is None,
        takes(None, offers) is None,
{
}

/// A question shows with its first choice in focus, under a number that no other has.
pub proof fn questions_show_as_they_were_asked(prompt: Prompt, id: u64, question: QuestionView)
    requires
        is_prompt(prompt, id, question),
    ensures
        prompt.id == id && prompt.focus == 0,
        prompt.title@ == question.title && prompt.body@ == question.body,
        prompt.choices@.len() == question.choices.len(),
        forall|i: int| 0 <= i < prompt.choices@.len() ==> (#[trigger] prompt.choices@[i])@ == question.choices[i],
        prompt.stacked == question.stacked && prompt.primary == question.primary,
{
    assert forall|i: int| 0 <= i < prompt.choices@.len() implies (#[trigger] prompt.choices@[i])@
        == question.choices[i] by {
        assert(texts(prompt.choices@)[i] == question.choices[i]);
    }
}

/// A question between two things puts them side by side with the first one marked; a pick from a
/// list stacks it and marks none.
pub proof fn questions_and_picks_look_different(
    title: Seq<char>,
    body: Seq<char>,
    choices: Seq<Seq<char>>,
)
    ensures
        !asks(title, body, choices).stacked && asks(title, body, choices).primary == Some(0usize),
        picks(title, body, choices).stacked && picks(title, body, choices).primary is None,
        asks(title, body, choices).choices == choices && picks(title, body, choices).choices
            == choices,
        asks(title, body, choices).title == title && picks(title, body, choices).title == title,
        asks(title, body, choices).body == body && picks(title, body, choices).body == body,
        accepts(Some(0)) && !accepts(Some(1)) && !accepts(None),
{
}

} // verus!
