//! Scripted screenshots: a debugging capture that plays steps and writes the window to a
//! file.
use vstd::prelude::*;
use vstd::string::*;
use crate::app::apply::asked;
use crate::app::events::noticed;
use crate::app::state::{App, Library, Search, WindowRequest};
use crate::model::{Action, Direction, Loadable};
use crate::text::{
    after_prefix, decimal, joined, number, parse_number, quote, quoted, same, split, split_at_each,
    strip_prefix, texts, trim, trimmed,
};

verus! {

broadcast use vstd::std_specs::hash::group_hash_axioms;

/// One step of a screenshot script.
#[derive(Debug, PartialEq, Eq)]
pub enum Step {
    Act(Action),
    /// Do nothing for so many milliseconds.
    Wait(u64),
    /// Write the screenshot now, mid-script, instead of at the end.
    Capture,
    /// Raise a sample failure notice, to look at it.
    Notice,
    /// Type into the search box.
    Search(String),
}

/// A step as the values it holds.
pub enum StepView {
    Act(Action),
    Wait(u64),
    Capture,
    Notice,
    Search(Seq<char>),
}

impl View for Step {
    type V = StepView;

    open spec fn view(&self) -> StepView {
        match self {
            Step::Act(action) => StepView::Act(*action),
            Step::Wait(ms) => StepView::Wait(*ms),
            Step::Capture => StepView::Capture,
            Step::Notice => StepView::Notice,
            Step::Search(text) => StepView::Search(text@),
        }
    }
}

pub open spec fn step_views(steps: Seq<Step>) -> Seq<StepView> {
    steps.map_values(|s: Step| s@)
}

/// The words of a script: what stands between commas, trimmed, where there is something.
pub open spec fn words(parts: Seq<Seq<char>>) -> Seq<Seq<char>>
    decreases parts.len(),
{
    if parts.len() == 0 {
        Seq::empty()
    } else {
        let before = words(parts.drop_last());
        let word = trim(parts.last());
        if word.len() == 0 {
            before
        } else {
            before.push(word)
        }
    }
}

/// The number behind a prefix.
pub open spec fn numbered(word: Seq<char>, head: Seq<char>, max: nat) -> Option<nat> {
    match after_prefix(word, head) {
        Some(rest) => number(rest, max),
        None => None,
    }
}

pub open spec fn moving(direction: Direction) -> Option<StepView> {
    Some(StepView::Act(Action::MoveFocus(direction)))
}

/// What a word of a script stands for.
pub open spec fn meaning(word: Seq<char>) -> Option<StepView> {
    if word == "up"@ {
        moving(Direction::Up)
    } else if word == "down"@ {
        moving(Direction::Down)
    } else if word == "left"@ {
        moving(Direction::Left)
    } else if word == "right"@ {
        moving(Direction::Right)
    } else if word == "home"@ {
        moving(Direction::Home)
    } else if word == "end"@ {
        moving(Direction::End)
    } else if word == "enter"@ {
        Some(StepView::Act(Action::Activate))
    } else if word == "back"@ {
        Some(StepView::Act(Action::Back))
    } else if word == "capture"@ {
        Some(StepView::Capture)
    } else if word == "notice"@ {
        Some(StepView::Notice)
    } else if word == "nexttab"@ {
        Some(StepView::Act(Action::CycleTab(1)))
    } else if word == "prevtab"@ {
        Some(StepView::Act(Action::CycleTab(-1i32)))
    } else if word == "guide"@ {
        Some(StepView::Act(Action::Menu))
    } else if word == "prompt"@ {
        // A stand-in question, to look at the modal without a game that asks one.
        Some(StepView::Act(Action::Answer { prompt: 0, choice: None }))
    } else {
        match numbered(word, "prompt:"@, usize::MAX as nat) {
            // The stand-in with that many long choices.
            Some(count) => Some(
                StepView::Act(Action::Answer { prompt: 0, choice: Some(count as usize) }),
            ),
            None => match numbered(word, "focus:"@, usize::MAX as nat) {
                Some(index) => Some(StepView::Act(Action::FocusIndex(index as usize))),
                None => match numbered(word, "wait:"@, u64::MAX as nat) {
                    Some(ms) => Some(StepView::Wait(ms as u64)),
                    None => match after_prefix(word, "search:"@) {
                        Some(text) => Some(StepView::Search(text)),
                        None => None,
                    },
                },
            },
        }
    }
}

/// What is said of a word that stands for nothing.
pub open spec fn complaint(quoted_word: Seq<char>) -> Seq<char> {
    "unknown script step "@ + quoted_word
}

fn parse_after(word: &str, head: &str, max: u64) -> (r: Option<u64>)
    ensures
        r matches Some(n) ==> numbered(word@, head@, max as nat) == Some(n as nat),
        r is None ==> numbered(word@, head@, max as nat) is None,
{
    match strip_prefix(word, head) {
        Some(rest) => parse_number(rest.as_str(), max),
        None => None,
    }
}

fn parse_argument(word: &str) -> (r: Option<Step>)
    ensures
        ({
            let from_number = match numbered(word@, "prompt:"@, usize::MAX as nat) {
                Some(count) => Some(
                    StepView::Act(Action::Answer { prompt: 0, choice: Some(count as usize) }),
                ),
                None => match numbered(word@, "focus:"@, usize::MAX as nat) {
                    Some(index) => Some(StepView::Act(Action::FocusIndex(index as usize))),
                    None => match numbered(word@, "wait:"@, u64::MAX as nat) {
                        Some(ms) => Some(StepView::Wait(ms as u64)),
                        None => match after_prefix(word@, "search:"@) {
                            Some(text) => Some(StepView::Search(text)),
                            None => None,
                        },
                    },
                },
            };
            match r {
                Some(step) => from_number == Some(step@),
                None => from_number is None,
            }
        }),
{
    if let Some(count) = parse_after(word, "prompt:", usize::MAX as u64) {
        return Some(Step::Act(Action::Answer { prompt: 0, choice: Some(count as usize) }));
    }
    if let Some(index) = parse_after(word, "focus:", usize::MAX as u64) {
        return Some(Step::Act(Action::FocusIndex(index as usize)));
    }
    if let Some(ms) = parse_after(word, "wait:", u64::MAX) {
        return Some(Step::Wait(ms));
    }
    match strip_prefix(word, "search:") {
        Some(text) => Some(Step::Search(text)),
        None => None,
    }
}

/// What a word of a script stands for.
pub fn parse_step(word: &str) -> (r: Option<Step>)
    ensures
        r matches Some(step) ==> meaning(word@) == Some(step@),
        r is None ==> meaning(word@) is None,
{
    if same(word, "up") {
        Some(Step::Act(Action::MoveFocus(Direction::Up)))
    } else if same(word, "down") {
        Some(Step::Act(Action::MoveFocus(Direction::Down)))
    } else if same(word, "left") {
        Some(Step::Act(Action::MoveFocus(Direction::Left)))
    } else if same(word, "right") {
        Some(Step::Act(Action::MoveFocus(Direction::Right)))
    } else if same(word, "home") {
        Some(Step::Act(Action::MoveFocus(Direction::Home)))
    } else if same(word, "end") {
        Some(Step::Act(Action::MoveFocus(Direction::End)))
    } else if same(word, "enter") {
        Some(Step::Act(Action::Activate))
    } else if same(word, "back") {
        Some(Step::Act(Action::Back))
    } else if same(word, "capture") {
        Some(Step::Capture)
    } else if same(word, "notice") {
        Some(Step::Notice)
    } else if same(word, "nexttab") {
        Some(Step::Act(Action::CycleTab(1)))
    } else if same(word, "prevtab") {
        Some(Step::Act(Action::CycleTab(-1)))
    } else if same(word, "guide") {
        Some(Step::Act(Action::Menu))
    } else if same(word, "prompt") {
        Some(Step::Act(Action::Answer { prompt: 0, choice: None }))
    } else {
        parse_argument(word)
    }
}

/// Every word up to a place stands for a step.
pub open spec fn all_known(list: Seq<Seq<char>>) -> bool {
    forall|i: int| 0 <= i < list.len() ==> meaning(#[trigger] list[i]) is Some
}

fn split_words(text: &str) -> (r: Vec<String>)
    ensures
        texts(r@) == words(split(text@, ',')),
{
    let parts = split_at_each(text, ',');
    let ghost all = texts(parts@);
    let mut r: Vec<String> = Vec::new();
    let mut i: usize = 0;
    assert(all.take(0) =~= Seq::empty());
    assert(texts(r@) =~= words(all.take(0)));
    while i < parts.len()
        invariant
            i <= parts@.len(),
            all == texts(parts@),
            texts(r@) == words(all.take(i as int)),
        decreases parts@.len() - i,
    {
        assert(all.take(i + 1).drop_last() =~= all.take(i as int));
        let ghost before = texts(r@);
        let word = trimmed(parts[i].as_str());
        let ghost view = word@;
        if !word.as_str().is_empty() {
            r.push(word);
            assert(texts(r@) =~= before.push(view));
        }
        i += 1;
    }
    assert(all.take(i as int) =~= all);
    r
}

/// Parses `focus:12,enter,wait:2000,capture`.
pub fn parse_script(text: &str) -> (r: Result<Vec<Step>, String>)
    ensures
        ({
            let list = words(split(text@, ','));
            match r {
                Ok(steps) => {
                    &&& all_known(list)
                    &&& step_views(steps@) == list.map_values(|w: Seq<char>| meaning(w)->0)
                },
                Err(message) => exists|i: int|
                    {
                        &&& 0 <= i < list.len()
                        &&& all_known(list.take(i))
                        &&& meaning(#[trigger] list[i]) is None
                        &&& message@ == complaint(quoted(list[i]))
                    },
            }
        }),
{
    let list = split_words(text);
    let ghost all = texts(list@);
    let mut steps: Vec<Step> = Vec::new();
    let mut i: usize = 0;
    while i < list.len()
        invariant
            i <= list@.len(),
            all == texts(list@),
            all == words(split(text@, ',')),
            all_known(all.take(i as int)),
            step_views(steps@) == all.take(i as int).map_values(|w: Seq<char>| meaning(w)->0),
        decreases list@.len() - i,
    {
        let ghost before = step_views(steps@);
        assert(all[i as int] == list@[i as int]@);
        match parse_step(list[i].as_str()) {
            Some(step) => {
                let ghost view = step@;
                steps.push(step);
                assert(step_views(steps@) =~= before.push(view));
                proof {
                    let more = all.take(i + 1);
                    assert forall|k: int| 0 <= k < more.len() implies meaning(
                        #[trigger] more[k],
                    ) is Some by {
                        if k < i {
                            assert(more[k] == all.take(i as int)[k]);
                        }
                    }
                    assert(step_views(steps@) =~= more.map_values(|w: Seq<char>| meaning(w)->0));
                }
            },
            None => {
                let r = joined("unknown script step ", quote(list[i].as_str()).as_str());
                assert(meaning(all[i as int]) is None);
                return Err(r);
            },
        }
        i += 1;
    }
    assert(all.take(i as int) =~= all);
    Ok(steps)
}

// ---------------------------------------------------------------------------
// Playing a script
// ---------------------------------------------------------------------------

/// Covers get a moment after the library has loaded.
pub const COVER_GRACE: u64 = 3_000_000_000;

/// A debugging capture: write the window to a file once the library has
/// settled, or after a deadline, then quit.
#[derive(Debug)]
pub struct Shot {
    pub path: String,
    pub deadline: u64,
    /// When the library finished loading; covers get a moment after that.
    pub settled_at: Option<u64>,
    /// Scripted steps to play once the library is loaded, one per frame.
    pub script: Vec<Step>,
    pub wait_until: Option<u64>,
    /// A screenshot was requested and its pixels have not arrived yet.
    pub capture_pending: bool,
    /// Whether a `capture` step already wrote the file, so the run ends
    /// without a second capture.
    pub captured: bool,
}

/// A time so much later, as far as times go.
pub open spec fn later(now: u64, by: int) -> u64 {
    if now + by > u64::MAX {
        u64::MAX
    } else {
        (now + by) as u64
    }
}

fn add_time(now: u64, by: u64) -> (r: u64)
    ensures
        r == later(now, by as int),
{
    if by > u64::MAX - now {
        u64::MAX
    } else {
        now + by
    }
}

impl Shot {
    /// A capture that gives up waiting after so many nanoseconds.
    pub fn new(path: String, now: u64, wait: u64, script: Vec<Step>) -> (r: Self)
        ensures
            r == (Shot {
                path,
                deadline: later(now, wait as int),
                settled_at: None,
                script,
                wait_until: None,
                capture_pending: false,
                captured: false,
            }),
    {
        Shot {
            path,
            deadline: add_time(now, wait),
            settled_at: None,
            script,
            wait_until: None,
            capture_pending: false,
            captured: false,
        }
    }
}

/// What a frame of a capture comes to.
#[derive(Debug, Clone, Copy, PartialEq, Eq, Structural)]
pub enum ShotFrame {
    /// Nothing to show.
    Wait,
    /// A step was played, or the picture was asked for: draw another frame.
    Again,
    /// The picture was written and there is nothing left to do.
    Done,
}

impl App {
    /// Something is downloading or running; closing would kill the daemon under it.
    pub open spec fn busy(&self) -> bool {
        self.queue.installs@.dom() != Set::<i64>::empty() || self.play.running@ != Map::<
            Seq<char>,
            u64,
        >::empty()
    }

    /// The library has loaded, or failed to.
    pub open spec fn has_settled(&self) -> bool {
        !(self.library.owned is Loading)
    }

    fn is_busy(&self) -> (r: bool)
        ensures
            r == self.busy(),
    {
        proof {
            if self.queue.installs@.len() == 0 {
                self.queue.installs@.dom().lemma_len0_is_empty();
            }
        }
        !self.queue.installs.is_empty() || !self.play.running.is_empty()
    }
}

/// The window was asked for something.
pub open spec fn window_asked(pre: App, request: WindowRequest, post: App) -> bool {
    &&& post == (App { window: post.window, ..pre })
    &&& post.window@ == pre.window@.push(request)
}

pub open spec fn sample_failure() -> Seq<char> {
    "Couldn't check for updates: a sample failure from the screenshot script"@
}

/// A step was played.
pub open spec fn step_played(pre: App, shot: Shot, step: Step, now: u64, post: App, after: Shot) -> bool {
    match step {
        Step::Act(action) => asked(pre, action, post) && after == shot,
        Step::Search(text) => {
            &&& after == shot
            &&& post == (App {
                search: Search { query: text, ..pre.search },
                library: Library { rows: post.library.rows, ..pre.library },
                ..pre
            })
            &&& post.library.rows@ == (App {
                search: Search { query: text, ..pre.search },
                ..pre
            }).fresh_rows()
        },
        Step::Wait(ms) => {
            &&& post == pre
            &&& after == (Shot { wait_until: Some(later(now, ms * 1_000_000)), ..shot })
        },
        Step::Notice => {
            &&& after == shot
            &&& post == (App { screen: post.screen, ..pre })
            &&& noticed(pre.screen, sample_failure(), now, post.screen)
        },
        Step::Capture => {
            &&& after == (Shot { capture_pending: true, ..shot })
            &&& window_asked(pre, WindowRequest::Screenshot, post)
        },
    }
}

/// The end of a script: once everything has settled for a moment, or at the deadline, the
/// picture is asked for, unless a step took it already; then the window closes.
pub open spec fn script_ended(
    pre: App,
    shot: Shot,
    now: u64,
    post: App,
    after: Shot,
    frame: ShotFrame,
) -> bool {
    let settled_at = if pre.has_settled() && !pre.busy() && shot.settled_at is None {
        Some(now)
    } else {
        shot.settled_at
    };
    let ready = settled_at matches Some(at) && now >= later(at, COVER_GRACE as int);
    let due = ready || (now >= shot.deadline && !pre.busy());
    let waited = Shot { settled_at, ..shot };
    if !due {
        post == pre && after == waited && frame == ShotFrame::Wait
    } else if shot.captured {
        window_asked(pre, WindowRequest::Close, post) && after == waited && frame == ShotFrame::Done
    } else {
        &&& window_asked(pre, WindowRequest::Screenshot, post)
        &&& after == (Shot { capture_pending: true, ..waited })
        &&& frame == ShotFrame::Again
    }
}

/// One frame of a capture. `pixels` says whether the picture asked for has arrived.
pub open spec fn shot_driven(
    pre: App,
    shot: Shot,
    now: u64,
    pixels: bool,
    post: App,
    after: Shot,
    frame: ShotFrame,
) -> bool {
    if shot.capture_pending {
        if !pixels {
            post == pre && after == shot && frame == ShotFrame::Wait
        } else {
            &&& after == (Shot { capture_pending: false, captured: true, ..shot })
            &&& if shot.script@.len() == 0 && !pre.busy() {
                window_asked(pre, WindowRequest::Close, post) && frame == ShotFrame::Done
            } else {
                post == pre && frame == ShotFrame::Wait
            }
        }
    } else if shot.wait_until matches Some(until) && now < until {
        post == pre && after == shot && frame == ShotFrame::Wait
    } else {
        let rested = Shot { wait_until: None, ..shot };
        if pre.has_settled() && shot.script@.len() > 0 {
            exists|left: Shot|
                {
                    &&& left == (Shot { script: left.script, ..rested })
                    &&& left.script@ == shot.script@.skip(1)
                    &&& frame == ShotFrame::Again
                    &&& #[trigger] step_played(pre, left, shot.script@[0], now, post, after)
                }
        } else {
            script_ended(pre, rested, now, post, after, frame)
        }
    }
}

impl App {
    fn play_step(&mut self, shot: &mut Shot, step: Step, now: u64)
        requires
            old(self).wf(),
        ensures
            step_played(*old(self), *old(shot), step, now, *final(self), *final(shot)),
            final(self).wf(),
    {
        match step {
            Step::Act(action) => self.ask(action),
            Step::Search(text) => self.search_for(text),
            Step::Wait(ms) => {
                let by: u64 = if ms > u64::MAX / 1_000_000 {
                    u64::MAX
                } else {
                    ms * 1_000_000
                };
                shot.wait_until = Some(add_time(now, by));
            },
            Step::Notice => self.notify(
                "Couldn't check for updates: a sample failure from the screenshot script".to_owned(),
                now,
            ),
            Step::Capture => {
                shot.capture_pending = true;
                self.window.push(WindowRequest::Screenshot);
            },
        }
    }

    fn end_script(&mut self, shot: &mut Shot, now: u64) -> (r: ShotFrame)
        ensures
            script_ended(*old(self), *old(shot), now, *final(self), *final(shot), r),
            final(self).library == old(self).library && final(self).shelves == old(self).shelves,
    {
        let loaded = match self.library.owned {
            Loadable::Loading => false,
            _ => true,
        };
        let busy = self.is_busy();
        if loaded && !busy && shot.settled_at.is_none() {
            shot.settled_at = Some(now);
        }
        let ready = match shot.settled_at {
            Some(at) => now >= add_time(at, COVER_GRACE),
            None => false,
        };
        if ready || (now >= shot.deadline && !busy) {
            if shot.captured {
                self.window.push(WindowRequest::Close);
                ShotFrame::Done
            } else {
                shot.capture_pending = true;
                self.window.push(WindowRequest::Screenshot);
                ShotFrame::Again
            }
        } else {
            ShotFrame::Wait
        }
    }

    /// One frame of a capture. `pixels` says whether the picture asked for has arrived.
    pub fn drive_shot(&mut self, shot: &mut Shot, now: u64, pixels: bool) -> (r: ShotFrame)
        requires
            old(self).wf(),
        ensures
            shot_driven(*old(self), *old(shot), now, pixels, *final(self), *final(shot), r),
            final(self).wf(),
    {
        if shot.capture_pending {
            if !pixels {
                return ShotFrame::Wait;
            }
            shot.capture_pending = false;
            shot.captured = true;
            if shot.script.len() == 0 && !self.is_busy() {
                self.window.push(WindowRequest::Close);
                return ShotFrame::Done;
            }
            return ShotFrame::Wait;
        }
        if let Some(until) = shot.wait_until {
            if now < until {
                return ShotFrame::Wait;
            }
            shot.wait_until = None;
        }
        let loaded = match self.library.owned {
            Loadable::Loading => false,
            _ => true,
        };
        if loaded && shot.script.len() > 0 {
            let step = shot.script.remove(0);
            let ghost left = *shot;
            assert(left.script@ =~= old(shot).script@.skip(1));
            let ghost played = step;
            self.play_step(shot, step, now);
            assert(step_played(*old(self), left, played, now, *self, *shot));
            return ShotFrame::Again;
        }
        self.end_script(shot, now)
    }
}

/// While a picture is awaited nothing else happens, and neither does before a pause is over;
/// otherwise the next step of the script is played, and taken off it.
pub proof fn scripts_are_played_in_order(
    pre: App,
    shot: Shot,
    now: u64,
    pixels: bool,
    post: App,
    after: Shot,
    frame: ShotFrame,
)
    requires
        shot_driven(pre, shot, now, pixels, post, after, frame),
    ensures
        shot.capture_pending && !pixels ==> post == pre && after == shot && frame == ShotFrame::Wait,
        shot.capture_pending && pixels ==> !after.capture_pending && after.captured,
        !shot.capture_pending && (shot.wait_until matches Some(until) && now < until) ==> post == pre
            && after == shot,
        !shot.capture_pending && !(shot.wait_until matches Some(until) && now < until)
            && !(pre.library.owned is Loading) && shot.script@.len() > 0 ==> {
            &&& after.script@ == shot.script@.skip(1)
            &&& shot.script@[0] matches Step::Act(action) ==> post.actions@ == pre.actions@.push(
                action,
            )
            &&& shot.script@[0] matches Step::Wait(ms) ==> post == pre && (now + ms * 1_000_000
                <= u64::MAX ==> after.wait_until == Some((now + ms * 1_000_000) as u64))
            &&& shot.script@[0] is Capture ==> after.capture_pending && post.window@
                == pre.window@.push(WindowRequest::Screenshot)
            &&& shot.script@[0] matches Step::Search(text) ==> post.search.query == text
            &&& shot.script@[0] is Notice ==> post.screen.notice is Some
        },
{
}

/// At the end of a script a picture is taken once the page has been settled for three seconds,
/// unless one was, and then the window closes.
pub proof fn scripts_end_with_a_picture(
    pre: App,
    shot: Shot,
    now: u64,
    post: App,
    after: Shot,
    frame: ShotFrame,
)
    requires
        !shot.capture_pending,
        shot.wait_until is None,
        shot.script@.len() == 0,
        now < shot.deadline,
        shot_driven(pre, shot, now, false, post, after, frame),
    ensures
        (shot.settled_at matches Some(at) && at + 3_000_000_000 <= now) && !shot.captured
            ==> post.window@ == pre.window@.push(WindowRequest::Screenshot) && after.capture_pending,
        (shot.settled_at matches Some(at) && at + 3_000_000_000 <= now) && shot.captured
            ==> post.window@ == pre.window@.push(WindowRequest::Close) && frame == ShotFrame::Done,
        (shot.settled_at matches Some(at) && at + 3_000_000_000 > now) ==> post == pre && frame
            == ShotFrame::Wait,
        shot.settled_at is None && (pre.library.owned is Loading || pre.busy()) ==> post == pre
            && after.settled_at is None,
        shot.settled_at is None && !(pre.library.owned is Loading) && !pre.busy() && now
            + 3_000_000_000 <= u64::MAX ==> post == pre && after.settled_at == Some(now),
{
}

proof fn lemma_words(parts: Seq<Seq<char>>, word: Seq<char>)
    ensures
        words(parts).contains(word) <==> word.len() > 0 && exists|i: int|
            0 <= i < parts.len() && trim(#[trigger] parts[i]) == word,
    decreases parts.len(),
{
    if parts.len() > 0 {
        let rest = parts.drop_last();
        lemma_words(rest, word);
        let before = words(rest);
        let all = words(parts);
        if all.contains(word) {
            let k = choose|k: int| 0 <= k < all.len() && all[k] == word;
            if k < before.len() {
                assert(before[k] == word);
                let i = choose|i: int| 0 <= i < rest.len() && trim(#[trigger] rest[i]) == word;
                assert(parts[i] == rest[i]);
            } else {
                assert(trim(parts[parts.len() - 1]) == word);
            }
        }
        if word.len() > 0 && exists|i: int| 0 <= i < parts.len() && trim(#[trigger] parts[i]) == word {
            let i = choose|i: int| 0 <= i < parts.len() && trim(#[trigger] parts[i]) == word;
            if i < rest.len() {
                assert(rest[i] == parts[i]);
                let k = choose|k: int| 0 <= k < before.len() && before[k] == word;
                assert(all[k] == word);
            } else {
                assert(all[all.len() - 1] == word);
            }
        }
    }
}

/// The steps of a script are what stands between its commas, without the space around it; what
/// is empty is no step.
pub proof fn steps_stand_between_commas(parts: Seq<Seq<char>>, word: Seq<char>)
    ensures
        words(parts).contains(word) <==> word.len() > 0 && exists|i: int|
            0 <= i < parts.len() && trim(#[trigger] parts[i]) == word,
        words(parts).len() <= parts.len(),
    decreases parts.len(),
{
    lemma_words(parts, word);
    if parts.len() > 0 {
        steps_stand_between_commas(parts.drop_last(), word);
    }
}

/// A number behind a word reads as that number.
pub proof fn numbers_stand_behind_their_word(head: Seq<char>, n: nat, max: nat)
    ensures
        numbered(head + decimal(n), head, max) == (if n <= max {
            Some(n)
        } else {
            None
        }),
{
    crate::text::prefixes_and_suffixes_come_off(decimal(n), head);
    crate::text::numbers_read_back(n, max);
}

} // verus!
