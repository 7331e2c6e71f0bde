//! What each action does.
use vstd::prelude::*;
use vstd::string::*;
use crate::app::state::{App, News, Screen, WindowRequest, QUIT_FRAMES};
use crate::backend::Command;
use crate::model::{Action, Direction, Prompt};
use crate::rows::last_index;
use crate::text::{decimal, joined3, number_text, texts};

verus! {

broadcast use vstd::std_specs::hash::group_hash_axioms;

// ---------------------------------------------------------------------------
// The window, and the sample questions of a screenshot script
// ---------------------------------------------------------------------------

/// The window was brought to the front.
pub open spec fn raised(window: Seq<WindowRequest>) -> Seq<WindowRequest> {
    window.push(WindowRequest::Restore).push(WindowRequest::Focus)
}

/// A text so many times over.
pub open spec fn repeated(s: Seq<char>, times: nat) -> Seq<char>
    decreases times,
{
    if times == 0 {
        Seq::empty()
    } else {
        repeated(s, (times - 1) as nat) + s
    }
}

fn repeat(s: &str, times: u64) -> (r: String)
    ensures
        r@ == repeated(s@, times as nat),
{
    let mut r = String::new();
    let mut i: u64 = 0;
    while i < times
        invariant
            i <= times,
            r@ == repeated(s@, i as nat),
        decreases times - i,
    {
        r.append(s);
        i += 1;
    }
    r
}

pub open spec fn sample_choice(i: nat) -> Seq<char> {
    "Sample - Linux - build "@ + decimal(i) + " (135.9 MB)"@
}

/// The stand-in question: a license, or with a count, a pick between that many downloads.
pub open spec fn is_sample(prompt: Prompt, count: Option<usize>) -> bool {
    &&& prompt.id == 0
    &&& prompt.focus == 0
    &&& match count {
        Some(count) => {
            &&& prompt.title@ == "Which download?"@
            &&& prompt.body@ == "Sample has more than one download for this device."@
            &&& texts(prompt.choices@) == Seq::new(
                count as nat,
                |i: int| sample_choice((i + 1) as nat),
            )
            &&& prompt.primary is None
            &&& prompt.stacked
        },
        None => {
            &&& prompt.title@ == "License agreement"@
            &&& prompt.body@ == repeated(
                "This is a sample license shown by the screenshot script. "@,
                12,
            )
            &&& texts(prompt.choices@) == seq!["Accept"@, "Decline"@]
            &&& prompt.primary == Some(0usize)
            &&& !prompt.stacked
        },
    }
}

/// The screenshot script's stand-in: a license, or with a count,
/// a pick between that many downloads.
pub fn sample_prompt(count: Option<usize>) -> (r: Prompt)
    ensures
        is_sample(r, count),
{
    match count {
        Some(count) => {
            let mut choices: Vec<String> = Vec::new();
            let mut i: usize = 0;
            while i < count
                invariant
                    i <= count,
                    texts(choices@) == Seq::new(i as nat, |k: int| sample_choice((k + 1) as nat)),
                decreases count - i,
            {
                let ghost before = texts(choices@);
                i += 1;
                let choice = joined3(
                    "Sample - Linux - build ",
                    number_text(i as u64).as_str(),
                    " (135.9 MB)",
                );
                let ghost words = choice@;
                choices.push(choice);
                assert(texts(choices@) =~= before.push(words));
                assert(texts(choices@) =~= Seq::new(
                    i as nat,
                    |k: int| sample_choice((k + 1) as nat),
                ));
            }
            Prompt {
                id: 0,
                title: "Which download?".to_owned(),
                body: "Sample has more than one download for this device.".to_owned(),
                choices,
                focus: 0,
                primary: None,
                stacked: true,
            }
        },
        None => {
            let mut choices: Vec<String> = Vec::new();
            choices.push("Accept".to_owned());
            choices.push("Decline".to_owned());
            assert(texts(choices@) =~= seq!["Accept"@, "Decline"@]);
            Prompt {
                id: 0,
                title: "License agreement".to_owned(),
                body: repeat("This is a sample license shown by the screenshot script. ", 12),
                choices,
                focus: 0,
                primary: Some(0),
                stacked: false,
            }
        },
    }
}

// ---------------------------------------------------------------------------
// While a question is open
// ---------------------------------------------------------------------------

/// Where the focus of a question goes.
pub open spec fn choice_stepped(prompt: Prompt, direction: Direction) -> usize {
    let last = last_index(prompt.choices@.len());
    let back = if prompt.stacked {
        Direction::Up
    } else {
        Direction::Left
    };
    let on = if prompt.stacked {
        Direction::Down
    } else {
        Direction::Right
    };
    if direction == back {
        if prompt.focus == 0 {
            0
        } else {
            (prompt.focus - 1) as usize
        }
    } else if direction == on {
        if prompt.focus < last {
            (prompt.focus + 1) as usize
        } else {
            last
        }
    } else if direction == Direction::Home {
        0
    } else if direction == Direction::End {
        last
    } else {
        prompt.focus
    }
}

/// The question that waited longest takes the screen, and those still behind it wait on.
pub open spec fn next_prompt(pre: Screen, post: Screen) -> bool {
    &&& post == (Screen { prompt: post.prompt, prompt_queue: post.prompt_queue, ..pre })
    &&& if pre.prompt_queue@.len() > 0 {
        post.prompt == Some(pre.prompt_queue@[0]) && post.prompt_queue@ == pre.prompt_queue@.skip(1)
    } else {
        post.prompt is None && post.prompt_queue@ == pre.prompt_queue@
    }
}

/// Nothing changed but that an action was asked for.
pub open spec fn asked(pre: App, action: Action, post: App) -> bool {
    &&& post == (App { actions: post.actions, ..pre })
    &&& post.actions@ == pre.actions@.push(action)
}

/// Nothing changed but that the backend was sent a command.
pub open spec fn sent(pre: App, command: Command, post: App) -> bool {
    &&& post == (App { commands: post.commands, ..pre })
    &&& post.commands@ == pre.commands@.push(command)
}

/// Nothing changed but what is on the screen.
pub open spec fn shown(pre: App, screen: Screen, post: App) -> bool {
    post == (App { screen, ..pre })
}

/// Nothing changed but that the window was brought to the front.
pub open spec fn fronted(pre: App, post: App) -> bool {
    &&& post == (App { window: post.window, ..pre })
    &&& post.window@ == raised(pre.window@)
}

/// What an action does while a question is open: only that question hears it.
pub open spec fn answered(pre: App, prompt: Prompt, action: Action, post: App) -> bool {
    match action {
        Action::MoveFocus(direction) => shown(
            pre,
            Screen {
                prompt: Some(Prompt { focus: choice_stepped(prompt, direction), ..prompt }),
                ..pre.screen
            },
            post,
        ),
        Action::PromptFocus(index) => shown(
            pre,
            Screen {
                prompt: Some(
                    Prompt {
                        focus: if index < prompt.choices@.len() {
                            index
                        } else {
                            prompt.focus
                        },
                        ..prompt
                    },
                ),
                ..pre.screen
            },
            post,
        ),
        Action::Activate => asked(
            pre,
            Action::Answer { prompt: prompt.id, choice: Some(prompt.focus) },
            post,
        ),
        Action::Back => asked(pre, Action::Answer { prompt: prompt.id, choice: None }, post),
        Action::Answer { prompt: id, choice } => if id == prompt.id {
            &&& post == (App { screen: post.screen, commands: post.commands, ..pre })
            &&& next_prompt(pre.screen, post.screen)
            &&& post.commands@ == pre.commands@.push(Command::Answer { prompt: id, choice })
        } else {
            post == pre
        },
        Action::Menu => fronted(pre, post),
        _ => post == pre,
    }
}

/// Where the focus of a question goes.
fn step_choice(prompt: &Prompt, direction: Direction) -> (r: usize)
    ensures
        r == choice_stepped(*prompt, direction),
{
    let last: usize = if prompt.choices.len() == 0 {
        0
    } else {
        prompt.choices.len() - 1
    };
    match (prompt.stacked, direction) {
        (true, Direction::Up) | (false, Direction::Left) => if prompt.focus == 0 {
            0
        } else {
            prompt.focus - 1
        },
        (true, Direction::Down) | (false, Direction::Right) => if prompt.focus < last {
            prompt.focus + 1
        } else {
            last
        },
        (_, Direction::Home) => 0,
        (_, Direction::End) => last,
        _ => prompt.focus,
    }
}

impl Screen {
    /// Shows the question that waited longest, if any did.
    pub fn show_next_prompt(&mut self)
        ensures
            next_prompt(*old(self), *final(self)),
    {
        if self.prompt_queue.len() > 0 {
            let next = self.prompt_queue.remove(0);
            self.prompt = Some(next);
            assert(self.prompt_queue@ =~= old(self).prompt_queue@.skip(1));
        } else {
            self.prompt = None;
        }
    }

    /// Puts the focus of the open question on one of its choices.
    fn focus_choice(&mut self, focus: usize)
        requires
            old(self).prompt is Some,
        ensures
            *final(self) == (Screen {
                prompt: Some(Prompt { focus, ..old(self).prompt->0 }),
                ..*old(self)
            }),
    {
        if let Some(prompt) = &mut self.prompt {
            prompt.focus = focus;
        }
    }
}

impl App {
    /// Brings the window to the front. Wayland compositors that refuse
    /// ignore the request.
    pub fn raise_window(&mut self)
        ensures
            fronted(*old(self), *final(self)),
    {
        self.window.push(WindowRequest::Restore);
        self.window.push(WindowRequest::Focus);
    }

    /// Gets out of the game's way by minimizing, which every window system
    /// answers by focusing what was behind.
    pub fn hide_window(&mut self)
        ensures
            *final(self) == (App { window: final(self).window, ..*old(self) }),
            final(self).window@ == old(self).window@.push(WindowRequest::Minimize),
    {
        self.window.push(WindowRequest::Minimize);
    }

    pub(crate) fn ask(&mut self, action: Action)
        ensures
            asked(*old(self), action, *final(self)),
    {
        self.actions.push(action);
    }

    pub(crate) fn send(&mut self, command: Command)
        ensures
            sent(*old(self), command, *final(self)),
    {
        self.commands.push(command);
    }

    pub(crate) fn apply_to_prompt(&mut self, action: Action)
        requires
            old(self).screen.prompt is Some,
        ensures
            answered(*old(self), old(self).screen.prompt->0, action, *final(self)),
    {
        if let Some(prompt) = &self.screen.prompt {
            let id = prompt.id;
            let focus = prompt.focus;
            let count = prompt.choices.len();
            match action {
                Action::MoveFocus(direction) => {
                    let focus = step_choice(prompt, direction);
                    self.screen.focus_choice(focus);
                },
                Action::PromptFocus(index) => {
                    self.screen.focus_choice(
                        if index < count {
                            index
                        } else {
                            focus
                        },
                    );
                },
                Action::Activate => self.ask(Action::Answer { prompt: id, choice: Some(focus) }),
                Action::Back => self.ask(Action::Answer { prompt: id, choice: None }),
                Action::Answer { prompt, choice } => {
                    if prompt == id {
                        self.screen.show_next_prompt();
                        self.send(Command::Answer { prompt, choice });
                    }
                },
                Action::Menu => self.raise_window(),
                _ => {},
            }
        }
    }
}

// ---------------------------------------------------------------------------
// While the menu drawer is open
// ---------------------------------------------------------------------------

/// A refresh was asked for, unless one runs or butler is offline.
pub open spec fn refreshed(pre: App, post: App) -> bool {
    if pre.news.online && !pre.news.refreshing {
        &&& post == (App {
            news: News { refreshing: true, ..pre.news },
            commands: post.commands,
            ..pre
        })
        &&& post.commands@ == pre.commands@.push(Command::RefreshLibrary)
    } else {
        post == pre
    }
}

/// What an action does while the menu drawer is open: only the drawer hears it.
pub open spec fn in_menu(pre: App, focus: usize, action: Action, post: App) -> bool {
    let items = pre.menu_list();
    match action {
        Action::MoveFocus(Direction::Up) => shown(
            pre,
            Screen {
                menu: Some(
                    if focus == 0 {
                        0
                    } else {
                        (focus - 1) as usize
                    },
                ),
                ..pre.screen
            },
            post,
        ),
        Action::MoveFocus(Direction::Down) => shown(
            pre,
            Screen {
                menu: Some(
                    if focus < last_index(items.len()) {
                        (focus + 1) as usize
                    } else {
                        last_index(items.len())
                    },
                ),
                ..pre.screen
            },
            post,
        ),
        Action::MenuFocus(index) => shown(
            pre,
            Screen {
                menu: Some(
                    if index < items.len() {
                        index
                    } else {
                        focus
                    },
                ),
                ..pre.screen
            },
            post,
        ),
        // Quit keeps the drawer in place under the overlay; a refresh keeps it to show its
        // progress.
        Action::Activate => if focus < items.len() {
            asked(pre, items[focus as int].action, post)
        } else {
            post == pre
        },
        Action::Back | Action::Menu => shown(pre, Screen { menu: None, ..pre.screen }, post),
        Action::Quit => shown(
            pre,
            Screen { quitting: Some(QUIT_FRAMES), ..pre.screen },
            post,
        ),
        Action::RefreshLibrary => refreshed(pre, post),
        _ => post == pre,
    }
}

impl App {
    pub fn refresh_library(&mut self)
        ensures
            refreshed(*old(self), *final(self)),
    {
        if self.news.online && !self.news.refreshing {
            self.news.refreshing = true;
            self.commands.push(Command::RefreshLibrary);
        }
    }

    pub(crate) fn apply_to_menu(&mut self, focus: usize, action: Action)
        requires
            old(self).screen.menu == Some(focus),
        ensures
            in_menu(*old(self), focus, action, *final(self)),
    {
        let items = self.menu_items();
        match action {
            Action::MoveFocus(Direction::Up) => {
                self.screen.menu = Some(
                    if focus == 0 {
                        0
                    } else {
                        focus - 1
                    },
                );
            },
            Action::MoveFocus(Direction::Down) => {
                let last = items.len() - 1;
                self.screen.menu = Some(
                    if focus < last {
                        focus + 1
                    } else {
                        last
                    },
                );
            },
            Action::MenuFocus(index) => {
                if index < items.len() {
                    self.screen.menu = Some(index);
                }
            },
            Action::Activate => {
                if focus < items.len() {
                    assert(crate::app::toolbar::item_views(items@)[focus as int]
                        == items@[focus as int]@);
                    let picked = items[focus].action.clone();
                    match picked {
                        Action::Quit | Action::RefreshLibrary => {},
                        _ => {
                            self.screen.menu = None;
                        },
                    }
                    self.ask(picked);
                }
            },
            Action::Back | Action::Menu => {
                self.screen.menu = None;
            },
            Action::Quit => {
                self.screen.quitting = Some(QUIT_FRAMES);
            },
            Action::RefreshLibrary => self.refresh_library(),
            _ => {},
        }
    }
}

} // verus!
