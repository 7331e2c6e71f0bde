//! Launching a game: what to launch, what butler asks meanwhile, and what is kept of a
//! failure.
use vstd::prelude::*;
use vstd::string::*;
use crate::backend::questions::{accepted, accepts, ask, asks, either, pick, picks, Question};
use crate::backend::Event;
use crate::model::LaunchFailure;
use crate::muos::{
    content_for, native_blocker, complaint, is_content, Candidate, Content, Firmware, System,
};
use crate::paths::{file_name, file_name_of};
use crate::text::{
    begins, decimal, drop_prefixes, joined, joined3, number_text, same, starts_with, texts,
    without_prefixes,
};

verus! {

// ---------------------------------------------------------------------------
// What to launch
// ---------------------------------------------------------------------------

/// How butler would launch a target.
#[derive(Debug, Clone, Copy, PartialEq, Eq, Structural)]
pub enum LaunchStrategy {
    Unknown,
    Native,
    HTML,
    URL,
    Shell,
    /// By a runtime of ours.
    Runtime,
    Other,
}

#[derive(Debug, PartialEq, Eq)]
pub struct StrategyResult {
    pub strategy: LaunchStrategy,
    pub full_target_path: String,
    pub candidate: Option<Candidate>,
}

/// Something in an install that could be launched.
#[derive(Debug, PartialEq, Eq)]
pub struct LaunchTarget {
    pub strategy: Option<StrategyResult>,
    /// The path of the manifest action, relative to the install folder.
    pub action_path: Option<String>,
}

/// A payload we can run: its path, the name `Launch` matches a target
/// by (the action's path, relative to the install folder), and what it
/// is. A fused LÖVE exe is listed once as a native build and once as
/// the payload inside; the path tells them apart.
#[derive(Debug, PartialEq, Eq)]
pub struct Choice {
    pub path: String,
    pub target: String,
    pub content: Content,
}

/// A choice as the texts it is told by: its path, its target and what it is called.
#[verifier::ext_equal]
pub struct ChoiceView {
    pub path: Seq<char>,
    pub target: Seq<char>,
    pub label: Seq<char>,
}

pub open spec fn label_of(system: Option<System>) -> Seq<char> {
    match system {
        Some(system) => system.label@,
        None => "LÖVE"@,
    }
}

pub open spec fn content_label(content: Content) -> Seq<char> {
    match content {
        Content::Rom { system, .. } => system.label@,
        Content::Love { .. } => "LÖVE"@,
    }
}

impl View for Choice {
    type V = ChoiceView;

    open spec fn view(&self) -> ChoiceView {
        ChoiceView {
            path: self.path@,
            target: self.target@,
            label: content_label(self.content),
        }
    }
}

pub open spec fn choice_views(choices: Seq<Choice>) -> Seq<ChoiceView> {
    choices.map_values(|c: Choice| c@)
}

/// The payload of a target that a runtime of ours is to run.
pub open spec fn payload(target: LaunchTarget) -> Option<(StrategyResult, Candidate)> {
    match target.strategy {
        Some(strategy) => match strategy.candidate {
            Some(candidate) if strategy.strategy == LaunchStrategy::Runtime => Some(
                (strategy, candidate),
            ),
            _ => None,
        },
        None => None,
    }
}

/// What a target is called when it is to be launched.
pub open spec fn target_name(target: LaunchTarget, candidate: Candidate) -> Seq<char> {
    match target.action_path {
        Some(path) => path@,
        None => candidate.path@,
    }
}

pub open spec fn has_path(choices: Seq<ChoiceView>, path: Seq<char>) -> bool {
    exists|i: int| 0 <= i < choices.len() && (#[trigger] choices[i]).path == path
}

/// The payloads that run here, each path once, where it first stands.
pub open spec fn payloads(firmware: Firmware, targets: Seq<LaunchTarget>) -> Seq<ChoiceView>
    decreases targets.len(),
{
    if targets.len() == 0 {
        Seq::empty()
    } else {
        let before = payloads(firmware, targets.drop_last());
        match payload(targets.last()) {
            Some((strategy, candidate)) => match firmware.verdict(candidate) {
                Ok(system) if !has_path(before, strategy.full_target_path@) => before.push(
                    ChoiceView {
                        path: strategy.full_target_path@,
                        target: target_name(targets.last(), candidate),
                        label: label_of(system),
                    },
                ),
                _ => before,
            },
            None => before,
        }
    }
}

/// Why the payloads that do not run here do not.
pub open spec fn refusals(firmware: Firmware, targets: Seq<LaunchTarget>) -> Seq<Seq<char>>
    decreases targets.len(),
{
    if targets.len() == 0 {
        Seq::empty()
    } else {
        let before = refusals(firmware, targets.drop_last());
        match payload(targets.last()) {
            Some((_, candidate)) => match firmware.verdict(candidate) {
                Err(why) => before.push(why),
                Ok(_) => before,
            },
            None => before,
        }
    }
}

pub open spec fn is_native(target: LaunchTarget) -> bool {
    target.strategy matches Some(strategy) && strategy.strategy == LaunchStrategy::Native
}

/// How many of the targets are Linux builds.
pub open spec fn natives(targets: Seq<LaunchTarget>) -> nat
    decreases targets.len(),
{
    if targets.len() == 0 {
        0
    } else {
        natives(targets.drop_last()) + (if is_native(targets.last()) {
            1nat
        } else {
            0
        })
    }
}

/// Why a Linux build cannot reach the screen, where that is known.
pub open spec fn native_refusal(firmware: Firmware, target: LaunchTarget) -> Option<Seq<char>> {
    match target.strategy {
        Some(strategy) if strategy.strategy == LaunchStrategy::Native => match strategy.candidate {
            Some(candidate) => match candidate.linux {
                Some(info) => complaint(info, firmware.glibc),
                None => None,
            },
            None => None,
        },
        _ => None,
    }
}

/// Why those Linux builds that cannot reach the screen cannot.
pub open spec fn native_refusals(firmware: Firmware, targets: Seq<LaunchTarget>) -> Seq<Seq<char>>
    decreases targets.len(),
{
    if targets.len() == 0 {
        Seq::empty()
    } else {
        let before = native_refusals(firmware, targets.drop_last());
        match native_refusal(firmware, targets.last()) {
            Some(why) => before.push(why),
            None => before,
        }
    }
}

/// What the choices are called, for the user to pick from.
pub open spec fn choice_name(choice: ChoiceView) -> Seq<char> {
    (match file_name_of(choice.path) {
        Some(file) => file,
        None => choice.path,
    }) + " ("@ + choice.label + ")"@
}

/// What Play does once butler has said what the install holds.
#[derive(Debug, PartialEq, Eq)]
pub enum Plan {
    /// Let butler launch it. On muOS a payload the firmware runs is named
    /// by path, and comes back to us as a `RuntimeLaunch` request.
    Launch(Option<String>),
    /// Nothing here can be launched.
    Fail(String),
    /// Several payloads: the user picks.
    Pick(Vec<Choice>, Question),
}

/// A plan without payloads: butler picks among the Linux builds; only when none can reach the
/// screen is there nothing for it to do.
pub open spec fn plans_without_payload(
    firmware: Firmware,
    targets: Seq<LaunchTarget>,
    plan: Plan,
) -> bool {
    let blocked = native_refusals(firmware, targets);
    if natives(targets) == 0 {
        if refusals(firmware, targets).len() > 0 {
            plan matches Plan::Fail(why) && why@ == refusals(firmware, targets)[0]
        } else {
            plan matches Plan::Launch(None)
        }
    } else if blocked.len() == natives(targets) {
        plan matches Plan::Fail(why) && why@ == blocked[0]
    } else {
        plan matches Plan::Launch(None)
    }
}

/// Which of the install's contents to launch: a ROM or a
/// `.love` the firmware runs, picked by the user when there are several,
/// or else a Linux build, which butler launches through the SDL shim. A
/// Linux build that cannot reach the screen fails here, with the reason.
/// Elsewhere butler chooses on its own.
pub open spec fn plans(firmware: Firmware, targets: Seq<LaunchTarget>, plan: Plan) -> bool {
    let choices = payloads(firmware, targets);
    if firmware.script is None {
        plan matches Plan::Launch(None)
    } else if choices.len() == 0 {
        plans_without_payload(firmware, targets, plan)
    } else if choices.len() == 1 {
        plan matches Plan::Launch(Some(target)) && target@ == choices[0].target
    } else {
        &&& plan matches Plan::Pick(list, question)
        &&& choice_views(list@) == choices
        &&& question@ == picks(
            "What do you want to launch?"@,
            ""@,
            choices.map_values(|c: ChoiceView| choice_name(c)),
        )
    }
}

fn lists_path(choices: &Vec<Choice>, path: &str) -> (r: bool)
    ensures
        r == has_path(choice_views(choices@), path@),
{
    let ghost views = choice_views(choices@);
    let mut i: usize = 0;
    while i < choices.len()
        invariant
            i <= choices@.len(),
            views == choice_views(choices@),
            forall|k: int| 0 <= k < i ==> (#[trigger] views[k]).path != path@,
        decreases choices@.len() - i,
    {
        assert(views[i as int] == choices@[i as int]@);
        if same(choices[i].path.as_str(), path) {
            assert(views[i as int].path == path@);
            return true;
        }
        i += 1;
    }
    false
}

/// The payloads that run here, and why the others do not.
fn sort_payloads(firmware: &Firmware, targets: &Vec<LaunchTarget>) -> (r: (Vec<Choice>, Vec<String>))
    ensures
        choice_views(r.0@) == payloads(*firmware, targets@),
        texts(r.1@) == refusals(*firmware, targets@),
{
    let mut choices: Vec<Choice> = Vec::new();
    let mut refused: Vec<String> = Vec::new();
    let mut i: usize = 0;
    assert(targets@.take(0) =~= Seq::empty());
    assert(choice_views(choices@) =~= payloads(*firmware, targets@.take(0)));
    assert(texts(refused@) =~= refusals(*firmware, targets@.take(0)));
    while i < targets.len()
        invariant
            i <= targets@.len(),
            choice_views(choices@) == payloads(*firmware, targets@.take(i as int)),
            texts(refused@) == refusals(*firmware, targets@.take(i as int)),
        decreases targets@.len() - i,
    {
        assert(targets@.take(i + 1).drop_last() =~= targets@.take(i as int));
        let ghost before = choice_views(choices@);
        let ghost words = texts(refused@);
        let target = &targets[i];
        if let Some(strategy) = &target.strategy {
            if strategy.strategy == LaunchStrategy::Runtime {
                if let Some(candidate) = &strategy.candidate {
                    match content_for(firmware, candidate, strategy.full_target_path.clone()) {
                        Ok(content) => {
                            if !lists_path(&choices, strategy.full_target_path.as_str()) {
                                let choice = Choice {
                                    path: strategy.full_target_path.clone(),
                                    target: match &target.action_path {
                                        Some(path) => path.clone(),
                                        None => candidate.path.clone(),
                                    },
                                    content,
                                };
                                let ghost view = choice@;
                                choices.push(choice);
                                assert(choice_views(choices@) =~= before.push(view));
                            }
                        },
                        Err(why) => {
                            let ghost view = why@;
                            refused.push(why);
                            assert(texts(refused@) =~= words.push(view));
                        },
                    }
                }
            }
        }
        i += 1;
    }
    assert(targets@.take(i as int) =~= targets@);
    (choices, refused)
}

fn sort_natives(firmware: &Firmware, targets: &Vec<LaunchTarget>) -> (r: (usize, Vec<String>))
    ensures
        r.0 == natives(targets@),
        texts(r.1@) == native_refusals(*firmware, targets@),
{
    let mut count: usize = 0;
    let mut refused: Vec<String> = Vec::new();
    let mut i: usize = 0;
    let n = targets.len();
    assert(targets@.take(0) =~= Seq::empty());
    assert(texts(refused@) =~= native_refusals(*firmware, targets@.take(0)));
    while i < n
        invariant
            n == targets@.len(),
            i <= n,
            count <= i,
            count == natives(targets@.take(i as int)),
            texts(refused@) == native_refusals(*firmware, targets@.take(i as int)),
        decreases n - i,
    {
        assert(targets@.take(i + 1).drop_last() =~= targets@.take(i as int));
        let ghost words = texts(refused@);
        if let Some(strategy) = &targets[i].strategy {
            if strategy.strategy == LaunchStrategy::Native {
                count += 1;
                if let Some(candidate) = &strategy.candidate {
                    if let Some(info) = &candidate.linux {
                        if let Some(why) = native_blocker(firmware, info) {
                            let ghost view = why@;
                            refused.push(why);
                            assert(texts(refused@) =~= words.push(view));
                        }
                    }
                }
            }
        }
        i += 1;
    }
    assert(targets@.take(i as int) =~= targets@);
    (count, refused)
}

fn plan_without_payload(
    firmware: &Firmware,
    targets: &Vec<LaunchTarget>,
    refused: Vec<String>,
) -> (r: Plan)
    requires
        texts(refused@) == refusals(*firmware, targets@),
    ensures
        plans_without_payload(*firmware, targets@, r),
{
    let (count, blocked) = sort_natives(firmware, targets);
    assert(texts(refused@).len() == refused@.len());
    assert(texts(blocked@).len() == blocked@.len());
    if count == 0 {
        if refused.len() > 0 {
            assert(texts(refused@)[0] == refused@[0]@);
            return Plan::Fail(refused[0].clone());
        }
        return Plan::Launch(None);
    }
    if blocked.len() == count {
        assert(texts(blocked@)[0] == blocked@[0]@);
        return Plan::Fail(blocked[0].clone());
    }
    Plan::Launch(None)
}

fn launch_question(choices: &Vec<Choice>) -> (r: Question)
    ensures
        r@ == picks(
            "What do you want to launch?"@,
            ""@,
            choice_views(choices@).map_values(|c: ChoiceView| choice_name(c)),
        ),
{
    let ghost all = choice_views(choices@).map_values(|c: ChoiceView| choice_name(c));
    let mut names: Vec<String> = Vec::new();
    let mut i: usize = 0;
    assert(texts(names@) =~= all.take(0));
    while i < choices.len()
        invariant
            i <= choices@.len(),
            all == choice_views(choices@).map_values(|c: ChoiceView| choice_name(c)),
            texts(names@) == all.take(i as int),
        decreases choices@.len() - i,
    {
        let ghost before = texts(names@);
        let choice = &choices[i];
        let file = match file_name(choice.path.as_str()) {
            Some(file) => file,
            None => choice.path.clone(),
        };
        let mut name = joined3(file.as_str(), " (", choice.content.label());
        name.append(")");
        let ghost view = name@;
        assert(choice_views(choices@)[i as int] == choice@);
        assert(view == all[i as int]);
        names.push(name);
        assert(texts(names@) =~= before.push(view));
        i += 1;
        assert(texts(names@) =~= all.take(i as int));
    }
    assert(all.take(i as int) =~= all);
    pick("What do you want to launch?", "".to_owned(), names)
}

/// What to launch of an install.
pub fn plan_launch(firmware: &Firmware, targets: &Vec<LaunchTarget>) -> (r: Plan)
    ensures
        plans(*firmware, targets@, r),
{
    if firmware.script.is_none() {
        return Plan::Launch(None);
    }
    let (choices, refused) = sort_payloads(firmware, targets);
    assert(choice_views(choices@).len() == choices@.len());
    if choices.len() == 0 {
        return plan_without_payload(firmware, targets, refused);
    }
    if choices.len() == 1 {
        assert(choice_views(choices@)[0] == choices@[0]@);
        return Plan::Launch(Some(choices[0].target.clone()));
    }
    let question = launch_question(&choices);
    Plan::Pick(choices, question)
}

/// The target that the user picked.
pub fn picked_target(choices: &Vec<Choice>, index: usize) -> (r: String)
    requires
        index < choices@.len(),
    ensures
        r@ == choice_views(choices@)[index as int].target,
{
    choices[index].target.clone()
}

/// A payload that runs here is launched, or the user is asked which: a Linux build of the same
/// install never takes its place, and nothing that cannot run here is among what is offered.
pub proof fn payloads_come_first(firmware: Firmware, targets: Seq<LaunchTarget>, plan: Plan)
    requires
        firmware.script is Some,
        payloads(firmware, targets).len() > 0,
        plans(firmware, targets, plan),
    ensures
        !(plan is Fail),
        plan matches Plan::Launch(target) ==> target is Some,
{
}

proof fn lemma_payload_paths(firmware: Firmware, targets: Seq<LaunchTarget>)
    ensures
        forall|i: int, j: int|
            0 <= i < payloads(firmware, targets).len() && 0 <= j < payloads(firmware, targets).len()
                && i != j ==> (#[trigger] payloads(firmware, targets)[i]).path != (
            #[trigger] payloads(firmware, targets)[j]).path,
    decreases targets.len(),
{
    if targets.len() > 0 {
        let before = payloads(firmware, targets.drop_last());
        let all = payloads(firmware, targets);
        lemma_payload_paths(firmware, targets.drop_last());
        assert forall|i: int, j: int|
            0 <= i < all.len() && 0 <= j < all.len() && i != j implies (#[trigger] all[i]).path
            != (#[trigger] all[j]).path by {
            if i < before.len() && j < before.len() {
                assert(all[i] == before[i] && all[j] == before[j]);
            } else if i < before.len() {
                assert(all[i] == before[i]);
                assert(before[i].path == all[i].path);
            } else if j < before.len() {
                assert(all[j] == before[j]);
                assert(before[j].path == all[j].path);
            }
        }
    }
}

/// No file is offered twice.
pub proof fn no_file_is_offered_twice(firmware: Firmware, targets: Seq<LaunchTarget>, i: int, j: int)
    requires
        0 <= i < j < payloads(firmware, targets).len(),
    ensures
        payloads(firmware, targets)[i].path != payloads(firmware, targets)[j].path,
{
    lemma_payload_paths(firmware, targets);
}

/// A target that holds a payload which runs here.
pub open spec fn can_run(firmware: Firmware, target: LaunchTarget) -> bool {
    &&& target.strategy matches Some(strategy)
    &&& strategy.strategy == LaunchStrategy::Runtime
    &&& strategy.candidate matches Some(candidate)
    &&& firmware.verdict(candidate) is Ok
}

/// A target that holds a payload which does not run here, for that reason.
pub open spec fn cannot_run(firmware: Firmware, target: LaunchTarget, why: Seq<char>) -> bool {
    &&& target.strategy matches Some(strategy)
    &&& strategy.strategy == LaunchStrategy::Runtime
    &&& strategy.candidate matches Some(candidate)
    &&& firmware.verdict(candidate) == Err::<Option<System>, Seq<char>>(why)
}

/// A Linux build that nothing is known to block.
pub open spec fn is_free(firmware: Firmware, target: LaunchTarget) -> bool {
    &&& target.strategy matches Some(strategy)
    &&& strategy.strategy == LaunchStrategy::Native
    &&& strategy.candidate matches Some(candidate) ==> (candidate.linux matches Some(info)
        ==> complaint(info, firmware.glibc) is None)
}

/// A Linux build that cannot reach the screen, for that reason.
pub open spec fn is_blocked(firmware: Firmware, target: LaunchTarget, why: Seq<char>) -> bool {
    &&& target.strategy matches Some(strategy)
    &&& strategy.strategy == LaunchStrategy::Native
    &&& strategy.candidate matches Some(candidate)
    &&& candidate.linux matches Some(info)
    &&& complaint(info, firmware.glibc) == Some(why)
}

proof fn lemma_payloads_are_what_runs(firmware: Firmware, targets: Seq<LaunchTarget>)
    ensures
        forall|i: int|
            0 <= i < targets.len() && can_run(firmware, #[trigger] targets[i]) ==> has_path(
                payloads(firmware, targets),
                targets[i].strategy->0.full_target_path@,
            ),
        forall|k: int|
            0 <= k < payloads(firmware, targets).len() ==> offers_some(
                firmware,
                targets,
                #[trigger] payloads(firmware, targets)[k],
            ),
    decreases targets.len(),
{
    if targets.len() > 0 {
        let rest = targets.drop_last();
        lemma_payloads_are_what_runs(firmware, rest);
        let before = payloads(firmware, rest);
        let all = payloads(firmware, targets);
        assert(all.len() >= before.len());
        assert forall|i: int|
            0 <= i < targets.len() && can_run(firmware, #[trigger] targets[i]) implies has_path(
            all,
            targets[i].strategy->0.full_target_path@,
        ) by {
            let path = targets[i].strategy->0.full_target_path@;
            if i < rest.len() {
                assert(rest[i] == targets[i]);
                assert(has_path(before, path));
            }
            if has_path(before, path) {
                let k = choose|k: int| 0 <= k < before.len() && (#[trigger] before[k]).path == path;
                assert(all[k] == before[k]);
                assert(all[k].path == path);
            } else {
                assert(all[all.len() - 1].path == path);
            }
        }
        assert forall|k: int| 0 <= k < all.len() implies offers_some(
            firmware,
            targets,
            #[trigger] all[k],
        ) by {
            if k < before.len() {
                assert(all[k] == before[k]);
                assert(offers_some(firmware, rest, before[k]));
                let i = choose|i: int|
                    0 <= i < rest.len() && can_run(firmware, #[trigger] rest[i]) && offers_target(
                        before[k],
                        rest[i],
                    );
                assert(targets[i] == rest[i]);
            } else {
                assert(targets[targets.len() - 1] == targets.last());
                assert(offers_target(all[k], targets[targets.len() - 1]));
            }
        }
    }
}

/// A choice that stands for a target: the target's file, under the name that butler knows it by.
pub open spec fn offers_target(choice: ChoiceView, target: LaunchTarget) -> bool {
    &&& target.strategy matches Some(strategy)
    &&& choice.path == strategy.full_target_path@
    &&& target.action_path matches Some(path) ==> choice.target == path@
    &&& target.action_path is None ==> (strategy.candidate matches Some(candidate)
        && choice.target == candidate.path@)
}

/// A choice that stands for one of the targets, one that runs here.
pub open spec fn offers_some(
    firmware: Firmware,
    targets: Seq<LaunchTarget>,
    choice: ChoiceView,
) -> bool {
    exists|i: int|
        0 <= i < targets.len() && can_run(firmware, #[trigger] targets[i]) && offers_target(
            choice,
            targets[i],
        )
}

proof fn lemma_builds(firmware: Firmware, targets: Seq<LaunchTarget>)
    ensures
        native_refusals(firmware, targets).len() <= natives(targets),
        (exists|i: int| 0 <= i < targets.len() && is_free(firmware, #[trigger] targets[i])) ==> natives(
            targets,
        ) > native_refusals(firmware, targets).len(),
        natives(targets) > native_refusals(firmware, targets).len() ==> exists|i: int|
            0 <= i < targets.len() && is_free(firmware, #[trigger] targets[i]),
        native_refusals(firmware, targets).len() > 0 ==> exists|i: int|
            {
                &&& 0 <= i < targets.len()
                &&& is_blocked(
                    firmware,
                    #[trigger] targets[i],
                    native_refusals(firmware, targets)[0],
                )
                &&& forall|j: int, why: Seq<char>|
                    0 <= j < i ==> !#[trigger] is_blocked(firmware, targets[j], why)
            },
        (exists|i: int, why: Seq<char>| 0 <= i < targets.len() && #[trigger] is_blocked(
            firmware,
            targets[i],
            why,
        )) ==> native_refusals(firmware, targets).len() > 0,
    decreases targets.len(),
{
    if targets.len() > 0 {
        let rest = targets.drop_last();
        let last = targets.len() - 1;
        lemma_builds(firmware, rest);
        assert(targets[last] == targets.last());
        assert forall|i: int| 0 <= i < last implies #[trigger] targets[i] == rest[i] by {}
        let before = native_refusals(firmware, rest);
        let all = native_refusals(firmware, targets);
        if exists|i: int| 0 <= i < targets.len() && is_free(firmware, #[trigger] targets[i]) {
            let i = choose|i: int| 0 <= i < targets.len() && is_free(firmware, #[trigger] targets[i]);
            if i < last {
                assert(is_free(firmware, rest[i]));
            }
        }
        if natives(targets) > all.len() {
            if natives(rest) > before.len() {
                let i = choose|i: int| 0 <= i < rest.len() && is_free(firmware, #[trigger] rest[i]);
                assert(is_free(firmware, targets[i]));
            } else {
                assert(is_free(firmware, targets[last]));
            }
        }
        if all.len() > 0 {
            if before.len() > 0 {
                assert(all[0] == before[0]);
                let i = choose|i: int|
                    {
                        &&& 0 <= i < rest.len()
                        &&& is_blocked(firmware, #[trigger] rest[i], before[0])
                        &&& forall|j: int, why: Seq<char>|
                            0 <= j < i ==> !#[trigger] is_blocked(firmware, rest[j], why)
                    };
                assert(targets[i] == rest[i]);
                assert forall|j: int, why: Seq<char>| 0 <= j < i implies !(#[trigger] is_blocked(
                    firmware,
                    targets[j],
                    why,
                )) by {
                    assert(targets[j] == rest[j]);
                }
            } else {
                assert(is_blocked(firmware, targets[last], all[0]));
                assert forall|j: int, why: Seq<char>| 0 <= j < last implies !(#[trigger] is_blocked(
                    firmware,
                    targets[j],
                    why,
                )) by {
                    assert(targets[j] == rest[j]);
                }
            }
        }
        if exists|i: int, why: Seq<char>| 0 <= i < targets.len() && #[trigger] is_blocked(
            firmware,
            targets[i],
            why,
        ) {
            let (i, why) = choose|i: int, why: Seq<char>| 0 <= i < targets.len() && #[trigger] is_blocked(
                firmware,
                targets[i],
                why,
            );
            if i < last {
                assert(is_blocked(firmware, rest[i], why));
            }
        }
    }
}

proof fn lemma_refusals(firmware: Firmware, targets: Seq<LaunchTarget>)
    ensures
        refusals(firmware, targets).len() > 0 ==> exists|i: int|
            {
                &&& 0 <= i < targets.len()
                &&& cannot_run(firmware, #[trigger] targets[i], refusals(firmware, targets)[0])
                &&& forall|j: int, why: Seq<char>|
                    0 <= j < i ==> !#[trigger] cannot_run(firmware, targets[j], why)
            },
        (exists|i: int, why: Seq<char>| 0 <= i < targets.len() && #[trigger] cannot_run(
            firmware,
            targets[i],
            why,
        )) ==> refusals(firmware, targets).len() > 0,
    decreases targets.len(),
{
    if targets.len() > 0 {
        let rest = targets.drop_last();
        let last = targets.len() - 1;
        lemma_refusals(firmware, rest);
        assert(targets[last] == targets.last());
        let before = refusals(firmware, rest);
        let all = refusals(firmware, targets);
        if all.len() > 0 {
            if before.len() > 0 {
                assert(all[0] == before[0]);
                let i = choose|i: int|
                    {
                        &&& 0 <= i < rest.len()
                        &&& cannot_run(firmware, #[trigger] rest[i], before[0])
                        &&& forall|j: int, why: Seq<char>|
                            0 <= j < i ==> !#[trigger] cannot_run(firmware, rest[j], why)
                    };
                assert(targets[i] == rest[i]);
                assert forall|j: int, why: Seq<char>| 0 <= j < i implies !(#[trigger] cannot_run(
                    firmware,
                    targets[j],
                    why,
                )) by {
                    assert(targets[j] == rest[j]);
                }
            } else {
                assert(cannot_run(firmware, targets[last], all[0]));
                assert forall|j: int, why: Seq<char>| 0 <= j < last implies !(#[trigger] cannot_run(
                    firmware,
                    targets[j],
                    why,
                )) by {
                    assert(targets[j] == rest[j]);
                }
            }
        }
        if exists|i: int, why: Seq<char>| 0 <= i < targets.len() && #[trigger] cannot_run(
            firmware,
            targets[i],
            why,
        ) {
            let (i, why) = choose|i: int, why: Seq<char>| 0 <= i < targets.len() && #[trigger] cannot_run(
                firmware,
                targets[i],
                why,
            );
            if i < last {
                assert(cannot_run(firmware, rest[i], why));
            }
        }
    }
}

/// Away from a handheld butler chooses on its own, whatever the install holds.
pub proof fn elsewhere_butler_chooses(firmware: Firmware, targets: Seq<LaunchTarget>, plan: Plan)
    requires
        firmware.script is None,
        plans(firmware, targets, plan),
    ensures
        plan == Plan::Launch(None),
{
}

/// On a handheld, where the install holds no payload that runs here and a Linux build that
/// nothing blocks, butler launches it.
pub proof fn free_builds_are_launched(
    firmware: Firmware,
    targets: Seq<LaunchTarget>,
    i: int,
    plan: Plan,
)
    requires
        firmware.script is Some,
        forall|k: int| 0 <= k < targets.len() ==> !can_run(firmware, #[trigger] targets[k]),
        0 <= i < targets.len(),
        is_free(firmware, targets[i]),
        plans(firmware, targets, plan),
    ensures
        plan == Plan::Launch(None),
{
    lemma_payloads_are_what_runs(firmware, targets);
    lemma_builds(firmware, targets);
    let choices = payloads(firmware, targets);
    if choices.len() > 0 {
        assert(offers_some(firmware, targets, choices[0]));
        let k = choose|k: int|
            0 <= k < targets.len() && can_run(firmware, #[trigger] targets[k]) && offers_target(
                choices[0],
                targets[k],
            );
        assert(false);
    }
}

/// A plan fails only where nothing that the install holds runs here: no payload does, and
/// either there are Linux builds and each of them is blocked, or there is none and a payload
/// was refused. The reason told is that of the first one.
pub proof fn plans_fail_only_where_nothing_runs(
    firmware: Firmware,
    targets: Seq<LaunchTarget>,
    plan: Plan,
)
    requires
        plans(firmware, targets, plan),
        plan is Fail,
    ensures
        firmware.script is Some,
        forall|k: int| 0 <= k < targets.len() ==> !can_run(firmware, #[trigger] targets[k]),
        forall|k: int| 0 <= k < targets.len() ==> !is_free(firmware, #[trigger] targets[k]),
        (exists|i: int|
            {
                &&& 0 <= i < targets.len()
                &&& is_blocked(firmware, #[trigger] targets[i], plan->Fail_0@)
                &&& forall|j: int, why: Seq<char>|
                    0 <= j < i ==> !#[trigger] is_blocked(firmware, targets[j], why)
            }) || ((exists|i: int|
            {
                &&& 0 <= i < targets.len()
                &&& cannot_run(firmware, #[trigger] targets[i], plan->Fail_0@)
                &&& forall|j: int, why: Seq<char>|
                    0 <= j < i ==> !#[trigger] cannot_run(firmware, targets[j], why)
            }) && forall|j: int, why: Seq<char>|
            0 <= j < targets.len() ==> !#[trigger] is_blocked(firmware, targets[j], why)),
{
    lemma_payloads_are_what_runs(firmware, targets);
    lemma_builds(firmware, targets);
    lemma_refusals(firmware, targets);
    let choices = payloads(firmware, targets);
    assert(choices.len() == 0);
    assert forall|k: int| 0 <= k < targets.len() implies !can_run(firmware, #[trigger] targets[k]) by {
        if can_run(firmware, targets[k]) {
            assert(has_path(choices, targets[k].strategy->0.full_target_path@));
        }
    }
}

/// Where nothing that the install holds runs here and something was blocked or refused, the
/// plan says so rather than let butler try.
pub proof fn plans_fail_where_nothing_runs(
    firmware: Firmware,
    targets: Seq<LaunchTarget>,
    i: int,
    why: Seq<char>,
    plan: Plan,
)
    requires
        firmware.script is Some,
        forall|k: int| 0 <= k < targets.len() ==> !can_run(firmware, #[trigger] targets[k]),
        forall|k: int| 0 <= k < targets.len() ==> !is_free(firmware, #[trigger] targets[k]),
        0 <= i < targets.len(),
        is_blocked(firmware, targets[i], why) || cannot_run(firmware, targets[i], why),
        plans(firmware, targets, plan),
    ensures
        plan is Fail,
{
    lemma_payloads_are_what_runs(firmware, targets);
    lemma_builds(firmware, targets);
    lemma_refusals(firmware, targets);
    let choices = payloads(firmware, targets);
    if choices.len() > 0 {
        assert(offers_some(firmware, targets, choices[0]));
        let k = choose|k: int|
            0 <= k < targets.len() && can_run(firmware, #[trigger] targets[k]) && offers_target(
                choices[0],
                targets[k],
            );
        assert(false);
    }
}

/// A single payload that runs here is launched without a question, under its own name.
pub proof fn a_single_payload_is_launched(
    firmware: Firmware,
    targets: Seq<LaunchTarget>,
    i: int,
    plan: Plan,
)
    requires
        firmware.script is Some,
        0 <= i < targets.len(),
        can_run(firmware, targets[i]),
        forall|k: int|
            0 <= k < targets.len() && k != i ==> !can_run(firmware, #[trigger] targets[k]),
        plans(firmware, targets, plan),
    ensures
        plan matches Plan::Launch(Some(name)) && (match targets[i].action_path {
            Some(path) => name@ == path@,
            None => name@ == targets[i].strategy->0.candidate->0.path@,
        }),
{
    lemma_payloads_are_what_runs(firmware, targets);
    let choices = payloads(firmware, targets);
    assert(has_path(choices, targets[i].strategy->0.full_target_path@));
    assert(choices.len() > 0);
    assert forall|k: int| 0 <= k < choices.len() implies offers_target(
        #[trigger] choices[k],
        targets[i],
    ) by {
        assert(offers_some(firmware, targets, choices[k]));
        let j = choose|j: int|
            0 <= j < targets.len() && can_run(firmware, #[trigger] targets[j]) && offers_target(
                choices[k],
                targets[j],
            );
        assert(j == i);
    }
    if choices.len() > 1 {
        assert(offers_target(choices[0], targets[i]) && offers_target(choices[1], targets[i]));
        no_file_is_offered_twice(firmware, targets, 0, 1);
    }
    assert(offers_target(choices[0], targets[i]));
}

/// One of the choices is for a file.
pub open spec fn offers_file(list: Seq<Choice>, path: Seq<char>) -> bool {
    exists|c: int| 0 <= c < list.len() && (#[trigger] list[c]).path@ == path
}

/// Where payloads of two files run here the user picks, from all of those and nothing else,
/// each under its file.
pub proof fn several_payloads_are_picked_from(
    firmware: Firmware,
    targets: Seq<LaunchTarget>,
    i: int,
    j: int,
    plan: Plan,
)
    requires
        firmware.script is Some,
        0 <= i < targets.len(),
        0 <= j < targets.len(),
        can_run(firmware, targets[i]),
        can_run(firmware, targets[j]),
        targets[i].strategy->0.full_target_path@ != targets[j].strategy->0.full_target_path@,
        plans(firmware, targets, plan),
    ensures
        plan is Pick,
        plan matches Plan::Pick(list, question) ==> {
            &&& question.choices@.len() == list@.len()
            &&& forall|k: int|
                0 <= k < targets.len() && can_run(firmware, #[trigger] targets[k]) ==> offers_file(
                    list@,
                    targets[k].strategy->0.full_target_path@,
                )
            &&& forall|c: int|
                0 <= c < list@.len() ==> offers_some(firmware, targets, (#[trigger] list@[c])@)
        },
{
    lemma_payloads_are_what_runs(firmware, targets);
    let choices = payloads(firmware, targets);
    let one = targets[i].strategy->0.full_target_path@;
    let other = targets[j].strategy->0.full_target_path@;
    assert(has_path(choices, one) && has_path(choices, other));
    let a = choose|a: int| 0 <= a < choices.len() && (#[trigger] choices[a]).path == one;
    let b = choose|b: int| 0 <= b < choices.len() && (#[trigger] choices[b]).path == other;
    assert(choices.len() > 1);
    if let Plan::Pick(list, question) = plan {
        assert(choice_views(list@) == choices);
        assert(question@.choices.len() == choices.len());
        assert(question@.choices == crate::text::texts(question.choices@));
        assert(choices.len() == list@.len());
        assert forall|k: int|
            0 <= k < targets.len() && can_run(firmware, #[trigger] targets[k]) implies offers_file(
            list@,
            targets[k].strategy->0.full_target_path@,
        ) by {
            let path = targets[k].strategy->0.full_target_path@;
            assert(has_path(choices, path));
            let c = choose|c: int| 0 <= c < choices.len() && (#[trigger] choices[c]).path == path;
            assert(choices[c] == list@[c]@);
            assert(list@[c].path@ == path);
        }
        assert forall|c: int| 0 <= c < list@.len() implies offers_some(
            firmware,
            targets,
            (#[trigger] list@[c])@,
        ) by {
            assert(choices[c] == list@[c]@);
        }
    }
}

// ---------------------------------------------------------------------------
// What is kept of a failure
// ---------------------------------------------------------------------------

/// How many of the game's last lines to keep for a failed launch.
pub const LAUNCH_LOG_TAIL: usize = 40;

/// The last lines that butler logged at error level, which is where the game's stderr ends up.
#[derive(Debug)]
pub struct LogTail {
    pub lines: Vec<String>,
}

/// The last so many of a list.
pub open spec fn tail(all: Seq<Seq<char>>, count: int) -> Seq<Seq<char>> {
    if all.len() <= count {
        all
    } else {
        all.skip(all.len() - count)
    }
}

/// A line of butler's own, not of the game's.
pub open spec fn is_relay(line: Seq<char>) -> bool {
    starts_with(line, "Relaying launch failure"@) || starts_with(line, "Had error"@)
}

/// The lines that are the game's.
pub open spec fn game_lines(all: Seq<Seq<char>>) -> Seq<Seq<char>>
    decreases all.len(),
{
    if all.len() == 0 {
        Seq::empty()
    } else {
        let before = game_lines(all.drop_last());
        if is_relay(all.last()) {
            before
        } else {
            before.push(all.last())
        }
    }
}

impl LogTail {
    pub fn new() -> (r: Self)
        ensures
            r.lines@.len() == 0,
    {
        LogTail { lines: Vec::new() }
    }

    /// Takes another line; the oldest goes where there are too many.
    pub fn push(&mut self, line: String)
        requires
            old(self).lines@.len() <= LAUNCH_LOG_TAIL,
        ensures
            final(self).lines@.len() <= LAUNCH_LOG_TAIL,
            texts(final(self).lines@) == tail(
                texts(old(self).lines@).push(line@),
                LAUNCH_LOG_TAIL as int,
            ),
    {
        let ghost before = texts(self.lines@);
        let ghost words = line@;
        if self.lines.len() == LAUNCH_LOG_TAIL {
            self.lines.remove(0);
            assert(texts(self.lines@) =~= before.skip(1));
        }
        let ghost kept = texts(self.lines@);
        self.lines.push(line);
        assert(texts(self.lines@) =~= kept.push(words));
        assert(texts(self.lines@) =~= tail(before.push(words), LAUNCH_LOG_TAIL as int));
    }

    /// What is shown of a launch that failed. Our own reply to a request of butler's comes
    /// back wrapped as a remote error; the words are ours already.
    pub fn failure(&self, cause: &str) -> (r: LaunchFailure)
        ensures
            r.message@ == without_prefixes(cause@, "json-rpc2: error 500: "@),
            texts(r.log@) == game_lines(texts(self.lines@)),
    {
        let ghost all = texts(self.lines@);
        let mut log: Vec<String> = Vec::new();
        let mut i: usize = 0;
        assert(all.take(0) =~= Seq::empty());
        assert(texts(log@) =~= game_lines(all.take(0)));
        while i < self.lines.len()
            invariant
                i <= self.lines@.len(),
                all == texts(self.lines@),
                texts(log@) == game_lines(all.take(i as int)),
            decreases self.lines@.len() - i,
        {
            assert(all.take(i + 1).drop_last() =~= all.take(i as int));
            assert(all[i as int] == self.lines@[i as int]@);
            let ghost before = texts(log@);
            let line = &self.lines[i];
            if !begins(line.as_str(), "Relaying launch failure") && !begins(
                line.as_str(),
                "Had error",
            ) {
                log.push(line.clone());
                assert(texts(log@) =~= before.push(line@));
            }
            i += 1;
        }
        assert(all.take(i as int) =~= all);
        LaunchFailure { message: drop_prefixes(cause, "json-rpc2: error 500: "), log }
    }
}

/// Taking lines one by one keeps the last of all that came, however many.
pub proof fn tails_keep_the_last_lines(all: Seq<Seq<char>>, line: Seq<char>, count: int)
    requires
        count > 0,
    ensures
        tail(tail(all, count).push(line), count) == tail(all.push(line), count),
{
    assert(tail(tail(all, count).push(line), count) =~= tail(all.push(line), count));
}

/// What a launch ended as: one that the user quit is no failure.
pub open spec fn ended_as(result: Result<(), LaunchFailure>, quit: bool) -> Result<(), LaunchFailure> {
    if quit {
        Ok(())
    } else {
        result
    }
}

/// What became of a launch: ending the connection is how the user quits; the call's failure is
/// then the expected outcome.
pub fn launch_result(result: Result<(), LaunchFailure>, quit: bool) -> (r: Result<(), LaunchFailure>)
    ensures
        r == ended_as(result, quit),
{
    if quit {
        Ok(())
    } else {
        result
    }
}

// ---------------------------------------------------------------------------
// What butler says during a launch
// ---------------------------------------------------------------------------

/// How far a prerequisite is.
#[derive(Debug, Clone, Copy, PartialEq, Eq, Structural)]
pub enum PrereqStatus {
    Pending,
    Downloading,
    Ready,
    Installing,
    Done,
    Unknown,
}

pub open spec fn status_word(status: PrereqStatus) -> Seq<char> {
    match status {
        PrereqStatus::Pending => "Pending"@,
        PrereqStatus::Downloading => "Downloading"@,
        PrereqStatus::Ready => "Ready"@,
        PrereqStatus::Installing => "Installing"@,
        PrereqStatus::Done => "Done"@,
        PrereqStatus::Unknown => "Unknown"@,
    }
}

fn word_of_status(status: PrereqStatus) -> (r: &'static str)
    ensures
        r@ == status_word(status),
{
    match status {
        PrereqStatus::Pending => "Pending",
        PrereqStatus::Downloading => "Downloading",
        PrereqStatus::Ready => "Ready",
        PrereqStatus::Installing => "Installing",
        PrereqStatus::Done => "Done",
        PrereqStatus::Unknown => "Unknown",
    }
}

/// How bad a line of butler's log is.
#[derive(Debug, Clone, Copy, PartialEq, Eq, Structural)]
pub enum LogLevel {
    Debug,
    Info,
    Warning,
    Error,
    Unknown,
}

/// What butler says during a launch.
#[derive(Debug, PartialEq, Eq)]
pub enum LaunchNote {
    Running { cave_id: String },
    Exited,
    /// So many prerequisites are being installed.
    PrereqsStarted(usize),
    /// How far one of them is, in percent as it is printed.
    PrereqsTask { name: String, status: PrereqStatus, percent: String },
    Log { level: LogLevel, line: String },
    Other,
}

/// What is done about it.
#[derive(Debug, PartialEq, Eq)]
pub enum LaunchWork {
    Tell(Event),
    /// Tell the interface this as the latest progress line.
    Status(String),
    /// Keep this line for a failure.
    Keep(String),
    Nothing,
}

/// What is done about what butler says during a launch: the interface hears when the game runs
/// and how its prerequisites come along, and a line at error level is kept, which is where the
/// game's own words end up.
pub open spec fn news_of(note: LaunchNote, work: LaunchWork) -> bool {
    match note {
        LaunchNote::Running { cave_id } => work == LaunchWork::Tell(
            Event::LaunchRunning { cave_id },
        ),
        LaunchNote::PrereqsStarted(count) => work matches LaunchWork::Status(words) && words@
            == "Installing "@ + decimal(count as nat) + " prerequisites"@,
        LaunchNote::PrereqsTask { name, status, percent } => work matches LaunchWork::Status(words)
            && words@ == name@ + ": "@ + status_word(status) + (" "@ + percent@ + "%"@),
        LaunchNote::Log { level, line } => if level == LogLevel::Error {
            work == LaunchWork::Keep(line)
        } else {
            work is Nothing
        },
        LaunchNote::Exited | LaunchNote::Other => work is Nothing,
    }
}

pub fn launch_news(note: LaunchNote) -> (r: LaunchWork)
    ensures
        news_of(note, r),
{
    match note {
        LaunchNote::Running { cave_id } => LaunchWork::Tell(Event::LaunchRunning { cave_id }),
        LaunchNote::PrereqsStarted(count) => LaunchWork::Status(
            joined3("Installing ", number_text(count as u64).as_str(), " prerequisites"),
        ),
        LaunchNote::PrereqsTask { name, status, percent } => {
            let head = joined3(name.as_str(), ": ", word_of_status(status));
            let tail = joined3(" ", percent.as_str(), "%");
            LaunchWork::Status(joined(head.as_str(), tail.as_str()))
        },
        LaunchNote::Log { level, line } => if level == LogLevel::Error {
            LaunchWork::Keep(line)
        } else {
            LaunchWork::Nothing
        },
        LaunchNote::Exited | LaunchNote::Other => LaunchWork::Nothing,
    }
}

// ---------------------------------------------------------------------------
// What butler asks during a launch
// ---------------------------------------------------------------------------

/// What butler needs before a launch can go on.
#[derive(Debug, PartialEq, Eq)]
pub enum LaunchRequest {
    /// Run a payload.
    Runtime {
        candidate: Option<Candidate>,
        path: String,
    },
    /// Pick one of these actions.
    PickAction(Vec<String>),
    /// Accept this license.
    License(String),
    /// Open this file or address.
    Open(String),
    Html,
    /// Set a sandbox up.
    Sandbox,
    /// Prerequisites failed to install, for this reason.
    PrereqsFailed(String),
    Other,
}

/// What is done about a request of butler's.
#[derive(Debug, PartialEq, Eq)]
pub enum LaunchStep {
    /// Run this, and say that it is done, or error 500 with what went wrong.
    Run(Content),
    /// Answer this.
    Reply(LaunchReply),
    /// Ask the user; the answer decides.
    Ask(Question),
    /// Open this, and say that it is done.
    Open(String),
    /// Tell the user that this cannot be, and butler too.
    Refuse(i64, &'static str),
    /// The request makes no sense, for this reason.
    Broken(String),
}

/// What butler is answered.
#[derive(Debug, Clone, Copy, PartialEq, Eq, Structural)]
pub enum LaunchReply {
    Picked(usize),
    Accept(bool),
    AllowSandbox(bool),
    GoOn(bool),
    /// The launch is off.
    Cancelled,
    NotSupported,
}

/// What is done about a request of butler's.
pub open spec fn responds(firmware: Firmware, request: LaunchRequest, step: LaunchStep) -> bool {
    match request {
        LaunchRequest::Runtime { candidate, path } => match candidate {
            None => step matches LaunchStep::Broken(why) && why@
                == "runtime launch names no payload"@,
            Some(candidate) => match firmware.verdict(candidate) {
                Ok(system) => step matches LaunchStep::Run(content) && is_content(
                    content,
                    path@,
                    system,
                ),
                Err(reason) => step matches LaunchStep::Broken(why) && why@ == reason,
            },
        },
        LaunchRequest::PickAction(names) => if names@.len() == 1 {
            step == LaunchStep::Reply(LaunchReply::Picked(0))
        } else {
            step matches LaunchStep::Ask(question) && question@ == picks(
                "What do you want to launch?"@,
                ""@,
                texts(names@),
            )
        },
        LaunchRequest::License(text) => step matches LaunchStep::Ask(question) && question@ == asks(
            "License agreement"@,
            text@,
            seq!["Accept"@, "Decline"@],
        ),
        LaunchRequest::Open(item) => step == LaunchStep::Open(item),
        LaunchRequest::Html => step matches LaunchStep::Refuse(code, why) && code == 501 && why@
            == "HTML games are not supported yet"@,
        LaunchRequest::Sandbox => step == LaunchStep::Reply(LaunchReply::AllowSandbox(false)),
        LaunchRequest::PrereqsFailed(error) => step matches LaunchStep::Ask(question) && question@
            == asks(
            "Prerequisites failed to install"@,
            error@,
            seq!["Launch anyway"@, "Cancel"@],
        ),
        LaunchRequest::Other => step == LaunchStep::Reply(LaunchReply::NotSupported),
    }
}

/// Which question was asked during a launch.
#[derive(Debug, Clone, Copy, PartialEq, Eq, Structural)]
pub enum Asked {
    Action,
    License,
    Prereqs,
}

/// What a request asks about.
pub open spec fn asking(request: LaunchRequest) -> Option<Asked> {
    match request {
        LaunchRequest::PickAction(_) => Some(Asked::Action),
        LaunchRequest::License(_) => Some(Asked::License),
        LaunchRequest::PrereqsFailed(_) => Some(Asked::Prereqs),
        _ => None,
    }
}

pub fn asked_about(request: &LaunchRequest) -> (r: Option<Asked>)
    ensures
        r == asking(*request),
{
    match request {
        LaunchRequest::PickAction(_) => Some(Asked::Action),
        LaunchRequest::License(_) => Some(Asked::License),
        LaunchRequest::PrereqsFailed(_) => Some(Asked::Prereqs),
        _ => None,
    }
}

/// What to do about a request of butler's.
pub fn launch_step(firmware: &Firmware, request: LaunchRequest) -> (r: LaunchStep)
    ensures
        responds(*firmware, request, r),
{
    match request {
        LaunchRequest::Runtime { candidate, path } => match candidate {
            None => LaunchStep::Broken("runtime launch names no payload".to_owned()),
            Some(candidate) => match content_for(firmware, &candidate, path) {
                Ok(content) => LaunchStep::Run(content),
                Err(why) => LaunchStep::Broken(why),
            },
        },
        LaunchRequest::PickAction(names) => if names.len() == 1 {
            LaunchStep::Reply(LaunchReply::Picked(0))
        } else {
            LaunchStep::Ask(pick("What do you want to launch?", "".to_owned(), names))
        },
        LaunchRequest::License(text) => LaunchStep::Ask(
            ask("License agreement", text, either("Accept", "Decline")),
        ),
        LaunchRequest::Open(item) => LaunchStep::Open(item),
        LaunchRequest::Html => LaunchStep::Refuse(501, "HTML games are not supported yet"),
        LaunchRequest::Sandbox => LaunchStep::Reply(LaunchReply::AllowSandbox(false)),
        LaunchRequest::PrereqsFailed(error) => LaunchStep::Ask(
            ask("Prerequisites failed to install", error, either("Launch anyway", "Cancel")),
        ),
        LaunchRequest::Other => LaunchStep::Reply(LaunchReply::NotSupported),
    }
}

/// What an answer of the user's comes to.
pub open spec fn replies(asked: Asked, choice: Option<usize>) -> LaunchReply {
    match asked {
        Asked::Action => match choice {
            Some(index) => LaunchReply::Picked(index),
            None => LaunchReply::Cancelled,
        },
        Asked::License => LaunchReply::Accept(accepts(choice)),
        Asked::Prereqs => LaunchReply::GoOn(accepts(choice)),
    }
}

/// What butler is answered once the user has. A license is accepted, and a launch goes on
/// without its prerequisites, only where the user took the first choice.
pub fn launch_reply(asked: Asked, choice: Option<usize>) -> (r: LaunchReply)
    ensures
        r == replies(asked, choice),
{
    match asked {
        Asked::Action => match choice {
            Some(index) => LaunchReply::Picked(index),
            None => LaunchReply::Cancelled,
        },
        Asked::License => LaunchReply::Accept(accepted(choice)),
        Asked::Prereqs => LaunchReply::GoOn(accepted(choice)),
    }
}

/// The code and the words of an answer that is an error.
pub fn reply_error(reply: LaunchReply) -> (r: Option<(i64, &'static str)>)
    ensures
        match reply {
            LaunchReply::Cancelled => r matches Some((code, words)) && code == 499 && words@
                == "launch cancelled"@,
            LaunchReply::NotSupported => r matches Some((code, words)) && code == -32601 && words@
                == "not supported by this client"@,
            _ => r is None,
        },
{
    match reply {
        LaunchReply::Cancelled => Some((499, "launch cancelled")),
        LaunchReply::NotSupported => Some((-32601, "not supported by this client")),
        _ => None,
    }
}

// ---------------------------------------------------------------------------
// What holds of a launch as a whole
// ---------------------------------------------------------------------------

/// A license is accepted, and a launch goes on without its prerequisites, by the choice that
/// says so and by no other; a pick is the user's, and without one the launch is off.
pub proof fn answers_mean_what_the_choices_say(
    firmware: Firmware,
    request: LaunchRequest,
    step: LaunchStep,
    choice: Option<usize>,
)
    requires
        responds(firmware, request, step),
        asking(request) is Some,
    ensures
        request is License ==> {
            &&& asking(request) == Some(Asked::License)
            &&& step matches LaunchStep::Ask(question) && (replies(Asked::License, choice)
                == LaunchReply::Accept(true) <==> (choice matches Some(i) && i
                < question@.choices.len() && question@.choices[i as int] == "Accept"@))
            &&& replies(Asked::License, choice) is Accept
        },
        request is PrereqsFailed ==> {
            &&& asking(request) == Some(Asked::Prereqs)
            &&& step matches LaunchStep::Ask(question) && (replies(Asked::Prereqs, choice)
                == LaunchReply::GoOn(true) <==> (choice matches Some(i) && i
                < question@.choices.len() && question@.choices[i as int] == "Launch anyway"@))
            &&& replies(Asked::Prereqs, choice) is GoOn
        },
        request is PickAction ==> {
            &&& asking(request) == Some(Asked::Action)
            &&& choice matches Some(i) ==> replies(Asked::Action, choice) == LaunchReply::Picked(i)
            &&& choice is None ==> replies(Asked::Action, choice) == LaunchReply::Cancelled
        },
{
    reveal_strlit("Accept");
    reveal_strlit("Decline");
    reveal_strlit("Launch anyway");
    reveal_strlit("Cancel");
    assert("Accept"@.len() != "Decline"@.len() && "Launch anyway"@.len() != "Cancel"@.len());
}

/// What butler needs for a launch is done or asked about: a payload that runs here is run, a
/// single action needs no question and several are picked from, an address is opened; no
/// sandbox is set up, and what is not known is refused.
pub proof fn requests_are_answered(firmware: Firmware, request: LaunchRequest, step: LaunchStep)
    requires
        responds(firmware, request, step),
    ensures
        request matches LaunchRequest::Runtime { candidate, path } ==> {
            &&& candidate is None ==> step is Broken
            &&& candidate matches Some(payload) ==> (step is Run <==> firmware.verdict(payload) is Ok)
            &&& step matches LaunchStep::Run(content) ==> (match content {
                Content::Love { path: p } => p@ == path@,
                Content::Rom { path: p, .. } => p@ == path@,
            })
            &&& candidate matches Some(payload) ==> (firmware.verdict(payload) matches Err(reason)
                ==> (step matches LaunchStep::Broken(why) && why@ == reason))
        },
        request matches LaunchRequest::PickAction(names) ==> {
            &&& names@.len() == 1 ==> step == LaunchStep::Reply(LaunchReply::Picked(0))
            &&& names@.len() != 1 ==> (step matches LaunchStep::Ask(question)
                && question@.choices.len() == names@.len() && forall|i: int|
                0 <= i < names@.len() ==> (#[trigger] question@.choices[i]) == names@[i]@)
        },
        request matches LaunchRequest::License(text) ==> (step matches LaunchStep::Ask(question)
            && question@.body == text@),
        request matches LaunchRequest::PrereqsFailed(error) ==> (step matches LaunchStep::Ask(
            question,
        ) && question@.body == error@),
        request matches LaunchRequest::Open(item) ==> step == LaunchStep::Open(item),
        request is Html ==> step is Refuse,
        request is Sandbox ==> step == LaunchStep::Reply(LaunchReply::AllowSandbox(false)),
        request is Other ==> step == LaunchStep::Reply(LaunchReply::NotSupported),
{
}

/// A launch that the user quit did not fail; any other ended as butler says.
pub proof fn games_that_are_quit_did_not_fail(result: Result<(), LaunchFailure>)
    ensures
        ended_as(result, true) is Ok,
        ended_as(result, false) == result,
{
}

/// The interface hears that the game runs, and how its prerequisites come along; of the log only
/// the errors are kept, as they are.
pub proof fn launches_are_reported(note: LaunchNote, work: LaunchWork)
    requires
        news_of(note, work),
    ensures
        note matches LaunchNote::Running { cave_id } ==> work == LaunchWork::Tell(
            Event::LaunchRunning { cave_id },
        ),
        note matches LaunchNote::Log { level, line } ==> (level == LogLevel::Error ==> work
            == LaunchWork::Keep(line)) && (level != LogLevel::Error ==> work is Nothing),
        note is PrereqsStarted || note is PrereqsTask ==> work is Status,
        note matches LaunchNote::PrereqsTask { name, .. } ==> (work matches LaunchWork::Status(words)
            && starts_with(words@, name@)),
        note is Exited || note is Other ==> work is Nothing,
{
    if let LaunchNote::PrereqsTask { name, status, percent } = note {
        if let LaunchWork::Status(words) = work {
            assert(words@.take(name@.len() as int) =~= name@);
        }
    }
}

/// Of the lines that were kept, butler's own words about relaying are left out and all others
/// are shown, in their order.
pub proof fn failures_show_the_lines_of_the_game(all: Seq<Seq<char>>, line: Seq<char>)
    ensures
        game_lines(all).contains(line) <==> all.contains(line) && !starts_with(
            line,
            "Relaying launch failure"@,
        ) && !starts_with(line, "Had error"@),
        crate::lists::in_order_of(game_lines(all), all),
{
    let keep = |l: Seq<char>|
        !starts_with(l, "Relaying launch failure"@) && !starts_with(l, "Had error"@);
    lemma_game_lines(all, keep);
    crate::lists::filtering_keeps_what_passes(all, keep);
}

proof fn lemma_game_lines(all: Seq<Seq<char>>, keep: spec_fn(Seq<char>) -> bool)
    requires
        forall|l: Seq<char>| #[trigger]
            keep(l) == (!starts_with(l, "Relaying launch failure"@) && !starts_with(
                l,
                "Had error"@,
            )),
    ensures
        game_lines(all) == all.filter(keep),
    decreases all.len(),
{
    reveal(Seq::filter);
    if all.len() > 0 {
        lemma_game_lines(all.drop_last(), keep);
        assert(keep(all.last()) == !is_relay(all.last()));
    } else {
        assert(all.filter(keep) =~= Seq::empty());
    }
}

/// No more than the last forty lines are kept, and the newest is always one of them.
pub proof fn the_newest_line_is_kept(all: Seq<Seq<char>>, line: Seq<char>)
    ensures
        tail(all.push(line), LAUNCH_LOG_TAIL as int).len() <= 40,
        tail(all.push(line), LAUNCH_LOG_TAIL as int).last() == line,
        all.len() <= 40 ==> tail(all, LAUNCH_LOG_TAIL as int) == all,
        forall|i: int|
            0 <= i < tail(all, LAUNCH_LOG_TAIL as int).len() ==> (#[trigger] tail(
                all,
                LAUNCH_LOG_TAIL as int,
            )[i]) == all[all.len() - tail(all, LAUNCH_LOG_TAIL as int).len() + i],
{
}

} // verus!
