//! Which file of a game to fetch.
use vstd::prelude::*;
use vstd::string::*;
use crate::backend::questions::{ask, asks, pick, picks, takes, Question, QuestionView};
use crate::lists::{filtering_keeps_what_passes, filtering_takes_what_passes, in_order_of, increasing, taken_from};
use crate::model::{Game, GameUpdate, GameUpdateChoice, Host, Upload, UploadExt, UploadType};
use crate::muos::{runs_here, Firmware};
use crate::paths::{extension, extension_of};
use crate::size::{human_size, size_text};
use crate::text::{join, join_all, joined, joined3, lowercase, same, starts_with, texts, to_lowercase};

verus! {

// ---------------------------------------------------------------------------
// What an upload is called
// ---------------------------------------------------------------------------

/// What an upload is, where that is worth a word.
pub open spec fn kind_word(kind: UploadType) -> Option<Seq<char>> {
    match kind {
        UploadType::Default | UploadType::Other | UploadType::Unknown => None,
        UploadType::Flash => Some("flash"@),
        UploadType::Unity => Some("unity web player"@),
        UploadType::Java => Some("java"@),
        UploadType::HTML => Some("html"@),
        UploadType::Soundtrack => Some("soundtrack"@),
        UploadType::Book => Some("book"@),
        UploadType::Video => Some("video"@),
        UploadType::Documentation => Some("documentation"@),
        UploadType::Mod => Some("mod"@),
        UploadType::AudioAssets => Some("audio assets"@),
        UploadType::GraphicalAssets => Some("graphical assets"@),
        UploadType::Sourcecode => Some("source code"@),
    }
}

fn word_for_kind(kind: UploadType) -> (r: Option<&'static str>)
    ensures
        r matches Some(word) ==> kind_word(kind) == Some(word@),
        r is None ==> kind_word(kind) is None,
{
    match kind {
        UploadType::Default | UploadType::Other | UploadType::Unknown => None,
        UploadType::Flash => Some("flash"),
        UploadType::Unity => Some("unity web player"),
        UploadType::Java => Some("java"),
        UploadType::HTML => Some("html"),
        UploadType::Soundtrack => Some("soundtrack"),
        UploadType::Book => Some("book"),
        UploadType::Video => Some("video"),
        UploadType::Documentation => Some("documentation"),
        UploadType::Mod => Some("mod"),
        UploadType::AudioAssets => Some("audio assets"),
        UploadType::GraphicalAssets => Some("graphical assets"),
        UploadType::Sourcecode => Some("source code"),
    }
}

/// What marks an upload out: its size, that it is a demo, and what it is.
pub open spec fn upload_notes(upload: Upload) -> Seq<Seq<char>> {
    (if upload.size > 0 {
        seq![size_text(upload.size as int)]
    } else {
        Seq::empty()
    }) + (if upload.demo {
        seq!["demo"@]
    } else {
        Seq::empty()
    }) + (match kind_word(upload.kind) {
        Some(word) => seq![word],
        None => Seq::empty(),
    })
}

/// A name, with notes behind it in brackets where there are some.
pub open spec fn noted(name: Seq<char>, notes: Seq<Seq<char>>) -> Seq<char> {
    if notes.len() == 0 {
        name
    } else {
        name + " ("@ + join(notes, ", "@) + ")"@
    }
}

fn with_notes(name: &str, notes: &Vec<String>) -> (r: String)
    ensures
        r@ == noted(name@, texts(notes@)),
{
    if notes.len() == 0 {
        name.to_owned()
    } else {
        let mut r = joined3(name, " (", join_all(notes, ", ").as_str());
        r.append(")");
        r
    }
}

/// One line per upload for the picker: its name, size, and what marks it
/// out when the name alone does not.
pub fn upload_label(upload: &Upload) -> (r: String)
    ensures
        r@ == noted(upload.shown_name(), upload_notes(*upload)),
{
    let mut notes: Vec<String> = Vec::new();
    if upload.size > 0 {
        notes.push(human_size(upload.size));
    }
    if upload.demo {
        notes.push("demo".to_owned());
    }
    if let Some(word) = word_for_kind(upload.kind) {
        notes.push(word.to_owned());
    }
    assert(texts(notes@) =~= upload_notes(*upload));
    with_notes(upload.name(), &notes)
}

/// The operating systems that an upload is for.
pub open spec fn platform_names(upload: Upload) -> Seq<Seq<char>> {
    (if upload.platforms.windows {
        seq!["Windows"@]
    } else {
        Seq::empty()
    }) + (if upload.platforms.linux {
        seq!["Linux"@]
    } else {
        Seq::empty()
    }) + (if upload.platforms.osx {
        seq!["macOS"@]
    } else {
        Seq::empty()
    })
}

pub fn upload_platform_names(upload: &Upload) -> (r: Vec<String>)
    ensures
        texts(r@) == platform_names(*upload),
{
    let mut r: Vec<String> = Vec::new();
    if upload.platforms.windows {
        r.push("Windows".to_owned());
    }
    if upload.platforms.linux {
        r.push("Linux".to_owned());
    }
    if upload.platforms.osx {
        r.push("macOS".to_owned());
    }
    assert(texts(r@) =~= platform_names(*upload));
    r
}

/// "name (Linux)" for telling uploads apart in a prompt.
pub open spec fn description(upload: Upload) -> Seq<char> {
    noted(upload.shown_name(), platform_names(upload))
}

pub fn describe_upload(upload: &Upload) -> (r: String)
    ensures
        r@ == description(*upload),
{
    let platforms = upload_platform_names(upload);
    with_notes(upload.name(), &platforms)
}

// ---------------------------------------------------------------------------
// What runs here
// ---------------------------------------------------------------------------

/// An archive, which butler unpacks, by the extension of its name.
pub open spec fn is_archive_name(name: Seq<char>) -> bool {
    match extension_of(name) {
        Some(ext) => {
            let ext = lowercase(ext);
            ext == "zip"@ || ext == "7z"@ || ext == "rar"@ || ext == "tar"@ || ext == "gz"@ || ext
                == "tgz"@ || ext == "bz2"@ || ext == "xz"@
        },
        None => false,
    }
}

fn is_archive(name: &str) -> (r: bool)
    ensures
        r == is_archive_name(name@),
{
    match extension(name) {
        Some(ext) => {
            let ext = to_lowercase(ext.as_str());
            let ext = ext.as_str();
            same(ext, "zip") || same(ext, "7z") || same(ext, "rar") || same(ext, "tar") || same(
                ext,
                "gz",
            ) || same(ext, "tgz") || same(ext, "bz2") || same(ext, "xz")
        },
        None => false,
    }
}

/// An upload that says nothing of operating systems.
pub open spec fn is_untagged(upload: Upload) -> bool {
    !upload.platforms.windows && !upload.platforms.linux && !upload.platforms.osx
}

/// Whether an upload runs on this device: it has a build for its system. On muOS a file whose
/// name says that the firmware runs it does too, and so may what an archive without any tags
/// holds, since that is how most uploads arrive.
pub open spec fn runs_on(firmware: Firmware, host: Host, upload: Upload) -> bool {
    (match host {
        Host::Linux => upload.platforms.linux,
        Host::Mac => upload.platforms.osx,
        Host::Windows => upload.platforms.windows,
    }) || (firmware.script is Some && (firmware.runs(upload.filename@) || (is_untagged(upload)
        && is_archive_name(upload.filename@))))
}

pub fn upload_runs_here(firmware: &Firmware, host: Host, upload: &Upload) -> (r: bool)
    ensures
        r == runs_on(*firmware, host, *upload),
{
    let tagged = upload.platforms.windows || upload.platforms.linux || upload.platforms.osx;
    (match host {
        Host::Linux => upload.platforms.linux,
        Host::Mac => upload.platforms.osx,
        Host::Windows => upload.platforms.windows,
    }) || (firmware.script.is_some() && (runs_here(firmware, upload.filename.as_str()) || (!tagged
        && is_archive(upload.filename.as_str()))))
}

/// The uploads that run here, in order.
pub open spec fn runnable(firmware: Firmware, host: Host, uploads: Seq<Upload>) -> Seq<Upload>
    decreases uploads.len(),
{
    if uploads.len() == 0 {
        Seq::empty()
    } else {
        let before = runnable(firmware, host, uploads.drop_last());
        if runs_on(firmware, host, uploads.last()) {
            before.push(uploads.last())
        } else {
            before
        }
    }
}

/// What to do about an install, once the uploads are known.
#[derive(Debug, PartialEq, Eq)]
pub enum InstallStep {
    /// There is nothing to install.
    Nothing(String),
    /// Queue this one of the uploads.
    Queue(usize),
    /// Ask which.
    Ask(Question),
}

/// The uploads that can be installed. butler's compatibility filter goes by platform tags,
/// which a ROM does not carry; on muOS every upload is fetched and judged here.
pub open spec fn installable(firmware: Firmware, host: Host, uploads: Seq<Upload>) -> Seq<Upload> {
    if firmware.script is Some {
        runnable(firmware, host, uploads)
    } else {
        uploads
    }
}

pub fn keep_installable(firmware: &Firmware, host: Host, uploads: Vec<Upload>) -> (r: Vec<Upload>)
    ensures
        r@ == installable(*firmware, host, uploads@),
{
    if firmware.script.is_none() {
        return uploads;
    }
    let ghost all = uploads@;
    let mut uploads = uploads;
    let mut r: Vec<Upload> = Vec::new();
    let ghost mut done: int = 0;
    assert(all.take(0) =~= Seq::empty());
    assert(all.skip(0) =~= all);
    while uploads.len() > 0
        invariant
            0 <= done <= all.len(),
            uploads@ == all.skip(done),
            r@ == runnable(*firmware, host, all.take(done)),
        decreases uploads@.len(),
    {
        let upload = uploads.remove(0);
        proof {
            assert(all.take(done + 1).drop_last() =~= all.take(done));
            assert(upload == all[done]);
            assert(uploads@ =~= all.skip(done + 1));
            done = done + 1;
        }
        if upload_runs_here(firmware, host, &upload) {
            r.push(upload);
        }
    }
    assert(all.take(done) =~= all);
    r
}

/// The labels of uploads, and a way out behind them.
pub open spec fn upload_choices(uploads: Seq<Upload>) -> Seq<Seq<char>> {
    uploads.map_values(|u: Upload| noted(u.shown_name(), upload_notes(u))).push("Cancel"@)
}

/// Asks which upload to install.
pub fn upload_question(game: &Game, uploads: &Vec<Upload>) -> (r: Question)
    ensures
        r@ == picks(
            "Which download?"@,
            game.title@ + " has more than one download for this device."@,
            upload_choices(uploads@),
        ),
{
    let mut choices: Vec<String> = Vec::new();
    let mut i: usize = 0;
    let ghost labels = uploads@.map_values(|u: Upload| noted(u.shown_name(), upload_notes(u)));
    assert(texts(choices@) =~= labels.take(0));
    while i < uploads.len()
        invariant
            i <= uploads@.len(),
            labels == uploads@.map_values(|u: Upload| noted(u.shown_name(), upload_notes(u))),
            texts(choices@) == labels.take(i as int),
        decreases uploads@.len() - i,
    {
        let ghost before = texts(choices@);
        choices.push(upload_label(&uploads[i]));
        assert(texts(choices@) =~= before.push(labels[i as int]));
        i += 1;
        assert(texts(choices@) =~= labels.take(i as int));
    }
    let ghost before = texts(choices@);
    choices.push("Cancel".to_owned());
    assert(texts(choices@) =~= before.push("Cancel"@));
    assert(labels.take(i as int) =~= labels);
    pick(
        "Which download?",
        joined(game.title.as_str(), " has more than one download for this device."),
        choices,
    )
}

/// How an install goes on.
pub open spec fn goes_on(game: Game, uploads: Seq<Upload>, step: InstallStep) -> bool {
    match step {
        InstallStep::Nothing(why) => uploads.len() == 0 && why@ == game.title@
            + " has no download for this device"@,
        InstallStep::Queue(index) => uploads.len() == 1 && index == 0,
        InstallStep::Ask(question) => uploads.len() > 1 && question@ == picks(
            "Which download?"@,
            game.title@ + " has more than one download for this device."@,
            upload_choices(uploads),
        ),
    }
}

/// What to do about an install: with one upload for this device it is queued, with several
/// the user picks, with none there is nothing to install.
pub fn install_step(game: &Game, uploads: &Vec<Upload>) -> (r: InstallStep)
    ensures
        goes_on(*game, uploads@, r),
{
    if uploads.len() == 0 {
        InstallStep::Nothing(joined(game.title.as_str(), " has no download for this device"))
    } else if uploads.len() == 1 {
        InstallStep::Queue(0)
    } else {
        InstallStep::Ask(upload_question(game, uploads))
    }
}

/// Whether an upload is installed as it is. butler knows a few ROM extensions and sniffs the
/// rest as "unknown", for which it has no installer. A ROM is a file to copy, so on muOS an
/// upload that is not an archive is installed as one.
pub fn ignores_installers(firmware: &Firmware, upload: &Upload) -> (r: bool)
    ensures
        r == (firmware.script is Some && firmware.runs(upload.filename@)),
{
    firmware.script.is_some() && runs_here(firmware, upload.filename.as_str())
}

// ---------------------------------------------------------------------------
// Updates
// ---------------------------------------------------------------------------

/// Whether a choice of an indirect update runs here.
pub open spec fn choice_runs(firmware: Firmware, host: Host, choice: GameUpdateChoice) -> bool {
    match choice.upload {
        Some(upload) => runs_on(firmware, host, upload),
        None => false,
    }
}

/// The choices that run here, in order.
pub open spec fn runnable_choices(
    firmware: Firmware,
    host: Host,
    choices: Seq<GameUpdateChoice>,
) -> Seq<GameUpdateChoice>
    decreases choices.len(),
{
    if choices.len() == 0 {
        Seq::empty()
    } else {
        let before = runnable_choices(firmware, host, choices.drop_last());
        if choice_runs(firmware, host, choices.last()) {
            before.push(choices.last())
        } else {
            before
        }
    }
}

/// An update narrowed to what runs here. Indirect updates are butler's guesses that some other
/// upload replaced the installed one, so those are narrowed; a direct one stays as it is.
pub open spec fn is_narrowed(firmware: Firmware, host: Host, before: GameUpdate, after: GameUpdate) -> bool {
    &&& after == (GameUpdate { choices: after.choices, ..before })
    &&& after.choices@ == (if before.direct {
        before.choices@
    } else {
        runnable_choices(firmware, host, before.choices@)
    })
}

/// The choices that an update would have here.
pub open spec fn choices_here(firmware: Firmware, host: Host, update: GameUpdate) -> Seq<
    GameUpdateChoice,
> {
    if update.direct {
        update.choices@
    } else {
        runnable_choices(firmware, host, update.choices@)
    }
}

/// Those of the updates that offer something here.
pub open spec fn offered_updates(firmware: Firmware, host: Host, updates: Seq<GameUpdate>) -> Seq<
    GameUpdate,
>
    decreases updates.len(),
{
    if updates.len() == 0 {
        Seq::empty()
    } else {
        let before = offered_updates(firmware, host, updates.drop_last());
        if choices_here(firmware, host, updates.last()).len() > 0 {
            before.push(updates.last())
        } else {
            before
        }
    }
}

/// Two lists of updates, the second the first narrowed to what runs here.
pub open spec fn all_narrowed(
    firmware: Firmware,
    host: Host,
    before: Seq<GameUpdate>,
    after: Seq<GameUpdate>,
) -> bool {
    &&& after.len() == before.len()
    &&& forall|i: int|
        0 <= i < before.len() ==> is_narrowed(firmware, host, before[i], #[trigger] after[i])
}

fn narrow(firmware: &Firmware, host: Host, update: GameUpdate) -> (r: GameUpdate)
    ensures
        is_narrowed(*firmware, host, update, r),
{
    if update.direct {
        return update;
    }
    let ghost all = update.choices@;
    let GameUpdate { cave_id, game, direct, choices: given } = update;
    let mut given = given;
    let mut choices: Vec<GameUpdateChoice> = Vec::new();
    let ghost mut done: int = 0;
    assert(all.take(0) =~= Seq::empty());
    assert(all.skip(0) =~= all);
    while given.len() > 0
        invariant
            0 <= done <= all.len(),
            given@ == all.skip(done),
            choices@ == runnable_choices(*firmware, host, all.take(done)),
        decreases given@.len(),
    {
        let choice = given.remove(0);
        proof {
            assert(all.take(done + 1).drop_last() =~= all.take(done));
            assert(choice == all[done]);
            assert(given@ =~= all.skip(done + 1));
            done = done + 1;
        }
        let runs = match &choice.upload {
            Some(upload) => upload_runs_here(firmware, host, upload),
            None => false,
        };
        if runs {
            choices.push(choice);
        }
    }
    assert(all.take(done) =~= all);
    GameUpdate { cave_id, game, direct, choices }
}

/// The updates to tell of: indirect ones are narrowed to
/// uploads that run here, and dropped when none does.
pub fn narrow_updates(firmware: &Firmware, host: Host, updates: Vec<GameUpdate>) -> (r: Vec<GameUpdate>)
    ensures
        all_narrowed(*firmware, host, offered_updates(*firmware, host, updates@), r@),
{
    let ghost all = updates@;
    let mut updates = updates;
    let mut r: Vec<GameUpdate> = Vec::new();
    let ghost mut done: int = 0;
    assert(all.take(0) =~= Seq::empty());
    assert(all.skip(0) =~= all);
    while updates.len() > 0
        invariant
            0 <= done <= all.len(),
            updates@ == all.skip(done),
            all_narrowed(
                *firmware,
                host,
                offered_updates(*firmware, host, all.take(done)),
                r@,
            ),
        decreases updates@.len(),
    {
        let update = updates.remove(0);
        let ghost before = r@;
        let ghost offered = offered_updates(*firmware, host, all.take(done));
        proof {
            assert(all.take(done + 1).drop_last() =~= all.take(done));
            assert(update == all[done]);
            assert(updates@ =~= all.skip(done + 1));
            done = done + 1;
        }
        let ghost given = update;
        let update = narrow(firmware, host, update);
        if update.choices.len() > 0 {
            r.push(update);
            proof {
                let now = offered.push(given);
                assert(offered_updates(*firmware, host, all.take(done)) == now);
                assert forall|i: int| 0 <= i < now.len() implies is_narrowed(
                    *firmware,
                    host,
                    now[i],
                    #[trigger] r@[i],
                ) by {
                    if i < before.len() {
                        assert(r@[i] == before[i] && now[i] == offered[i]);
                    }
                }
            }
        }
    }
    assert(all.take(done) =~= all);
    r
}

/// What the uploads of an update are called.
pub open spec fn choice_name(choice: GameUpdateChoice) -> Seq<char> {
    match choice.upload {
        Some(upload) => description(upload),
        None => "upload"@,
    }
}

pub open spec fn choice_names(choices: Seq<GameUpdateChoice>) -> Seq<Seq<char>> {
    choices.map_values(|c: GameUpdateChoice| choice_name(c))
}

pub open spec fn update_body(
    title: Seq<char>,
    installed: Option<Seq<char>>,
    names: Seq<Seq<char>>,
) -> Seq<char> {
    "A newer upload of "@ + title
        + " appeared after it was installed. It may be a new version or something else, like extra content. Installing it replaces the current install.\n"@
        + (match installed {
        Some(words) => "\nInstalled: "@ + words,
        None => Seq::empty(),
    }) + "\nOffered: "@ + join(names, ", "@)
}

/// The question about an indirect update. One offer is a yes-or-no question and needs no
/// naming on its button; several are a pick between them.
pub open spec fn update_ask(update: GameUpdate, installed: Option<Upload>) -> QuestionView {
    let names = choice_names(update.choices@);
    let title = match update.game {
        Some(game) => game.title@,
        None => "game"@,
    };
    let body = update_body(
        title,
        match installed {
            Some(upload) => Some(description(upload)),
            None => None,
        },
        names,
    );
    if names.len() == 1 {
        asks("Update?"@, body, seq!["Install"@, "Cancel"@])
    } else {
        picks("Update?"@, body, names.push("Cancel"@))
    }
}

/// Asks which of an indirect update's uploads to install, showing what is
/// installed now beside what is offered.
pub fn update_question(update: &GameUpdate, installed: Option<&Upload>) -> (r: Question)
    ensures
        r@ == update_ask(*update, match installed {
            Some(upload) => Some(*upload),
            None => None,
        }),
{
    let title = match &update.game {
        Some(game) => game.title.as_str(),
        None => "game",
    };
    let mut names: Vec<String> = Vec::new();
    let ghost all = choice_names(update.choices@);
    let mut i: usize = 0;
    assert(texts(names@) =~= all.take(0));
    while i < update.choices.len()
        invariant
            i <= update.choices@.len(),
            all == choice_names(update.choices@),
            texts(names@) == all.take(i as int),
        decreases update.choices@.len() - i,
    {
        let ghost before = texts(names@);
        let name = match &update.choices[i].upload {
            Some(upload) => describe_upload(upload),
            None => "upload".to_owned(),
        };
        names.push(name);
        assert(texts(names@) =~= before.push(all[i as int]));
        i += 1;
        assert(texts(names@) =~= all.take(i as int));
    }
    assert(all.take(i as int) =~= all);
    let mut body = joined3(
        "A newer upload of ",
        title,
        " appeared after it was installed. It may be a new version or something else, like extra content. Installing it replaces the current install.\n",
    );
    let ghost head = body@;
    if let Some(upload) = installed {
        body.append("\nInstalled: ");
        body.append(describe_upload(upload).as_str());
        assert(body@ =~= head + ("\nInstalled: "@ + description(*upload)));
    } else {
        assert(body@ =~= head + Seq::<char>::empty());
    }
    body.append("\nOffered: ");
    body.append(join_all(&names, ", ").as_str());
    if names.len() == 1 {
        ask("Update?", body, crate::backend::questions::either("Install", "Cancel"))
    } else {
        let ghost before = texts(names@);
        names.push("Cancel".to_owned());
        assert(texts(names@) =~= before.push("Cancel"@));
        pick("Update?", body, names)
    }
}

/// Why an update cannot be queued: it has no such choice.
pub fn missing_choice(update: &GameUpdate, choice: usize) -> (r: Option<String>)
    ensures
        match r {
            Some(why) => choice >= update.choices@.len() && why@ == "update for cave "@
                + update.cave_id@ + " has no choice "@ + crate::text::decimal(choice as nat),
            None => choice < update.choices@.len(),
        },
{
    if choice < update.choices.len() {
        None
    } else {
        let mut why = joined3("update for cave ", update.cave_id.as_str(), " has no choice ");
        why.append(crate::text::number_text(choice as u64).as_str());
        Some(why)
    }
}

/// Every update that is told of offers something, and what an indirect one offers runs here.
pub proof fn told_updates_offer_what_runs(
    firmware: Firmware,
    host: Host,
    updates: Seq<GameUpdate>,
    told: Seq<GameUpdate>,
)
    requires
        all_narrowed(firmware, host, offered_updates(firmware, host, updates), told),
    ensures
        forall|i: int|
            0 <= i < told.len() ==> (#[trigger] told[i]).choices@.len() > 0 && (told[i].direct
                || forall|k: int|
                0 <= k < told[i].choices@.len() ==> choice_runs(
                    firmware,
                    host,
                    #[trigger] told[i].choices@[k],
                )),
{
    lemma_offered(firmware, host, updates);
    assert forall|i: int| 0 <= i < told.len() implies (#[trigger] told[i]).choices@.len() > 0 && (
    told[i].direct || forall|k: int|
        0 <= k < told[i].choices@.len() ==> choice_runs(
            firmware,
            host,
            #[trigger] told[i].choices@[k],
        )) by {
        let offered = offered_updates(firmware, host, updates);
        assert(is_narrowed(firmware, host, offered[i], told[i]));
        if !told[i].direct {
            lemma_runnable(firmware, host, offered[i].choices@);
        }
    }
}

proof fn lemma_offered(firmware: Firmware, host: Host, updates: Seq<GameUpdate>)
    ensures
        forall|i: int|
            0 <= i < offered_updates(firmware, host, updates).len() ==> choices_here(
                firmware,
                host,
                #[trigger] offered_updates(firmware, host, updates)[i],
            ).len() > 0,
    decreases updates.len(),
{
    if updates.len() > 0 {
        lemma_offered(firmware, host, updates.drop_last());
        let before = offered_updates(firmware, host, updates.drop_last());
        let all = offered_updates(firmware, host, updates);
        assert forall|i: int| 0 <= i < all.len() implies choices_here(
            firmware,
            host,
            #[trigger] all[i],
        ).len() > 0 by {
            if i < before.len() {
                assert(all[i] == before[i]);
            }
        }
    }
}

proof fn lemma_runnable(firmware: Firmware, host: Host, choices: Seq<GameUpdateChoice>)
    ensures
        forall|k: int|
            0 <= k < runnable_choices(firmware, host, choices).len() ==> choice_runs(
                firmware,
                host,
                #[trigger] runnable_choices(firmware, host, choices)[k],
            ),
    decreases choices.len(),
{
    if choices.len() > 0 {
        lemma_runnable(firmware, host, choices.drop_last());
        let before = runnable_choices(firmware, host, choices.drop_last());
        let all = runnable_choices(firmware, host, choices);
        assert forall|k: int| 0 <= k < all.len() implies choice_runs(
            firmware,
            host,
            #[trigger] all[k],
        ) by {
            if k < before.len() {
                assert(all[k] == before[k]);
            }
        }
    }
}

// ---------------------------------------------------------------------------
// What holds of the updates and uploads as a whole
// ---------------------------------------------------------------------------

proof fn lemma_offered_is_a_filter(
    firmware: Firmware,
    host: Host,
    updates: Seq<GameUpdate>,
    keep: spec_fn(GameUpdate) -> bool,
)
    requires
        forall|u: GameUpdate| #[trigger] keep(u) == (choices_here(firmware, host, u).len() > 0),
    ensures
        offered_updates(firmware, host, updates) == updates.filter(keep),
    decreases updates.len(),
{
    reveal(Seq::filter);
    if updates.len() > 0 {
        lemma_offered_is_a_filter(firmware, host, updates.drop_last(), keep);
        assert(keep(updates.last()) == (choices_here(firmware, host, updates.last()).len() > 0));
    } else {
        assert(updates.filter(keep) =~= Seq::empty());
    }
}

proof fn lemma_choices_are_a_filter(
    firmware: Firmware,
    host: Host,
    choices: Seq<GameUpdateChoice>,
    keep: spec_fn(GameUpdateChoice) -> bool,
)
    requires
        forall|c: GameUpdateChoice| #[trigger] keep(c) == choice_runs(firmware, host, c),
    ensures
        runnable_choices(firmware, host, choices) == choices.filter(keep),
    decreases choices.len(),
{
    reveal(Seq::filter);
    if choices.len() > 0 {
        lemma_choices_are_a_filter(firmware, host, choices.drop_last(), keep);
        assert(keep(choices.last()) == choice_runs(firmware, host, choices.last()));
    } else {
        assert(choices.filter(keep) =~= Seq::empty());
    }
}

/// Nothing but an update left without choices is dropped. Every direct update that has a
/// choice is told of unchanged; every indirect one with a choice that runs here is told of
/// with those of its choices that run here. The updates keep their order, and so do the
/// choices of each.
pub proof fn only_updates_without_choices_are_dropped(
    firmware: Firmware,
    host: Host,
    updates: Seq<GameUpdate>,
    told: Seq<GameUpdate>,
) -> (places: Seq<int>)
    requires
        all_narrowed(firmware, host, offered_updates(firmware, host, updates), told),
    ensures
        increasing(places, updates.len()),
        told.len() == places.len(),
        forall|k: int|
            0 <= k < told.len() ==> {
                let given = updates[places[k]];
                &&& (#[trigger] told[k]).cave_id == given.cave_id
                &&& told[k].game == given.game
                &&& told[k].direct == given.direct
                &&& given.direct ==> told[k].choices@ == given.choices@
                &&& in_order_of(told[k].choices@, given.choices@)
                &&& !given.direct ==> forall|c: GameUpdateChoice| #[trigger]
                    told[k].choices@.contains(c) <==> given.choices@.contains(c) && (
                    c.upload matches Some(upload) && runs_on(firmware, host, upload))
            },
        forall|i: int|
            0 <= i < updates.len() && (#[trigger] updates[i]).direct && updates[i].choices@.len() > 0
                ==> places.contains(i),
        forall|i: int, c: int|
            0 <= i < updates.len() && !(#[trigger] updates[i]).direct && 0 <= c
                < updates[i].choices@.len() && ((#[trigger] updates[i].choices@[c]).upload matches Some(
                upload,
            ) && runs_on(firmware, host, upload)) ==> places.contains(i),
        forall|k: int| 0 <= k < told.len() ==> (#[trigger] told[k]).choices@.len() > 0,
{
    let keep = |u: GameUpdate| choices_here(firmware, host, u).len() > 0;
    let runs = |c: GameUpdateChoice| choice_runs(firmware, host, c);
    lemma_offered_is_a_filter(firmware, host, updates, keep);
    let places = filtering_takes_what_passes(updates, keep);
    let offered = offered_updates(firmware, host, updates);
    assert forall|k: int| 0 <= k < told.len() implies {
        let given = updates[places[k]];
        &&& (#[trigger] told[k]).cave_id == given.cave_id
        &&& told[k].game == given.game
        &&& told[k].direct == given.direct
        &&& given.direct ==> told[k].choices@ == given.choices@
        &&& in_order_of(told[k].choices@, given.choices@)
        &&& !given.direct ==> forall|c: GameUpdateChoice| #[trigger]
            told[k].choices@.contains(c) <==> given.choices@.contains(c) && (
            c.upload matches Some(upload) && runs_on(firmware, host, upload))
    } by {
        let given = updates[places[k]];
        assert(offered[k] == given);
        assert(is_narrowed(firmware, host, offered[k], told[k]));
        if given.direct {
            let all = Seq::new(given.choices@.len(), |i: int| i);
            assert(taken_from(told[k].choices@, given.choices@, all));
        } else {
            lemma_choices_are_a_filter(firmware, host, given.choices@, runs);
            filtering_keeps_what_passes(given.choices@, runs);
        }
    }
    assert forall|i: int|
        0 <= i < updates.len() && (#[trigger] updates[i]).direct && updates[i].choices@.len()
            > 0 implies places.contains(i) by {
        assert(keep(updates[i]));
    }
    assert forall|i: int, c: int|
        0 <= i < updates.len() && !(#[trigger] updates[i]).direct && 0 <= c
            < updates[i].choices@.len() && ((#[trigger] updates[i].choices@[c]).upload matches Some(
            upload,
        ) && runs_on(firmware, host, upload)) implies places.contains(i) by {
        let given = updates[i].choices@;
        lemma_choices_are_a_filter(firmware, host, given, runs);
        filtering_keeps_what_passes(given, runs);
        assert(given.contains(given[c]) && runs(given[c]));
        assert(given.filter(runs).contains(given[c]));
        assert(keep(updates[i]));
    }
    told_updates_offer_what_runs(firmware, host, updates, told);
    places
}

/// A build for the system of this device runs here, whatever else it is. Away from muOS
/// nothing else does.
pub proof fn builds_for_the_system_run(firmware: Firmware, upload: Upload)
    ensures
        upload.platforms.linux ==> runs_on(firmware, Host::Linux, upload),
        upload.platforms.osx ==> runs_on(firmware, Host::Mac, upload),
        upload.platforms.windows ==> runs_on(firmware, Host::Windows, upload),
        firmware.script is None ==> {
            &&& runs_on(firmware, Host::Linux, upload) ==> upload.platforms.linux
            &&& runs_on(firmware, Host::Mac, upload) ==> upload.platforms.osx
            &&& runs_on(firmware, Host::Windows, upload) ==> upload.platforms.windows
        },
{
}

/// On muOS an archive that says nothing of operating systems may hold what runs there; what
/// names only other systems does not run, and neither does a file that is no archive, unless
/// the firmware itself runs such files, whatever they are tagged with.
pub proof fn untagged_archives_may_run_on_muos(firmware: Firmware, upload: Upload)
    requires
        firmware.script is Some,
    ensures
        firmware.runs(upload.filename@) ==> runs_on(firmware, Host::Linux, upload),
        !upload.platforms.windows && !upload.platforms.linux && !upload.platforms.osx && (
        extension_of(upload.filename@) matches Some(ext) && seq![
            "zip"@,
            "7z"@,
            "rar"@,
            "tar"@,
            "gz"@,
            "tgz"@,
            "bz2"@,
            "xz"@,
        ].contains(lowercase(ext))) ==> runs_on(firmware, Host::Linux, upload),
        runs_on(firmware, Host::Linux, upload) && !upload.platforms.linux && !firmware.runs(
            upload.filename@,
        ) ==> !upload.platforms.windows && !upload.platforms.osx && (extension_of(
            upload.filename@,
        ) matches Some(ext) && seq![
            "zip"@,
            "7z"@,
            "rar"@,
            "tar"@,
            "gz"@,
            "tgz"@,
            "bz2"@,
            "xz"@,
        ].contains(lowercase(ext))),
{
    let names = seq!["zip"@, "7z"@, "rar"@, "tar"@, "gz"@, "tgz"@, "bz2"@, "xz"@];
    assert(names[0] == "zip"@ && names[1] == "7z"@ && names[2] == "rar"@ && names[3] == "tar"@);
    assert(names[4] == "gz"@ && names[5] == "tgz"@ && names[6] == "bz2"@ && names[7] == "xz"@);
}

/// On muOS the uploads to install are those that run there, in the order they came in;
/// elsewhere butler has chosen already and none is taken out.
pub proof fn uploads_that_run_can_be_installed(firmware: Firmware, host: Host, uploads: Seq<Upload>)
    ensures
        firmware.script is None ==> installable(firmware, host, uploads) == uploads,
        firmware.script is Some ==> forall|u: Upload| #[trigger]
            installable(firmware, host, uploads).contains(u) <==> uploads.contains(u) && runs_on(
                firmware,
                host,
                u,
            ),
        firmware.script is Some ==> in_order_of(installable(firmware, host, uploads), uploads),
{
    let keep = |u: Upload| runs_on(firmware, host, u);
    lemma_runnable_is_a_filter(firmware, host, uploads, keep);
    filtering_keeps_what_passes(uploads, keep);
}

proof fn lemma_runnable_is_a_filter(
    firmware: Firmware,
    host: Host,
    uploads: Seq<Upload>,
    keep: spec_fn(Upload) -> bool,
)
    requires
        forall|u: Upload| #[trigger] keep(u) == runs_on(firmware, host, u),
    ensures
        runnable(firmware, host, uploads) == uploads.filter(keep),
    decreases uploads.len(),
{
    reveal(Seq::filter);
    if uploads.len() > 0 {
        lemma_runnable_is_a_filter(firmware, host, uploads.drop_last(), keep);
        assert(keep(uploads.last()) == runs_on(firmware, host, uploads.last()));
    } else {
        assert(uploads.filter(keep) =~= Seq::empty());
    }
}

/// A single upload is fetched without a question; several are picked from, each under its own
/// name, with a way out behind them; without any there is nothing to fetch.
pub proof fn installs_ask_only_where_there_is_a_choice(
    game: Game,
    uploads: Seq<Upload>,
    step: InstallStep,
    choice: usize,
)
    requires
        goes_on(game, uploads, step),
    ensures
        uploads.len() == 0 ==> step is Nothing,
        uploads.len() == 1 ==> step == InstallStep::Queue(0),
        uploads.len() > 1 ==> (step matches InstallStep::Ask(question) && {
            &&& question@.choices.len() == uploads.len() + 1
            &&& question@.choices.last() == "Cancel"@
            &&& choice < uploads.len() ==> starts_with(
                question@.choices[choice as int],
                uploads[choice as int].shown_name(),
            )
            &&& takes(Some(choice), uploads.len()) is Some <==> choice < uploads.len()
        }),
{
    if uploads.len() > 1 && choice < uploads.len() {
        let upload = uploads[choice as int];
        let name = upload.shown_name();
        let notes = upload_notes(upload);
        assert(noted(name, notes).take(name.len() as int) =~= name);
        assert(upload_choices(uploads)[choice as int] == noted(name, notes));
    }
}

/// An upload goes by the name it is shown under, or by its file's, or by a word.
pub proof fn uploads_have_a_name(upload: Upload)
    ensures
        upload.display_name@.len() > 0 ==> upload.shown_name() == upload.display_name@,
        upload.display_name@.len() == 0 && upload.filename@.len() > 0 ==> upload.shown_name()
            == upload.filename@,
        upload.shown_name().len() > 0,
{
    reveal_strlit("upload");
}

/// What an upload is told apart by: its size where it has one, that it is a demo, and its kind
/// where that says something. A description names the systems it is for, and nothing else.
pub proof fn uploads_are_told_apart(upload: Upload)
    ensures
        upload.size > 0 ==> upload_notes(upload).contains(size_text(upload.size as int)),
        upload.demo ==> upload_notes(upload).contains("demo"@),
        upload.size <= 0 && !upload.demo && upload.kind == UploadType::Default ==> noted(
            upload.shown_name(),
            upload_notes(upload),
        ) == upload.shown_name(),
        upload.kind == UploadType::Soundtrack ==> upload_notes(upload).contains("soundtrack"@),
        platform_names(upload).len() == (if upload.platforms.windows {
            1int
        } else {
            0
        }) + (if upload.platforms.linux {
            1int
        } else {
            0
        }) + (if upload.platforms.osx {
            1int
        } else {
            0
        }),
        upload.platforms.windows ==> platform_names(upload).contains("Windows"@),
        upload.platforms.linux ==> platform_names(upload).contains("Linux"@),
        upload.platforms.osx ==> platform_names(upload).contains("macOS"@),
        !upload.platforms.windows && !upload.platforms.linux && !upload.platforms.osx
            ==> description(upload) == upload.shown_name(),
        starts_with(description(upload), upload.shown_name()),
{
    let notes = upload_notes(upload);
    let names = platform_names(upload);
    let name = upload.shown_name();
    if upload.size > 0 {
        assert(notes[0] == size_text(upload.size as int));
    }
    if upload.demo {
        assert(notes[if upload.size > 0 {
            1int
        } else {
            0
        }] == "demo"@);
    }
    if upload.kind == UploadType::Soundtrack {
        assert(notes[notes.len() - 1] == "soundtrack"@);
    }
    if upload.platforms.windows {
        assert(names[0] == "Windows"@);
    }
    if upload.platforms.osx {
        assert(names[names.len() - 1] == "macOS"@);
    }
    if upload.platforms.linux {
        assert(names[if upload.platforms.windows {
            1int
        } else {
            0
        }] == "Linux"@);
    }
    assert(description(upload).take(name.len() as int) =~= name);
}

/// A guess at an update is asked about: a single offer is to be installed or not, several are
/// picked from, and there is always a way out.
pub proof fn guesses_are_asked_about(update: GameUpdate, installed: Option<Upload>)
    ensures
        update.choices@.len() == 1 ==> update_ask(update, installed).choices == seq![
            "Install"@,
            "Cancel"@,
        ],
        update.choices@.len() != 1 ==> update_ask(update, installed).choices.len()
            == update.choices@.len() + 1 && update_ask(update, installed).choices.last()
            == "Cancel"@,
        forall|i: int|
            0 <= i < update.choices@.len() && update.choices@.len() > 1 ==> (
            #[trigger] update_ask(update, installed).choices[i]) == (
            match update.choices@[i].upload {
                Some(upload) => description(upload),
                None => "upload"@,
            }),
{
}

} // verus!
