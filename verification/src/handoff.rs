//! Handing a game to the firmware, and ending it.
use vstd::prelude::*;
use vstd::string::*;
use crate::muos::{release, str_views, Content, Firmware, Love, Release, System};
use crate::paths::{file_name, file_name_of, join_path, joined_path, parent, parent_of};
use crate::text::{
    decimal, ends, ends_with, joined, joined3, number_text, split, text_of, texts, trim, trimmed,
};

verus! {

/// What the frontend writes before running the launch script: the
/// content to run, the CPU governor while it runs, and a colour filter.
#[derive(Debug, PartialEq, Eq)]
pub struct Handoff {
    pub rom: &'static str,
    pub governor: &'static str,
    pub filter: &'static str,
}

/// Which names this firmware uses for the launch handoff.
pub fn handoff(release: Release) -> (r: Handoff)
    ensures
        match release {
            Release::Jacaranda => r.rom@ == "/tmp/rom_go"@ && r.governor@ == "/tmp/gov_go"@
                && r.filter@ == "/tmp/flt_go"@,
            Release::Andromeda => r.rom@ == "/run/muos/content"@ && r.governor@
                == "/run/muos/governor"@ && r.filter@ == "/run/muos/filter"@,
        },
{
    match release {
        Release::Jacaranda => Handoff {
            rom: "/tmp/rom_go",
            governor: "/tmp/gov_go",
            filter: "/tmp/flt_go",
        },
        Release::Andromeda => Handoff {
            rom: "/run/muos/content",
            governor: "/run/muos/governor",
            filter: "/run/muos/filter",
        },
    }
}

/// A ROM to be run by the firmware's launch script.
#[derive(Debug, PartialEq, Eq)]
pub struct RomLaunch {
    /// A file without which the launch script exits at once with
    /// the reason only in the log.
    pub needs: Option<String>,
    /// What to say where that file is missing.
    pub missing: String,
    /// What the launch script reads, or why it cannot be told.
    pub text: Result<String, &'static str>,
}

/// A game to be run by LÖVE.
#[derive(Debug, PartialEq, Eq)]
pub struct LoveLaunch {
    pub binary: String,
    pub libs: String,
    /// Where to run it: next to its binary.
    pub dir: String,
    /// The game, then what its manifest adds.
    pub args: Vec<String>,
}

#[derive(Debug, PartialEq, Eq)]
pub enum Launch {
    Rom(RomLaunch),
    Love(LoveLaunch),
}

/// The folder of the cores.
pub open spec fn core_dir() -> Seq<char> {
    "/opt/muos/share/core"@
}

/// The folder of the systems' metadata.
pub open spec fn assign_dir() -> Seq<char> {
    "/opt/muos/share/info/assign"@
}

/// The file that a system needs, if any: its core where systems stand in manifests, the ini of
/// its launcher where they stand in folders.
pub open spec fn needed_file(system: System, manifests: bool) -> Option<Seq<char>> {
    if manifests {
        if ends_with(system.core@, ".so"@) {
            Some(joined_path(core_dir(), system.core@))
        } else {
            None
        }
    } else {
        Some(
            joined_path(
                joined_path(assign_dir(), system.assign@),
                system.launcher@ + ".ini"@,
            ),
        )
    }
}

/// What to say where the file that a system needs is missing.
pub open spec fn missing_words(system: System, manifests: bool, needs: Seq<char>) -> Seq<char> {
    let head = "This muOS has no "@ + system.launcher@ + " emulator for "@ + system.assign@ + ": "@;
    if manifests {
        head + needs + " is missing"@
    } else {
        head + "it needs "@ + system.core@ + " in "@ + core_dir() + " and "@ + needs
    }
}

/// The launch script reads nine lines: name, core, system, two it ignores,
/// launcher, then the folder in two parts it joins, and the file.
pub open spec fn rom_text(name: Seq<char>, system: System, dir: Seq<char>, file: Seq<char>) -> Seq<char> {
    name + "\n"@ + system.core@ + "\n"@ + system.assign@ + "\n\n\n"@ + system.launcher@ + "\n"@ + dir
        + "\n\n"@ + file + "\n"@
}

/// What the launch script is given for a ROM, or why nothing can be.
pub open spec fn rom_words(name: Seq<char>, system: System, rom: Seq<char>) -> Result<
    Seq<char>,
    Seq<char>,
> {
    match (parent_of(rom), file_name_of(rom)) {
        (None, _) => Err("ROM path is not a directory path"@),
        (_, None) => Err("ROM path has no file name"@),
        (Some(dir), Some(file)) => Ok(rom_text(name, system, dir, file)),
    }
}

/// How a ROM is launched.
pub open spec fn is_rom_launch(
    launch: RomLaunch,
    name: Seq<char>,
    system: System,
    rom: Seq<char>,
    manifests: bool,
) -> bool {
    &&& text_of(launch.needs) == needed_file(system, manifests)
    &&& launch.missing@ == (match needed_file(system, manifests) {
        Some(path) => missing_words(system, manifests, path),
        None => Seq::empty(),
    })
    &&& match launch.text {
        Ok(text) => rom_words(name, system, rom) == Ok::<Seq<char>, Seq<char>>(text@),
        Err(why) => rom_words(name, system, rom) == Err::<Seq<char>, Seq<char>>(why@),
    }
}

fn script_text(name: &str, system: &System, rom: &str) -> (r: Result<String, &'static str>)
    ensures
        match r {
            Ok(text) => rom_words(name@, *system, rom@) == Ok::<Seq<char>, Seq<char>>(text@),
            Err(why) => rom_words(name@, *system, rom@) == Err::<Seq<char>, Seq<char>>(why@),
        },
{
    let dir = match parent(rom) {
        Some(dir) => dir,
        None => {
            return Err("ROM path is not a directory path");
        },
    };
    let file = match file_name(rom) {
        Some(file) => file,
        None => {
            return Err("ROM path has no file name");
        },
    };
    let mut text = joined3(name, "\n", system.core.as_str());
    text.append("\n");
    text.append(system.assign.as_str());
    text.append("\n\n\n");
    text.append(system.launcher.as_str());
    text.append("\n");
    text.append(dir.as_str());
    text.append("\n\n");
    text.append(file.as_str());
    text.append("\n");
    Ok(text)
}

fn plan_rom(name: &str, system: &System, rom: &str, manifests: bool) -> (r: RomLaunch)
    ensures
        is_rom_launch(r, name@, *system, rom@, manifests),
{
    let needs = if manifests {
        if ends(system.core.as_str(), ".so") {
            Some(join_path("/opt/muos/share/core", system.core.as_str()))
        } else {
            None
        }
    } else {
        Some(
            join_path(
                join_path("/opt/muos/share/info/assign", system.assign.as_str()).as_str(),
                joined(system.launcher.as_str(), ".ini").as_str(),
            ),
        )
    };
    let mut missing = String::new();
    if let Some(path) = &needs {
        missing = joined3("This muOS has no ", system.launcher.as_str(), " emulator for ");
        missing.append(system.assign.as_str());
        missing.append(": ");
        if manifests {
            missing.append(path.as_str());
            missing.append(" is missing");
        } else {
            missing.append("it needs ");
            missing.append(system.core.as_str());
            missing.append(" in ");
            missing.append("/opt/muos/share/core");
            missing.append(" and ");
            missing.append(path.as_str());
        }
    } else {
        assert(missing@ =~= Seq::empty());
    }
    RomLaunch { needs, missing, text: script_text(name, system, rom) }
}

/// LÖVE runs next to its binary, with the game as its first argument.
pub open spec fn is_love_launch(
    launch: LoveLaunch,
    love: Love,
    path: Seq<char>,
    args: Seq<Seq<char>>,
) -> bool {
    &&& launch.binary@ == love.binary@
    &&& launch.libs@ == love.libs@
    &&& launch.dir@ == (match parent_of(love.binary@) {
        Some(dir) => dir,
        None => "/"@,
    })
    &&& texts(launch.args@) == seq![path] + args
}

/// How a piece of content is launched: a ROM through the firmware's script, a LÖVE game through
/// the LÖVE binary.
pub open spec fn launches(
    firmware: Firmware,
    name: Seq<char>,
    content: Content,
    args: Seq<Seq<char>>,
    r: Result<Launch, String>,
) -> bool {
    match content {
        Content::Rom { path, system } => r matches Ok(Launch::Rom(launch)) && is_rom_launch(
            launch,
            name,
            system,
            path@,
            firmware.manifests,
        ),
        Content::Love { path } => match r {
            Ok(Launch::Love(launch)) => firmware.love is Some && is_love_launch(
                launch,
                firmware.love->0,
                path@,
                args,
            ),
            Ok(Launch::Rom(_)) => false,
            Err(why) => firmware.love is None && why@ == "no LÖVE on this device"@,
        },
    }
}

/// How a content is launched: the firmware's script for a ROM, LÖVE for its games. `name` is
/// what the firmware shows in its overlays and history; `args` are the
/// manifest action's, and apply where the runtime takes them.
pub fn launch(firmware: &Firmware, name: &str, content: &Content, args: &Vec<String>) -> (r: Result<
    Launch,
    String,
>)
    ensures
        launches(*firmware, name@, *content, texts(args@), r),
{
    match content {
        Content::Rom { path, system } => Ok(
            Launch::Rom(plan_rom(name, system, path.as_str(), firmware.manifests)),
        ),
        Content::Love { path } => {
            let love = match &firmware.love {
                Some(love) => love,
                None => {
                    return Err("no LÖVE on this device".to_owned());
                },
            };
            let dir = match parent(love.binary.as_str()) {
                Some(dir) => dir,
                None => "/".to_owned(),
            };
            let mut list: Vec<String> = Vec::new();
            list.push(path.clone());
            let ghost all = texts(args@);
            let mut i: usize = 0;
            assert(texts(list@) =~= seq![path@] + all.take(0));
            while i < args.len()
                invariant
                    i <= args@.len(),
                    all == texts(args@),
                    texts(list@) == seq![path@] + all.take(i as int),
                decreases args@.len() - i,
            {
                let ghost before = texts(list@);
                list.push(args[i].clone());
                assert(texts(list@) =~= before.push(all[i as int]));
                i += 1;
                assert(texts(list@) =~= seq![path@] + all.take(i as int));
            }
            assert(all.take(i as int) =~= all);
            Ok(
                Launch::Love(
                    LoveLaunch {
                        binary: love.binary.clone(),
                        libs: love.libs.clone(),
                        dir,
                        args: list,
                    },
                ),
            )
        },
    }
}

/// The governor to write: the one the firmware goes back to after content.
pub fn governor(read: Option<&str>) -> (r: String)
    ensures
        r@ == trim(
            match read {
                Some(text) => text@,
                None => "ondemand"@,
            },
        ),
{
    match read {
        Some(text) => trimmed(text),
        None => trimmed("ondemand"),
    }
}

/// The variables that a runtime is not to see: the app's own config and cache live next to its
/// binary, and an emulator that looked there would not find the firmware's button mappings.
pub fn hidden_variables() -> (r: Vec<&'static str>)
    ensures
        str_views(r@) == seq![
            "HOME"@,
            "XDG_CONFIG_HOME"@,
            "XDG_CACHE_HOME"@,
            "XDG_DATA_HOME"@,
        ],
{
    let r = vec!["HOME", "XDG_CONFIG_HOME", "XDG_CACHE_HOME", "XDG_DATA_HOME"];
    assert(str_views(r@) =~= seq![
        "HOME"@,
        "XDG_CONFIG_HOME"@,
        "XDG_CACHE_HOME"@,
        "XDG_DATA_HOME"@,
    ]);
    r
}

/// What a game's environment has besides: on muOS the shim for the screen, and a language where
/// none is set.
pub open spec fn added_env(firmware: Firmware, shim: Option<Seq<char>>, lang_set: bool) -> Seq<
    (Seq<char>, Seq<char>),
> {
    if firmware.script is None {
        Seq::empty()
    } else {
        (match shim {
            Some(path) => seq![("SDL_DYNAMIC_API"@, path)],
            None => Seq::empty(),
        }) + (if lang_set {
            Seq::empty()
        } else {
            seq![("LANG"@, "en_US.UTF-8"@)]
        })
    }
}

/// What the games butler launches need in their environment here: the
/// SDL shim, and a locale, which the firmware leaves unset and games
/// read without checking.
pub fn game_env(firmware: &Firmware, shim: Option<&str>, lang_set: bool) -> (r: Vec<
    (&'static str, String),
>)
    ensures
        r@.map_values(|e: (&'static str, String)| (e.0@, e.1@)) == added_env(
            *firmware,
            match shim {
                Some(path) => Some(path@),
                None => None,
            },
            lang_set,
        ),
{
    let mut r: Vec<(&'static str, String)> = Vec::new();
    if firmware.script.is_some() {
        if let Some(path) = shim {
            r.push(("SDL_DYNAMIC_API", path.to_owned()));
        }
        if !lang_set {
            r.push(("LANG", "en_US.UTF-8".to_owned()));
        }
    }
    proof {
        let views = r@.map_values(|e: (&'static str, String)| (e.0@, e.1@));
        let wanted = if firmware.script is None {
            Seq::empty()
        } else {
            (match shim {
                Some(path) => seq![("SDL_DYNAMIC_API"@, path@)],
                None => Seq::empty(),
            }) + (if lang_set {
                Seq::empty()
            } else {
                seq![("LANG"@, "en_US.UTF-8"@)]
            })
        };
        assert(views =~= wanted);
    }
    r
}

/// How the game's process is named to the panic combo: butler's, for a Linux
/// build it runs itself. Off the device nothing is.
pub fn foreground(firmware: &Firmware, pid: u32) -> (r: Option<String>)
    ensures
        text_of(r) == (if firmware.script is Some {
            Some(decimal(pid as nat))
        } else {
            None
        }),
{
    if firmware.script.is_some() {
        Some(number_text(pid as u64))
    } else {
        None
    }
}

/// How zitch is named again once a launch is over. RetroArch's launcher script
/// names itself and never puts the app back. The name is the binary's.
pub fn foreground_back(firmware: &Firmware, binary: Option<&str>) -> (r: Option<String>)
    ensures
        text_of(r) == (if firmware.script is Some {
            Some(
                match binary {
                    Some(name) => name@,
                    None => "zitch"@,
                },
            )
        } else {
            None
        }),
{
    if firmware.script.is_some() {
        Some(
            match binary {
                Some(name) => name.to_owned(),
                None => "zitch".to_owned(),
            },
        )
    } else {
        None
    }
}

/// What the script's end says. Its status is that of its last housekeeping line (a test
/// for a paired Discord PC that usually fails), not the emulator's, so
/// it only tells whether the script ran at all.
pub fn script_outcome(code: Option<i32>) -> (r: Result<(), &'static str>)
    ensures
        code is Some ==> r is Ok,
        code is None ==> (r matches Err(why) && why@
            == "/opt/muos/script/mux/launch.sh was killed by a signal"@),
{
    match code {
        Some(_) => Ok(()),
        None => Err("/opt/muos/script/mux/launch.sh was killed by a signal"),
    }
}

// ---------------------------------------------------------------------------
// The content that runs
// ---------------------------------------------------------------------------

/// The process group of the content running now, so a stop can end
/// it: the emulator is a grandchild behind the launch script, so a
/// group is the only handle on it. One game runs at a time.
#[derive(Debug, Clone, Copy, PartialEq, Eq, Structural)]
pub struct Running {
    pub group: Option<u32>,
    /// Set by [`stop`], cleared by [`begin`]. A stop can land while butler
    /// is still deciding what to run, before there is a group to signal;
    /// the spawn that follows checks it and ends the child at once.
    pub stopped: bool,
}

/// Marks the start of a launch, so a stop asked for during it counts.
pub fn begin(running: &mut Running)
    ensures
        *final(running) == (Running { stopped: false, ..*old(running) }),
{
    running.stopped = false;
}

/// Remembers the group of a child that was started. Says whether it is to be ended at once.
pub fn started(running: &mut Running, group: u32) -> (r: bool)
    ensures
        *final(running) == (Running { group: Some(group), ..*old(running) }),
        r == old(running).stopped,
{
    running.group = Some(group);
    running.stopped
}

/// Ends whatever is running, or is about to. Says which group to end.
pub fn stop(running: &mut Running) -> (r: Option<u32>)
    ensures
        *final(running) == (Running { stopped: true, ..*old(running) }),
        r == old(running).group,
{
    running.stopped = true;
    running.group
}

/// The content has exited.
pub fn ended(running: &mut Running)
    ensures
        *final(running) == (Running { group: None, ..*old(running) }),
{
    running.group = None;
}

/// What happens to the content that runs.
#[derive(Debug, Clone, Copy, PartialEq, Eq, Structural)]
pub enum Moment {
    Begin,
    Started(u32),
    Stop,
    Ended,
}

impl Running {
    /// The state after a moment.
    pub open spec fn after(self, moment: Moment) -> Running {
        match moment {
            Moment::Begin => Running { stopped: false, ..self },
            Moment::Started(group) => Running { group: Some(group), ..self },
            Moment::Stop => Running { stopped: true, ..self },
            Moment::Ended => Running { group: None, ..self },
        }
    }

    /// The group that a moment ends, if any: a stop ends what runs, and a start during a stop
    /// ends what it started.
    pub open spec fn ends(self, moment: Moment) -> Option<u32> {
        match moment {
            Moment::Stop => self.group,
            Moment::Started(group) if self.stopped => Some(group),
            _ => None,
        }
    }
}

/// A stop that is asked for during a launch ends its content, whether it comes before or
/// behind the start of it.
pub proof fn stops_end_the_content_either_way(before: Running, group: u32)
    ensures
        before.after(Moment::Begin).after(Moment::Stop).ends(Moment::Started(group)) == Some(group),
        before.after(Moment::Begin).after(Moment::Started(group)).ends(Moment::Stop) == Some(group),
        before.after(Moment::Begin).ends(Moment::Started(group)) is None,
        before.after(Moment::Begin).after(Moment::Started(group)).after(Moment::Ended).ends(
            Moment::Stop,
        ) is None,
{
}

// ---------------------------------------------------------------------------
// What holds of a handoff as a whole
// ---------------------------------------------------------------------------

/// A text that has no line break in it.
pub open spec fn is_line(s: Seq<char>) -> bool {
    !s.contains('\n')
}

proof fn lemma_line(a: Seq<char>, b: Seq<char>)
    requires
        is_line(b),
    ensures
        split(a + "\n"@ + b, '\n') == split(a, '\n').push(b),
    decreases b.len(),
{
    reveal_strlit("\n");
    let all = a + "\n"@ + b;
    if b.len() == 0 {
        assert(all =~= a.push('\n'));
        assert(a.push('\n').drop_last() =~= a);
        assert(b =~= Seq::empty());
    } else {
        let rest = b.drop_last();
        assert(is_line(rest)) by {
            if rest.contains('\n') {
                let k = choose|k: int| 0 <= k < rest.len() && rest[k] == '\n';
                assert(b[k] == '\n');
            }
        }
        lemma_line(a, rest);
        assert(all.drop_last() =~= a + "\n"@ + rest);
        assert(all.last() == b[b.len() - 1]);
        assert(b[b.len() - 1] != '\n');
        let before = split(a, '\n').push(rest);
        assert(before.drop_last() =~= split(a, '\n'));
        assert(rest.push(b.last()) =~= b);
    }
}

/// The firmware's script reads what to run line by line: the name, the core, the system, the
/// launcher in the sixth line, then the folder and, after an empty line, the file.
pub proof fn scripts_are_read_line_by_line(
    name: Seq<char>,
    system: System,
    dir: Seq<char>,
    file: Seq<char>,
)
    requires
        is_line(name) && is_line(system.core@) && is_line(system.assign@) && is_line(
            system.launcher@,
        ) && is_line(dir) && is_line(file),
    ensures
        split(rom_text(name, system, dir, file), '\n') == seq![
            name,
            system.core@,
            system.assign@,
            Seq::empty(),
            Seq::empty(),
            system.launcher@,
            dir,
            Seq::empty(),
            file,
            Seq::empty(),
        ],
{
    reveal_strlit("\n");
    reveal_strlit("\n\n");
    reveal_strlit("\n\n\n");
    let none = Seq::<char>::empty();
    let t1 = name + "\n"@ + system.core@;
    let t2 = t1 + "\n"@ + system.assign@;
    let t3 = t2 + "\n"@ + none;
    let t4 = t3 + "\n"@ + none;
    let t5 = t4 + "\n"@ + system.launcher@;
    let t6 = t5 + "\n"@ + dir;
    let t7 = t6 + "\n"@ + none;
    let t8 = t7 + "\n"@ + file;
    let t9 = t8 + "\n"@ + none;
    assert(rom_text(name, system, dir, file) =~= t9);
    crate::text::splitting_loses_nothing(name, '\n');
    let first = split(name, '\n');
    assert(crate::text::join(first, seq!['\n']) == first[0]);
    assert(first =~= seq![name]);
    assert(is_line(none));
    lemma_line(name, system.core@);
    lemma_line(t1, system.assign@);
    lemma_line(t2, none);
    lemma_line(t3, none);
    lemma_line(t4, system.launcher@);
    lemma_line(t5, dir);
    lemma_line(t6, none);
    lemma_line(t7, file);
    lemma_line(t8, none);
    assert(split(t9, '\n') =~= seq![
        name,
        system.core@,
        system.assign@,
        none,
        none,
        system.launcher@,
        dir,
        none,
        file,
        none,
    ]);
}

/// A ROM in a folder is handed over as that folder and its file.
pub proof fn roms_are_handed_over_by_folder_and_file(
    name: Seq<char>,
    system: System,
    dir: Seq<char>,
    file: Seq<char>,
)
    requires
        !file.contains('/'),
        file.len() > 0,
        file != "."@,
        file != ".."@,
        dir.len() > 0,
        split(dir, '/').last().len() > 0,
        split(dir, '/').last() != "."@,
    ensures
        rom_words(name, system, joined_path(dir, file)) == Ok::<Seq<char>, Seq<char>>(
            rom_text(name, system, dir, file),
        ),
{
    crate::paths::files_lie_in_their_folder(dir, file);
    crate::text::splitting_loses_nothing(dir, '/');
    assert(dir.last() != '/') by {
        if dir.last() == '/' {
            assert(split(dir, '/').last() =~= Seq::empty());
        }
    }
    crate::paths::files_keep_their_name_in_a_folder(dir, file);
}

/// A ROM goes to the script and a LÖVE game to LÖVE, where there is one: with the game first
/// and the arguments behind it.
pub proof fn content_goes_to_its_runtime(
    firmware: Firmware,
    name: Seq<char>,
    content: Content,
    args: Seq<Seq<char>>,
    r: Result<Launch, String>,
)
    requires
        launches(firmware, name, content, args, r),
    ensures
        content is Rom ==> (r matches Ok(Launch::Rom(_))),
        content matches Content::Rom { path, system } ==> (r matches Ok(Launch::Rom(launch)) && (
        launch.text matches Ok(text) ==> rom_words(name, system, path@) == Ok::<
            Seq<char>,
            Seq<char>,
        >(text@))),
        content matches Content::Love { path } ==> {
            &&& firmware.love is None ==> r is Err
            &&& firmware.love matches Some(love) ==> (r matches Ok(Launch::Love(launch)) && launch.binary@
                == love.binary@ && launch.libs@ == love.libs@ && launch.args@.len() == 1 + args.len()
                && launch.args@[0]@ == path@ && forall|i: int|
                0 <= i < args.len() ==> (#[trigger] launch.args@[i + 1])@ == args[i])
        },
{
    if let Content::Love { path } = content {
        if let Ok(Launch::Love(launch)) = r {
            let all = texts(launch.args@);
            assert(all == seq![path@] + args);
            assert(all[0] == launch.args@[0]@);
            assert forall|i: int| 0 <= i < args.len() implies (#[trigger] launch.args@[i + 1])@
                == args[i] by {
                assert(all[i + 1] == args[i]);
            }
        }
    }
}

/// What a launch needs to be there: on firmware with manifests the core's file, where it is one,
/// and elsewhere the launcher's ini in its system's folder.
pub proof fn launches_need_their_core(system: System)
    ensures
        needed_file(system, false) == Some(
            joined_path(
                joined_path("/opt/muos/share/info/assign"@, system.assign@),
                system.launcher@ + ".ini"@,
            ),
        ),
        ends_with(system.core@, ".so"@) ==> needed_file(system, true) == Some(
            joined_path("/opt/muos/share/core"@, system.core@),
        ),
        !ends_with(system.core@, ".so"@) ==> needed_file(system, true) is None,
{
}

/// Off the device a game's environment stays as it is; on it a language is set only where there
/// is none, and the shim only where there is one.
pub proof fn games_get_what_they_miss(firmware: Firmware, shim: Option<Seq<char>>, lang_set: bool)
    ensures
        firmware.script is None ==> added_env(firmware, shim, lang_set).len() == 0,
        firmware.script is Some ==> {
            let env = added_env(firmware, shim, lang_set);
            &&& shim matches Some(path) ==> env.contains(("SDL_DYNAMIC_API"@, path))
            &&& !lang_set ==> env.contains(("LANG"@, "en_US.UTF-8"@))
            &&& env.len() == (if shim is Some {
                1int
            } else {
                0
            }) + (if lang_set {
                0int
            } else {
                1
            })
        },
{
    let env = added_env(firmware, shim, lang_set);
    if firmware.script is Some {
        if let Some(path) = shim {
            assert(env[0] == ("SDL_DYNAMIC_API"@, path));
        }
        if !lang_set {
            assert(env[env.len() - 1] == ("LANG"@, "en_US.UTF-8"@));
        }
    }
}

/// A ROM's launch names the file that must be there, and a LÖVE game's runs in the folder of the
/// LÖVE binary.
pub proof fn launches_know_their_surroundings(
    firmware: Firmware,
    name: Seq<char>,
    content: Content,
    args: Seq<Seq<char>>,
    r: Result<Launch, String>,
)
    requires
        launches(firmware, name, content, args, r),
    ensures
        content matches Content::Rom { path, system } ==> (r matches Ok(Launch::Rom(launch))
            && text_of(launch.needs) == needed_file(system, firmware.manifests) && (
        needed_file(system, firmware.manifests) matches Some(file) ==> launch.missing@
            == missing_words(system, firmware.manifests, file))),
        content is Love ==> (r matches Ok(Launch::Love(launch)) ==> (parent_of(launch.binary@) matches Some(
            dir,
        ) ==> launch.dir@ == dir)),
{
}

/// What is missing is told with the emulator, the system and the file.
pub proof fn what_is_missing_is_named(system: System, needs: Seq<char>)
    ensures
        missing_words(system, true, needs) == "This muOS has no "@ + system.launcher@
            + " emulator for "@ + system.assign@ + ": "@ + needs + " is missing"@,
        missing_words(system, false, needs) == "This muOS has no "@ + system.launcher@
            + " emulator for "@ + system.assign@ + ": "@ + "it needs "@ + system.core@ + " in "@
            + "/opt/muos/share/core"@ + " and "@ + needs,
{
}

} // verus!
