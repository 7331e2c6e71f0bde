//! Games on muOS. The handheld firmware ships RetroArch with a core for
//! each system it knows (PICO-8 and TIC-80 carts among them), and we
//! ship a LÖVE runtime; most games there are a ROM, a cart or a `.love`.
//! butler's launch targets say which an install holds ([`content_for`]),
//! and this module says how to run them the way the firmware's own menu does: a ROM
//! or cart through its launch script and RetroArch, a `.love` through
//! the LÖVE binary. A Linux build is butler's to launch; [`native_blocker`] says
//! beforehand when one cannot reach the screen.
//!
//! What the firmware has is read once, into a [`Firmware`]; on any other system that is
//! [`Firmware::none`], and none of these paths is taken.
use vstd::prelude::*;
use vstd::string::*;
use crate::paths::{extension, extension_of, file_name, file_name_of};
use crate::table::Table;
use crate::text::{
    after_prefix, before_suffix, begins, contains, decimal, ends, ends_with, has_part, join,
    join_all, joined, joined3, lowercase, number, number_text, parse_number, same, split,
    numbers_read_back, split_at_each, splitting_loses_nothing, starts_with, strip_prefix, strip_suffix, text_of, texts, to_lowercase, trim,
    trimmed,
};

verus! {

// ---------------------------------------------------------------------------
// What butler reads out of an install
// ---------------------------------------------------------------------------

/// What kind of payload butler found.
#[derive(Debug, PartialEq, Eq)]
pub enum Flavor {
    Love,
    ROM,
    Pico8Cart,
    TIC80Cart,
    NativeLinux,
    /// Anything else, by its name.
    Other(String),
}

/// The engine a payload was made with.
#[derive(Debug, Clone, Copy, PartialEq, Eq, Structural)]
pub enum Engine {
    Love,
    ROM,
    Other,
}

#[derive(Debug, PartialEq, Eq)]
pub struct EngineInfo {
    pub engine: Engine,
    pub version: Option<String>,
    /// The system that a ROM is for, where its details name one.
    pub system: Option<String>,
}

#[derive(Debug, Clone, Copy, PartialEq, Eq, Structural)]
pub enum Arch {
    Arm64,
    Arm,
    Amd64,
    I386,
    Unknown,
}

/// What butler read out of a Linux executable.
#[derive(Debug, PartialEq, Eq)]
pub struct LinuxInfo {
    pub arch: Option<Arch>,
    pub glibc_version: Option<String>,
    /// The major version of the SDL that the build uses.
    pub sdl: Option<String>,
    pub sdl_bundled: Option<bool>,
    pub sdl_dynamic_api: Option<bool>,
    /// What the build draws through, where that is not SDL.
    pub display: Option<Vec<String>>,
}

impl Default for LinuxInfo {
    fn default() -> (r: Self)
        ensures
            r.arch is None && r.glibc_version is None && r.sdl is None,
            r.sdl_bundled is None && r.sdl_dynamic_api is None && r.display is None,
    {
        LinuxInfo {
            arch: None,
            glibc_version: None,
            sdl: None,
            sdl_bundled: None,
            sdl_dynamic_api: None,
            display: None,
        }
    }
}

/// A payload that could be launched.
#[derive(Debug, PartialEq, Eq)]
pub struct Candidate {
    /// Where it lies, below the install folder.
    pub path: String,
    pub flavor: Flavor,
    pub engine: Option<EngineInfo>,
    pub linux: Option<LinuxInfo>,
}

// ---------------------------------------------------------------------------
// Systems
// ---------------------------------------------------------------------------

/// An emulated system this firmware has an emulator for, from its assign
/// metadata. A user who reassigned a system in the menu is not followed,
/// since that assignment is per ROM folder.
#[derive(Debug, PartialEq, Eq)]
pub struct System {
    /// dash's id, e.g. `gba`.
    pub id: String,
    /// The firmware's name for the system: the folder of its assign metadata, or the key in
    /// the manifests.
    pub assign: String,
    /// The default launcher: the launcher ini's stem, or the core's key
    /// in the manifest.
    pub launcher: String,
    /// The core file the launcher loads.
    pub core: String,
    /// The system's display name.
    pub label: String,
}

impl Clone for System {
    fn clone(&self) -> (r: Self)
        ensures
            r == *self,
    {
        System {
            id: self.id.clone(),
            assign: self.assign.clone(),
            launcher: self.launcher.clone(),
            core: self.core.clone(),
            label: self.label.clone(),
        }
    }
}

/// A system as the texts it holds.
#[verifier::ext_equal]
pub struct SystemView {
    pub id: Seq<char>,
    pub assign: Seq<char>,
    pub launcher: Seq<char>,
    pub core: Seq<char>,
    pub label: Seq<char>,
}

impl View for System {
    type V = SystemView;

    open spec fn view(&self) -> SystemView {
        SystemView {
            id: self.id@,
            assign: self.assign@,
            launcher: self.launcher@,
            core: self.core@,
            label: self.label@,
        }
    }
}

/// Fantasy consoles: dash names their carts as payloads of their own,
/// the firmware assigns them like any system.
pub open spec fn pico8() -> Seq<char> {
    "pico8"@
}

pub open spec fn tic80() -> Seq<char> {
    "tic80"@
}

/// dash's ROM system ids: what `Launch.GetTargets` runtimes take and
/// what a ROM payload's details hold.
pub open spec fn rom_ids() -> Seq<Seq<char>> {
    seq![
        "nes"@,
        "snes"@,
        "gb"@,
        "gbc"@,
        "gba"@,
        "nds"@,
        "md"@,
        "32x"@,
        "sms"@,
        "gg"@,
        "pce"@,
        "lynx"@,
        "ngp"@,
        "a26"@,
        "c64"@,
        "amiga"@,
        "n64"@,
        "psx"@,
        "ps2"@,
        "psp"@,
        "saturn"@,
        "segacd"@,
        "dreamcast"@,
    ]
}

/// The systems that dash reads out of the headers of disc images.
pub open spec fn disc_ids() -> Seq<Seq<char>> {
    seq!["psx"@, "ps2"@, "psp"@, "saturn"@, "segacd"@, "dreamcast"@]
}

pub open spec fn str_views(list: Seq<&'static str>) -> Seq<Seq<char>> {
    list.map_values(|s: &'static str| s@)
}

pub(crate) fn list_rom_ids() -> (r: Vec<&'static str>)
    ensures
        str_views(r@) == rom_ids(),
{
    let mut r: Vec<&'static str> = Vec::new();
    r.push("nes");
    r.push("snes");
    r.push("gb");
    r.push("gbc");
    r.push("gba");
    r.push("nds");
    r.push("md");
    r.push("32x");
    r.push("sms");
    r.push("gg");
    r.push("pce");
    r.push("lynx");
    r.push("ngp");
    r.push("a26");
    r.push("c64");
    r.push("amiga");
    r.push("n64");
    r.push("psx");
    r.push("ps2");
    r.push("psp");
    r.push("saturn");
    r.push("segacd");
    r.push("dreamcast");
    assert(str_views(r@) =~= rom_ids());
    r
}

fn list_disc_ids() -> (r: Vec<&'static str>)
    ensures
        str_views(r@) == disc_ids(),
{
    let mut r: Vec<&'static str> = Vec::new();
    r.push("psx");
    r.push("ps2");
    r.push("psp");
    r.push("saturn");
    r.push("segacd");
    r.push("dreamcast");
    assert(str_views(r@) =~= disc_ids());
    r
}

/// dash ids that `assign.json` spells differently.
pub open spec fn assign_key_of(id: Seq<char>) -> Seq<char> {
    if id == "a26"@ {
        "a2600"@
    } else {
        id
    }
}

pub(crate) fn assign_key(id: &str) -> (r: &str)
    ensures
        r@ == assign_key_of(id@),
{
    if same(id, "a26") {
        "a2600"
    } else {
        id
    }
}

/// The dash id that an extension says a file is a ROM for. Only extensions dash
/// takes on the name alone; `.bin`, `.cue`, `.iso` and `.chd` need a
/// header and would match too much here.
pub open spec fn id_of_extension(ext: Seq<char>) -> Option<Seq<char>> {
    if ext == "nes"@ {
        Some("nes"@)
    } else if ext == "sfc"@ || ext == "smc"@ {
        Some("snes"@)
    } else if ext == "gb"@ {
        Some("gb"@)
    } else if ext == "gbc"@ {
        Some("gbc"@)
    } else if ext == "gba"@ {
        Some("gba"@)
    } else if ext == "md"@ || ext == "gen"@ {
        Some("md"@)
    } else if ext == "32x"@ {
        Some("32x"@)
    } else if ext == "sms"@ {
        Some("sms"@)
    } else if ext == "gg"@ {
        Some("gg"@)
    } else if ext == "pce"@ {
        Some("pce"@)
    } else if ext == "lnx"@ {
        Some("lynx"@)
    } else if ext == "ngp"@ || ext == "ngc"@ {
        Some("ngp"@)
    } else if ext == "a26"@ {
        Some("a26"@)
    } else if ext == "d64"@ || ext == "prg"@ || ext == "t64"@ || ext == "crt"@ {
        Some("c64"@)
    } else if ext == "adf"@ || ext == "hdf"@ {
        Some("amiga"@)
    } else if ext == "z64"@ || ext == "n64"@ || ext == "v64"@ {
        Some("n64"@)
    } else if ext == "p8"@ {
        Some(pico8())
    } else if ext == "tic"@ {
        Some(tic80())
    } else {
        None
    }
}

fn id_for_extension(ext: &str) -> (r: Option<&'static str>)
    ensures
        r matches Some(id) ==> id_of_extension(ext@) == Some(id@),
        r is None ==> id_of_extension(ext@) is None,
{
    if same(ext, "nes") {
        Some("nes")
    } else if same(ext, "sfc") || same(ext, "smc") {
        Some("snes")
    } else if same(ext, "gb") {
        Some("gb")
    } else if same(ext, "gbc") {
        Some("gbc")
    } else if same(ext, "gba") {
        Some("gba")
    } else if same(ext, "md") || same(ext, "gen") {
        Some("md")
    } else if same(ext, "32x") {
        Some("32x")
    } else if same(ext, "sms") {
        Some("sms")
    } else if same(ext, "gg") {
        Some("gg")
    } else if same(ext, "pce") {
        Some("pce")
    } else if same(ext, "lnx") {
        Some("lynx")
    } else if same(ext, "ngp") || same(ext, "ngc") {
        Some("ngp")
    } else if same(ext, "a26") {
        Some("a26")
    } else if same(ext, "d64") || same(ext, "prg") || same(ext, "t64") || same(ext, "crt") {
        Some("c64")
    } else if same(ext, "adf") || same(ext, "hdf") {
        Some("amiga")
    } else if same(ext, "z64") || same(ext, "n64") || same(ext, "v64") {
        Some("n64")
    } else if same(ext, "p8") {
        Some("pico8")
    } else if same(ext, "tic") {
        Some("tic80")
    } else {
        None
    }
}

/// The dash id a file's name says it is a ROM for.
pub open spec fn id_of_file(path: Seq<char>) -> Option<Seq<char>> {
    match file_name_of(path) {
        Some(name) => if ends_with(lowercase(name), ".p8.png"@) {
            Some(pico8())
        } else {
            match extension_of(path) {
                Some(ext) => id_of_extension(lowercase(ext)),
                None => None,
            }
        },
        None => None,
    }
}

/// The dash id a file's name says it is a ROM for.
pub fn id_for_file(path: &str) -> (r: Option<&'static str>)
    ensures
        r matches Some(id) ==> id_of_file(path@) == Some(id@),
        r is None ==> id_of_file(path@) is None,
{
    match file_name(path) {
        Some(name) => {
            if ends(to_lowercase(name.as_str()).as_str(), ".p8.png") {
                return Some("pico8");
            }
            match extension(path) {
                Some(ext) => id_for_extension(to_lowercase(ext.as_str()).as_str()),
                None => None,
            }
        },
        None => None,
    }
}

/// A disc image: its system stands in its header. `.bin` is not one: it needs its `.cue`, and
/// alone it matches far too much.
pub open spec fn names_disc(path: Seq<char>) -> bool {
    match extension_of(path) {
        Some(ext) => lowercase(ext) == "cue"@ || lowercase(ext) == "iso"@ || lowercase(ext)
            == "chd"@,
        None => false,
    }
}

pub fn is_disc_image(path: &str) -> (r: bool)
    ensures
        r == names_disc(path@),
{
    match extension(path) {
        Some(ext) => {
            let ext = to_lowercase(ext.as_str());
            same(ext.as_str(), "cue") || same(ext.as_str(), "iso") || same(ext.as_str(), "chd")
        },
        None => false,
    }
}

// ---------------------------------------------------------------------------
// The firmware
// ---------------------------------------------------------------------------

/// A LÖVE runtime.
#[derive(Debug, PartialEq, Eq)]
pub struct Love {
    pub binary: String,
    pub libs: String,
    pub version: String,
}

/// What the firmware has.
pub struct Firmware {
    /// The text of its launch script; none off the device.
    pub script: Option<String>,
    /// Every system that resolves here, by dash id.
    pub systems: Table<System>,
    pub love: Option<Love>,
    /// The systems stand in manifests, as on Andromeda, and not in assign folders.
    pub manifests: bool,
    /// The C library's version.
    pub glibc: (u32, u32),
}

impl Firmware {
    /// What a system without the firmware has.
    pub fn none() -> (r: Self)
        ensures
            r.script is None && r.love is None && !r.manifests,
            r.systems@ == Map::<Seq<char>, System>::empty(),
            r.glibc == (2u32, 38u32),
    {
        Firmware {
            script: None,
            systems: Table::new(),
            love: None,
            manifests: false,
            glibc: (2, 38),
        }
    }

    /// The system dash's id names, if this firmware has one.
    pub open spec fn system_for(&self, id: Seq<char>) -> Option<System> {
        if self.systems@.contains_key(id) {
            Some(self.systems@[id])
        } else {
            None
        }
    }

    /// The system a file is a ROM for, by extension, if it runs here.
    pub open spec fn file_system(&self, path: Seq<char>) -> Option<System> {
        match id_of_file(path) {
            Some(id) => self.system_for(id),
            None => None,
        }
    }
}

impl System {
    /// The system dash's `id` names, if this firmware has one.
    pub fn for_id<'a>(firmware: &'a Firmware, id: &str) -> (r: Option<&'a System>)
        ensures
            r matches Some(system) ==> firmware.system_for(id@) == Some(*system),
            r is None ==> firmware.system_for(id@) is None,
    {
        firmware.systems.get(id)
    }

    /// The system a file is a ROM for, by extension, if it runs here.
    pub fn for_file<'a>(firmware: &'a Firmware, path: &str) -> (r: Option<&'a System>)
        ensures
            r matches Some(system) ==> firmware.file_system(path@) == Some(*system),
            r is None ==> firmware.file_system(path@) is None,
    {
        match id_for_file(path) {
            Some(id) => System::for_id(firmware, id),
            None => None,
        }
    }
}

/// Whether this is a muOS device: its launch script is present.
pub fn available(firmware: &Firmware) -> (r: bool)
    ensures
        r == (firmware.script is Some),
{
    firmware.script.is_some()
}

/// The firmware releases whose launch handoff differs.
#[derive(Debug, Clone, Copy, PartialEq, Eq, Structural)]
pub enum Release {
    Jacaranda,
    Andromeda,
}

impl Release {
    pub fn name(self) -> (r: &'static str)
        ensures
            r@ == (match self {
                Release::Jacaranda => "jacaranda"@,
                Release::Andromeda => "andromeda"@,
            }),
    {
        match self {
            Release::Jacaranda => "jacaranda",
            Release::Andromeda => "andromeda",
        }
    }
}

/// The launch script names its own files, and only Jacaranda's spells out /tmp/rom_go.
pub open spec fn release_of(script: Option<Seq<char>>) -> Release {
    match script {
        Some(script) if has_part(script, "/tmp/rom_go"@) => Release::Jacaranda,
        _ => Release::Andromeda,
    }
}

/// Which release this is. /run/muos exists on Jacaranda too, so the
/// directory says nothing.
pub fn release(firmware: &Firmware) -> (r: Release)
    ensures
        r == release_of(text_of(firmware.script)),
{
    match &firmware.script {
        Some(script) => if contains(script.as_str(), "/tmp/rom_go") {
            Release::Jacaranda
        } else {
            Release::Andromeda
        },
        None => Release::Andromeda,
    }
}

/// The hardware model the firmware was built for, e.g. `rg35xx-h`, out of the file that holds
/// it.
pub fn board(text: Option<&str>) -> (r: Option<String>)
    ensures
        text_of(r) == (match text {
            Some(text) if trim(text@).len() > 0 => Some(trim(text@)),
            _ => None,
        }),
{
    match text {
        Some(text) => {
            let name = trimmed(text);
            if name.as_str().is_empty() {
                None
            } else {
                Some(name)
            }
        },
        None => None,
    }
}

/// The version out of `liblove-<version>.so`, which is how the firmware
/// names it and the only place the runtime says what it is.
pub open spec fn version_in(name: Seq<char>) -> Option<Seq<char>> {
    match after_prefix(name, "liblove-"@) {
        Some(rest) => before_suffix(rest, ".so"@),
        None => None,
    }
}

/// The first version that the names of a folder's files tell.
pub open spec fn first_version(names: Seq<Seq<char>>) -> Option<Seq<char>>
    decreases names.len(),
{
    if names.len() == 0 {
        None
    } else if version_in(names[0]) is Some {
        version_in(names[0])
    } else {
        first_version(names.skip(1))
    }
}

/// The version of the LÖVE whose libraries have these names.
pub fn liblove_version(names: &Vec<String>) -> (r: Option<String>)
    ensures
        text_of(r) == first_version(texts(names@)),
{
    let ghost all = texts(names@);
    let mut i: usize = 0;
    assert(all.skip(0) =~= all);
    while i < names.len()
        invariant
            i <= names@.len(),
            all == texts(names@),
            first_version(all.skip(i as int)) == first_version(all),
        decreases names@.len() - i,
    {
        assert(all.skip(i as int).skip(1) =~= all.skip(i + 1));
        assert(all.skip(i as int)[0] == names@[i as int]@);
        if let Some(rest) = strip_prefix(names[i].as_str(), "liblove-") {
            if let Some(version) = strip_suffix(rest.as_str(), ".so") {
                return Some(version);
            }
        }
        i += 1;
    }
    None
}

// ---------------------------------------------------------------------------
// What runs here
// ---------------------------------------------------------------------------

/// Something in an install folder the firmware can run.
#[derive(Debug, PartialEq, Eq)]
pub enum Content {
    /// A file RetroArch plays with the system's core; fantasy console
    /// carts count.
    Rom {
        path: String,
        system: System,
    },
    /// A `.love` file, or a folder with `main.lua` at its root.
    Love {
        path: String,
    },
}

/// Whether a file is a LÖVE game, by name.
pub open spec fn names_love(path: Seq<char>) -> bool {
    match extension_of(path) {
        Some(ext) => lowercase(ext) == "love"@,
        None => false,
    }
}

/// Content that is a file of that path: a LÖVE game, or a ROM of a system.
pub open spec fn is_content(content: Content, path: Seq<char>, system: Option<System>) -> bool {
    match (content, system) {
        (Content::Love { path: p }, None) => p@ == path,
        (Content::Rom { path: p, system: s }, Some(system)) => p@ == path && s == system,
        _ => false,
    }
}

impl Content {
    /// What a file is, by name, if the firmware can run it.
    pub fn for_file(firmware: &Firmware, path: &str) -> (r: Option<Content>)
        ensures
            match r {
                Some(content) => if names_love(path@) {
                    is_content(content, path@, None)
                } else {
                    firmware.file_system(path@) is Some && is_content(
                        content,
                        path@,
                        firmware.file_system(path@),
                    )
                },
                None => !names_love(path@) && firmware.file_system(path@) is None,
            },
    {
        match extension(path) {
            Some(ext) => {
                if same(to_lowercase(ext.as_str()).as_str(), "love") {
                    return Some(Content::Love { path: path.to_owned() });
                }
            },
            None => {},
        }
        match System::for_file(firmware, path) {
            Some(system) => Some(
                Content::Rom { path: path.to_owned(), system: system.clone() },
            ),
            None => None,
        }
    }

    pub fn label(&self) -> (r: &str)
        ensures
            r@ == (match self {
                Content::Rom { system, .. } => system.label@,
                Content::Love { .. } => "LÖVE"@,
            }),
    {
        match self {
            Content::Rom { system, .. } => system.label.as_str(),
            Content::Love { .. } => "LÖVE",
        }
    }

    pub fn path(&self) -> (r: &str)
        ensures
            r@ == (match self {
                Content::Rom { path, .. } => path@,
                Content::Love { path } => path@,
            }),
    {
        match self {
            Content::Rom { path, .. } => path.as_str(),
            Content::Love { path } => path.as_str(),
        }
    }
}

impl Firmware {
    /// Any disc system is here.
    pub open spec fn has_disc_system(&self) -> bool {
        exists|i: int|
            0 <= i < disc_ids().len() && self.system_for(#[trigger] disc_ids()[i]) is Some
    }

    /// Whether the firmware can run a file with this name.
    pub open spec fn runs(&self, path: Seq<char>) -> bool {
        names_love(path) || self.file_system(path) is Some || (names_disc(path)
            && self.has_disc_system())
    }
}

/// Whether the firmware can run a file with this name. Used before an
/// install, when the name is all there is; once installed, butler's
/// targets decide ([`content_for`]).
pub fn runs_here(firmware: &Firmware, path: &str) -> (r: bool)
    ensures
        r == firmware.runs(path@),
{
    Content::for_file(firmware, path).is_some() || disc_runs_here(firmware, path)
}

/// A disc image names its system in its header, which butler only reads
/// once the game is installed, so before that any disc system being here
/// has to do.
pub fn disc_runs_here(firmware: &Firmware, path: &str) -> (r: bool)
    ensures
        r == (names_disc(path@) && firmware.has_disc_system()),
{
    if !is_disc_image(path) {
        return false;
    }
    let ids = list_disc_ids();
    let mut i: usize = 0;
    while i < ids.len()
        invariant
            i <= ids@.len(),
            names_disc(path@),
            str_views(ids@) == disc_ids(),
            forall|k: int| 0 <= k < i ==> firmware.system_for(#[trigger] disc_ids()[k]) is None,
        decreases ids@.len() - i,
    {
        assert(disc_ids()[i as int] == ids@[i as int]@);
        if System::for_id(firmware, ids[i]).is_some() {
            assert(firmware.system_for(disc_ids()[i as int]) is Some);
            return true;
        }
        i += 1;
    }
    assert(disc_ids().len() == ids@.len());
    false
}

impl Firmware {
    /// The ROM systems among these that resolve here, in dash's words.
    pub open spec fn rom_runtimes(&self, ids: Seq<Seq<char>>) -> Seq<Seq<char>>
        decreases ids.len(),
    {
        if ids.len() == 0 {
            Seq::empty()
        } else {
            let before = self.rom_runtimes(ids.drop_last());
            if self.system_for(ids.last()) is Some {
                before.push("rom:"@ + ids.last())
            } else {
                before
            }
        }
    }

    /// The payload flavors the firmware has runtimes for, in dash's words.
    pub open spec fn all_runtimes(&self) -> Seq<Seq<char>> {
        (if self.love is Some {
            seq!["love"@]
        } else {
            Seq::empty()
        }) + (if self.system_for(pico8()) is Some {
            seq!["pico8-cart"@]
        } else {
            Seq::empty()
        }) + (if self.system_for(tic80()) is Some {
            seq!["tic80-cart"@]
        } else {
            Seq::empty()
        }) + self.rom_runtimes(rom_ids())
    }
}

/// The payload flavors the firmware has runtimes for, in dash's words,
/// for `Launch.GetTargets`.
pub fn runtimes(firmware: &Firmware) -> (r: Vec<String>)
    ensures
        texts(r@) == firmware.all_runtimes(),
{
    let mut r: Vec<String> = Vec::new();
    if firmware.love.is_some() {
        r.push("love".to_owned());
    }
    if System::for_id(firmware, "pico8").is_some() {
        r.push("pico8-cart".to_owned());
    }
    if System::for_id(firmware, "tic80").is_some() {
        r.push("tic80-cart".to_owned());
    }
    let ghost head = texts(r@);
    assert(head + firmware.rom_runtimes(rom_ids()) =~= firmware.all_runtimes());
    let ids = list_rom_ids();
    let ghost all = rom_ids();
    let mut i: usize = 0;
    assert(all.take(0) =~= Seq::empty());
    assert(texts(r@) =~= head + firmware.rom_runtimes(all.take(0)));
    while i < ids.len()
        invariant
            i <= ids@.len(),
            all == rom_ids(),
            str_views(ids@) == all,
            texts(r@) == head + firmware.rom_runtimes(all.take(i as int)),
        decreases ids@.len() - i,
    {
        assert(all.take(i + 1).drop_last() =~= all.take(i as int));
        assert(all[i as int] == ids@[i as int]@);
        let ghost before = texts(r@);
        if System::for_id(firmware, ids[i]).is_some() {
            let word = joined("rom:", ids[i]);
            let ghost view = word@;
            r.push(word);
            assert(texts(r@) =~= before.push(view));
            assert(texts(r@) =~= head + firmware.rom_runtimes(all.take(i + 1)));
        }
        i += 1;
    }
    assert(all.len() == ids@.len());
    assert(all.take(i as int) =~= all);
    r
}

/// Why a game cannot run on the LÖVE that is here. The 0.x series is a
/// different API, so 11.x will not load those at all.
pub fn love_blocker(wanted: &str, have: &str) -> (r: Option<String>)
    ensures
        text_of(r) == love_complaint(wanted@, have@),
{
    if begins(wanted, "0.") {
        let mut words = joined3("made for LÖVE ", wanted, "; this device has LÖVE ");
        words.append(have);
        Some(words)
    } else {
        None
    }
}

pub open spec fn love_complaint(wanted: Seq<char>, have: Seq<char>) -> Option<Seq<char>> {
    if starts_with(wanted, "0."@) {
        Some("made for LÖVE "@ + wanted + "; this device has LÖVE "@ + have)
    } else {
        None
    }
}

/// The name of a flavor that the firmware has no runtime for.
pub open spec fn flavor_name(flavor: Flavor) -> Seq<char> {
    match flavor {
        Flavor::Love => "Love"@,
        Flavor::ROM => "ROM"@,
        Flavor::Pico8Cart => "Pico8Cart"@,
        Flavor::TIC80Cart => "TIC80Cart"@,
        Flavor::NativeLinux => "NativeLinux"@,
        Flavor::Other(name) => name@,
    }
}

/// The engine version that a payload wants.
pub open spec fn wanted_version(candidate: Candidate) -> Seq<char> {
    match candidate.engine {
        Some(engine) => match engine.version {
            Some(version) => version@,
            None => ""@,
        },
        None => ""@,
    }
}

/// The system that a ROM payload names; empty where it names none.
pub open spec fn named_system(candidate: Candidate) -> Seq<char> {
    match candidate.engine {
        Some(engine) if engine.engine == Engine::ROM => match engine.system {
            Some(system) => system@,
            None => ""@,
        },
        _ => ""@,
    }
}

impl Firmware {
    /// What runs a payload of a system, or why none does.
    pub open spec fn emulator(&self, id: Seq<char>) -> Result<Option<System>, Seq<char>> {
        if id.len() == 0 {
            // dash leaves the system empty for a disc image it could not read.
            Err("could not tell which system this is for"@)
        } else {
            match self.system_for(id) {
                Some(system) => Ok(Some(system)),
                None => Err("no emulator for "@ + id + " on this device"@),
            }
        }
    }

    /// What runs a payload: LÖVE or a system's emulator; or why nothing does.
    pub open spec fn verdict(&self, candidate: Candidate) -> Result<Option<System>, Seq<char>> {
        match candidate.flavor {
            Flavor::Love => match self.love {
                None => Err("this device has no LÖVE"@),
                Some(love) => match love_complaint(wanted_version(candidate), love.version@) {
                    Some(why) => Err(why),
                    None => Ok(None),
                },
            },
            Flavor::ROM => self.emulator(named_system(candidate)),
            Flavor::Pico8Cart => self.emulator(pico8()),
            Flavor::TIC80Cart => self.emulator(tic80()),
            other => Err("no runtime for "@ + flavor_name(other) + " on this device"@),
        }
    }
}

fn rom_content(firmware: &Firmware, id: &str, path: String) -> (r: Result<Content, String>)
    ensures
        match r {
            Ok(content) => firmware.emulator(id@) matches Ok(system) && is_content(
                content,
                path@,
                system,
            ),
            Err(why) => firmware.emulator(id@) == Err::<Option<System>, Seq<char>>(why@),
        },
{
    if id.is_empty() {
        return Err("could not tell which system this is for".to_owned());
    }
    match System::for_id(firmware, id) {
        Some(system) => Ok(Content::Rom { path, system: system.clone() }),
        None => Err(joined3("no emulator for ", id, " on this device")),
    }
}

/// What a payload butler hands us is here, or why this one cannot run
/// even though the firmware was said to run its kind.
pub fn content_for(firmware: &Firmware, candidate: &Candidate, path: String) -> (r: Result<
    Content,
    String,
>)
    ensures
        match r {
            Ok(content) => firmware.verdict(*candidate) matches Ok(system) && is_content(
                content,
                path@,
                system,
            ),
            Err(why) => firmware.verdict(*candidate) == Err::<Option<System>, Seq<char>>(why@),
        },
{
    proof {
        reveal_strlit("pico8");
        reveal_strlit("tic80");
    }
    match &candidate.flavor {
        Flavor::Love => {
            let love = match &firmware.love {
                Some(love) => love,
                None => {
                    return Err("this device has no LÖVE".to_owned());
                },
            };
            let wanted = match &candidate.engine {
                Some(engine) => match &engine.version {
                    Some(version) => version.as_str(),
                    None => "",
                },
                None => "",
            };
            match love_blocker(wanted, love.version.as_str()) {
                Some(why) => Err(why),
                None => Ok(Content::Love { path }),
            }
        },
        Flavor::ROM => {
            let mut id = "";
            if let Some(engine) = &candidate.engine {
                if engine.engine == Engine::ROM {
                    if let Some(system) = &engine.system {
                        id = system.as_str();
                    }
                }
            }
            rom_content(firmware, id, path)
        },
        Flavor::Pico8Cart => rom_content(firmware, "pico8", path),
        Flavor::TIC80Cart => rom_content(firmware, "tic80", path),
        Flavor::NativeLinux => Err(
            joined3("no runtime for ", "NativeLinux", " on this device"),
        ),
        Flavor::Other(name) => Err(joined3("no runtime for ", name.as_str(), " on this device")),
    }
}

// ---------------------------------------------------------------------------
// Linux builds
// ---------------------------------------------------------------------------

/// The first two numbers of a version; the second is 0 where it has only one.
pub open spec fn version_of(version: Seq<char>) -> Option<(nat, nat)> {
    let parts = split(version, '.');
    let max = u32::MAX as nat;
    match (number(parts[0], max), number(
        if parts.len() > 1 {
            parts[1]
        } else {
            "0"@
        },
        max,
    )) {
        (Some(major), Some(minor)) => Some((major, minor)),
        _ => None,
    }
}

pub fn parse_version(version: &str) -> (r: Option<(u32, u32)>)
    ensures
        r matches Some(v) ==> version_of(version@) == Some((v.0 as nat, v.1 as nat)),
        r is None ==> version_of(version@) is None,
{
    let parts = split_at_each(version, '.');
    assert(texts(parts@)[0] == parts@[0]@);
    let major = parse_number(parts[0].as_str(), u32::MAX as u64);
    let minor = if parts.len() > 1 {
        assert(texts(parts@)[1] == parts@[1]@);
        parse_number(parts[1].as_str(), u32::MAX as u64)
    } else {
        parse_number("0", u32::MAX as u64)
    };
    match (major, minor) {
        (Some(major), Some(minor)) => Some((major as u32, minor as u32)),
        _ => None,
    }
}

/// The C library's version as the host reports it; what Jacaranda ships is assumed when that
/// cannot be read.
pub fn glibc_version(reported: Option<&str>) -> (r: (u32, u32))
    ensures
        match reported {
            Some(text) => match version_of(text@) {
                Some(v) => v == (r.0 as nat, r.1 as nat),
                None => r == (2u32, 38u32),
            },
            None => r == (2u32, 38u32),
        },
{
    match reported {
        Some(text) => match parse_version(text) {
            Some(version) => version,
            None => (2, 38),
        },
        None => (2, 38),
    }
}

/// Whether a version is newer than another.
pub open spec fn newer(a: (nat, nat), b: (nat, nat)) -> bool {
    a.0 > b.0 || (a.0 == b.0 && a.1 > b.1)
}

/// What is wrong with the architecture of a build.
pub open spec fn arch_complaint(arch: Option<Arch>) -> Option<Seq<char>> {
    match arch {
        Some(Arch::Arm64) | None => None,
        Some(Arch::Arm) => Some("is a 32-bit ARM build; this device runs 64-bit only"@),
        Some(_) => Some("is not an ARM build"@),
    }
}

/// What is wrong with the C library that a build wants.
pub open spec fn glibc_complaint(wanted: Option<String>, glibc: (u32, u32)) -> Option<Seq<char>> {
    match wanted {
        Some(version) => match version_of(version@) {
            Some(needed) if newer(needed, (glibc.0 as nat, glibc.1 as nat)) => Some(
                "needs glibc "@ + version@ + "; this device has "@ + decimal(glibc.0 as nat) + "."@
                    + decimal(glibc.1 as nat),
            ),
            _ => None,
        },
        None => None,
    }
}

/// What is wrong with how a build draws.
pub open spec fn screen_complaint(info: LinuxInfo) -> Option<Seq<char>> {
    match info.sdl {
        Some(sdl) => if sdl@ == "2"@ {
            if info.sdl_bundled == Some(true) && info.sdl_dynamic_api != Some(true) {
                Some(
                    "has its own SDL2 built in without the dynamic API, so it cannot reach this device's screen"@,
                )
            } else {
                None
            }
        } else {
            Some("uses SDL"@ + sdl@ + ", which cannot reach this device's screen yet"@)
        },
        None => match info.display {
            Some(display) if display@.len() > 0 => Some(
                "draws through "@ + join(texts(display@), ", "@)
                    + " rather than SDL2, which this device does not have"@,
            ),
            _ => None,
        },
    }
}

/// Why a Linux build cannot run here: its architecture, its C library, or the screen.
pub open spec fn complaint(info: LinuxInfo, glibc: (u32, u32)) -> Option<Seq<char>> {
    match arch_complaint(info.arch) {
        Some(why) => Some(why),
        None => match glibc_complaint(info.glibc_version, glibc) {
            Some(why) => Some(why),
            None => screen_complaint(info),
        },
    }
}

/// Why a Linux build cannot run here, from what butler read out of its
/// executable, or `None` when nothing says it cannot. The screen is the
/// usual problem: only the firmware's SDL2 can open it, so a build must
/// link that, or bundle an SDL2 the shim can redirect there. butler
/// keeps 32-bit ARM builds as a fallback for arm64 hosts, which this
/// firmware cannot honour: it has no 32-bit loader or libraries.
pub fn native_blocker(firmware: &Firmware, info: &LinuxInfo) -> (r: Option<String>)
    ensures
        text_of(r) == complaint(*info, firmware.glibc),
{
    blocker(info, firmware.glibc)
}

fn screen_blocker(info: &LinuxInfo) -> (r: Option<String>)
    ensures
        text_of(r) == screen_complaint(*info),
{
    match &info.sdl {
        Some(sdl) => {
            if !same(sdl.as_str(), "2") {
                return Some(
                    joined3(
                        "uses SDL",
                        sdl.as_str(),
                        ", which cannot reach this device's screen yet",
                    ),
                );
            }
            let bundled = match info.sdl_bundled {
                Some(yes) => yes,
                None => false,
            };
            let dynamic_api = match info.sdl_dynamic_api {
                Some(yes) => yes,
                None => false,
            };
            if bundled && !dynamic_api {
                Some(
                    "has its own SDL2 built in without the dynamic API, so it cannot reach this device's screen".to_owned(),
                )
            } else {
                None
            }
        },
        None => match &info.display {
            Some(display) => if display.len() == 0 {
                None
            } else {
                Some(
                    joined3(
                        "draws through ",
                        join_all(display, ", ").as_str(),
                        " rather than SDL2, which this device does not have",
                    ),
                )
            },
            None => None,
        },
    }
}

pub fn blocker(info: &LinuxInfo, glibc: (u32, u32)) -> (r: Option<String>)
    ensures
        text_of(r) == complaint(*info, glibc),
{
    match info.arch {
        Some(Arch::Arm64) | None => {},
        Some(Arch::Arm) => {
            return Some("is a 32-bit ARM build; this device runs 64-bit only".to_owned());
        },
        Some(_) => {
            return Some("is not an ARM build".to_owned());
        },
    }
    if let Some(version) = &info.glibc_version {
        if let Some(needed) = parse_version(version.as_str()) {
            if needed.0 > glibc.0 || (needed.0 == glibc.0 && needed.1 > glibc.1) {
                let mut words = joined3("needs glibc ", version.as_str(), "; this device has ");
                words.append(number_text(glibc.0 as u64).as_str());
                words.append(".");
                words.append(number_text(glibc.1 as u64).as_str());
                return Some(words);
            }
        }
    }
    screen_blocker(info)
}

// ---------------------------------------------------------------------------
// What holds of the firmware as a whole
// ---------------------------------------------------------------------------

/// A LÖVE game runs where there is a LÖVE and it was not made for a version before the first;
/// a ROM where the firmware has the system it names; a cart where it has that cart's system.
/// Nothing else is run by the firmware.
pub proof fn payloads_run_where_their_runtime_is(firmware: Firmware, candidate: Candidate)
    ensures
        candidate.flavor is Love ==> (firmware.verdict(candidate) is Ok <==> firmware.love is Some
            && !(candidate.engine matches Some(engine) && (engine.version matches Some(version)
            && starts_with(version@, "0."@)))),
        candidate.flavor is Love && firmware.verdict(candidate) is Ok ==> firmware.verdict(candidate)
            == Ok::<Option<System>, Seq<char>>(None),
        candidate.flavor is ROM ==> (candidate.engine matches Some(engine) && engine.engine
            == Engine::ROM && (engine.system matches Some(id) && id@.len() > 0
            && firmware.systems@.contains_key(id@)) ==> firmware.verdict(candidate) == Ok::<
            Option<System>,
            Seq<char>,
        >(Some(firmware.systems@[candidate.engine->0.system->0@]))),
        candidate.flavor is ROM && firmware.verdict(candidate) is Ok ==> (
        candidate.engine matches Some(engine) && engine.engine == Engine::ROM && (
        engine.system matches Some(id) && firmware.systems@.contains_key(id@))),
        candidate.flavor is Pico8Cart ==> (firmware.verdict(candidate) is Ok
            <==> firmware.systems@.contains_key("pico8"@)),
        candidate.flavor is TIC80Cart ==> (firmware.verdict(candidate) is Ok
            <==> firmware.systems@.contains_key("tic80"@)),
        candidate.flavor is Pico8Cart && firmware.systems@.contains_key("pico8"@)
            ==> firmware.verdict(candidate) == Ok::<Option<System>, Seq<char>>(
            Some(firmware.systems@["pico8"@]),
        ),
        candidate.flavor is TIC80Cart && firmware.systems@.contains_key("tic80"@)
            ==> firmware.verdict(candidate) == Ok::<Option<System>, Seq<char>>(
            Some(firmware.systems@["tic80"@]),
        ),
        candidate.flavor is NativeLinux || candidate.flavor is Other ==> firmware.verdict(
            candidate,
        ) is Err,
{
    reveal_strlit("pico8");
    reveal_strlit("tic80");
    reveal_strlit("");
    reveal_strlit("0.");
}

/// A build for 64-bit ARM, or one that does not say what it is for, is not held back on that
/// account; every other is.
pub proof fn only_arm_builds_run(info: LinuxInfo, glibc: (u32, u32))
    ensures
        info.arch matches Some(arch) && arch != Arch::Arm64 ==> complaint(info, glibc) is Some,
        info.arch == Some(Arch::Arm64) || info.arch is None ==> (complaint(info, glibc) is Some <==> (
        glibc_complaint(info.glibc_version, glibc) is Some || screen_complaint(info) is Some)),
        info.arch == Some(Arch::Arm) ==> complaint(info, glibc) == Some(
            "is a 32-bit ARM build; this device runs 64-bit only"@,
        ),
{
}

/// A version with two numbers reads as those numbers.
pub proof fn versions_read_as_their_numbers(major: nat, minor: nat)
    requires
        major <= u32::MAX,
        minor <= u32::MAX,
    ensures
        version_of(decimal(major).push('.') + decimal(minor)) == Some((major, minor)),
        version_of(decimal(major)) == Some((major, 0nat)),
{
    numbers_read_back(major, u32::MAX as nat);
    numbers_read_back(minor, u32::MAX as nat);
    numbers_read_back(0, u32::MAX as nat);
    lemma_no_dot(decimal(major));
    lemma_no_dot(decimal(minor));
    let all = decimal(major).push('.') + decimal(minor);
    lemma_two_parts(decimal(major), decimal(minor));
    splitting_loses_nothing(decimal(major), '.');
    let parts = split(decimal(major), '.');
    assert(join(parts, seq!['.']) == parts[0]);
    assert(split(all, '.')[0] == decimal(major) && split(all, '.')[1] == decimal(minor));
    reveal_strlit("0");
    assert("0"@ =~= decimal(0));
}

proof fn lemma_no_dot(s: Seq<char>)
    requires
        crate::text::all_digits(s),
    ensures
        !s.contains('.'),
{
    if s.contains('.') {
        let k = choose|k: int| 0 <= k < s.len() && s[k] == '.';
        assert(crate::text::is_digit(s[k]));
    }
}

proof fn lemma_two_parts(a: Seq<char>, b: Seq<char>)
    requires
        !a.contains('.'),
        !b.contains('.'),
    ensures
        split(a.push('.') + b, '.') == seq![a, b],
    decreases b.len(),
{
    let all = a.push('.') + b;
    if b.len() == 0 {
        splitting_loses_nothing(a, '.');
        let parts = split(a, '.');
        assert(join(parts, seq!['.']) == parts[0]);
        assert(parts =~= seq![a]);
        assert(all.drop_last() =~= a);
        assert(all.last() == '.');
        assert(b =~= Seq::empty());
        assert(split(all, '.') =~= seq![a, b]);
    } else {
        let rest = b.drop_last();
        assert(!rest.contains('.')) by {
            if rest.contains('.') {
                let k = choose|k: int| 0 <= k < rest.len() && rest[k] == '.';
                assert(b[k] == '.');
            }
        }
        lemma_two_parts(a, rest);
        assert(all.drop_last() =~= a.push('.') + rest);
        assert(all.last() == b[b.len() - 1]);
        let before = split(all.drop_last(), '.');
        assert(before == seq![a, rest]);
        assert(before.drop_last() =~= seq![a]);
        assert(rest.push(b.last()) =~= b);
        assert(split(all, '.') =~= seq![a, b]);
    }
}

/// A build that needs a newer glibc than the device has is held back, and one that needs the
/// same or an older one is not.
pub proof fn newer_libraries_hold_builds_back(wanted: String, major: nat, minor: nat, glibc: (u32, u32))
    requires
        version_of(wanted@) == Some((major, minor)),
    ensures
        major > glibc.0 ==> glibc_complaint(Some(wanted), glibc) is Some,
        major == glibc.0 && minor > glibc.1 ==> glibc_complaint(Some(wanted), glibc) is Some,
        major == glibc.0 && minor <= glibc.1 ==> glibc_complaint(Some(wanted), glibc) is None,
        major < glibc.0 ==> glibc_complaint(Some(wanted), glibc) is None,
        glibc_complaint(None, glibc) is None,
{
}

/// A build reaches the screen through an SDL 2 of the device's, or through one of its own that
/// can be replaced; not through another SDL, nor past SDL. A build of which nothing is known is
/// tried.
pub proof fn builds_reach_the_screen_through_sdl(info: LinuxInfo)
    ensures
        (info.sdl matches Some(sdl) && sdl@ == "2"@) && info.sdl_bundled != Some(true)
            ==> screen_complaint(info) is None,
        (info.sdl matches Some(sdl) && sdl@ == "2"@) && info.sdl_dynamic_api == Some(true)
            ==> screen_complaint(info) is None,
        (info.sdl matches Some(sdl) && sdl@ == "2"@) && info.sdl_bundled == Some(true)
            && info.sdl_dynamic_api != Some(true) ==> screen_complaint(info) is Some,
        (info.sdl matches Some(sdl) && sdl@ != "2"@) ==> screen_complaint(info) is Some,
        info.sdl is None && (info.display matches Some(display) && display@.len() > 0)
            ==> screen_complaint(info) is Some,
        info.sdl is None && !(info.display matches Some(display) && display@.len() > 0)
            ==> screen_complaint(info) is None,
{
}

/// The runtimes that butler is told of are those the device has: LÖVE, and the systems of its
/// firmware, each under its name.
pub proof fn runtimes_are_those_the_device_has(firmware: Firmware, id: Seq<char>)
    ensures
        firmware.love is Some ==> firmware.all_runtimes().contains("love"@),
        firmware.systems@.contains_key("pico8"@) ==> firmware.all_runtimes().contains(
            "pico8-cart"@,
        ),
        firmware.systems@.contains_key("tic80"@) ==> firmware.all_runtimes().contains(
            "tic80-cart"@,
        ),
        rom_ids().contains(id) && firmware.systems@.contains_key(id)
            ==> firmware.all_runtimes().contains("rom:"@ + id),
        forall|k: int|
            0 <= k < firmware.all_runtimes().len() ==> is_runtime(
                firmware,
                #[trigger] firmware.all_runtimes()[k],
            ),
{
    let all = firmware.all_runtimes();
    let roms = firmware.rom_runtimes(rom_ids());
    lemma_rom_runtimes(firmware, rom_ids(), id);
    let a = if firmware.love is Some {
        1int
    } else {
        0
    };
    let b = if firmware.system_for(pico8()) is Some {
        1int
    } else {
        0
    };
    let c = if firmware.system_for(tic80()) is Some {
        1int
    } else {
        0
    };
    if firmware.love is Some {
        assert(all[0] == "love"@);
    }
    if firmware.systems@.contains_key("pico8"@) {
        assert(all[a] == "pico8-cart"@);
    }
    if firmware.systems@.contains_key("tic80"@) {
        assert(all[a + b] == "tic80-cart"@);
    }
    if rom_ids().contains(id) && firmware.systems@.contains_key(id) {
        let k = choose|k: int| 0 <= k < roms.len() && roms[k] == "rom:"@ + id;
        assert(all[a + b + c + k] == roms[k]);
    }
    assert forall|k: int| 0 <= k < all.len() implies is_runtime(firmware, #[trigger] all[k]) by {
        if k >= a + b + c {
            assert(all[k] == roms[k - a - b - c]);
        }
    }
}

/// A runtime that the device has.
pub open spec fn is_runtime(firmware: Firmware, name: Seq<char>) -> bool {
    ||| name == "love"@ && firmware.love is Some
    ||| name == "pico8-cart"@ && firmware.systems@.contains_key("pico8"@)
    ||| name == "tic80-cart"@ && firmware.systems@.contains_key("tic80"@)
    ||| exists|i: int|
        0 <= i < rom_ids().len() && firmware.systems@.contains_key(#[trigger] rom_ids()[i]) && name
            == "rom:"@ + rom_ids()[i]
}

proof fn lemma_rom_runtimes(firmware: Firmware, ids: Seq<Seq<char>>, id: Seq<char>)
    ensures
        ids.contains(id) && firmware.systems@.contains_key(id) ==> firmware.rom_runtimes(
            ids,
        ).contains("rom:"@ + id),
        forall|k: int|
            0 <= k < firmware.rom_runtimes(ids).len() ==> names_rom(
                firmware,
                ids,
                #[trigger] firmware.rom_runtimes(ids)[k],
            ),
    decreases ids.len(),
{
    if ids.len() > 0 {
        let rest = ids.drop_last();
        lemma_rom_runtimes(firmware, rest, id);
        let before = firmware.rom_runtimes(rest);
        let all = firmware.rom_runtimes(ids);
        if ids.contains(id) && firmware.systems@.contains_key(id) {
            let i = choose|i: int| 0 <= i < ids.len() && ids[i] == id;
            if i < rest.len() {
                assert(rest[i] == id);
                let k = choose|k: int| 0 <= k < before.len() && before[k] == "rom:"@ + id;
                assert(all[k] == before[k]);
            } else {
                assert(all[all.len() - 1] == "rom:"@ + id);
            }
        }
        assert forall|k: int| 0 <= k < all.len() implies names_rom(firmware, ids, #[trigger] all[k]) by {
            if k < before.len() {
                assert(all[k] == before[k]);
                assert(names_rom(firmware, rest, before[k]));
                let i = choose|i: int|
                    0 <= i < rest.len() && firmware.systems@.contains_key(#[trigger] rest[i])
                        && before[k] == "rom:"@ + rest[i];
                assert(ids[i] == rest[i]);
            } else {
                assert(ids[ids.len() - 1] == ids.last());
            }
        }
    }
}

/// The name of one of those systems, where the device has it.
pub open spec fn names_rom(firmware: Firmware, ids: Seq<Seq<char>>, name: Seq<char>) -> bool {
    exists|i: int|
        0 <= i < ids.len() && firmware.systems@.contains_key(#[trigger] ids[i]) && name == "rom:"@
            + ids[i]
}

/// The version of LÖVE is read off the first library whose name gives one.
pub proof fn the_first_library_gives_the_version(names: Seq<Seq<char>>, i: int, version: Seq<char>)
    requires
        0 <= i < names.len(),
        names[i] == "liblove-"@ + version + ".so"@,
        forall|k: int, v: Seq<char>|
            0 <= k < i ==> (#[trigger] names[k]) != #[trigger] ("liblove-"@ + v + ".so"@),
    ensures
        first_version(names) == Some(version),
    decreases i,
{
    if i > 0 {
        assert(version_in(names[0]) is None) by {
            if let Some(v) = version_in(names[0]) {
                crate::text::prefixes_and_suffixes_come_off(names[0], "liblove-"@);
                let rest = after_prefix(names[0], "liblove-"@)->0;
                crate::text::prefixes_and_suffixes_come_off(rest, ".so"@);
                assert(names[0] =~= "liblove-"@ + v + ".so"@);
            }
        }
        let rest = names.skip(1);
        assert forall|k: int, v: Seq<char>| 0 <= k < i - 1 implies (#[trigger] rest[k])
            != #[trigger] ("liblove-"@ + v + ".so"@) by {
            assert(rest[k] == names[k + 1]);
        }
        the_first_library_gives_the_version(rest, i - 1, version);
    } else {
        let tail = version + ".so"@;
        assert("liblove-"@ + version + ".so"@ =~= "liblove-"@ + tail);
        crate::text::prefixes_and_suffixes_come_off(tail, "liblove-"@);
        crate::text::prefixes_and_suffixes_come_off(version, ".so"@);
    }
}

/// A file runs by its name alone where it is a LÖVE game, where the firmware has the system of
/// its extension, or where it is a disc and the firmware has any system with discs.
pub proof fn files_run_by_their_names(firmware: Firmware, path: Seq<char>, id: Seq<char>)
    ensures
        (extension_of(path) matches Some(ext) && lowercase(ext) == "love"@) ==> firmware.runs(path),
        id_of_file(path) == Some(id) && firmware.systems@.contains_key(id) ==> firmware.runs(path)
            && firmware.file_system(path) == Some(firmware.systems@[id]),
        id_of_file(path) == Some(id) && !firmware.systems@.contains_key(id) ==> firmware.file_system(
            path,
        ) is None,
        (extension_of(path) matches Some(ext) && (lowercase(ext) == "cue"@ || lowercase(ext)
            == "iso"@ || lowercase(ext) == "chd"@)) && firmware.systems@.contains_key("psx"@)
            ==> firmware.runs(path),
        firmware.runs(path) && firmware.systems@ == Map::<Seq<char>, System>::empty() ==> (
        extension_of(path) matches Some(ext) && lowercase(ext) == "love"@),
        extension_of(path) is None && !(file_name_of(path) matches Some(name) && ends_with(
            lowercase(name),
            ".p8.png"@,
        )) ==> !firmware.runs(path),
{
    assert(disc_ids()[0] == "psx"@);
    if firmware.systems@.contains_key("psx"@) {
        assert(firmware.system_for(disc_ids()[0]) is Some);
    }
}

/// What is to run is the file it was made of: with LÖVE where no system runs it, and otherwise
/// with that system.
pub proof fn content_is_what_runs_it(content: Content, path: Seq<char>, system: Option<System>)
    requires
        is_content(content, path, system),
    ensures
        content is Love <==> system is None,
        content matches Content::Love { path: p } ==> p@ == path,
        content matches Content::Rom { path: p, system: s } ==> p@ == path && system == Some(s),
{
}

} // verus!
