//! The firmware's systems, as its own metadata has them.
//!
//! On Jacaranda, `assign.json` maps ids to a
//! folder per system, each with a `global.ini` naming its default
//! launcher and an ini per launcher naming the core. On Andromeda, `assign.json` maps ids to a
//! system name, and `libretro.json` and `external.json` hold each system's cores under
//! that name, with `default` naming one. The launcher the launch script wants is the core's key
//! with a prefix for its runtime: `mu-` sends a libretro core to Pickles,
//! `ext-` an external one to its own launcher, and no prefix means
//! RetroArch, which the menu never picks.
use vstd::prelude::*;
use vstd::string::*;
use crate::muos::{
    assign_key, assign_key_of, list_rom_ids, pico8, rom_ids, str_views, tic80, System, SystemView,
};
use crate::table::Table;
use crate::text::{
    after_prefix, before_suffix, joined, joined3, lines, same, split_at_first, split_lines,
    split_once, strip_prefix, strip_suffix, text_of, texts, trim, trimmed,
};

verus! {

// ---------------------------------------------------------------------------
// assign.json
// ---------------------------------------------------------------------------

/// A member of an object and the text it holds, where it holds one.
pub open spec fn member_views(members: Seq<(String, Option<String>)>) -> Seq<
    (Seq<char>, Option<Seq<char>>),
> {
    members.map_values(|m: (String, Option<String>)| (m.0@, text_of(m.1)))
}

/// What `serde_json::from_str` reads as a JSON object: its members, each with the text it
/// holds where it holds one; nothing where the text is no JSON object.
pub uninterp spec fn json_members(text: Seq<char>) -> Option<Seq<(Seq<char>, Option<Seq<char>>)>>;

/// `serde_json::from_str` for an object. Each member comes with its text, or with none where
/// it holds something else; where the parse fails, nothing comes.
#[verifier::external_body]
fn read_members(json: &str) -> (r: Option<Vec<(String, Option<String>)>>)
    ensures
        match r {
            Some(members) => json_members(json@) == Some(member_views(members@)),
            None => json_members(json@) is None,
        },
{
    let object: serde_json::Map<String, serde_json::Value> = serde_json::from_str(json).ok()?;
    Some(object.into_iter().map(|(key, value)| (key, value.as_str().map(str::to_owned))).collect())
}

/// The members that hold a text.
pub open spec fn alias_map(members: Seq<(Seq<char>, Option<Seq<char>>)>) -> Map<
    Seq<char>,
    Seq<char>,
>
    decreases members.len(),
{
    if members.len() == 0 {
        Map::empty()
    } else {
        let before = alias_map(members.drop_last());
        match members.last().1 {
            Some(text) => before.insert(members.last().0, text),
            None => before,
        }
    }
}

/// The texts of a table.
pub open spec fn text_map(table: Map<Seq<char>, String>) -> Map<Seq<char>, Seq<char>> {
    table.map_values(|t: String| t@)
}

/// The members that hold a text, by name.
pub fn aliases(members: Vec<(String, Option<String>)>) -> (r: Table<String>)
    ensures
        text_map(r@) == alias_map(member_views(members@)),
{
    let ghost all = member_views(members@);
    let mut r: Table<String> = Table::new();
    let mut i: usize = 0;
    assert(all.take(0) =~= Seq::empty());
    assert(text_map(r@) =~= alias_map(all.take(0)));
    while i < members.len()
        invariant
            i <= members@.len(),
            all == member_views(members@),
            text_map(r@) == alias_map(all.take(i as int)),
        decreases members@.len() - i,
    {
        assert(all.take(i + 1).drop_last() =~= all.take(i as int));
        assert(all[i as int] == (members@[i as int].0@, text_of(members@[i as int].1)));
        if let Some(text) = &members[i].1 {
            let ghost before = text_map(r@);
            r.insert(members[i].0.clone(), text.clone());
            assert(text_map(r@) =~= before.insert(members@[i as int].0@, text@));
        }
        i += 1;
    }
    assert(all.take(i as int) =~= all);
    r
}

/// `assign.json`: aliases to assign folder names. What is no JSON object has none.
pub fn parse_assign(json: &str) -> (r: Table<String>)
    ensures
        text_map(r@) == (match json_members(json@) {
            Some(members) => alias_map(members),
            None => Map::empty(),
        }),
{
    match read_members(json) {
        Some(members) => aliases(members),
        None => {
            let r: Table<String> = Table::new();
            assert(text_map(r@) =~= Map::empty());
            r
        },
    }
}

// ---------------------------------------------------------------------------
// Ini files
// ---------------------------------------------------------------------------

/// The name of the section that a line opens.
pub open spec fn section_name(line: Seq<char>) -> Option<Seq<char>> {
    match after_prefix(line, "["@) {
        Some(rest) => match before_suffix(rest, "]"@) {
            Some(name) => Some(trim(name)),
            None => None,
        },
        None => None,
    }
}

/// The value that a line gives to a key.
pub open spec fn value_in(line: Seq<char>, key: Seq<char>) -> Option<Seq<char>> {
    match split_once(line, |c: char| c == '=') {
        Some((k, v)) => if trim(k) == key {
            Some(trim(v))
        } else {
            None
        },
        None => None,
    }
}

/// The value of a key in the lines from `from` on, `inside` the section or not.
pub open spec fn value_from(
    all: Seq<Seq<char>>,
    from: int,
    inside: bool,
    section: Seq<char>,
    key: Seq<char>,
) -> Option<Seq<char>>
    decreases all.len() - from,
{
    if from >= all.len() {
        None
    } else {
        let line = trim(all[from]);
        match section_name(line) {
            Some(name) => value_from(all, from + 1, name == section, section, key),
            None => match value_in(line, key) {
                Some(value) if inside => Some(value),
                _ => value_from(all, from + 1, inside, section, key),
            },
        }
    }
}

/// The first value of a key in a section of an ini file.
pub open spec fn ini_text(ini: Seq<char>, section: Seq<char>, key: Seq<char>) -> Option<Seq<char>> {
    value_from(lines(ini), 0, false, section, key)
}

fn opened_section(line: &str) -> (r: Option<String>)
    ensures
        text_of(r) == section_name(line@),
{
    match strip_prefix(line, "[") {
        Some(rest) => match strip_suffix(rest.as_str(), "]") {
            Some(name) => Some(trimmed(name.as_str())),
            None => None,
        },
        None => None,
    }
}

fn value_of(line: &str, key: &str) -> (r: Option<String>)
    ensures
        text_of(r) == value_in(line@, key@),
{
    match split_at_first(line, '=') {
        Some((k, v)) => if same(trimmed(k.as_str()).as_str(), key) {
            Some(trimmed(v.as_str()))
        } else {
            None
        },
        None => None,
    }
}

/// `key=` under `[section]`; bare lines are skipped.
pub fn ini_value(ini: &str, section: &str, key: &str) -> (r: Option<String>)
    ensures
        text_of(r) == ini_text(ini@, section@, key@),
{
    let list = split_lines(ini);
    let ghost all = texts(list@);
    let mut inside = false;
    let mut i: usize = 0;
    while i < list.len()
        invariant
            i <= list@.len(),
            all == texts(list@),
            all == lines(ini@),
            value_from(all, i as int, inside, section@, key@) == ini_text(ini@, section@, key@),
        decreases list@.len() - i,
    {
        assert(all[i as int] == list@[i as int]@);
        let line = trimmed(list[i].as_str());
        match opened_section(line.as_str()) {
            Some(name) => {
                inside = same(name.as_str(), section);
            },
            None => {
                if inside {
                    if let Some(value) = value_of(line.as_str(), key) {
                        return Some(value);
                    }
                }
            },
        }
        i += 1;
    }
    None
}

// ---------------------------------------------------------------------------
// Assign folders
// ---------------------------------------------------------------------------

/// What an id resolves to through `assign.json`, `global.ini` and the default launcher's ini.
pub open spec fn resolved(
    id: Seq<char>,
    aliases: Map<Seq<char>, String>,
    files: Map<Seq<char>, String>,
) -> Option<SystemView> {
    let alias = assign_key_of(id);
    if !aliases.contains_key(alias) {
        None
    } else {
        let assign = aliases[alias]@;
        let global_path = assign + "/global.ini"@;
        if !files.contains_key(global_path) {
            None
        } else {
            let global = files[global_path]@;
            match ini_text(global, "global"@, "default"@) {
                None => None,
                Some(launcher) => {
                    let ini_path = assign + "/"@ + launcher + ".ini"@;
                    if !files.contains_key(ini_path) {
                        None
                    } else {
                        match ini_text(files[ini_path]@, launcher, "core"@) {
                            None => None,
                            Some(core) => Some(
                                SystemView {
                                    id,
                                    assign,
                                    launcher,
                                    core,
                                    label: match ini_text(global, "global"@, "name"@) {
                                        Some(name) => name,
                                        None => assign,
                                    },
                                },
                            ),
                        }
                    }
                },
            }
        }
    }
}

/// The view of an optional system.
pub open spec fn system_view(system: Option<System>) -> Option<SystemView> {
    match system {
        Some(system) => Some(system@),
        None => None,
    }
}

/// Resolves a dash id through `assign.json`, `global.ini` and the default
/// launcher's ini. `files` holds the texts of the ini files by their path below the assign
/// folder.
pub fn resolve(id: &str, aliases: &Table<String>, files: &Table<String>) -> (r: Option<System>)
    ensures
        system_view(r) == resolved(id@, aliases@, files@),
{
    let assign = match aliases.get(assign_key(id)) {
        Some(assign) => assign,
        None => {
            return None;
        },
    };
    let global = match files.get(joined(assign.as_str(), "/global.ini").as_str()) {
        Some(global) => global,
        None => {
            return None;
        },
    };
    let launcher = match ini_value(global.as_str(), "global", "default") {
        Some(launcher) => launcher,
        None => {
            return None;
        },
    };
    let mut path = joined3(assign.as_str(), "/", launcher.as_str());
    path.append(".ini");
    let ini = match files.get(path.as_str()) {
        Some(ini) => ini,
        None => {
            return None;
        },
    };
    let core = match ini_value(ini.as_str(), launcher.as_str(), "core") {
        Some(core) => core,
        None => {
            return None;
        },
    };
    let label = match ini_value(global.as_str(), "global", "name") {
        Some(name) => name,
        None => assign.clone(),
    };
    Some(System { id: id.to_owned(), assign: assign.clone(), launcher, core, label })
}

// ---------------------------------------------------------------------------
// Manifests
// ---------------------------------------------------------------------------

/// A system in a manifest: its cores by key, and which of them is the default.
pub struct ManifestSystem {
    pub default: String,
    pub cores: Table<String>,
}

/// Systems by name.
pub type Manifest = Table<ManifestSystem>;

/// The first manifest that lists a system, from `from` on; their number if none does.
pub open spec fn manifest_with(
    manifests: Seq<(String, Manifest)>,
    name: Seq<char>,
    from: int,
) -> int
    decreases manifests.len() - from,
{
    if from >= manifests.len() || manifests[from].1@.contains_key(name) {
        from
    } else {
        manifest_with(manifests, name, from + 1)
    }
}

/// What an id resolves to through `assign.json` and the first manifest that lists the system.
pub open spec fn manifest_resolved(
    id: Seq<char>,
    aliases: Map<Seq<char>, String>,
    manifests: Seq<(String, Manifest)>,
) -> Option<SystemView> {
    let alias = assign_key_of(id);
    if !aliases.contains_key(alias) {
        None
    } else {
        let assign = aliases[alias]@;
        let at = manifest_with(manifests, assign, 0);
        if at >= manifests.len() {
            None
        } else {
            let system = manifests[at].1@[assign];
            if !system.cores@.contains_key(system.default@) {
                None
            } else {
                Some(
                    SystemView {
                        id,
                        assign,
                        launcher: manifests[at].0@ + system.default@,
                        core: system.cores@[system.default@]@,
                        label: assign,
                    },
                )
            }
        }
    }
}

/// Resolves a dash id through `assign.json` and the first manifest that
/// lists the system, the way the launch script looks a core up. Each
/// manifest comes with its runtime prefix.
pub fn resolve_manifest(
    id: &str,
    aliases: &Table<String>,
    manifests: &Vec<(String, Manifest)>,
) -> (r: Option<System>)
    ensures
        system_view(r) == manifest_resolved(id@, aliases@, manifests@),
{
    let assign = match aliases.get(assign_key(id)) {
        Some(assign) => assign,
        None => {
            return None;
        },
    };
    let mut i: usize = 0;
    while i < manifests.len()
        invariant
            i <= manifests@.len(),
            aliases@.contains_key(assign_key_of(id@)),
            *assign == aliases@[assign_key_of(id@)],
            manifest_with(manifests@, assign@, i as int) == manifest_with(manifests@, assign@, 0),
        decreases manifests@.len() - i,
    {
        if let Some(system) = manifests[i].1.get(assign.as_str()) {
            let core = match system.cores.get(system.default.as_str()) {
                Some(core) => core.clone(),
                None => {
                    return None;
                },
            };
            return Some(
                System {
                    id: id.to_owned(),
                    assign: assign.clone(),
                    launcher: joined(manifests[i].0.as_str(), system.default.as_str()),
                    core,
                    label: assign.clone(),
                },
            );
        }
        i += 1;
    }
    None
}

// ---------------------------------------------------------------------------
// All systems
// ---------------------------------------------------------------------------

/// Where the firmware keeps its systems.
pub enum Metadata {
    /// Texts of ini files, by their path below the assign folder.
    Folders(Table<String>),
    /// Manifests, each with the prefix of its runtime.
    Manifests(Vec<(String, Manifest)>),
}

/// What an id resolves to.
pub open spec fn found(id: Seq<char>, aliases: Map<Seq<char>, String>, metadata: Metadata) -> Option<
    SystemView,
> {
    match metadata {
        Metadata::Folders(files) => resolved(id, aliases, files@),
        Metadata::Manifests(manifests) => manifest_resolved(id, aliases, manifests@),
    }
}

/// Every id that could resolve: the ROM systems and the fantasy consoles.
pub open spec fn all_ids() -> Seq<Seq<char>> {
    rom_ids() + seq![pico8(), tic80()]
}

/// Those ids that resolve, each with its system.
pub open spec fn found_systems(
    ids: Seq<Seq<char>>,
    aliases: Map<Seq<char>, String>,
    metadata: Metadata,
) -> Map<Seq<char>, SystemView>
    decreases ids.len(),
{
    if ids.len() == 0 {
        Map::empty()
    } else {
        let before = found_systems(ids.drop_last(), aliases, metadata);
        match found(ids.last(), aliases, metadata) {
            Some(system) => before.insert(ids.last(), system),
            None => before,
        }
    }
}

pub open spec fn system_views(systems: Map<Seq<char>, System>) -> Map<Seq<char>, SystemView> {
    systems.map_values(|s: System| s@)
}

/// Every system that resolves here, by dash id.
pub fn systems(aliases: &Table<String>, metadata: &Metadata) -> (r: Table<System>)
    ensures
        system_views(r@) == found_systems(all_ids(), aliases@, *metadata),
{
    let mut ids = list_rom_ids();
    ids.push("pico8");
    ids.push("tic80");
    let ghost all = all_ids();
    assert(str_views(ids@) =~= all);
    let mut r: Table<System> = Table::new();
    let mut i: usize = 0;
    assert(all.take(0) =~= Seq::empty());
    assert(system_views(r@) =~= found_systems(all.take(0), aliases@, *metadata));
    while i < ids.len()
        invariant
            i <= ids@.len(),
            str_views(ids@) == all,
            system_views(r@) == found_systems(all.take(i as int), aliases@, *metadata),
        decreases ids@.len() - i,
    {
        assert(all.take(i + 1).drop_last() =~= all.take(i as int));
        assert(all[i as int] == ids@[i as int]@);
        let system = match metadata {
            Metadata::Folders(files) => resolve(ids[i], aliases, files),
            Metadata::Manifests(manifests) => resolve_manifest(ids[i], aliases, manifests),
        };
        if let Some(system) = system {
            let ghost before = system_views(r@);
            let ghost view = system@;
            r.insert(ids[i].to_owned(), system);
            assert(system_views(r@) =~= before.insert(ids@[i as int]@, view));
        }
        i += 1;
    }
    assert(all.len() == ids@.len());
    assert(all.take(i as int) =~= all);
    r
}

proof fn lemma_found(ids: Seq<Seq<char>>, aliases: Map<Seq<char>, String>, metadata: Metadata, id: Seq<char>)
    ensures
        found_systems(ids, aliases, metadata).contains_key(id) <==> ids.contains(id) && found(
            id,
            aliases,
            metadata,
        ) is Some,
        found_systems(ids, aliases, metadata).contains_key(id) ==> Some(
            found_systems(ids, aliases, metadata)[id],
        ) == found(id, aliases, metadata),
    decreases ids.len(),
{
    if ids.len() > 0 {
        let rest = ids.drop_last();
        lemma_found(rest, aliases, metadata, id);
        assert(ids.contains(id) <==> rest.contains(id) || id == ids.last()) by {
            if ids.contains(id) {
                let k = choose|k: int| 0 <= k < ids.len() && ids[k] == id;
                if k < rest.len() {
                    assert(rest[k] == id);
                }
            }
            if rest.contains(id) {
                let k = choose|k: int| 0 <= k < rest.len() && rest[k] == id;
                assert(ids[k] == id);
            }
            assert(ids[ids.len() - 1] == ids.last());
        }
    }
}

/// A system is here exactly if its id is one that dash knows and the metadata resolves it, and
/// it keeps that id.
pub proof fn systems_are_those_that_resolve(
    aliases: Map<Seq<char>, String>,
    metadata: Metadata,
    id: Seq<char>,
)
    ensures
        found_systems(all_ids(), aliases, metadata).contains_key(id) <==> all_ids().contains(id)
            && found(id, aliases, metadata) is Some,
        found_systems(all_ids(), aliases, metadata).contains_key(id) ==> found_systems(
            all_ids(),
            aliases,
            metadata,
        )[id].id == id,
{
    lemma_found(all_ids(), aliases, metadata, id);
}

/// A line in brackets opens the section it names, and a line with an equals sign gives the value
/// behind the first one to the key before it, without the space around them.
pub proof fn ini_lines_mean_what_they_show(name: Seq<char>, key: Seq<char>, value: Seq<char>)
    ensures
        section_name("["@ + name + "]"@) == Some(trim(name)),
        !key.contains('=') ==> value_in(key.push('=') + value, trim(key)) == Some(trim(value)),
{
    let line = "["@ + name + "]"@;
    let rest = name + "]"@;
    assert(line =~= "["@ + rest);
    crate::text::prefixes_and_suffixes_come_off(rest, "["@);
    crate::text::prefixes_and_suffixes_come_off(name, "]"@);
    if !key.contains('=') {
        let f = |c: char| c == '=';
        let text = key.push('=') + value;
        crate::text::splitting_once_goes_by_the_first(text, f);
        assert(text[key.len() as int] == '=');
        let at = crate::text::first_where(text, f);
        if let Some((a, b)) = split_once(text, f) {
            if a.len() < key.len() {
                assert(f(text[a.len() as int]));
                assert(key[a.len() as int] == '=');
            } else if a.len() > key.len() {
                assert(!f(a[key.len() as int]));
                assert((a.push(text[a.len() as int]) + b)[key.len() as int] == a[key.len() as int]);
            }
            assert(a.len() == key.len());
            assert((a.push('=') + b) == text);
            assert(a =~= key) by {
                assert forall|i: int| 0 <= i < key.len() implies a[i] == key[i] by {
                    assert((a.push('=') + b)[i] == a[i]);
                    assert(text[i] == key[i]);
                }
            }
            assert(b =~= value) by {
                assert forall|i: int| 0 <= i < value.len() implies b[i] == value[i] by {
                    assert((a.push('=') + b)[key.len() + 1 + i] == b[i]);
                    assert(text[key.len() + 1 + i] == value[i]);
                }
            }
        } else {
            assert(!f(text[key.len() as int]));
        }
    }
}

/// A value is looked for in its section: it is that of the first line there that gives the key
/// one. Lines of other sections do not count.
pub proof fn values_are_found_in_their_section(
    all: Seq<Seq<char>>,
    section: Seq<char>,
    key: Seq<char>,
    i: int,
    j: int,
    value: Seq<char>,
)
    requires
        0 <= i < j < all.len(),
        section_name(trim(all[i])) == Some(section),
        forall|k: int| 0 <= k < i ==> section_name(trim(#[trigger] all[k])) != Some(section),
        forall|k: int|
            i < k < j ==> section_name(trim(#[trigger] all[k])) is None && value_in(
                trim(all[k]),
                key,
            ) is None,
        section_name(trim(all[j])) is None,
        value_in(trim(all[j]), key) == Some(value),
    ensures
        value_from(all, 0, false, section, key) == Some(value),
{
    lemma_outside(all, section, key, 0, i);
    lemma_inside(all, section, key, i + 1, j, value);
}

proof fn lemma_outside(all: Seq<Seq<char>>, section: Seq<char>, key: Seq<char>, from: int, i: int)
    requires
        0 <= from <= i < all.len(),
        section_name(trim(all[i])) == Some(section),
        forall|k: int| from <= k < i ==> section_name(trim(#[trigger] all[k])) != Some(section),
    ensures
        value_from(all, from, false, section, key) == value_from(all, i + 1, true, section, key),
    decreases i - from,
{
    if from < i {
        assert(section_name(trim(all[from])) != Some(section));
        lemma_outside(all, section, key, from + 1, i);
    }
}

proof fn lemma_inside(
    all: Seq<Seq<char>>,
    section: Seq<char>,
    key: Seq<char>,
    from: int,
    j: int,
    value: Seq<char>,
)
    requires
        0 <= from <= j < all.len(),
        forall|k: int|
            from <= k < j ==> section_name(trim(#[trigger] all[k])) is None && value_in(
                trim(all[k]),
                key,
            ) is None,
        section_name(trim(all[j])) is None,
        value_in(trim(all[j]), key) == Some(value),
    ensures
        value_from(all, from, true, section, key) == Some(value),
    decreases j - from,
{
    if from < j {
        assert(section_name(trim(all[from])) is None);
        lemma_inside(all, section, key, from + 1, j, value);
    }
}

/// Without its section there is no value.
pub proof fn values_need_their_section(
    all: Seq<Seq<char>>,
    section: Seq<char>,
    key: Seq<char>,
    from: int,
)
    requires
        0 <= from <= all.len(),
        forall|k: int| from <= k < all.len() ==> section_name(trim(#[trigger] all[k])) != Some(section),
    ensures
        value_from(all, from, false, section, key) is None,
    decreases all.len() - from,
{
    if from < all.len() {
        assert(section_name(trim(all[from])) != Some(section));
        values_need_their_section(all, section, key, from + 1);
    }
}

/// A system of the folders has the launcher that its folder names as the default, the core that
/// the launcher's own file names, and its folder's name where it is given no other.
pub proof fn folders_name_launcher_and_core(
    id: Seq<char>,
    aliases: Map<Seq<char>, String>,
    files: Map<Seq<char>, String>,
    system: SystemView,
)
    requires
        resolved(id, aliases, files) == Some(system),
    ensures
        system.id == id,
        aliases.contains_key(if id == "a26"@ {
            "a2600"@
        } else {
            id
        }) && system.assign == aliases[if id == "a26"@ {
            "a2600"@
        } else {
            id
        }]@,
        files.contains_key(system.assign + "/global.ini"@),
        ini_text(files[system.assign + "/global.ini"@]@, "global"@, "default"@) == Some(
            system.launcher,
        ),
        files.contains_key(system.assign + "/"@ + system.launcher + ".ini"@),
        ini_text(
            files[system.assign + "/"@ + system.launcher + ".ini"@]@,
            system.launcher,
            "core"@,
        ) == Some(system.core),
        match ini_text(files[system.assign + "/global.ini"@]@, "global"@, "name"@) {
            Some(name) => system.label == name,
            None => system.label == system.assign,
        },
{
}

/// A system of the manifests has the default core of the first manifest that lists it, and that
/// manifest's prefix before the launcher's name.
pub proof fn manifests_name_launcher_and_core(
    id: Seq<char>,
    aliases: Map<Seq<char>, String>,
    manifests: Seq<(String, Manifest)>,
    system: SystemView,
) -> (at: int)
    requires
        manifest_resolved(id, aliases, manifests) == Some(system),
    ensures
        system.id == id && system.label == system.assign,
        0 <= at < manifests.len(),
        manifests[at].1@.contains_key(system.assign),
        forall|k: int| 0 <= k < at ==> !(#[trigger] manifests[k]).1@.contains_key(system.assign),
        ({
            let entry = manifests[at].1@[system.assign];
            &&& system.launcher == manifests[at].0@ + entry.default@
            &&& entry.cores@.contains_key(entry.default@)
            &&& system.core == entry.cores@[entry.default@]@
        }),
{
    lemma_manifest_with(manifests, system.assign, 0);
    manifest_with(manifests, system.assign, 0)
}

proof fn lemma_manifest_with(manifests: Seq<(String, Manifest)>, name: Seq<char>, from: int)
    requires
        0 <= from <= manifests.len(),
    ensures
        from <= manifest_with(manifests, name, from) <= manifests.len(),
        manifest_with(manifests, name, from) < manifests.len() ==> manifests[manifest_with(
            manifests,
            name,
            from,
        )].1@.contains_key(name),
        forall|k: int|
            from <= k < manifest_with(manifests, name, from) ==> !(
            #[trigger] manifests[k]).1@.contains_key(name),
    decreases manifests.len() - from,
{
    if from < manifests.len() && !manifests[from].1@.contains_key(name) {
        lemma_manifest_with(manifests, name, from + 1);
    }
}

/// Of the members of the assignments those with a text count, and of two under one name the
/// later.
pub proof fn the_last_text_of_a_name_counts(
    members: Seq<(Seq<char>, Option<Seq<char>>)>,
    i: int,
)
    requires
        0 <= i < members.len(),
        members[i].1 is Some,
        forall|j: int|
            i < j < members.len() ==> (#[trigger] members[j]).0 != members[i].0 || members[j].1 is None,
    ensures
        alias_map(members).contains_key(members[i].0),
        alias_map(members)[members[i].0] == members[i].1->0,
    decreases members.len(),
{
    if i < members.len() - 1 {
        let rest = members.drop_last();
        assert forall|j: int| i < j < rest.len() implies (#[trigger] rest[j]).0 != rest[i].0
            || rest[j].1 is None by {
            assert(rest[j] == members[j]);
        }
        the_last_text_of_a_name_counts(rest, i);
        let last = members[members.len() - 1];
        assert(last.0 != members[i].0 || last.1 is None);
    }
}

/// A value that is found stands in its section: some line before it opens the section, none
/// between the two opens another, and the line gives the key that value.
pub proof fn values_come_from_their_section(
    all: Seq<Seq<char>>,
    section: Seq<char>,
    key: Seq<char>,
    value: Seq<char>,
) -> (r: (int, int))
    requires
        value_from(all, 0, false, section, key) == Some(value),
    ensures
        0 <= r.0 < r.1 < all.len(),
        section_name(trim(all[r.0])) == Some(section),
        forall|k: int| r.0 < k <= r.1 ==> section_name(trim(#[trigger] all[k])) is None,
        value_in(trim(all[r.1]), key) == Some(value),
{
    lemma_comes_from(all, section, key, value, 0, false, -1)
}

proof fn lemma_comes_from(
    all: Seq<Seq<char>>,
    section: Seq<char>,
    key: Seq<char>,
    value: Seq<char>,
    from: int,
    inside: bool,
    opened: int,
) -> (r: (int, int))
    requires
        0 <= from <= all.len(),
        value_from(all, from, inside, section, key) == Some(value),
        inside ==> 0 <= opened < from && section_name(trim(all[opened])) == Some(section)
            && forall|k: int| opened < k < from ==> section_name(trim(#[trigger] all[k])) is None,
    ensures
        0 <= r.0 < r.1 < all.len(),
        section_name(trim(all[r.0])) == Some(section),
        forall|k: int| r.0 < k <= r.1 ==> section_name(trim(#[trigger] all[k])) is None,
        value_in(trim(all[r.1]), key) == Some(value),
    decreases all.len() - from,
{
    let line = trim(all[from]);
    match section_name(line) {
        Some(name) => if name == section {
            lemma_comes_from(all, section, key, value, from + 1, true, from)
        } else {
            lemma_comes_from(all, section, key, value, from + 1, false, -1)
        },
        None => if inside && value_in(line, key) is Some {
            (opened, from)
        } else {
            lemma_comes_from(all, section, key, value, from + 1, inside, opened)
        },
    }
}

/// A file gives a value only in the section that is asked for.
pub proof fn files_give_values_in_their_section(
    ini: Seq<char>,
    section: Seq<char>,
    key: Seq<char>,
    value: Seq<char>,
) -> (r: (int, int))
    requires
        ini_text(ini, section, key) == Some(value),
    ensures
        0 <= r.0 < r.1 < lines(ini).len(),
        section_name(trim(lines(ini)[r.0])) == Some(section),
        forall|k: int| r.0 < k <= r.1 ==> section_name(trim(#[trigger] lines(ini)[k])) is None,
        value_in(trim(lines(ini)[r.1]), key) == Some(value),
{
    values_come_from_their_section(lines(ini), section, key, value)
}

} // verus!
