//! What the handheld's firmware can run, and how it is handed a game.
use serde_json::Value;
use zitch::assign::{
    aliases, ini_value, parse_assign, resolve, resolve_manifest, systems, Manifest, ManifestSystem,
    Metadata,
};
use zitch::handoff::{
    begin, ended, foreground, foreground_back, game_env, governor, hidden_variables, launch, script_outcome, started,
    stop, Launch, Running,
};
use zitch::muos::{
    available, blocker, board, content_for, disc_runs_here, glibc_version, id_for_file,
    is_disc_image, liblove_version, love_blocker, native_blocker, parse_version, release,
    runs_here, runtimes, Arch, Candidate, Content, Engine, EngineInfo, Firmware, Flavor, LinuxInfo,
    Love, Release, System,
};
use zitch::table::Table;

const ASSIGN_JSON: &str = r#"{ "nes": "Nintendo NES - Famicom", "gba": "Nintendo Game Boy Advance",
  "md": "Sega Mega Drive - Genesis", "a2600": "Atari 2600", "pico8": "PICO-8", "n64": "Nintendo N64" }"#;

const NES_GLOBAL: &str = "[global]\nname=Nintendo NES - Famicom\ndefault=mu-fceumm\n\
catalogue=Nintendo NES - Famicom\nlookup=0\n\n[friendly]\nNintendo NES - Famicom\nNES\nFamicom\n";

const NES_LAUNCHER: &str = "[mu-fceumm]\nname=mu-FCEUmm\ncore=fceumm_libretro.so\n\n\
[launch]\nprep=\nexec=/opt/muos/script/launch/mu-general.sh\ndone=\n";

fn fixture() -> Table<String> {
    let mut files = Table::new();
    for (name, text) in [
        ("Nintendo NES - Famicom/global.ini", NES_GLOBAL),
        ("Nintendo NES - Famicom/mu-fceumm.ini", NES_LAUNCHER),
        (
            "Atari 2600/global.ini",
            "[global]\nname=Atari 2600\ndefault=stella\n",
        ),
        (
            "Atari 2600/stella.ini",
            "[stella]\nname=Stella\ncore=stella_libretro.so\n",
        ),
        (
            "Nintendo Game Boy Advance/global.ini",
            "[global]\nname=Nintendo Game Boy Advance\ndefault=mgba\n",
        ),
    ] {
        files.insert(name.to_string(), text.to_string());
    }
    files
}

fn lookup(id: &str) -> Option<System> {
    resolve(id, &parse_assign(ASSIGN_JSON), &fixture())
}

#[test]
fn assign_json_maps_ids_to_folders() {
    let aliases = parse_assign(ASSIGN_JSON);
    assert_eq!(aliases.get("nes").unwrap(), "Nintendo NES - Famicom");
    assert_eq!(aliases.get("md").unwrap(), "Sega Mega Drive - Genesis");
    assert!(!aliases.contains_key("nds"));
    assert!(parse_assign("not json").is_empty());
}

#[test]
fn ini_values_come_from_their_section() {
    assert_eq!(
        ini_value(NES_GLOBAL, "global", "default").as_deref(),
        Some("mu-fceumm")
    );
    assert_eq!(
        ini_value(NES_GLOBAL, "global", "name").as_deref(),
        Some("Nintendo NES - Famicom")
    );
    assert_eq!(ini_value(NES_GLOBAL, "friendly", "default"), None);
    assert_eq!(
        ini_value(NES_LAUNCHER, "mu-fceumm", "core").as_deref(),
        Some("fceumm_libretro.so")
    );
    assert_eq!(ini_value(NES_LAUNCHER, "launch", "prep").as_deref(), Some(""));
    assert_eq!(ini_value(NES_LAUNCHER, "mu-fceumm", "exec"), None);
}

#[test]
fn ids_resolve_through_the_assign_metadata() {
    assert_eq!(
        lookup("nes"),
        Some(System {
            id: "nes".into(),
            assign: "Nintendo NES - Famicom".into(),
            launcher: "mu-fceumm".into(),
            core: "fceumm_libretro.so".into(),
            label: "Nintendo NES - Famicom".into(),
        })
    );
    // a26 is a2600 in assign.json.
    let a26 = lookup("a26").unwrap();
    assert_eq!(a26.id, "a26");
    assert_eq!(a26.assign, "Atari 2600");
    assert_eq!(a26.core, "stella_libretro.so");
    // Not in assign.json at all.
    assert_eq!(lookup("nds"), None);
    // In assign.json, but no folder.
    assert_eq!(lookup("md"), None);
    // A folder whose default launcher ini is missing.
    assert_eq!(lookup("gba"), None);
}

const LIBRETRO_JSON: &str = r#"{
      "Nintendo Game Boy Advance": {
        "name": "Nintendo Game Boy Advance",
        "default": "mgba",
        "friendly": ["gba"],
        "bios": [{"file": "gba_bios.bin"}],
        "cores": {
          "gpsp": {"name": "gpSP", "core": "gpsp_libretro.so"},
          "mgba": {"name": "mGBA", "core": "mgba_libretro.so", "governor": "performance"}
        }
      },
      "Nintendo NES - Famicom": {"default": "nestopia", "cores": {}}
    }"#;

const EXTERNAL_JSON: &str = r#"{
      "Nintendo N64": {
        "default": "mupen64plus - standalone - glide",
        "cores": {
          "mupen64plus - standalone - glide": {"core": "ext-mupen64plus-gliden64", "launcher": "mupen64plus.sh"}
        }
      }
    }"#;

/// A manifest as it is written in its file.
fn parse_manifest(_name: &str, text: &str) -> Option<Manifest> {
    let json: Value = serde_json::from_str(text).ok()?;
    let mut manifest = Table::new();
    for (name, system) in json.as_object()? {
        let mut cores = Table::new();
        for (core, about) in system.get("cores")?.as_object()? {
            cores.insert(core.clone(), about.get("core")?.as_str()?.to_string());
        }
        let default = system.get("default")?.as_str()?.to_string();
        manifest.insert(name.clone(), ManifestSystem { default, cores });
    }
    Some(manifest)
}

#[test]
fn ids_resolve_through_the_manifests() {
    let aliases = parse_assign(ASSIGN_JSON);
    let manifests = vec![
        (
            "mu-".to_string(),
            parse_manifest("libretro.json", LIBRETRO_JSON).unwrap(),
        ),
        (
            "ext-".to_string(),
            parse_manifest("external.json", EXTERNAL_JSON).unwrap(),
        ),
    ];
    assert_eq!(
        resolve_manifest("gba", &aliases, &manifests),
        Some(System {
            id: "gba".into(),
            assign: "Nintendo Game Boy Advance".into(),
            launcher: "mu-mgba".into(),
            core: "mgba_libretro.so".into(),
            label: "Nintendo Game Boy Advance".into(),
        })
    );
    // Only in the second manifest.
    let n64 = resolve_manifest("n64", &aliases, &manifests).unwrap();
    assert_eq!(n64.core, "ext-mupen64plus-gliden64");
    assert_eq!(n64.launcher, "ext-mupen64plus - standalone - glide");
    // Not in assign.json at all.
    assert_eq!(resolve_manifest("nds", &aliases, &manifests), None);
    // In assign.json, in no manifest.
    assert_eq!(resolve_manifest("md", &aliases, &manifests), None);
    // Listed, but its default core is not.
    assert_eq!(resolve_manifest("nes", &aliases, &manifests), None);
    assert!(parse_manifest("x.json", "not json").is_none());
    // A manifest that cannot be read is left out; without any nothing resolves.
    assert_eq!(resolve_manifest("gba", &aliases, &Vec::new()), None);
}

#[test]
fn extension_picks_the_id() {
    assert_eq!(id_for_file("Bobl 1.2.NES"), Some("nes"));
    assert_eq!(id_for_file("tobudx.gb"), Some("gb"));
    assert_eq!(id_for_file("a/b/game.gbc"), Some("gbc"));
    assert_eq!(id_for_file("game.SFC"), Some("snes"));
    assert_eq!(id_for_file("knuckles.32x"), Some("32x"));
    assert_eq!(id_for_file("pitfall.a26"), Some("a26"));
    assert_eq!(id_for_file("game.lnx"), Some("lynx"));
    assert_eq!(id_for_file("power_pong.p8.png"), Some("pico8"));
    assert_eq!(id_for_file("cart.P8"), Some("pico8"));
    assert_eq!(id_for_file("island.tic"), Some("tic80"));
    assert_eq!(id_for_file("game.bin"), None);
    assert_eq!(id_for_file("game.cue"), None);
    assert_eq!(id_for_file("game.iso"), None);
    assert_eq!(id_for_file("game.chd"), None);
    assert_eq!(id_for_file("cover.png"), None);
    assert_eq!(id_for_file("setup.exe"), None);
    assert_eq!(id_for_file("README"), None);
}

#[test]
fn every_listed_rom_is_known() {
    for (name, id) in [
        ("a.smc", "snes"),
        ("a.gen", "md"),
        ("a.prg", "c64"),
        ("a.d64", "c64"),
        ("a.crt", "c64"),
        ("a.adf", "amiga"),
        ("a.hdf", "amiga"),
        ("a.z64", "n64"),
        ("a.n64", "n64"),
    ] {
        assert_eq!(id_for_file(name), Some(id), "{name}");
    }
}

#[test]
fn love_by_file_name() {
    let firmware = Firmware::none();
    assert!(runs_here(&firmware, "x-moon-love11.5.love"));
    assert!(!runs_here(&firmware, "xmoon-win32.zip"));
}

fn payload(flavor: Flavor, engine: Option<EngineInfo>) -> Candidate {
    Candidate {
        path: String::new(),
        flavor,
        engine,
        linux: None,
    }
}

#[test]
fn disc_images_are_named_only_by_their_header() {
    assert!(is_disc_image("game.cue"));
    assert!(is_disc_image("game.CHD"));
    assert!(is_disc_image("a/b/game.iso"));
    assert!(!is_disc_image("game.bin"));
    assert!(!is_disc_image("game.nes"));
    assert!(!is_disc_image("cover.png"));
    assert!(!is_disc_image("README"));
    // nothing resolves without the firmware
    assert!(!disc_runs_here(&Firmware::none(), "game.cue"));
}

#[test]
fn a_rom_with_no_system_says_so() {
    let firmware = Firmware::none();
    let unread = payload(
        Flavor::ROM,
        Some(EngineInfo {
            engine: Engine::ROM,
            version: None,
            system: Some(String::new()),
        }),
    );
    assert_eq!(
        content_for(&firmware, &unread, "/g/game.chd".to_string()),
        Err("could not tell which system this is for".to_string())
    );
    // and with no details at all, rather than "no emulator for "
    let bare = payload(Flavor::ROM, None);
    assert_eq!(
        content_for(&firmware, &bare, "/g/game.chd".to_string()),
        Err("could not tell which system this is for".to_string())
    );
}

#[test]
fn old_love_games_are_turned_away() {
    assert_eq!(love_blocker("11.5", "11.5"), None);
    assert_eq!(love_blocker("", "11.5"), None);
    assert!(love_blocker("0.8.0", "11.5").is_some());
    assert!(love_blocker("0.10.2", "11.5").unwrap().contains("11.5"));
}

#[test]
fn payloads_without_a_runtime_are_turned_away() {
    let firmware = Firmware::none();
    // no LÖVE off-device, and no runtime for a native build either
    let love = payload(
        Flavor::Love,
        Some(EngineInfo {
            engine: Engine::Love,
            version: Some("11.5".into()),
            system: None,
        }),
    );
    assert_eq!(
        content_for(&firmware, &love, "/g/game.love".to_string()),
        Err("this device has no LÖVE".to_string())
    );
    let native = payload(Flavor::NativeLinux, None);
    assert!(content_for(&firmware, &native, "/g/bin".to_string()).is_err());
}

#[test]
fn native_builds_are_judged_by_their_sdl() {
    let native_blocker = |info: &LinuxInfo| blocker(info, (2, 38));
    let info = |sdl: Option<&str>, bundled: bool, dynamic: bool| LinuxInfo {
        sdl: sdl.map(str::to_string),
        sdl_bundled: Some(bundled),
        sdl_dynamic_api: Some(dynamic),
        ..Default::default()
    };
    assert_eq!(native_blocker(&info(Some("2"), false, false)), None);
    assert_eq!(native_blocker(&info(Some("2"), true, true)), None);
    assert!(native_blocker(&info(Some("2"), true, false)).is_some());
    assert!(native_blocker(&info(Some("3"), true, true)).is_some());
    assert_eq!(native_blocker(&info(None, false, false)), None);
    assert!(native_blocker(&LinuxInfo {
        display: Some(vec!["glfw".into(), "x11".into()]),
        ..Default::default()
    })
    .is_some());
    assert!(native_blocker(&LinuxInfo {
        sdl: Some("2".into()),
        glibc_version: Some("2.39".into()),
        ..Default::default()
    })
    .is_some());
    assert_eq!(
        native_blocker(&LinuxInfo {
            sdl: Some("2".into()),
            glibc_version: Some("2.34".into()),
            ..Default::default()
        }),
        None
    );
    assert_eq!(
        native_blocker(&LinuxInfo {
            arch: Some(Arch::Arm64),
            sdl: Some("2".into()),
            ..Default::default()
        }),
        None
    );
    assert!(native_blocker(&LinuxInfo {
        arch: Some(Arch::Arm),
        sdl: Some("2".into()),
        ..Default::default()
    })
    .is_some());
    assert!(native_blocker(&LinuxInfo {
        arch: Some(Arch::Amd64),
        ..Default::default()
    })
    .is_some());
}

fn system(id: &str, core: &str) -> System {
    System {
        id: id.into(),
        assign: format!("The {id}"),
        launcher: format!("mu-{id}"),
        core: core.into(),
        label: format!("A {id}"),
    }
}

/// A handheld with LÖVE and two systems.
fn handheld() -> Firmware {
    let mut systems = Table::new();
    systems.insert("gba".to_string(), system("gba", "mgba_libretro.so"));
    systems.insert("psx".to_string(), system("psx", "ext-psx"));
    systems.insert("pico8".to_string(), system("pico8", "fake08_libretro.so"));
    Firmware {
        script: Some("echo hello".into()),
        systems,
        love: Some(Love {
            binary: "/apps/love/love".into(),
            libs: "/apps/love/libs".into(),
            version: "11.5".into(),
        }),
        manifests: true,
        glibc: (2, 36),
    }
}

#[test]
fn every_system_that_resolves_is_known() {
    let aliases = parse_assign(ASSIGN_JSON);
    let found = systems(&aliases, &Metadata::Folders(fixture()));
    assert_eq!(found.get("nes").unwrap().launcher, "mu-fceumm");
    assert_eq!(found.get("a26").unwrap().label, "Atari 2600");
    assert!(found.get("gba").is_none());
    let manifest = parse_manifest("libretro.json", LIBRETRO_JSON).unwrap();
    let found = systems(&aliases, &Metadata::Manifests(vec![("mu-".into(), manifest)]));
    assert_eq!(found.get("gba").unwrap().core, "mgba_libretro.so");
    assert!(found.get("nes").is_none());
}

#[test]
fn only_texts_are_aliases() {
    let aliases = aliases(vec![
        ("nes".into(), Some("NES".into())),
        ("gba".into(), None),
        ("nes".into(), Some("Famicom".into())),
    ]);
    assert_eq!(aliases.get("nes").unwrap(), "Famicom");
    assert!(!aliases.contains_key("gba"));
    assert!(!parse_assign(r#"{"a": 1, "b": "x"}"#).contains_key("a"));
    assert_eq!(parse_assign(r#"{"a": 1, "b": "x"}"#).get("b").unwrap(), "x");
}

#[test]
fn handhelds_say_what_they_run() {
    let firmware = handheld();
    assert!(available(&firmware));
    assert!(!available(&Firmware::none()));
    assert_eq!(
        runtimes(&firmware),
        vec!["love", "pico8-cart", "rom:gba", "rom:psx"]
    );
    assert!(runtimes(&Firmware::none()).is_empty());
    assert!(runs_here(&firmware, "game.GBA"));
    assert!(!runs_here(&firmware, "game.nes"));
    assert!(runs_here(&firmware, "disc.chd"));
    assert!(disc_runs_here(&firmware, "disc.cue"));
    assert_eq!(System::for_id(&firmware, "gba").unwrap().label, "A gba");
    assert!(System::for_file(&firmware, "a.b").is_none());
}

#[test]
fn payloads_name_their_content() {
    let firmware = handheld();
    let rom = |id: &str| {
        payload(
            Flavor::ROM,
            Some(EngineInfo {
                engine: Engine::ROM,
                version: None,
                system: Some(id.into()),
            }),
        )
    };
    assert_eq!(
        content_for(&firmware, &rom("gba"), "/g/a.gba".into()),
        Ok(Content::Rom {
            path: "/g/a.gba".into(),
            system: system("gba", "mgba_libretro.so")
        })
    );
    assert_eq!(
        content_for(&firmware, &rom("nes"), "/g/a.nes".into()),
        Err("no emulator for nes on this device".into())
    );
    assert_eq!(
        content_for(&firmware, &payload(Flavor::Pico8Cart, None), "/g/a.p8".into()),
        Ok(Content::Rom {
            path: "/g/a.p8".into(),
            system: system("pico8", "fake08_libretro.so")
        })
    );
    assert_eq!(
        content_for(&firmware, &payload(Flavor::TIC80Cart, None), "/g/a.tic".into()),
        Err("no emulator for tic80 on this device".into())
    );
    assert_eq!(
        content_for(&firmware, &payload(Flavor::NativeLinux, None), "/g/a".into()),
        Err("no runtime for NativeLinux on this device".into())
    );
    assert_eq!(
        content_for(&firmware, &payload(Flavor::Love, None), "/g/a.love".into()),
        Ok(Content::Love { path: "/g/a.love".into() })
    );
    let old = payload(
        Flavor::Love,
        Some(EngineInfo {
            engine: Engine::Love,
            version: Some("0.9.1".into()),
            system: None,
        }),
    );
    assert!(content_for(&firmware, &old, "/g/a.love".into()).is_err());
}

#[test]
fn the_launch_script_names_the_release() {
    let mut firmware = handheld();
    assert_eq!(release(&firmware), Release::Andromeda);
    firmware.script = Some("cat /tmp/rom_go".into());
    assert_eq!(release(&firmware), Release::Jacaranda);
    assert_eq!(release(&firmware).name(), "jacaranda");
    assert_eq!(Release::Andromeda.name(), "andromeda");
    let old = zitch::handoff::handoff(Release::Jacaranda);
    assert_eq!(
        (old.rom, old.governor, old.filter),
        ("/tmp/rom_go", "/tmp/gov_go", "/tmp/flt_go")
    );
}

#[test]
fn boards_are_trimmed() {
    assert_eq!(board(Some(" rg35xx-h\n")).as_deref(), Some("rg35xx-h"));
    assert_eq!(board(Some("  \n")), None);
    assert_eq!(board(None), None);
}

#[test]
fn love_says_its_version_in_its_library() {
    let names = vec!["libfoo.so".to_string(), "liblove-11.5.so".to_string()];
    assert_eq!(liblove_version(&names).as_deref(), Some("11.5"));
    assert_eq!(liblove_version(&vec!["liblove.so".to_string()]), None);
}

#[test]
fn libraries_have_versions() {
    assert_eq!(parse_version("2.39"), Some((2, 39)));
    assert_eq!(parse_version("3"), Some((3, 0)));
    assert_eq!(parse_version("2.x"), None);
    assert_eq!(parse_version(""), None);
    assert_eq!(glibc_version(Some("2.31")), (2, 31));
    let fallback = glibc_version(None);
    assert_eq!(glibc_version(Some("musl")), fallback);
    let newer = LinuxInfo {
        glibc_version: Some("2.37".into()),
        ..Default::default()
    };
    assert_eq!(
        native_blocker(&handheld(), &newer).as_deref(),
        Some("needs glibc 2.37; this device has 2.36")
    );
    assert_eq!(
        blocker(
            &LinuxInfo {
                display: Some(vec!["glfw".into(), "x11".into()]),
                ..Default::default()
            },
            (2, 38)
        )
        .as_deref(),
        Some("draws through glfw, x11 rather than SDL2, which this device does not have")
    );
}

#[test]
fn roms_are_handed_over_in_nine_lines() {
    let firmware = handheld();
    let content = content_for(
        &firmware,
        &payload(
            Flavor::ROM,
            Some(EngineInfo {
                engine: Engine::ROM,
                version: None,
                system: Some("gba".into()),
            }),
        ),
        "/games/one/a.gba".into(),
    )
    .unwrap();
    assert_eq!(content.label(), "A gba");
    assert_eq!(content.path(), "/games/one/a.gba");
    let Ok(Launch::Rom(rom)) = launch(&firmware, "One", &content, &Vec::new()) else {
        panic!("not a ROM");
    };
    let text = rom.text.unwrap();
    assert_eq!(
        text,
        "One\nmgba_libretro.so\nThe gba\n\n\nmu-gba\n/games/one\n\na.gba\n"
    );
    assert_eq!(text.lines().count(), 9);
    assert_eq!(
        rom.needs.as_deref(),
        Some("/opt/muos/share/core/mgba_libretro.so")
    );
    assert_eq!(
        rom.missing,
        "This muOS has no mu-gba emulator for The gba: \
/opt/muos/share/core/mgba_libretro.so is missing"
    );
    let mut older = handheld();
    older.manifests = false;
    let Ok(Launch::Rom(rom)) = launch(&older, "One", &content, &Vec::new()) else {
        panic!("not a ROM");
    };
    assert_eq!(
        rom.needs.as_deref(),
        Some("/opt/muos/share/info/assign/The gba/mu-gba.ini")
    );
}

#[test]
fn love_runs_next_to_its_binary() {
    let content = Content::Love { path: "/g/a.love".into() };
    assert_eq!(content.label(), "LÖVE");
    let args = vec!["--fast".to_string()];
    let Ok(Launch::Love(love)) = launch(&handheld(), "One", &content, &args) else {
        panic!("not LÖVE");
    };
    assert_eq!(love.dir, "/apps/love");
    assert_eq!(love.libs, "/apps/love/libs");
    assert_eq!(love.args, vec!["/g/a.love", "--fast"]);
    assert_eq!(
        launch(&Firmware::none(), "One", &content, &args),
        Err("no LÖVE on this device".into())
    );
}

#[test]
fn a_stop_ends_the_content_either_way() {
    let mut running = Running { group: None, stopped: true };
    begin(&mut running);
    // Asked for before there is a group: it ends as soon as it starts.
    assert_eq!(stop(&mut running), None);
    assert!(started(&mut running, 7));
    ended(&mut running);
    begin(&mut running);
    assert!(!started(&mut running, 9));
    assert_eq!(stop(&mut running), Some(9));
    ended(&mut running);
    assert_eq!(stop(&mut running), None);
}

#[test]
fn games_get_a_shim_and_a_locale() {
    let firmware = handheld();
    assert_eq!(
        game_env(&firmware, Some("/apps/zitch/shim.so"), false),
        vec![
            ("SDL_DYNAMIC_API", "/apps/zitch/shim.so".to_string()),
            ("LANG", "en_US.UTF-8".to_string())
        ]
    );
    assert_eq!(game_env(&firmware, None, true), vec![]);
    assert_eq!(game_env(&Firmware::none(), Some("x"), false), vec![]);
    assert_eq!(governor(Some(" performance\n")), "performance");
    assert_eq!(governor(None), "ondemand");
    assert_eq!(foreground(&firmware, 42).as_deref(), Some("42"));
    assert_eq!(foreground(&Firmware::none(), 42), None);
    assert_eq!(
        foreground_back(&firmware, Some("zitch.aarch64")).as_deref(),
        Some("zitch.aarch64")
    );
    assert_eq!(foreground_back(&firmware, None).as_deref(), Some("zitch"));
    assert!(script_outcome(Some(1)).is_ok());
    assert!(script_outcome(None).is_err());
    assert_eq!(
        hidden_variables(),
        vec!["HOME", "XDG_CONFIG_HOME", "XDG_CACHE_HOME", "XDG_DATA_HOME"]
    );
}
