//! What kind of device this is, for the sign-in to report when the user
//! allows it. Best effort: anything unknown is left out, nothing here
//! can fail the sign-in.
use vstd::prelude::*;
use vstd::string::*;
use crate::muos::{release, release_of, Firmware, Release};
use crate::text::{decimal, joined3, number_text, text_of};

verus! {

/// The screen the interface last drew to, width in the high word, height
/// in the low, or 0 before the first frame.
#[derive(Debug, Clone, Copy, PartialEq, Eq, Structural)]
pub struct Resolution {
    pub packed: u64,
}

/// How many values a word of 32 bits has.
pub const WORD: u64 = 0x1_0000_0000;

impl Resolution {
    /// Nothing was drawn yet.
    pub fn unknown() -> (r: Self)
        ensures
            r.packed == 0,
    {
        Resolution { packed: 0 }
    }

    /// Two words as one.
    pub open spec fn pack(width: u64, height: u64) -> int {
        (width % WORD) * WORD + height % WORD
    }

    /// The screen in words, once something was drawn.
    pub open spec fn words(self) -> Option<Seq<char>> {
        if self.packed == 0 {
            None
        } else {
            Some(
                decimal((self.packed / WORD) as nat) + "x"@ + decimal((self.packed % WORD) as nat),
            )
        }
    }

    pub fn text(&self) -> (r: Option<String>)
        ensures
            text_of(r) == self.words(),
    {
        if self.packed == 0 {
            None
        } else {
            Some(
                joined3(
                    number_text(self.packed / WORD).as_str(),
                    "x",
                    number_text(self.packed % WORD).as_str(),
                ),
            )
        }
    }
}

/// How many parts a pixel has, in the sizes that are measured.
pub const PIXEL: i64 = 0x10_0000;

/// A length in whole pixels, rounded to the nearest.
pub open spec fn whole_pixels(length: i64) -> int {
    (length + PIXEL / 2) / PIXEL as int
}

/// Records the screen size the interface is laid out for, measured in parts of a pixel; nothing,
/// where a side of it has no length.
pub fn set_resolution(resolution: &mut Resolution, width: i64, height: i64)
    ensures
        final(resolution).packed == (if width <= 0 || height <= 0 {
            old(resolution).packed as int
        } else {
            Resolution::pack(whole_pixels(width) as u64, whole_pixels(height) as u64)
        }),
{
    if width <= 0 || height <= 0 {
        return;
    }
    let w: u64 = (width as u64 + 0x8_0000) / 0x10_0000;
    let h: u64 = (height as u64 + 0x8_0000) / 0x10_0000;
    assert((w % WORD) * WORD <= (WORD - 1) * WORD) by (nonlinear_arith)
        requires
            w % WORD <= WORD - 1,
    ;
    resolution.packed = (w % WORD) * WORD + h % WORD;
}

/// A screen that was recorded is told as its width and height.
pub proof fn recorded_screens_are_told(width: u64, height: u64)
    requires
        0 < width < WORD,
        0 < height < WORD,
    ensures
        whole_pixels((width * PIXEL) as i64) == width,
        (Resolution { packed: Resolution::pack(width, height) as u64 }).words() == Some(
            decimal(width as nat) + "x"@ + decimal(height as nat),
        ),
{
    let packed = width * WORD + height;
    assert(width % WORD == width && height % WORD == height);
    assert(packed / WORD as int == width && packed % WORD as int == height) by (nonlinear_arith)
        requires
            packed == width * WORD + height,
            height < WORD,
            WORD == 0x1_0000_0000,
    ;
    assert(packed <= u64::MAX) by (nonlinear_arith)
        requires
            packed == width * WORD + height,
            width < WORD,
            height < WORD,
            WORD == 0x1_0000_0000,
    ;
}

/// What is told of a device: names and texts.
pub open spec fn entry_views(entries: Seq<(&'static str, String)>) -> Seq<(Seq<char>, Seq<char>)> {
    entries.map_values(|e: (&'static str, String)| (e.0@, e.1@))
}

/// What `serde_json` writes for an object whose members hold these texts.
pub uninterp spec fn json_object(entries: Seq<(Seq<char>, Seq<char>)>) -> Seq<char>;

/// `serde_json`'s compact text of an object, made of names and texts. That it rests on these
/// alone is all that is said of it.
#[verifier::external_body]
fn write_object(entries: Vec<(&'static str, String)>) -> (r: String)
    ensures
        r@ == json_object(entry_views(entries@)),
{
    let object: serde_json::Map<String, serde_json::Value> =
        entries.into_iter().map(|(name, text)| (name.to_owned(), text.into())).collect();
    serde_json::Value::Object(object).to_string()
}

pub open spec fn maybe(name: Seq<char>, text: Option<Seq<char>>) -> Seq<(Seq<char>, Seq<char>)> {
    match text {
        Some(text) => seq![(name, text)],
        None => Seq::empty(),
    }
}

pub open spec fn release_name(release: Release) -> Seq<char> {
    match release {
        Release::Jacaranda => "jacaranda"@,
        Release::Andromeda => "andromeda"@,
    }
}

/// What is told of a device: where it is known, and of the firmware only on it.
pub open spec fn known_entries(
    firmware: Firmware,
    os: Seq<char>,
    arch: Seq<char>,
    board: Option<Seq<char>>,
    resolution: Resolution,
) -> Seq<(Seq<char>, Seq<char>)> {
    let on_muos = firmware.script is Some;
    seq![
        (
            "platform"@,
            if on_muos {
                "muos"@
            } else {
                "desktop"@
            },
        ),
        ("os"@, os),
        ("arch"@, arch),
    ] + (if on_muos {
        maybe("board"@, board) + seq![
            ("release"@, release_name(release_of(text_of(firmware.script)))),
            (
                "glibc"@,
                decimal(firmware.glibc.0 as nat) + "."@ + decimal(firmware.glibc.1 as nat),
            ),
        ]
    } else {
        Seq::empty()
    }) + maybe("resolution"@, resolution.words())
}

/// The view of an optional text behind a reference.
pub open spec fn str_of(text: Option<&str>) -> Option<Seq<char>> {
    match text {
        Some(text) => Some(text@),
        None => None,
    }
}

/// What is told of a device.
pub fn entries(
    firmware: &Firmware,
    os: &str,
    arch: &str,
    board: Option<&str>,
    resolution: &Resolution,
) -> (r: Vec<(&'static str, String)>)
    ensures
        entry_views(r@) == known_entries(*firmware, os@, arch@, str_of(board), *resolution),
{
    let mut r: Vec<(&'static str, String)> = Vec::new();
    let on_muos = firmware.script.is_some();
    r.push(
        (
            "platform",
            if on_muos {
                "muos".to_owned()
            } else {
                "desktop".to_owned()
            },
        ),
    );
    r.push(("os", os.to_owned()));
    r.push(("arch", arch.to_owned()));
    if on_muos {
        if let Some(board) = board {
            r.push(("board", board.to_owned()));
        }
        r.push(("release", release(firmware).name().to_owned()));
        r.push(
            (
                "glibc",
                joined3(
                    number_text(firmware.glibc.0 as u64).as_str(),
                    ".",
                    number_text(firmware.glibc.1 as u64).as_str(),
                ),
            ),
        );
    }
    if let Some(text) = resolution.text() {
        r.push(("resolution", text));
    }
    assert(entry_views(r@) =~= known_entries(*firmware, os@, arch@, str_of(board), *resolution));
    r
}

/// A compact JSON object describing this device, for `device_info`.
pub fn gather(
    firmware: &Firmware,
    os: &str,
    arch: &str,
    board: Option<&str>,
    resolution: &Resolution,
) -> (r: String)
    ensures
        r@ == json_object(known_entries(*firmware, os@, arch@, str_of(board), *resolution)),
{
    write_object(entries(firmware, os, arch, board, resolution))
}

/// What the sign-in reports: always what kind of device this is, its system and its processor;
/// of a handheld also its firmware; and the screen where its size is known.
pub proof fn devices_say_what_they_are(
    firmware: Firmware,
    os: Seq<char>,
    arch: Seq<char>,
    board: Option<Seq<char>>,
    resolution: Resolution,
)
    ensures
        ({
            let all = known_entries(firmware, os, arch, board, resolution);
            &&& all[0] == (
                "platform"@,
                if firmware.script is Some {
                    "muos"@
                } else {
                    "desktop"@
                },
            )
            &&& all[1] == ("os"@, os)
            &&& all[2] == ("arch"@, arch)
            &&& firmware.script is Some ==> (board matches Some(name) ==> all.contains(
                ("board"@, name),
            ))
            &&& firmware.script is Some ==> all.contains(
                (
                    "glibc"@,
                    decimal(firmware.glibc.0 as nat) + "."@ + decimal(firmware.glibc.1 as nat),
                ),
            )
            &&& resolution.words() matches Some(words) ==> all.last() == ("resolution"@, words)
            &&& firmware.script is None && resolution.packed == 0 ==> all.len() == 3
            &&& firmware.script is None && resolution.packed != 0 ==> all.len() == 4
        }),
{
    let all = known_entries(firmware, os, arch, board, resolution);
    if firmware.script is Some {
        let at = if board is Some {
            4int
        } else {
            3
        };
        if let Some(name) = board {
            assert(all[3] == ("board"@, name));
        }
        assert(all[at + 1] == (
            "glibc"@,
            decimal(firmware.glibc.0 as nat) + "."@ + decimal(firmware.glibc.1 as nat),
        ));
    }
}

} // verus!
