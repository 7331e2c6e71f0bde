//! Where butler is: found the way the itch app does, by the version that the config directory
//! names, or on the path.
use vstd::prelude::*;
use vstd::string::*;
use crate::paths::{join_path, joined_path};
use crate::text::{
    after_prefix, joined, joined3, same, split, split_at_each, strip_prefix, texts, trim, trimmed,
};

verus! {

/// Whether a list of programs to take from the path has butler in it.
pub fn uses_local(list: &str) -> (r: bool)
    ensures
        r == exists|i: int|
            0 <= i < split(list@, ',').len() && trim(#[trigger] split(list@, ',')[i]) == "butler"@,
{
    let names = split_at_each(list, ',');
    let mut i: usize = 0;
    while i < names.len()
        invariant
            i <= names@.len(),
            texts(names@) == split(list@, ','),
            forall|k: int|
                0 <= k < i ==> trim(#[trigger] split(list@, ',')[k]) != "butler"@,
        decreases names@.len() - i,
    {
        let name = trimmed(names[i].as_str());
        assert(texts(names@)[i as int] == names@[i as int]@);
        if same(name.as_str(), "butler") {
            return true;
        }
        i += 1;
    }
    assert(texts(names@).len() == names@.len());
    false
}

/// The folder that butler is installed in.
pub open spec fn broth_of(config: Seq<char>) -> Seq<char> {
    joined_path(joined_path(config, "broth"@), "butler"@)
}

/// The file that names the version in use.
pub open spec fn marker_of(config: Seq<char>) -> Seq<char> {
    joined_path(broth_of(config), ".chosen-version"@)
}

/// Where a version's program is.
pub open spec fn program_of(config: Seq<char>, version: Seq<char>, windows: bool) -> Seq<char> {
    joined_path(
        joined_path(joined_path(broth_of(config), "versions"@), trim(version)),
        if windows {
            "butler.exe"@
        } else {
            "butler"@
        },
    )
}

pub fn broth(config: &str) -> (r: String)
    ensures
        r@ == broth_of(config@),
{
    let broth = join_path(config, "broth");
    join_path(broth.as_str(), "butler")
}

pub fn marker(config: &str) -> (r: String)
    ensures
        r@ == marker_of(config@),
{
    let broth = broth(config);
    join_path(broth.as_str(), ".chosen-version")
}

pub fn program(config: &str, version: &str, windows: bool) -> (r: String)
    ensures
        r@ == program_of(config@, version@, windows),
{
    let broth = broth(config);
    let versions = join_path(broth.as_str(), "versions");
    let version = trimmed(version);
    let folder = join_path(versions.as_str(), version.as_str());
    let exe = if windows {
        "butler.exe"
    } else {
        "butler"
    };
    join_path(folder.as_str(), exe)
}

/// What is said when no version is named.
pub open spec fn none_installed(config: Seq<char>, error: Seq<char>) -> Seq<char> {
    "no butler installed under "@ + broth_of(config) + ": reading "@ + (marker_of(config) + ": "@
        + error)
        + "\nPoint --app-name at an itch app install (itch or kitch), pass --butler, or set BROTH_USE_LOCAL=butler to use the one on PATH."@
}

/// What is said when the version that is named is not there.
pub open spec fn version_missing(config: Seq<char>, version: Seq<char>, windows: bool) -> Seq<char> {
    marker_of(config) + " names version "@ + trim(version) + " but "@ + (program_of(
        config,
        version,
        windows,
    ) + " does not exist"@)
}

/// Whether a program is there, once it is known where it would be.
#[derive(Debug, PartialEq, Eq)]
pub enum Found {
    /// The one on the path.
    Local,
    At(String),
    Missing(String),
}

/// Where butler is: on the path if the list says so; else where the marker's version is, as far
/// as that could be read and is there.
pub open spec fn finds(
    config: Seq<char>,
    list: Option<Seq<char>>,
    version: Result<Seq<char>, Seq<char>>,
    there: bool,
    windows: bool,
    r: Found,
) -> bool {
    if list matches Some(list) && (exists|i: int|
        0 <= i < split(list, ',').len() && trim(#[trigger] split(list, ',')[i]) == "butler"@) {
        r is Local
    } else {
        match version {
            Err(error) => r matches Found::Missing(words) && words@ == none_installed(
                config,
                error,
            ),
            Ok(version) => if there {
                r matches Found::At(path) && path@ == program_of(config, version, windows)
            } else {
                r matches Found::Missing(words) && words@ == version_missing(
                    config,
                    version,
                    windows,
                )
            },
        }
    }
}

/// Finds butler, from what the marker holds and whether its program is there.
pub fn find(
    config: &str,
    list: Option<String>,
    version: Result<String, String>,
    there: bool,
    windows: bool,
) -> (r: Found)
    ensures
        finds(
            config@,
            match list {
                Some(list) => Some(list@),
                None => None,
            },
            match version {
                Ok(version) => Ok(version@),
                Err(error) => Err(error@),
            },
            there,
            windows,
            r,
        ),
{
    if let Some(list) = &list {
        if uses_local(list.as_str()) {
            return Found::Local;
        }
    }
    let marker = marker(config);
    match version {
        Err(error) => {
            let broth = broth(config);
            let head = joined3("no butler installed under ", broth.as_str(), ": reading ");
            let what = joined3(marker.as_str(), ": ", error.as_str());
            Found::Missing(
                joined3(
                    head.as_str(),
                    what.as_str(),
                    "\nPoint --app-name at an itch app install (itch or kitch), pass --butler, or set BROTH_USE_LOCAL=butler to use the one on PATH.",
                ),
            )
        },
        Ok(version) => {
            let path = program(config, version.as_str(), windows);
            if there {
                return Found::At(path);
            }
            let name = trimmed(version.as_str());
            let head = joined3(marker.as_str(), " names version ", name.as_str());
            let tail = joined(path.as_str(), " does not exist");
            Found::Missing(joined3(head.as_str(), " but ", tail.as_str()))
        },
    }
}

/// What a description of the working tree says of the version; nothing if it is empty.
pub open spec fn described_version(text: Seq<char>) -> Option<Seq<char>> {
    let text = trim(text);
    let text = match after_prefix(text, "v"@) {
        Some(rest) => rest,
        None => text,
    };
    if text.len() == 0 {
        None
    } else {
        Some(text)
    }
}

/// The version to show: the one that was set, unless it is empty; else the one that the working
/// tree describes; else the package's own.
pub fn shown_version(set: Option<String>, described: Option<String>, own: &str) -> (r: String)
    ensures
        r@ == (if set is Some && set->0@.len() > 0 {
            set->0@
        } else if described is Some && described_version(described->0@) is Some {
            described_version(described->0@)->0
        } else {
            own@
        }),
{
    proof {
        reveal_strlit("");
    }
    if let Some(set) = set {
        if !same(set.as_str(), "") {
            assert(set@.len() == 0 ==> set@ =~= ""@);
            return set;
        }
    }
    if let Some(described) = described {
        let text = trimmed(described.as_str());
        let text = match strip_prefix(text.as_str(), "v") {
            Some(rest) => rest,
            None => text,
        };
        if !same(text.as_str(), "") {
            assert(text@.len() == 0 ==> text@ =~= ""@);
            return text;
        }
    }
    own.to_owned()
}

/// butler is taken from the path where the environment says so, and otherwise the version that
/// the config directory names is, where it is there; any other way there is none.
pub proof fn the_chosen_butler_is_found(
    config: Seq<char>,
    list: Option<Seq<char>>,
    version: Result<Seq<char>, Seq<char>>,
    there: bool,
    windows: bool,
    r: Found,
)
    requires
        finds(config, list, version, there, windows, r),
    ensures
        list == Some("butler"@) ==> r is Local,
        list is None ==> !(r is Local),
        list is None && version is Err ==> r is Missing,
        list is None && version is Ok && !there ==> r is Missing,
        list is None && there ==> (version matches Ok(name) ==> (r matches Found::At(path) && path@
            == joined_path(
            joined_path(
                joined_path(joined_path(joined_path(config, "broth"@), "butler"@), "versions"@),
                trim(name),
            ),
            if windows {
                "butler.exe"@
            } else {
                "butler"@
            },
        ))),
{
    let word = "butler"@;
    reveal_strlit("butler");
    if list == Some(word) {
        assert(!word.contains(','));
        crate::text::splitting_loses_nothing(word, ',');
        let parts = split(word, ',');
        assert(crate::text::join(parts, seq![',']) == parts[0]);
        let cut = crate::text::trimming_takes_off_space_only(word);
        assert(cut.0 == 0) by {
            if cut.0 > 0 {
                assert(crate::text::is_space(word.take(cut.0)[0]));
                assert(word[0] == 'b');
            }
        }
        assert(cut.1 == word.len()) by {
            if cut.1 < word.len() {
                let k = word.len() - 1 - cut.1;
                assert(crate::text::is_space(word.skip(cut.1)[k]));
                assert(word[word.len() - 1] == 'r');
            }
        }
        assert(word.subrange(0, word.len() as int) =~= word);
        assert(trim(parts[0]) == word);
    }
}

/// A version loses the space around it and the letter before it; an empty one is none.
pub proof fn versions_lose_their_letter(text: Seq<char>, rest: Seq<char>)
    ensures
        trim(text) == "v"@ + rest && rest.len() > 0 ==> described_version(text) == Some(rest),
        trim(text).len() == 0 ==> described_version(text) is None,
        trim(text).len() > 0 && trim(text)[0] != 'v' ==> described_version(text) == Some(trim(text)),
{
    reveal_strlit("v");
    crate::text::prefixes_and_suffixes_come_off(rest, "v"@);
    crate::text::prefixes_and_suffixes_come_off(trim(text), "v"@);
    if trim(text).len() > 0 && trim(text)[0] != 'v' {
        if crate::text::starts_with(trim(text), "v"@) {
            assert(trim(text).take(1)[0] == 'v');
        }
    }
}

} // verus!
