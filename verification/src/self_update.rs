//! Updating zitch itself on muOS: find a newer GitHub release and put its
//! .muxapp where the Archive Manager looks. Installing is left to the user.
use sha2::Digest;
use sha2::Sha256;
use vstd::prelude::*;
use vstd::string::*;
use crate::login::sha256;
use crate::text::{
    decimal, digit, drop_leading, ends, ends_with, has_char, joined, joined3, lines, lowercase,
    number, number_text, parse_number, same, split, split_at_each, split_at_space, split_lines,
    split_once, is_space, text_of, texts, to_lowercase, trim_start, trimmed_start, without_leading,
};

verus! {

pub const LATEST_URL: &'static str = "https://api.github.com/repos/itchio/zitch/releases/latest";

pub const ARCHIVE_DIR: &'static str = "/mnt/mmc/ARCHIVE";

pub const ASSET_SUFFIX: &'static str = "-muos.muxapp";

pub const SUMS_NAME: &'static str = "SHA256SUMS";

/// A release that can be downloaded.
#[derive(Debug, PartialEq, Eq)]
pub struct Release {
    pub version: String,
    pub file_name: String,
    pub url: String,
    pub size: u64,
    pub sums_url: Option<String>,
}

impl Clone for Release {
    fn clone(&self) -> (r: Self)
        ensures
            r == *self,
    {
        Release {
            version: self.version.clone(),
            file_name: self.file_name.clone(),
            url: self.url.clone(),
            size: self.size,
            sums_url: crate::model::copy_text(&self.sums_url),
        }
    }
}

/// A file of a release.
#[derive(Debug, PartialEq, Eq)]
pub struct Asset {
    pub name: String,
    pub size: u64,
    pub browser_download_url: String,
}

/// The latest release, as GitHub tells it.
#[derive(Debug, PartialEq, Eq)]
pub struct Latest {
    pub tag_name: String,
    pub assets: Vec<Asset>,
}

// ---------------------------------------------------------------------------
// Versions
// ---------------------------------------------------------------------------

/// A plain `x.y.z`; anything else is a development build.
pub open spec fn version_of(text: Seq<char>) -> Option<(nat, nat, nat)> {
    let parts = split(text, '.');
    let max = u64::MAX as nat;
    if parts.len() == 3 {
        match (number(parts[0], max), number(parts[1], max), number(parts[2], max)) {
            (Some(x), Some(y), Some(z)) => Some((x, y, z)),
            _ => None,
        }
    } else {
        None
    }
}

/// Whether a version is newer than another.
pub open spec fn newer(a: (nat, nat, nat), b: (nat, nat, nat)) -> bool {
    a.0 > b.0 || (a.0 == b.0 && (a.1 > b.1 || (a.1 == b.1 && a.2 > b.2)))
}

pub open spec fn as_version(v: (u64, u64, u64)) -> (nat, nat, nat) {
    (v.0 as nat, v.1 as nat, v.2 as nat)
}

/// A plain `x.y.z`; anything else is a development build.
pub fn parse_version(text: &str) -> (r: Option<(u64, u64, u64)>)
    ensures
        r matches Some(v) ==> version_of(text@) == Some(as_version(v)),
        r is None ==> version_of(text@) is None,
{
    let parts = split_at_each(text, '.');
    assert(texts(parts@).len() == parts@.len());
    if parts.len() != 3 {
        return None;
    }
    assert(texts(parts@)[0] == parts@[0]@);
    assert(texts(parts@)[1] == parts@[1]@);
    assert(texts(parts@)[2] == parts@[2]@);
    match (
        parse_number(parts[0].as_str(), u64::MAX),
        parse_number(parts[1].as_str(), u64::MAX),
        parse_number(parts[2].as_str(), u64::MAX),
    ) {
        (Some(x), Some(y), Some(z)) => Some((x, y, z)),
        _ => None,
    }
}

fn is_newer(a: (u64, u64, u64), b: (u64, u64, u64)) -> (r: bool)
    ensures
        r == newer(as_version(a), as_version(b)),
{
    a.0 > b.0 || (a.0 == b.0 && (a.1 > b.1 || (a.1 == b.1 && a.2 > b.2)))
}

/// Of two different versions one is newer, and never both; and newer than newer is newer.
pub proof fn versions_are_ordered(
    a: (nat, nat, nat),
    b: (nat, nat, nat),
    c: (nat, nat, nat),
)
    ensures
        a != b ==> newer(a, b) || newer(b, a),
        !(newer(a, b) && newer(b, a)),
        newer(a, b) && newer(b, c) ==> newer(a, c),
{
}

// ---------------------------------------------------------------------------
// What is offered
// ---------------------------------------------------------------------------

/// The first file with a name that `f` holds of, from `from` on; their number if none has.
pub open spec fn asset_where(assets: Seq<Asset>, f: spec_fn(Seq<char>) -> bool, from: int) -> int
    decreases assets.len() - from,
{
    if from >= assets.len() || f(assets[from].name@) {
        from
    } else {
        asset_where(assets, f, from + 1)
    }
}

pub open spec fn package_at(latest: Latest) -> int {
    asset_where(latest.assets@, |name: Seq<char>| ends_with(name, ASSET_SUFFIX@), 0)
}

pub open spec fn sums_at(latest: Latest) -> int {
    asset_where(latest.assets@, |name: Seq<char>| name == SUMS_NAME@, 0)
}

/// The version that a release's tag names.
pub open spec fn tagged(latest: Latest) -> Seq<char> {
    without_leading(latest.tag_name@, 'v')
}

/// A development build has no place in the order, so it is offered the latest release.
pub open spec fn is_current(current: Seq<char>, found: (nat, nat, nat)) -> bool {
    match version_of(current) {
        Some(running) => !newer(found, running),
        None => false,
    }
}

/// A name that would become a path.
pub open spec fn is_path(name: Seq<char>) -> bool {
    name.contains('/') || name.contains('\\')
}

/// What is made of the latest release: an error, nothing, or an offer.
pub open spec fn offers(latest: Latest, current: Seq<char>, r: Result<Option<Release>, String>) -> bool {
    let at = package_at(latest);
    match version_of(tagged(latest)) {
        None => r matches Err(why) && why@ == "unexpected release tag "@ + latest.tag_name@,
        Some(found) => if is_current(current, found) {
            r matches Ok(None)
        } else if at >= latest.assets@.len() {
            // The release exists before its files have been uploaded.
            r matches Ok(None)
        } else if is_path(latest.assets@[at].name@) {
            // The name becomes a path in the archive folder.
            r matches Err(why) && why@ == "unexpected file name "@ + latest.assets@[at].name@
        } else {
            &&& r matches Ok(Some(release))
            &&& release.version@ == tagged(latest)
            &&& release.file_name == latest.assets@[at].name
            &&& release.url == latest.assets@[at].browser_download_url
            &&& release.size == latest.assets@[at].size
            &&& release.sums_url == (if sums_at(latest) < latest.assets@.len() {
                Some(latest.assets@[sums_at(latest)].browser_download_url)
            } else {
                None
            })
        },
    }
}

fn find_package(assets: &Vec<Asset>) -> (r: Option<usize>)
    ensures
        ({
            let at = asset_where(assets@, |name: Seq<char>| ends_with(name, ASSET_SUFFIX@), 0);
            match r {
                Some(i) => i < assets@.len() && at == i,
                None => at >= assets@.len(),
            }
        }),
{
    let ghost f = |name: Seq<char>| ends_with(name, ASSET_SUFFIX@);
    let mut i: usize = 0;
    while i < assets.len()
        invariant
            i <= assets@.len(),
            f == (|name: Seq<char>| ends_with(name, ASSET_SUFFIX@)),
            asset_where(assets@, f, i as int) == asset_where(assets@, f, 0),
        decreases assets@.len() - i,
    {
        if ends(assets[i].name.as_str(), ASSET_SUFFIX) {
            return Some(i);
        }
        i += 1;
    }
    None
}

fn find_sums(assets: &Vec<Asset>) -> (r: Option<usize>)
    ensures
        ({
            let at = asset_where(assets@, |name: Seq<char>| name == SUMS_NAME@, 0);
            match r {
                Some(i) => i < assets@.len() && at == i,
                None => at >= assets@.len(),
            }
        }),
{
    let ghost f = |name: Seq<char>| name == SUMS_NAME@;
    let mut i: usize = 0;
    while i < assets.len()
        invariant
            i <= assets@.len(),
            f == (|name: Seq<char>| name == SUMS_NAME@),
            asset_where(assets@, f, i as int) == asset_where(assets@, f, 0),
        decreases assets@.len() - i,
    {
        if same(assets[i].name.as_str(), SUMS_NAME) {
            return Some(i);
        }
        i += 1;
    }
    None
}

/// The release to offer, if the latest is newer than the running version and has its file.
pub fn newer_release(latest: &Latest, current: &str) -> (r: Result<Option<Release>, String>)
    ensures
        offers(*latest, current@, r),
{
    let version = drop_leading(latest.tag_name.as_str(), 'v');
    let found = match parse_version(version.as_str()) {
        Some(found) => found,
        None => {
            return Err(joined("unexpected release tag ", latest.tag_name.as_str()));
        },
    };
    if let Some(running) = parse_version(current) {
        if !is_newer(found, running) {
            return Ok(None);
        }
    }
    let at = match find_package(&latest.assets) {
        Some(i) => i,
        None => {
            return Ok(None);
        },
    };
    let asset = &latest.assets[at];
    if has_char(asset.name.as_str(), '/') || has_char(asset.name.as_str(), '\\') {
        return Err(joined("unexpected file name ", asset.name.as_str()));
    }
    let sums_url = match find_sums(&latest.assets) {
        Some(i) => Some(latest.assets[i].browser_download_url.clone()),
        None => None,
    };
    Ok(
        Some(
            Release {
                version,
                file_name: asset.name.clone(),
                url: asset.browser_download_url.clone(),
                size: asset.size,
                sums_url,
            },
        ),
    )
}

proof fn lemma_asset_where(assets: Seq<Asset>, f: spec_fn(Seq<char>) -> bool, from: int)
    requires
        0 <= from <= assets.len(),
    ensures
        from <= asset_where(assets, f, from) <= assets.len(),
        asset_where(assets, f, from) < assets.len() ==> f(
            assets[asset_where(assets, f, from)].name@,
        ),
    decreases assets.len() - from,
{
    if from < assets.len() && !f(assets[from].name@) {
        lemma_asset_where(assets, f, from + 1);
    }
}

/// An offer is never the running version nor an older one, and its file lies in the archive
/// folder itself, under a name that the Archive Manager lists.
pub proof fn offers_are_newer_files(latest: Latest, current: Seq<char>, release: Release)
    requires
        offers(latest, current, Ok(Some(release))),
    ensures
        version_of(current) matches Some(running) ==> version_of(release.version@) matches Some(v)
            && newer(v, running),
        !is_path(release.file_name@),
        ends_with(release.file_name@, ASSET_SUFFIX@),
{
    lemma_asset_where(latest.assets@, |name: Seq<char>| ends_with(name, ASSET_SUFFIX@), 0);
}

// ---------------------------------------------------------------------------
// Checksums
// ---------------------------------------------------------------------------

/// The checksum that a line gives to a file.
pub open spec fn sum_in(line: Seq<char>, file_name: Seq<char>) -> Option<Seq<char>> {
    match split_once(line, |c: char| is_space(c)) {
        Some((sum, name)) => if without_leading(trim_start(name), '*') == file_name {
            Some(sum)
        } else {
            None
        },
        None => None,
    }
}

/// The first checksum that the lines from `from` on give to a file.
pub open spec fn sum_from(all: Seq<Seq<char>>, from: int, file_name: Seq<char>) -> Option<Seq<char>>
    decreases all.len() - from,
{
    if from >= all.len() {
        None
    } else {
        match sum_in(all[from], file_name) {
            Some(sum) => Some(sum),
            None => sum_from(all, from + 1, file_name),
        }
    }
}

/// The checksum that a list gives to a file.
pub fn listed_sum(sums: &str, file_name: &str) -> (r: Option<String>)
    ensures
        text_of(r) == sum_from(lines(sums@), 0, file_name@),
{
    let list = split_lines(sums);
    let ghost all = texts(list@);
    let mut i: usize = 0;
    while i < list.len()
        invariant
            i <= list@.len(),
            all == texts(list@),
            all == lines(sums@),
            sum_from(all, i as int, file_name@) == sum_from(all, 0, file_name@),
        decreases list@.len() - i,
    {
        assert(all[i as int] == list@[i as int]@);
        if let Some((sum, name)) = split_at_space(list[i].as_str()) {
            let name = drop_leading(trimmed_start(name.as_str()).as_str(), '*');
            if same(name.as_str(), file_name) {
                return Some(sum);
            }
        }
        i += 1;
    }
    None
}

/// The checksum that a download has to have: none where the release lists none, in small
/// letters where it does. `sums` is the list, where the release has one.
pub fn expected_sum(release: &Release, sums: Option<&str>) -> (r: Result<Option<String>, &'static str>)
    ensures
        match sums {
            None => r matches Ok(None),
            Some(text) => match sum_from(lines(text@), 0, release.file_name@) {
                Some(sum) => r matches Ok(Some(wanted)) && wanted@ == lowercase(sum),
                None => r matches Err(why) && why@ == "the release has no checksum for it"@,
            },
        },
{
    match sums {
        None => Ok(None),
        Some(text) => match listed_sum(text, release.file_name.as_str()) {
            Some(sum) => Ok(Some(to_lowercase(sum.as_str()))),
            None => Err("the release has no checksum for it"),
        },
    }
}

/// A digit of a number in base sixteen.
pub open spec fn hex_digit(n: int) -> char {
    if n < 10 {
        digit(n as nat)
    } else {
        (87 + n) as u8 as char
    }
}

/// Bytes in base sixteen, two small digits each.
pub open spec fn hex(bytes: Seq<u8>) -> Seq<char> {
    Seq::new(
        2 * bytes.len(),
        |i: int|
            hex_digit(
                if i % 2 == 0 {
                    bytes[i / 2] as int / 16
                } else {
                    bytes[i / 2] as int % 16
                },
            ),
    )
}

fn push_hex(out: &mut String, n: u8)
    requires
        n < 16,
    ensures
        final(out)@ == old(out)@.push(hex_digit(n as int)),
{
    if n < 10 {
        let text = number_text(n as u64);
        assert(text@ =~= seq![digit(n as nat)]);
        let ghost before = out@;
        out.append(text.as_str());
        assert(out@ =~= before.push(digit(n as nat)));
    } else {
        out.push((87 + n) as char);
    }
}

/// Bytes in base sixteen, two small digits each.
pub fn hex_text(bytes: &Vec<u8>) -> (r: String)
    ensures
        r@ == hex(bytes@),
{
    let mut r = String::new();
    let mut i: usize = 0;
    assert(r@ =~= hex(bytes@).take(0));
    while i < bytes.len()
        invariant
            i <= bytes@.len(),
            r@ == hex(bytes@).take(2 * i),
        decreases bytes@.len() - i,
    {
        let b = bytes[i];
        push_hex(&mut r, b / 16);
        push_hex(&mut r, b % 16);
        proof {
            assert((2 * i) / 2 == i && (2 * i) % 2 == 0);
            assert((2 * i + 1) / 2 == i && (2 * i + 1) % 2 == 1);
            assert(r@ =~= hex(bytes@).take(2 * (i + 1)));
        }
        i += 1;
    }
    assert(hex(bytes@).take(2 * i) =~= hex(bytes@));
    r
}

// ---------------------------------------------------------------------------
// The download
// ---------------------------------------------------------------------------

/// A hasher of the `sha2` crate.
#[verifier::external_type_specification]
#[verifier::external_body]
pub struct ExHasher(Sha256);

/// The bytes that a hasher holds: all that it was given, in order.
pub uninterp spec fn held(hasher: Sha256) -> Seq<u8>;

/// `Sha256::new`: a hasher that was given nothing.
#[verifier::external_body]
fn new_hasher() -> (r: Sha256)
    ensures
        held(r) == Seq::<u8>::empty(),
{
    Sha256::new()
}

/// `Sha256::update`: the bytes go behind those that the hasher holds.
#[verifier::external_body]
fn give(hasher: &mut Sha256, bytes: &[u8])
    ensures
        held(*final(hasher)) == held(*old(hasher)) + bytes@,
{
    hasher.update(bytes);
}

/// `Sha256::finalize`: the digest of the bytes that the hasher holds.
#[verifier::external_body]
fn finish(hasher: Sha256) -> (r: Vec<u8>)
    ensures
        r@ == sha256(held(hasher)),
        r@.len() == 32,
{
    hasher.finalize().to_vec()
}

/// A download under way.
pub struct Fetch {
    /// How many bytes have come.
    pub done: u64,
    /// The percentage that was last told.
    pub last: u8,
    pub hasher: Sha256,
}

/// How much of a file is here, in whole percent.
pub open spec fn percent_of(done: int, size: int) -> int {
    let percent = done * 100 / (if size < 1 {
        1
    } else {
        size
    });
    if percent < 100 {
        percent
    } else {
        100
    }
}

fn percent(done: u64, size: u64) -> (r: u8)
    ensures
        r == percent_of(done as int, size as int),
{
    let size: u128 = if size < 1 {
        1
    } else {
        size as u128
    };
    let whole: u128 = done as u128 * 100 / size;
    if whole < 100 {
        whole as u8
    } else {
        100
    }
}

impl Fetch {
    /// The bytes that have come.
    pub open spec fn received(&self) -> Seq<u8> {
        held(self.hasher)
    }

    /// As many bytes were counted as have come.
    pub open spec fn wf(&self) -> bool {
        self.done == self.received().len()
    }

    pub fn new() -> (r: Self)
        ensures
            r.wf(),
            r.received() == Seq::<u8>::empty(),
            r.last == 0,
    {
        Fetch { done: 0, last: 0, hasher: new_hasher() }
    }

    /// Takes the next bytes. Says how many have come, where that is another percentage of the
    /// whole than was last told.
    pub fn take(&mut self, bytes: &[u8], size: u64) -> (r: Option<u64>)
        requires
            old(self).wf(),
            old(self).done + bytes@.len() <= u64::MAX,
        ensures
            final(self).wf(),
            final(self).received() == old(self).received() + bytes@,
            final(self).last == percent_of(final(self).done as int, size as int),
            r == (if percent_of(final(self).done as int, size as int) != old(self).last {
                Some(final(self).done)
            } else {
                None
            }),
    {
        give(&mut self.hasher, bytes);
        self.done = self.done + bytes.len() as u64;
        let now = percent(self.done, size);
        if now != self.last {
            self.last = now;
            Some(self.done)
        } else {
            None
        }
    }

    /// Whether the download is what it should be: all of it, and with its checksum where that
    /// is known.
    pub fn check(self, size: u64, expected: Option<&str>) -> (r: Result<(), String>)
        requires
            self.wf(),
        ensures
            fetched(self.received(), size, match expected {
                Some(sum) => Some(sum@),
                None => None,
            }, r),
    {
        if self.done != size {
            let mut why = joined3("got ", number_text(self.done).as_str(), " of ");
            why.append(number_text(size).as_str());
            why.append(" bytes");
            return Err(why);
        }
        let sum = hex_text(&finish(self.hasher));
        match expected {
            Some(expected) => {
                if !same(expected, sum.as_str()) {
                    return Err("the download doesn't match its checksum".to_owned());
                }
            },
            None => {},
        }
        Ok(())
    }
}

/// What is made of a download: good exactly if all of it is here and its checksum is the one
/// that was listed, where one was.
pub open spec fn fetched(
    bytes: Seq<u8>,
    size: u64,
    expected: Option<Seq<char>>,
    r: Result<(), String>,
) -> bool {
    if bytes.len() != size {
        r matches Err(why) && why@ == "got "@ + decimal(bytes.len()) + " of "@ + decimal(
            size as nat,
        ) + " bytes"@
    } else if expected is Some && expected != Some(hex(sha256(bytes))) {
        r matches Err(why) && why@ == "the download doesn't match its checksum"@
    } else {
        r is Ok
    }
}

/// Where a partial download goes. The Archive Manager lists .muxapp files, so a partial one is
/// kept under another name.
pub fn partial_name(release: &Release) -> (r: String)
    ensures
        r@ == release.file_name@ + ".part"@,
{
    joined(release.file_name.as_str(), ".part")
}

// ---------------------------------------------------------------------------
// The state of updating
// ---------------------------------------------------------------------------

#[derive(Debug, PartialEq, Eq)]
pub enum State {
    Idle,
    Checking,
    UpToDate,
    Failed(String),
    Available(Release),
    Downloading {
        release: Release,
        done: u64,
    },
    Ready(Release),
}

/// What the work in the background reports.
#[derive(Debug, PartialEq, Eq)]
pub enum Msg {
    Checked(Result<Option<Release>, String>),
    Progress(u64),
    Downloaded(Result<(), String>),
}

#[derive(Debug)]
pub struct SelfUpdate {
    pub state: State,
}

/// Nothing is under way that a new check would disturb.
pub open spec fn may_check(state: State) -> bool {
    state is Idle || state is UpToDate || state is Failed
}

/// What a report makes of the state.
pub open spec fn reported(pre: State, msg: Msg, post: State) -> bool {
    match (msg, pre) {
        (Msg::Checked(Ok(Some(release))), _) => post == State::Available(release),
        (Msg::Checked(Ok(None)), _) => post is UpToDate,
        (Msg::Checked(Err(error)), _) => post matches State::Failed(words) && words@
            == "Couldn't check for an update: "@ + error@,
        (Msg::Progress(done), State::Downloading { release, .. }) => post == (State::Downloading {
            release,
            done,
        }),
        (Msg::Downloaded(Ok(_)), State::Downloading { release, .. }) => post == State::Ready(
            release,
        ),
        (Msg::Downloaded(Err(error)), State::Downloading { .. }) => post matches State::Failed(
            words,
        ) && words@ == "Couldn't download the update: "@ + error@,
        _ => post == pre,
    }
}

/// The report says that the download is done.
pub open spec fn is_finish(pre: State, msg: Msg) -> bool {
    pre is Downloading && msg matches Msg::Downloaded(Ok(_))
}

/// Reports were taken in, one after the other.
pub open spec fn all_reported(states: Seq<State>, msgs: Seq<Msg>) -> bool {
    &&& states.len() == msgs.len() + 1
    &&& forall|i: int|
        0 <= i < msgs.len() ==> reported(#[trigger] states[i], msgs[i], states[i + 1])
}

/// One of the reports says that the download is done.
pub open spec fn any_finish(states: Seq<State>, msgs: Seq<Msg>) -> bool {
    exists|i: int| 0 <= i < msgs.len() && is_finish(#[trigger] states[i], msgs[i])
}

/// What is left once a message has been read.
pub open spec fn put_away(state: State) -> State {
    if state is UpToDate || state is Failed {
        State::Idle
    } else {
        state
    }
}

/// What is on offer is fetched, from its start.
pub open spec fn download_begun(pre: State, post: State, fetch: Option<Release>) -> bool {
    match pre {
        State::Available(release) => fetch == Some(release) && post == (State::Downloading {
            release,
            done: 0,
        }),
        _ => fetch is None && post == pre,
    }
}

impl SelfUpdate {
    pub fn new() -> (r: Self)
        ensures
            r.state is Idle,
    {
        SelfUpdate { state: State::Idle }
    }

    /// Only muOS has an archive folder to download into; a folder given by hand turns updating
    /// on elsewhere.
    pub fn supported(on_muos: bool, dir_given: bool) -> (r: bool)
        ensures
            r == (on_muos || dir_given),
    {
        on_muos || dir_given
    }

    pub fn state(&self) -> (r: &State)
        ensures
            *r == self.state,
    {
        &self.state
    }

    /// Puts away what a check that came to nothing said.
    pub fn dismiss(&mut self)
        ensures
            final(self).state == put_away(old(self).state),
    {
        match self.state {
            State::UpToDate | State::Failed(_) => {
                self.state = State::Idle;
            },
            _ => {},
        }
    }

    /// Begins a check, unless something is under way. Says whether to look.
    pub fn check(&mut self) -> (r: bool)
        ensures
            r == may_check(old(self).state),
            final(self).state == (if may_check(old(self).state) {
                State::Checking
            } else {
                old(self).state
            }),
    {
        match self.state {
            State::Idle | State::UpToDate | State::Failed(_) => {
                self.state = State::Checking;
                true
            },
            _ => false,
        }
    }

    /// Begins the download of what is on offer. Says what to fetch.
    pub fn download(&mut self) -> (r: Option<Release>)
        ensures
            download_begun(old(self).state, final(self).state, r),
    {
        let release = match &self.state {
            State::Available(release) => release.clone(),
            _ => {
                return None;
            },
        };
        self.state = State::Downloading { release: release.clone(), done: 0 };
        Some(release)
    }

    fn report(&mut self, msg: Msg) -> (r: bool)
        ensures
            reported(old(self).state, msg, final(self).state),
            r == is_finish(old(self).state, msg),
    {
        match msg {
            Msg::Checked(Ok(Some(release))) => {
                self.state = State::Available(release);
                false
            },
            Msg::Checked(Ok(None)) => {
                self.state = State::UpToDate;
                false
            },
            Msg::Checked(Err(error)) => {
                self.state = State::Failed(
                    joined("Couldn't check for an update: ", error.as_str()),
                );
                false
            },
            Msg::Progress(now) => {
                if let State::Downloading { done, .. } = &mut self.state {
                    *done = now;
                }
                false
            },
            Msg::Downloaded(Ok(())) => {
                let release = match &self.state {
                    State::Downloading { release, .. } => release.clone(),
                    _ => {
                        return false;
                    },
                };
                self.state = State::Ready(release);
                true
            },
            Msg::Downloaded(Err(error)) => {
                let downloading = match &self.state {
                    State::Downloading { .. } => true,
                    _ => false,
                };
                if downloading {
                    self.state = State::Failed(
                        joined("Couldn't download the update: ", error.as_str()),
                    );
                }
                false
            },
        }
    }

    /// Takes in what was reported, oldest first. True when a download just finished.
    pub fn poll(&mut self, msgs: Vec<Msg>) -> (r: bool)
        ensures
            exists|states: Seq<State>| #[trigger]
                all_reported(states, msgs@) && states[0] == old(self).state && states.last()
                    == final(self).state && r == any_finish(states, msgs@),
    {
        let ghost all = msgs@;
        let mut msgs = msgs;
        let mut finished = false;
        let ghost mut states: Seq<State> = seq![self.state];
        let ghost mut done: int = 0;
        assert(all.skip(0) =~= all);
        while msgs.len() > 0
            invariant
                0 <= done <= all.len(),
                msgs@ == all.skip(done),
                states.len() == done + 1,
                states[0] == old(self).state,
                states.last() == self.state,
                finished == exists|i: int|
                    0 <= i < done && is_finish(#[trigger] states[i], all[i]),
                forall|i: int|
                    0 <= i < done ==> reported(#[trigger] states[i], all[i], states[i + 1]),
            decreases msgs@.len(),
        {
            let msg = msgs.remove(0);
            assert(msg == all[done]);
            assert(msgs@ =~= all.skip(done + 1));
            let ghost before = finished;
            let now = self.report(msg);
            if now {
                finished = true;
            }
            proof {
                let longer = states.push(self.state);
                assert(is_finish(states[done], all[done]) == now);
                assert forall|i: int| 0 <= i < done + 1 implies reported(
                    #[trigger] longer[i],
                    all[i],
                    longer[i + 1],
                ) by {
                    if i < done {
                        assert(longer[i] == states[i] && longer[i + 1] == states[i + 1]);
                    }
                }
                assert(finished == exists|i: int|
                    0 <= i < done + 1 && is_finish(#[trigger] longer[i], all[i])) by {
                    if now {
                        assert(is_finish(longer[done], all[done]));
                    }
                    if before {
                        let i = choose|i: int|
                            0 <= i < done && is_finish(#[trigger] states[i], all[i]);
                        assert(is_finish(longer[i], all[i]));
                    }
                    if exists|i: int|
                        0 <= i < done + 1 && is_finish(#[trigger] longer[i], all[i]) {
                        let i = choose|i: int|
                            0 <= i < done + 1 && is_finish(#[trigger] longer[i], all[i]);
                        if i < done {
                            assert(is_finish(states[i], all[i]));
                        }
                    }
                }
                states = longer;
                done = done + 1;
            }
        }
        proof {
            assert(all_reported(states, all));
        }
        finished
    }
}

/// A download that is under way is not disturbed by a check or a dismissal, and what it
/// reports is taken in only while it is under way.
pub proof fn downloads_are_not_disturbed(release: Release, done: u64, msg: Msg, post: State)
    requires
        !(msg is Checked),
    ensures
        !may_check(State::Downloading { release, done }),
        reported(State::Ready(release), msg, post) ==> post == State::Ready(release),
        reported(State::Idle, msg, post) ==> post is Idle,
{
}

// ---------------------------------------------------------------------------
// What holds of updating as a whole
// ---------------------------------------------------------------------------

/// A version is newer where the first number that differs is larger.
pub proof fn larger_numbers_are_newer(x: nat, y: nat, z: nat, more: nat, any: (nat, nat))
    requires
        more > 0,
    ensures
        newer((x + more, any.0, any.1), (x, y, z)),
        newer((x, y + more, any.1), (x, y, z)),
        newer((x, y, z + more), (x, y, z)),
        !newer((x, y, z), (x, y, z)),
        !newer((x, y, z), (x + more, any.0, any.1)),
{
}

proof fn lemma_part(a: Seq<char>, b: Seq<char>)
    requires
        !b.contains('.'),
    ensures
        split(a.push('.') + b, '.') == split(a, '.').push(b),
    decreases b.len(),
{
    let all = a.push('.') + b;
    if b.len() == 0 {
        assert(all =~= a.push('.'));
        assert(a.push('.').drop_last() =~= a);
        assert(b =~= Seq::empty());
    } else {
        let rest = b.drop_last();
        assert(!rest.contains('.')) by {
            if rest.contains('.') {
                let k = choose|k: int| 0 <= k < rest.len() && rest[k] == '.';
                assert(b[k] == '.');
            }
        }
        lemma_part(a, rest);
        assert(all.drop_last() =~= a.push('.') + rest);
        assert(all.last() == b[b.len() - 1]);
        assert(b[b.len() - 1] != '.');
        let before = split(a, '.').push(rest);
        assert(before.drop_last() =~= split(a, '.'));
        assert(rest.push(b.last()) =~= b);
    }
}

proof fn lemma_dotless(n: nat)
    ensures
        !decimal(n).contains('.'),
{
    crate::text::numbers_read_back(n, n);
    if decimal(n).contains('.') {
        let k = choose|k: int| 0 <= k < decimal(n).len() && decimal(n)[k] == '.';
        assert(crate::text::is_digit(decimal(n)[k]));
    }
}

/// A version of three numbers reads as those numbers.
pub proof fn versions_read_as_their_numbers(x: nat, y: nat, z: nat)
    requires
        x <= u64::MAX,
        y <= u64::MAX,
        z <= u64::MAX,
    ensures
        version_of(decimal(x).push('.') + decimal(y).push('.') + decimal(z)) == Some((x, y, z)),
{
    let max = u64::MAX as nat;
    crate::text::numbers_read_back(x, max);
    crate::text::numbers_read_back(y, max);
    crate::text::numbers_read_back(z, max);
    lemma_dotless(x);
    lemma_dotless(y);
    lemma_dotless(z);
    let first = decimal(x);
    crate::text::splitting_loses_nothing(first, '.');
    assert(crate::text::join(split(first, '.'), seq!['.']) == split(first, '.')[0]);
    assert(split(first, '.') =~= seq![first]);
    let two = first.push('.') + decimal(y);
    lemma_part(first, decimal(y));
    lemma_part(two, decimal(z));
    assert(first.push('.') + decimal(y).push('.') + decimal(z) =~= two.push('.') + decimal(z));
    let parts = split(two.push('.') + decimal(z), '.');
    assert(parts[0] == first && parts[1] == decimal(y) && parts[2] == decimal(z));
}

proof fn lemma_first_asset(assets: Seq<Asset>, f: spec_fn(Seq<char>) -> bool, from: int, i: int)
    requires
        0 <= from <= i <= assets.len(),
        forall|k: int| from <= k < i ==> !f((#[trigger] assets[k]).name@),
        i < assets.len() ==> f(assets[i].name@),
    ensures
        asset_where(assets, f, from) == i,
    decreases i - from,
{
    if from < i {
        assert(!f(assets[from].name@));
        lemma_first_asset(assets, f, from + 1, i);
    }
}

/// A newer release is offered with the first of its files that is a package, by that file's
/// name, address and size; one that is not newer, or has no package yet, is not.
pub proof fn newer_packages_are_offered(
    latest: Latest,
    current: Seq<char>,
    found: (nat, nat, nat),
    running: (nat, nat, nat),
    i: int,
    r: Result<Option<Release>, String>,
)
    requires
        offers(latest, current, r),
        version_of(without_leading(latest.tag_name@, 'v')) == Some(found),
        version_of(current) == Some(running),
        0 <= i <= latest.assets@.len(),
        forall|k: int|
            0 <= k < i ==> !ends_with((#[trigger] latest.assets@[k]).name@, "-muos.muxapp"@),
        i < latest.assets@.len() ==> ends_with(latest.assets@[i].name@, "-muos.muxapp"@),
    ensures
        !newer(found, running) ==> r == Ok::<Option<Release>, String>(None),
        i == latest.assets@.len() ==> r == Ok::<Option<Release>, String>(None),
        newer(found, running) && i < latest.assets@.len() && !latest.assets@[i].name@.contains('/')
            && !latest.assets@[i].name@.contains('\\') ==> (r matches Ok(Some(release))
            && release.file_name == latest.assets@[i].name && release.url
            == latest.assets@[i].browser_download_url && release.size == latest.assets@[i].size
            && release.version@ == without_leading(latest.tag_name@, 'v')),
        newer(found, running) && i < latest.assets@.len() && latest.assets@[i].name@.contains('/')
            ==> r is Err,
{
    let f = |name: Seq<char>| ends_with(name, ASSET_SUFFIX@);
    assert(ASSET_SUFFIX@ == "-muos.muxapp"@);
    lemma_first_asset(latest.assets@, f, 0, i);
    assert(package_at(latest) == i);
}

/// The checksums of a release are those of its file of that name.
pub proof fn sums_come_from_their_file(latest: Latest, current: Seq<char>, release: Release, i: int)
    requires
        offers(latest, current, Ok(Some(release))),
        0 <= i <= latest.assets@.len(),
        forall|k: int| 0 <= k < i ==> (#[trigger] latest.assets@[k]).name@ != "SHA256SUMS"@,
        i < latest.assets@.len() ==> latest.assets@[i].name@ == "SHA256SUMS"@,
    ensures
        i < latest.assets@.len() ==> release.sums_url == Some(
            latest.assets@[i].browser_download_url,
        ),
        i == latest.assets@.len() ==> release.sums_url is None,
{
    let f = |name: Seq<char>| name == SUMS_NAME@;
    assert(SUMS_NAME@ == "SHA256SUMS"@);
    lemma_first_asset(latest.assets@, f, 0, i);
    assert(sums_at(latest) == i);
}

/// The sum of a file is that of the first line that names it.
pub proof fn the_first_line_that_names_a_file_counts(
    all: Seq<Seq<char>>,
    from: int,
    i: int,
    file_name: Seq<char>,
)
    requires
        0 <= from <= i <= all.len(),
        forall|k: int| from <= k < i ==> sum_in(#[trigger] all[k], file_name) is None,
        i < all.len() ==> sum_in(all[i], file_name) is Some,
    ensures
        i < all.len() ==> sum_from(all, from, file_name) == sum_in(all[i], file_name),
        i == all.len() ==> sum_from(all, from, file_name) is None,
    decreases i - from,
{
    if from < i {
        assert(sum_in(all[from], file_name) is None);
        the_first_line_that_names_a_file_counts(all, from + 1, i, file_name);
    }
}

/// A line gives the sum before its first space to the file named behind it, whether or not a
/// star stands before the name; it gives none to any other file.
pub proof fn lines_give_sums_to_their_file(sum: Seq<char>, name: Seq<char>, other: Seq<char>)
    requires
        forall|i: int| 0 <= i < sum.len() ==> !is_space(#[trigger] sum[i]),
        name.len() > 0,
        !is_space(name[0]),
        name[0] != '*',
    ensures
        sum_in(sum.push(' ') + seq![' '] + name, name) == Some(sum),
        sum_in(sum.push(' ') + seq!['*'] + name, name) == Some(sum),
        other != name ==> sum_in(sum.push(' ') + seq![' '] + name, other) is None,
{
    let f = |c: char| is_space(c);
    let plain = sum.push(' ') + seq![' '] + name;
    let starred = sum.push(' ') + seq!['*'] + name;
    lemma_first_space(sum, seq![' '] + name);
    lemma_first_space(sum, seq!['*'] + name);
    assert(plain =~= sum.push(' ') + (seq![' '] + name));
    assert(starred =~= sum.push(' ') + (seq!['*'] + name));
    let spaced = seq![' '] + name;
    assert(spaced[0] == ' ');
    assert(spaced.skip(1) =~= name);
    assert(trim_start(spaced) == trim_start(name));
    assert(trim_start(name) == name);
    assert(without_leading(name, '*') == name);
    let marked = seq!['*'] + name;
    assert(marked[0] == '*');
    assert(marked.skip(1) =~= name);
    assert(trim_start(marked) == marked);
    assert(without_leading(marked, '*') == without_leading(name, '*'));
}

proof fn lemma_first_space(sum: Seq<char>, rest: Seq<char>)
    requires
        forall|i: int| 0 <= i < sum.len() ==> !is_space(#[trigger] sum[i]),
    ensures
        split_once(sum.push(' ') + rest, |c: char| is_space(c)) == Some((sum, rest)),
{
    let f = |c: char| is_space(c);
    let line = sum.push(' ') + rest;
    crate::text::splitting_once_goes_by_the_first(line, f);
    assert(line[sum.len() as int] == ' ');
    if let Some((a, b)) = split_once(line, f) {
        if a.len() < sum.len() {
            assert(f(line[a.len() as int]));
            assert(line[a.len() as int] == sum[a.len() as int]);
        } else if a.len() > sum.len() {
            assert(!f(a[sum.len() as int]));
            assert((a.push(line[a.len() as int]) + b)[sum.len() as int] == a[sum.len() as int]);
        }
        assert(a =~= sum) by {
            assert forall|i: int| 0 <= i < sum.len() implies a[i] == sum[i] by {
                assert((a.push(line[a.len() as int]) + b)[i] == a[i]);
                assert(line[i] == sum[i]);
            }
        }
        assert(b =~= rest) by {
            assert forall|i: int| 0 <= i < rest.len() implies b[i] == rest[i] by {
                assert((a.push(line[a.len() as int]) + b)[sum.len() + 1 + i] == b[i]);
                assert(line[sum.len() + 1 + i] == rest[i]);
            }
        }
    } else {
        assert(!f(line[sum.len() as int]));
    }
}

/// Bytes are written as two digits each, the higher half first: from 0 to 9 and from a to f.
pub proof fn bytes_are_written_in_two_digits(bytes: Seq<u8>, i: int)
    requires
        0 <= i < bytes.len(),
    ensures
        hex(bytes).len() == 2 * bytes.len(),
        ({
            let high = hex(bytes)[2 * i] as u32;
            let low = hex(bytes)[2 * i + 1] as u32;
            &&& bytes[i] < 160 ==> high == 0x30 + bytes[i] / 16
            &&& bytes[i] >= 160 ==> high == 0x57 + bytes[i] / 16
            &&& bytes[i] % 16 < 10 ==> low == 0x30 + bytes[i] % 16
            &&& bytes[i] % 16 >= 10 ==> low == 0x57 + bytes[i] % 16
        }),
{
    let a = bytes[i] as int / 16;
    let b = bytes[i] as int % 16;
    assert(hex(bytes)[2 * i] == hex_digit(a));
    assert((2 * i + 1) / 2 == i && (2 * i + 1) % 2 == 1);
    assert(hex(bytes)[2 * i + 1] == hex_digit(b));
    lemma_hex_digit(a);
    lemma_hex_digit(b);
}

proof fn lemma_hex_digit(n: int)
    requires
        0 <= n < 16,
    ensures
        n < 10 ==> hex_digit(n) as u32 == 0x30 + n,
        n >= 10 ==> hex_digit(n) as u32 == 0x57 + n,
{
}

/// A file that was fetched is kept exactly where all of it came and its sum is the one that was
/// promised, where one was.
pub proof fn files_are_kept_where_they_are_whole(
    bytes: Seq<u8>,
    size: u64,
    expected: Option<Seq<char>>,
    r: Result<(), String>,
)
    requires
        fetched(bytes, size, expected, r),
    ensures
        r is Ok <==> bytes.len() == size && (expected matches Some(sum) ==> sum == hex(
            sha256(bytes),
        )),
{
}

/// How far a download is goes from nothing to a hundred as the bytes come, and never back.
pub proof fn progress_goes_from_nothing_to_all(done: int, more: int, size: int)
    requires
        0 <= done <= more,
        size > 0,
    ensures
        0 <= percent_of(done, size) <= percent_of(more, size) <= 100,
        percent_of(0, size) == 0,
        done >= size ==> percent_of(done, size) == 100,
        done < size ==> percent_of(done, size) < 100,
{
    assert(done * 100 / size >= 0) by (nonlinear_arith)
        requires
            done >= 0,
            size > 0,
    ;
    assert(done * 100 / size <= more * 100 / size) by (nonlinear_arith)
        requires
            0 <= done <= more,
            size > 0,
    ;
    assert(0int * 100 / size == 0) by (nonlinear_arith)
        requires
            size > 0,
    ;
    if done >= size {
        assert(done * 100 / size >= 100) by (nonlinear_arith)
            requires
                done >= size,
                size > 0,
        ;
    } else {
        assert(done * 100 / size < 100) by (nonlinear_arith)
            requires
                0 <= done < size,
                size > 0,
        ;
    }
}

/// Updating goes from a check to an offer, from an offer to a download, and from there to a file
/// that is ready or to a failure that says why.
pub proof fn updating_goes_step_by_step(
    release: Release,
    done: u64,
    more: u64,
    error: String,
    pre: State,
    post: State,
    fetch: Option<Release>,
)
    ensures
        may_check(State::Idle) && may_check(State::UpToDate) && may_check(State::Failed(error)),
        !may_check(State::Checking) && !may_check(State::Available(release)) && !may_check(
            State::Ready(release),
        ),
        reported(pre, Msg::Checked(Ok(Some(release))), post) ==> post == State::Available(release),
        reported(pre, Msg::Checked(Ok(None)), post) ==> post is UpToDate,
        reported(pre, Msg::Checked(Err(error)), post) ==> post is Failed,
        reported(State::Downloading { release, done }, Msg::Progress(more), post) ==> post == (
        State::Downloading { release, done: more }),
        reported(State::Downloading { release, done }, Msg::Downloaded(Ok(())), post) ==> post
            == State::Ready(release),
        reported(State::Downloading { release, done }, Msg::Downloaded(Err(error)), post) ==> (
        post matches State::Failed(words) && words@ == "Couldn't download the update: "@ + error@),
        download_begun(State::Available(release), post, fetch) ==> fetch == Some(release) && post
            == (State::Downloading { release, done: 0 }),
        download_begun(pre, post, fetch) && !(pre is Available) ==> fetch is None && post == pre,
        put_away(State::UpToDate) is Idle && put_away(State::Failed(error)) is Idle,
        put_away(State::Available(release)) == State::Available(release),
        put_away(State::Downloading { release, done }) == (State::Downloading { release, done }),
        put_away(State::Ready(release)) == State::Ready(release),
        is_finish(State::Downloading { release, done }, Msg::Downloaded(Ok(()))),
        !is_finish(State::Downloading { release, done }, Msg::Downloaded(Err(error))),
{
}

/// A build that goes by no version is offered every release that has a package.
pub proof fn unnumbered_builds_are_offered_every_release(
    latest: Latest,
    current: Seq<char>,
    found: (nat, nat, nat),
    i: int,
    r: Result<Option<Release>, String>,
)
    requires
        offers(latest, current, r),
        version_of(without_leading(latest.tag_name@, 'v')) == Some(found),
        version_of(current) is None,
        0 <= i < latest.assets@.len(),
        forall|k: int|
            0 <= k < i ==> !ends_with((#[trigger] latest.assets@[k]).name@, "-muos.muxapp"@),
        ends_with(latest.assets@[i].name@, "-muos.muxapp"@),
        !latest.assets@[i].name@.contains('/') && !latest.assets@[i].name@.contains('\\'),
    ensures
        r matches Ok(Some(release)) && release.file_name == latest.assets@[i].name,
{
    let f = |name: Seq<char>| ends_with(name, ASSET_SUFFIX@);
    assert(ASSET_SUFFIX@ == "-muos.muxapp"@);
    lemma_first_asset(latest.assets@, f, 0, i);
    assert(package_at(latest) == i);
}

/// What is reported together is taken in one by one, each from where the one before it led.
pub proof fn reports_are_taken_in_one_by_one(states: Seq<State>, msgs: Seq<Msg>, i: int)
    requires
        all_reported(states, msgs),
        0 <= i < msgs.len(),
    ensures
        states.len() == msgs.len() + 1,
        reported(states[i], msgs[i], states[i + 1]),
{
}

} // verus!
