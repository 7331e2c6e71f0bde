//! Updating the program itself.
use zitch::self_update::{
    expected_sum, hex_text, listed_sum, newer_release, parse_version, partial_name, Asset, Fetch,
    Latest, Msg, Release, SelfUpdate, State,
};

fn latest(tag: &str, assets: &[&str]) -> Latest {
    Latest {
        tag_name: tag.to_string(),
        assets: assets
            .iter()
            .map(|name| Asset {
                name: name.to_string(),
                size: 10,
                browser_download_url: format!("https://example.com/{name}"),
            })
            .collect(),
    }
}

#[test]
fn versions() {
    assert_eq!(parse_version("0.1.0"), Some((0, 1, 0)));
    assert!(parse_version("0.10.0") > parse_version("0.9.0"));
    assert_eq!(parse_version("0.1.0-3-gabc1234"), None);
    assert_eq!(parse_version("abc1234"), None);
    assert_eq!(parse_version("0.1"), None);
    assert_eq!(parse_version("0.1.0.1"), None);
}

#[test]
fn offers_newer_only() {
    let json = latest("v0.2.0", &["zitch-0.2.0-muos.muxapp", "SHA256SUMS"]);
    let release = newer_release(&json, "0.1.0").unwrap().unwrap();
    assert_eq!(release.version, "0.2.0");
    assert_eq!(release.file_name, "zitch-0.2.0-muos.muxapp");
    assert!(release.sums_url.is_some());
    assert_eq!(newer_release(&json, "0.2.0").unwrap(), None);
    assert_eq!(newer_release(&json, "0.3.0").unwrap(), None);
}

#[test]
fn development_build_is_offered_latest() {
    let json = latest("v0.2.0", &["zitch-0.2.0-muos.muxapp"]);
    assert!(newer_release(&json, "abc1234").unwrap().is_some());
}

#[test]
fn release_without_muxapp_is_not_offered() {
    let json = latest("v0.2.0", &["zitch-0.2.0-linux-x64.tar.gz"]);
    assert_eq!(newer_release(&json, "0.1.0").unwrap(), None);
}

#[test]
fn rejects_path_in_file_name() {
    let json = latest("v0.2.0", &["../zitch-0.2.0-muos.muxapp"]);
    assert!(newer_release(&json, "0.1.0").is_err());
}

#[test]
fn finds_listed_sum() {
    let sums = "aaa  zitch-0.2.0-linux-x64.tar.gz\nbbb  zitch-0.2.0-muos.muxapp\nccc *other\n";
    assert_eq!(
        listed_sum(sums, "zitch-0.2.0-muos.muxapp").as_deref(),
        Some("bbb")
    );
    assert_eq!(listed_sum(sums, "other").as_deref(), Some("ccc"));
    assert_eq!(listed_sum(sums, "missing"), None);
}

fn release() -> Release {
    Release {
        version: "0.2.0".into(),
        file_name: "zitch-0.2.0-muos.muxapp".into(),
        url: "https://example.com/zitch".into(),
        size: 3,
        sums_url: None,
    }
}

#[test]
fn checksums_are_those_of_the_bytes() {
    // The standard's own example.
    let abc = "ba7816bf8f01cfea414140de5dae2223b00361a396177a9cb410ff61f20015ad";
    let mut fetch = Fetch::new();
    assert_eq!(fetch.take(b"a", 3), Some(1));
    assert_eq!(fetch.take(b"bc", 3), Some(3));
    assert_eq!(fetch.check(3, Some(abc)), Ok(()));
    let mut fetch = Fetch::new();
    fetch.take(b"abd", 3);
    assert_eq!(
        fetch.check(3, Some(abc)),
        Err("the download doesn't match its checksum".into())
    );
    let mut fetch = Fetch::new();
    fetch.take(b"ab", 3);
    assert_eq!(fetch.check(3, None), Err("got 2 of 3 bytes".into()));
    let mut fetch = Fetch::new();
    fetch.take(b"xyz", 3);
    assert_eq!(fetch.check(3, None), Ok(()));
    assert_eq!(hex_text(&vec![0x00, 0xab, 0x7f]), "00ab7f");
}

#[test]
fn sums_are_looked_up_where_they_are_published() {
    assert_eq!(expected_sum(&release(), None), Ok(None));
    let mut published = release();
    published.sums_url = Some("https://example.com/SHA256SUMS".into());
    assert_eq!(
        expected_sum(&published, Some("bbb  zitch-0.2.0-muos.muxapp\n")),
        Ok(Some("bbb".to_string()))
    );
    assert!(expected_sum(&published, Some("bbb  other\n")).is_err());
    assert!(partial_name(&release()).starts_with("zitch-0.2.0-muos.muxapp"));
    assert_ne!(partial_name(&release()), "zitch-0.2.0-muos.muxapp");
}

#[test]
fn a_check_leads_to_a_download() {
    let mut update = SelfUpdate::new();
    assert_eq!(update.state(), &State::Idle);
    assert!(update.download().is_none());
    assert!(update.check());
    assert!(!update.check());
    update.poll(vec![Msg::Checked(Ok(Some(release())))]);
    assert_eq!(update.state(), &State::Available(release()));
    assert_eq!(update.download(), Some(release()));
    // A download is not disturbed.
    assert!(!update.check());
    update.dismiss();
    update.poll(vec![Msg::Progress(2)]);
    assert_eq!(
        update.state(),
        &State::Downloading { release: release(), done: 2 }
    );
    assert!(update.poll(vec![Msg::Downloaded(Ok(()))]));
    assert_eq!(update.state(), &State::Ready(release()));
}

#[test]
fn failed_checks_say_so() {
    let mut update = SelfUpdate::new();
    update.check();
    update.poll(vec![Msg::Checked(Err("no network".into()))]);
    assert_eq!(
        update.state(),
        &State::Failed("Couldn't check for an update: no network".into())
    );
    assert!(update.check());
    update.poll(vec![Msg::Checked(Ok(None))]);
    assert_eq!(update.state(), &State::UpToDate);
    update.dismiss();
    assert_eq!(update.state(), &State::Idle);
    assert!(SelfUpdate::supported(true, true));
    assert!(!SelfUpdate::supported(false, false));
}
