//! The machine: its battery, its screen, what is told about it.
use serde_json::Value;
use zitch::battery::{find, read, Battery, Reading, Supply};
use zitch::device_info::{gather, set_resolution, Resolution, PIXEL};
use zitch::muos::Firmware;

fn supply(name: &str, fields: &[(&str, &str)]) -> Supply {
    let field = |wanted: &str| {
        fields
            .iter()
            .find(|(name, _)| *name == wanted)
            .map(|(_, value)| format!("{value}\n"))
    };
    Supply {
        name: name.to_string(),
        kind: field("type"),
        scope: field("scope"),
        capacity: field("capacity"),
        status: field("status"),
    }
}

#[test]
fn finds_the_system_battery() {
    let mut supplies = vec![
        supply("axp2202-usb", &[("type", "USB"), ("online", "1")]),
        supply(
            "hidpp_battery_0",
            &[("type", "Battery"), ("scope", "Device"), ("capacity", "50")],
        ),
        supply(
            "axp2202-battery",
            &[
                ("type", "Battery"),
                ("capacity", "67"),
                ("status", "Discharging"),
            ],
        ),
    ];
    let at = find(&supplies).unwrap();
    assert_eq!(supplies[at].name, "axp2202-battery");
    assert_eq!(
        read(&supplies[at]),
        Some(Reading {
            percent: 67,
            charging: false
        })
    );
    supplies[at].status = Some("Full\n".to_string());
    assert!(read(&supplies[at]).unwrap().charging);
}

#[test]
fn no_supplies_is_no_battery() {
    assert_eq!(find(&Vec::new()), None);
}

/// A length in parts of a pixel.
fn pixels(length: f64) -> i64 {
    (length * PIXEL as f64) as i64
}

#[test]
fn gathers_what_is_known() {
    let firmware = Firmware::none();
    let (os, arch) = ("linux", "aarch64");
    let mut resolution = Resolution::unknown();
    let info: Value =
        serde_json::from_str(&gather(&firmware, os, arch, None, &resolution)).unwrap();
    assert!(info.get("resolution").is_none());
    set_resolution(&mut resolution, pixels(0.0), pixels(480.0));
    assert_eq!(resolution.text(), None);

    set_resolution(&mut resolution, pixels(640.0), pixels(480.0));
    let info: Value =
        serde_json::from_str(&gather(&firmware, os, arch, None, &resolution)).unwrap();
    assert_eq!(info["os"], os);
    assert_eq!(info["arch"], arch);
    assert_eq!(info["resolution"], "640x480");
    assert!(info["platform"] == "desktop" || info["platform"] == "muos");
    // Off-device the muOS fields stay out rather than default.
    if info["platform"] == "desktop" {
        assert!(info.get("board").is_none());
        assert!(info.get("release").is_none());
        assert!(info.get("glibc").is_none());
    }
}

#[test]
fn the_first_battery_by_name_counts() {
    let battery = |name: &str| supply(name, &[("type", "Battery"), ("capacity", "5")]);
    let supplies = vec![battery("b"), battery("a"), supply("0", &[("type", "Mains")])];
    assert_eq!(find(&supplies), Some(1));
}

#[test]
fn charges_are_percentages_at_most() {
    let full = supply("a", &[("type", "Battery"), ("capacity", "250"), ("status", "Charging")]);
    assert_eq!(
        read(&full),
        Some(Reading { percent: 100, charging: true })
    );
    assert_eq!(read(&supply("a", &[("capacity", "some")])), None);
    assert_eq!(read(&supply("a", &[])), None);
}

#[test]
fn batteries_are_read_now_and_then() {
    let files = supply("a", &[("type", "Battery"), ("capacity", "40")]);
    let mut battery = Battery::new(Some(&files), 0);
    assert_eq!(battery.reading(Some(&files), 1).unwrap().percent, 40);
    assert!(!battery.due(1));
    assert!(battery.due(3_600_000_000_000));
    let mut none = Battery::new(None, 0);
    assert_eq!(none.reading(None, 5), None);
}

#[test]
fn handhelds_are_told_as_such() {
    let firmware = Firmware {
        script: Some("launch".into()),
        glibc: (2, 36),
        ..Firmware::none()
    };
    let mut resolution = Resolution::unknown();
    set_resolution(&mut resolution, pixels(1279.5), pixels(720.4));
    set_resolution(&mut resolution, pixels(-1.0), pixels(720.0));
    assert_eq!(resolution.text().as_deref(), Some("1280x720"));
    let told = gather(&firmware, "linux", "aarch64", Some("rg35xx-h"), &resolution);
    let info: Value = serde_json::from_str(&told).unwrap();
    assert_eq!(info["platform"], "muos");
    assert_eq!(info["board"], "rg35xx-h");
    assert_eq!(info["release"], "andromeda");
    assert_eq!(info["glibc"], "2.36");
}
