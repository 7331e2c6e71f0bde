//! The device's battery, for the header's indicator. Times are in nanoseconds since some
//! start.
use vstd::prelude::*;
use crate::text::{
    number, parse_number, precedes, same, sorts_before, text_order_is_total,
    text_order_is_transitive, trim, trimmed,
};

verus! {

/// How long a reading is good for.
pub const REFRESH: u64 = 30_000_000_000;

#[derive(Debug, Clone, Copy, PartialEq, Eq, Structural)]
pub struct Reading {
    pub percent: u8,
    /// On external power, whether still charging or full.
    pub charging: bool,
}

/// The files of a power supply that say something: their texts, where they could be read.
#[derive(Debug, PartialEq, Eq)]
pub struct Supply {
    /// The name of its folder.
    pub name: String,
    pub kind: Option<String>,
    pub scope: Option<String>,
    pub capacity: Option<String>,
    pub status: Option<String>,
}

/// A file's text without the white space around it.
pub open spec fn field(text: Option<String>) -> Option<Seq<char>> {
    match text {
        Some(text) => Some(trim(text@)),
        None => None,
    }
}

/// What a supply's files say of a charge.
pub open spec fn reading_of(supply: Supply) -> Option<Reading> {
    match field(supply.capacity) {
        Some(capacity) => match number(capacity, 255) {
            Some(percent) => Some(
                Reading {
                    percent: if percent < 100 {
                        percent as u8
                    } else {
                        100
                    },
                    charging: field(supply.status) == Some("Charging"@) || field(supply.status)
                        == Some("Full"@),
                },
            ),
            None => None,
        },
        None => None,
    }
}

/// The device's own battery, with a charge to read. Scope "Device" is a mouse's or
/// controller's battery.
pub open spec fn is_battery(supply: Supply) -> bool {
    &&& field(supply.kind) == Some("Battery"@)
    &&& field(supply.scope) != Some("Device"@)
    &&& reading_of(supply) is Some
}

fn field_is(text: &Option<String>, word: &str) -> (r: bool)
    ensures
        r == (field(*text) == Some(word@)),
{
    match text {
        Some(text) => same(trimmed(text.as_str()).as_str(), word),
        None => false,
    }
}

/// What a supply's files say of a charge.
pub fn read(supply: &Supply) -> (r: Option<Reading>)
    ensures
        r == reading_of(*supply),
{
    match &supply.capacity {
        Some(capacity) => match parse_number(trimmed(capacity.as_str()).as_str(), 255) {
            Some(percent) => Some(
                Reading {
                    percent: if percent < 100 {
                        percent as u8
                    } else {
                        100
                    },
                    charging: field_is(&supply.status, "Charging") || field_is(
                        &supply.status,
                        "Full",
                    ),
                },
            ),
            None => None,
        },
        None => None,
    }
}

/// The device's battery among the first `n` supplies: of several, the first by name. -1 if
/// there is none.
pub open spec fn battery_among(supplies: Seq<Supply>, n: int) -> int
    decreases n,
{
    if n <= 0 {
        -1
    } else {
        let before = battery_among(supplies, n - 1);
        if is_battery(supplies[n - 1]) && (before < 0 || precedes(
            supplies[n - 1].name@,
            supplies[before].name@,
        )) {
            n - 1
        } else {
            before
        }
    }
}

/// Which of the supplies is the device's battery: of several, the first by name.
pub fn find(supplies: &Vec<Supply>) -> (r: Option<usize>)
    ensures
        match r {
            Some(i) => i < supplies@.len() && battery_among(supplies@, supplies@.len() as int) == i,
            None => battery_among(supplies@, supplies@.len() as int) == -1,
        },
{
    let mut best: Option<usize> = None;
    let mut i: usize = 0;
    while i < supplies.len()
        invariant
            i <= supplies@.len(),
            match best {
                Some(k) => k < i && battery_among(supplies@, i as int) == k,
                None => battery_among(supplies@, i as int) == -1,
            },
        decreases supplies@.len() - i,
    {
        let supply = &supplies[i];
        if field_is(&supply.kind, "Battery") && !field_is(&supply.scope, "Device") && read(
            supply,
        ).is_some() {
            let first = match best {
                Some(k) => sorts_before(supply.name.as_str(), supplies[k].name.as_str()),
                None => true,
            };
            if first {
                best = Some(i);
            }
        }
        i += 1;
    }
    best
}

/// The battery and its last reading.
#[derive(Debug, Clone, Copy, PartialEq, Eq, Structural)]
pub struct Battery {
    /// Whether the device has one.
    pub here: bool,
    pub last: Option<Reading>,
    pub read_at: u64,
}

impl Battery {
    /// The last reading is too old to be shown.
    pub open spec fn is_due(self, now: u64) -> bool {
        now >= self.read_at && now - self.read_at >= REFRESH
    }

    /// The battery as found at the start, or the lack of one.
    pub fn new(battery: Option<&Supply>, now: u64) -> (r: Self)
        ensures
            r.here == (battery is Some),
            r.read_at == now,
            r.last == (match battery {
                Some(supply) => reading_of(*supply),
                None => None,
            }),
    {
        Battery {
            here: battery.is_some(),
            last: match battery {
                Some(supply) => read(supply),
                None => None,
            },
            read_at: now,
        }
    }

    /// Whether the battery's files are to be read again before the next reading.
    pub fn due(&self, now: u64) -> (r: bool)
        ensures
            r == self.is_due(now),
    {
        now >= self.read_at && now - self.read_at >= REFRESH
    }

    /// `None` on a device without a battery. `files` is what its files hold, where they were
    /// read again.
    pub fn reading(&mut self, files: Option<&Supply>, now: u64) -> (r: Option<Reading>)
        ensures
            *final(self) == (if old(self).is_due(now) {
                Battery {
                    here: old(self).here,
                    last: match files {
                        Some(supply) if old(self).here => reading_of(*supply),
                        _ => None,
                    },
                    read_at: now,
                }
            } else {
                *old(self)
            }),
            r == final(self).last,
    {
        if self.due(now) {
            self.last = match files {
                Some(supply) => if self.here {
                    read(supply)
                } else {
                    None
                },
                None => None,
            };
            self.read_at = now;
        }
        self.last
    }
}

/// A charge is never more than full.
pub proof fn charges_are_percentages(supply: Supply)
    ensures
        reading_of(supply) matches Some(reading) ==> reading.percent <= 100,
{
}

/// The battery that is found is one that can be read, and none that can be read has a name
/// before it; where none is found, none can be read.
pub proof fn the_battery_found_is_the_first_by_name(supplies: Seq<Supply>, n: int)
    requires
        0 <= n <= supplies.len(),
    ensures
        -1 <= battery_among(supplies, n) < n || battery_among(supplies, n) == -1,
        battery_among(supplies, n) >= 0 ==> is_battery(supplies[battery_among(supplies, n)]),
        forall|k: int|
            0 <= k < n && is_battery(#[trigger] supplies[k]) ==> battery_among(supplies, n) >= 0
                && !precedes(supplies[k].name@, supplies[battery_among(supplies, n)].name@),
    decreases n,
{
    if n > 0 {
        the_battery_found_is_the_first_by_name(supplies, n - 1);
        let before = battery_among(supplies, n - 1);
        let best = battery_among(supplies, n);
        assert forall|k: int| 0 <= k < n && is_battery(#[trigger] supplies[k]) implies best >= 0
            && !precedes(supplies[k].name@, supplies[best].name@) by {
            if k == n - 1 {
                text_order_is_total(supplies[k].name@, supplies[k].name@);
            } else if best == n - 1 {
                text_order_is_total(supplies[k].name@, supplies[before].name@);
                if precedes(supplies[k].name@, supplies[best].name@) {
                    text_order_is_transitive(
                        supplies[k].name@,
                        supplies[best].name@,
                        supplies[before].name@,
                    );
                }
            }
        }
    }
}

/// A battery's charge is the number it reports, a hundred at most, and it charges where it says
/// so or says that it is full. What reports no number has no reading.
pub proof fn readings_are_what_is_reported(supply: Supply, percent: nat)
    requires
        supply.capacity matches Some(text) && trim(text@) == crate::text::decimal(percent),
    ensures
        percent <= 100 ==> (reading_of(supply) matches Some(reading) && reading.percent == percent),
        100 < percent <= 255 ==> (reading_of(supply) matches Some(reading) && reading.percent
            == 100),
        percent > 255 ==> reading_of(supply) is None,
        reading_of(supply) matches Some(reading) ==> (reading.charging <==> (
        supply.status matches Some(status) && (trim(status@) == "Charging"@ || trim(status@)
            == "Full"@))),
{
    crate::text::numbers_read_back(percent, 255);
}

/// The device's battery is one that is none of a controller's, and that can be read.
pub proof fn batteries_of_other_devices_do_not_count(supply: Supply)
    ensures
        is_battery(supply) ==> (supply.kind matches Some(kind) && trim(kind@) == "Battery"@),
        is_battery(supply) ==> supply.capacity is Some,
        (supply.scope matches Some(scope) && trim(scope@) == "Device"@) ==> !is_battery(supply),
        (supply.kind matches Some(kind) && trim(kind@) == "Battery"@) && reading_of(supply) is Some
            && (supply.scope is None || (supply.scope matches Some(scope) && trim(scope@)
            != "Device"@)) ==> is_battery(supply),
{
}

/// The battery is read again half a minute after it was read last, not before.
pub proof fn readings_last_half_a_minute(battery: Battery, now: u64)
    ensures
        now >= battery.read_at + 30_000_000_000 ==> battery.is_due(now),
        now < battery.read_at + 30_000_000_000 ==> !battery.is_due(now),
{
}

} // verus!
