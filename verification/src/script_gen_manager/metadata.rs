//! Names and values shared by the instrument metadata.
use vstd::prelude::*;

use crate::script_gen_manager::device::DeviceType;
use crate::text::owned;

verus! {

pub const STYLE_LIN: &'static str = "LIN";
pub const STYLE_LOG: &'static str = "LOG";
pub const OFF_VALUE: &'static str = "OFF";
pub const ON_VALUE: &'static str = "ON";
pub const ONCE_VALUE: &'static str = "ONCE";
pub const AUTO_VALUE: &'static str = "AUTO";
pub const USER_DEFINED_VALUE: &'static str = "USER DEFINED";
pub const MOVING_AVG: &'static str = "MOVING AVG";
pub const REPEAT_AVG: &'static str = "REPEAT AVG";
pub const FUNCTION_VOLTAGE: &'static str = "Voltage";
pub const FUNCTION_CURRENT: &'static str = "Current";
pub const FUNCTION_IV: &'static str = "Current,Voltage";
pub const UNIT_VOLTS: &'static str = "V";
pub const UNIT_AMPERES: &'static str = "A";
pub const UNIT_SECONDS: &'static str = "s";
/// The normal measurement rate of a power supply.
pub const RATE_NORMAL: &'static str = "Normal";
/// The fast measurement rate of a power supply.
pub const RATE_FAST: &'static str = "Fast";

/// Metadata of the 26xx source-measure units.
#[derive(Debug)]
pub struct Ki26xxMetadata {}

impl Ki26xxMetadata {
    pub const AUTO_VALUE: &'static str = "AUTO";
    pub const SOURCE_MODE_HIGH_C: &'static str = "High-C";
    pub const STYLE_LIN: &'static str = "LIN";
    pub const FUNCTION_IV: &'static str = "current,voltage";

    /// The (empty) metadata.
    pub fn new() -> (r: Self) {
        Ki26xxMetadata {  }
    }
}

/// The voltage ranges of a source-measure unit.
pub open spec fn smu_voltage_ranges() -> Seq<Seq<char>> {
    seq!["AUTO"@, "200 mV"@, "2 V"@, "6 V"@, "20 V"@, "60 V"@]
}

/// The current ranges of a source-measure unit.
pub open spec fn smu_current_ranges() -> Seq<Seq<char>> {
    seq![
        "AUTO"@,
        "100 nA"@,
        "1 \u{00B5}A"@,
        "10 \u{00B5}A"@,
        "100 \u{00B5}A"@,
        "1 mA"@,
        "10 mA"@,
        "100 mA"@,
        "1 A"@,
        "1.5 A"@,
    ]
}

/// The range options that the metadata of a kind of device lists under `key`
/// (empty when it lists none).
pub open spec fn range_options_of(t: DeviceType, key: Seq<char>) -> Seq<Seq<char>> {
    match t {
        DeviceType::Smu => if key == "source_meas.rangev"@ {
            smu_voltage_ranges()
        } else if key == "source_meas.rangei"@ {
            smu_current_ranges()
        } else {
            Seq::empty()
        },
        DeviceType::Psu => if key == "source_meas.rangev"@ {
            seq!["50 V"@]
        } else if key == "source_meas.rangei"@ {
            seq!["5 A"@]
        } else {
            Seq::empty()
        },
        DeviceType::Unknown => Seq::empty(),
    }
}

/// The default range that the metadata of a kind of device gives under `key`.
pub open spec fn range_default_of(t: DeviceType, key: Seq<char>) -> Option<Seq<char>> {
    match t {
        DeviceType::Smu => if key == "source_meas.range.defaultv"@ || key
            == "source_meas.range.defaulti"@ {
            Some("AUTO"@)
        } else {
            None
        },
        DeviceType::Psu => if key == "source_meas.range.defaultv"@ {
            Some("50 V"@)
        } else if key == "source_meas.range.defaulti"@ {
            Some("5 A"@)
        } else {
            None
        },
        DeviceType::Unknown => None,
    }
}

/// The script's name for a metadata setting such as `sense=Two-wire`.
pub open spec fn name_of(t: DeviceType, key: Seq<char>) -> Option<Seq<char>> {
    match t {
        DeviceType::Smu => if key == "sense=Two-wire"@ {
            Some("SENSE_2WIRE"@)
        } else if key == "sense=Four-wire"@ {
            Some("SENSE_4WIRE"@)
        } else {
            None
        },
        _ => None,
    }
}

/// The unit of a source or measure function: volts for `Voltage`, amperes otherwise.
pub open spec fn unit_of(function: Seq<char>) -> Seq<char> {
    if function == "Voltage"@ {
        "V"@
    } else {
        "A"@
    }
}

/// The metadata key of the ranges of a function.
pub open spec fn range_key_of(function: Seq<char>) -> Seq<char> {
    if function == "Voltage"@ {
        "source_meas.rangev"@
    } else {
        "source_meas.rangei"@
    }
}

/// The metadata key of the default range of a function.
pub open spec fn default_key_of(function: Seq<char>) -> Seq<char> {
    if function == "Voltage"@ {
        "source_meas.range.defaultv"@
    } else {
        "source_meas.range.defaulti"@
    }
}

/// The views of a list of strings.
pub open spec fn views(v: Seq<String>) -> Seq<Seq<char>> {
    v.map_values(|s: String| s@)
}

/// Whether the text `s` is the literal `lit`.
fn str_is(s: &str, lit: &str) -> (r: bool)
    ensures
        r == (s@ == lit@),
{
    owned(s) == owned(lit)
}

/// The range options of a kind of device under `key`.
pub fn range_options(t: DeviceType, key: &str) -> (r: Vec<String>)
    ensures
        views(r@) == range_options_of(t, key@),
{
    let mut v: Vec<String> = Vec::new();
    match t {
        DeviceType::Smu => {
            if str_is(key, "source_meas.rangev") {
                v.push(owned("AUTO"));
                v.push(owned("200 mV"));
                v.push(owned("2 V"));
                v.push(owned("6 V"));
                v.push(owned("20 V"));
                v.push(owned("60 V"));
            } else if str_is(key, "source_meas.rangei") {
                v.push(owned("AUTO"));
                v.push(owned("100 nA"));
                v.push(owned("1 \u{00B5}A"));
                v.push(owned("10 \u{00B5}A"));
                v.push(owned("100 \u{00B5}A"));
                v.push(owned("1 mA"));
                v.push(owned("10 mA"));
                v.push(owned("100 mA"));
                v.push(owned("1 A"));
                v.push(owned("1.5 A"));
            }
        },
        DeviceType::Psu => {
            if str_is(key, "source_meas.rangev") {
                v.push(owned("50 V"));
            } else if str_is(key, "source_meas.rangei") {
                v.push(owned("5 A"));
            }
        },
        DeviceType::Unknown => {},
    }
    assert(views(v@) =~= range_options_of(t, key@));
    v
}

/// The default range of a kind of device under `key`.
pub fn range_default(t: DeviceType, key: &str) -> (r: Option<String>)
    ensures
        opt_views(r) == range_default_of(t, key@),
{
    match t {
        DeviceType::Smu => if str_is(key, "source_meas.range.defaultv") || str_is(
            key,
            "source_meas.range.defaulti",
        ) {
            Some(owned("AUTO"))
        } else {
            None
        },
        DeviceType::Psu => if str_is(key, "source_meas.range.defaultv") {
            Some(owned("50 V"))
        } else if str_is(key, "source_meas.range.defaulti") {
            Some(owned("5 A"))
        } else {
            None
        },
        DeviceType::Unknown => None,
    }
}

/// The view of an optional string.
pub open spec fn opt_views(o: Option<String>) -> Option<Seq<char>> {
    match o {
        Some(s) => Some(s@),
        None => None,
    }
}

/// The script's name for a metadata setting of a kind of device.
pub fn name_for(t: DeviceType, key: &str) -> (r: Option<String>)
    ensures
        opt_views(r) == name_of(t, key@),
{
    match t {
        DeviceType::Smu => if str_is(key, "sense=Two-wire") {
            Some(owned("SENSE_2WIRE"))
        } else if str_is(key, "sense=Four-wire") {
            Some(owned("SENSE_4WIRE"))
        } else {
            None
        },
        _ => None,
    }
}

/// The unit of a source or measure function.
pub fn units_of(function: &str) -> (r: String)
    ensures
        r@ == unit_of(function@),
{
    if str_is(function, "Voltage") {
        owned("V")
    } else {
        owned("A")
    }
}

/// The metadata key of the ranges of a function.
pub fn range_key(function: &str) -> (r: String)
    ensures
        r@ == range_key_of(function@),
{
    if str_is(function, "Voltage") {
        owned("source_meas.rangev")
    } else {
        owned("source_meas.rangei")
    }
}

/// The metadata key of the default range of a function.
pub fn default_key(function: &str) -> (r: String)
    ensures
        r@ == default_key_of(function@),
{
    if str_is(function, "Voltage") {
        owned("source_meas.range.defaultv")
    } else {
        owned("source_meas.range.defaulti")
    }
}

/// The range a setting takes: `current` when it is one of `options`;
/// otherwise the default range of the device for `function`, if it has one,
/// else `current`.
pub open spec fn range_value_of(
    t: DeviceType,
    function: Seq<char>,
    options: Seq<Seq<char>>,
    current: Seq<char>,
) -> Seq<char> {
    if options.contains(current) {
        current
    } else {
        match range_default_of(t, default_key_of(function)) {
            Some(d) => d,
            None => current,
        }
    }
}

/// The range a setting takes (see [`range_value_of`]).
pub fn range_value(t: DeviceType, function: &str, options: &Vec<String>, current: &String) -> (r: String)
    ensures
        r@ == range_value_of(t, function@, views(options@), current@),
{
    let mut i: usize = 0;
    while i < options.len()
        invariant
            i <= options.len(),
            forall|j: int| 0 <= j < i ==> options@[j]@ != current@,
        decreases options.len() - i,
    {
        if options[i] == *current {
            assert(views(options@)[i as int] == current@);
            return current.clone();
        }
        i = i + 1;
    }
    assert(!views(options@).contains(current@));
    match range_default(t, default_key(function).as_str()) {
        Some(d) => d,
        None => current.clone(),
    }
}

/// The source functions a kind of device offers.
pub open spec fn source_functions_of(t: DeviceType) -> Seq<Seq<char>> {
    match t {
        DeviceType::Smu => seq!["Voltage"@, "Current"@],
        DeviceType::Psu => seq!["Voltage"@],
        DeviceType::Unknown => Seq::empty(),
    }
}

/// The source functions a kind of device offers.
pub fn source_functions(t: DeviceType) -> (r: Vec<String>)
    ensures
        views(r@) == source_functions_of(t),
{
    let mut v: Vec<String> = Vec::new();
    match t {
        DeviceType::Smu => {
            v.push(owned("Voltage"));
            v.push(owned("Current"));
        },
        DeviceType::Psu => {
            v.push(owned("Voltage"));
        },
        DeviceType::Unknown => {},
    }
    assert(views(v@) =~= source_functions_of(t));
    v
}

/// The metadata key of the level limits of a source function.
pub open spec fn level_key_of(function: Seq<char>) -> Seq<char> {
    if function == "Voltage"@ {
        "source.levelv"@
    } else {
        "source.leveli"@
    }
}

/// The metadata key of the level limits of a source function.
pub fn level_key(function: &str) -> (r: String)
    ensures
        r@ == level_key_of(function@),
{
    if str_is(function, "Voltage") {
        owned("source.levelv")
    } else {
        owned("source.leveli")
    }
}

} // verus!
