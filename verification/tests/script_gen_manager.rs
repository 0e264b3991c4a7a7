use kic_script_gen::script_aggregator::script_buffer::ScriptBuffer;
use kic_script_gen::script_gen_manager::catalog::Catalog;
use kic_script_gen::script_gen_manager::channel_range::{
    extract_prefix, is_range_auto, is_range_follow_limiti, prefix_scale, scaled_parts, ScalePrefix,
};
use kic_script_gen::script_gen_manager::device::{int_string, Device, DeviceType};
use kic_script_gen::script_gen_manager::device_io::SimulatedDeviceIO;
use kic_script_gen::script_gen_manager::function::{finish_chunk, start_chunk, to_lua_comment};
use kic_script_gen::script_gen_manager::metadata::{
    default_key, level_key, name_for, range_default, range_key, range_options, range_value,
    source_functions, units_of,
};
use kic_script_gen::script_gen_manager::sweep_config::Channel;
use kic_script_gen::script_gen_manager::parameters::{ParameterInt, ParameterString, PsuTiming, SweepGlobalParameters};
use kic_script_gen::script_gen_manager::script::ScriptModel;
use kic_script_gen::script_gen_manager::sweep::{
    comma_separated_list, extract_indices, get_function_value, process_list, BiasText,
    ChannelText, RangeText, SweepModel, SweepSettings,
};
use kic_script_gen::script_gen_manager::system::{MainframeSlot, StatusMsg, StatusType};
use kic_script_gen::xml_handler::condition::NumOrder;
use kic_script_gen::xml_handler::group::Group;
use kic_script_gen::xml_handler::resources::Resources;

fn float_order(a: &str, b: &str) -> Option<NumOrder> {
    let x = a.parse::<f64>().ok()?;
    let y = b.parse::<f64>().ok()?;
    Some(match x.partial_cmp(&y) {
        Some(std::cmp::Ordering::Less) => NumOrder::Less,
        Some(std::cmp::Ordering::Equal) => NumOrder::Equal,
        Some(std::cmp::Ordering::Greater) => NumOrder::Greater,
        None => NumOrder::Unordered,
    })
}

fn strings(v: &[&str]) -> Vec<String> {
    v.iter().map(|s| s.to_string()).collect()
}

fn resources_with_metadata(xml: &str) -> Resources {
    let mut sources = vec![String::new(); 13];
    sources[0] = xml.to_string();
    Resources::new(String::from("1.0.0"), sources)
}

const DASHES: &str = "----------------------------------------------------------------------------";
const EQUALS: &str = "--==========================================================================";

#[test]
fn extract_indices_reads_three_bracketed_numbers() {
    assert_eq!(extract_indices("node[37].slot[1].smu[1]"), Some((37, 1, 1)));
    assert_eq!(extract_indices("localnode.slot[2].psu[2]"), Some((0, 2, 2)));
    assert_eq!(extract_indices("node[1].slot[2]"), None);
    assert_eq!(extract_indices("abc"), None);
    assert_eq!(extract_indices("localnode.slot[1].smu[1].x[4]"), None);
}

#[test]
fn function_values_ignore_case() {
    assert_eq!(get_function_value(&String::from("VOLTAGE")), "FUNC_DC_VOLTAGE");
    assert_eq!(get_function_value(&String::from("current")), "FUNC_DC_CURRENT");
    assert_eq!(get_function_value(&String::from("Current,Voltage")), "FUNC_DC_IV_COMBINED");
    assert_eq!(get_function_value(&String::from("vOlTaGe")), "FUNC_DC_VOLTAGE");
}

#[test]
fn comma_separated_list_skips_leading_empty_items() {
    assert_eq!(comma_separated_list(&strings(&["bias1", "bias2"])), "bias1,bias2");
    assert_eq!(comma_separated_list(&strings(&["a", "", "b"])), "a,,b");
    assert_eq!(comma_separated_list(&strings(&["", "b"])), "b");
    assert_eq!(comma_separated_list(&Vec::new()), "");
}

#[test]
fn process_list_truncates_to_points() {
    assert_eq!(process_list(true, &strings(&["1", "2", "3"]), 2), "{ 1, 2 }");
    assert_eq!(process_list(true, &strings(&["1", "2"]), 5), "{ 1, 2 }");
    assert_eq!(process_list(true, &Vec::new(), 5), "{  }");
    assert_eq!(process_list(false, &strings(&["1"]), 5), "nil");
}

#[test]
fn range_values_split_into_number_and_prefix() {
    assert_eq!(scaled_parts("100 mV", "V"), Some((String::from("100"), ScalePrefix::Milli)));
    assert_eq!(scaled_parts("1.5A", "A"), Some((String::from("1.5"), ScalePrefix::Unit)));
    assert_eq!(scaled_parts("10 kV", "V"), Some((String::from("10"), ScalePrefix::Kilo)));
    assert_eq!(scaled_parts("5 \u{00B5}A", "A"), Some((String::from("5"), ScalePrefix::Micro)));
    assert_eq!(scaled_parts("2 xV", "V"), None);
    assert_eq!(extract_prefix("V", "mV"), "m");
    assert_eq!(extract_prefix("V", ""), "");
    assert_eq!(extract_prefix("V", "mA"), "");
    assert_eq!(prefix_scale("M"), Some(ScalePrefix::Mega));
    assert_eq!(prefix_scale("f"), Some(ScalePrefix::Femto));
    assert_eq!(prefix_scale("mm"), None);
    assert!(is_range_auto(&String::from("AUTO")));
    assert!(!is_range_auto(&String::from("auto")));
    assert!(is_range_follow_limiti(&String::from("FOLLOW LIMITI")));
    assert!(!is_range_follow_limiti(&String::from("AUTO")));
}

#[test]
fn device_ids_and_types() {
    let slot = MainframeSlot { name: String::from("slot[1]"), model: String::from("MSMU60-2") };
    let d = Device::new(String::from("node[37]"), String::from("MP5103"), &slot, 2);
    assert_eq!(d._id, "node[37].slot[1].smu[2]");
    assert_eq!(d.get_node_id(), "node[37]");
    assert_eq!(d.get_model(), "MSMU60-2");
    assert_eq!(d.device_type, DeviceType::Smu);
    assert!(d.is_valid && !d.in_use);
    assert_eq!(DeviceType::for_model(&String::from("MPSU50-2ST")), DeviceType::Psu);
    assert_eq!(DeviceType::for_model(&String::from("MP5103")), DeviceType::Unknown);
    assert_eq!(DeviceType::Unknown.to_text(), "unknown");
    assert_eq!(int_string(-5), "-5");
    assert_eq!(int_string(120), "120");
}

#[test]
fn parameters_are_limited() {
    let mut p = ParameterInt::new("points", 0);
    p.limit(1, 60000);
    assert_eq!(p.value, 1);
    p.value = 70000;
    p.limit(1, 60000);
    assert_eq!(p.value, 60000);
    p.value = 50;
    p.limit(1, 60000);
    assert_eq!(p.value, 50);
    let s = ParameterString::new("mode");
    assert_eq!(s.id, "mode");
    assert!(s.value.is_empty() && s.range.is_empty());
    let g = SweepGlobalParameters::new();
    assert_eq!(g.sweep_points.value, 10);
    assert!(!g.list_sweep);
    let t = PsuTiming::new();
    assert_eq!(t.rate.value, "Normal");
    assert_eq!(t.rate.range, strings(&["Normal", "Fast"]));
}

#[test]
fn simulated_device_answers_known_queries() {
    let io = SimulatedDeviceIO::new();
    assert_eq!(io.get_query_response(String::from("IDENTIFY_node[41]")), "2612A,2.1.1,6700041A,Simulated Device,60.0");
    assert_eq!(io.get_query_response(String::from("UNKNOWN")), "");
}

#[test]
fn status_messages_keep_type_and_text() {
    let m = StatusMsg::new(StatusType::Info, String::from("hello"));
    assert_eq!(m.status_type, StatusType::Info);
    assert_eq!(m.message, "hello");
    assert_eq!(m.time_stamp.len(), 19);
}

#[test]
fn lua_comment_prefixes_each_line() {
    assert_eq!(to_lua_comment("one\ntwo"), "-- one\n-- two");
    assert_eq!(to_lua_comment("a\r\nb\n"), "-- a\n-- b");
    assert_eq!(to_lua_comment(""), "");
}

#[test]
fn chunk_header_and_footer() {
    let mut buffer = ScriptBuffer::new();
    start_chunk(&mut buffer, &String::from("Sweep"), &String::from("Configures."));
    finish_chunk(&mut buffer, &String::from("Sweep"));
    let expected = format!(
        "{DASHES}\n-- START OF SWEEP SEGMENT ... do not modify this section \n{DASHES}\n{EQUALS}\n-- Configures.\n{EQUALS}\n{DASHES}\n-- END OF SWEEP SEGMENT ... do not modify code after this point\n{DASHES}\n\n\n"
    );
    assert_eq!(buffer.to_string(), expected);
}

fn bias_channel() -> ChannelText {
    ChannelText {
        node_id: String::from("node[37]"),
        device_id: String::from("node[37].slot[1].smu[2]"),
        model: String::from("MSMU60-2"),
        device_type: DeviceType::Smu,
        source_function: String::from("Voltage"),
        meas_function: String::from("Current"),
        source_range: RangeText { auto: false, text: String::from("1.000") },
        meas_range: RangeText { auto: true, text: String::from("AUTO") },
        sense: Some(Some(String::from("SENSE_2WIRE"))),
        limitv: Some(String::from("2e1")),
        limiti: None,
    }
}

fn settings_with_one_bias() -> SweepSettings {
    SweepSettings {
        bias: vec![BiasText { channel: bias_channel(), bias: String::from("0.5") }],
        steps: Vec::new(),
        sweeps: Vec::new(),
        list_step: false,
        step_points: 10,
        step_to_sweep_delay: String::from("0"),
        list_sweep: false,
        sweep_points: 20,
        nplc_type: String::from("NPLC"),
        nplc: String::from("1"),
        aperture: String::from("1e-3"),
        measure_count: String::from("1"),
        measure_auto_delay: String::from("OFF"),
        measure_delay: String::from("0"),
        source_auto_delay: String::from("ON"),
        source_delay: String::from("0"),
    }
}

#[test]
fn sweep_symbols_for_a_bias_channel() {
    let group = Group::new(String::from("SWEEP"), String::from("Sweep"), Vec::new(), Vec::new());
    let mut model = SweepModel::new(group);
    model.define_symbols(&settings_with_one_bias());
    let get = |k: &str| model.val_replacement_map.get(&k.to_string());
    assert_eq!(get("bias1:NODE"), Some(String::from("node[37]")));
    assert_eq!(get("bias1:NODE-IDX"), Some(String::from("37")));
    assert_eq!(get("bias1:SLOT-IDX"), Some(String::from("1")));
    assert_eq!(get("bias1:CHANNEL-IDX"), Some(String::from("2")));
    assert_eq!(get("bias1:MODEL-TYPE"), Some(String::from("smu")));
    assert_eq!(get("bias1:SFUNCTION"), Some(String::from("FUNC_DC_VOLTAGE")));
    assert_eq!(get("bias1:MFUNCTION"), Some(String::from("FUNC_DC_CURRENT")));
    assert_eq!(get("bias1:SRANGE"), Some(String::from("1.000")));
    assert_eq!(get("bias1:MRANGE"), Some(String::from("CONSTANTS.AUTO")));
    assert_eq!(get("bias1:SENSE"), Some(String::from("SENSE_2WIRE")));
    assert_eq!(get("bias1:LIMITV"), Some(String::from("2e1")));
    assert_eq!(get("bias1:LIMITI"), Some(String::from("nil")));
    assert_eq!(get("bias1:BIAS"), Some(String::from("0.5")));
    assert_eq!(get("BIAS-DEVICE"), Some(String::from("bias1")));
    assert_eq!(get("STEP-COUNT"), Some(String::from("1")));
    assert_eq!(get("STEP-TO-SWEEP-DELAY"), Some(String::from("0")));
    assert_eq!(get("STEP-DEVICE"), None);
    assert_eq!(get("SWEEP-POINTS"), Some(String::from("20")));
    assert_eq!(get("NPLC"), Some(String::from("1")));
    assert_eq!(get("APERTURE"), Some(String::from("nil")));
    assert_eq!(get("MEASURE-DELAY"), Some(String::from("0")));
    assert_eq!(get("SOURCE-DELAY"), Some(String::from("nil")));
}

#[test]
fn sweep_without_step_or_sweep_channels_only_notes_it() {
    let group = Group::new(String::from("SWEEP"), String::from("Sweep"), Vec::new(), Vec::new());
    let mut model = SweepModel::new(group);
    let mut buffer = ScriptBuffer::new();
    model.to_script(&settings_with_one_bias(), &mut buffer, &float_order);
    assert_eq!(buffer.to_string(), "-- no sweep ... requires at least 1 step channel or 1 sweep channel\n");
}

const METADATA: &str = r#"<root>
<group id="INIT" type="Initialize">
  <composite>
    <substitute name="MAX-NODES">%MAX%</substitute>
    <snippet>max = %MAX%</snippet>
  </composite>
</group>
<group id="FIN" type="Finalize">
  <composite>
    <snippet>done()</snippet>
  </composite>
</group>
</root>"#;

#[test]
fn script_model_writes_initialize_and_finalize() {
    let mut catalog = Catalog::new();
    catalog.refresh_function_metadata(&resources_with_metadata(METADATA));
    assert!(catalog.get("Initialize").is_some());
    assert!(catalog.get("Sweep").is_none());
    let mut model = ScriptModel::new(catalog);
    model.initialize_scripts();
    model.add_sweep();
    model.add_data_report();
    assert_eq!(model.chunks.len(), 2);
    let script = model.to_script(&settings_with_one_bias(), &float_order);
    let init_comment = "-- This function prepares the test for execution.\n--     It first verifies that current setup matches project's setup.\n--     Then, it initializes members used to keep track of reading buffer storage.";
    let expected = format!(
        "{DASHES}\n-- START OF INITIALIZE SEGMENT ... do not modify this section\n{DASHES}\n{EQUALS}\n{init_comment}\n{EQUALS}\nfunction _Initialize()\n    max = 64\nend\n{DASHES}\n-- END OF INITIALIZE SEGMENT ... do not modify code after this point\n{DASHES}\n\n\
{DASHES}\n-- START OF FINALIZE SEGMENT ... do not modify this section\n{DASHES}\n{EQUALS}\n-- The function completes the script and places the instrument in a known state.\n{EQUALS}\nfunction _Finalize()\n    done()\nend\n{DASHES}\n-- END OF FINALIZE SEGMENT ... do not modify code after this point\n{DASHES}\n\n\
_Initialize()\n_Finalize()\n"
    );
    assert_eq!(script, expected);
}

#[test]
fn metadata_range_tables() {
    assert_eq!(
        range_options(DeviceType::Smu, "source_meas.rangev"),
        vec!["AUTO", "200 mV", "2 V", "6 V", "20 V", "60 V"]
    );
    let currents = range_options(DeviceType::Smu, "source_meas.rangei");
    assert_eq!(currents.len(), 10);
    assert_eq!(currents[2], "1 \u{00B5}A");
    assert_eq!(currents[9], "1.5 A");
    assert_eq!(range_options(DeviceType::Psu, "source_meas.rangev"), vec!["50 V"]);
    assert_eq!(range_options(DeviceType::Psu, "source_meas.rangei"), vec!["5 A"]);
    assert!(range_options(DeviceType::Unknown, "source_meas.rangev").is_empty());
    assert!(range_options(DeviceType::Smu, "source.levelv").is_empty());

    assert_eq!(range_default(DeviceType::Smu, "source_meas.range.defaulti"), Some(String::from("AUTO")));
    assert_eq!(range_default(DeviceType::Psu, "source_meas.range.defaultv"), Some(String::from("50 V")));
    assert_eq!(range_default(DeviceType::Psu, "source_meas.range.defaulti"), Some(String::from("5 A")));
    assert_eq!(range_default(DeviceType::Unknown, "source_meas.range.defaultv"), None);

    assert_eq!(name_for(DeviceType::Smu, "sense=Four-wire"), Some(String::from("SENSE_4WIRE")));
    assert_eq!(name_for(DeviceType::Smu, "sense=Two-wire"), Some(String::from("SENSE_2WIRE")));
    assert_eq!(name_for(DeviceType::Psu, "sense=Two-wire"), None);

    assert_eq!(units_of("Voltage"), "V");
    assert_eq!(units_of("Current"), "A");
    assert_eq!(range_key("Voltage"), "source_meas.rangev");
    assert_eq!(range_key("Current"), "source_meas.rangei");
    assert_eq!(default_key("Voltage"), "source_meas.range.defaultv");
    assert_eq!(default_key("Current"), "source_meas.range.defaulti");
}

#[test]
fn status_message_time_stamp_shape() {
    let m = StatusMsg::new(StatusType::Info, String::from("hello"));
    let c: Vec<char> = m.time_stamp.chars().collect();
    let n = c.len();
    assert!(n >= 19);
    for (k, ch) in c[n - 15..].iter().enumerate() {
        match k {
            0 | 3 => assert_eq!(*ch, '-'),
            6 => assert_eq!(*ch, ' '),
            9 | 12 => assert_eq!(*ch, ':'),
            _ => assert!(ch.is_ascii_digit()),
        }
    }
    assert!(c[..n - 15].iter().all(|ch| ch.is_ascii_digit()));
}

#[test]
fn new_channel_has_random_uuid_text() {
    let slot = MainframeSlot { name: String::from("slot[1]"), model: String::from("MSMU60-2") };
    let d1 = Device::new(String::from("node[37]"), String::from("MP5103"), &slot, 1);
    let d2 = Device::new(String::from("node[37]"), String::from("MP5103"), &slot, 2);
    let a = Channel::new(String::from("smu1"), d1, 0u8);
    let b = Channel::new(String::from("smu2"), d2, 0u8);
    for ch in [&a, &b] {
        let c: Vec<char> = ch.uuid.chars().collect();
        assert_eq!(c.len(), 36);
        for (i, x) in c.iter().enumerate() {
            if i == 8 || i == 13 || i == 18 || i == 23 {
                assert_eq!(*x, '-');
            } else {
                assert!(x.is_ascii_digit() || ('a'..='f').contains(x));
            }
        }
        assert_eq!(c[14], '4');
        assert!(matches!(c[19], '8' | '9' | 'a' | 'b'));
    }
    assert_ne!(a.uuid, b.uuid);
    assert_eq!(a.chan_name, "smu1");
}

#[test]
fn metadata_range_value_and_functions() {
    let smu_v = range_options(DeviceType::Smu, "source_meas.rangev");
    assert_eq!(range_value(DeviceType::Smu, "Voltage", &smu_v, &String::from("2 V")), "2 V");
    assert_eq!(range_value(DeviceType::Smu, "Voltage", &smu_v, &String::from("5 A")), "AUTO");
    let psu_i = range_options(DeviceType::Psu, "source_meas.rangei");
    assert_eq!(range_value(DeviceType::Psu, "Current", &psu_i, &String::from("2 V")), "5 A");
    assert_eq!(range_value(DeviceType::Unknown, "Current", &Vec::new(), &String::from("x")), "x");
    assert_eq!(source_functions(DeviceType::Smu), vec!["Voltage", "Current"]);
    assert_eq!(source_functions(DeviceType::Psu), vec!["Voltage"]);
    assert!(source_functions(DeviceType::Unknown).is_empty());
    assert_eq!(level_key("Voltage"), "source.levelv");
    assert_eq!(level_key("Current"), "source.leveli");
}
