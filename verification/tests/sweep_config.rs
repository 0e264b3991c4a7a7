use kic_script_gen::script_gen_manager::device::{Device, DeviceType};
use kic_script_gen::script_gen_manager::device_manager::DeviceManager;
use kic_script_gen::script_gen_manager::sweep_config::{
    parse_channel_request, ChannelKind, ChannelRequest, SweepConfig, INVALID_CHANNELS,
    NO_FREE_DEVICE,
};
use kic_script_gen::script_gen_manager::system::{Node, Root, Slot, StatusType, SystemInfo};

fn slot(id: &str, module: &str) -> Slot {
    Slot { slot_id: id.to_string(), module: module.to_string() }
}

fn local_system(slots: Vec<Slot>) -> Root {
    Root {
        systems: vec![SystemInfo {
            name: String::from("bench"),
            is_active: true,
            local_node: String::from("MP5103"),
            slots: Some(slots),
            nodes: None,
        }],
    }
}

fn make(kind: ChannelKind, device: &Device, points: i32) -> String {
    format!("{:?}:{}:{}", kind, device._id, points)
}

fn ids(c: &SweepConfig<String>) -> Vec<String> {
    c.device_list.iter().map(|d| d._id.clone()).collect()
}

fn configured() -> SweepConfig<String> {
    let mut c: SweepConfig<String> = SweepConfig::new();
    let root = local_system(vec![
        slot("slot[1]", "MSMU60-2"),
        slot("slot[2]", "Empty"),
        slot("slot[3]", "MPSU50-2ST"),
    ]);
    assert!(c.create_device_list(&root));
    c
}

#[test]
fn create_device_list_two_channels_per_module() {
    let c = configured();
    assert_eq!(
        ids(&c),
        vec![
            "localnode.slot[1].smu[1]",
            "localnode.slot[1].smu[2]",
            "localnode.slot[3].psu[1]",
            "localnode.slot[3].psu[2]",
        ]
    );
    let d = &c.device_list[2];
    assert_eq!(d.node_id, "localnode");
    assert_eq!(d.model, "MPSU50-2ST");
    assert_eq!(d.device_type, DeviceType::Psu);
    assert_eq!(d.slot_id, "slot[3]");
    assert_eq!(d.chan_num, 1);
    assert!(d.is_valid);
    assert!(!d.in_use);
}

#[test]
fn create_device_list_falls_back_to_first_mp5103_node_with_modules() {
    let root = Root {
        systems: vec![SystemInfo {
            name: String::from("bench"),
            is_active: true,
            local_node: String::from("MP5103"),
            slots: Some(vec![slot("slot[1]", "Empty")]),
            nodes: Some(vec![
                Node {
                    node_id: String::from("node[1]"),
                    mainframe: String::from("OTHER"),
                    slots: Some(vec![slot("slot[1]", "MSMU60-2")]),
                },
                Node {
                    node_id: String::from("node[2]"),
                    mainframe: String::from("MP5103"),
                    slots: Some(vec![slot("slot[1]", "Empty")]),
                },
                Node {
                    node_id: String::from("node[3]"),
                    mainframe: String::from("MP5103"),
                    slots: Some(vec![slot("slot[2]", "MSMU60-2")]),
                },
                Node {
                    node_id: String::from("node[4]"),
                    mainframe: String::from("MP5103"),
                    slots: Some(vec![slot("slot[1]", "MSMU60-2")]),
                },
            ]),
        }],
    };
    let mut c: SweepConfig<String> = SweepConfig::new();
    assert!(c.create_device_list(&root));
    assert_eq!(ids(&c), vec!["node[3].slot[2].smu[1]", "node[3].slot[2].smu[2]"]);
}

#[test]
fn create_device_list_skips_inactive_systems() {
    let mut root = local_system(vec![slot("slot[1]", "MSMU60-2")]);
    root.systems[0].is_active = false;
    let mut c: SweepConfig<String> = SweepConfig::new();
    assert!(!c.create_device_list(&root));
    assert!(c.device_list.is_empty());
}

#[test]
fn device_manager_lists_ids() {
    let mut m = DeviceManager::new();
    assert!(m.create_device_list(&local_system(vec![slot("slot[4]", "MSMU60-2")])));
    assert_eq!(m.get_device_ids(), vec!["localnode.slot[4].smu[1]", "localnode.slot[4].smu[2]"]);
    assert_eq!(m.get_device(1).chan_num, 2);
}

#[test]
fn auto_configure_takes_step_sweep_and_bias_devices() {
    let mut c = configured();
    c.auto_configure(&make);
    assert_eq!(c.step_channels.len(), 1);
    assert_eq!(c.sweep_channels.len(), 1);
    assert_eq!(c.bias_channels.len(), 1);
    assert_eq!(c.step_channels[0].chan_name, "step1");
    assert_eq!(c.step_channels[0].device_id, "localnode.slot[1].smu[1]");
    assert_eq!(c.step_channels[0].settings, "Step:localnode.slot[1].smu[1]:10");
    assert_eq!(c.sweep_channels[0].chan_name, "sweep1");
    assert_eq!(c.sweep_channels[0].device_id, "localnode.slot[1].smu[2]");
    assert_eq!(c.bias_channels[0].chan_name, "bias1");
    assert_eq!(c.bias_channels[0].settings, "Bias:localnode.slot[3].psu[1]:0");
    let used: Vec<bool> = c.device_list.iter().map(|d| d.in_use).collect();
    assert_eq!(used, vec![true, true, true, false]);
    assert!(c.step_channels[0].device.in_use);
}

#[test]
fn add_channel_names_by_position_and_warns_when_full() {
    let mut c = configured();
    c.auto_configure(&make);
    c.add_channel(String::from("bias"), &make);
    assert_eq!(c.bias_channels.len(), 2);
    assert_eq!(c.bias_channels[1].chan_name, "bias2");
    assert_eq!(c.bias_channels[1].device_id, "localnode.slot[3].psu[2]");
    assert!(c.status_msg.is_none());
    c.add_channel(String::from("step"), &make);
    assert_eq!(c.step_channels.len(), 1);
    let msg = c.status_msg.as_ref().expect("a warning");
    assert_eq!(msg.status_type, StatusType::Warning);
    assert_eq!(msg.message, NO_FREE_DEVICE);
}

#[test]
fn add_channel_of_unknown_type_only_takes_the_device() {
    let mut c = configured();
    c.add_channel(String::from("other"), &make);
    assert!(c.device_list[0].in_use);
    assert!(c.bias_channels.is_empty() && c.step_channels.is_empty() && c.sweep_channels.is_empty());
}

#[test]
fn remove_channel_undoes_add_channel() {
    let mut c = configured();
    let before: Vec<(String, bool)> = c.device_list.iter().map(|d| (d._id.clone(), d.in_use)).collect();
    c.add_channel(String::from("sweep"), &make);
    let id = c.sweep_channels[0].device_id.clone();
    c.remove_channel(id);
    let after: Vec<(String, bool)> = c.device_list.iter().map(|d| (d._id.clone(), d.in_use)).collect();
    assert_eq!(before, after);
}

#[test]
fn update_channel_moves_to_new_device() {
    let mut c = configured();
    c.auto_configure(&make);
    let uuid = c.step_channels[0].uuid.clone();
    c.update_channel(
        String::from("step"),
        String::from("localnode.slot[1].smu[1]"),
        String::from("localnode.slot[3].psu[2]"),
        &make,
    );
    let ch = &c.step_channels[0];
    assert_eq!(ch.uuid, uuid);
    assert_eq!(ch.chan_name, "step1");
    assert_eq!(ch.device_id, "localnode.slot[3].psu[2]");
    assert_eq!(ch.settings, "Step:localnode.slot[3].psu[2]:10");
    assert!(!c.device_list[0].in_use);
    assert!(c.device_list[3].in_use);
}

#[test]
fn update_channel_to_missing_device_changes_nothing() {
    let mut c = configured();
    c.auto_configure(&make);
    c.update_channel(
        String::from("step"),
        String::from("localnode.slot[1].smu[1]"),
        String::from("node[9].slot[9].smu[9]"),
        &make,
    );
    assert_eq!(c.step_channels[0].device_id, "localnode.slot[1].smu[1]");
    assert!(c.device_list[0].in_use);
}

#[test]
fn changed_module_invalidates_and_reports_used_devices() {
    let mut c = configured();
    c.auto_configure(&make);
    // slot 1 now holds a power supply; slot 3 is empty
    let root = local_system(vec![
        slot("slot[1]", "MPSU50-2ST"),
        slot("slot[2]", "Empty"),
        slot("slot[3]", "Empty"),
    ]);
    c.update_devices_for_changed_slots(Some(&root));
    assert_eq!(
        ids(&c),
        vec![
            "localnode.slot[1].smu[1]",
            "localnode.slot[1].smu[2]",
            "localnode.slot[3].psu[1]",
            "localnode.slot[1].psu[1]",
            "localnode.slot[1].psu[2]",
        ]
    );
    let valid: Vec<bool> = c.device_list.iter().map(|d| d.is_valid).collect();
    assert_eq!(valid, vec![false, false, false, true, true]);
    let msg = c.status_msg.as_ref().expect("an error");
    assert_eq!(msg.status_type, StatusType::Error);
    assert_eq!(msg.message, INVALID_CHANNELS);
}

#[test]
fn unreadable_system_config_invalidates_everything() {
    let mut c = configured();
    c.add_channel(String::from("bias"), &make);
    c.update_devices_for_changed_slots(None);
    assert_eq!(ids(&c), vec!["localnode.slot[1].smu[1]"]);
    assert!(!c.device_list[0].is_valid);
    assert!(c.status_msg.is_some());
}

#[test]
fn unchanged_system_config_keeps_devices_and_clears_status() {
    let mut c = configured();
    c.add_channel(String::from("bias"), &make);
    c.add_channel(String::from("other"), &make);
    c.status_msg = None;
    let root = local_system(vec![
        slot("slot[1]", "MSMU60-2"),
        slot("slot[2]", "Empty"),
        slot("slot[3]", "MPSU50-2ST"),
    ]);
    c.update_devices_for_changed_slots(Some(&root));
    assert_eq!(ids(&c).len(), 4);
    assert!(c.device_list.iter().all(|d| d.is_valid));
    assert!(c.status_msg.is_none());
}

#[test]
fn moved_node_renames_devices_and_channels() {
    let mut c = configured();
    c.auto_configure(&make);
    let root = Root {
        systems: vec![SystemInfo {
            name: String::from("bench"),
            is_active: true,
            local_node: String::from("OTHER"),
            slots: None,
            nodes: Some(vec![Node {
                node_id: String::from("node[5]"),
                mainframe: String::from("MP5103"),
                slots: Some(vec![slot("slot[1]", "MSMU60-2")]),
            }]),
        }],
    };
    c.update_devices_for_changed_slots(Some(&root));
    assert_eq!(c.device_list[0]._id, "node[5].slot[1].smu[1]");
    assert_eq!(c.device_list[0].node_id, "node[5]");
    assert_eq!(c.step_channels[0].device_id, "node[5].slot[1].smu[1]");
    assert_eq!(c.sweep_channels[0].device._id, "node[5].slot[1].smu[2]");
    // slot 3 was not reported: its devices are left as they were
    assert_eq!(c.bias_channels[0].device_id, "localnode.slot[3].psu[1]");
    assert!(c.device_list[2].is_valid);
    assert!(c.status_msg.is_none());
}

#[test]
fn remove_unused_invalid_channels_keeps_present_or_used() {
    let mut c = configured();
    c.device_list[0].is_valid = false;
    c.device_list[1].is_valid = false;
    c.device_list[1].in_use = true;
    c.remove_unused_invalid_channels();
    assert_eq!(
        ids(&c),
        vec!["localnode.slot[1].smu[2]", "localnode.slot[3].psu[1]", "localnode.slot[3].psu[2]"]
    );
}

#[test]
fn update_channel_devices_takes_last_device_with_the_id() {
    let mut c = configured();
    c.auto_configure(&make);
    c.device_list[0].fw_version = String::from("1.2.3");
    c.update_channel_devices();
    assert_eq!(c.step_channels[0].device.fw_version, "1.2.3");
}

#[test]
fn evaluate_limits_points() {
    let mut c: SweepConfig<String> = SweepConfig::new();
    c.step_points.value = 0;
    c.sweep_points.value = 70000;
    c.evaluate();
    assert_eq!(c.step_points.value, 1);
    assert_eq!(c.sweep_points.value, 60000);
}

#[test]
fn channel_requests_are_read_from_words() {
    match parse_channel_request("remove,step,localnode.slot[1].smu[1]") {
        Some(ChannelRequest::Remove { chan_id }) => assert_eq!(chan_id, "localnode.slot[1].smu[1]"),
        other => panic!("unexpected {:?}", other),
    }
    match parse_channel_request("add,bias") {
        Some(ChannelRequest::Add { chan_type }) => assert_eq!(chan_type, "bias"),
        other => panic!("unexpected {:?}", other),
    }
    match parse_channel_request("update,sweep,a,b") {
        Some(ChannelRequest::Update { chan_type, old_chan_id, new_chan_id }) => {
            assert_eq!((chan_type.as_str(), old_chan_id.as_str(), new_chan_id.as_str()), ("sweep", "a", "b"))
        }
        other => panic!("unexpected {:?}", other),
    }
    assert!(matches!(parse_channel_request("noop"), Some(ChannelRequest::Other)));
    assert!(parse_channel_request("remove,step").is_none());
    assert!(parse_channel_request("update,step,a").is_none());
    assert!(parse_channel_request("add").is_none());
}

#[test]
fn device_moves_to_another_node() {
    let mut d = Device::default();
    d.slot_id = String::from("slot[2]");
    d.chan_num = 1;
    d.device_type = DeviceType::Smu;
    d.update_node_info(String::from("node[7]"));
    assert_eq!(d.node_id, "node[7]");
    assert_eq!(d._id, "node[7].slot[2].smu[1]");
}

#[test]
fn reset_starts_over() {
    let mut c = configured();
    c.auto_configure(&make);
    c.step_points.value = 3;
    c.reset();
    assert!(c.device_list.is_empty() && c.bias_channels.is_empty() && c.step_channels.is_empty());
    assert_eq!(c.step_points.value, 10);
    assert_eq!(c.sweep_points.id, "sweep_points");
    assert!(c.status_msg.is_none());
}
