//! The devices (channels of modules) in the mainframe slots.
use vstd::prelude::*;

use crate::script_gen_manager::system::MainframeSlot;
use crate::text::{chars_of, decimal, decimal_string, extend_vec, owned, string_of};

verus! {

/// Represents the type of device in the mainframe slot.
#[derive(Debug, Clone, Copy, PartialEq, Eq, Structural)]
pub enum DeviceType {
    Smu,
    Psu,
    Unknown,
}

/// The name of a device type in script ids (`smu`, `psu`, `unknown`).
pub open spec fn device_type_name(t: DeviceType) -> Seq<char> {
    match t {
        DeviceType::Smu => "smu"@,
        DeviceType::Psu => "psu"@,
        DeviceType::Unknown => "unknown"@,
    }
}

/// The kind of module a model number names: `MSMU60-2` is a source-measure
/// unit, `MPSU50-2ST` a power supply; any other model (the `MP5103`
/// mainframe among them) is unknown.
pub open spec fn model_device_type(model: Seq<char>) -> DeviceType {
    if model == "MSMU60-2"@ {
        DeviceType::Smu
    } else if model == "MPSU50-2ST"@ {
        DeviceType::Psu
    } else {
        DeviceType::Unknown
    }
}

/// `n` in decimal, with a minus sign when negative.
pub open spec fn int_text(n: int) -> Seq<char> {
    if n < 0 {
        seq!['-'] + decimal((-n) as nat)
    } else {
        decimal(n as nat)
    }
}

impl DeviceType {
    /// The name of the device type (`smu`, `psu`, `unknown`).
    pub fn to_text(&self) -> (r: String)
        ensures
            r@ == device_type_name(*self),
    {
        match self {
            DeviceType::Smu => owned("smu"),
            DeviceType::Psu => owned("psu"),
            DeviceType::Unknown => owned("unknown"),
        }
    }

    /// The device type of a module model (see [`model_device_type`]).
    pub fn for_model(model: &String) -> (r: DeviceType)
        ensures
            r == model_device_type(model@),
    {
        if *model == owned("MSMU60-2") {
            DeviceType::Smu
        } else if *model == owned("MPSU50-2ST") {
            DeviceType::Psu
        } else {
            DeviceType::Unknown
        }
    }
}

/// `n` written in decimal.
pub fn int_string(n: i32) -> (r: String)
    ensures
        r@ == int_text(n as int),
{
    if n < 0 {
        let m: i64 = -(n as i64);
        let mut v: Vec<char> = Vec::new();
        v.push('-');
        extend_vec(&mut v, &chars_of(decimal_string(m as usize).as_str()));
        assert(v@ =~= seq!['-'] + decimal((-n) as nat));
        string_of(v.as_slice())
    } else {
        decimal_string(n as usize)
    }
}

/// The id of channel `chan` of type `t` in slot `slot` of the node `node`:
/// `NODE.SLOT.TYPE[CHAN]`, for instance `node[37].slot[1].smu[1]`.
pub open spec fn device_id_text(node: Seq<char>, slot: Seq<char>, t: DeviceType, chan: int) -> Seq<char> {
    node + seq!['.'] + slot + seq!['.'] + device_type_name(t) + seq!['['] + int_text(chan) + seq![']']
}

/// What a device is: its node and id, its type, model and firmware version,
/// whether a channel uses it, whether the system still has it, and the slot
/// and channel number it sits at.
pub struct DeviceV {
    pub node_id: Seq<char>,
    pub id: Seq<char>,
    pub device_type: DeviceType,
    pub model: Seq<char>,
    pub fw_version: Seq<char>,
    pub in_use: bool,
    pub is_valid: bool,
    pub slot_id: Seq<char>,
    pub chan_num: i32,
}

/// Represents a device in one of the mainframe slots.
#[derive(Debug)]
pub struct Device {
    pub node_id: String,
    pub _id: String,
    pub device_type: DeviceType,
    pub model: String,
    pub fw_version: String,
    pub in_use: bool,
    /// Whether the module is still in its slot.
    pub is_valid: bool,
    /// The slot the module sits in.
    pub slot_id: String,
    /// The channel of the module.
    pub chan_num: i32,
}

impl View for Device {
    type V = DeviceV;

    open spec fn view(&self) -> DeviceV {
        DeviceV {
            node_id: self.node_id@,
            id: self._id@,
            device_type: self.device_type,
            model: self.model@,
            fw_version: self.fw_version@,
            in_use: self.in_use,
            is_valid: self.is_valid,
            slot_id: self.slot_id@,
            chan_num: self.chan_num,
        }
    }
}

/// The id of channel `chan` of type `t` in slot `slot` of node `node` (see [`device_id_text`]).
fn device_id_string(node: &String, slot: &String, t: &DeviceType, chan: i32) -> (r: String)
    ensures
        r@ == device_id_text(node@, slot@, *t, chan as int),
{
    let mut v = chars_of(node.as_str());
    v.push('.');
    extend_vec(&mut v, &chars_of(slot.as_str()));
    v.push('.');
    extend_vec(&mut v, &chars_of(t.to_text().as_str()));
    v.push('[');
    extend_vec(&mut v, &chars_of(int_string(chan).as_str()));
    v.push(']');
    let full = string_of(v.as_slice());
    proof {
        assert(full@ =~= device_id_text(node@, slot@, *t, chan as int));
    }
    full
}

impl Device {
    /// A device with every field given.
    pub fn from_parts(
        node_id: String,
        id: String,
        device_type: DeviceType,
        model: String,
        fw_version: String,
        in_use: bool,
        is_valid: bool,
        slot_id: String,
        chan_num: i32,
    ) -> (r: Self)
        ensures
            r@ == (DeviceV {
                node_id: node_id@,
                id: id@,
                device_type,
                model: model@,
                fw_version: fw_version@,
                in_use,
                is_valid,
                slot_id: slot_id@,
                chan_num,
            }),
    {
        Device { node_id, _id: id, device_type, model, fw_version, in_use, is_valid, slot_id, chan_num }
    }

    /// The device on channel `channel_id` of `slot` in the mainframe
    /// `mainframe_name`: its type comes from the slot's model, its node id is
    /// the mainframe name, and its id is `MAINFRAME.SLOT.TYPE[CHANNEL]`
    /// (for instance `node[37].slot[1].smu[1]`).  It is valid and not in use.
    pub fn new(mainframe_name: String, mainframe_model: String, slot: &MainframeSlot, channel_id: i32) -> (r:
        Self)
        ensures
            r@ == (DeviceV {
                node_id: mainframe_name@,
                id: device_id_text(mainframe_name@, slot.name@, model_device_type(slot.model@), channel_id as int),
                device_type: model_device_type(slot.model@),
                model: slot.model@,
                fw_version: Seq::<char>::empty(),
                in_use: false,
                is_valid: true,
                slot_id: slot.name@,
                chan_num: channel_id,
            }),
    {
        let device_type = DeviceType::for_model(&slot.model);
        let (node_id, id) = Device::parse_id(mainframe_name, slot, channel_id, &device_type);
        Device {
            node_id,
            _id: id,
            device_type,
            model: slot.model.clone(),
            fw_version: String::new(),
            in_use: false,
            is_valid: true,
            slot_id: slot.name.clone(),
            chan_num: channel_id,
        }
    }

    /// The node id and the id of the device on channel `id` of `slot` (see [`Device::new`]).
    fn parse_id(mainframe_name: String, slot: &MainframeSlot, id: i32, device_type: &DeviceType) -> (r: (
        String,
        String,
    ))
        ensures
            r.0@ == mainframe_name@,
            r.1@ == device_id_text(mainframe_name@, slot.name@, *device_type, id as int),
    {
        let full = device_id_string(&mainframe_name, &slot.name, device_type, id);
        (mainframe_name, full)
    }

    /// Moves the device to the node `node_id`: its id becomes that of its
    /// slot and channel on the new node.
    pub fn update_node_info(&mut self, node_id: String)
        ensures
            final(self)@ == (DeviceV {
                node_id: node_id@,
                id: device_id_text(node_id@, old(self).slot_id@, old(self).device_type, old(self).chan_num as int),
                ..old(self)@
            }),
    {
        let id = device_id_string(&node_id, &self.slot_id, &self.device_type, self.chan_num);
        self.node_id = node_id;
        self._id = id;
    }

    /// A copy of the device.
    pub fn duplicate(&self) -> (r: Self)
        ensures
            r@ == self@,
    {
        Device {
            node_id: self.node_id.clone(),
            _id: self._id.clone(),
            device_type: self.device_type,
            model: self.model.clone(),
            fw_version: self.fw_version.clone(),
            in_use: self.in_use,
            is_valid: self.is_valid,
            slot_id: self.slot_id.clone(),
            chan_num: self.chan_num,
        }
    }

    /// The id of the device.
    pub fn get_id(&self) -> (r: String)
        ensures
            r@ == self._id@,
    {
        self._id.clone()
    }

    /// The node id of the device.
    pub fn get_node_id(&self) -> (r: String)
        ensures
            r@ == self.node_id@,
    {
        self.node_id.clone()
    }

    /// The model number of the device.
    pub fn get_model(&self) -> (r: String)
        ensures
            r@ == self.model@,
    {
        self.model.clone()
    }

    /// The firmware version of the device.
    pub fn get_fw_version(&self) -> (r: String)
        ensures
            r@ == self.fw_version@,
    {
        self.fw_version.clone()
    }
}

impl Default for Device {
    /// A device of unknown type with empty ids, not in use and not valid.
    fn default() -> (r: Self)
        ensures
            r@ == (DeviceV {
                node_id: Seq::<char>::empty(),
                id: Seq::<char>::empty(),
                device_type: DeviceType::Unknown,
                model: Seq::<char>::empty(),
                fw_version: Seq::<char>::empty(),
                in_use: false,
                is_valid: false,
                slot_id: Seq::<char>::empty(),
                chan_num: 0,
            }),
    {
        Device {
            node_id: String::new(),
            _id: String::new(),
            device_type: DeviceType::Unknown,
            model: String::new(),
            fw_version: String::new(),
            in_use: false,
            is_valid: false,
            slot_id: String::new(),
            chan_num: 0,
        }
    }
}

} // verus!
