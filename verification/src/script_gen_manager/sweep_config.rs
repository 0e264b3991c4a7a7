//! The devices of a sweep configuration and the bias, step and sweep
//! channels that use them: which devices the system still has, which are in
//! use, and which channel uses which device.
//!
//! What a channel is set to (its functions, ranges, limits and values) does
//! not enter this bookkeeping: it is the channel's `settings`, made by the
//! caller for a channel's kind and device.
use vstd::prelude::*;

use crate::script_gen_manager::device::{device_id_text, model_device_type, Device, DeviceV};
use crate::script_gen_manager::parameters::{limited, ParameterInt};
use crate::script_gen_manager::system::{MainframeSlot, Node, Root, Slot, StatusMsg, StatusType, SystemInfo};
use crate::text::{chars_of, decimal, decimal_string, extend_vec, owned, split_char, split_char_vec, string_of};

verus! {

/// The kind of a channel.
#[derive(Debug, Clone, Copy, PartialEq, Eq, Structural)]
pub enum ChannelKind {
    Bias,
    Step,
    Sweep,
}

/// A channel of the configuration: its identity, the device it uses, and its
/// settings.
#[derive(Debug)]
pub struct Channel<P> {
    pub uuid: String,
    pub chan_name: String,
    pub device_id: String,
    pub device: Device,
    pub settings: P,
}

/// What the bookkeeping knows of a channel.
pub struct ChanV {
    pub uuid: Seq<char>,
    pub chan_name: Seq<char>,
    pub device_id: Seq<char>,
    pub device: DeviceV,
}

impl<P> View for Channel<P> {
    type V = ChanV;

    open spec fn view(&self) -> ChanV {
        ChanV {
            uuid: self.uuid@,
            chan_name: self.chan_name@,
            device_id: self.device_id@,
            device: self.device@,
        }
    }
}

/// The devices of a list.
pub open spec fn devs_view(v: Seq<Device>) -> Seq<DeviceV> {
    v.map_values(|d: Device| d@)
}

/// The channels of a list.
pub open spec fn chans_view<P>(v: Seq<Channel<P>>) -> Seq<ChanV> {
    v.map_values(|c: Channel<P>| c@)
}

/// The two lists hold channels with the same settings, in the same places.
pub open spec fn same_settings<P>(a: Seq<Channel<P>>, b: Seq<Channel<P>>) -> bool {
    a.len() == b.len() && forall|k: int| 0 <= k < a.len() ==> (#[trigger] a[k]).settings == b[k].settings
}

/// The settings of channel `c` are what `make` gives for a channel of kind
/// `kind` on its device, with `points` points.
pub open spec fn made_by<P, F: Fn(ChannelKind, &Device, i32) -> P>(
    make: F,
    kind: ChannelKind,
    points: i32,
    c: Channel<P>,
) -> bool {
    make.ensures((kind, &c.device, points), c.settings)
}

/// `make` can make the settings of any channel.
pub open spec fn makes_any<P, F: Fn(ChannelKind, &Device, i32) -> P>(make: F) -> bool {
    forall|kind: ChannelKind, d: &Device, n: i32| #[trigger] make.requires((kind, d, n))
}

/// The device `d` marked as used or not.
pub open spec fn with_use(d: DeviceV, in_use: bool) -> DeviceV {
    DeviceV { in_use, ..d }
}

/// The device `d` marked as present in the system or not.
pub open spec fn with_validity(d: DeviceV, is_valid: bool) -> DeviceV {
    DeviceV { is_valid, ..d }
}

/// The devices, those with id `id` no longer in use.
pub open spec fn freed(devs: Seq<DeviceV>, id: Seq<char>) -> Seq<DeviceV> {
    Seq::new(devs.len(), |i: int| if devs[i].id == id { with_use(devs[i], false) } else { devs[i] })
}

/// The devices that are still present or still used, in their order.
pub open spec fn retained(devs: Seq<DeviceV>) -> Seq<DeviceV>
    decreases devs.len(),
{
    if devs.len() == 0 {
        devs
    } else {
        let rest = retained(devs.drop_last());
        if devs.last().is_valid || devs.last().in_use {
            rest.push(devs.last())
        } else {
            rest
        }
    }
}

/// The last device with id `id`, if any.
pub open spec fn last_with_id(devs: Seq<DeviceV>, id: Seq<char>) -> Option<DeviceV>
    decreases devs.len(),
{
    if devs.len() == 0 {
        None
    } else if devs.last().id == id {
        Some(devs.last())
    } else {
        last_with_id(devs.drop_last(), id)
    }
}

/// The channel `c` with the current state of its device, when the list has
/// a device with the channel's device id (the last such device).
pub open spec fn refreshed(c: ChanV, devs: Seq<DeviceV>) -> ChanV {
    match last_with_id(devs, c.device_id) {
        Some(d) => ChanV { device: d, ..c },
        None => c,
    }
}

/// The first index from `i` on of a device with id `id`.
pub open spec fn index_of_id(devs: Seq<DeviceV>, id: Seq<char>, i: int) -> Option<int>
    decreases devs.len() - i,
{
    if i < 0 || i >= devs.len() {
        None
    } else if devs[i].id == id {
        Some(i)
    } else {
        index_of_id(devs, id, i + 1)
    }
}

/// The first index from `i` on of a device that is present and free.
pub open spec fn index_of_free(devs: Seq<DeviceV>, i: int) -> Option<int>
    decreases devs.len() - i,
{
    if i < 0 || i >= devs.len() {
        None
    } else if devs[i].is_valid && !devs[i].in_use {
        Some(i)
    } else {
        index_of_free(devs, i + 1)
    }
}

/// The first index from `i` on of a channel using the device `id`.
pub open spec fn index_of_chan(cs: Seq<ChanV>, id: Seq<char>, i: int) -> Option<int>
    decreases cs.len() - i,
{
    if i < 0 || i >= cs.len() {
        None
    } else if cs[i].device_id == id {
        Some(i)
    } else {
        index_of_chan(cs, id, i + 1)
    }
}

/// The name of the `n`-th channel of a kind: `bias1`, `step2`, ...
pub open spec fn channel_label(kind: ChannelKind, n: nat) -> Seq<char> {
    kind_name(kind) + decimal(n)
}

/// The name of a kind of channel, as the client writes it.
pub open spec fn kind_name(kind: ChannelKind) -> Seq<char> {
    match kind {
        ChannelKind::Bias => "bias"@,
        ChannelKind::Step => "step"@,
        ChannelKind::Sweep => "sweep"@,
    }
}

/// The kind a client's channel type names, if any.
pub open spec fn kind_of(chan_type: Seq<char>) -> Option<ChannelKind> {
    if chan_type == "bias"@ {
        Some(ChannelKind::Bias)
    } else if chan_type == "step"@ {
        Some(ChannelKind::Step)
    } else if chan_type == "sweep"@ {
        Some(ChannelKind::Sweep)
    } else {
        None
    }
}

/// The channels of kind `kind`.
pub open spec fn list_of<P>(c: SweepConfig<P>, kind: ChannelKind) -> Seq<Channel<P>> {
    match kind {
        ChannelKind::Bias => c.bias_channels@,
        ChannelKind::Step => c.step_channels@,
        ChannelKind::Sweep => c.sweep_channels@,
    }
}

/// The number of points a new channel of kind `kind` is made with: the step
/// or sweep points (a bias has none: 0).
pub open spec fn points_of<P>(c: SweepConfig<P>, kind: ChannelKind) -> i32 {
    match kind {
        ChannelKind::Bias => 0,
        ChannelKind::Step => c.step_points.value,
        ChannelKind::Sweep => c.sweep_points.value,
    }
}

/// `after` is `before` with one channel more at its end: named `name`, on
/// the device `d`, its settings made by `make`.
pub open spec fn appended<P, F: Fn(ChannelKind, &Device, i32) -> P>(
    make: F,
    kind: ChannelKind,
    points: i32,
    name: Seq<char>,
    before: Seq<Channel<P>>,
    after: Seq<Channel<P>>,
    d: DeviceV,
) -> bool {
    &&& after.len() == before.len() + 1
    &&& after.drop_last() == before
    &&& after.last()@.chan_name == name
    &&& after.last()@.device_id == d.id
    &&& after.last()@.device == d
    &&& made_by(make, kind, points, after.last())
}

/// `after` is `before` with its first channel on device `old_id` (if any)
/// moved to the device `d`: same uuid and name, settings made anew by `make`.
pub open spec fn replaced<P, F: Fn(ChannelKind, &Device, i32) -> P>(
    make: F,
    kind: ChannelKind,
    points: i32,
    old_id: Seq<char>,
    before: Seq<Channel<P>>,
    after: Seq<Channel<P>>,
    d: DeviceV,
) -> bool {
    match index_of_chan(chans_view(before), old_id, 0) {
        Some(ci) => {
            &&& after.len() == before.len()
            &&& forall|k: int| 0 <= k < before.len() && k != ci ==> #[trigger] after[k] == before[k]
            &&& after[ci]@ == (ChanV {
                uuid: before[ci]@.uuid,
                chan_name: before[ci]@.chan_name,
                device_id: d.id,
                device: d,
            })
            &&& made_by(make, kind, points, after[ci])
        },
        None => after == before,
    }
}

/// The devices after the first present and free one is taken into use.
pub open spec fn taken(devs: Seq<DeviceV>) -> Seq<DeviceV> {
    match index_of_free(devs, 0) {
        Some(k) => devs.update(k, with_use(devs[k], true)),
        None => devs,
    }
}

/// The configurations `a` and `b` have the same channels of every kind but `kind`.
pub open spec fn others_same<P>(a: SweepConfig<P>, b: SweepConfig<P>, kind: ChannelKind) -> bool {
    &&& kind != ChannelKind::Bias ==> a.bias_channels@ == b.bias_channels@
    &&& kind != ChannelKind::Step ==> a.step_channels@ == b.step_channels@
    &&& kind != ChannelKind::Sweep ==> a.sweep_channels@ == b.sweep_channels@
}

/// The configurations `a` and `b` have the same points and status message.
pub open spec fn same_rest<P>(a: SweepConfig<P>, b: SweepConfig<P>) -> bool {
    &&& a.step_points == b.step_points
    &&& a.sweep_points == b.sweep_points
    &&& a.status_msg == b.status_msg
}

/// What the search for a present and free device finds.
pub proof fn lemma_index_of_free(d: Seq<DeviceV>, i: int)
    requires
        0 <= i,
    ensures
        index_of_free(d, i) matches Some(k) ==> i <= k < d.len() && d[k].is_valid && !d[k].in_use,
        index_of_free(d, i) is None ==> forall|j: int| i <= j < d.len() ==> !(#[trigger] d[j].is_valid && !d[j].in_use),
    decreases d.len() - i,
{
    if i < d.len() {
        lemma_index_of_free(d, i + 1);
    }
}

/// What the search for a device by id finds.
pub proof fn lemma_index_of_id(d: Seq<DeviceV>, id: Seq<char>, i: int)
    requires
        0 <= i,
    ensures
        index_of_id(d, id, i) matches Some(k) ==> i <= k < d.len() && d[k].id == id,
        index_of_id(d, id, i) is None ==> forall|j: int| i <= j < d.len() ==> (#[trigger] d[j].id) != id,
    decreases d.len() - i,
{
    if i < d.len() {
        lemma_index_of_id(d, id, i + 1);
    }
}

/// What the search for a channel by device id finds.
pub proof fn lemma_index_of_chan(c: Seq<ChanV>, id: Seq<char>, i: int)
    requires
        0 <= i,
    ensures
        index_of_chan(c, id, i) matches Some(k) ==> i <= k < c.len() && c[k].device_id == id,
        index_of_chan(c, id, i) is None ==> forall|j: int| i <= j < c.len() ==> (#[trigger] c[j].device_id) != id,
    decreases c.len() - i,
{
    if i < c.len() {
        lemma_index_of_chan(c, id, i + 1);
    }
}

/// The devices after the channel on device `old_id` moves to the device at
/// `ni`: the first device with id `old_id` is freed, then the one at `ni`
/// is taken into use.
pub open spec fn moved(devs: Seq<DeviceV>, old_id: Seq<char>, ni: int) -> Seq<DeviceV> {
    let d1 = match index_of_id(devs, old_id, 0) {
        Some(oi) => devs.update(oi, with_use(devs[oi], false)),
        None => devs,
    };
    d1.update(ni, with_use(d1[ni], true))
}

/// The model of the mainframes whose modules become devices.
pub const MAINFRAME_MODEL: &'static str = "MP5103";

/// The module name of an empty slot.
pub const EMPTY_SLOT: &'static str = "Empty";

/// The slots a system or node reports (none when it reports nothing).
pub open spec fn slots_of(o: Option<Vec<Slot>>) -> Seq<Slot> {
    match o {
        Some(v) => v@,
        None => Seq::empty(),
    }
}

/// The slot holds no module.
pub open spec fn is_empty_slot(s: Slot) -> bool {
    s.module@ == EMPTY_SLOT@
}

/// The device on channel `chan` of the module in `slot`, on node `node`.
pub open spec fn slot_device(node: Seq<char>, slot: Slot, chan: i32) -> DeviceV {
    DeviceV {
        node_id: node,
        id: device_id_text(node, slot.slot_id@, model_device_type(slot.module@), chan as int),
        device_type: model_device_type(slot.module@),
        model: slot.module@,
        fw_version: Seq::empty(),
        in_use: false,
        is_valid: true,
        slot_id: slot.slot_id@,
        chan_num: chan,
    }
}

/// The devices of the slots on node `node`: channels 1 and 2 of each slot
/// that holds a module, in slot order.
pub open spec fn slots_devices(node: Seq<char>, slots: Seq<Slot>) -> Seq<DeviceV>
    decreases slots.len(),
{
    if slots.len() == 0 {
        Seq::empty()
    } else {
        let rest = slots_devices(node, slots.drop_last());
        let s = slots.last();
        if is_empty_slot(s) {
            rest
        } else {
            rest.push(slot_device(node, s, 1)).push(slot_device(node, s, 2))
        }
    }
}

/// The devices of the first node from `i` on that is an MP5103 mainframe
/// with at least one module.
pub open spec fn first_node_devices(nodes: Seq<Node>, i: int) -> Seq<DeviceV>
    decreases nodes.len() - i,
{
    if i < 0 || i >= nodes.len() {
        Seq::empty()
    } else {
        let n = nodes[i];
        let d = if n.mainframe@ == MAINFRAME_MODEL@ {
            slots_devices(n.node_id@, slots_of(n.slots))
        } else {
            Seq::empty()
        };
        if d.len() > 0 {
            d
        } else {
            first_node_devices(nodes, i + 1)
        }
    }
}

/// The devices of a system: none when it is not active; those of its local
/// MP5103 mainframe when it has modules; else those of its first MP5103
/// node with modules.
pub open spec fn system_devices(s: SystemInfo) -> Seq<DeviceV> {
    if !s.is_active {
        Seq::empty()
    } else {
        let local = if s.local_node@ == MAINFRAME_MODEL@ {
            slots_devices("localnode"@, slots_of(s.slots))
        } else {
            Seq::empty()
        };
        if local.len() > 0 {
            local
        } else {
            match s.nodes {
                Some(ns) => first_node_devices(ns@, 0),
                None => Seq::empty(),
            }
        }
    }
}

/// The devices of the systems, in order.
pub open spec fn systems_devices(systems: Seq<SystemInfo>) -> Seq<DeviceV>
    decreases systems.len(),
{
    if systems.len() == 0 {
        Seq::empty()
    } else {
        systems_devices(systems.drop_last()) + system_devices(systems.last())
    }
}

/// What the bookkeeping knows of a configuration: its devices and the
/// channels of each kind.
pub struct BookV {
    pub devs: Seq<DeviceV>,
    pub bias: Seq<ChanV>,
    pub step: Seq<ChanV>,
    pub sweep: Seq<ChanV>,
}

/// The bookkeeping of configuration `c`.
pub open spec fn book_of<P>(c: SweepConfig<P>) -> BookV {
    BookV {
        devs: devs_view(c.device_list@),
        bias: chans_view(c.bias_channels@),
        step: chans_view(c.step_channels@),
        sweep: chans_view(c.sweep_channels@),
    }
}

/// The device `d` moved to node `node` (see [`Device::update_node_info`]).
pub open spec fn renamed(d: DeviceV, node: Seq<char>) -> DeviceV {
    DeviceV {
        node_id: node,
        id: device_id_text(node, d.slot_id, d.device_type, d.chan_num as int),
        ..d
    }
}

/// The channels on device `old_id` moved to the device `nd`.
pub open spec fn rename_chans(cs: Seq<ChanV>, old_id: Seq<char>, nd: DeviceV) -> Seq<ChanV> {
    Seq::new(
        cs.len(),
        |i: int| if cs[i].device_id == old_id { ChanV { device_id: nd.id, device: nd, ..cs[i] } } else { cs[i] },
    )
}

/// The device at `k` moved to node `node`, with the channels that use it,
/// unless it is on that node already.
pub open spec fn move_device(b: BookV, k: int, node: Seq<char>) -> BookV {
    let d = b.devs[k];
    if d.node_id == node {
        b
    } else {
        let nd = renamed(d, node);
        BookV {
            devs: b.devs.update(k, nd),
            bias: rename_chans(b.bias, d.id, nd),
            step: rename_chans(b.step, d.id, nd),
            sweep: rename_chans(b.sweep, d.id, nd),
        }
    }
}

/// The device at `k` checked against the module now in `slot` on node
/// `node`: a device of another slot is left alone; a device of that slot is
/// present when the slot holds a module of the device's model (and then
/// moves to `node`), and absent otherwise.
pub open spec fn check_device(b: BookV, k: int, slot: Slot, node: Seq<char>) -> BookV {
    let d = b.devs[k];
    if d.slot_id != slot.slot_id@ {
        b
    } else if is_empty_slot(slot) {
        BookV { devs: b.devs.update(k, with_validity(d, false)), ..b }
    } else {
        let valid = d.model == slot.module@;
        let b1 = BookV { devs: b.devs.update(k, with_validity(d, valid)), ..b };
        if valid {
            move_device(b1, k, node)
        } else {
            b1
        }
    }
}

/// The devices from `k` up to `n` checked in turn against `slot`.
pub open spec fn check_devices(b: BookV, slot: Slot, node: Seq<char>, k: int, n: int) -> BookV
    decreases n - k,
{
    if k >= n {
        b
    } else {
        check_devices(check_device(b, k, slot, node), slot, node, k + 1, n)
    }
}

/// Among the first `n` devices, one of slot `slot_id` on channel `c` is present.
pub open spec fn has_valid_chan(devs: Seq<DeviceV>, n: int, slot_id: Seq<char>, c: i32) -> bool {
    exists|k: int| 0 <= k < n && #[trigger] devs[k].slot_id == slot_id && devs[k].is_valid && devs[k].chan_num == c
}

/// The bookkeeping after the slot `slot` of node `node` is looked at: the
/// devices known before are checked against it, and when it holds a module,
/// a new device is added for each of its channels 1 and 2 that no present
/// device of the slot stands for.
pub open spec fn slot_step(b: BookV, slot: Slot, node: Seq<char>) -> BookV {
    let n = b.devs.len() as int;
    let b1 = check_devices(b, slot, node, 0, n);
    if is_empty_slot(slot) {
        b1
    } else {
        let b2 = if has_valid_chan(b1.devs, n, slot.slot_id@, 1) {
            b1
        } else {
            BookV { devs: b1.devs.push(slot_device(node, slot, 1)), ..b1 }
        };
        if has_valid_chan(b1.devs, n, slot.slot_id@, 2) {
            b2
        } else {
            BookV { devs: b2.devs.push(slot_device(node, slot, 2)), ..b2 }
        }
    }
}

/// The slots from `i` on looked at in turn.
pub open spec fn slots_step(b: BookV, slots: Seq<Slot>, node: Seq<char>, i: int) -> BookV
    decreases slots.len() - i,
{
    if i < 0 || i >= slots.len() {
        b
    } else {
        slots_step(slot_step(b, slots[i], node), slots, node, i + 1)
    }
}

/// Some slot holds a module.
pub open spec fn any_module(slots: Seq<Slot>) -> bool {
    exists|i: int| 0 <= i < slots.len() && !is_empty_slot(#[trigger] slots[i])
}

/// The slots a node reports, looked at when one of them holds a module;
/// whether they were.
pub open spec fn node_step(b: BookV, slots: Option<Vec<Slot>>, node: Seq<char>) -> (BookV, bool) {
    if slots is Some && any_module(slots_of(slots)) {
        (slots_step(b, slots_of(slots), node, 0), true)
    } else {
        (b, false)
    }
}

/// The first MP5103 node from `i` on whose slots hold a module, looked at;
/// whether there was one.
pub open spec fn nodes_step(b: BookV, nodes: Seq<Node>, i: int) -> (BookV, bool)
    decreases nodes.len() - i,
{
    if i < 0 || i >= nodes.len() {
        (b, false)
    } else if nodes[i].mainframe@ == MAINFRAME_MODEL@ && node_step(b, nodes[i].slots, nodes[i].node_id@).1 {
        node_step(b, nodes[i].slots, nodes[i].node_id@)
    } else {
        nodes_step(b, nodes, i + 1)
    }
}

/// A system looked at: nothing when it is not active; its local MP5103
/// mainframe when that has a module; else its first MP5103 node with a
/// module.  Whether any slots were looked at.
pub open spec fn system_step(b: BookV, s: SystemInfo) -> (BookV, bool) {
    if !s.is_active {
        (b, false)
    } else {
        let local = if s.local_node@ == MAINFRAME_MODEL@ {
            node_step(b, s.slots, "localnode"@)
        } else {
            (b, false)
        };
        if local.1 {
            local
        } else {
            match s.nodes {
                Some(ns) => nodes_step(b, ns@, 0),
                None => (b, false),
            }
        }
    }
}

/// The systems from `i` on looked at in turn; whether any slots were.
pub open spec fn systems_step(b: BookV, systems: Seq<SystemInfo>, i: int) -> (BookV, bool)
    decreases systems.len() - i,
{
    if i < 0 || i >= systems.len() {
        (b, false)
    } else {
        let r = system_step(b, systems[i]);
        let rest = systems_step(r.0, systems, i + 1);
        (rest.0, r.1 || rest.1)
    }
}

/// Every device marked absent.
pub open spec fn all_invalid(devs: Seq<DeviceV>) -> Seq<DeviceV> {
    Seq::new(devs.len(), |i: int| with_validity(devs[i], false))
}

/// Some device is used by a channel but no longer present.
pub open spec fn some_used_invalid(devs: Seq<DeviceV>) -> bool {
    exists|i: int| 0 <= i < devs.len() && #[trigger] devs[i].in_use && !devs[i].is_valid
}

/// The bookkeeping after the system configuration `root` (none when it
/// could not be read) is compared with the devices: the systems are looked
/// at; when no slots were, every device is marked absent; then the devices
/// neither present nor used are dropped.
pub open spec fn changed_slots(b: BookV, root: Option<Seq<SystemInfo>>) -> BookV {
    let r = match root {
        Some(systems) => systems_step(b, systems, 0),
        None => (b, false),
    };
    let b2 = if r.1 {
        r.0
    } else {
        BookV { devs: all_invalid(r.0.devs), ..r.0 }
    };
    BookV { devs: retained(b2.devs), ..b2 }
}

/// The message given when channels in use lost their device.
pub const INVALID_CHANNELS: &'static str = "Some channels in use are invalid. Re-assign the invalid channels for the generated script to be functional.";

/// The message given when no device is left for a new channel.
pub const NO_FREE_DEVICE: &'static str = "No valid or free device found to add a new channel.";

/// A lower-case hexadecimal digit.
pub open spec fn is_lower_hex(c: char) -> bool {
    ('0' <= c && c <= '9') || ('a' <= c && c <= 'f')
}

/// The hyphenated lower-case text of a random (version 4) UUID:
/// `xxxxxxxx-xxxx-4xxx-Yxxx-xxxxxxxxxxxx`, `Y` one of `8`, `9`, `a`, `b`.
pub open spec fn is_uuid_v4_text(s: Seq<char>) -> bool {
    &&& s.len() == 36
    &&& forall|i: int|
        0 <= i < 36 ==> if i == 8 || i == 13 || i == 18 || i == 23 {
            s[i] == '-'
        } else {
            is_lower_hex(#[trigger] s[i])
        }
    &&& s[14] == '4'
    &&& (s[19] == '8' || s[19] == '9' || s[19] == 'a' || s[19] == 'b')
}

/// Calls `uuid::Uuid::new_v4()` and writes it out.  The identifier is random;
/// what is claimed is its shape: `new_v4` sets the version and variant bits,
/// and `Display` writes the hyphenated lower-case form.
#[verifier::external_body]
fn new_uuid() -> (r: String)
    ensures
        is_uuid_v4_text(r@),
{
    uuid::Uuid::new_v4().to_string()
}

impl<P> Channel<P> {
    /// A channel named `chan_name` on `device`, with a fresh random uuid.
    pub fn new(chan_name: String, device: Device, settings: P) -> (r: Self)
        ensures
            is_uuid_v4_text(r.uuid@),
            r.chan_name == chan_name,
            r.device_id@ == device._id@,
            r.device == device,
            r.settings == settings,
    {
        let device_id = device.get_id();
        Channel { uuid: new_uuid(), chan_name, device_id, device, settings }
    }
}

/// An index as an integer.
pub open spec fn as_index(r: Option<usize>) -> Option<int> {
    match r {
        Some(k) => Some(k as int),
        None => None,
    }
}

/// The index of the last device with id `id` (see [`last_with_id`]).
fn last_index_of_id(devs: &Vec<Device>, id: &String) -> (r: Option<usize>)
    ensures
        match r {
            Some(k) => k < devs@.len() && last_with_id(devs_view(devs@), id@) == Some(devs@[k as int]@),
            None => last_with_id(devs_view(devs@), id@) is None,
        },
{
    let ghost d = devs_view(devs@);
    let mut j: usize = devs.len();
    assert(d.take(j as int) =~= d);
    while j > 0
        invariant
            j <= devs@.len(),
            d == devs_view(devs@),
            last_with_id(d, id@) == last_with_id(d.take(j as int), id@),
        decreases j,
    {
        assert(d.take(j as int).drop_last() =~= d.take(j - 1));
        if devs[j - 1]._id == *id {
            return Some(j - 1);
        }
        j = j - 1;
    }
    None
}

/// The first index of a device with id `id` (see [`index_of_id`]).
fn first_index_of_id(devs: &Vec<Device>, id: &String) -> (r: Option<usize>)
    ensures
        as_index(r) == index_of_id(devs_view(devs@), id@, 0),
{
    let ghost d = devs_view(devs@);
    let mut j: usize = 0;
    while j < devs.len()
        invariant
            j <= devs@.len(),
            d == devs_view(devs@),
            index_of_id(d, id@, 0) == index_of_id(d, id@, j as int),
        decreases devs.len() - j,
    {
        if devs[j]._id == *id {
            return Some(j);
        }
        j = j + 1;
    }
    None
}

/// The first index of a device that is present and free (see [`index_of_free`]).
fn first_free_index(devs: &Vec<Device>) -> (r: Option<usize>)
    ensures
        as_index(r) == index_of_free(devs_view(devs@), 0),
{
    let ghost d = devs_view(devs@);
    let mut j: usize = 0;
    while j < devs.len()
        invariant
            j <= devs@.len(),
            d == devs_view(devs@),
            index_of_free(d, 0) == index_of_free(d, j as int),
        decreases devs.len() - j,
    {
        if devs[j].is_valid && !devs[j].in_use {
            return Some(j);
        }
        j = j + 1;
    }
    None
}

/// The first index of a channel using device `id` (see [`index_of_chan`]).
fn first_chan_index<P>(cs: &Vec<Channel<P>>, id: &String) -> (r: Option<usize>)
    ensures
        as_index(r) == index_of_chan(chans_view(cs@), id@, 0),
{
    let ghost c = chans_view(cs@);
    let mut j: usize = 0;
    while j < cs.len()
        invariant
            j <= cs@.len(),
            c == chans_view(cs@),
            index_of_chan(c, id@, 0) == index_of_chan(c, id@, j as int),
        decreases cs.len() - j,
    {
        if cs[j].device_id == *id {
            return Some(j);
        }
        j = j + 1;
    }
    None
}

/// Gives each channel of `list` the current state of its device (see [`refreshed`]).
fn refresh_list<P>(list: &mut Vec<Channel<P>>, devs: &Vec<Device>)
    ensures
        chans_view(final(list)@) == Seq::new(
            old(list)@.len(),
            |i: int| refreshed(old(list)@[i]@, devs_view(devs@)),
        ),
        same_settings(final(list)@, old(list)@),
{
    let ghost c0 = old(list)@;
    let n = list.len();
    let mut i: usize = 0;
    while i < n
        invariant
            n == list@.len(),
            c0.len() == n,
            i <= n,
            forall|k: int| 0 <= k < i ==> (#[trigger] list@[k])@ == refreshed(c0[k]@, devs_view(devs@)),
            forall|k: int| i <= k < n ==> #[trigger] list@[k] == c0[k],
            forall|k: int| 0 <= k < n ==> (#[trigger] list@[k]).settings == c0[k].settings,
        decreases n - i,
    {
        let found = last_index_of_id(devs, &list[i].device_id);
        match found {
            Some(k) => {
                let mut c = list.remove(i);
                c.device = devs[k].duplicate();
                list.insert(i, c);
            },
            None => {},
        }
        i = i + 1;
    }
    assert(chans_view(list@) =~= Seq::new(n as nat, |i: int| refreshed(c0[i]@, devs_view(devs@))));
}

/// The name of the `n`-th channel of kind `kind` (see [`channel_label`]).
fn label(kind: ChannelKind, n: usize) -> (r: String)
    ensures
        r@ == channel_label(kind, n as nat),
{
    let mut v = match kind {
        ChannelKind::Bias => chars_of("bias"),
        ChannelKind::Step => chars_of("step"),
        ChannelKind::Sweep => chars_of("sweep"),
    };
    extend_vec(&mut v, &chars_of(decimal_string(n).as_str()));
    let r = string_of(v.as_slice());
    assert(r@ =~= channel_label(kind, n as nat));
    r
}

/// The kind a client's channel type names (see [`kind_of`]).
fn parse_kind(chan_type: &String) -> (r: Option<ChannelKind>)
    ensures
        r == kind_of(chan_type@),
{
    if *chan_type == owned("bias") {
        Some(ChannelKind::Bias)
    } else if *chan_type == owned("step") {
        Some(ChannelKind::Step)
    } else if *chan_type == owned("sweep") {
        Some(ChannelKind::Sweep)
    } else {
        None
    }
}

/// Moves the first channel of `list` on device `old_id` (if any) to
/// `device`, keeping its uuid and name; its settings are made anew.
fn replace_in<P, F: Fn(ChannelKind, &Device, i32) -> P>(
    list: &mut Vec<Channel<P>>,
    kind: ChannelKind,
    points: i32,
    old_id: &String,
    device: Device,
    make: &F,
)
    requires
        makes_any(*make),
    ensures
        replaced(*make, kind, points, old_id@, old(list)@, final(list)@, device@),
{
    proof {
        lemma_index_of_chan(chans_view(list@), old_id@, 0);
    }
    match first_chan_index(list, old_id) {
        Some(ci) => {
            let old_chan = list.remove(ci);
            assert(make.requires((kind, &device, points)));
            let settings = make(kind, &device, points);
            let device_id = device.get_id();
            let c = Channel { uuid: old_chan.uuid, chan_name: old_chan.chan_name, device_id, device, settings };
            list.insert(ci, c);
            assert forall|k: int| 0 <= k < old(list)@.len() && k != ci implies #[trigger] list@[k] == old(list)@[k] by {
                if k < ci {
                } else {
                }
            }
        },
        None => {},
    }
}

/// Appends the devices of `slots` on node `node` (see [`slots_devices`]);
/// whether there were any.
fn push_slot_devices(list: &mut Vec<Device>, node: &String, mainframe: &String, slots: &Vec<Slot>) -> (found: bool)
    ensures
        devs_view(final(list)@) == devs_view(old(list)@) + slots_devices(node@, slots@),
        found == (slots_devices(node@, slots@).len() > 0),
{
    let ghost l0 = devs_view(list@);
    let mut found = false;
    let mut i: usize = 0;
    assert(slots@.take(0) =~= Seq::<Slot>::empty());
    while i < slots.len()
        invariant
            i <= slots@.len(),
            devs_view(list@) == l0 + slots_devices(node@, slots@.take(i as int)),
            found == (slots_devices(node@, slots@.take(i as int)).len() > 0),
        decreases slots.len() - i,
    {
        assert(slots@.take(i + 1).drop_last() =~= slots@.take(i as int));
        assert(slots@.take(i + 1).last() == slots@[i as int]);
        let slot = &slots[i];
        if slot.module != owned(EMPTY_SLOT) {
            let ms = MainframeSlot { name: slot.slot_id.clone(), model: slot.module.clone() };
            let d1 = Device::new(node.clone(), mainframe.clone(), &ms, 1);
            let d2 = Device::new(node.clone(), mainframe.clone(), &ms, 2);
            assert(d1@ == slot_device(node@, *slot, 1));
            assert(d2@ == slot_device(node@, *slot, 2));
            let ghost mid = devs_view(list@);
            list.push(d1);
            list.push(d2);
            assert(devs_view(list@) =~= mid.push(d1@).push(d2@));
            assert(!is_empty_slot(*slot));
            assert(slots_devices(node@, slots@.take(i + 1)) == slots_devices(node@, slots@.take(i as int)).push(
                slot_device(node@, *slot, 1),
            ).push(slot_device(node@, *slot, 2)));
            found = true;
            assert(devs_view(list@) =~= l0 + slots_devices(node@, slots@.take(i + 1)));
        } else {
            assert(devs_view(list@) =~= l0 + slots_devices(node@, slots@.take(i + 1)));
        }
        i = i + 1;
    }
    assert(slots@.take(slots.len() as int) =~= slots@);
    found
}

/// Appends the devices of the slots a system or node reports.
fn push_opt_slot_devices(list: &mut Vec<Device>, node: &String, mainframe: &String, slots: &Option<Vec<Slot>>) -> (found: bool)
    ensures
        devs_view(final(list)@) == devs_view(old(list)@) + slots_devices(node@, slots_of(*slots)),
        found == (slots_devices(node@, slots_of(*slots)).len() > 0),
{
    match slots {
        Some(v) => push_slot_devices(list, node, mainframe, v),
        None => {
            assert(devs_view(list@) =~= devs_view(list@) + slots_devices(node@, slots_of(*slots)));
            false
        },
    }
}

/// Appends the devices of a system (see [`system_devices`]).
fn push_system_devices(list: &mut Vec<Device>, system: &SystemInfo)
    ensures
        devs_view(final(list)@) == devs_view(old(list)@) + system_devices(*system),
{
    let ghost l0 = devs_view(list@);
    if !system.is_active {
        assert(devs_view(list@) =~= l0 + system_devices(*system));
        return ;
    }
    if system.local_node == owned(MAINFRAME_MODEL) {
        let local = owned("localnode");
        let found_local = push_opt_slot_devices(list, &local, &system.local_node, &system.slots);
        if found_local {
            assert(devs_view(list@) =~= l0 + system_devices(*system));
            return ;
        }
    }
    assert(devs_view(list@) =~= l0);
    match &system.nodes {
        Some(nodes) => {
            assert(system_devices(*system) == first_node_devices(nodes@, 0));
            let mut j: usize = 0;
            while j < nodes.len()
                invariant
                    j <= nodes@.len(),
                    l0 == devs_view(old(list)@),
                    devs_view(list@) == l0,
                    system_devices(*system) == first_node_devices(nodes@, 0),
                    first_node_devices(nodes@, 0) == first_node_devices(nodes@, j as int),
                decreases nodes.len() - j,
            {
                let node = &nodes[j];
                if node.mainframe == owned(MAINFRAME_MODEL) {
                    let found = push_opt_slot_devices(list, &node.node_id, &node.mainframe, &node.slots);
                    if found {
                        assert(devs_view(list@) =~= l0 + system_devices(*system));
                        return ;
                    }
                    assert(devs_view(list@) =~= l0);
                }
                j = j + 1;
            }
            assert(devs_view(list@) =~= l0 + system_devices(*system));
        },
        None => {
            assert(devs_view(list@) =~= l0 + system_devices(*system));
        },
    }
}

/// Appends the devices of all systems (see [`systems_devices`]); whether
/// there were any.
pub fn push_root_devices(list: &mut Vec<Device>, root: &Root) -> (found: bool)
    ensures
        devs_view(final(list)@) == devs_view(old(list)@) + systems_devices(root.systems@),
        found == (systems_devices(root.systems@).len() > 0),
{
    let ghost l0 = devs_view(list@);
    let n0 = list.len();
    let mut i: usize = 0;
    assert(root.systems@.take(0) =~= Seq::<SystemInfo>::empty());
    assert(l0 + Seq::<DeviceV>::empty() =~= l0);
    while i < root.systems.len()
        invariant
            i <= root.systems@.len(),
            devs_view(list@) == l0 + systems_devices(root.systems@.take(i as int)),
        decreases root.systems.len() - i,
    {
        assert(root.systems@.take(i + 1).drop_last() =~= root.systems@.take(i as int));
        push_system_devices(list, &root.systems[i]);
        assert(devs_view(list@) =~= l0 + systems_devices(root.systems@.take(i + 1)));
        i = i + 1;
    }
    assert(root.systems@.take(root.systems.len() as int) =~= root.systems@);
    proof {
        assert(devs_view(list@).len() == l0.len() + systems_devices(root.systems@).len());
    }
    list.len() > n0
}

/// Moves the channels of `list` on device `old_id` to the device `nd`.
fn rename_in<P>(list: &mut Vec<Channel<P>>, old_id: &String, nd: &Device)
    ensures
        chans_view(final(list)@) == rename_chans(chans_view(old(list)@), old_id@, nd@),
        same_settings(final(list)@, old(list)@),
{
    let ghost c0 = old(list)@;
    let n = list.len();
    let mut i: usize = 0;
    while i < n
        invariant
            n == list@.len(),
            c0.len() == n,
            i <= n,
            forall|k: int| 0 <= k < i ==> (#[trigger] list@[k])@ == rename_chans(chans_view(c0), old_id@, nd@)[k],
            forall|k: int| i <= k < n ==> #[trigger] list@[k] == c0[k],
            forall|k: int| 0 <= k < n ==> (#[trigger] list@[k]).settings == c0[k].settings,
        decreases n - i,
    {
        if list[i].device_id == *old_id {
            let mut c = list.remove(i);
            c.device_id = nd.get_id();
            c.device = nd.duplicate();
            list.insert(i, c);
        }
        i = i + 1;
    }
    assert(chans_view(list@) =~= rename_chans(chans_view(c0), old_id@, nd@));
}

/// Among the first `n` devices, one of slot `slot_id` on channel `c` is present
/// (see [`has_valid_chan`]).
fn find_valid_chan(devs: &Vec<Device>, n: usize, slot_id: &String, c: i32) -> (r: bool)
    requires
        n <= devs@.len(),
    ensures
        r == has_valid_chan(devs_view(devs@), n as int, slot_id@, c),
{
    let ghost d = devs_view(devs@);
    let mut k: usize = 0;
    while k < n
        invariant
            k <= n,
            n <= devs@.len(),
            d == devs_view(devs@),
            forall|j: int| 0 <= j < k ==> !(#[trigger] d[j].slot_id == slot_id@ && d[j].is_valid && d[j].chan_num == c),
        decreases n - k,
    {
        if devs[k].slot_id == *slot_id && devs[k].is_valid && devs[k].chan_num == c {
            assert(d[k as int].slot_id == slot_id@ && d[k as int].is_valid && d[k as int].chan_num == c);
            return true;
        }
        k = k + 1;
    }
    false
}

/// Some slot holds a module (see [`any_module`]).
fn has_module(slots: &Vec<Slot>) -> (r: bool)
    ensures
        r == any_module(slots@),
{
    let mut i: usize = 0;
    while i < slots.len()
        invariant
            i <= slots@.len(),
            forall|j: int| 0 <= j < i ==> is_empty_slot(#[trigger] slots@[j]),
        decreases slots.len() - i,
    {
        if slots[i].module != owned(EMPTY_SLOT) {
            assert(!is_empty_slot(slots@[i as int]));
            return true;
        }
        i = i + 1;
    }
    false
}

/// The systems of a configuration that could be read.
pub open spec fn opt_systems(root: Option<&Root>) -> Option<Seq<SystemInfo>> {
    match root {
        Some(r) => Some(r.systems@),
        None => None,
    }
}

/// The devices and the channels of a sweep configuration.
#[derive(Debug)]
pub struct SweepConfig<P> {
    pub bias_channels: Vec<Channel<P>>,
    pub step_channels: Vec<Channel<P>>,
    pub sweep_channels: Vec<Channel<P>>,
    /// The number of steps.
    pub step_points: ParameterInt,
    /// The number of points of a sweep.
    pub sweep_points: ParameterInt,
    pub device_list: Vec<Device>,
    pub status_msg: Option<StatusMsg>,
}

/// The configuration `c` has the channels of `o`.
pub open spec fn same_channels<P>(c: SweepConfig<P>, o: SweepConfig<P>) -> bool {
    &&& c.bias_channels@ == o.bias_channels@
    &&& c.step_channels@ == o.step_channels@
    &&& c.sweep_channels@ == o.sweep_channels@
}

impl<P> SweepConfig<P> {
    /// An empty configuration: no channels, no devices, ten steps of ten points.
    pub fn new() -> (r: Self)
        ensures
            r.bias_channels@.len() == 0,
            r.step_channels@.len() == 0,
            r.sweep_channels@.len() == 0,
            r.device_list@.len() == 0,
            r.step_points.id@ == "step_points"@,
            r.step_points.value == 10,
            r.sweep_points.id@ == "sweep_points"@,
            r.sweep_points.value == 10,
            r.status_msg is None,
    {
        SweepConfig {
            bias_channels: Vec::new(),
            step_channels: Vec::new(),
            sweep_channels: Vec::new(),
            step_points: ParameterInt::new("step_points", 10),
            sweep_points: ParameterInt::new("sweep_points", 10),
            device_list: Vec::new(),
            status_msg: None,
        }
    }

    /// Starts over with an empty configuration (see [`SweepConfig::new`]).
    pub fn reset(&mut self)
        ensures
            final(self).bias_channels@.len() == 0,
            final(self).step_channels@.len() == 0,
            final(self).sweep_channels@.len() == 0,
            final(self).device_list@.len() == 0,
            final(self).step_points.id@ == "step_points"@,
            final(self).step_points.value == 10,
            final(self).sweep_points.id@ == "sweep_points"@,
            final(self).sweep_points.value == 10,
            final(self).status_msg is None,
    {
        *self = SweepConfig::new();
    }

    /// Appends a bias channel.
    pub fn add_bias(&mut self, bias_chan: Channel<P>)
        ensures
            final(self).bias_channels@ == old(self).bias_channels@.push(bias_chan),
            final(self).step_channels == old(self).step_channels,
            final(self).sweep_channels == old(self).sweep_channels,
            final(self).device_list == old(self).device_list,
            final(self).step_points == old(self).step_points,
            final(self).sweep_points == old(self).sweep_points,
            final(self).status_msg == old(self).status_msg,
    {
        self.bias_channels.push(bias_chan);
    }

    /// Appends a step channel.
    pub fn add_step(&mut self, step_chan: Channel<P>)
        ensures
            final(self).step_channels@ == old(self).step_channels@.push(step_chan),
            final(self).bias_channels == old(self).bias_channels,
            final(self).sweep_channels == old(self).sweep_channels,
            final(self).device_list == old(self).device_list,
            final(self).step_points == old(self).step_points,
            final(self).sweep_points == old(self).sweep_points,
            final(self).status_msg == old(self).status_msg,
    {
        self.step_channels.push(step_chan);
    }

    /// Appends a sweep channel.
    pub fn add_sweep(&mut self, sweep_chan: Channel<P>)
        ensures
            final(self).sweep_channels@ == old(self).sweep_channels@.push(sweep_chan),
            final(self).bias_channels == old(self).bias_channels,
            final(self).step_channels == old(self).step_channels,
            final(self).device_list == old(self).device_list,
            final(self).step_points == old(self).step_points,
            final(self).sweep_points == old(self).sweep_points,
            final(self).status_msg == old(self).status_msg,
    {
        self.sweep_channels.push(sweep_chan);
    }

    /// Frees the devices with id `chan_id`.
    pub fn remove_channel(&mut self, chan_id: String)
        ensures
            devs_view(final(self).device_list@) == freed(devs_view(old(self).device_list@), chan_id@),
            same_channels(*final(self), *old(self)),
            final(self).step_points == old(self).step_points,
            final(self).sweep_points == old(self).sweep_points,
            final(self).status_msg == old(self).status_msg,
    {
        let ghost d0 = devs_view(self.device_list@);
        let n = self.device_list.len();
        let mut i: usize = 0;
        while i < n
            invariant
                n == self.device_list@.len(),
                d0.len() == n,
                i <= n,
                forall|k: int| 0 <= k < i ==> (#[trigger] self.device_list@[k])@ == freed(d0, chan_id@)[k],
                forall|k: int| i <= k < n ==> (#[trigger] self.device_list@[k])@ == d0[k],
                same_channels(*self, *old(self)),
                self.step_points == old(self).step_points,
                self.sweep_points == old(self).sweep_points,
                self.status_msg == old(self).status_msg,
            decreases n - i,
        {
            if self.device_list[i]._id == chan_id {
                let mut d = self.device_list.remove(i);
                d.in_use = false;
                self.device_list.insert(i, d);
            }
            i = i + 1;
        }
        assert(devs_view(self.device_list@) =~= freed(d0, chan_id@));
    }

    /// Drops the devices that are neither present nor used.
    pub fn remove_unused_invalid_channels(&mut self)
        ensures
            devs_view(final(self).device_list@) == retained(devs_view(old(self).device_list@)),
            same_channels(*final(self), *old(self)),
            final(self).step_points == old(self).step_points,
            final(self).sweep_points == old(self).sweep_points,
            final(self).status_msg == old(self).status_msg,
    {
        let mut old_list: Vec<Device> = Vec::new();
        std::mem::swap(&mut old_list, &mut self.device_list);
        let ghost d0 = devs_view(old_list@);
        let mut i: usize = 0;
        while i < old_list.len()
            invariant
                i <= old_list@.len(),
                d0 == devs_view(old_list@),
                devs_view(self.device_list@) == retained(d0.take(i as int)),
                same_channels(*self, *old(self)),
                self.step_points == old(self).step_points,
                self.sweep_points == old(self).sweep_points,
                self.status_msg == old(self).status_msg,
            decreases old_list.len() - i,
        {
            proof {
                assert(d0.take(i + 1).drop_last() =~= d0.take(i as int));
            }
            if old_list[i].is_valid || old_list[i].in_use {
                self.device_list.push(old_list[i].duplicate());
                assert(devs_view(self.device_list@) =~= retained(d0.take(i as int)).push(d0[i as int]));
            }
            i = i + 1;
        }
        assert(d0.take(old_list.len() as int) =~= d0);
    }

    /// Gives every channel the current state of its device: that of the last
    /// device in the list with the channel's device id, when there is one.
    pub fn update_channel_devices(&mut self)
        ensures
            chans_view(final(self).bias_channels@) == Seq::new(
                old(self).bias_channels@.len(),
                |i: int| refreshed(old(self).bias_channels@[i]@, devs_view(old(self).device_list@)),
            ),
            chans_view(final(self).step_channels@) == Seq::new(
                old(self).step_channels@.len(),
                |i: int| refreshed(old(self).step_channels@[i]@, devs_view(old(self).device_list@)),
            ),
            chans_view(final(self).sweep_channels@) == Seq::new(
                old(self).sweep_channels@.len(),
                |i: int| refreshed(old(self).sweep_channels@[i]@, devs_view(old(self).device_list@)),
            ),
            same_settings(final(self).bias_channels@, old(self).bias_channels@),
            same_settings(final(self).step_channels@, old(self).step_channels@),
            same_settings(final(self).sweep_channels@, old(self).sweep_channels@),
            final(self).device_list == old(self).device_list,
            final(self).step_points == old(self).step_points,
            final(self).sweep_points == old(self).sweep_points,
            final(self).status_msg == old(self).status_msg,
    {
        refresh_list(&mut self.bias_channels, &self.device_list);
        refresh_list(&mut self.step_channels, &self.device_list);
        refresh_list(&mut self.sweep_channels, &self.device_list);
    }
    /// Takes the first present and free device into use and gives a copy of it.
    fn take_free_device(&mut self) -> (r: Option<Device>)
        ensures
            devs_view(final(self).device_list@) == taken(devs_view(old(self).device_list@)),
            match index_of_free(devs_view(old(self).device_list@), 0) {
                Some(k) => {
                    &&& k < old(self).device_list@.len()
                    &&& r matches Some(d)
                    &&& d@ == with_use(old(self).device_list@[k]@, true)
                },
                None => r is None && final(self).device_list == old(self).device_list,
            },
            same_channels(*final(self), *old(self)),
            same_rest(*final(self), *old(self)),
    {
        proof {
            lemma_index_of_free(devs_view(self.device_list@), 0);
        }
        match first_free_index(&self.device_list) {
            Some(k) => {
                let mut d = self.device_list.remove(k);
                d.in_use = true;
                let copy = d.duplicate();
                self.device_list.insert(k, d);
                assert(devs_view(self.device_list@) =~= taken(devs_view(old(self).device_list@)));
                Some(copy)
            },
            None => None,
        }
    }

    /// Appends a channel of kind `kind` named `name` on `device`, its settings made by `make`.
    fn push_channel<F: Fn(ChannelKind, &Device, i32) -> P>(
        &mut self,
        kind: ChannelKind,
        name: String,
        device: Device,
        make: &F,
    )
        requires
            makes_any(*make),
        ensures
            appended(
                *make,
                kind,
                points_of(*old(self), kind),
                name@,
                list_of(*old(self), kind),
                list_of(*final(self), kind),
                device@,
            ),
            others_same(*final(self), *old(self), kind),
            final(self).device_list == old(self).device_list,
            same_rest(*final(self), *old(self)),
    {
        let points = match kind {
            ChannelKind::Bias => 0,
            ChannelKind::Step => self.step_points.value,
            ChannelKind::Sweep => self.sweep_points.value,
        };
        assert(make.requires((kind, &device, points)));
        let settings = make(kind, &device, points);
        let c = Channel::new(name, device, settings);
        match kind {
            ChannelKind::Bias => self.add_bias(c),
            ChannelKind::Step => self.add_step(c),
            ChannelKind::Sweep => self.add_sweep(c),
        }
        assert(list_of(*self, kind).drop_last() =~= list_of(*old(self), kind));
    }

    /// Adds a channel of type `chan_type` (`bias`, `step` or `sweep`) on the
    /// first present and free device, which is taken into use; the channel
    /// is named after its kind and its place (`bias3` for a third bias).
    /// Another type takes the device into use and adds no channel.  With no
    /// present and free device, nothing changes but the status message, a
    /// warning.
    pub fn add_channel<F: Fn(ChannelKind, &Device, i32) -> P>(&mut self, chan_type: String, make: &F)
        requires
            makes_any(*make),
            old(self).bias_channels@.len() < usize::MAX,
            old(self).step_channels@.len() < usize::MAX,
            old(self).sweep_channels@.len() < usize::MAX,
        ensures
            match index_of_free(devs_view(old(self).device_list@), 0) {
                Some(k) => {
                    &&& devs_view(final(self).device_list@) == taken(devs_view(old(self).device_list@))
                    &&& same_rest(*final(self), *old(self))
                    &&& match kind_of(chan_type@) {
                        Some(kind) => {
                            &&& appended(
                                *make,
                                kind,
                                points_of(*old(self), kind),
                                channel_label(kind, list_of(*old(self), kind).len() + 1),
                                list_of(*old(self), kind),
                                list_of(*final(self), kind),
                                with_use(old(self).device_list@[k]@, true),
                            )
                            &&& others_same(*final(self), *old(self), kind)
                        },
                        None => same_channels(*final(self), *old(self)),
                    }
                },
                None => {
                    &&& final(self).device_list == old(self).device_list
                    &&& same_channels(*final(self), *old(self))
                    &&& final(self).step_points == old(self).step_points
                    &&& final(self).sweep_points == old(self).sweep_points
                    &&& final(self).status_msg matches Some(m)
                    &&& m.status_type == StatusType::Warning
                    &&& m.message@ == NO_FREE_DEVICE@
                },
            },
    {
        match self.take_free_device() {
            Some(device) => {
                match parse_kind(&chan_type) {
                    Some(kind) => {
                        let n = match kind {
                            ChannelKind::Bias => self.bias_channels.len(),
                            ChannelKind::Step => self.step_channels.len(),
                            ChannelKind::Sweep => self.sweep_channels.len(),
                        };
                        let name = label(kind, n + 1);
                        self.push_channel(kind, name, device, make);
                    },
                    None => {},
                }
            },
            None => {
                self.status_msg = Some(StatusMsg::new(StatusType::Warning, owned(NO_FREE_DEVICE)));
            },
        }
    }

    /// Starts a configuration on the devices: a first step channel, a first
    /// sweep channel and a first bias channel, each on the next present and
    /// free device, for as long as there is one.
    pub fn auto_configure<F: Fn(ChannelKind, &Device, i32) -> P>(&mut self, make: &F)
        requires
            makes_any(*make),
        ensures
            ({
                let d0 = devs_view(old(self).device_list@);
                let d1 = taken(d0);
                let d2 = taken(d1);
                &&& devs_view(final(self).device_list@) == taken(d2)
                &&& match index_of_free(d0, 0) {
                    Some(k) => appended(
                        *make,
                        ChannelKind::Step,
                        old(self).step_points.value,
                        "step1"@,
                        old(self).step_channels@,
                        final(self).step_channels@,
                        d1[k],
                    ),
                    None => final(self).step_channels@ == old(self).step_channels@,
                }
                &&& match index_of_free(d1, 0) {
                    Some(k) => appended(
                        *make,
                        ChannelKind::Sweep,
                        old(self).sweep_points.value,
                        "sweep1"@,
                        old(self).sweep_channels@,
                        final(self).sweep_channels@,
                        d2[k],
                    ),
                    None => final(self).sweep_channels@ == old(self).sweep_channels@,
                }
                &&& match index_of_free(d2, 0) {
                    Some(k) => appended(
                        *make,
                        ChannelKind::Bias,
                        0,
                        "bias1"@,
                        old(self).bias_channels@,
                        final(self).bias_channels@,
                        taken(d2)[k],
                    ),
                    None => final(self).bias_channels@ == old(self).bias_channels@,
                }
            }),
            same_rest(*final(self), *old(self)),
    {
        let ghost d0 = devs_view(self.device_list@);
        let ghost steps0 = self.step_channels@;
        let ghost sweeps0 = self.sweep_channels@;
        let ghost biases0 = self.bias_channels@;
        proof {
            lemma_index_of_free(d0, 0);
        }
        match self.take_free_device() {
            Some(device) => {
                self.push_channel(ChannelKind::Step, owned("step1"), device, make);
            },
            None => {},
        }
        let ghost d1 = devs_view(self.device_list@);
        assert(d1 == taken(d0));
        let ghost steps = self.step_channels@;
        assert(self.sweep_channels@ == sweeps0);
        assert(self.bias_channels@ == biases0);
        proof {
            lemma_index_of_free(d1, 0);
        }
        match self.take_free_device() {
            Some(device) => {
                self.push_channel(ChannelKind::Sweep, owned("sweep1"), device, make);
            },
            None => {},
        }
        let ghost d2 = devs_view(self.device_list@);
        assert(d2 == taken(d1));
        assert(self.step_channels@ == steps);
        assert(self.bias_channels@ == biases0);
        let ghost sweeps = self.sweep_channels@;
        proof {
            lemma_index_of_free(d2, 0);
        }
        match self.take_free_device() {
            Some(device) => {
                self.push_channel(ChannelKind::Bias, owned("bias1"), device, make);
            },
            None => {},
        }
        assert(self.step_channels@ == steps);
        assert(self.sweep_channels@ == sweeps);
    }
    /// Moves the channel of type `chan_type` on device `old_chan_id` to the
    /// device `new_chan_id`, when that device exists and is present: the old
    /// device is freed, the new one taken into use, and the first channel of
    /// that type on the old device gets the new device, its uuid and name
    /// kept and its settings made anew.  Otherwise nothing changes.
    pub fn update_channel<F: Fn(ChannelKind, &Device, i32) -> P>(
        &mut self,
        chan_type: String,
        old_chan_id: String,
        new_chan_id: String,
        make: &F,
    )
        requires
            makes_any(*make),
        ensures
            ({
                let d0 = devs_view(old(self).device_list@);
                match index_of_id(d0, new_chan_id@, 0) {
                    Some(ni) => if d0[ni].is_valid {
                        let d2 = moved(d0, old_chan_id@, ni);
                        &&& devs_view(final(self).device_list@) == d2
                        &&& same_rest(*final(self), *old(self))
                        &&& match kind_of(chan_type@) {
                            Some(kind) => {
                                &&& replaced(
                                    *make,
                                    kind,
                                    points_of(*old(self), kind),
                                    old_chan_id@,
                                    list_of(*old(self), kind),
                                    list_of(*final(self), kind),
                                    d2[ni],
                                )
                                &&& others_same(*final(self), *old(self), kind)
                            },
                            None => same_channels(*final(self), *old(self)),
                        }
                    } else {
                        &&& final(self).device_list == old(self).device_list
                        &&& same_channels(*final(self), *old(self))
                        &&& same_rest(*final(self), *old(self))
                    },
                    None => {
                        &&& final(self).device_list == old(self).device_list
                        &&& same_channels(*final(self), *old(self))
                        &&& same_rest(*final(self), *old(self))
                    },
                }
            }),
    {
        let ghost d0 = devs_view(self.device_list@);
        proof {
            lemma_index_of_id(d0, new_chan_id@, 0);
            lemma_index_of_id(d0, old_chan_id@, 0);
        }
        let found = first_index_of_id(&self.device_list, &new_chan_id);
        let ni = match found {
            Some(ni) => ni,
            None => {
                return ;
            },
        };
        if !self.device_list[ni].is_valid {
            return ;
        }
        match first_index_of_id(&self.device_list, &old_chan_id) {
            Some(oi) => {
                let mut d = self.device_list.remove(oi);
                d.in_use = false;
                self.device_list.insert(oi, d);
            },
            None => {},
        }
        let mut d = self.device_list.remove(ni);
        d.in_use = true;
        let new_device = d.duplicate();
        self.device_list.insert(ni, d);
        assert(devs_view(self.device_list@) =~= moved(d0, old_chan_id@, ni as int));
        match parse_kind(&chan_type) {
            Some(kind) => {
                match kind {
                    ChannelKind::Bias => {
                        replace_in(&mut self.bias_channels, kind, 0, &old_chan_id, new_device, make);
                    },
                    ChannelKind::Step => {
                        let points = self.step_points.value;
                        replace_in(&mut self.step_channels, kind, points, &old_chan_id, new_device, make);
                    },
                    ChannelKind::Sweep => {
                        let points = self.sweep_points.value;
                        replace_in(&mut self.sweep_channels, kind, points, &old_chan_id, new_device, make);
                    },
                }
            },
            None => {},
        }
    }

    /// Brings the channels' devices up to date (see
    /// [`SweepConfig::update_channel_devices`]) and the step and sweep points
    /// into `[1, 60000]`.
    pub fn evaluate(&mut self)
        ensures
            chans_view(final(self).bias_channels@) == Seq::new(
                old(self).bias_channels@.len(),
                |i: int| refreshed(old(self).bias_channels@[i]@, devs_view(old(self).device_list@)),
            ),
            chans_view(final(self).step_channels@) == Seq::new(
                old(self).step_channels@.len(),
                |i: int| refreshed(old(self).step_channels@[i]@, devs_view(old(self).device_list@)),
            ),
            chans_view(final(self).sweep_channels@) == Seq::new(
                old(self).sweep_channels@.len(),
                |i: int| refreshed(old(self).sweep_channels@[i]@, devs_view(old(self).device_list@)),
            ),
            same_settings(final(self).bias_channels@, old(self).bias_channels@),
            same_settings(final(self).step_channels@, old(self).step_channels@),
            same_settings(final(self).sweep_channels@, old(self).sweep_channels@),
            final(self).device_list == old(self).device_list,
            final(self).step_points.value == limited(old(self).step_points.value as int, 1, 60000),
            final(self).sweep_points.value == limited(old(self).sweep_points.value as int, 1, 60000),
            final(self).step_points.id == old(self).step_points.id,
            final(self).sweep_points.id == old(self).sweep_points.id,
            final(self).status_msg == old(self).status_msg,
    {
        self.update_channel_devices();
        self.step_points.limit(1, 60000);
        self.sweep_points.limit(1, 60000);
    }
    /// Appends the devices of the active systems of `root` (see
    /// [`systems_devices`]); whether any device was found.
    pub fn create_device_list(&mut self, root: &Root) -> (found: bool)
        ensures
            devs_view(final(self).device_list@) == devs_view(old(self).device_list@) + systems_devices(
                root.systems@,
            ),
            found == (systems_devices(root.systems@).len() > 0),
            same_channels(*final(self), *old(self)),
            same_rest(*final(self), *old(self)),
    {
        push_root_devices(&mut self.device_list, root)
    }
    /// Moves the device at `device_idx` to node `new_node_id`, with every
    /// channel that uses it (see [`move_device`]).
    fn update_device_and_related_channels_node(&mut self, device_idx: usize, new_node_id: &String)
        requires
            device_idx < old(self).device_list@.len(),
        ensures
            book_of(*final(self)) == move_device(book_of(*old(self)), device_idx as int, new_node_id@),
            final(self).device_list@.len() == old(self).device_list@.len(),
            same_settings(final(self).bias_channels@, old(self).bias_channels@),
            same_settings(final(self).step_channels@, old(self).step_channels@),
            same_settings(final(self).sweep_channels@, old(self).sweep_channels@),
            same_rest(*final(self), *old(self)),
    {
        if self.device_list[device_idx].node_id == *new_node_id {
            return ;
        }
        let ghost b0 = book_of(*self);
        let mut d = self.device_list.remove(device_idx);
        let old_id = d._id.clone();
        d.update_node_info(new_node_id.clone());
        let nd = d.duplicate();
        self.device_list.insert(device_idx, d);
        rename_in(&mut self.bias_channels, &old_id, &nd);
        rename_in(&mut self.step_channels, &old_id, &nd);
        rename_in(&mut self.sweep_channels, &old_id, &nd);
        assert(devs_view(self.device_list@) =~= b0.devs.update(device_idx as int, renamed(b0.devs[device_idx as int], new_node_id@)));
    }
    /// Marks the device at `k` present or absent.
    fn set_validity(&mut self, k: usize, is_valid: bool)
        requires
            k < old(self).device_list@.len(),
        ensures
            devs_view(final(self).device_list@) == devs_view(old(self).device_list@).update(
                k as int,
                with_validity(old(self).device_list@[k as int]@, is_valid),
            ),
            final(self).device_list@.len() == old(self).device_list@.len(),
            same_channels(*final(self), *old(self)),
            same_rest(*final(self), *old(self)),
    {
        let mut d = self.device_list.remove(k);
        d.is_valid = is_valid;
        self.device_list.insert(k, d);
        assert(devs_view(self.device_list@) =~= devs_view(old(self).device_list@).update(
            k as int,
            with_validity(old(self).device_list@[k as int]@, is_valid),
        ));
    }

    /// Checks the first `n` devices against the module now in `slot` on node
    /// `node` (see [`check_devices`]).
    fn check_slot_devices(&mut self, slot: &Slot, node: &String, n: usize)
        requires
            n <= old(self).device_list@.len(),
        ensures
            book_of(*final(self)) == check_devices(book_of(*old(self)), *slot, node@, 0, n as int),
            final(self).device_list@.len() == old(self).device_list@.len(),
            same_settings(final(self).bias_channels@, old(self).bias_channels@),
            same_settings(final(self).step_channels@, old(self).step_channels@),
            same_settings(final(self).sweep_channels@, old(self).sweep_channels@),
            same_rest(*final(self), *old(self)),
    {
        let ghost target = check_devices(book_of(*self), *slot, node@, 0, n as int);
        let mut k: usize = 0;
        while k < n
            invariant
                k <= n,
                n <= self.device_list@.len(),
                self.device_list@.len() == old(self).device_list@.len(),
                check_devices(book_of(*self), *slot, node@, k as int, n as int) == target,
                same_settings(self.bias_channels@, old(self).bias_channels@),
                same_settings(self.step_channels@, old(self).step_channels@),
                same_settings(self.sweep_channels@, old(self).sweep_channels@),
                same_rest(*self, *old(self)),
            decreases n - k,
        {
            let ghost b = book_of(*self);
            if self.device_list[k].slot_id == slot.slot_id {
                if slot.module == owned(EMPTY_SLOT) {
                    self.set_validity(k, false);
                    assert(book_of(*self) == check_device(b, k as int, *slot, node@));
                } else {
                    let valid = self.device_list[k].model == slot.module;
                    self.set_validity(k, valid);
                    if valid {
                        self.update_device_and_related_channels_node(k, node);
                    }
                    assert(book_of(*self) == check_device(b, k as int, *slot, node@));
                }
            } else {
                assert(book_of(*self) == check_device(b, k as int, *slot, node@));
            }
            k = k + 1;
        }
    }
    /// Appends a device.
    fn push_device(&mut self, d: Device)
        ensures
            book_of(*final(self)) == (BookV { devs: book_of(*old(self)).devs.push(d@), ..book_of(*old(self)) }),
            same_channels(*final(self), *old(self)),
            same_rest(*final(self), *old(self)),
    {
        self.device_list.push(d);
        assert(devs_view(self.device_list@) =~= devs_view(old(self).device_list@).push(d@));
    }

    /// Looks at the slots of node `node_id`, a `mainframe`, in turn (see
    /// [`slots_step`]).
    fn process_slots(&mut self, node_id: &String, mainframe: &String, slots: &Vec<Slot>)
        ensures
            book_of(*final(self)) == slots_step(book_of(*old(self)), slots@, node_id@, 0),
            same_settings(final(self).bias_channels@, old(self).bias_channels@),
            same_settings(final(self).step_channels@, old(self).step_channels@),
            same_settings(final(self).sweep_channels@, old(self).sweep_channels@),
            same_rest(*final(self), *old(self)),
    {
        let ghost target = slots_step(book_of(*self), slots@, node_id@, 0);
        let mut i: usize = 0;
        while i < slots.len()
            invariant
                i <= slots@.len(),
                slots_step(book_of(*self), slots@, node_id@, i as int) == target,
                same_settings(self.bias_channels@, old(self).bias_channels@),
                same_settings(self.step_channels@, old(self).step_channels@),
                same_settings(self.sweep_channels@, old(self).sweep_channels@),
                same_rest(*self, *old(self)),
            decreases slots.len() - i,
        {
            let ghost b = book_of(*self);
            let slot = &slots[i];
            let n = self.device_list.len();
            self.check_slot_devices(slot, node_id, n);
            let ghost b1 = book_of(*self);
            if slot.module != owned(EMPTY_SLOT) {
                let has1 = find_valid_chan(&self.device_list, n, &slot.slot_id, 1);
                let has2 = find_valid_chan(&self.device_list, n, &slot.slot_id, 2);
                let ms = MainframeSlot { name: slot.slot_id.clone(), model: slot.module.clone() };
                if !has1 {
                    let d = Device::new(node_id.clone(), mainframe.clone(), &ms, 1);
                    assert(d@ == slot_device(node_id@, *slot, 1));
                    self.push_device(d);
                }
                if !has2 {
                    let d = Device::new(node_id.clone(), mainframe.clone(), &ms, 2);
                    assert(d@ == slot_device(node_id@, *slot, 2));
                    self.push_device(d);
                }
            }
            assert(book_of(*self) == slot_step(b, *slot, node_id@));
            i = i + 1;
        }
    }
    /// Looks at the slots a node reports when one of them holds a module
    /// (see [`node_step`]); whether it did.
    fn process_node(&mut self, node: &String, mainframe: &String, slots: &Option<Vec<Slot>>) -> (r: bool)
        ensures
            (book_of(*final(self)), r) == node_step(book_of(*old(self)), *slots, node@),
            same_settings(final(self).bias_channels@, old(self).bias_channels@),
            same_settings(final(self).step_channels@, old(self).step_channels@),
            same_settings(final(self).sweep_channels@, old(self).sweep_channels@),
            same_rest(*final(self), *old(self)),
    {
        match slots {
            Some(v) => {
                if has_module(v) {
                    self.process_slots(node, mainframe, v);
                    true
                } else {
                    false
                }
            },
            None => false,
        }
    }

    /// Looks at a system (see [`system_step`]); whether any slots were looked at.
    fn process_system(&mut self, system: &SystemInfo) -> (r: bool)
        ensures
            (book_of(*final(self)), r) == system_step(book_of(*old(self)), *system),
            same_settings(final(self).bias_channels@, old(self).bias_channels@),
            same_settings(final(self).step_channels@, old(self).step_channels@),
            same_settings(final(self).sweep_channels@, old(self).sweep_channels@),
            same_rest(*final(self), *old(self)),
    {
        if !system.is_active {
            return false;
        }
        let ghost b0 = book_of(*self);
        if system.local_node == owned(MAINFRAME_MODEL) {
            let local = owned("localnode");
            if self.process_node(&local, &system.local_node, &system.slots) {
                return true;
            }
        }
        assert(book_of(*self) == b0);
        match &system.nodes {
            Some(nodes) => {
                let mut j: usize = 0;
                while j < nodes.len()
                    invariant
                        j <= nodes@.len(),
                        b0 == book_of(*old(self)),
                        book_of(*self) == b0,
                        system_step(b0, *system) == nodes_step(b0, nodes@, j as int),
                        same_settings(self.bias_channels@, old(self).bias_channels@),
                        same_settings(self.step_channels@, old(self).step_channels@),
                        same_settings(self.sweep_channels@, old(self).sweep_channels@),
                        same_rest(*self, *old(self)),
                    decreases nodes.len() - j,
                {
                    let node = &nodes[j];
                    if node.mainframe == owned(MAINFRAME_MODEL) {
                        if self.process_node(&node.node_id, &node.mainframe, &node.slots) {
                            return true;
                        }
                    }
                    j = j + 1;
                }
                false
            },
            None => false,
        }
    }

    /// Compares the devices with the system configuration `root` (none when
    /// it could not be read): see [`changed_slots`].  The status message is
    /// an error when a device in use is no longer present, and none otherwise.
    pub fn update_devices_for_changed_slots(&mut self, root: Option<&Root>)
        ensures
            book_of(*final(self)) == changed_slots(book_of(*old(self)), opt_systems(root)),
            same_settings(final(self).bias_channels@, old(self).bias_channels@),
            same_settings(final(self).step_channels@, old(self).step_channels@),
            same_settings(final(self).sweep_channels@, old(self).sweep_channels@),
            final(self).step_points == old(self).step_points,
            final(self).sweep_points == old(self).sweep_points,
            match final(self).status_msg {
                Some(m) => {
                    &&& some_used_invalid(book_of(*final(self)).devs)
                    &&& m.status_type == StatusType::Error
                    &&& m.message@ == INVALID_CHANNELS@
                },
                None => !some_used_invalid(book_of(*final(self)).devs),
            },
    {
        self.status_msg = None;
        let ghost b0 = book_of(*self);
        let mut found_any = false;
        match root {
            Some(r) => {
                let ghost target = systems_step(b0, r.systems@, 0);
                let mut i: usize = 0;
                while i < r.systems.len()
                    invariant
                        i <= r.systems@.len(),
                        systems_step(book_of(*self), r.systems@, i as int).0 == target.0,
                        (found_any || systems_step(book_of(*self), r.systems@, i as int).1) == target.1,
                        same_settings(self.bias_channels@, old(self).bias_channels@),
                        same_settings(self.step_channels@, old(self).step_channels@),
                        same_settings(self.sweep_channels@, old(self).sweep_channels@),
                        self.step_points == old(self).step_points,
                        self.sweep_points == old(self).sweep_points,
                        self.status_msg is None,
                    decreases r.systems.len() - i,
                {
                    let p = self.process_system(&r.systems[i]);
                    found_any = found_any || p;
                    i = i + 1;
                }
            },
            None => {},
        }
        let ghost b1 = book_of(*self);
        if !found_any {
            let n = self.device_list.len();
            let mut k: usize = 0;
            while k < n
                invariant
                    k <= n,
                    n == self.device_list@.len(),
                    n == b1.devs.len(),
                    forall|j: int| 0 <= j < k ==> #[trigger] devs_view(self.device_list@)[j] == with_validity(b1.devs[j], false),
                    forall|j: int| k <= j < n ==> #[trigger] devs_view(self.device_list@)[j] == b1.devs[j],
                    book_of(*self).bias == b1.bias,
                    book_of(*self).step == b1.step,
                    book_of(*self).sweep == b1.sweep,
                    same_settings(self.bias_channels@, old(self).bias_channels@),
                    same_settings(self.step_channels@, old(self).step_channels@),
                    same_settings(self.sweep_channels@, old(self).sweep_channels@),
                    self.step_points == old(self).step_points,
                    self.sweep_points == old(self).sweep_points,
                    self.status_msg is None,
                decreases n - k,
            {
                let ghost before = devs_view(self.device_list@);
                assert(before[k as int] == b1.devs[k as int]);
                self.set_validity(k, false);
                assert(devs_view(self.device_list@) == before.update(k as int, with_validity(b1.devs[k as int], false)));
                k = k + 1;
            }
            assert(devs_view(self.device_list@) =~= all_invalid(b1.devs));
        }
        self.remove_unused_invalid_channels();
        let ghost devs = devs_view(self.device_list@);
        let mut k: usize = 0;
        let mut bad = false;
        while k < self.device_list.len()
            invariant
                k <= self.device_list@.len(),
                devs == devs_view(self.device_list@),
                bad == exists|j: int| 0 <= j < k && #[trigger] devs[j].in_use && !devs[j].is_valid,
            decreases self.device_list.len() - k,
        {
            if self.device_list[k].in_use && !self.device_list[k].is_valid {
                assert(devs[k as int].in_use && !devs[k as int].is_valid);
                bad = true;
            }
            k = k + 1;
        }
        assert(bad == some_used_invalid(devs));
        if bad {
            self.status_msg = Some(StatusMsg::new(StatusType::Error, owned(INVALID_CHANNELS)));
        }
    }
}

/// The ids of the devices are all different.
pub open spec fn distinct_ids(devs: Seq<DeviceV>) -> bool {
    forall|i: int, j: int| 0 <= i < devs.len() && 0 <= j < devs.len() && i != j ==> #[trigger] devs[i].id != #[trigger] devs[j].id
}

/// Freeing the device that adding a channel took into use gives the devices
/// back as they were, when the ids are all different: removing the channel
/// just added undoes the addition on the device list.
pub proof fn lemma_remove_undoes_add(devs: Seq<DeviceV>)
    requires
        distinct_ids(devs),
    ensures
        index_of_free(devs, 0) matches Some(k) ==> freed(taken(devs), devs[k].id) == devs,
{
    lemma_index_of_free(devs, 0);
    if let Some(k) = index_of_free(devs, 0) {
        let t = taken(devs);
        assert(freed(t, devs[k].id) =~= devs) by {
            assert forall|i: int| 0 <= i < devs.len() implies #[trigger] freed(t, devs[k].id)[i] == devs[i] by {
                if i == k {
                } else {
                    assert(devs[i].id != devs[k].id);
                }
            }
        }
    }
}

/// The devices kept are exactly those present or in use, in their order:
/// each kept device is present or in use, each such device is kept, and
/// keeping again changes nothing.
pub proof fn lemma_retained(devs: Seq<DeviceV>)
    ensures
        forall|i: int| 0 <= i < retained(devs).len() ==> (#[trigger] retained(devs)[i]).is_valid || retained(devs)[i].in_use,
        forall|i: int| 0 <= i < retained(devs).len() ==> devs.contains(#[trigger] retained(devs)[i]),
        forall|i: int| 0 <= i < devs.len() && (devs[i].is_valid || devs[i].in_use) ==> retained(devs).contains(#[trigger] devs[i]),
        retained(retained(devs)) == retained(devs),
    decreases devs.len(),
{
    if devs.len() > 0 {
        let rest = devs.drop_last();
        lemma_retained(rest);
        let r = retained(devs);
        let rr = retained(rest);
        assert forall|i: int| 0 <= i < r.len() implies devs.contains(#[trigger] r[i]) by {
            if i < rr.len() {
                assert(rest.contains(rr[i]));
                let j = choose|j: int| 0 <= j < rest.len() && rest[j] == rr[i];
                assert(devs[j] == rr[i]);
            } else {
                assert(devs[devs.len() - 1] == r[i]);
            }
        }
        assert forall|i: int| 0 <= i < devs.len() && (devs[i].is_valid || devs[i].in_use) implies r.contains(
            #[trigger] devs[i],
        ) by {
            if i < rest.len() {
                assert(rest[i] == devs[i]);
                assert(rr.contains(rest[i]));
                let j = choose|j: int| 0 <= j < rr.len() && rr[j] == rest[i];
                assert(r[j] == rr[j]);
            } else {
                assert(r[r.len() - 1] == devs[i]);
            }
        }
        if devs.last().is_valid || devs.last().in_use {
            assert(r.drop_last() =~= rr);
        } else {
            assert(r =~= rr);
        }
    }
}

/// Every device found in the slots of a node is on that node, present, not
/// in use, and on channel 1 or 2 of its slot.
pub proof fn lemma_slots_devices_fresh(node: Seq<char>, slots: Seq<Slot>)
    ensures
        forall|i: int| 0 <= i < slots_devices(node, slots).len() ==> {
            let d = #[trigger] slots_devices(node, slots)[i];
            &&& d.node_id == node
            &&& d.is_valid
            &&& !d.in_use
            &&& (d.chan_num == 1 || d.chan_num == 2)
        },
    decreases slots.len(),
{
    if slots.len() > 0 {
        lemma_slots_devices_fresh(node, slots.drop_last());
    }
}

/// After the devices are compared with a system configuration, every device
/// left is present or used by a channel.
pub proof fn lemma_changed_slots_keeps_present_or_used(b: BookV, root: Option<Seq<SystemInfo>>)
    ensures
        forall|i: int| 0 <= i < changed_slots(b, root).devs.len() ==> (#[trigger] changed_slots(b, root).devs[i]).is_valid
            || changed_slots(b, root).devs[i].in_use,
{
    let r = match root {
        Some(systems) => systems_step(b, systems, 0),
        None => (b, false),
    };
    let b2 = if r.1 {
        r.0
    } else {
        BookV { devs: all_invalid(r.0.devs), ..r.0 }
    };
    lemma_retained(b2.devs);
}

/// Moving a channel from device `old_id` to another device `ni` (with ids
/// all different) takes `ni` into use, frees the old device, and leaves
/// every other device as it was.
pub proof fn lemma_moved_uses(devs: Seq<DeviceV>, old_id: Seq<char>, ni: int)
    requires
        distinct_ids(devs),
        0 <= ni < devs.len(),
        devs[ni].id != old_id,
    ensures
        moved(devs, old_id, ni).len() == devs.len(),
        moved(devs, old_id, ni)[ni] == with_use(devs[ni], true),
        forall|j: int| 0 <= j < devs.len() && devs[j].id == old_id ==> #[trigger] moved(devs, old_id, ni)[j] == with_use(
            devs[j],
            false,
        ),
        forall|j: int| 0 <= j < devs.len() && j != ni && devs[j].id != old_id ==> #[trigger] moved(devs, old_id, ni)[j]
            == devs[j],
{
    lemma_index_of_id(devs, old_id, 0);
}

/// A client's request to change the channels, read from the comma-separated
/// words `remove,TYPE,ID`, `add,TYPE` or `update,TYPE,OLD_ID,NEW_ID`.
#[derive(Debug)]
pub enum ChannelRequest {
    /// Free the device with this id.
    Remove { chan_id: String },
    /// Add a channel of this type.
    Add { chan_type: String },
    /// Move the channel of this type from the old device to the new one.
    Update { chan_type: String, old_chan_id: String, new_chan_id: String },
    /// Any other first word: no change.
    Other,
}

/// The request that the words `parts` make, or `None` when a known request
/// lacks words.
pub open spec fn request_matches(parts: Seq<Seq<char>>, r: Option<ChannelRequest>) -> bool {
    let op = parts[0];
    if op == "remove"@ {
        if parts.len() >= 3 {
            r matches Some(ChannelRequest::Remove { chan_id }) && chan_id@ == parts[2]
        } else {
            r is None
        }
    } else if op == "add"@ {
        if parts.len() >= 2 {
            r matches Some(ChannelRequest::Add { chan_type }) && chan_type@ == parts[1]
        } else {
            r is None
        }
    } else if op == "update"@ {
        if parts.len() >= 4 {
            &&& r matches Some(ChannelRequest::Update { chan_type, old_chan_id, new_chan_id })
            &&& chan_type@ == parts[1]
            &&& old_chan_id@ == parts[2]
            &&& new_chan_id@ == parts[3]
        } else {
            r is None
        }
    } else {
        r matches Some(ChannelRequest::Other)
    }
}

/// Reads a request from the comma-separated words of `info` (see
/// [`request_matches`]).
pub fn parse_channel_request(info: &str) -> (r: Option<ChannelRequest>)
    ensures
        request_matches(split_char(info@, ','), r),
{
    let parts = split_char_vec(&chars_of(info), ',');
    let ghost ps = split_char(info@, ',');
    assert(ps.len() >= 1);
    let op = string_of(parts[0].as_slice());
    let n = parts.len();
    if op == owned("remove") {
        if n >= 3 {
            Some(ChannelRequest::Remove { chan_id: string_of(parts[2].as_slice()) })
        } else {
            None
        }
    } else if op == owned("add") {
        if n >= 2 {
            Some(ChannelRequest::Add { chan_type: string_of(parts[1].as_slice()) })
        } else {
            None
        }
    } else if op == owned("update") {
        if n >= 4 {
            Some(
                ChannelRequest::Update {
                    chan_type: string_of(parts[1].as_slice()),
                    old_chan_id: string_of(parts[2].as_slice()),
                    new_chan_id: string_of(parts[3].as_slice()),
                },
            )
        } else {
            None
        }
    } else {
        Some(ChannelRequest::Other)
    }
}

/// Adding a channel takes exactly one device into use, the first one that
/// is present and free, and leaves every other device as it was; when there
/// is none, no device is present and free and nothing changes.
pub proof fn lemma_taken_marks_one(devs: Seq<DeviceV>)
    ensures
        taken(devs).len() == devs.len(),
        match index_of_free(devs, 0) {
            Some(k) => {
                &&& 0 <= k < devs.len()
                &&& devs[k].is_valid && !devs[k].in_use
                &&& taken(devs)[k] == with_use(devs[k], true)
                &&& forall|i: int| 0 <= i < devs.len() && i != k ==> #[trigger] taken(devs)[i] == devs[i]
                &&& forall|i: int| 0 <= i < k ==> !(#[trigger] devs[i].is_valid && !devs[i].in_use)
            },
            None => {
                &&& taken(devs) == devs
                &&& forall|i: int| 0 <= i < devs.len() ==> !(#[trigger] devs[i].is_valid && !devs[i].in_use)
            },
        },
{
    lemma_index_of_free(devs, 0);
    lemma_index_of_free_prefix(devs, 0);
}

/// Before the first present and free device from `i` on, none is.
proof fn lemma_index_of_free_prefix(devs: Seq<DeviceV>, i: int)
    requires
        0 <= i,
    ensures
        index_of_free(devs, i) matches Some(k) ==> forall|j: int| i <= j < k ==> !(#[trigger] devs[j].is_valid && !devs[j].in_use),
    decreases devs.len() - i,
{
    if i < devs.len() {
        lemma_index_of_free_prefix(devs, i + 1);
    }
}

} // verus!
