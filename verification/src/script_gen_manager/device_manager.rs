//! The devices found in a system configuration.
use vstd::prelude::*;

use crate::script_gen_manager::device::Device;
use crate::script_gen_manager::sweep_config::{devs_view, push_root_devices, systems_devices};
use crate::script_gen_manager::system::Root;

verus! {

/// Finds, keeps and hands out the devices of a system.
#[derive(Debug)]
pub struct DeviceManager {
    pub device_list: Vec<Device>,
}

impl DeviceManager {
    /// No devices.
    pub fn new() -> (r: Self)
        ensures
            r.device_list@.len() == 0,
    {
        DeviceManager { device_list: Vec::new() }
    }

    /// Appends the devices of the active systems of `root` (see
    /// [`systems_devices`]); whether any device was found.
    pub fn create_device_list(&mut self, root: &Root) -> (found: bool)
        ensures
            devs_view(final(self).device_list@) == devs_view(old(self).device_list@) + systems_devices(
                root.systems@,
            ),
            found == (systems_devices(root.systems@).len() > 0),
    {
        push_root_devices(&mut self.device_list, root)
    }

    /// The device at `index`.
    pub fn get_device(&self, index: usize) -> (r: &Device)
        requires
            index < self.device_list@.len(),
        ensures
            *r == self.device_list@[index as int],
    {
        &self.device_list[index]
    }

    /// The ids of the devices, in order.
    pub fn get_device_ids(&self) -> (r: Vec<String>)
        ensures
            r@.len() == self.device_list@.len(),
            forall|i: int| 0 <= i < r@.len() ==> (#[trigger] r@[i])@ == self.device_list@[i]._id@,
    {
        let mut ids: Vec<String> = Vec::new();
        let mut i: usize = 0;
        while i < self.device_list.len()
            invariant
                i <= self.device_list@.len(),
                ids@.len() == i,
                forall|k: int| 0 <= k < i ==> (#[trigger] ids@[k])@ == self.device_list@[k]._id@,
            decreases self.device_list.len() - i,
        {
            ids.push(self.device_list[i].get_id());
            i = i + 1;
        }
        ids
    }
}

} // verus!
