//! The system configuration reported by the instrument: systems, their
//! mainframes, slots and nodes; and the status messages sent back.
use vstd::prelude::*;

verus! {

/// All systems of a configuration.
#[derive(Debug)]
pub struct Root {
    pub systems: Vec<SystemInfo>,
}

/// One system: its name, whether it is the active one, its local node, and
/// the slots and nodes it has.
#[derive(Debug)]
pub struct SystemInfo {
    pub name: String,
    pub is_active: bool,
    pub local_node: String,
    pub slots: Option<Vec<Slot>>,
    pub nodes: Option<Vec<Node>>,
}

/// A slot of a system, and the module in it.
#[derive(Debug)]
pub struct Slot {
    pub slot_id: String,
    pub module: String,
}

/// A node of a system: its id, its mainframe and its slots.
#[derive(Debug)]
pub struct Node {
    pub node_id: String,
    pub mainframe: String,
    pub slots: Option<Vec<Slot>>,
}

/// A mainframe: its name, model and slots.
#[derive(Debug)]
pub struct Mainframe {
    pub name: String,
    pub model: String,
    pub slot: Vec<MainframeSlot>,
}

/// A slot of a mainframe: its name and the model of the module in it.
#[derive(Debug)]
pub struct MainframeSlot {
    pub name: String,
    pub model: String,
}

/// The kind of a status message.
#[derive(Debug, Clone, Copy, PartialEq, Eq, Structural)]
pub enum StatusType {
    Info,
    Warning,
    Error,
}

/// A status message with the local time it was made at.
#[derive(Debug)]
pub struct StatusMsg {
    pub status_type: StatusType,
    pub message: String,
    pub time_stamp: String,
}

/// A decimal digit.
pub open spec fn is_digit(c: char) -> bool {
    '0' <= c && c <= '9'
}

/// Text in the shape `%Y-%m-%d %H:%M:%S` gives: a year of at least four
/// digits (with a sign outside 0 to 9999), then `-MM-DD hh:mm:ss`, each field
/// two digits.
pub open spec fn is_time_stamp(s: Seq<char>) -> bool {
    let n = s.len() as int;
    &&& n >= 19
    &&& (is_digit(s[0]) || s[0] == '+' || s[0] == '-')
    &&& forall|i: int| 1 <= i < n - 15 ==> is_digit(#[trigger] s[i])
    &&& forall|k: int|
        0 <= k < 15 ==> if k == 0 || k == 3 {
            s[n - 15 + k] == '-'
        } else if k == 6 {
            s[n - 15 + k] == ' '
        } else if k == 9 || k == 12 {
            s[n - 15 + k] == ':'
        } else {
            is_digit(#[trigger] s[n - 15 + k])
        }
}

/// Calls `chrono::Local::now().format("%Y-%m-%d %H:%M:%S")`: the local time
/// as text.  Which time it is depends on the clock; what is claimed is the
/// shape of the text that format writes.
#[verifier::external_body]
fn local_time_stamp() -> (r: String)
    ensures
        is_time_stamp(r@),
{
    chrono::Local::now().format("%Y-%m-%d %H:%M:%S").to_string()
}

impl StatusMsg {
    /// A status message stamped with the current local time.
    pub fn new(status_type: StatusType, message: String) -> (r: Self)
        ensures
            is_time_stamp(r.time_stamp@),
            r.status_type == status_type,
            r.message == message,
    {
        Self::stamped(status_type, message, local_time_stamp())
    }

    /// A status message with the given time stamp.
    pub fn stamped(status_type: StatusType, message: String, time_stamp: String) -> (r: Self)
        ensures
            r.status_type == status_type,
            r.message == message,
            r.time_stamp == time_stamp,
    {
        StatusMsg { status_type, message, time_stamp }
    }
}

} // verus!
