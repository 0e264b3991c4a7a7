//! A simulated instrument connection that answers queries from a fixed table.
use vstd::prelude::*;

use crate::text::owned;
use crate::xml_handler::value_map::ValueMap;

verus! {

/// The answers of the simulated instrument.
pub open spec fn simulated_responses() -> Map<Seq<char>, Seq<char>> {
    map![
        "SEARCH"@ => "localnode.smua,localnode.smub,node[37].smua,node[37].smub,node[41].smua,node[41].smub,node[45].smua,node[45].smub"@,
        "IDENTIFY_node[37]"@ => "2602A,2.1.1,6700037A,Simulated Device,60.0"@,
        "IDENTIFY_node[41]"@ => "2612A,2.1.1,6700041A,Simulated Device,60.0"@,
        "IDENTIFY_node[45]"@ => "2636A,2.1.1,6700045A,Simulated Device,60.0"@,
        "IDENTIFY"@ => "2602A,2.1.1,6700001A,Simulated Device,60.0"@
    ]
}

/// A simulated instrument connection.
pub struct SimulatedDeviceIO {
    query_response_map: ValueMap,
}

impl SimulatedDeviceIO {
    pub closed spec fn responses(&self) -> Map<Seq<char>, Seq<char>> {
        self.query_response_map@
    }

    /// The simulated instrument: two source-measure channels on the local
    /// node and on each of the nodes 37, 41 and 45.
    pub fn new() -> (r: Self)
        ensures
            r.responses() == simulated_responses(),
    {
        let mut query_response_map = ValueMap::new();
        query_response_map.insert(owned("SEARCH"), owned("localnode.smua,localnode.smub,node[37].smua,node[37].smub,node[41].smua,node[41].smub,node[45].smua,node[45].smub"));
        query_response_map.insert(owned("IDENTIFY_node[37]"), owned("2602A,2.1.1,6700037A,Simulated Device,60.0"));
        query_response_map.insert(owned("IDENTIFY_node[41]"), owned("2612A,2.1.1,6700041A,Simulated Device,60.0"));
        query_response_map.insert(owned("IDENTIFY_node[45]"), owned("2636A,2.1.1,6700045A,Simulated Device,60.0"));
        query_response_map.insert(owned("IDENTIFY"), owned("2602A,2.1.1,6700001A,Simulated Device,60.0"));
        let r = SimulatedDeviceIO { query_response_map };
        assert(r.responses() =~= simulated_responses());
        r
    }

    /// The answer to `key`, empty for an unknown query.
    pub fn get_query_response(&self, key: String) -> (r: String)
        ensures
            self.responses().contains_key(key@) ==> r@ == self.responses()[key@],
            !self.responses().contains_key(key@) ==> r@ == Seq::<char>::empty(),
    {
        match self.query_response_map.get(&key) {
            Some(value) => value,
            None => String::new(),
        }
    }
}

} // verus!
