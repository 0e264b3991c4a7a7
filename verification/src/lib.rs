//! Script generation for sweep tests on source-measure instruments.
pub mod script_aggregator;
pub mod script_gen_manager;
pub mod server;
pub mod text;
pub mod xml_handler;

use vstd::prelude::*;

verus! {

} // verus!
