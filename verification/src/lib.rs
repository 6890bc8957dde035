use vstd::prelude::*;

pub mod cli;
pub mod config;
pub mod defaults;
pub mod dhcp;
pub mod dns;
pub mod hostapd;
pub mod net;
pub mod number;
pub mod phy;
pub mod process;
pub mod record;
pub mod report;
pub mod session;
pub mod supervisor;
pub mod text;
pub mod unicode;
pub mod wire;

verus! {

} // verus!
