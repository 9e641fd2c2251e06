use vstd::prelude::*;

pub mod bpi_r4_scp;
pub mod bpi_r4_ssh;
pub mod docker_ssh;
pub mod ieee1905_bench;
pub mod ssh_bpi_r4;

verus! {

/// The ssh destination of the BPI-R4 board.
pub const BPI_R4_DESTINATION: &'static str = "root@10.0.0.1";

} // verus!
