use vstd::prelude::*;

use crate::helpers::steam_command::SteamCommand;
use crate::tools::fs::grep::string_views;
use crate::tools::other::ieee1905_bench::{bench_argument_list, bench_arguments, build_argument_list, build_arguments};

verus! {

/// The project the standalone variant builds.
pub const PROJECT_DIR: &'static str = "/Users/matrixdev/Projects/gl/Comcast/ieee1905-rs/";

/// Benchmark arguments (none) of the standalone variant, which runs the build
/// in a fixed project and reports the benchmark's two streams.
#[derive(Debug)]
pub struct Ieee1905BenchTool {}

impl Ieee1905BenchTool {
    /// The release build, in the fixed project directory.
    pub fn build_command(&self) -> (r: SteamCommand)
        ensures
            r.program@ == "cargo"@,
            string_views(r.arguments@) == build_arguments(),
            r.current_dir matches Some(d) && d@ == PROJECT_DIR@,
    {
        let r = SteamCommand::new("cargo").args(build_argument_list()).current_dir(PROJECT_DIR);
        assert(Seq::<Seq<char>>::empty() + build_arguments() =~= build_arguments());
        r
    }

    /// The benchmark script in the VM, in the server's directory.
    pub fn bench_command(&self) -> (r: SteamCommand)
        ensures
            r.program@ == "limactl"@,
            string_views(r.arguments@) == bench_arguments(),
            r.current_dir is None,
    {
        let r = SteamCommand::new("limactl").args(bench_argument_list());
        assert(Seq::<Seq<char>>::empty() + bench_arguments() =~= bench_arguments());
        r
    }
}

} // verus!
