use vstd::prelude::*;

use crate::helpers::steam_command::SteamCommand;
use crate::tools::fs::grep::string_views;

verus! {

/// The benchmark script run inside the VM.
pub const SCRIPT: &'static str = "/home/matrixdev.guest/projects/ieee1905_bench.sh";

/// Benchmark arguments (none).
#[derive(Debug)]
pub struct Ieee1905BenchTool {}

/// The arguments of the release build of the `ieee1905` package for the board.
pub open spec fn build_arguments() -> Seq<Seq<char>> {
    seq![
        "build"@,
        "--package"@,
        "ieee1905"@,
        "--target"@,
        "aarch64-unknown-linux-musl"@,
        "--release"@,
    ]
}

/// The arguments that run the benchmark script in the VM for ten seconds.
pub open spec fn bench_arguments() -> Seq<Seq<char>> {
    seq!["shell"@, "default"@, "sudo"@, "timeout"@, "10s"@, SCRIPT@]
}

/// The build arguments, as `build_arguments` states.
pub fn build_argument_list() -> (r: Vec<String>)
    ensures
        string_views(r@) == build_arguments(),
{
    let r = vec![
        String::from_str("build"),
        String::from_str("--package"),
        String::from_str("ieee1905"),
        String::from_str("--target"),
        String::from_str("aarch64-unknown-linux-musl"),
        String::from_str("--release"),
    ];
    assert(string_views(r@) =~= build_arguments());
    r
}

/// The benchmark arguments, as `bench_arguments` states.
pub fn bench_argument_list() -> (r: Vec<String>)
    ensures
        string_views(r@) == bench_arguments(),
{
    let r = vec![
        String::from_str("shell"),
        String::from_str("default"),
        String::from_str("sudo"),
        String::from_str("timeout"),
        String::from_str("10s"),
        String::from_str(SCRIPT),
    ];
    assert(string_views(r@) =~= bench_arguments());
    r
}

impl Ieee1905BenchTool {
    /// The first command: the release build, in the workspace. The benchmark
    /// runs only when it succeeds (`SteamCommandResult::into_status_error`).
    pub fn build_command(&self, workspace: &str) -> (r: SteamCommand)
        ensures
            r.program@ == "cargo"@,
            string_views(r.arguments@) == build_arguments(),
            r.current_dir matches Some(d) && d@ == workspace@,
    {
        let c = SteamCommand::new("cargo");
        let a = build_argument_list();
        let r = c.args(a).current_dir(workspace);
        assert(Seq::<Seq<char>>::empty() + build_arguments() =~= build_arguments());
        r
    }

    /// The second command: the benchmark script in the VM, in the workspace.
    pub fn bench_command(&self, workspace: &str) -> (r: SteamCommand)
        ensures
            r.program@ == "limactl"@,
            string_views(r.arguments@) == bench_arguments(),
            r.current_dir matches Some(d) && d@ == workspace@,
    {
        let c = SteamCommand::new("limactl");
        let a = bench_argument_list();
        let r = c.args(a).current_dir(workspace);
        assert(Seq::<Seq<char>>::empty() + bench_arguments() =~= bench_arguments());
        r
    }
}

} // verus!
