use mcp_server::error::ErrorKind;
use mcp_server::helpers::steam_command::{
    spawn_failure, stream_failure, wait_failure, ExitInfo, OutputCollector, SteamCommand, SteamCommandResult,
    StreamKind,
};
use mcp_server::tools::exec::cargo::CargoRunTool;
use mcp_server::tools::exec::git::GitRunTool;
use mcp_server::tools::exec::git_diff::GitDiffTool;
use mcp_server::tools::exec::github::GithubCliTool;
use mcp_server::tools::exec::gradle::GradleRunTool;
use mcp_server::tools::other::bpi_r4_scp::BpiR4ScpTool;
use mcp_server::tools::other::bpi_r4_ssh::BpiR4SshTool;
use mcp_server::tools::other::docker_ssh::DockerSshTool;
use mcp_server::tools::other::ieee1905_bench::Ieee1905BenchTool;
use mcp_server::tools::other::ssh_bpi_r4::SshBpiR4Tool;

fn strings(v: &[&str]) -> Vec<String> {
    v.iter().map(|s| s.to_string()).collect()
}

fn shape(c: &SteamCommand) -> (String, Vec<String>, Option<String>) {
    (c.program.clone(), c.arguments.clone(), c.current_dir.clone())
}

#[test]
fn builder_appends_arguments_and_sets_directory() {
    let c = SteamCommand::new("ls");
    assert_eq!(shape(&c), ("ls".to_string(), vec![], None));
    let c = c.args(strings(&["-l"])).args(strings(&["-a", "x"])).current_dir("/tmp");
    assert_eq!(shape(&c), ("ls".to_string(), strings(&["-l", "-a", "x"]), Some("/tmp".to_string())));
}

#[test]
fn cargo_runs_arguments_in_project() {
    let t = CargoRunTool { project_dir: ".".to_string(), arguments: strings(&["test", "--lib"]) };
    assert_eq!(
        shape(&t.command("/ws/p")),
        ("cargo".to_string(), strings(&["test", "--lib"]), Some("/ws/p".to_string()))
    );
}

#[test]
fn git_puts_subcommand_first() {
    let t = GitRunTool { folder: ".".to_string(), arguments: strings(&["--oneline", "-5"]) };
    assert_eq!(
        shape(&t.command("/ws", "log")),
        ("git".to_string(), strings(&["log", "--oneline", "-5"]), Some("/ws".to_string()))
    );
}

#[test]
fn git_diff_arguments() {
    let t = GitDiffTool { folder: ".".to_string(), commit_depth: None, paths: None };
    assert_eq!(t.command("/ws").arguments, strings(&["diff", "HEAD~0"]));
    let t = GitDiffTool { folder: ".".to_string(), commit_depth: Some(12), paths: Some(vec![]) };
    assert_eq!(t.command("/ws").arguments, strings(&["diff", "HEAD~12"]));
    let t = GitDiffTool {
        folder: ".".to_string(),
        commit_depth: Some(3),
        paths: Some(strings(&["src", "Cargo.toml"])),
    };
    let c = t.command("/ws/r");
    assert_eq!(
        shape(&c),
        ("git".to_string(), strings(&["diff", "HEAD~3", "--", "src", "Cargo.toml"]), Some("/ws/r".to_string()))
    );
}

#[test]
fn github_cli_words_then_arguments() {
    let t = GithubCliTool { folder: ".".to_string(), arguments: strings(&["--limit", "5"]) };
    assert_eq!(
        shape(&t.command("/ws", &strings(&["pr", "list"]))),
        ("gh".to_string(), strings(&["pr", "list", "--limit", "5"]), Some("/ws".to_string()))
    );
}

#[test]
fn gradle_uses_project_wrapper() {
    let t = GradleRunTool { project_dir: "app".to_string(), arguments: strings(&["build"]) };
    assert_eq!(
        shape(&t.command("/ws/app")),
        ("/ws/app/gradlew".to_string(), strings(&["build"]), Some("/ws/app".to_string()))
    );
    assert_eq!(t.command("/ws/app/").program, "/ws/app/gradlew");
}

#[test]
fn board_commands() {
    let ssh = BpiR4SshTool { command: "uname -a".to_string() };
    assert_eq!(
        shape(&ssh.command("/ws")),
        ("ssh".to_string(), strings(&["root@10.0.0.1", "uname -a"]), Some("/ws".to_string()))
    );
    let ssh = SshBpiR4Tool { command: "ls".to_string() };
    assert_eq!(shape(&ssh.command("/ws")).1, strings(&["root@10.0.0.1", "ls"]));
    let scp = BpiR4ScpTool { local_path: "out/bin".to_string(), remote_path: "/tmp/bin".to_string() };
    assert_eq!(
        shape(&scp.command("/ws", "/ws/out/bin")),
        ("scp".to_string(), strings(&["-O", "/ws/out/bin", "root@10.0.0.1:/tmp/bin"]), Some("/ws".to_string()))
    );
    let docker = DockerSshTool { command: "make".to_string() };
    assert_eq!(
        shape(&docker.command("/ws")),
        ("ssh".to_string(), strings(&["builder@localhost", "-p", "13020", "make"]), Some("/ws".to_string()))
    );
}

#[test]
fn bench_builds_then_runs_script() {
    let t = Ieee1905BenchTool {};
    assert_eq!(
        shape(&t.build_command("/ws")),
        (
            "cargo".to_string(),
            strings(&["build", "--package", "ieee1905", "--target", "aarch64-unknown-linux-musl", "--release"]),
            Some("/ws".to_string())
        )
    );
    assert_eq!(
        shape(&t.bench_command("/ws")),
        (
            "limactl".to_string(),
            strings(&["shell", "default", "sudo", "timeout", "10s", "/home/matrixdev.guest/projects/ieee1905_bench.sh"]),
            Some("/ws".to_string())
        )
    );
}

#[test]
fn collector_keeps_streams_apart() {
    let mut c = OutputCollector::new();
    assert!(c.on_line(StreamKind::Stdout, "one".to_string(), false).is_none());
    assert!(c.on_line(StreamKind::Stderr, "warn".to_string(), false).is_none());
    assert!(c.on_line(StreamKind::Stdout, "two".to_string(), false).is_none());
    assert_eq!(c.stdout, "one\ntwo\n");
    assert_eq!(c.stderr, "warn\n");
    assert_eq!(c.progress, 0);
    assert_eq!(c.render(), "STDOUT:\none\ntwo\n\n\nSTDERR:\nwarn\n");
}

#[test]
fn collector_numbers_progress_notes() {
    let mut c = OutputCollector::new();
    let n = c.on_line(StreamKind::Stderr, "Compiling a".to_string(), true).unwrap();
    assert_eq!((n.progress, n.message.as_str()), (1, "Compiling a"));
    let n = c.on_line(StreamKind::Stdout, "ok".to_string(), true).unwrap();
    assert_eq!((n.progress, n.message.as_str()), (2, "ok"));
    assert_eq!(c.progress, 2);
}

fn finished(success: bool) -> SteamCommandResult {
    SteamCommandResult {
        program: "cargo".to_string(),
        stdout: "built\n".to_string(),
        stderr: "".to_string(),
        status: ExitInfo { success, text: if success { "exit status: 0" } else { "exit status: 101" }.to_string() },
    }
}

#[test]
fn result_report_and_status() {
    assert_eq!(finished(true).render(), "RESULT: exit status: 0\n\nSTDOUT:\nbuilt\n\n\nSTDERR:\n");
    let ok = finished(true).into_status_error().unwrap();
    assert_eq!(ok.stdout, "built\n");
    let e = finished(false).into_status_error().unwrap_err();
    assert_eq!(e.kind, ErrorKind::Internal);
    assert_eq!(e.message, "RESULT: exit status: 101\n\nSTDOUT:\nbuilt\n\n\nSTDERR:\n");
}

#[test]
fn process_failures_are_internal() {
    let e = spawn_failure("No such file or directory (os error 2)");
    assert_eq!(e.kind, ErrorKind::Internal);
    assert_eq!(e.message, "failed to execute command: No such file or directory (os error 2)");
    assert_eq!(stream_failure(StreamKind::Stdout).message, "failed to open stdout");
    assert_eq!(stream_failure(StreamKind::Stderr).message, "failed to open stdin");
    assert_eq!(wait_failure("interrupted").message, "failed to wait for process to finish: interrupted");
}

#[test]
fn cargo_stream_variant_spawn_failure() {
    let e = mcp_server::tools::exec::cargo_exec::CargoRunTool::spawn_failure("not found");
    assert_eq!(e.kind, ErrorKind::Internal);
    assert_eq!(e.message, "failed to execute cargo: not found");
}

#[test]
fn progress_only_counts_when_wanted() {
    let mut c = OutputCollector::new();
    c.progress = u64::MAX;
    assert!(c.on_line(StreamKind::Stdout, "late".to_string(), false).is_none());
    assert_eq!(c.stdout, "late\n");
}
