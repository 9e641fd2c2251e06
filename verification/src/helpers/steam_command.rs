use vstd::prelude::*;

use crate::error::{ErrorKind, ToolError};
use crate::text::{push_str, string_of};
use crate::tools::fs::grep::string_views;

verus! {

/// A command to run directly (no shell): program, arguments, and the
/// directory it runs in (the server's own when absent).
#[derive(Debug)]
pub struct SteamCommand {
    pub program: String,
    pub arguments: Vec<String>,
    pub current_dir: Option<String>,
}

/// Copies of the given strings.
pub fn copy_strings(v: &Vec<String>) -> (r: Vec<String>)
    ensures
        string_views(r@) == string_views(v@),
{
    let mut out: Vec<String> = Vec::new();
    let mut i: usize = 0;
    while i < v.len()
        invariant
            i <= v@.len(),
            string_views(out@) == string_views(v@).take(i as int),
        decreases v@.len() - i,
    {
        let ghost before = string_views(out@);
        out.push(v[i].clone());
        assert(string_views(out@) =~= before.push(v@[i as int]@));
        assert(string_views(v@).take(i + 1) =~= string_views(v@).take(i as int).push(v@[i as int]@));
        i = i + 1;
    }
    assert(string_views(v@).take(v@.len() as int) =~= string_views(v@));
    out
}

impl SteamCommand {
    /// A command running `program` with no argument, in the server's directory.
    pub fn new(program: &str) -> (r: SteamCommand)
        ensures
            r.program@ == program@,
            r.arguments@.len() == 0,
            r.current_dir is None,
    {
        SteamCommand { program: String::from_str(program), arguments: Vec::new(), current_dir: None }
    }

    /// The command with `arguments` appended to its arguments.
    pub fn args(self, arguments: Vec<String>) -> (r: SteamCommand)
        ensures
            r.program@ == self.program@,
            string_views(r.arguments@) == string_views(self.arguments@) + string_views(arguments@),
            r.current_dir == self.current_dir,
    {
        let mut a = self.arguments;
        let mut more = arguments;
        let ghost x = string_views(a@);
        let ghost y = string_views(more@);
        a.append(&mut more);
        assert(string_views(a@) =~= x + y);
        SteamCommand { program: self.program, arguments: a, current_dir: self.current_dir }
    }

    /// The command set to run in `dir`.
    pub fn current_dir(self, dir: &str) -> (r: SteamCommand)
        ensures
            r.program@ == self.program@,
            string_views(r.arguments@) == string_views(self.arguments@),
            r.current_dir matches Some(d) && d@ == dir@,
    {
        SteamCommand { program: self.program, arguments: self.arguments, current_dir: Some(String::from_str(dir)) }
    }
}

/// Which output stream a line came from.
#[derive(Debug, Clone, Copy, PartialEq, Eq, Structural)]
pub enum StreamKind {
    Stdout,
    Stderr,
}

/// The text collected for one stream from a list of lines: each line of that
/// stream followed by a newline, in order.
pub open spec fn stream_text(events: Seq<(StreamKind, Seq<char>)>, kind: StreamKind) -> Seq<char>
    decreases events.len(),
{
    if events.len() == 0 {
        Seq::empty()
    } else {
        stream_text(events.drop_last(), kind) + if events.last().0 == kind {
            events.last().1.push('\n')
        } else {
            Seq::empty()
        }
    }
}

/// The output of a running command, gathered line by line as its two
/// streams produce them.
#[derive(Debug)]
pub struct OutputCollector {
    pub stdout: String,
    pub stderr: String,
    /// How many progress notifications were sent.
    pub progress: u64,
}

/// A progress notification: its running number and the line it carries.
#[derive(Debug)]
pub struct ProgressNote {
    pub progress: u64,
    pub message: String,
}

impl OutputCollector {
    pub fn new() -> (r: OutputCollector)
        ensures
            r.stdout@.len() == 0,
            r.stderr@.len() == 0,
            r.progress == 0,
    {
        OutputCollector { stdout: String::new(), stderr: String::new(), progress: 0 }
    }

    /// Takes one line of a stream: it goes, with a newline, to that stream's
    /// text. When the client asked for progress, the line is also sent as the
    /// next progress notification.
    pub fn on_line(&mut self, kind: StreamKind, line: String, wants_progress: bool) -> (r: Option<ProgressNote>)
        requires
            wants_progress ==> old(self).progress < u64::MAX,
        ensures
            final(self).stdout@ == old(self).stdout@ + if kind == StreamKind::Stdout {
                line@.push('\n')
            } else {
                Seq::<char>::empty()
            },
            final(self).stderr@ == old(self).stderr@ + if kind == StreamKind::Stderr {
                line@.push('\n')
            } else {
                Seq::<char>::empty()
            },
            wants_progress ==> final(self).progress == old(self).progress + 1,
            wants_progress ==> (r matches Some(n) && n.progress == final(self).progress && n.message@
                == line@),
            !wants_progress ==> final(self).progress == old(self).progress && r is None,
    {
        match kind {
            StreamKind::Stdout => {
                self.stdout.append(line.as_str());
                self.stdout.append("\n");
            },
            StreamKind::Stderr => {
                self.stderr.append(line.as_str());
                self.stderr.append("\n");
            },
        }
        proof {
            reveal_strlit("\n");
        }
        if wants_progress {
            self.progress = self.progress + 1;
            Some(ProgressNote { progress: self.progress, message: line })
        } else {
            None
        }
    }

    /// What a finished command reports: `STDOUT:`, its text, a blank line,
    /// `STDERR:` and its text.
    pub fn render(&self) -> (r: String)
        ensures
            r@ == "STDOUT:\n"@ + self.stdout@ + "\n\nSTDERR:\n"@ + self.stderr@,
    {
        let mut out: Vec<char> = Vec::new();
        push_str(&mut out, "STDOUT:\n");
        push_str(&mut out, self.stdout.as_str());
        push_str(&mut out, "\n\nSTDERR:\n");
        push_str(&mut out, self.stderr.as_str());
        string_of(&out)
    }
}

/// Each stream's text grows by exactly what `OutputCollector::on_line` adds
/// for one more line: so a collector fed lines from the start holds, for each
/// stream, `stream_text` of those lines — that stream's lines in order, each
/// newline-terminated, and none of the other stream's.
pub proof fn lemma_collector_step(events: Seq<(StreamKind, Seq<char>)>, kind: StreamKind, line: Seq<char>)
    ensures
        stream_text(events.push((kind, line)), StreamKind::Stdout) == stream_text(events, StreamKind::Stdout)
            + if kind == StreamKind::Stdout {
            line.push('\n')
        } else {
            Seq::<char>::empty()
        },
        stream_text(events.push((kind, line)), StreamKind::Stderr) == stream_text(events, StreamKind::Stderr)
            + if kind == StreamKind::Stderr {
            line.push('\n')
        } else {
            Seq::<char>::empty()
        },
{
    let e = events.push((kind, line));
    assert(e.drop_last() =~= events);
}

/// How a finished command exited: whether it succeeded, and the exit
/// status as `ExitStatus` displays it.
#[derive(Debug)]
pub struct ExitInfo {
    pub success: bool,
    pub text: String,
}

/// A finished command: its program, collected streams and exit status.
#[derive(Debug)]
pub struct SteamCommandResult {
    pub program: String,
    pub stdout: String,
    pub stderr: String,
    pub status: ExitInfo,
}

impl SteamCommandResult {
    /// The report of a finished command: `RESULT:` and the exit status, then
    /// both streams under `STDOUT:` and `STDERR:`.
    pub fn render(&self) -> (r: String)
        ensures
            r@ == "RESULT: "@ + self.status.text@ + "\n\nSTDOUT:\n"@ + self.stdout@ + "\n\nSTDERR:\n"@
                + self.stderr@,
    {
        let mut out: Vec<char> = Vec::new();
        push_str(&mut out, "RESULT: ");
        push_str(&mut out, self.status.text.as_str());
        push_str(&mut out, "\n\nSTDOUT:\n");
        push_str(&mut out, self.stdout.as_str());
        push_str(&mut out, "\n\nSTDERR:\n");
        push_str(&mut out, self.stderr.as_str());
        string_of(&out)
    }

    /// The result itself when the command succeeded; otherwise an internal
    /// error carrying the whole report.
    pub fn into_status_error(self) -> (r: Result<SteamCommandResult, ToolError>)
        ensures
            self.status.success <==> r is Ok,
            r matches Ok(v) ==> v == self,
            r matches Err(e) ==> e.kind == ErrorKind::Internal && e.message@ == "RESULT: "@ + self.status.text@
                + "\n\nSTDOUT:\n"@ + self.stdout@ + "\n\nSTDERR:\n"@ + self.stderr@,
    {
        if self.status.success {
            return Ok(self);
        }
        let m = self.render();
        Err(ToolError::internal(m))
    }
}

/// The error when the command could not be started, with the system's reason.
pub fn spawn_failure(reason: &str) -> (r: ToolError)
    ensures
        r.kind == ErrorKind::Internal,
        r.message@ == "failed to execute command: "@ + reason@,
{
    let mut out: Vec<char> = Vec::new();
    push_str(&mut out, "failed to execute command: ");
    push_str(&mut out, reason);
    ToolError::internal(string_of(&out))
}

/// The error when a started command's output stream cannot be taken (the
/// message for the error stream reads `failed to open stdin`).
pub fn stream_failure(kind: StreamKind) -> (r: ToolError)
    ensures
        r.kind == ErrorKind::Internal,
        kind == StreamKind::Stdout ==> r.message@ == "failed to open stdout"@,
        kind == StreamKind::Stderr ==> r.message@ == "failed to open stdin"@,
{
    match kind {
        StreamKind::Stdout => ToolError::internal(String::from_str("failed to open stdout")),
        StreamKind::Stderr => ToolError::internal(String::from_str("failed to open stdin")),
    }
}

/// The error when waiting for the command to finish failed, with the system's reason.
pub fn wait_failure(reason: &str) -> (r: ToolError)
    ensures
        r.kind == ErrorKind::Internal,
        r.message@ == "failed to wait for process to finish: "@ + reason@,
{
    let mut out: Vec<char> = Vec::new();
    push_str(&mut out, "failed to wait for process to finish: ");
    push_str(&mut out, reason);
    ToolError::internal(string_of(&out))
}

} // verus!
