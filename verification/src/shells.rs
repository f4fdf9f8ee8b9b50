use vstd::prelude::*;
use vstd::string::StringSliceAdditionalSpecFns;
use vstd::utf8::{decode_utf8, valid_utf8};

use crate::text::{decimal, push_str, str_eq, trim, trim_str, u64_to_string};

verus! {

broadcast use vstd::string::group_string_axioms;

/// The shell interpreters a command can run in.
#[derive(Debug, Clone, Copy, PartialEq, Eq, Structural)]
pub enum CommandShell {
    Sh,
    Bash,
    PowerShell,
    Cmd,
}

/// The label of a shell kind, as shown to the model and the UI.
pub open spec fn shell_label(shell: CommandShell) -> Seq<char> {
    match shell {
        CommandShell::Sh => "sh"@,
        CommandShell::Bash => "bash"@,
        CommandShell::PowerShell => "powershell"@,
        CommandShell::Cmd => "cmd"@,
    }
}

/// The program names tried, in order, to run a shell kind.
pub open spec fn shell_candidates(shell: CommandShell) -> Seq<Seq<char>> {
    match shell {
        CommandShell::Sh => seq!["sh"@],
        CommandShell::Bash => seq!["bash"@],
        CommandShell::PowerShell => seq!["pwsh"@, "powershell"@],
        CommandShell::Cmd => seq!["cmd"@],
    }
}

impl CommandShell {
    pub fn label(self) -> (out: &'static str)
        ensures
            out@ == shell_label(self),
    {
        match self {
            CommandShell::Sh => "sh",
            CommandShell::Bash => "bash",
            CommandShell::PowerShell => "powershell",
            CommandShell::Cmd => "cmd",
        }
    }

    pub fn candidates(self) -> (out: Vec<&'static str>)
        ensures
            out@.map_values(|c: &'static str| c@) == shell_candidates(self),
    {
        let mut out: Vec<&'static str> = Vec::new();
        match self {
            CommandShell::Sh => {
                out.push("sh");
            },
            CommandShell::Bash => {
                out.push("bash");
            },
            CommandShell::PowerShell => {
                out.push("pwsh");
                out.push("powershell");
            },
            CommandShell::Cmd => {
                out.push("cmd");
            },
        }
        assert(out@.map_values(|c: &'static str| c@) =~= shell_candidates(self));
        out
    }
}

/// A shell that was found runnable, with the program name that runs it.
#[derive(Debug, Clone, PartialEq, Eq)]
pub struct AvailableShell {
    pub kind: CommandShell,
    pub program: String,
}

/// The shell kind named by `shell`, if it names one.
pub open spec fn shell_from_name(shell: Seq<char>) -> Option<CommandShell> {
    if shell == "sh"@ {
        Some(CommandShell::Sh)
    } else if shell == "bash"@ {
        Some(CommandShell::Bash)
    } else if shell == "powershell"@ || shell == "pwsh"@ {
        Some(CommandShell::PowerShell)
    } else if shell == "cmd"@ {
        Some(CommandShell::Cmd)
    } else {
        None
    }
}

/// Parses a shell name as the model writes it in a `run_command` call.
pub fn parse_shell(shell: &str) -> (out: Result<CommandShell, String>)
    ensures
        match out {
            Ok(kind) => shell_from_name(shell@) == Some(kind),
            Err(message) => shell_from_name(shell@) is None && message@ == "unsupported shell "@
                + shell@,
        },
{
    if str_eq(shell, "sh") {
        Ok(CommandShell::Sh)
    } else if str_eq(shell, "bash") {
        Ok(CommandShell::Bash)
    } else if str_eq(shell, "powershell") || str_eq(shell, "pwsh") {
        Ok(CommandShell::PowerShell)
    } else if str_eq(shell, "cmd") {
        Ok(CommandShell::Cmd)
    } else {
        let mut message = "unsupported shell ".to_owned();
        push_str(&mut message, shell);
        Err(message)
    }
}

/// Parsing the label of any shell kind gives that kind back.
pub proof fn lemma_parse_shell_label(shell: CommandShell)
    ensures
        shell_from_name(shell_label(shell)) == Some(shell),
{
    reveal_strlit("sh");
    reveal_strlit("bash");
    reveal_strlit("powershell");
    reveal_strlit("pwsh");
    reveal_strlit("cmd");
    assert("sh"@.len() == 2);
    assert("bash"@.len() == 4);
    assert("powershell"@.len() == 10);
    assert("pwsh"@.len() == 4);
    assert("cmd"@.len() == 3);
    assert("bash"@[0] != "pwsh"@[0]);
}

/// Locating the program named `candidate` either found nothing or found a
/// program that the probe reported as not runnable.
pub open spec fn candidate_rejected<L, P>(
    locate_program: L,
    probe_program: P,
    shell: CommandShell,
    candidate: Seq<char>,
) -> bool where L: Fn(&str) -> Option<String>, P: Fn(CommandShell, &String) -> bool {
    exists|c: &str, r: Option<String>|
        #![trigger call_ensures(locate_program, (c,), r)]
        c@ == candidate && call_ensures(locate_program, (c,), r) && (r matches Some(exe)
            ==> call_ensures(probe_program, (shell, &exe), false))
}

/// Locating the program named `candidate` found a program that the probe
/// reported as runnable.
pub open spec fn candidate_accepted<L, P>(
    locate_program: L,
    probe_program: P,
    shell: CommandShell,
    candidate: Seq<char>,
) -> bool where L: Fn(&str) -> Option<String>, P: Fn(CommandShell, &String) -> bool {
    exists|c: &str, exe: String|
        #![trigger call_ensures(locate_program, (c,), Some(exe))]
        c@ == candidate && call_ensures(locate_program, (c,), Some(exe)) && call_ensures(
            probe_program,
            (shell, &exe),
            true,
        )
}

/// Finds the first candidate program of `shell` that `locate_program` finds and
/// `probe_program` can run, trying candidates in order.
pub fn resolve_shell_program_with<L, P>(
    shell: CommandShell,
    locate_program: L,
    probe_program: P,
) -> (out: Option<String>) where L: Fn(&str) -> Option<String>, P: Fn(CommandShell, &String) -> bool
    requires
        forall|name: &str| #[trigger] locate_program.requires((name,)),
        forall|kind: CommandShell, path: &String| #[trigger] probe_program.requires((kind, path)),
    ensures
        match out {
            Some(name) => exists|k: int|
                0 <= k < shell_candidates(shell).len() && name@ == #[trigger] shell_candidates(
                    shell,
                )[k] && candidate_accepted(locate_program, probe_program, shell, name@) && forall|
                    j: int,
                |
                    0 <= j < k ==> candidate_rejected(
                        locate_program,
                        probe_program,
                        shell,
                        #[trigger] shell_candidates(shell)[j],
                    ),
            None => forall|k: int|
                0 <= k < shell_candidates(shell).len() ==> candidate_rejected(
                    locate_program,
                    probe_program,
                    shell,
                    #[trigger] shell_candidates(shell)[k],
                ),
        },
{
    let candidates = shell.candidates();
    let ghost cands = shell_candidates(shell);
    let mut i: usize = 0;
    while i < candidates.len()
        invariant
            i <= candidates.len(),
            candidates@.map_values(|c: &'static str| c@) == cands,
            cands == shell_candidates(shell),
            forall|name: &str| #[trigger] locate_program.requires((name,)),
            forall|kind: CommandShell, path: &String| #[trigger] probe_program.requires((kind, path)),
            forall|k: int|
                0 <= k < i ==> candidate_rejected(
                    locate_program,
                    probe_program,
                    shell,
                    #[trigger] cands[k],
                ),
        decreases candidates.len() - i,
    {
        let candidate = candidates[i];
        assert(candidate@ == cands[i as int]);
        let located = locate_program(candidate);
        match located {
            Some(exe) => {
                let runs = probe_program(shell, &exe);
                if runs {
                    let name = candidate.to_owned();
                    assert(call_ensures(locate_program, (candidate,), Some(exe)));
                    assert(candidate_accepted(locate_program, probe_program, shell, name@));
                    assert(shell_candidates(shell)[i as int] == name@);
                    return Some(name);
                }
                assert(call_ensures(locate_program, (candidate,), Some(exe)));
                assert(candidate_rejected(locate_program, probe_program, shell, cands[i as int]));
            },
            None => {
                assert(call_ensures(locate_program, (candidate,), None::<String>));
                assert(candidate_rejected(locate_program, probe_program, shell, cands[i as int]));
            },
        }
        i += 1;
    }
    None
}

/// Which pipe of the child process a chunk was read from.
#[derive(Debug, Clone, Copy, PartialEq, Eq)]
pub enum StreamKind {
    Stdout,
    Stderr,
}

/// Appends a chunk of output to the buffer of the pipe it came from.
pub fn append_stream_chunk(
    stream: StreamKind,
    chunk: Vec<u8>,
    stdout_bytes: &mut Vec<u8>,
    stderr_bytes: &mut Vec<u8>,
)
    ensures
        stream == StreamKind::Stdout ==> final(stdout_bytes)@ == old(stdout_bytes)@ + chunk@
            && final(stderr_bytes)@ == old(stderr_bytes)@,
        stream == StreamKind::Stderr ==> final(stderr_bytes)@ == old(stderr_bytes)@ + chunk@
            && final(stdout_bytes)@ == old(stdout_bytes)@,
{
    let mut chunk = chunk;
    match stream {
        StreamKind::Stdout => stdout_bytes.append(&mut chunk),
        StreamKind::Stderr => stderr_bytes.append(&mut chunk),
    }
}

/// What timed out while a shell process was shut down after an interruption.
#[derive(Debug, Default, Clone, Copy, PartialEq, Eq)]
pub struct ShutdownStatus {
    pub child_wait_timed_out: bool,
    pub pipe_reader_join_timed_out: bool,
    pub pipe_channel_drain_timed_out: bool,
}

pub const CHILD_WAIT_WARNING: &'static str = "March cleanup warning: timed out while waiting for the shell process to exit after interruption.";

pub const PIPE_READER_WARNING: &'static str = "March cleanup warning: timed out while waiting for command output readers to finish after interruption.";

pub const PIPE_DRAIN_WARNING: &'static str = "March cleanup warning: timed out while draining remaining command output after interruption.";

/// `bytes` with the line `warning` appended, starting a new line first when needed.
pub open spec fn with_warning_line(bytes: Seq<u8>, warning: Seq<u8>) -> Seq<u8> {
    if bytes.len() == 0 || bytes.last() == 10u8 {
        bytes + warning + seq![10u8]
    } else {
        bytes + seq![10u8] + warning + seq![10u8]
    }
}

fn push_bytes(out: &mut Vec<u8>, bytes: &[u8])
    ensures
        final(out)@ == old(out)@ + bytes@,
{
    let mut i: usize = 0;
    while i < bytes.len()
        invariant
            i <= bytes.len(),
            out@ == old(out)@ + bytes@.take(i as int),
        decreases bytes.len() - i,
    {
        out.push(bytes[i]);
        assert(bytes@.take(i + 1) == bytes@.take(i as int).push(bytes@[i as int]));
        i += 1;
    }
    assert(bytes@.take(bytes.len() as int) == bytes@);
}

/// Appends a warning line to the captured stderr bytes.
pub fn append_shutdown_warning(stderr_bytes: &mut Vec<u8>, warning: &str)
    ensures
        final(stderr_bytes)@ == with_warning_line(old(stderr_bytes)@, warning.spec_bytes()),
{
    let n = stderr_bytes.len();
    if n == 0 || stderr_bytes[n - 1] == 10u8 {
        push_bytes(stderr_bytes, warning.as_bytes());
        stderr_bytes.push(10u8);
    } else {
        stderr_bytes.push(10u8);
        push_bytes(stderr_bytes, warning.as_bytes());
        stderr_bytes.push(10u8);
    }
}

/// Stderr after the cleanup warnings for an interrupted command.
pub open spec fn shutdown_warnings(
    stderr: Seq<u8>,
    terminated_early: bool,
    status: ShutdownStatus,
) -> Seq<u8> {
    if !terminated_early {
        stderr
    } else {
        let a = if status.child_wait_timed_out {
            with_warning_line(stderr, CHILD_WAIT_WARNING.spec_bytes())
        } else {
            stderr
        };
        let b = if status.pipe_reader_join_timed_out {
            with_warning_line(a, PIPE_READER_WARNING.spec_bytes())
        } else {
            a
        };
        if status.pipe_channel_drain_timed_out {
            with_warning_line(b, PIPE_DRAIN_WARNING.spec_bytes())
        } else {
            b
        }
    }
}

/// Adds a human-readable line to stderr for each cleanup step that timed out
/// after the command was interrupted.
pub fn append_shutdown_warnings(
    stderr_bytes: &mut Vec<u8>,
    terminated_early: bool,
    status: ShutdownStatus,
)
    ensures
        final(stderr_bytes)@ == shutdown_warnings(old(stderr_bytes)@, terminated_early, status),
{
    if !terminated_early {
        return ;
    }
    if status.child_wait_timed_out {
        append_shutdown_warning(stderr_bytes, CHILD_WAIT_WARNING);
    }
    if status.pipe_reader_join_timed_out {
        append_shutdown_warning(stderr_bytes, PIPE_READER_WARNING);
    }
    if status.pipe_channel_drain_timed_out {
        append_shutdown_warning(stderr_bytes, PIPE_DRAIN_WARNING);
    }
}

/// The message of an interrupted command, with any partial output.
pub open spec fn command_interruption_message(
    reason: Seq<char>,
    command: Seq<char>,
    stdout: Seq<char>,
    stderr: Seq<char>,
) -> Seq<char> {
    let head = reason + ": "@ + command;
    let with_out = if stdout.len() > 0 {
        head + "\nPartial stdout:\n"@ + stdout
    } else {
        head
    };
    if stderr.len() > 0 {
        with_out + "\nPartial stderr:\n"@ + stderr
    } else {
        with_out
    }
}

/// Describes an interrupted command and the output it produced so far.
pub fn format_command_interruption(
    reason: &str,
    command: &str,
    stdout: &str,
    stderr: &str,
) -> (out: String)
    ensures
        out@ == command_interruption_message(reason@, command@, stdout@, stderr@),
{
    let mut message = reason.to_owned();
    push_str(&mut message, ": ");
    push_str(&mut message, command);
    if !stdout.is_empty() {
        push_str(&mut message, "\nPartial stdout:\n");
        push_str(&mut message, stdout);
    }
    if !stderr.is_empty() {
        push_str(&mut message, "\nPartial stderr:\n");
        push_str(&mut message, stderr);
    }
    message
}

/// The state of an incremental ANSI escape sequence filter.
#[derive(Debug, Clone, Copy, PartialEq, Eq, Structural)]
pub enum AnsiState {
    Ground,
    Escape,
    Csi,
    Osc,
    OscEscape,
    EscapeSequence,
}

/// An ASCII control byte (`char::is_ascii_control` of the byte as a char).
pub open spec fn is_ascii_control_byte(byte: u8) -> bool {
    byte < 0x20 || byte == 0x7F
}

/// One step of the ANSI filter: the next state and the byte kept, if any.
pub open spec fn ansi_step(state: AnsiState, byte: u8) -> (AnsiState, Option<u8>) {
    match state {
        AnsiState::Ground => {
            if byte == 0x1B {
                (AnsiState::Escape, None)
            } else if byte == 10u8 || byte == 9u8 || !is_ascii_control_byte(byte) {
                (AnsiState::Ground, Some(byte))
            } else {
                (AnsiState::Ground, None)
            }
        },
        AnsiState::Escape => {
            if byte == 0x5B {
                (AnsiState::Csi, None)
            } else if byte == 0x5D {
                (AnsiState::Osc, None)
            } else {
                (AnsiState::EscapeSequence, None)
            }
        },
        AnsiState::Csi => {
            if 0x40 <= byte && byte <= 0x7E {
                (AnsiState::Ground, None)
            } else {
                (AnsiState::Csi, None)
            }
        },
        AnsiState::Osc => {
            if byte == 0x07 {
                (AnsiState::Ground, None)
            } else if byte == 0x1B {
                (AnsiState::OscEscape, None)
            } else {
                (AnsiState::Osc, None)
            }
        },
        AnsiState::OscEscape => {
            if byte == 0x5C {
                (AnsiState::Ground, None)
            } else {
                (AnsiState::Osc, None)
            }
        },
        AnsiState::EscapeSequence => (AnsiState::Ground, None),
    }
}

/// The state after filtering `bytes` from `state`, and the bytes kept.
pub open spec fn ansi_run(state: AnsiState, bytes: Seq<u8>) -> (AnsiState, Seq<u8>)
    decreases bytes.len(),
{
    if bytes.len() == 0 {
        (state, Seq::empty())
    } else {
        let (mid, kept) = ansi_run(state, bytes.drop_last());
        let (next, out) = ansi_step(mid, bytes.last());
        match out {
            Some(b) => (next, kept.push(b)),
            None => (next, kept),
        }
    }
}

/// Removes ANSI escape sequences and control bytes from a byte stream that
/// arrives in chunks, carrying an unfinished sequence over to the next chunk.
#[derive(Debug, Clone, Copy)]
pub struct IncrementalAnsiStripper {
    pub state: AnsiState,
}

impl IncrementalAnsiStripper {
    pub fn new() -> (out: Self)
        ensures
            out.state == AnsiState::Ground,
    {
        IncrementalAnsiStripper { state: AnsiState::Ground }
    }

    /// Filters the next chunk; after the last chunk the filter returns to its
    /// initial state.
    pub fn push(&mut self, bytes: &[u8], is_last: bool) -> (out: Vec<u8>)
        ensures
            out@ == ansi_run(old(self).state, bytes@).1,
            final(self).state == (if is_last {
                AnsiState::Ground
            } else {
                ansi_run(old(self).state, bytes@).0
            }),
    {
        let mut output: Vec<u8> = Vec::new();
        let mut i: usize = 0;
        while i < bytes.len()
            invariant
                i <= bytes.len(),
                (self.state, output@) == ansi_run(old(self).state, bytes@.take(i as int)),
            decreases bytes.len() - i,
        {
            assert(bytes@.take(i + 1).drop_last() == bytes@.take(i as int));
            let byte = bytes[i];
            match self.state {
                AnsiState::Ground => {
                    if byte == 0x1B {
                        self.state = AnsiState::Escape;
                    } else if byte == 10u8 || byte == 9u8 || !(byte < 0x20 || byte == 0x7F) {
                        output.push(byte);
                    }
                },
                AnsiState::Escape => {
                    if byte == 0x5B {
                        self.state = AnsiState::Csi;
                    } else if byte == 0x5D {
                        self.state = AnsiState::Osc;
                    } else {
                        self.state = AnsiState::EscapeSequence;
                    }
                },
                AnsiState::Csi => {
                    if 0x40 <= byte && byte <= 0x7E {
                        self.state = AnsiState::Ground;
                    }
                },
                AnsiState::Osc => {
                    if byte == 0x07 {
                        self.state = AnsiState::Ground;
                    } else if byte == 0x1B {
                        self.state = AnsiState::OscEscape;
                    }
                },
                AnsiState::OscEscape => {
                    if byte == 0x5C {
                        self.state = AnsiState::Ground;
                    } else {
                        self.state = AnsiState::Osc;
                    }
                },
                AnsiState::EscapeSequence => {
                    self.state = AnsiState::Ground;
                },
            }
            i += 1;
        }
        assert(bytes@.take(bytes.len() as int) == bytes@);
        if is_last {
            self.state = AnsiState::Ground;
        }
        output
    }
}

/// Plain text passes the ANSI filter unchanged.
pub proof fn lemma_ansi_plain_text_unchanged(bytes: Seq<u8>)
    requires
        forall|i: int|
            0 <= i < bytes.len() ==> (#[trigger] bytes[i] == 10u8 || bytes[i] == 9u8
                || !is_ascii_control_byte(bytes[i])),
    ensures
        ansi_run(AnsiState::Ground, bytes) == (AnsiState::Ground, bytes),
    decreases bytes.len(),
{
    if bytes.len() > 0 {
        let init = bytes.drop_last();
        assert forall|i: int| 0 <= i < init.len() implies (#[trigger] init[i] == 10u8 || init[i]
            == 9u8 || !is_ascii_control_byte(init[i])) by {
            assert(init[i] == bytes[i]);
        }
        lemma_ansi_plain_text_unchanged(init);
        assert(init.push(bytes.last()) == bytes);
    }
}

/// What the platform's command output decoder reads from GBK bytes
/// (`encoding_rs::GBK.decode_without_bom_handling`).
pub uninterp spec fn gbk_decoded(bytes: Seq<u8>) -> Seq<char>;

/// Decodes bytes as GBK with `encoding_rs::GBK.decode_without_bom_handling`;
/// the text is named, not stated.
#[verifier::external_body]
fn decode_gbk(bytes: &[u8]) -> (out: String)
    requires
        bytes@.len() <= usize::MAX / 4,
    ensures
        out@ == gbk_decoded(bytes@),
{
    let (text, _) = encoding_rs::GBK.decode_without_bom_handling(bytes);
    text.into_owned()
}

/// Decodes bytes as UTF-8 with `encoding_rs::UTF_8.decode_without_bom_handling`.
/// Its documentation says the flag reports malformed sequences; for valid input
/// the text is the UTF-8 decoding of the bytes. The replacement text produced for
/// malformed input is left unstated.
#[verifier::external_body]
fn decode_utf8_checked(bytes: &[u8]) -> (out: (String, bool))
    requires
        bytes@.len() <= usize::MAX / 4,
    ensures
        out.1 == !valid_utf8(bytes@),
        valid_utf8(bytes@) ==> out.0@ == decode_utf8(bytes@),
{
    let (text, had_errors) = encoding_rs::UTF_8.decode_without_bom_handling(bytes);
    (text.into_owned(), had_errors)
}

/// Text of command output bytes once escape sequences are gone: UTF-8 when the
/// bytes are valid UTF-8, GBK (the Windows console code page) otherwise.
pub open spec fn decoded_output(sanitized: Seq<u8>) -> Seq<char> {
    if valid_utf8(sanitized) {
        decode_utf8(sanitized)
    } else {
        gbk_decoded(sanitized)
    }
}

/// Captured command output as displayed: escape sequences and control bytes
/// stripped, the rest decoded, surrounding whitespace trimmed.
pub open spec fn displayed_output(bytes: Seq<u8>) -> Seq<char> {
    if bytes.len() == 0 {
        Seq::empty()
    } else {
        trim(decoded_output(ansi_run(AnsiState::Ground, bytes).1))
    }
}

/// Decodes captured command output for display: strips ANSI escape sequences
/// and control bytes, decodes the rest, and trims surrounding whitespace.
pub fn decode_command_output(bytes: &[u8]) -> (out: String)
    requires
        bytes@.len() <= usize::MAX / 4,
    ensures
        out@ == displayed_output(bytes@),
{
    if bytes.len() == 0 {
        return String::new();
    }
    let mut stripper = IncrementalAnsiStripper::new();
    let sanitized = stripper.push(bytes, true);
    proof {
        lemma_ansi_run_len(AnsiState::Ground, bytes@);
    }
    let (text, had_errors) = decode_utf8_checked(sanitized.as_slice());
    if had_errors {
        let text = decode_gbk(sanitized.as_slice());
        trim_str(text.as_str())
    } else {
        trim_str(text.as_str())
    }
}

/// The filter never outputs more bytes than it reads.
pub proof fn lemma_ansi_run_len(state: AnsiState, bytes: Seq<u8>)
    ensures
        ansi_run(state, bytes).1.len() <= bytes.len(),
    decreases bytes.len(),
{
    if bytes.len() > 0 {
        lemma_ansi_run_len(state, bytes.drop_last());
    }
}

} // verus!

verus! {

/// Stripping escape sequences chunk by chunk gives what stripping the whole
/// output at once gives: feeding `a` and then `b` to a stripper leaves it in
/// the state, and yields the bytes, that feeding `a + b` does.
pub proof fn lemma_ansi_chunks_compose(state: AnsiState, a: Seq<u8>, b: Seq<u8>)
    ensures
        ansi_run(ansi_run(state, a).0, b).0 == ansi_run(state, a + b).0,
        ansi_run(state, a).1 + ansi_run(ansi_run(state, a).0, b).1 == ansi_run(state, a + b).1,
    decreases b.len(),
{
    if b.len() == 0 {
        assert(a + b =~= a);
        assert(ansi_run(state, a).1 + Seq::<u8>::empty() =~= ansi_run(state, a).1);
    } else {
        lemma_ansi_chunks_compose(state, a, b.drop_last());
        assert((a + b).drop_last() =~= a + b.drop_last());
        assert((a + b).last() == b.last());
        let (mid, kept) = ansi_run(ansi_run(state, a).0, b.drop_last());
        let (next, out) = ansi_step(mid, b.last());
        match out {
            Some(x) => {
                assert(ansi_run(state, a).1 + kept.push(x) =~= (ansi_run(state, a).1 + kept).push(x));
            },
            None => {},
        }
    }
}

/// Inside a control sequence (after ESC and `[`) every final byte, 0x40 to
/// 0x7E, ends the sequence and returns the filter to plain text, and every
/// parameter or intermediate byte, 0x20 to 0x3F, keeps it inside; no byte of
/// the sequence is kept.
pub proof fn lemma_ansi_csi_final_bytes(byte: u8)
    ensures
        0x40 <= byte <= 0x7E ==> ansi_step(AnsiState::Csi, byte) == (AnsiState::Ground, None::<u8>),
        0x20 <= byte <= 0x3F ==> ansi_step(AnsiState::Csi, byte) == (AnsiState::Csi, None::<u8>),
{
}

proof fn lemma_ansi_csi_parameters(params: Seq<u8>)
    requires
        forall|i: int| 0 <= i < params.len() ==> 0x20 <= #[trigger] params[i] <= 0x3F,
    ensures
        ansi_run(AnsiState::Csi, params) == (AnsiState::Csi, Seq::<u8>::empty()),
    decreases params.len(),
{
    if params.len() > 0 {
        let init = params.drop_last();
        assert forall|i: int| 0 <= i < init.len() implies 0x20 <= #[trigger] init[i] <= 0x3F by {
            assert(init[i] == params[i]);
        }
        lemma_ansi_csi_parameters(init);
        assert(0x20 <= params[params.len() - 1] <= 0x3F);
    }
}

/// A whole control sequence (ESC, `[`, parameter bytes, one final byte) is
/// removed, and the plain text after it is kept as it is: stripping such a
/// sequence followed by plain text yields exactly that text and leaves the
/// filter in its plain-text state.
pub proof fn lemma_ansi_csi_sequence_removed(params: Seq<u8>, final_byte: u8, text: Seq<u8>)
    requires
        forall|i: int| 0 <= i < params.len() ==> 0x20 <= #[trigger] params[i] <= 0x3F,
        0x40 <= final_byte <= 0x7E,
        forall|i: int|
            0 <= i < text.len() ==> (#[trigger] text[i] == 10u8 || text[i] == 9u8
                || !is_ascii_control_byte(text[i])),
    ensures
        ansi_run(AnsiState::Ground, seq![0x1Bu8, 0x5Bu8] + params + seq![final_byte] + text) == (
            AnsiState::Ground,
            text,
        ),
{
    let esc = seq![0x1Bu8];
    let intro = seq![0x1Bu8, 0x5Bu8];
    let fin = seq![final_byte];
    let empty = Seq::<u8>::empty();
    assert(esc.drop_last() =~= empty);
    assert(ansi_run(AnsiState::Ground, empty) == (AnsiState::Ground, empty));
    assert(esc.last() == 0x1Bu8);
    assert(ansi_run(AnsiState::Ground, esc) == (AnsiState::Escape, empty));
    assert(intro.drop_last() =~= esc);
    assert(ansi_run(AnsiState::Ground, intro) == (AnsiState::Csi, empty));
    lemma_ansi_csi_parameters(params);
    lemma_ansi_chunks_compose(AnsiState::Ground, intro, params);
    assert(empty + empty =~= empty);
    assert(fin.drop_last() =~= empty);
    assert(ansi_run(AnsiState::Csi, empty) == (AnsiState::Csi, empty));
    assert(fin.last() == final_byte);
    assert(ansi_run(AnsiState::Csi, fin) == (AnsiState::Ground, empty));
    lemma_ansi_chunks_compose(AnsiState::Ground, intro + params, fin);
    lemma_ansi_plain_text_unchanged(text);
    lemma_ansi_chunks_compose(AnsiState::Ground, intro + params + fin, text);
    assert(empty + text =~= text);
}

} // verus!

verus! {

/// The error message of an interrupted command, with the output it produced
/// so far decoded for display.
pub fn command_interruption_error(reason: &str, command: &str, stdout_bytes: &[u8], stderr_bytes: &[u8]) -> (out: String)
    requires
        stdout_bytes@.len() <= usize::MAX / 4,
        stderr_bytes@.len() <= usize::MAX / 4,
    ensures
        out@ == command_interruption_message(
            reason@,
            command@,
            displayed_output(stdout_bytes@),
            displayed_output(stderr_bytes@),
        ),
{
    let stdout = decode_command_output(stdout_bytes);
    let stderr = decode_command_output(stderr_bytes);
    format_command_interruption(reason, command, stdout.as_str(), stderr.as_str())
}

} // verus!

verus! {

/// The output a running command produced so far, and whether some of it was
/// not shown yet.
pub struct CommandCollection {
    pub stdout: Vec<u8>,
    pub stderr: Vec<u8>,
    pub pending_output: bool,
}

/// What happened while a command runs.
pub enum CollectEvent {
    /// The turn was cancelled.
    Cancelled,
    /// The command's time ran out.
    TimedOut,
    /// A pipe gave a chunk of output.
    Chunk { stream: StreamKind, bytes: Vec<u8> },
    /// The process exited.
    Exited,
    /// The throttle interval for showing output passed.
    OutputTick,
}

/// What to do next while a command runs.
#[derive(Debug, PartialEq, Eq)]
pub enum CollectAction {
    /// Keep waiting.
    Wait,
    /// Show a snapshot of the output so far.
    EmitSnapshot,
    /// Stop the process and report why.
    Interrupt { reason: String },
    /// The process finished on its own.
    Complete,
}

/// Why a command that ran out of time was stopped.
pub open spec fn timeout_reason(timeout_secs: u64) -> Seq<char> {
    "command timed out after "@ + decimal(timeout_secs as nat) + ".000s (timeout "@ + decimal(timeout_secs as nat)
        + ".000s)"@
}

/// The state after one event, and what to do next: a cancel or a timeout
/// stops the process with its reason; a chunk is added to its pipe's output,
/// to be shown; an exit completes the command; a tick shows output not shown
/// yet.
pub open spec fn collect_step_done(
    before: CommandCollection,
    event: CollectEvent,
    timeout_secs: u64,
    after: CommandCollection,
    out: CollectAction,
) -> bool {
    match event {
        CollectEvent::Cancelled => out matches CollectAction::Interrupt { reason } && reason@ == "turn cancelled"@
            && after == before,
        CollectEvent::TimedOut => out matches CollectAction::Interrupt { reason } && reason@ == timeout_reason(timeout_secs)
            && after == before,
        CollectEvent::Chunk { stream, bytes } => {
            &&& out == CollectAction::Wait
            &&& after.pending_output
            &&& stream == StreamKind::Stdout ==> after.stdout@ == before.stdout@ + bytes@ && after.stderr@ == before.stderr@
            &&& stream == StreamKind::Stderr ==> after.stderr@ == before.stderr@ + bytes@ && after.stdout@ == before.stdout@
        },
        CollectEvent::Exited => out == CollectAction::Complete && after == before,
        CollectEvent::OutputTick => if before.pending_output {
            &&& out == CollectAction::EmitSnapshot
            &&& !after.pending_output
            &&& after.stdout@ == before.stdout@
            &&& after.stderr@ == before.stderr@
        } else {
            out == CollectAction::Wait && after == before
        },
    }
}

/// Takes in one event of a running command with a timeout of
/// `timeout_secs` whole seconds, and says what to do next.
pub fn collect_step(state: &mut CommandCollection, event: CollectEvent, timeout_secs: u64) -> (out: CollectAction)
    ensures
        collect_step_done(*old(state), event, timeout_secs, *final(state), out),
{
    match event {
        CollectEvent::Cancelled => CollectAction::Interrupt { reason: "turn cancelled".to_owned() },
        CollectEvent::TimedOut => {
            let secs = u64_to_string(timeout_secs);
            let mut reason = "command timed out after ".to_owned();
            push_str(&mut reason, secs.as_str());
            push_str(&mut reason, ".000s (timeout ");
            push_str(&mut reason, secs.as_str());
            push_str(&mut reason, ".000s)");
            CollectAction::Interrupt { reason }
        },
        CollectEvent::Chunk { stream, bytes } => {
            append_stream_chunk(stream, bytes, &mut state.stdout, &mut state.stderr);
            state.pending_output = true;
            CollectAction::Wait
        },
        CollectEvent::Exited => CollectAction::Complete,
        CollectEvent::OutputTick => {
            if state.pending_output {
                state.pending_output = false;
                CollectAction::EmitSnapshot
            } else {
                CollectAction::Wait
            }
        },
    }
}

/// Whether a last snapshot is owed once the command stopped: output was not
/// shown yet, or a pipe holds more than the last snapshot showed.
pub fn needs_final_snapshot(state: &CommandCollection, shown_stdout_len: usize, shown_stderr_len: usize) -> (out: bool)
    ensures
        out == (state.pending_output || state.stdout@.len() != shown_stdout_len || state.stderr@.len()
            != shown_stderr_len),
{
    state.pending_output || state.stdout.len() != shown_stdout_len || state.stderr.len() != shown_stderr_len
}

} // verus!
