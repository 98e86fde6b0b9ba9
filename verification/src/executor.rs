//! The shell executor's verified core.
//!
//! The executor runs a command inside a pseudo-terminal and streams output
//! back as ordered events. The terminal I/O itself lives outside this crate;
//! what is verified here is everything the read loop decides: how raw bytes
//! are cut into lines, when an oversized partial line is flushed, how the
//! bashrc-sourcing invocation is built, and how a missing exit status maps to
//! an exit code. The contracts pin the ordering guarantee down: no byte is
//! lost or reordered between what was read and what is emitted.

use vstd::prelude::*;

verus! {

/// One event of an execution's output stream. Stdout and stderr arrive
/// coalesced into a single ordered stream; `Exit` is emitted exactly once and
/// is the authoritative end-of-stream signal.
#[derive(Debug, Clone)]
pub enum OutputLine {
    Stdout(String),
    Stderr(String),
    Exit(i32),
}

/// A partial line longer than this is flushed even without a newline, to
/// bound latency for output that lacks line breaks (progress bars).
pub const FLUSH_THRESHOLD: usize = 4096;

/// The shell invocation prefix that best-effort sources the user's
/// interactive shell resource file, suppressing its errors so they do not
/// pollute the command's output.
pub fn bashrc_prefix() -> (r: &'static str)
    ensures
        r@ == "[ -f ~/.bashrc ] && source ~/.bashrc 2>/dev/null; "@,
{
    "[ -f ~/.bashrc ] && source ~/.bashrc 2>/dev/null; "
}

/// The bytes of all lines, in emission order.
pub open spec fn concat_lines(s: Seq<Vec<u8>>) -> Seq<u8>
    decreases s.len(),
{
    if s.len() == 0 {
        Seq::empty()
    } else {
        s[0]@ + concat_lines(s.drop_first())
    }
}

/// Appending one more line appends its bytes.
pub proof fn lemma_concat_lines_push(s: Seq<Vec<u8>>, v: Vec<u8>)
    ensures
        concat_lines(s.push(v)) == concat_lines(s) + v@,
    decreases s.len(),
{
    if s.len() == 0 {
        assert(s.push(v)[0] == v);
        assert(s.push(v).drop_first() =~= Seq::<Vec<u8>>::empty());
        assert(concat_lines(Seq::<Vec<u8>>::empty()) == Seq::<u8>::empty());
        assert(concat_lines(s.push(v)) =~= concat_lines(s) + v@);
    } else {
        assert(s.push(v)[0] == s[0]);
        assert(s.push(v).drop_first() =~= s.drop_first().push(v));
        lemma_concat_lines_push(s.drop_first(), v);
        assert(s[0]@ + (concat_lines(s.drop_first()) + v@) =~= (s[0]@ + concat_lines(
            s.drop_first(),
        )) + v@);
    }
}

/// Accumulates the raw bytes read from the terminal master and cuts them into
/// complete lines, flushing an oversized partial line as-is.
#[derive(Debug)]
pub struct LineBuffer {
    buf: Vec<u8>,
}

impl LineBuffer {
    /// The bytes read but not yet emitted.
    pub closed spec fn view(self) -> Seq<u8> {
        self.buf@
    }

    /// An empty buffer.
    pub fn new() -> (r: LineBuffer)
        ensures
            r@ == Seq::<u8>::empty(),
    {
        LineBuffer { buf: Vec::new() }
    }

    /// Take in freshly read bytes and hand back the chunks that are ready to
    /// emit: every completed line (ending in a newline byte), then the whole
    /// remainder if it outgrew `FLUSH_THRESHOLD`. The contract keeps the
    /// stream exact: emitted chunks followed by what stays buffered are
    /// exactly the buffered bytes followed by the new ones, and a newline
    /// byte appears in a chunk only as its final byte. What stays buffered
    /// holds no newline and fits under the threshold.
    pub fn push_bytes(&mut self, data: &[u8]) -> (lines: Vec<Vec<u8>>)
        ensures
            concat_lines(lines@) + final(self)@ == old(self)@ + data@,
            final(self)@.len() <= FLUSH_THRESHOLD,
            forall|j: int| 0 <= j < final(self)@.len() ==> final(self)@[j] != 10u8,
            forall|i: int, j: int|
                0 <= i < lines@.len() && 0 <= j < (#[trigger] lines@[i])@.len() - 1 ==> (
                #[trigger] lines@[i]@[j]) != 10u8,
            forall|i: int| 0 <= i < lines@.len() ==> (#[trigger] lines@[i])@.len() > 0,
            forall|i: int| 0 <= i < lines@.len() - 1 ==> (#[trigger] lines@[i])@.last() == 10u8,
            final(self)@.len() > 0 ==> (forall|i: int|
                0 <= i < lines@.len() ==> (#[trigger] lines@[i])@.last() == 10u8),
    {
        let ghost total = old(self)@ + data@;
        let mut k: usize = 0;
        while k < data.len()
            invariant
                k <= data@.len(),
                self.buf@ == old(self)@ + data@.take(k as int),
            decreases data@.len() - k,
        {
            self.buf.push(data[k]);
            proof {
                assert(old(self)@ + data@.take(k + 1) =~= (old(self)@ + data@.take(k as int)).push(
                    data@[k as int],
                ));
            }
            k = k + 1;
        }
        proof {
            assert(data@.take(data@.len() as int) =~= data@);
            assert(self.buf@ == total);
        }
        let n = self.buf.len();
        proof {
            assert(total.len() == n);
        }
        let mut lines: Vec<Vec<u8>> = Vec::new();
        let mut seg_start: usize = 0;
        let mut i: usize = 0;
        while i < self.buf.len()
            invariant
                self.buf@ == total,
                total.len() <= usize::MAX,
                seg_start <= i <= self.buf@.len(),
                concat_lines(lines@) == total.take(seg_start as int),
                forall|j: int| seg_start <= j < i ==> total[j] != 10u8,
                forall|a: int, b: int|
                    0 <= a < lines@.len() && 0 <= b < (#[trigger] lines@[a])@.len() - 1 ==> (
                    #[trigger] lines@[a]@[b]) != 10u8,
                forall|a: int| 0 <= a < lines@.len() ==> (#[trigger] lines@[a])@.len() > 0,
                forall|a: int| 0 <= a < lines@.len() ==> (#[trigger] lines@[a])@.last() == 10u8,
            decreases self.buf@.len() - i,
        {
            if self.buf[i] == 10u8 {
                let mut line: Vec<u8> = Vec::new();
                let mut j: usize = seg_start;
                while j <= i
                    invariant
                        self.buf@ == total,
                        total.len() <= usize::MAX,
                        seg_start <= j <= i + 1,
                        i < self.buf@.len(),
                        line@ == total.subrange(seg_start as int, j as int),
                    decreases i + 1 - j,
                {
                    line.push(self.buf[j]);
                    proof {
                        assert(total.subrange(seg_start as int, j + 1) =~= total.subrange(
                            seg_start as int,
                            j as int,
                        ).push(total[j as int]));
                    }
                    j = j + 1;
                }
                proof {
                    lemma_concat_lines_push(lines@, line);
                    assert(concat_lines(lines@.push(line)) =~= total.take(i + 1));
                }
                lines.push(line);
                seg_start = i + 1;
            }
            i = i + 1;
        }
        // Keep the unterminated tail, unless it outgrew the threshold: then
        // it is flushed as a partial chunk.
        let mut rest: Vec<u8> = Vec::new();
        let mut j: usize = seg_start;
        while j < self.buf.len()
            invariant
                self.buf@ == total,
                seg_start <= j <= self.buf@.len(),
                rest@ == total.subrange(seg_start as int, j as int),
            decreases self.buf@.len() - j,
        {
            rest.push(self.buf[j]);
            proof {
                assert(total.subrange(seg_start as int, j + 1) =~= total.subrange(
                    seg_start as int,
                    j as int,
                ).push(total[j as int]));
            }
            j = j + 1;
        }
        if rest.len() > FLUSH_THRESHOLD {
            proof {
                lemma_concat_lines_push(lines@, rest);
                assert(concat_lines(lines@.push(rest)) =~= total);
            }
            lines.push(rest);
            self.buf = Vec::new();
            proof {
                assert(concat_lines(lines@) + self.buf@ =~= total);
            }
        } else {
            self.buf = rest;
            proof {
                assert(concat_lines(lines@) + self.buf@ =~= total);
            }
        }
        lines
    }

    /// Hand out whatever is still buffered, leaving the buffer empty: the
    /// final flush when the stream ends.
    pub fn finish(&mut self) -> (rest: Option<Vec<u8>>)
        ensures
            final(self)@ == Seq::<u8>::empty(),
            rest is Some <==> old(self)@.len() > 0,
            (rest matches Some(v) ==> v@ == old(self)@),
    {
        if self.buf.len() > 0 {
            let mut out: Vec<u8> = Vec::new();
            let ghost total = self.buf@;
            let mut j: usize = 0;
            while j < self.buf.len()
                invariant
                    self.buf@ == total,
                    j <= total.len(),
                    out@ == total.take(j as int),
                decreases total.len() - j,
            {
                out.push(self.buf[j]);
                proof {
                    assert(total.take(j + 1) =~= total.take(j as int).push(total[j as int]));
                }
                j = j + 1;
            }
            proof {
                assert(total.take(total.len() as int) =~= total);
            }
            self.buf = Vec::new();
            Some(out)
        } else {
            None
        }
    }
}

/// Runs a command string inside the configured shell from the configured
/// working directory. The terminal plumbing lives with the caller; this type
/// owns the configuration and every decision the read loop makes.
#[derive(Debug)]
pub struct ShellExecutor {
    shell_path: String,
    working_directory: String,
}

impl ShellExecutor {
    /// The configured shell path.
    pub closed spec fn spec_shell_path(self) -> Seq<char> {
        self.shell_path@
    }

    /// The configured working directory.
    pub closed spec fn spec_working_directory(self) -> Seq<char> {
        self.working_directory@
    }

    /// An executor for the given shell, starting in the given working
    /// directory.
    pub fn new(shell_path: String, working_directory: String) -> (r: ShellExecutor)
        ensures
            r.spec_shell_path() == shell_path@,
            r.spec_working_directory() == working_directory@,
    {
        ShellExecutor { shell_path, working_directory }
    }

    /// Point the executor at another working directory.
    pub fn set_working_directory(&mut self, path: String)
        ensures
            final(self).spec_working_directory() == path@,
            final(self).spec_shell_path() == old(self).spec_shell_path(),
    {
        self.working_directory = path;
    }

    /// The current working directory.
    pub fn get_working_directory(&self) -> (r: &String)
        ensures
            r@ == self.spec_working_directory(),
    {
        &self.working_directory
    }

    /// The shell the executor spawns.
    pub fn get_shell_path(&self) -> (r: &String)
        ensures
            r@ == self.spec_shell_path(),
    {
        &self.shell_path
    }

    /// The full invocation handed to the shell: source the user's resource
    /// file best-effort, then run the command.
    pub fn wrap_command(&self, command: &str) -> (r: String)
        ensures
            r@ == "[ -f ~/.bashrc ] && source ~/.bashrc 2>/dev/null; "@ + command@,
    {
        let mut s = String::from_str(bashrc_prefix());
        s.append(command);
        s
    }
}

/// Combined stdout-then-stderr text of a synchronous run.
pub fn combine_output(stdout: String, stderr: &str) -> (r: String)
    ensures
        r@ == stdout@ + stderr@,
{
    stdout.concat(stderr)
}

/// The exit code of a finished process; a missing or unretrievable status
/// maps to `-1`.
pub fn exit_code_or_default(code: Option<i32>) -> (r: i32)
    ensures
        (code matches Some(c) ==> r == c),
        code is None ==> r == -1,
{
    match code {
        Some(c) => c,
        None => -1,
    }
}

} // verus!
