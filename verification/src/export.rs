//! Rendering a session for export.
//!
//! A session can leave the terminal as structured data (through the embedding
//! layer's serializer), as Markdown, or as plain text. The two text renderings
//! are pure functions of the session and are specified character by character.

use vstd::prelude::*;
use crate::block::Block;
use crate::clock::fmt_millis;
use crate::digits::{dec_digits, dec_int, u64_string, i64_string};
use crate::records::state_name_spec;
use crate::session::Session;

verus! {

/// A session packaged for export.
#[derive(Debug)]
pub struct ExportedSession {
    pub session: Session,
}

/// The rounded duration rendering: seconds with two decimals, rounding half
/// up at the centisecond.
pub open spec fn duration_text(d: int) -> Seq<char> {
    let cs = (d + 5) / 10;
    dec_digits(cs / 100) + "."@ + seq![
        crate::digits::digit_char((cs % 100) / 10),
        crate::digits::digit_char(cs % 10),
    ] + "s"@
}

/// The Markdown rendering of one block at position `i`.
pub open spec fn block_markdown(b: Block, i: int) -> Seq<char> {
    "### Block "@ + dec_digits(i + 1) + " - "@ + fmt_millis(b.timestamp as int, "%H:%M:%S"@)
        + "\n\n**Command:**\n```bash\n"@ + b.command@ + "\n```\n\n"@ + (if b.output@.len() > 0 {
        "**Output:**\n```\n"@ + b.output@ + "\n```\n\n"@
    } else {
        Seq::<char>::empty()
    }) + "**Status:** "@ + state_name_spec(b.state) + (match b.exit_code {
        Some(c) => " (exit code: "@ + dec_int(c as int) + ")"@,
        None => Seq::<char>::empty(),
    }) + "\n\n"@ + (match b.metadata.duration {
        Some(d) => "**Duration:** "@ + duration_text(d as int) + "\n\n"@,
        None => Seq::<char>::empty(),
    }) + "---\n\n"@
}

/// The Markdown rendering of the first `n` blocks.
pub open spec fn blocks_markdown(blocks: Seq<Block>, n: int) -> Seq<char>
    decreases n,
{
    if n <= 0 {
        Seq::empty()
    } else {
        blocks_markdown(blocks, n - 1) + block_markdown(blocks[n - 1], n - 1)
    }
}

/// The Markdown rendering of a whole session.
pub open spec fn session_markdown(s: Session) -> Seq<char> {
    "# Session: "@ + s.name@ + "\n\n**Created:** "@ + fmt_millis(
        s.created_at as int,
        "%Y-%m-%d %H:%M:%S"@,
    ) + "\n\n**Working Directory:** `"@ + s.working_directory@ + "`\n\n"@ + (if s.blocks@.len()
        > 0 {
        "## Commands\n\n"@ + blocks_markdown(s.blocks@, s.blocks@.len() as int)
    } else {
        Seq::<char>::empty()
    })
}

/// The plain-text rendering of one block at position `i`.
pub open spec fn block_text(b: Block, i: int) -> Seq<char> {
    "[Block "@ + dec_digits(i + 1) + "] "@ + fmt_millis(b.timestamp as int, "%H:%M:%S"@) + "\n$ "@
        + b.command@ + "\n"@ + (if b.output@.len() > 0 {
        b.output@ + (if b.output@.last() == '\n' {
            Seq::<char>::empty()
        } else {
            "\n"@
        })
    } else {
        Seq::<char>::empty()
    }) + "Status: "@ + state_name_spec(b.state) + (match b.exit_code {
        Some(c) => " (exit code: "@ + dec_int(c as int) + ")"@,
        None => Seq::<char>::empty(),
    }) + "\n\n"@
}

/// The plain-text rendering of the first `n` blocks.
pub open spec fn blocks_text(blocks: Seq<Block>, n: int) -> Seq<char>
    decreases n,
{
    if n <= 0 {
        Seq::empty()
    } else {
        blocks_text(blocks, n - 1) + block_text(blocks[n - 1], n - 1)
    }
}

/// The plain-text rendering of a whole session.
pub open spec fn session_text(s: Session) -> Seq<char> {
    "Session: "@ + s.name@ + "\nCreated: "@ + fmt_millis(
        s.created_at as int,
        "%Y-%m-%d %H:%M:%S"@,
    ) + "\nWorking Directory: "@ + s.working_directory@ + "\n\n"@ + blocks_text(
        s.blocks@,
        s.blocks@.len() as int,
    )
}

/// True when every block of the session is well-formed, which bounds every
/// timestamp the renderings format.
pub open spec fn exportable(s: Session) -> bool {
    &&& s.wf()
    &&& forall|i: int| 0 <= i < s.blocks@.len() ==> (#[trigger] s.blocks@[i]).wf()
}

impl ExportedSession {
    /// Package a session for export.
    pub fn new(session: Session) -> (r: ExportedSession)
        ensures
            r.session == session,
    {
        ExportedSession { session }
    }

    /// Render the session as Markdown.
    pub fn to_markdown(&self) -> (r: String)
        requires
            exportable(self.session),
        ensures
            r@ == session_markdown(self.session),
    {
        let s = &self.session;
        let mut md = String::from_str("# Session: ");
        md.append(s.name.as_str());
        md.append("\n\n**Created:** ");
        md.append(crate::clock::format_timestamp(s.created_at, "%Y-%m-%d %H:%M:%S").as_str());
        md.append("\n\n**Working Directory:** `");
        md.append(s.working_directory.as_str());
        md.append("`\n\n");
        if s.blocks.len() > 0 {
            md.append("## Commands\n\n");
            let ghost base = md@;
            let mut i: usize = 0;
            proof {
                assert(md@ =~= base + blocks_markdown(s.blocks@, 0));
            }
            while i < s.blocks.len()
                invariant
                    exportable(self.session),
                    s == &self.session,
                    i <= s.blocks@.len(),
                    md@ == base + blocks_markdown(s.blocks@, i as int),
                decreases s.blocks@.len() - i,
            {
                let b = &s.blocks[i];
                let piece = render_block_markdown(b, i);
                md.append(piece.as_str());
                proof {
                    assert(md@ =~= base + blocks_markdown(s.blocks@, i + 1));
                }
                i = i + 1;
            }
            proof {
                assert(md@ =~= session_markdown(self.session));
            }
        } else {
            proof {
                assert(md@ =~= session_markdown(self.session));
            }
        }
        md
    }

    /// Render the session as plain text.
    pub fn to_text(&self) -> (r: String)
        requires
            exportable(self.session),
        ensures
            r@ == session_text(self.session),
    {
        let s = &self.session;
        let mut text = String::from_str("Session: ");
        text.append(s.name.as_str());
        text.append("\nCreated: ");
        text.append(crate::clock::format_timestamp(s.created_at, "%Y-%m-%d %H:%M:%S").as_str());
        text.append("\nWorking Directory: ");
        text.append(s.working_directory.as_str());
        text.append("\n\n");
        let ghost base = text@;
        let mut i: usize = 0;
        proof {
            assert(text@ =~= base + blocks_text(s.blocks@, 0));
        }
        while i < s.blocks.len()
            invariant
                exportable(self.session),
                s == &self.session,
                i <= s.blocks@.len(),
                text@ == base + blocks_text(s.blocks@, i as int),
            decreases s.blocks@.len() - i,
        {
            let b = &s.blocks[i];
            let piece = render_block_text(b, i);
            text.append(piece.as_str());
            proof {
                assert(text@ =~= base + blocks_text(s.blocks@, i + 1));
            }
            i = i + 1;
        }
        proof {
            assert(text@ =~= session_text(self.session));
        }
        text
    }
}

/// Render one block's Markdown section.
#[verifier::rlimit(100)]
fn render_block_markdown(b: &Block, i: usize) -> (r: String)
    requires
        b.wf(),
        i < usize::MAX,
    ensures
        r@ == block_markdown(*b, i as int),
{
    let mut md = String::from_str("### Block ");
    md.append(u64_string((i + 1) as u64).as_str());
    md.append(" - ");
    md.append(crate::clock::format_timestamp(b.timestamp, "%H:%M:%S").as_str());
    md.append("\n\n**Command:**\n```bash\n");
    md.append(b.command.as_str());
    md.append("\n```\n\n");
    if b.output.as_str().unicode_len() > 0 {
        md.append("**Output:**\n```\n");
        md.append(b.output.as_str());
        md.append("\n```\n\n");
    }
    md.append("**Status:** ");
    md.append(crate::records::state_name(b.state));
    match b.exit_code {
        Some(c) => {
            md.append(" (exit code: ");
            md.append(i64_string(c as i64).as_str());
            md.append(")");
        },
        None => {},
    }
    md.append("\n\n");
    match b.metadata.duration {
        Some(d) => {
            md.append("**Duration:** ");
            md.append(render_duration(d).as_str());
            md.append("\n\n");
        },
        None => {},
    }
    md.append("---\n\n");
    proof {
        assert(md@ =~= block_markdown(*b, i as int));
    }
    md
}

/// Render one block's plain-text section.
#[verifier::rlimit(100)]
fn render_block_text(b: &Block, i: usize) -> (r: String)
    requires
        b.wf(),
        i < usize::MAX,
    ensures
        r@ == block_text(*b, i as int),
{
    let mut text = String::from_str("[Block ");
    text.append(u64_string((i + 1) as u64).as_str());
    text.append("] ");
    text.append(crate::clock::format_timestamp(b.timestamp, "%H:%M:%S").as_str());
    text.append("\n$ ");
    text.append(b.command.as_str());
    text.append("\n");
    let out_len = b.output.as_str().unicode_len();
    if out_len > 0 {
        text.append(b.output.as_str());
        if b.output.as_str().get_char(out_len - 1) != '\n' {
            text.append("\n");
        }
    }
    text.append("Status: ");
    text.append(crate::records::state_name(b.state));
    match b.exit_code {
        Some(c) => {
            text.append(" (exit code: ");
            text.append(i64_string(c as i64).as_str());
            text.append(")");
        },
        None => {},
    }
    text.append("\n\n");
    proof {
        assert(text@ =~= block_text(*b, i as int));
    }
    text
}

/// Render a millisecond duration as seconds with two decimals.
fn render_duration(d: i64) -> (r: String)
    requires
        0 <= d <= 2 * crate::clock::TS_BOUND,
    ensures
        r@ == duration_text(d as int),
{
    let cs = (d + 5) / 10;
    let mut s = u64_string((cs / 100) as u64);
    s.append(".");
    s.append(crate::digits::digit_str((cs % 100 / 10) as u64));
    s.append(crate::digits::digit_str((cs % 10) as u64));
    s.append("s");
    proof {
        assert(s@ =~= duration_text(d as int));
    }
    s
}

} // verus!
