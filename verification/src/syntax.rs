//! Detecting fenced code blocks in command output.
//!
//! Output that contains Markdown-style code fences is cut into code blocks:
//! a fence line opens a block, the next fence line closes it, and whatever
//! follows the opening fence on its own line names the language. The scanner
//! is specified as a state machine over the output's lines; an unclosed block
//! at the end of the output is discarded, as is a fence's language when the
//! fence line holds nothing but backticks and blanks.

use vstd::prelude::*;

verus! {

/// One fenced code block found in output: its body, its language tag, and
/// the line numbers of its first body line and of its closing fence.
#[derive(Debug, Clone)]
pub struct CodeBlock {
    pub content: String,
    pub language: Option<String>,
    pub start_line: usize,
    pub end_line: usize,
}

/// The ghost mirror of one found code block.
pub struct CodeBlockModel {
    pub content: Seq<char>,
    pub language: Option<Seq<char>>,
    pub start_line: int,
    pub end_line: int,
}

/// `cb` carries the same data as its model.
pub open spec fn matches_model(cb: CodeBlock, m: CodeBlockModel) -> bool {
    &&& cb.content@ == m.content
    &&& (cb.language is Some <==> m.language is Some)
    &&& (cb.language matches Some(l) ==> (m.language matches Some(ml) ==> l@ == ml))
    &&& cb.start_line == m.start_line
    &&& cb.end_line == m.end_line
}

/// A line's trailing carriage return, removed.
pub open spec fn strip_tail_cr(l: Seq<char>) -> Seq<char> {
    if l.len() > 0 && l.last() == '\r' {
        l.drop_last()
    } else {
        l
    }
}

/// The completed lines of a text and the trailing unterminated one: lines end
/// at a newline, and a carriage return before the newline belongs to the
/// ending.
pub open spec fn line_state(s: Seq<char>) -> (Seq<Seq<char>>, Seq<char>)
    decreases s.len(),
{
    if s.len() == 0 {
        (Seq::empty(), Seq::empty())
    } else {
        let st = line_state(s.drop_last());
        if s.last() == '\n' {
            (st.0.push(strip_tail_cr(st.1)), Seq::empty())
        } else {
            (st.0, st.1.push(s.last()))
        }
    }
}

/// The lines of a text; a nonempty unterminated tail is the final line.
pub open spec fn lines_of(s: Seq<char>) -> Seq<Seq<char>> {
    let st = line_state(s);
    if st.1.len() == 0 {
        st.0
    } else {
        st.0.push(st.1)
    }
}

/// True of a fence line: it begins with three backticks.
pub open spec fn is_fence(l: Seq<char>) -> bool {
    l.len() >= 3 && l[0] == '`' && l[1] == '`' && l[2] == '`'
}

/// The fence line without its leading backtick triples.
pub open spec fn strip_fences(l: Seq<char>) -> Seq<char>
    decreases l.len(),
{
    if is_fence(l) {
        strip_fences(l.skip(3))
    } else {
        l
    }
}

/// True of the blank characters trimmed around a language tag.
pub open spec fn is_blank(c: char) -> bool {
    c == ' ' || c == '\t' || c == '\r'
}

/// The text without its leading blanks.
pub open spec fn trim_start(l: Seq<char>) -> Seq<char>
    decreases l.len(),
{
    if l.len() > 0 && is_blank(l[0]) {
        trim_start(l.drop_first())
    } else {
        l
    }
}

/// The text without its trailing blanks.
pub open spec fn trim_end(l: Seq<char>) -> Seq<char>
    decreases l.len(),
{
    if l.len() > 0 && is_blank(l.last()) {
        trim_end(l.drop_last())
    } else {
        l
    }
}

/// The text without blanks on either side.
pub open spec fn trimmed(l: Seq<char>) -> Seq<char> {
    trim_end(trim_start(l))
}

/// The scanner's state: the blocks found so far, the open block's first body
/// line and language if a fence is open, and the open block's body so far.
pub struct ScanState {
    pub blocks: Seq<CodeBlockModel>,
    pub open_at: Option<(int, Option<Seq<char>>)>,
    pub content: Seq<char>,
}

/// Before any line: nothing found, no block open.
pub open spec fn scan_init() -> ScanState {
    ScanState { blocks: Seq::empty(), open_at: None, content: Seq::empty() }
}

/// One line moves the scanner: a fence closes the open block or opens one,
/// any other line extends the open block's body and leaves closed text alone.
pub open spec fn scan_step(st: ScanState, line: Seq<char>, line_num: int) -> ScanState {
    if is_fence(line) {
        match st.open_at {
            Some((start, lang)) => ScanState {
                blocks: st.blocks.push(
                    CodeBlockModel {
                        content: st.content,
                        language: lang,
                        start_line: start,
                        end_line: line_num,
                    },
                ),
                open_at: None,
                content: Seq::empty(),
            },
            None => {
                let tag = trimmed(strip_fences(line));
                ScanState {
                    blocks: st.blocks,
                    open_at: Some(
                        (
                            line_num + 1,
                            if tag.len() == 0 {
                                None
                            } else {
                                Some(tag)
                            },
                        ),
                    ),
                    content: Seq::empty(),
                }
            },
        }
    } else if st.open_at is Some {
        ScanState { content: st.content + line + seq!['\n'], ..st }
    } else {
        st
    }
}

/// The scanner's state after all lines.
pub open spec fn scan_lines(lines: Seq<Seq<char>>) -> ScanState
    decreases lines.len(),
{
    if lines.len() == 0 {
        scan_init()
    } else {
        scan_step(scan_lines(lines.drop_last()), lines.last(), lines.len() - 1)
    }
}

/// Every code block a text holds, in order.
pub open spec fn code_blocks_of(s: Seq<char>) -> Seq<CodeBlockModel> {
    scan_lines(lines_of(s)).blocks
}

/// Finds fenced code blocks in command output. The syntax-set-backed
/// highlighting itself lives with the embedding layer; the fence scanner is
/// pure text logic and is verified here.
#[derive(Debug)]
pub struct SyntaxHighlighter {
}

/// Cut a text into its lines.
fn split_lines(s: &str) -> (lines: Vec<&str>)
    ensures
        lines@.len() == lines_of(s@).len(),
        forall|j: int| 0 <= j < lines@.len() ==> (#[trigger] lines@[j])@ == lines_of(s@)[j],
{
    let n = s.unicode_len();
    let mut lines: Vec<&str> = Vec::new();
    let mut seg_start: usize = 0;
    let mut i: usize = 0;
    proof {
        assert(s@.take(0) =~= Seq::<char>::empty());
    }
    while i < n
        invariant
            n == s@.len(),
            seg_start <= i <= n,
            line_state(s@.take(i as int)).0.len() == lines@.len(),
            forall|j: int|
                0 <= j < lines@.len() ==> (#[trigger] lines@[j])@ == line_state(s@.take(i as int)).0[j],
            line_state(s@.take(i as int)).1 == s@.subrange(seg_start as int, i as int),
        decreases n - i,
    {
        let ghost prefix = s@.take(i as int);
        if s.get_char(i) == '\n' {
            let line_end = if i > seg_start && s.get_char(i - 1) == '\r' {
                i - 1
            } else {
                i
            };
            let line = s.substring_char(seg_start, line_end);
            proof {
                let t = s@.take(i + 1);
                assert(t.drop_last() =~= prefix);
                assert(t.last() == s@[i as int]);
                assert(strip_tail_cr(line_state(prefix).1) =~= s@.subrange(
                    seg_start as int,
                    line_end as int,
                ));
                assert(line_state(t).1 =~= s@.subrange(i + 1, i + 1));
            }
            lines.push(line);
            seg_start = i + 1;
        } else {
            proof {
                let t = s@.take(i + 1);
                assert(t.drop_last() =~= prefix);
                assert(t.last() == s@[i as int]);
                assert(line_state(t).1 =~= s@.subrange(seg_start as int, i + 1));
            }
        }
        i = i + 1;
    }
    proof {
        assert(s@.take(n as int) =~= s@);
    }
    if seg_start < n {
        let tail = s.substring_char(seg_start, n);
        proof {
            assert(line_state(s@).1.len() > 0);
        }
        lines.push(tail);
    } else {
        proof {
            assert(line_state(s@).1 =~= Seq::<char>::empty());
        }
    }
    lines
}

/// True of a line that begins with three backticks.
fn line_is_fence(line: &str) -> (r: bool)
    ensures
        r == is_fence(line@),
{
    let n = line.unicode_len();
    n >= 3 && line.get_char(0) == '`' && line.get_char(1) == '`' && line.get_char(2) == '`'
}

/// The language tag of an opening fence line: what follows the backtick
/// triples, trimmed of blanks; `None` when nothing is left.
fn fence_language(line: &str) -> (r: Option<String>)
    requires
        is_fence(line@),
    ensures
        r is Some <==> trimmed(strip_fences(line@)).len() > 0,
        (r matches Some(l) ==> l@ == trimmed(strip_fences(line@))),
{
    let n = line.unicode_len();
    let mut k: usize = 0;
    proof {
        assert(line@.skip(0) =~= line@);
    }
    while n - k >= 3 && line.get_char(k) == '`' && line.get_char(k + 1) == '`' && line.get_char(
        k + 2,
    ) == '`'
        invariant
            n == line@.len(),
            k <= n,
            strip_fences(line@) == strip_fences(line@.skip(k as int)),
        decreases n - k,
    {
        proof {
            assert(line@.skip(k as int).skip(3) =~= line@.skip(k + 3));
        }
        k = k + 3;
    }
    proof {
        assert(strip_fences(line@.skip(k as int)) == line@.skip(k as int));
    }
    let mut a = k;
    while a < n && is_blank_char(line.get_char(a))
        invariant
            n == line@.len(),
            k <= a <= n,
            trim_start(line@.skip(k as int)) == trim_start(line@.skip(a as int)),
        decreases n - a,
    {
        proof {
            assert(line@.skip(a as int).drop_first() =~= line@.skip(a + 1));
        }
        a = a + 1;
    }
    proof {
        assert(trim_start(line@.skip(a as int)) == line@.skip(a as int));
    }
    let mut b = n;
    while b > a && is_blank_char(line.get_char(b - 1))
        invariant
            n == line@.len(),
            a <= b <= n,
            trim_end(line@.subrange(a as int, b as int)) == trim_end(
                line@.subrange(a as int, n as int),
            ),
        decreases b,
    {
        proof {
            assert(line@.subrange(a as int, b - 1) =~= line@.subrange(a as int, b as int).drop_last());
        }
        b = b - 1;
    }
    proof {
        assert(trim_end(line@.subrange(a as int, b as int)) == line@.subrange(a as int, b as int));
        assert(line@.skip(a as int) =~= line@.subrange(a as int, n as int));
        assert(trimmed(strip_fences(line@)) == line@.subrange(a as int, b as int));
    }
    if b > a {
        Some(String::from_str(line.substring_char(a, b)))
    } else {
        None
    }
}

/// True of a blank character around a language tag.
fn is_blank_char(c: char) -> (r: bool)
    ensures
        r == is_blank(c),
{
    c == ' ' || c == '\t' || c == '\r'
}

impl SyntaxHighlighter {
    /// A fence scanner.
    pub fn new() -> (r: SyntaxHighlighter)
    {
        SyntaxHighlighter {  }
    }

    /// Every fenced code block in `output`, in order: body, language tag, and
    /// the line numbers of the first body line and the closing fence.
    pub fn detect_code_blocks(&self, output: &str) -> (r: Vec<CodeBlock>)
        ensures
            r@.len() == code_blocks_of(output@).len(),
            forall|j: int|
                0 <= j < r@.len() ==> matches_model(#[trigger] r@[j], code_blocks_of(output@)[j]),
    {
        let lines = split_lines(output);
        let ghost lseq = lines_of(output@);
        let mut blocks: Vec<CodeBlock> = Vec::new();
        let mut in_block = false;
        let mut current_block = String::new();
        let mut current_lang: Option<String> = None;
        let mut start_line: usize = 0;
        let mut i: usize = 0;
        proof {
            assert(lseq.take(0) =~= Seq::<Seq<char>>::empty());
        }
        while i < lines.len()
            invariant
                lines@.len() == lseq.len(),
                forall|j: int| 0 <= j < lines@.len() ==> (#[trigger] lines@[j])@ == lseq[j],
                i <= lines@.len(),
                ({
                    let st = scan_lines(lseq.take(i as int));
                    &&& blocks@.len() == st.blocks.len()
                    &&& (forall|j: int|
                        0 <= j < blocks@.len() ==> matches_model(#[trigger] blocks@[j],
                        st.blocks[j]))
                    &&& (in_block <==> st.open_at is Some)
                    &&& (in_block ==> (st.open_at matches Some((sl, lg)) ==> {
                        &&& start_line == sl
                        &&& current_block@ == st.content
                        &&& (current_lang is Some <==> lg is Some)
                        &&& (current_lang matches Some(l) ==> (lg matches Some(g) ==> l@ == g))
                    }))
                    &&& (!in_block ==> st.content == Seq::<char>::empty())
                }),
            decreases lines@.len() - i,
        {
            let ghost prefix = lseq.take(i as int);
            let line = lines[i];
            if line_is_fence(line) {
                if in_block {
                    blocks.push(
                        CodeBlock {
                            content: current_block,
                            language: current_lang,
                            start_line,
                            end_line: i,
                        },
                    );
                    current_block = String::new();
                    current_lang = None;
                    in_block = false;
                } else {
                    current_lang = fence_language(line);
                    current_block = String::new();
                    start_line = i + 1;
                    in_block = true;
                }
            } else if in_block {
                current_block.append(line);
                current_block.append("\n");
                proof {
                    reveal_strlit("\n");
                    assert(current_block@ =~= scan_lines(prefix).content + lseq[i as int] + seq![
                        '\n',
                    ]);
                }
            }
            proof {
                let t = lseq.take(i + 1);
                assert(t.drop_last() =~= prefix);
                assert(t.last() == lseq[i as int]);
            }
            i = i + 1;
        }
        proof {
            assert(lseq.take(lseq.len() as int) =~= lseq);
        }
        blocks
    }
}

impl Default for SyntaxHighlighter {
    /// The default scanner.
    fn default() -> (r: SyntaxHighlighter)
    {
        SyntaxHighlighter::new()
    }
}

} // verus!
