//! FFmpeg's log output: its levels, and its lines put together from pieces.
//!
//! FFmpeg's `ERROR` counts as a warning here: in a lossy streaming pipeline
//! most of its errors (missing reference frames after a dropped packet) are
//! expected and recoverable. Only `FATAL` and `PANIC` count as errors.
use crate::text::{chars_of, find_char, lemma_find_char, position_of, string_of, trim_end,
    trim_end_chars};
use vstd::prelude::*;

verus! {

/// `AV_LOG_PANIC`
pub const AV_LOG_PANIC: i32 = 0;

/// `AV_LOG_FATAL`
pub const AV_LOG_FATAL: i32 = 8;

/// `AV_LOG_ERROR`
pub const AV_LOG_ERROR: i32 = 16;

/// `AV_LOG_WARNING`
pub const AV_LOG_WARNING: i32 = 24;

/// `AV_LOG_INFO`
pub const AV_LOG_INFO: i32 = 32;

/// `AV_LOG_VERBOSE`
pub const AV_LOG_VERBOSE: i32 = 40;

/// `AV_LOG_DEBUG`
pub const AV_LOG_DEBUG: i32 = 48;

/// `AV_LOG_TRACE`
pub const AV_LOG_TRACE: i32 = 56;

/// Severity of a forwarded message.
#[derive(Debug, Clone, Copy, PartialEq, Eq, Structural)]
pub enum Level {
    ERROR,
    WARN,
    INFO,
    DEBUG,
    TRACE,
}

/// Maps an FFmpeg log level to the level used when emitting.
pub fn map_level(level: i32) -> (r: Level)
    ensures
        r == Level::ERROR <==> level <= AV_LOG_FATAL,
        r == Level::WARN <==> AV_LOG_FATAL < level <= AV_LOG_WARNING,
        r == Level::INFO <==> AV_LOG_WARNING < level <= AV_LOG_INFO,
        r == Level::DEBUG <==> AV_LOG_INFO < level <= AV_LOG_VERBOSE,
        r == Level::TRACE <==> AV_LOG_VERBOSE < level,
{
    if level <= AV_LOG_FATAL {
        Level::ERROR
    } else if level <= AV_LOG_WARNING {
        Level::WARN
    } else if level <= AV_LOG_INFO {
        Level::INFO
    } else if level <= AV_LOG_VERBOSE {
        Level::DEBUG
    } else {
        Level::TRACE
    }
}

/// Whether a message of this level is looked at at all.
pub fn is_forwarded(level: i32) -> (r: bool)
    ensures
        r == (level <= AV_LOG_DEBUG),
{
    level <= AV_LOG_DEBUG
}

/// The complete lines of a text, each without the white space at its end,
/// blank ones left out.
pub open spec fn finished_lines(s: Seq<char>) -> Seq<Seq<char>>
    decreases s.len(),
{
    let n = find_char(s, '\n');
    if 0 <= n < s.len() {
        let line = trim_end(s.take(n + 1));
        (if line.len() == 0 {
            Seq::empty()
        } else {
            seq![line]
        }) + finished_lines(s.skip(n + 1))
    } else {
        Seq::empty()
    }
}

/// What follows the last line break of a text.
pub open spec fn unfinished_line(s: Seq<char>) -> Seq<char>
    decreases s.len(),
{
    let n = find_char(s, '\n');
    if 0 <= n < s.len() {
        unfinished_line(s.skip(n + 1))
    } else {
        s
    }
}

/// The views of some messages.
pub open spec fn message_views(messages: Seq<String>) -> Seq<Seq<char>> {
    Seq::new(messages.len(), |i: int| messages[i]@)
}

/// The pieces of a line that has not ended yet.
pub struct LogState {
    buffer: Vec<char>,
}

impl View for LogState {
    type V = Seq<char>;

    closed spec fn view(&self) -> Seq<char> {
        self.buffer@
    }
}

impl LogState {
    /// No line has begun.
    pub fn new() -> (state: LogState)
        ensures
            state@ == Seq::<char>::empty(),
    {
        LogState { buffer: Vec::new() }
    }

    /// Takes a piece of output. Returns the lines that it completes; a
    /// partial tail is kept for the next piece.
    pub fn push(&mut self, formatted: &str) -> (messages: Vec<String>)
        ensures
            message_views(messages@) == finished_lines(old(self)@ + formatted@),
            final(self)@ == unfinished_line(old(self)@ + formatted@),
    {
        let mut piece = chars_of(formatted);
        self.buffer.append(&mut piece);
        let ghost all = self.buffer@;
        assert(all == old(self)@ + formatted@);
        let mut messages: Vec<String> = Vec::new();
        let mut start: usize = 0;
        assert(all.skip(0) =~= all);
        assert(message_views(messages@) =~= Seq::empty());
        assert(Seq::<Seq<char>>::empty() + finished_lines(all) =~= finished_lines(all));
        loop
            invariant_except_break
                start <= self.buffer.len(),
                self.buffer@ == all,
                message_views(messages@) + finished_lines(all.skip(start as int))
                    == finished_lines(all),
                unfinished_line(all.skip(start as int)) == unfinished_line(all),
            ensures
                start <= self.buffer.len(),
                self.buffer@ == all,
                message_views(messages@) == finished_lines(all),
                all.skip(start as int) == unfinished_line(all),
            decreases self.buffer.len() - start,
        {
            let rest = vstd::slice::slice_subrange(
                self.buffer.as_slice(),
                start,
                self.buffer.len(),
            );
            assert(rest@ =~= all.skip(start as int));
            let n: usize = position_of(rest, '\n');
            proof {
                lemma_find_char(rest@, '\n');
            }
            if n == rest.len() {
                assert(message_views(messages@) + Seq::<Seq<char>>::empty() =~= message_views(
                    messages@,
                ));
                break;
            }
            let ghost before = message_views(messages@);
            let line = trim_end_chars(vstd::slice::slice_subrange(rest, 0, n + 1));
            proof {
                assert(rest@.subrange(0, n + 1) =~= rest@.take(n + 1));
                assert(rest@.skip(n + 1) =~= all.skip(start + n + 1));
            }
            if line.len() > 0 {
                messages.push(string_of(line));
                assert(message_views(messages@) =~= before.push(line@));
                assert(before + (seq![line@] + finished_lines(rest@.skip(n + 1)))
                    =~= message_views(messages@) + finished_lines(rest@.skip(n + 1)));
            } else {
                assert(Seq::<Seq<char>>::empty() + finished_lines(rest@.skip(n + 1))
                    =~= finished_lines(rest@.skip(n + 1)));
            }
            start = start + n + 1;
        }
        let tail = self.buffer.split_off(start);
        assert(tail@ =~= all.skip(start as int));
        self.buffer = tail;
        messages
    }
}

/// It does not matter where the output is cut into pieces: the lines of the
/// whole are those of the first piece, then those that the second completes.
pub proof fn law_pieces_add_up(a: Seq<char>, b: Seq<char>)
    ensures
        finished_lines(a + b) == finished_lines(a) + finished_lines(unfinished_line(a) + b),
        unfinished_line(a + b) == unfinished_line(unfinished_line(a) + b),
    decreases a.len(),
{
    lemma_find_char(a, '\n');
    let n = find_char(a, '\n');
    if n < a.len() {
        assert forall|i: int| 0 <= i < n implies (a + b)[i] != '\n' by {
            assert((a + b)[i] == a[i]);
        }
        crate::text::lemma_find_char_at(a + b, '\n', n);
        assert((a + b).take(n + 1) =~= a.take(n + 1));
        assert((a + b).skip(n + 1) =~= a.skip(n + 1) + b);
        law_pieces_add_up(a.skip(n + 1), b);
        assert(finished_lines(a + b) =~= finished_lines(a) + finished_lines(
            unfinished_line(a) + b,
        ));
    } else {
        assert(finished_lines(a) + finished_lines(a + b) =~= finished_lines(a + b));
    }
}

} // verus!
