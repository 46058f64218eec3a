//! Opening a target for writing.
//!
//! A target is opened for unbuffered I/O where the system offers it, which asks for
//! aligned writes, and for buffered I/O where that attempt is refused. The driver
//! makes the attempts; what to do after each is decided here.

use vstd::prelude::*;
use crate::buffer::{is_aligned, Buf, BUF_ALIGN};
use crate::report::{open_error_line, open_error_text};

verus! {

/// How a target is opened.
#[derive(Clone, Copy, Debug, PartialEq, Eq, Structural)]
pub enum OpenMode {
    /// Past the page cache: every write must come from an aligned block.
    Direct,
    /// Through the page cache: any write will do.
    Buffered,
}

/// What to do after an attempt to open a target.
pub enum OpenStep {
    /// The target is open in this mode.
    Ready(OpenMode),
    /// Try again in this mode.
    Retry(OpenMode),
    /// The target cannot be opened: show the line and give this target up.
    Fatal { line: String },
}

/// The alignment that writes in `mode` must keep, in bytes.
pub open spec fn alignment_of(mode: OpenMode) -> int {
    match mode {
        OpenMode::Direct => BUF_ALIGN as int,
        OpenMode::Buffered => 1,
    }
}

/// The mode of the first attempt: direct where the system offers it.
pub fn first_mode(direct_offered: bool) -> (mode: OpenMode)
    ensures
        direct_offered ==> mode == OpenMode::Direct,
        !direct_offered ==> mode == OpenMode::Buffered,
{
    if direct_offered {
        OpenMode::Direct
    } else {
        OpenMode::Buffered
    }
}

/// The alignment that writes in `mode` must keep, in bytes.
pub fn alignment(mode: OpenMode) -> (align: usize)
    ensures
        align == alignment_of(mode),
{
    match mode {
        OpenMode::Direct => BUF_ALIGN,
        OpenMode::Buffered => 1,
    }
}

/// Decides what follows an attempt to open `target` in `mode`. `refusal` is the
/// system's text if the attempt was refused, and `None` if the target is open.
///
/// A refused direct attempt is tried again buffered. A refused buffered attempt is
/// the end: the target cannot be wiped, and the line says so.
pub fn open(target: &str, mode: OpenMode, refusal: Option<&str>) -> (step: OpenStep)
    ensures
        (match refusal {
            None => step == OpenStep::Ready(mode),
            Some(reason) => match mode {
                OpenMode::Direct => step == OpenStep::Retry(OpenMode::Buffered),
                OpenMode::Buffered => step matches OpenStep::Fatal { line } && line@
                    == open_error_text(target@, reason@),
            },
        }),
{
    match refusal {
        None => OpenStep::Ready(mode),
        Some(reason) => match mode {
            OpenMode::Direct => OpenStep::Retry(OpenMode::Buffered),
            OpenMode::Buffered => OpenStep::Fatal { line: open_error_line(target, reason) },
        },
    }
}

/// The block serves either mode: its address and its length keep the alignment that
/// the mode asks for.
pub proof fn lemma_block_serves_every_mode(buf: Buf, mode: OpenMode)
    requires
        buf.wf(),
    ensures
        is_aligned(buf.address(), alignment_of(mode)),
        is_aligned(buf@.len() as int, alignment_of(mode)),
        buf@.len() > 0,
{
    buf.lemma_block_aligned();
}

} // verus!
