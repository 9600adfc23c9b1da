//! Terminal commands that the editor asks its host to carry out, in order.

use vstd::prelude::*;

verus! {

/// One terminal command.
#[derive(Debug, PartialEq, Eq)]
pub enum TermOp {
    HideCursor,
    ShowCursor,
    /// from now on, queue commands until the output is flushed
    Queue,
    /// flush standard output
    Flush,
    TopLeft,
    /// move the cursor one row down
    Down,
    ScrollUp,
    ScrollDown,
    /// move the cursor to (row, column)
    SetCurPos(u64, u64),
    SetCurRow(u64),
    /// move the cursor to column 0
    ResetCol,
    ClearScreen,
    /// clear the current line and return to its start
    ClearLine,
    ClearToEnd,
    ClearToNewline,
    Print(String),
    /// enter raw mode (and mouse capture)
    Begin,
    /// leave raw mode
    End,
    /// leave raw mode and restore the keyboard flags
    Cleanup,
    /// leave raw mode, remembering whether it was on
    SaveRaw,
    /// enter raw mode again if it was on when saved
    RestoreRaw,
    /// wait for a key press
    ReadKey,
    /// write the bytes to the file at the path
    WriteFile(String, Vec<u8>),
}

/// The abstract value of a terminal command.
pub enum Op {
    HideCursor,
    ShowCursor,
    Queue,
    Flush,
    TopLeft,
    Down,
    ScrollUp,
    ScrollDown,
    SetCurPos(u64, u64),
    SetCurRow(u64),
    ResetCol,
    ClearScreen,
    ClearLine,
    ClearToEnd,
    ClearToNewline,
    Print(Seq<char>),
    Begin,
    End,
    Cleanup,
    SaveRaw,
    RestoreRaw,
    ReadKey,
    WriteFile(Seq<char>, Seq<u8>),
}

impl View for TermOp {
    type V = Op;

    open spec fn view(&self) -> Op {
        match self {
            TermOp::HideCursor => Op::HideCursor,
            TermOp::ShowCursor => Op::ShowCursor,
            TermOp::Queue => Op::Queue,
            TermOp::Flush => Op::Flush,
            TermOp::TopLeft => Op::TopLeft,
            TermOp::Down => Op::Down,
            TermOp::ScrollUp => Op::ScrollUp,
            TermOp::ScrollDown => Op::ScrollDown,
            TermOp::SetCurPos(r, c) => Op::SetCurPos(*r, *c),
            TermOp::SetCurRow(r) => Op::SetCurRow(*r),
            TermOp::ResetCol => Op::ResetCol,
            TermOp::ClearScreen => Op::ClearScreen,
            TermOp::ClearLine => Op::ClearLine,
            TermOp::ClearToEnd => Op::ClearToEnd,
            TermOp::ClearToNewline => Op::ClearToNewline,
            TermOp::Print(s) => Op::Print(s@),
            TermOp::Begin => Op::Begin,
            TermOp::End => Op::End,
            TermOp::Cleanup => Op::Cleanup,
            TermOp::SaveRaw => Op::SaveRaw,
            TermOp::RestoreRaw => Op::RestoreRaw,
            TermOp::ReadKey => Op::ReadKey,
            TermOp::WriteFile(p, b) => Op::WriteFile(p@, b@),
        }
    }
}

/// The abstract values of a sequence of commands.
pub open spec fn ops_view(v: Seq<TermOp>) -> Seq<Op> {
    v.map_values(|o: TermOp| o@)
}

/// Appends one command.
pub fn emit(out: &mut Vec<TermOp>, op: TermOp)
    ensures
        ops_view(final(out)@) == ops_view(old(out)@).push(op@),
{
    out.push(op);
    assert(ops_view(out@) =~= ops_view(old(out)@).push(op@));
}

/// Appends a command that prints `s`.
pub fn emit_print(out: &mut Vec<TermOp>, s: String)
    ensures
        ops_view(final(out)@) == ops_view(old(out)@).push(Op::Print(s@)),
{
    let ghost v = s@;
    emit(out, TermOp::Print(s));
}

} // verus!
