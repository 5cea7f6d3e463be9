//! The multiplexer command model.
//!
//! A plan is an ordered sequence of [`TmuxCommand`] values; issuing them in
//! order (one at a time, each awaited) produces the described layout. The
//! spec-level mirror of a command is [`CmdView`], whose fields are
//! mathematical values, so that contracts can speak of whole plans.

use vstd::prelude::*;

verus! {

/// The axis a pane is split along, in the multiplexer's own naming:
/// a `Horizontal` split places the new pane left/right, a `Vertical` split
/// stacks it above/below. Note that this is the inverse of the plain-language
/// `split` field of a pane specification: declaring `split: horizontal`
/// stacks panes, and therefore maps to `SplitAxis::Vertical`.
#[derive(Clone, Copy, Debug, PartialEq, Eq, Structural)]
pub enum SplitAxis {
    Horizontal,
    Vertical,
}

/// The extent a resize adjusts: `Width` is the horizontal extent (columns),
/// `Height` the vertical extent (lines).
#[derive(Clone, Copy, Debug, PartialEq, Eq, Structural)]
pub enum ResizeAxis {
    Width,
    Height,
}

/// A resize amount: a percentage of the window (its digits, without the
/// trailing `%`), or an absolute number of cells.
#[derive(Debug, PartialEq, Eq)]
pub enum SizeAmount {
    Percent(String),
    Cells(i32),
}

/// One multiplexer control operation.
#[derive(Debug, PartialEq, Eq)]
pub enum TmuxCommand {
    /// Inject the text into the active pane, followed by a line submit.
    SendText(String),
    /// Split the active pane along the axis; the new pane is rooted at the
    /// directory.
    SplitWindow(SplitAxis, String),
    /// Apply the uniform tiled baseline arrangement to all panes.
    SelectTiledLayout,
    /// Resize the pane with the given index along the axis by the amount.
    ResizePane(usize, ResizeAxis, SizeAmount),
    /// Select the pane with the given index as the active pane.
    SelectPane(usize),
    /// A short fixed delay that lets the arrangement settle before any
    /// resize is issued.
    SettleDelay,
}

/// The mathematical value of a [`SizeAmount`].
pub enum AmountView {
    Percent(Seq<char>),
    Cells(int),
}

/// The mathematical value of a [`TmuxCommand`].
pub enum CmdView {
    SendText(Seq<char>),
    SplitWindow(SplitAxis, Seq<char>),
    SelectTiledLayout,
    ResizePane(int, ResizeAxis, AmountView),
    SelectPane(int),
    SettleDelay,
}

impl View for SizeAmount {
    type V = AmountView;

    open spec fn view(&self) -> AmountView {
        match self {
            SizeAmount::Percent(s) => AmountView::Percent(s@),
            SizeAmount::Cells(n) => AmountView::Cells(*n as int),
        }
    }
}

impl View for TmuxCommand {
    type V = CmdView;

    open spec fn view(&self) -> CmdView {
        match self {
            TmuxCommand::SendText(t) => CmdView::SendText(t@),
            TmuxCommand::SplitWindow(axis, dir) => CmdView::SplitWindow(*axis, dir@),
            TmuxCommand::SelectTiledLayout => CmdView::SelectTiledLayout,
            TmuxCommand::ResizePane(target, axis, amount) => CmdView::ResizePane(
                *target as int,
                *axis,
                amount@,
            ),
            TmuxCommand::SelectPane(target) => CmdView::SelectPane(*target as int),
            TmuxCommand::SettleDelay => CmdView::SettleDelay,
        }
    }
}

/// The mathematical value of a whole plan.
pub open spec fn cmd_views(s: Seq<TmuxCommand>) -> Seq<CmdView> {
    s.map_values(|c: TmuxCommand| c@)
}

/// Mapping a plan to its value commutes with concatenation.
pub proof fn lemma_cmd_views_add(a: Seq<TmuxCommand>, b: Seq<TmuxCommand>)
    ensures
        cmd_views(a + b) == cmd_views(a) + cmd_views(b),
{
    assert(cmd_views(a + b) =~= cmd_views(a) + cmd_views(b));
}

/// Mapping a plan to its value commutes with appending one command.
pub proof fn lemma_cmd_views_push(a: Seq<TmuxCommand>, c: TmuxCommand)
    ensures
        cmd_views(a.push(c)) == cmd_views(a).push(c@),
{
    assert(cmd_views(a.push(c)) =~= cmd_views(a).push(c@));
}

} // verus!
