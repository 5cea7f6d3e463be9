//! The library's laws: properties of whole plans, proved once and for all
//! inputs, relating the phases that [`crate::engine`] defines.

use vstd::prelude::*;

use crate::commands::{AmountView, CmdView, ResizeAxis, SplitAxis};
use crate::config::PaneConfig;
use crate::engine::{
    cd_text,
    command_cmds,
    default_axis,
    default_split_cmds,
    focus_cmds,
    is_horizontal,
    is_vertical,
    pane_exec_cmds,
    pane_resize_cmds,
    positional_plan,
    resize_axis,
    send_cmds,
    size_view,
};
use crate::text::{ends_with_percent, spec_parse_i32, strip_percents};

verus! {

/// How many commands of a plan are splits.
pub open spec fn count_splits(s: Seq<CmdView>) -> int
    decreases s.len(),
{
    if s.len() == 0 {
        0
    } else {
        count_splits(s.drop_last()) + if s.last() is SplitWindow {
            1int
        } else {
            0int
        }
    }
}

/// How many commands of a plan are pane selections.
pub open spec fn count_selects(s: Seq<CmdView>) -> int
    decreases s.len(),
{
    if s.len() == 0 {
        0
    } else {
        count_selects(s.drop_last()) + if s.last() is SelectPane {
            1int
        } else {
            0int
        }
    }
}

/// How many commands of a plan are keystroke injections.
pub open spec fn count_sends(s: Seq<CmdView>) -> int
    decreases s.len(),
{
    if s.len() == 0 {
        0
    } else {
        count_sends(s.drop_last()) + if s.last() is SendText {
            1int
        } else {
            0int
        }
    }
}

/// All three counts distribute over concatenation.
pub proof fn lemma_counts_add(a: Seq<CmdView>, b: Seq<CmdView>)
    ensures
        count_splits(a + b) == count_splits(a) + count_splits(b),
        count_selects(a + b) == count_selects(a) + count_selects(b),
        count_sends(a + b) == count_sends(a) + count_sends(b),
    decreases b.len(),
{
    if b.len() == 0 {
        assert(a + b =~= a);
    } else {
        assert((a + b).drop_last() =~= a + b.drop_last());
        assert((a + b).last() == b.last());
        lemma_counts_add(a, b.drop_last());
    }
}

/// A plan of splits alone counts its length.
proof fn lemma_count_splits_all(s: Seq<CmdView>)
    requires
        forall|i: int| 0 <= i < s.len() ==> (#[trigger] s[i]) is SplitWindow,
    ensures
        count_splits(s) == s.len(),
    decreases s.len(),
{
    if s.len() > 0 {
        lemma_count_splits_all(s.drop_last());
    }
}

/// A plan of keystroke injections alone counts its length in sends and
/// none in selections.
proof fn lemma_count_sends_all(s: Seq<CmdView>)
    requires
        forall|i: int| 0 <= i < s.len() ==> (#[trigger] s[i]) is SendText,
    ensures
        count_sends(s) == s.len(),
        count_selects(s) == 0,
    decreases s.len(),
{
    if s.len() > 0 {
        lemma_count_sends_all(s.drop_last());
    }
}

/// Positional-mode pane creation: for every pane count of at least 1, the
/// plan issues exactly count - 1 split commands, between the anchoring
/// keystroke and the arrangement, alternating axis strictly by 1-based
/// creation order — odd orders split along the horizontal axis, even ones
/// along the vertical axis.
pub proof fn lemma_positional_alternation(count: int, path: Seq<char>)
    requires
        count >= 1,
    ensures
        positional_plan(count, path).len() == count + 1,
        positional_plan(count, path)[0] == CmdView::SendText(cd_text(path)),
        positional_plan(count, path)[count] == CmdView::SelectTiledLayout,
        forall|j: int|
            1 <= j < count ==> positional_plan(count, path)[j] == CmdView::SplitWindow(
                default_axis(j),
                path,
            ),
        forall|j: int|
            1 <= j < count && j % 2 == 1 ==> positional_plan(count, path)[j]
                == CmdView::SplitWindow(SplitAxis::Horizontal, path),
        forall|j: int|
            1 <= j < count && j % 2 == 0 ==> positional_plan(count, path)[j]
                == CmdView::SplitWindow(SplitAxis::Vertical, path),
        count_splits(positional_plan(count, path)) == count - 1,
{
    let anchor = seq![CmdView::SendText(cd_text(path))];
    let splits = default_split_cmds(count, path);
    let tail = seq![CmdView::SelectTiledLayout];
    lemma_counts_add(anchor + splits, tail);
    lemma_counts_add(anchor, splits);
    lemma_count_splits_all(splits);
    assert(count_splits(Seq::<CmdView>::empty()) == 0);
    assert(count_splits(anchor) == 0) by {
        assert(anchor.drop_last() =~= Seq::<CmdView>::empty());
        assert(count_splits(Seq::<CmdView>::empty()) == 0);
    }
    assert(count_splits(tail) == 0) by {
        assert(tail.drop_last() =~= Seq::<CmdView>::empty());
        assert(count_splits(Seq::<CmdView>::empty()) == 0);
    }
}

/// The total number of startup commands declared over a pane sequence.
pub open spec fn total_declared_commands(panes: Seq<PaneConfig>) -> int
    decreases panes.len(),
{
    if panes.len() == 0 {
        0
    } else {
        total_declared_commands(panes.drop_last()) + panes.last().commands@.len()
    }
}

proof fn lemma_send_cmds_counts(cs: Seq<String>)
    ensures
        count_sends(send_cmds(cs)) == cs.len(),
        count_selects(send_cmds(cs)) == 0,
{
    lemma_count_sends_all(send_cmds(cs));
}

/// The command-execution phase over a pane sequence of length M issues
/// exactly M pane selections and, over all panes together, exactly one
/// keystroke injection per declared startup command; each pane's block is,
/// by construction, its selection followed by its commands in declared
/// order.
pub proof fn lemma_command_phase_counts(panes: Seq<PaneConfig>)
    ensures
        count_selects(command_cmds(panes)) == panes.len(),
        count_sends(command_cmds(panes)) == total_declared_commands(panes),
    decreases panes.len(),
{
    if panes.len() > 0 {
        let pre = panes.drop_last();
        let p = panes.last();
        let idx = panes.len() - 1;
        lemma_command_phase_counts(pre);
        lemma_counts_add(command_cmds(pre), pane_exec_cmds(p, idx));
        lemma_counts_add(seq![CmdView::SelectPane(idx)], send_cmds(p.commands@));
        lemma_send_cmds_counts(p.commands@);
        assert(count_selects(seq![CmdView::SelectPane(idx)]) == 1 && count_sends(
            seq![CmdView::SelectPane(idx)],
        ) == 0) by {
            assert(seq![CmdView::SelectPane(idx)].drop_last() =~= Seq::<CmdView>::empty());
            assert(count_selects(Seq::<CmdView>::empty()) == 0);
            assert(count_sends(Seq::<CmdView>::empty()) == 0);
        }
    }
}

/// Where pane `i`'s block starts within the command-execution phase: one
/// selection and one injection per declared command for every earlier pane.
pub open spec fn block_start(panes: Seq<PaneConfig>, i: int) -> int
    decreases i,
{
    if i <= 0 {
        0
    } else {
        block_start(panes, i - 1) + 1 + panes[i - 1].commands@.len()
    }
}

proof fn lemma_block_start_prefix(panes: Seq<PaneConfig>, i: int)
    requires
        0 <= i < panes.len(),
    ensures
        block_start(panes.drop_last(), i) == block_start(panes, i),
    decreases i,
{
    if i > 0 {
        lemma_block_start_prefix(panes, i - 1);
        assert(panes.drop_last()[i - 1] == panes[i - 1]);
    }
}

proof fn lemma_block_start_nonneg(panes: Seq<PaneConfig>, i: int)
    ensures
        block_start(panes, i) >= 0,
    decreases i,
{
    if i > 0 {
        lemma_block_start_nonneg(panes, i - 1);
    }
}

proof fn lemma_command_cmds_len(panes: Seq<PaneConfig>)
    ensures
        command_cmds(panes).len() == block_start(panes, panes.len() as int),
    decreases panes.len(),
{
    if panes.len() > 0 {
        lemma_command_cmds_len(panes.drop_last());
        lemma_block_start_prefix(panes, panes.len() - 1);
    }
}

/// The command-execution phase keeps specification order: pane `i`'s block
/// — its selection followed by its startup commands in declared order —
/// stands whole at its offset within the phase.
pub proof fn lemma_command_phase_order(panes: Seq<PaneConfig>, i: int)
    requires
        0 <= i < panes.len(),
    ensures
        block_start(panes, i) + 1 + panes[i].commands@.len() <= command_cmds(panes).len(),
        command_cmds(panes).subrange(
            block_start(panes, i),
            block_start(panes, i) + 1 + panes[i].commands@.len(),
        ) == pane_exec_cmds(panes[i], i),
    decreases panes.len(),
{
    let pre = panes.drop_last();
    let last_idx = panes.len() - 1;
    lemma_command_cmds_len(panes);
    lemma_command_cmds_len(pre);
    lemma_block_start_prefix(panes, i);
    lemma_block_start_nonneg(panes, i);
    assert(command_cmds(panes) == command_cmds(pre) + pane_exec_cmds(panes.last(), last_idx));
    if i == last_idx {
        assert(command_cmds(panes).subrange(
            block_start(panes, i),
            block_start(panes, i) + 1 + panes[i].commands@.len(),
        ) =~= pane_exec_cmds(panes[i], i));
    } else {
        lemma_command_phase_order(pre, i);
        assert(pre[i] == panes[i]);
        assert(command_cmds(panes).subrange(
            block_start(panes, i),
            block_start(panes, i) + 1 + panes[i].commands@.len(),
        ) =~= command_cmds(pre).subrange(
            block_start(pre, i),
            block_start(pre, i) + 1 + pre[i].commands@.len(),
        ));
    }
}

/// The index of the first pane (at or after `idx`) flagged for focus.
pub open spec fn first_focus(panes: Seq<PaneConfig>, idx: int) -> Option<int>
    decreases panes.len() - idx,
{
    if idx < 0 || idx >= panes.len() {
        None
    } else if panes[idx].focus {
        Some(idx)
    } else {
        first_focus(panes, idx + 1)
    }
}

proof fn lemma_focus_cmds_characterization_at(panes: Seq<PaneConfig>, idx: int)
    ensures
        focus_cmds(panes, idx) == match first_focus(panes, idx) {
            Some(i) => seq![CmdView::SelectPane(i)],
            None => Seq::<CmdView>::empty(),
        },
    decreases panes.len() - idx,
{
    if 0 <= idx < panes.len() && !panes[idx].focus {
        lemma_focus_cmds_characterization_at(panes, idx + 1);
    }
}

/// The focus phase selects exactly the first pane flagged for focus, and
/// nothing when no pane is flagged.
pub proof fn lemma_focus_characterization(panes: Seq<PaneConfig>)
    ensures
        focus_cmds(panes, 0) == match first_focus(panes, 0) {
            Some(i) => seq![CmdView::SelectPane(i)],
            None => Seq::<CmdView>::empty(),
        },
{
    lemma_focus_cmds_characterization_at(panes, 0);
}

/// Focus selection depends only on which pane is the first one flagged:
/// two pane sequences whose first focus flags sit at the same index issue
/// the same focus commands.
pub proof fn lemma_focus_depends_on_first(p1: Seq<PaneConfig>, p2: Seq<PaneConfig>)
    requires
        first_focus(p1, 0) == first_focus(p2, 0),
    ensures
        focus_cmds(p1, 0) == focus_cmds(p2, 0),
{
    lemma_focus_cmds_characterization_at(p1, 0);
    lemma_focus_cmds_characterization_at(p2, 0);
}

/// The pane, with its focus flag withdrawn.
pub open spec fn unfocused(p: PaneConfig) -> PaneConfig {
    PaneConfig { focus: false, ..p }
}

proof fn lemma_first_focus_update(panes: Seq<PaneConfig>, j: int, q: PaneConfig, idx: int)
    requires
        0 <= idx <= j < panes.len(),
        exists|i: int| idx <= i < j && (#[trigger] panes[i]).focus,
    ensures
        first_focus(panes.update(j, q), idx) == first_focus(panes, idx),
    decreases panes.len() - idx,
{
    let other = panes.update(j, q);
    let i = choose|i: int| idx <= i < j && (#[trigger] panes[i]).focus;
    if panes[idx].focus {
        assert(other[idx].focus);
    } else {
        assert(idx < i);
        lemma_first_focus_update(panes, j, q, idx + 1);
    }
}

/// A second focus flag is ignored: when some pane before index `j` is
/// flagged for focus, withdrawing the flag of the pane at `j` leaves the
/// focus phase unchanged — a list with two focus flags behaves identically
/// to one with only the first.
pub proof fn lemma_second_focus_flag_ignored(panes: Seq<PaneConfig>, j: int)
    requires
        0 <= j < panes.len(),
        exists|i: int| 0 <= i < j && (#[trigger] panes[i]).focus,
    ensures
        focus_cmds(panes.update(j, unfocused(panes[j])), 0) == focus_cmds(panes, 0),
{
    lemma_first_focus_update(panes, j, unfocused(panes[j]), 0);
    lemma_focus_depends_on_first(panes.update(j, unfocused(panes[j])), panes);
}

/// Resize semantics of the first pass: a percentage size with a declared
/// `vertical` split resizes the horizontal extent and with a declared
/// `horizontal` split the vertical extent, by that percentage; a fixed
/// size that does not parse as a signed 32-bit integer resolves to the
/// default of 10 cells rather than failing.
pub proof fn lemma_resize_semantics(p: PaneConfig, idx: int)
    ensures
        (p.size is Some && ends_with_percent(size_view(p.size)) && is_vertical(p.split))
            ==> pane_resize_cmds(p, idx) == seq![
            CmdView::ResizePane(
                idx,
                ResizeAxis::Width,
                AmountView::Percent(strip_percents(size_view(p.size))),
            ),
        ],
        (p.size is Some && ends_with_percent(size_view(p.size)) && is_horizontal(p.split))
            ==> pane_resize_cmds(p, idx) == seq![
            CmdView::ResizePane(
                idx,
                ResizeAxis::Height,
                AmountView::Percent(strip_percents(size_view(p.size))),
            ),
        ],
        (p.size is Some && !ends_with_percent(size_view(p.size)) && spec_parse_i32(
            size_view(p.size),
        ) is None) ==> pane_resize_cmds(p, idx) == seq![
            CmdView::ResizePane(idx, resize_axis(p.split, false), AmountView::Cells(10)),
        ],
{
    reveal_strlit("horizontal");
    reveal_strlit("vertical");
    assert("horizontal"@.len() == 10);
    assert("vertical"@.len() == 8);
}

} // verus!
