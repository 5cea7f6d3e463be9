//! The layout engine: translates a layout description into the ordered plan
//! of multiplexer commands that realises it.
//!
//! The plan has the phases of the application procedure, in order: anchor
//! the invoking pane at the resolved directory, create one pane per
//! specification beyond the first, apply the tiled baseline arrangement,
//! let it settle, resize (a per-pane pass, then a row-ratio correction),
//! send each pane its startup commands, and set the focus.

use vstd::prelude::*;
use vstd::string::StringExecFns;

use crate::commands::{
    cmd_views,
    lemma_cmd_views_add,
    lemma_cmd_views_push,
    AmountView,
    CmdView,
    ResizeAxis,
    SizeAmount,
    SplitAxis,
    TmuxCommand,
};
use crate::config::{DirectoryResolution, LayoutConfig, LayoutError, PaneConfig};
use crate::text::{
    cells_value,
    ends_with_percent,
    has_percent_suffix,
    parse_cells,
    str_eq,
    strip_percents,
    strip_trailing_percent_marks,
};

verus! {

/// The keystroke text that anchors the invoking pane at the resolved
/// directory.
pub open spec fn cd_text(path: Seq<char>) -> Seq<char> {
    "cd '"@ + path + "'"@
}

/// The alternating default split axis for the pane with the given 1-based
/// creation order: odd orders split along the horizontal axis, even ones
/// along the vertical axis.
pub open spec fn default_axis(order: int) -> SplitAxis {
    if order % 2 == 1 {
        SplitAxis::Horizontal
    } else {
        SplitAxis::Vertical
    }
}

/// Whether a pane declares `split: horizontal`.
pub open spec fn is_horizontal(split: Option<String>) -> bool {
    match split {
        Some(s) => s@ == "horizontal"@,
        None => false,
    }
}

/// Whether a pane declares `split: vertical`.
pub open spec fn is_vertical(split: Option<String>) -> bool {
    match split {
        Some(s) => s@ == "vertical"@,
        None => false,
    }
}

/// The axis the pane with the given 1-based creation order is split along.
/// A declared `horizontal` stacks the new pane (a vertical-axis split), a
/// declared `vertical` places it beside (a horizontal-axis split); anything
/// else falls back to the alternating default.
pub open spec fn creation_axis(split: Option<String>, order: int) -> SplitAxis {
    if is_horizontal(split) {
        SplitAxis::Vertical
    } else if is_vertical(split) {
        SplitAxis::Horizontal
    } else {
        default_axis(order)
    }
}

/// The split commands of pane creation: one per specification beyond index
/// 0, in order, each rooted at the resolved directory.
pub open spec fn split_cmds(panes: Seq<PaneConfig>, path: Seq<char>) -> Seq<CmdView> {
    if panes.len() <= 1 {
        Seq::empty()
    } else {
        Seq::new(
            (panes.len() - 1) as nat,
            |j: int| CmdView::SplitWindow(creation_axis(panes[j + 1].split, j + 1), path),
        )
    }
}

/// The extent a declared size adjusts. A declared `horizontal` split means
/// the pane was stacked, so its height is adjusted; a declared `vertical`
/// split means it sits beside, so its width is adjusted. With no recognized
/// declaration, a percentage size adjusts the width and a fixed size the
/// height.
pub open spec fn resize_axis(split: Option<String>, percent: bool) -> ResizeAxis {
    if is_horizontal(split) {
        ResizeAxis::Height
    } else if is_vertical(split) {
        ResizeAxis::Width
    } else if percent {
        ResizeAxis::Width
    } else {
        ResizeAxis::Height
    }
}

/// The characters of a declared size, the empty sequence when none is
/// declared.
pub open spec fn size_view(size: Option<String>) -> Seq<char> {
    match size {
        Some(z) => z@,
        None => Seq::empty(),
    }
}

/// The first resize pass for one pane: nothing without a declared size; a
/// percentage size resizes by the percentage, a fixed size by its cell
/// count (10 when unparsable), along the axis of [`resize_axis`].
pub open spec fn pane_resize_cmds(p: PaneConfig, idx: int) -> Seq<CmdView> {
    match p.size {
        None => Seq::empty(),
        Some(z) => if ends_with_percent(z@) {
            seq![
                CmdView::ResizePane(
                    idx,
                    resize_axis(p.split, true),
                    AmountView::Percent(strip_percents(z@)),
                ),
            ]
        } else {
            seq![
                CmdView::ResizePane(
                    idx,
                    resize_axis(p.split, false),
                    AmountView::Cells(cells_value(z@)),
                ),
            ]
        },
    }
}

/// The first resize pass over all panes, in specification order.
pub open spec fn resize_cmds(panes: Seq<PaneConfig>) -> Seq<CmdView>
    decreases panes.len(),
{
    if panes.len() == 0 {
        Seq::empty()
    } else {
        resize_cmds(panes.drop_last()) + pane_resize_cmds(panes.last(), panes.len() - 1)
    }
}

/// Whether the pane drives the row-ratio correction: it declares a
/// `horizontal` split and a percentage size.
pub open spec fn row_fix_candidate(p: PaneConfig) -> bool {
    is_horizontal(p.split) && p.size is Some && ends_with_percent(size_view(p.size))
}

/// The second resize pass: the first pane (at or after `idx`) with a
/// `horizontal` split and a percentage size has that percentage applied
/// once more as a height adjustment, which fixes the overall row ratio;
/// later candidates are ignored.
pub open spec fn row_fix_cmds(panes: Seq<PaneConfig>, idx: int) -> Seq<CmdView>
    decreases panes.len() - idx,
{
    if idx < 0 || idx >= panes.len() {
        Seq::empty()
    } else if row_fix_candidate(panes[idx]) {
        seq![
            CmdView::ResizePane(
                idx,
                ResizeAxis::Height,
                AmountView::Percent(strip_percents(size_view(panes[idx].size))),
            ),
        ]
    } else {
        row_fix_cmds(panes, idx + 1)
    }
}

/// The keystroke injections of one pane's startup commands, in declared
/// order.
pub open spec fn send_cmds(cs: Seq<String>) -> Seq<CmdView> {
    cs.map_values(|c: String| CmdView::SendText(c@))
}

/// The command-execution block of one pane: select it, then send each of
/// its startup commands.
pub open spec fn pane_exec_cmds(p: PaneConfig, idx: int) -> Seq<CmdView> {
    seq![CmdView::SelectPane(idx)] + send_cmds(p.commands@)
}

/// The command-execution phase over all panes, in specification order.
pub open spec fn command_cmds(panes: Seq<PaneConfig>) -> Seq<CmdView>
    decreases panes.len(),
{
    if panes.len() == 0 {
        Seq::empty()
    } else {
        command_cmds(panes.drop_last()) + pane_exec_cmds(panes.last(), panes.len() - 1)
    }
}

/// The focus phase: the first pane (at or after `idx`) flagged for focus is
/// selected; later flags are ignored, and without any flag nothing is
/// issued.
pub open spec fn focus_cmds(panes: Seq<PaneConfig>, idx: int) -> Seq<CmdView>
    decreases panes.len() - idx,
{
    if idx < 0 || idx >= panes.len() {
        Seq::empty()
    } else if panes[idx].focus {
        seq![CmdView::SelectPane(idx)]
    } else {
        focus_cmds(panes, idx + 1)
    }
}

/// The whole plan of a declarative layout, over the resolved directory.
pub open spec fn layout_plan(panes: Seq<PaneConfig>, path: Seq<char>) -> Seq<CmdView> {
    seq![CmdView::SendText(cd_text(path))] + split_cmds(panes, path) + seq![
        CmdView::SelectTiledLayout,
    ] + seq![CmdView::SettleDelay] + resize_cmds(panes) + row_fix_cmds(panes, 0) + command_cmds(
        panes,
    ) + focus_cmds(panes, 0)
}

/// The split commands of the positional path: all axes by the alternating
/// default.
pub open spec fn default_split_cmds(count: int, path: Seq<char>) -> Seq<CmdView> {
    if count <= 1 {
        Seq::empty()
    } else {
        Seq::new((count - 1) as nat, |j: int| CmdView::SplitWindow(default_axis(j + 1), path))
    }
}

/// The whole plan of the positional path: anchor the invoking pane, create
/// count - 1 panes alternating axis, and arrange; no resizing, no startup
/// commands, no focus.
pub open spec fn positional_plan(count: int, path: Seq<char>) -> Seq<CmdView> {
    seq![CmdView::SendText(cd_text(path))] + default_split_cmds(count, path) + seq![
        CmdView::SelectTiledLayout,
    ]
}

/// Skipping non-candidates does not change the row-ratio correction.
proof fn lemma_row_fix_skip(panes: Seq<PaneConfig>, idx: int, k: int)
    requires
        0 <= idx <= k <= panes.len(),
        forall|t: int| idx <= t < k ==> !row_fix_candidate(#[trigger] panes[t]),
    ensures
        row_fix_cmds(panes, idx) == row_fix_cmds(panes, k),
    decreases k - idx,
{
    if idx < k {
        lemma_row_fix_skip(panes, idx + 1, k);
    }
}

/// Skipping unfocused panes does not change the focus phase.
proof fn lemma_focus_skip(panes: Seq<PaneConfig>, idx: int, k: int)
    requires
        0 <= idx <= k <= panes.len(),
        forall|t: int| idx <= t < k ==> !(#[trigger] panes[t]).focus,
    ensures
        focus_cmds(panes, idx) == focus_cmds(panes, k),
    decreases k - idx,
{
    if idx < k {
        lemma_focus_skip(panes, idx + 1, k);
    }
}

fn creation_axis_for(split: &Option<String>, order: usize) -> (r: SplitAxis)
    ensures
        r == creation_axis(*split, order as int),
{
    let alternating = if order % 2 == 1 {
        SplitAxis::Horizontal
    } else {
        SplitAxis::Vertical
    };
    match split {
        Some(s) => {
            if str_eq(s.as_str(), "horizontal") {
                SplitAxis::Vertical
            } else if str_eq(s.as_str(), "vertical") {
                SplitAxis::Horizontal
            } else {
                alternating
            }
        },
        None => alternating,
    }
}

fn resize_axis_for(split: &Option<String>, percent: bool) -> (r: ResizeAxis)
    ensures
        r == resize_axis(*split, percent),
{
    match split {
        Some(s) => {
            if str_eq(s.as_str(), "horizontal") {
                ResizeAxis::Height
            } else if str_eq(s.as_str(), "vertical") {
                ResizeAxis::Width
            } else if percent {
                ResizeAxis::Width
            } else {
                ResizeAxis::Height
            }
        },
        None => if percent {
            ResizeAxis::Width
        } else {
            ResizeAxis::Height
        },
    }
}

impl LayoutConfig {
    /// Emits one split command per pane specification beyond index 0, in
    /// order, each rooted at the resolved directory.
    pub fn create_panes(&self, base_path: &str) -> (r: Vec<TmuxCommand>)
        ensures
            cmd_views(r@) == split_cmds(self.panes@, base_path@),
    {
        let mut out: Vec<TmuxCommand> = Vec::new();
        let n = self.panes.len();
        if n <= 1 {
            proof {
                assert(cmd_views(out@) =~= split_cmds(self.panes@, base_path@));
            }
            return out;
        }
        let mut i: usize = 1;
        while i < n
            invariant
                1 <= i <= n,
                n == self.panes@.len(),
                n > 1,
                cmd_views(out@) == split_cmds(self.panes@, base_path@).subrange(0, i - 1),
            decreases n - i,
        {
            let axis = creation_axis_for(&self.panes[i].split, i);
            let ghost prev = out@;
            out.push(TmuxCommand::SplitWindow(axis, base_path.to_owned()));
            proof {
                let scs = split_cmds(self.panes@, base_path@);
                lemma_cmd_views_push(prev, out@.last());
                assert(scs[i - 1] == CmdView::SplitWindow(
                    creation_axis(self.panes@[i as int].split, i as int),
                    base_path@,
                ));
                assert(scs.subrange(0, i as int) =~= scs.subrange(0, i - 1).push(scs[i - 1]));
            }
            i = i + 1;
        }
        proof {
            let scs = split_cmds(self.panes@, base_path@);
            assert(scs.subrange(0, n - 1) =~= scs);
        }
        out
    }

    /// Applies the uniform tiled baseline arrangement, the known starting
    /// geometry that later resizes are relative to.
    pub fn arrange_layout(&self) -> (r: Vec<TmuxCommand>)
        ensures
            cmd_views(r@) == seq![CmdView::SelectTiledLayout],
    {
        let mut out: Vec<TmuxCommand> = Vec::new();
        out.push(TmuxCommand::SelectTiledLayout);
        proof {
            assert(cmd_views(out@) =~= seq![CmdView::SelectTiledLayout]);
        }
        out
    }

    /// The two resize passes, preceded by the settle delay: first each
    /// declared size is applied along its axis, then the first pane with a
    /// `horizontal` split and a percentage size has its percentage applied
    /// once more as a height adjustment.
    pub fn adjust_pane_sizes(&self) -> (r: Vec<TmuxCommand>)
        ensures
            cmd_views(r@) == seq![CmdView::SettleDelay] + resize_cmds(self.panes@) + row_fix_cmds(
                self.panes@,
                0,
            ),
    {
        let mut out: Vec<TmuxCommand> = Vec::new();
        out.push(TmuxCommand::SettleDelay);
        proof {
            assert(self.panes@.subrange(0, 0) =~= Seq::<PaneConfig>::empty());
            assert(cmd_views(out@) =~= seq![CmdView::SettleDelay] + resize_cmds(
                self.panes@.subrange(0, 0),
            ));
        }
        let n = self.panes.len();
        let mut i: usize = 0;
        while i < n
            invariant
                0 <= i <= n,
                n == self.panes@.len(),
                cmd_views(out@) == seq![CmdView::SettleDelay] + resize_cmds(
                    self.panes@.subrange(0, i as int),
                ),
            decreases n - i,
        {
            let ghost prev = out@;
            let pane = &self.panes[i];
            match &pane.size {
                None => {},
                Some(z) => {
                    let percent = has_percent_suffix(z.as_str());
                    let axis = resize_axis_for(&pane.split, percent);
                    let amount = if percent {
                        SizeAmount::Percent(strip_trailing_percent_marks(z.as_str()))
                    } else {
                        SizeAmount::Cells(parse_cells(z.as_str()))
                    };
                    out.push(TmuxCommand::ResizePane(i, axis, amount));
                    proof {
                        lemma_cmd_views_push(prev, out@.last());
                    }
                },
            }
            proof {
                let pre = self.panes@.subrange(0, i as int);
                let cur = self.panes@.subrange(0, i + 1);
                assert(cur.drop_last() =~= pre);
                assert(cur.last() == self.panes@[i as int]);
                assert(cmd_views(out@) =~= seq![CmdView::SettleDelay] + resize_cmds(cur));
            }
            i = i + 1;
        }
        proof {
            assert(self.panes@.subrange(0, n as int) =~= self.panes@);
        }
        let mut k: usize = 0;
        loop
            invariant_except_break
                0 <= k <= n,
                n == self.panes@.len(),
                cmd_views(out@) == seq![CmdView::SettleDelay] + resize_cmds(self.panes@),
                forall|t: int| 0 <= t < k ==> !row_fix_candidate(#[trigger] self.panes@[t]),
            ensures
                cmd_views(out@) == seq![CmdView::SettleDelay] + resize_cmds(self.panes@)
                    + row_fix_cmds(self.panes@, 0),
            decreases n - k,
        {
            if k >= n {
                proof {
                    lemma_row_fix_skip(self.panes@, 0, n as int);
                    assert(row_fix_cmds(self.panes@, n as int) =~= Seq::<CmdView>::empty());
                    assert(cmd_views(out@) =~= seq![CmdView::SettleDelay] + resize_cmds(
                        self.panes@,
                    ) + row_fix_cmds(self.panes@, 0));
                }
                break;
            }
            let pane = &self.panes[k];
            let is_h = match &pane.split {
                Some(s) => str_eq(s.as_str(), "horizontal"),
                None => false,
            };
            let found = is_h && match &pane.size {
                Some(z) => has_percent_suffix(z.as_str()),
                None => false,
            };
            if found {
                let ghost prev = out@;
                match &pane.size {
                    Some(z) => {
                        out.push(TmuxCommand::ResizePane(
                            k,
                            ResizeAxis::Height,
                            SizeAmount::Percent(strip_trailing_percent_marks(z.as_str())),
                        ));
                    },
                    None => {},
                }
                proof {
                    lemma_cmd_views_push(prev, out@.last());
                    lemma_row_fix_skip(self.panes@, 0, k as int);
                    assert(row_fix_candidate(self.panes@[k as int]));
                    assert(cmd_views(out@) =~= seq![CmdView::SettleDelay] + resize_cmds(
                        self.panes@,
                    ) + row_fix_cmds(self.panes@, 0));
                }
                break;
            }
            k = k + 1;
        }
        out
    }

    /// The command-execution phase: for each pane in order, select it, then
    /// send each of its startup commands in declared order.
    pub fn execute_commands(&self) -> (r: Vec<TmuxCommand>)
        ensures
            cmd_views(r@) == command_cmds(self.panes@),
    {
        let mut out: Vec<TmuxCommand> = Vec::new();
        proof {
            assert(self.panes@.subrange(0, 0) =~= Seq::<PaneConfig>::empty());
            assert(cmd_views(out@) =~= command_cmds(self.panes@.subrange(0, 0)));
        }
        let n = self.panes.len();
        let mut i: usize = 0;
        while i < n
            invariant
                0 <= i <= n,
                n == self.panes@.len(),
                cmd_views(out@) == command_cmds(self.panes@.subrange(0, i as int)),
            decreases n - i,
        {
            let ghost prev = out@;
            out.push(TmuxCommand::SelectPane(i));
            proof {
                lemma_cmd_views_push(prev, out@.last());
                assert(send_cmds(self.panes@[i as int].commands@.subrange(0, 0))
                    =~= Seq::<CmdView>::empty());
                assert(cmd_views(out@) =~= command_cmds(self.panes@.subrange(0, i as int)) + (seq![
                    CmdView::SelectPane(i as int),
                ] + send_cmds(self.panes@[i as int].commands@.subrange(0, 0))));
            }
            let cs = &self.panes[i].commands;
            let m = cs.len();
            let mut j: usize = 0;
            while j < m
                invariant
                    0 <= j <= m,
                    0 <= i < n,
                    n == self.panes@.len(),
                    m == cs@.len(),
                    cs == &self.panes[i as int].commands,
                    cmd_views(out@) == command_cmds(self.panes@.subrange(0, i as int)) + (seq![
                        CmdView::SelectPane(i as int),
                    ] + send_cmds(cs@.subrange(0, j as int))),
                decreases m - j,
            {
                let ghost prev2 = out@;
                out.push(TmuxCommand::SendText(cs[j].clone()));
                proof {
                    lemma_cmd_views_push(prev2, out@.last());
                    assert(send_cmds(cs@.subrange(0, j + 1)) =~= send_cmds(
                        cs@.subrange(0, j as int),
                    ).push(CmdView::SendText(cs@[j as int]@)));
                    assert(cmd_views(out@) =~= command_cmds(self.panes@.subrange(0, i as int))
                        + (seq![CmdView::SelectPane(i as int)] + send_cmds(
                        cs@.subrange(0, j + 1),
                    )));
                }
                j = j + 1;
            }
            proof {
                let pre = self.panes@.subrange(0, i as int);
                let cur = self.panes@.subrange(0, i + 1);
                assert(cur.drop_last() =~= pre);
                assert(cur.last() == self.panes@[i as int]);
                assert(cs@.subrange(0, m as int) =~= cs@);
                assert(cmd_views(out@) =~= command_cmds(cur));
            }
            i = i + 1;
        }
        proof {
            assert(self.panes@.subrange(0, n as int) =~= self.panes@);
        }
        out
    }

    /// The focus phase: the first pane flagged for focus is selected and
    /// the scan stops; without any flag nothing is issued.
    pub fn set_focus(&self) -> (r: Vec<TmuxCommand>)
        ensures
            cmd_views(r@) == focus_cmds(self.panes@, 0),
    {
        let mut out: Vec<TmuxCommand> = Vec::new();
        let n = self.panes.len();
        let mut k: usize = 0;
        loop
            invariant_except_break
                0 <= k <= n,
                n == self.panes@.len(),
                out@ == Seq::<TmuxCommand>::empty(),
                forall|t: int| 0 <= t < k ==> !(#[trigger] self.panes@[t]).focus,
            ensures
                cmd_views(out@) == focus_cmds(self.panes@, 0),
            decreases n - k,
        {
            if k >= n {
                proof {
                    lemma_focus_skip(self.panes@, 0, n as int);
                    assert(cmd_views(out@) =~= focus_cmds(self.panes@, 0));
                }
                break;
            }
            if self.panes[k].focus {
                let ghost prev = out@;
                out.push(TmuxCommand::SelectPane(k));
                proof {
                    lemma_cmd_views_push(prev, out@.last());
                    lemma_focus_skip(self.panes@, 0, k as int);
                    assert(cmd_views(out@) =~= focus_cmds(self.panes@, 0));
                }
                break;
            }
            k = k + 1;
        }
        out
    }

    /// The whole plan for this layout over the resolved absolute directory:
    /// anchor, create, arrange, settle, resize, execute, focus.
    pub fn command_plan(&self, resolved_dir: &str) -> (r: Vec<TmuxCommand>)
        ensures
            cmd_views(r@) == layout_plan(self.panes@, resolved_dir@),
    {
        let mut out: Vec<TmuxCommand> = Vec::new();
        let mut cd = "cd '".to_owned();
        cd.append(resolved_dir);
        cd.append("'");
        out.push(TmuxCommand::SendText(cd));
        proof {
            assert(cmd_views(out@) =~= seq![CmdView::SendText(cd_text(resolved_dir@))]);
        }
        let mut part = self.create_panes(resolved_dir);
        let ghost a1 = out@;
        let ghost b1 = part@;
        out.append(&mut part);
        proof {
            lemma_cmd_views_add(a1, b1);
        }
        let mut part = self.arrange_layout();
        let ghost a2 = out@;
        let ghost b2 = part@;
        out.append(&mut part);
        proof {
            lemma_cmd_views_add(a2, b2);
        }
        let mut part = self.adjust_pane_sizes();
        let ghost a3 = out@;
        let ghost b3 = part@;
        out.append(&mut part);
        proof {
            lemma_cmd_views_add(a3, b3);
        }
        let mut part = self.execute_commands();
        let ghost a4 = out@;
        let ghost b4 = part@;
        out.append(&mut part);
        proof {
            lemma_cmd_views_add(a4, b4);
        }
        let mut part = self.set_focus();
        let ghost a5 = out@;
        let ghost b5 = part@;
        out.append(&mut part);
        proof {
            lemma_cmd_views_add(a5, b5);
            assert(cmd_views(out@) =~= layout_plan(self.panes@, resolved_dir@));
        }
        out
    }
    /// The guarded entry of the declarative path: before any multiplexer
    /// command is issued the workspace directory must have been found and
    /// canonicalized. A missing directory fails with `DirectoryNotFound`
    /// carrying the path as written, a failed canonicalization with
    /// `PathResolutionError`; in both cases the plan is empty — no command
    /// at all is issued. A resolved directory yields the whole plan.
    pub fn checked_command_plan(&self, resolution: DirectoryResolution) -> (r: Result<
        Vec<TmuxCommand>,
        LayoutError,
    >)
        ensures
            resolution is Missing ==> (r matches Err(LayoutError::DirectoryNotFound(d)) && d@
                == self.workspace.directory@),
            resolution matches DirectoryResolution::Unresolvable(m) ==> (r matches Err(
                LayoutError::PathResolutionError(m2),
            ) && m2@ == m@),
            resolution matches DirectoryResolution::Resolved(p) ==> (r matches Ok(plan)
                && cmd_views(plan@) == layout_plan(self.panes@, p@)),
    {
        match resolution {
            DirectoryResolution::Missing => Err(
                LayoutError::DirectoryNotFound(self.workspace.directory.clone()),
            ),
            DirectoryResolution::Unresolvable(m) => Err(LayoutError::PathResolutionError(m)),
            DirectoryResolution::Resolved(p) => Ok(self.command_plan(p.as_str())),
        }
    }
}

/// The whole plan of the positional path, for a pane count of at least 1
/// and the resolved absolute directory.
pub fn positional_plan_commands(count: u32, resolved_dir: &str) -> (r: Vec<TmuxCommand>)
    requires
        count >= 1,
    ensures
        cmd_views(r@) == positional_plan(count as int, resolved_dir@),
{
    let mut out: Vec<TmuxCommand> = Vec::new();
    let mut cd = "cd '".to_owned();
    cd.append(resolved_dir);
    cd.append("'");
    out.push(TmuxCommand::SendText(cd));
    proof {
        assert(cmd_views(out@) =~= seq![CmdView::SendText(cd_text(resolved_dir@))]);
        assert(default_split_cmds(count as int, resolved_dir@).subrange(0, 0) =~= Seq::<
            CmdView,
        >::empty());
    }
    let mut i: u32 = 1;
    while i < count
        invariant
            1 <= i <= count,
            cmd_views(out@) == seq![CmdView::SendText(cd_text(resolved_dir@))]
                + default_split_cmds(count as int, resolved_dir@).subrange(0, i - 1),
        decreases count - i,
    {
        let axis = if i % 2 == 1 {
            SplitAxis::Horizontal
        } else {
            SplitAxis::Vertical
        };
        let ghost prev = out@;
        out.push(TmuxCommand::SplitWindow(axis, resolved_dir.to_owned()));
        proof {
            let dsc = default_split_cmds(count as int, resolved_dir@);
            lemma_cmd_views_push(prev, out@.last());
            assert(dsc[i - 1] == CmdView::SplitWindow(default_axis(i as int), resolved_dir@));
            assert(dsc.subrange(0, i as int) =~= dsc.subrange(0, i - 1).push(dsc[i - 1]));
            assert(cmd_views(out@) =~= seq![CmdView::SendText(cd_text(resolved_dir@))]
                + dsc.subrange(0, i as int));
        }
        i = i + 1;
    }
    let ghost prev = out@;
    out.push(TmuxCommand::SelectTiledLayout);
    proof {
        let dsc = default_split_cmds(count as int, resolved_dir@);
        lemma_cmd_views_push(prev, out@.last());
        assert(dsc.subrange(0, count - 1) =~= dsc);
        assert(cmd_views(out@) =~= positional_plan(count as int, resolved_dir@));
    }
    out
}

} // verus!
