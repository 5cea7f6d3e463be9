use tsps::commands::{ResizeAxis, SizeAmount, SplitAxis, TmuxCommand};
use tsps::config::{
    apply_layout_file, DirectoryResolution, LayoutConfig, LayoutError, PaneConfig, WorkspaceConfig,
};
use tsps::engine::positional_plan_commands;

fn pane(
    size: Option<&str>,
    split: Option<&str>,
    commands: &[&str],
    focus: bool,
) -> PaneConfig {
    PaneConfig {
        id: None,
        size: size.map(|s| s.to_string()),
        split: split.map(|s| s.to_string()),
        commands: commands.iter().map(|c| c.to_string()).collect(),
        focus,
    }
}

fn config(directory: &str, panes: Vec<PaneConfig>) -> LayoutConfig {
    LayoutConfig {
        workspace: WorkspaceConfig {
            name: "test".to_string(),
            description: None,
            directory: directory.to_string(),
        },
        panes,
    }
}

#[test]
fn positional_alternation() {
    let plan = positional_plan_commands(4, "/work");
    assert_eq!(
        plan,
        vec![
            TmuxCommand::SendText("cd '/work'".to_string()),
            TmuxCommand::SplitWindow(SplitAxis::Horizontal, "/work".to_string()),
            TmuxCommand::SplitWindow(SplitAxis::Vertical, "/work".to_string()),
            TmuxCommand::SplitWindow(SplitAxis::Horizontal, "/work".to_string()),
            TmuxCommand::SelectTiledLayout,
        ]
    );
}

#[test]
fn positional_single_pane_splits_nothing() {
    let plan = positional_plan_commands(1, "/work");
    assert_eq!(
        plan,
        vec![
            TmuxCommand::SendText("cd '/work'".to_string()),
            TmuxCommand::SelectTiledLayout,
        ]
    );
}

#[test]
fn declared_splits_invert_axis() {
    // a declared `horizontal` stacks panes (vertical-axis split) and a
    // declared `vertical` places them beside (horizontal-axis split); an
    // unrecognized declaration falls back to the alternating default
    let cfg = config(
        "/w",
        vec![
            pane(None, None, &[], false),
            pane(None, Some("horizontal"), &[], false),
            pane(None, Some("vertical"), &[], false),
            pane(None, Some("diagonal"), &[], false),
        ],
    );
    let split = cfg.create_panes("/w");
    assert_eq!(
        split,
        vec![
            TmuxCommand::SplitWindow(SplitAxis::Vertical, "/w".to_string()),
            TmuxCommand::SplitWindow(SplitAxis::Horizontal, "/w".to_string()),
            TmuxCommand::SplitWindow(SplitAxis::Horizontal, "/w".to_string()),
        ]
    );
}

#[test]
fn command_execution_one_select_per_pane() {
    let cfg = config(
        "/w",
        vec![
            pane(None, None, &["echo A"], false),
            pane(None, None, &["ls", "pwd"], false),
            pane(None, None, &[], false),
        ],
    );
    let cmds = cfg.execute_commands();
    assert_eq!(
        cmds,
        vec![
            TmuxCommand::SelectPane(0),
            TmuxCommand::SendText("echo A".to_string()),
            TmuxCommand::SelectPane(1),
            TmuxCommand::SendText("ls".to_string()),
            TmuxCommand::SendText("pwd".to_string()),
            TmuxCommand::SelectPane(2),
        ]
    );
    let selects = cmds
        .iter()
        .filter(|c| matches!(c, TmuxCommand::SelectPane(_)))
        .count();
    assert_eq!(selects, 3);
}

#[test]
fn focus_first_flag_wins() {
    let two_flags = config(
        "/w",
        vec![
            pane(None, None, &[], false),
            pane(None, None, &[], true),
            pane(None, None, &[], true),
        ],
    );
    let first_flag_only = config(
        "/w",
        vec![
            pane(None, None, &[], false),
            pane(None, None, &[], true),
            pane(None, None, &[], false),
        ],
    );
    assert_eq!(two_flags.set_focus(), vec![TmuxCommand::SelectPane(1)]);
    assert_eq!(two_flags.set_focus(), first_flag_only.set_focus());
}

#[test]
fn no_focus_flag_selects_nothing() {
    let cfg = config("/w", vec![pane(None, None, &[], false)]);
    assert_eq!(cfg.set_focus(), Vec::<TmuxCommand>::new());
}

#[test]
fn percentage_resize_axis_follows_split() {
    // 30% with a vertical split adjusts the width, with a horizontal split
    // the height; the horizontal percentage is applied again by the
    // row-ratio pass
    let vertical = config("/w", vec![pane(Some("30%"), Some("vertical"), &[], false)]);
    assert_eq!(
        vertical.adjust_pane_sizes(),
        vec![
            TmuxCommand::SettleDelay,
            TmuxCommand::ResizePane(0, ResizeAxis::Width, SizeAmount::Percent("30".to_string())),
        ]
    );
    let horizontal = config("/w", vec![pane(Some("30%"), Some("horizontal"), &[], false)]);
    assert_eq!(
        horizontal.adjust_pane_sizes(),
        vec![
            TmuxCommand::SettleDelay,
            TmuxCommand::ResizePane(0, ResizeAxis::Height, SizeAmount::Percent("30".to_string())),
            TmuxCommand::ResizePane(0, ResizeAxis::Height, SizeAmount::Percent("30".to_string())),
        ]
    );
}

#[test]
fn unparsable_fixed_size_degrades_to_default() {
    let cfg = config("/w", vec![pane(Some("abc"), Some("horizontal"), &[], false)]);
    assert_eq!(
        cfg.adjust_pane_sizes(),
        vec![
            TmuxCommand::SettleDelay,
            TmuxCommand::ResizePane(0, ResizeAxis::Height, SizeAmount::Cells(10)),
        ]
    );
}

#[test]
fn undeclared_split_percentage_adjusts_width_fixed_adjusts_height() {
    let cfg = config(
        "/w",
        vec![
            pane(Some("40%"), None, &[], false),
            pane(Some("12"), None, &[], false),
        ],
    );
    assert_eq!(
        cfg.adjust_pane_sizes(),
        vec![
            TmuxCommand::SettleDelay,
            TmuxCommand::ResizePane(0, ResizeAxis::Width, SizeAmount::Percent("40".to_string())),
            TmuxCommand::ResizePane(1, ResizeAxis::Height, SizeAmount::Cells(12)),
        ]
    );
}

#[test]
fn row_ratio_pass_skips_fixed_sizes() {
    // the row-ratio correction looks for the first pane with a horizontal
    // split and a percentage size, passing over fixed-size candidates
    let cfg = config(
        "/w",
        vec![
            pane(Some("10"), Some("horizontal"), &[], false),
            pane(Some("25%"), Some("horizontal"), &[], false),
        ],
    );
    assert_eq!(
        cfg.adjust_pane_sizes(),
        vec![
            TmuxCommand::SettleDelay,
            TmuxCommand::ResizePane(0, ResizeAxis::Height, SizeAmount::Cells(10)),
            TmuxCommand::ResizePane(1, ResizeAxis::Height, SizeAmount::Percent("25".to_string())),
            TmuxCommand::ResizePane(1, ResizeAxis::Height, SizeAmount::Percent("25".to_string())),
        ]
    );
}

#[test]
fn directory_override_replaces_declared_directory() {
    let cfg = config("/a", vec![pane(None, None, &[], false)]);
    let overridden = apply_layout_file(cfg, Some("/b".to_string()));
    assert_eq!(overridden.workspace.directory, "/b");
    assert_eq!(overridden.workspace.name, "test");
    let cfg = config("/a", vec![]);
    let untouched = apply_layout_file(cfg, None);
    assert_eq!(untouched.workspace.directory, "/a");
}

#[test]
fn end_to_end_scenario() {
    let cfg = config(
        "/tmp",
        vec![
            pane(None, None, &["echo A"], true),
            pane(Some("10"), Some("horizontal"), &["echo B"], false),
        ],
    );
    let plan = cfg.command_plan("/tmp");
    assert_eq!(
        plan,
        vec![
            TmuxCommand::SendText("cd '/tmp'".to_string()),
            TmuxCommand::SplitWindow(SplitAxis::Vertical, "/tmp".to_string()),
            TmuxCommand::SelectTiledLayout,
            TmuxCommand::SettleDelay,
            TmuxCommand::ResizePane(1, ResizeAxis::Height, SizeAmount::Cells(10)),
            TmuxCommand::SelectPane(0),
            TmuxCommand::SendText("echo A".to_string()),
            TmuxCommand::SelectPane(1),
            TmuxCommand::SendText("echo B".to_string()),
            TmuxCommand::SelectPane(0),
        ]
    );
}

#[test]
fn empty_pane_list_still_anchors_and_arranges() {
    let cfg = config("/w", vec![]);
    assert_eq!(
        cfg.command_plan("/w"),
        vec![
            TmuxCommand::SendText("cd '/w'".to_string()),
            TmuxCommand::SelectTiledLayout,
            TmuxCommand::SettleDelay,
        ]
    );
}

#[test]
fn missing_directory_issues_no_command() {
    let cfg = config("/does/not/exist", vec![pane(None, None, &["echo A"], false)]);
    let outcome = cfg.checked_command_plan(DirectoryResolution::Missing);
    match outcome {
        Err(LayoutError::DirectoryNotFound(d)) => {
            assert_eq!(d, "/does/not/exist");
        },
        _ => panic!("expected a missing-directory failure"),
    }
}

#[test]
fn unresolvable_directory_issues_no_command() {
    let cfg = config("/w", vec![]);
    let outcome = cfg.checked_command_plan(DirectoryResolution::Unresolvable(
        "permission denied".to_string(),
    ));
    match outcome {
        Err(LayoutError::PathResolutionError(m)) => {
            assert_eq!(m, "permission denied");
        },
        _ => panic!("expected a resolution failure"),
    }
}

#[test]
fn resolved_directory_yields_the_plan() {
    let cfg = config("relative", vec![pane(None, None, &[], false)]);
    let outcome = cfg.checked_command_plan(DirectoryResolution::Resolved("/abs".to_string()));
    assert_eq!(outcome.unwrap(), cfg.command_plan("/abs"));
}

#[test]
fn error_messages() {
    let missing = LayoutError::DirectoryNotFound("/a".to_string());
    assert_eq!(missing.message(), "Directory '/a' does not exist");
    let unresolved = LayoutError::PathResolutionError("looped".to_string());
    assert_eq!(unresolved.message(), "Cannot resolve path: looped");
}
