//! The data model of a layout description: a workspace and its panes.

use vstd::prelude::*;
use vstd::string::StringExecFns;

verus! {

/// A complete layout description: workspace metadata plus the ordered list
/// of pane specifications. The order of `panes` is significant: it defines
/// pane index 0..N-1 and the order of pane creation.
pub struct LayoutConfig {
    pub workspace: WorkspaceConfig,
    pub panes: Vec<PaneConfig>,
}

/// Workspace metadata: a display name, an optional informational
/// description, and the directory every pane is anchored at.
pub struct WorkspaceConfig {
    pub name: String,
    pub description: Option<String>,
    pub directory: String,
}

/// One pane specification.
///
/// `id` is cosmetic. `size` is either a percentage such as `30%` or a bare
/// integer in cell units. `split` is `horizontal` or `vertical`; when it is
/// absent (or unrecognized at creation time) an alternating default applies.
/// `commands` are sent to the pane in order after arrangement. At most one
/// pane should set `focus`; when several do, the first wins.
pub struct PaneConfig {
    pub id: Option<String>,
    pub size: Option<String>,
    pub split: Option<String>,
    pub commands: Vec<String>,
    pub focus: bool,
}

/// What the operating system said when the workspace directory was checked
/// and canonicalized: the directory does not exist, it exists but could not
/// be canonicalized (with the underlying error's text), or it resolved to
/// an absolute path.
pub enum DirectoryResolution {
    Missing,
    Unresolvable(String),
    Resolved(String),
}

/// A terminal failure of layout application before any multiplexer command
/// is issued: the workspace directory does not exist (carrying the path as
/// written), or it could not be canonicalized (carrying the underlying
/// error's text).
#[derive(Debug)]
pub enum LayoutError {
    DirectoryNotFound(String),
    PathResolutionError(String),
}

impl LayoutError {
    /// The single-line diagnostic for this failure.
    pub fn message(&self) -> (r: String)
        ensures
            self matches LayoutError::DirectoryNotFound(d) ==> r@ == "Directory '"@ + d@
                + "' does not exist"@,
            self matches LayoutError::PathResolutionError(m) ==> r@ == "Cannot resolve path: "@
                + m@,
    {
        match self {
            LayoutError::DirectoryNotFound(d) => {
                let mut t = "Directory '".to_owned();
                t.append(d.as_str());
                t.append("' does not exist");
                t
            },
            LayoutError::PathResolutionError(m) => {
                let mut t = "Cannot resolve path: ".to_owned();
                t.append(m.as_str());
                t
            },
        }
    }
}

/// Applies a command-line directory override to a freshly loaded layout:
/// when an override is given it replaces the workspace directory before the
/// layout is applied, so the declared directory is never consulted again;
/// everything else is kept as loaded.
pub fn apply_layout_file(layout: LayoutConfig, override_directory: Option<String>) -> (r:
    LayoutConfig)
    ensures
        match override_directory {
            Some(d) => {
                &&& r.workspace.directory == d
                &&& r.workspace.name == layout.workspace.name
                &&& r.workspace.description == layout.workspace.description
                &&& r.panes == layout.panes
            },
            None => r == layout,
        },
{
    match override_directory {
        Some(d) => {
            let mut updated = layout;
            updated.workspace.directory = d;
            updated
        },
        None => layout,
    }
}

} // verus!
