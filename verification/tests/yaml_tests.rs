use serde_yaml::Value;
use tsps::config::{LayoutConfig, PaneConfig, WorkspaceConfig};

// The library's configuration types carry no deserialization derives, so
// these tests read the documents through `serde_yaml::Value` and build the
// configuration by hand, as the surrounding program does.

fn string_at(v: &Value, key: &str) -> Option<String> {
    v.get(key).and_then(|s| s.as_str()).map(|s| s.to_string())
}

fn parse_layout(text: &str) -> LayoutConfig {
    let doc: Value = serde_yaml::from_str(text).unwrap();
    let workspace = &doc["workspace"];
    let panes = doc["panes"].as_sequence().unwrap();
    LayoutConfig {
        workspace: WorkspaceConfig {
            name: string_at(workspace, "name").unwrap(),
            description: string_at(workspace, "description"),
            directory: string_at(workspace, "directory").unwrap(),
        },
        panes: panes
            .iter()
            .map(|p| PaneConfig {
                id: string_at(p, "id"),
                size: string_at(p, "size"),
                split: string_at(p, "split"),
                commands: p
                    .get("commands")
                    .and_then(|c| c.as_sequence())
                    .map(|c| {
                        c.iter()
                            .map(|s| s.as_str().unwrap().to_string())
                            .collect()
                    })
                    .unwrap_or_default(),
                focus: p.get("focus").and_then(|f| f.as_bool()).unwrap_or(false),
            })
            .collect(),
    }
}

#[test]
fn test_yaml_parsing() {
    let yaml_content = r#"
workspace:
  name: "test-layout"
  description: "Test layout for development"
  directory: "/tmp"

panes:
  - id: "editor"
    commands:
      - "echo 'Editor pane'"
    focus: true
  - id: "terminal"
    split: "horizontal"
    commands:
      - "echo 'Terminal pane'"
"#;

    let config = parse_layout(yaml_content);
    assert_eq!(config.workspace.name, "test-layout");
    assert_eq!(config.panes.len(), 2);
    assert!(config.panes[0].focus);
}

#[test]
fn test_yaml_parsing_with_size() {
    let yaml_content = r#"
workspace:
  name: "test-layout-with-size"
  description: "Test layout with size specification"
  directory: "/tmp"

panes:
  - id: "main"
    commands:
      - "echo 'Main pane'"
    focus: true
  - id: "sidebar"
    split: "vertical"
    size: "30%"
    commands:
      - "echo 'Sidebar pane'"
  - id: "bottom"
    split: "horizontal"
    size: "10"
    commands:
      - "echo 'Bottom pane'"
"#;

    let config = parse_layout(yaml_content);
    assert_eq!(config.workspace.name, "test-layout-with-size");
    assert_eq!(config.panes.len(), 3);
    assert!(config.panes[0].focus);
    assert_eq!(config.panes[1].size, Some("30%".to_string()));
    assert_eq!(config.panes[2].size, Some("10".to_string()));
}
