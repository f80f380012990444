//! Tests for the tree-walk filter, the content probe and registry merging.

use repokit::external_commands::{ExternalCommands, RestrictDirection, WalkEntry};
use repokit::interfaces::{Command, DevKitCommand, ParsedCommand};

fn external(name: &str, location: &str) -> DevKitCommand {
    DevKitCommand {
        name: name.to_string(),
        location: location.to_string(),
        description: format!("{name} description"),
        owner: String::new(),
        commands: Vec::new(),
    }
}

#[test]
fn excluded_directory_segment_is_rejected_at_any_depth() {
    let finder = ExternalCommands::new("/repo".to_string());
    assert!(finder.black_list_dirs("/repo/node_modules/pkg/Commands.ts"));
    assert!(finder.black_list_dirs("/repo/a/b/c/node_modules/d/e/Commands.ts"));
    assert!(finder.black_list_dirs("/repo/deep/target/debug/Commands.ts"));
    assert!(!finder.black_list_dirs("/repo/pkgA/Commands.ts"));
}

#[test]
fn hidden_segments_are_rejected() {
    let finder = ExternalCommands::new("/repo".to_string());
    assert!(finder.black_list_dirs("/repo/.git/hooks/Commands.ts"));
    assert!(finder.black_list_dirs("/repo/pkg/.cache/Commands.ts"));
    assert!(finder.black_list_dirs("/repo/pkg/.hidden.ts"));
    assert!(!finder.black_list_dirs("/repo/pkg/visible.ts"));
}

#[test]
fn reserved_suffixes_are_rejected() {
    let finder = ExternalCommands::new("/repo".to_string());
    assert!(finder.black_list_dirs("/repo/yarn.lock"));
    assert!(finder.black_list_dirs("/repo/tool/internal_commands/command_template.ts"));
    assert!(!finder.black_list_dirs("/repo/tool/unlocked.ts"));
}

#[test]
fn forward_restrictions_apply_to_the_relative_path() {
    let finder = ExternalCommands::new("/repo".to_string());
    // Relative path begins with "target": rejected as a prefix.
    assert!(finder.black_list_dirs("/repo/target/x.ts"));
    // A path outside the root is taken as it stands.
    assert!(finder.black_list_dirs("node_modules/x.ts"));
}

#[test]
fn restrict_checks_the_chosen_end() {
    let tokens = vec!["pre".to_string(), "fix".to_string()];
    assert!(ExternalCommands::restrict("prelude", &tokens, RestrictDirection::Forwards));
    assert!(!ExternalCommands::restrict("include", &tokens, RestrictDirection::Forwards));
    assert!(ExternalCommands::restrict("suffix", &tokens, RestrictDirection::Backwards));
    assert!(!ExternalCommands::restrict("fixes", &tokens, RestrictDirection::Backwards));
}

#[test]
fn filter_keeps_only_candidate_files() {
    let finder = ExternalCommands::new("/repo".to_string());
    let entries = vec![
        WalkEntry { path: "/repo/pkgA/Commands.ts".to_string(), is_file: true },
        WalkEntry { path: "/repo/pkgA".to_string(), is_file: false },
        WalkEntry { path: "/repo/node_modules/dep/Commands.ts".to_string(), is_file: true },
        WalkEntry { path: "/repo/pkgB/readme.md".to_string(), is_file: true },
        WalkEntry { path: "/repo/pkgB/More.ts".to_string(), is_file: true },
        WalkEntry { path: "/repo/.git/x.ts".to_string(), is_file: true },
    ];
    let kept = finder.filter_candidates(&entries);
    assert_eq!(kept, vec!["/repo/pkgA/Commands.ts".to_string(), "/repo/pkgB/More.ts".to_string()]);
}

#[test]
fn allowed_mirrors_the_exclusion_rule() {
    let finder = ExternalCommands::new("/repo".to_string());
    let good = WalkEntry { path: "/repo/pkgA/Commands.ts".to_string(), is_file: true };
    let bad = WalkEntry { path: "/repo/node_modules/x.ts".to_string(), is_file: true };
    assert!(finder.allowed(&good));
    assert!(!finder.allowed(&bad));
}

#[test]
fn probe_recognizes_the_declaration_marker() {
    assert!(ExternalCommands::contains_marker("export default new DevKitCommand({"));
    assert!(!ExternalCommands::contains_marker("export default new Command({"));
    let declares = vec![
        "import { DevKitCommand } from 'devkit';".to_string(),
        "export default new DevKitCommand({".to_string(),
    ];
    let plain = vec!["const x = 1;".to_string(), "export default x;".to_string()];
    assert!(ExternalCommands::probe_lines(&declares));
    assert!(!ExternalCommands::probe_lines(&plain));
    assert!(!ExternalCommands::probe_lines(&Vec::new()));
}

#[test]
fn collect_instances_keeps_the_last_record_per_name() {
    let finder = ExternalCommands::new("/repo".to_string());
    let records = vec![
        external("deploy", "pkgA/Commands.ts"),
        external("test", "pkgB/Commands.ts"),
        external("deploy", "pkgC/Commands.ts"),
    ];
    let registry = finder.collect_instances(&records);
    assert_eq!(registry.len(), 2);
    assert_eq!(registry[0].name, "deploy");
    assert_eq!(registry[0].location, "pkgC/Commands.ts");
    assert_eq!(registry[1].name, "test");
}

#[test]
fn parsed_command_copies_its_source() {
    let command = Command { command: "npm test".to_string(), description: "runs tests".to_string() };
    let parsed = ParsedCommand::from("test", &command);
    assert_eq!(parsed.name, "test");
    assert_eq!(parsed.command, "npm test");
    assert_eq!(parsed.description, "runs tests");
}

#[test]
fn walking_this_crate_yields_no_candidates() {
    // The crate's own tree holds no declaration sources; the walk runs for
    // real and the filter keeps nothing.
    let finder = ExternalCommands::new(".".to_string());
    assert!(finder.find_candidates().is_empty());
}
