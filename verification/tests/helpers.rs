//! Tests for the string utilities, path construction, subprocess decoding
//! and the smaller built-ins.

use repokit::configuration::Configuration;
use repokit::executor::Executor;
use repokit::interfaces::{DevKitCommand, DevKitConfig, ParsedCommand};
use repokit::internal_commands::list_commands::{ListCommands, ListScope};
use repokit::internal_commands::list_owners::ListOwners;
use repokit::internal_commands::locate_command::{LocateCommand, LocateOutcome};
use repokit::internal_commands::register_command::RegisterCommand;
use repokit::internal_commands::typescript_command::TypescriptCommand;
use repokit::internal_commands::upgrade_devkit::{package_managers, select_manager, UpgradeDevKit};
use repokit::internal_commands::upgrade_repokit::UpgradeRepoKit;
use repokit::internal_filesystem::{join_path, InternalFileSystem};
use repokit::logger::Logger;
use repokit::text::{eq_str, join_strings, spaces, str_contains, str_has_dotted_segment,
    str_has_prefix, str_has_segment, str_has_suffix};

fn config() -> DevKitConfig {
    DevKitConfig { project: "Acme".to_string(), workspaces: Vec::new(), commands: Vec::new() }
}

fn owned(name: &str, owner: &str) -> DevKitCommand {
    DevKitCommand {
        name: name.to_string(),
        location: format!("{name}/Commands.ts"),
        description: format!("{name} description"),
        owner: owner.to_string(),
        commands: Vec::new(),
    }
}

#[test]
fn string_utilities_behave() {
    assert!(eq_str("same", "same"));
    assert!(!eq_str("same", "sane"));
    assert!(str_has_prefix("prelude", "pre"));
    assert!(!str_has_prefix("pre", "prelude"));
    assert!(str_has_suffix("yarn.lock", ".lock"));
    assert!(!str_has_suffix("lockfile", ".lock"));
    assert!(str_contains("a needle here", "needle"));
    assert!(!str_contains("nothing", "needle"));
    assert!(str_contains("anything", ""));
}

#[test]
fn segment_checks_respect_boundaries() {
    assert!(str_has_segment("a/node_modules/b", "node_modules"));
    assert!(!str_has_segment("a/node_modules_fork/b", "node_modules"));
    assert!(str_has_segment("target", "target"));
    assert!(!str_has_segment("retarget/x", "target"));
    assert!(str_has_dotted_segment(".git/x"));
    assert!(str_has_dotted_segment("a/.cache/x"));
    assert!(!str_has_dotted_segment("a/ca.che/x"));
}

#[test]
fn join_and_spaces_build_expected_text() {
    let parts = vec!["a".to_string(), "b".to_string(), "c".to_string()];
    assert_eq!(join_strings(&parts, ","), "a,b,c");
    assert_eq!(join_strings(&Vec::new(), ","), "");
    assert_eq!(join_strings(&vec!["only".to_string()], " "), "only");
    assert_eq!(spaces(3), "   ");
    assert_eq!(spaces(0), "");
}

#[test]
fn paths_are_joined_and_normalized() {
    assert_eq!(join_path("/a/b", "c"), "/a/b/c");
    assert_eq!(join_path("/a/b/", "c"), "/a/b/c");
    assert_eq!(join_path("/a/b", "/abs"), "/abs");
    assert_eq!(join_path("", "c"), "c");
    // Normalization collapses up-level references: the result differs from
    // the joined input.
    assert_eq!(InternalFileSystem::absolute("/a/b", "../c"), "/a/c");
    assert_eq!(InternalFileSystem::absolute("/tool", "./src/commands"), "/tool/src/commands");
    assert_eq!(
        InternalFileSystem::resolve_command("/tool", "parse_commands.ts"),
        "/tool/src/commands/parse_commands.ts"
    );
    assert_eq!(
        InternalFileSystem::resolve_template("/tool", "configuration_template.ts"),
        "/tool/src/templates/configuration_template.ts"
    );
}

#[test]
fn interpreter_invocations_are_assembled() {
    let bridge = TypescriptCommand::new("/repo".to_string());
    assert_eq!(bridge.commands_dir(), "/repo/src/commands");
    assert_eq!(
        bridge.parse_configuration_invocation(),
        "npx tsx /repo/src/commands/parse_configuration.ts --root /repo"
    );
    let paths = vec!["/repo/a/Commands.ts".to_string(), "/repo/b/More.ts".to_string()];
    assert_eq!(
        bridge.parse_commands_invocation(&paths),
        "npx tsx /repo/src/commands/parse_commands.ts --paths /repo/a/Commands.ts,/repo/b/More.ts --root /repo"
    );
}

#[test]
fn subprocess_output_is_decoded_and_trimmed() {
    assert_eq!(Executor::unwrap(&b"  hello world \n".to_vec()), Some("hello world".to_string()));
    assert_eq!(Executor::unwrap(&b"".to_vec()), Some(String::new()));
    assert_eq!(Executor::unwrap(&vec![0xff, 0xfe]), None);
}

#[test]
fn scaffolding_is_decided_by_empty_output() {
    assert!(Configuration::needs_scaffold(""));
    assert!(!Configuration::needs_scaffold("{\"project\":\"Acme\"}"));
    assert_eq!(Configuration::config_path("/repo"), "/repo/repokit.ts");
    let welcome = Configuration::welcome();
    assert_eq!(welcome[0], "Welcome to Repokit! Let's get you setup");
}

#[test]
fn logger_builds_prefixes_and_indentation() {
    let mut logger = Logger::new();
    assert_eq!(logger.info_prefix(), "Devkit: ");
    logger.set_name("Acme");
    assert_eq!(logger.info_prefix(), "Acme: ");
    assert_eq!(logger.error_prefix(), "Acme: ");
    assert_eq!(Logger::indent(None), "     ");
    assert_eq!(Logger::indent(Some(3)), "   ");
    assert_eq!(Logger::indent(Some(0)), "");
}

#[test]
fn scope_resolution_folds_case() {
    let lister = ListCommands::new("/repo".to_string(), config());
    assert!(matches!(lister.resolve_scope(&Vec::new()), ListScope::Invalid));
    assert!(matches!(lister.resolve_scope(&vec!["INTERNAL".to_string()]), ListScope::Internal));
    assert!(matches!(lister.resolve_scope(&vec!["Root".to_string()]), ListScope::Root));
    assert!(matches!(
        lister.resolve_scope(&vec!["registered".to_string()]),
        ListScope::Registered
    ));
    assert!(matches!(lister.resolve_scope(&vec!["platform".to_string()]), ListScope::Owner));
}

#[test]
fn owner_filter_matches_case_insensitively() {
    let lister = ListCommands::new("/repo".to_string(), config());
    let registered = vec![owned("deploy", "Platform Team"), owned("test", "QA")];
    let matches = lister.filter_by_owner(&registered, "platform");
    assert_eq!(matches.len(), 1);
    assert_eq!(matches[0].name, "deploy");
    let none = lister.filter_by_owner(&registered, "marketing");
    assert!(none.is_empty());
}

#[test]
fn owners_are_deduplicated_and_ordered() {
    let lister = ListOwners::new("/repo".to_string(), config());
    let registered = vec![
        owned("a", "team-10"),
        owned("b", "team-2"),
        owned("c", "team-10"),
        owned("d", ""),
    ];
    // Alphanumeric ordering puts team-2 before team-10.
    let owners = lister.run(&registered).unwrap_or_else(|| panic!("owners exist"));
    assert_eq!(owners, vec!["team-2".to_string(), "team-10".to_string()]);
    assert!(lister.run(&vec![owned("d", "")]).is_none());
}

#[test]
fn locate_searches_externals_then_root() {
    let mut cfg = config();
    cfg.commands.push(ParsedCommand {
        name: "build".to_string(),
        command: "make".to_string(),
        description: "builds".to_string(),
    });
    let locator = LocateCommand::new("/repo".to_string(), cfg);
    let externals = vec![owned("deploy", "platform")];
    match locator.run(&vec!["deploy".to_string()], &externals) {
        LocateOutcome::External { location } => assert_eq!(location, "deploy/Commands.ts"),
        _ => panic!("expected the external"),
    }
    match locator.run(&vec!["build".to_string()], &externals) {
        LocateOutcome::Root { location } => assert_eq!(location, "/repo/devkit.ts"),
        _ => panic!("expected the root"),
    }
    match locator.run(&vec!["ship".to_string()], &externals) {
        LocateOutcome::NotFound { name } => assert_eq!(name, "ship"),
        _ => panic!("expected the miss"),
    }
    assert!(matches!(locator.run(&Vec::new(), &externals), LocateOutcome::MissingName));
}

#[test]
fn package_manager_detection_takes_the_first_lock_file() {
    let managers = package_managers();
    assert_eq!(managers.len(), 4);
    assert_eq!(managers[0].name, "npm");
    assert_eq!(managers[3].lock_file, "bun.lockb");
    assert_eq!(select_manager(&vec![false, true, true, false]), Some(1));
    assert_eq!(select_manager(&vec![false, false, false, false]), None);
    let upgrader = UpgradeDevKit::new("/repo".to_string(), config());
    assert_eq!(upgrader.lock_path("yarn.lock"), "/repo/yarn.lock");
    assert_eq!(UpgradeDevKit::upgrade_line("yarn add -D"), "yarn add -D @devkit/cli@latest");
    let repo_upgrader = UpgradeRepoKit::new("/repo".to_string(), config());
    assert_eq!(repo_upgrader.lock_path("bun.lockb"), "/repo/bun.lockb");
    assert_eq!(UpgradeRepoKit::upgrade_line("npm i -D"), "npm i -D @repokit/core@latest");
}

#[test]
fn register_command_prepares_paths_and_messages() {
    let register = RegisterCommand::new("/repo".to_string(), config());
    assert_eq!(register.target_directory("tools/deploy"), "/repo/tools/deploy");
    assert_eq!(register.target_directory("tools/../deploy"), "/repo/deploy");
    assert_eq!(
        RegisterCommand::command_file_path("/repo/tools/deploy"),
        "/repo/tools/deploy/Commands.ts"
    );
    assert_eq!(RegisterCommand::template_path(), "src/internal_commands/command_template.ts");
    assert_eq!(
        RegisterCommand::creating_path_message("tools/deploy"),
        "Creating the path tools/deploy in your file system"
    );
    let (first, second) = RegisterCommand::already_exists_messages();
    assert_eq!(first, "A Commands.ts file already exists in this directory");
    assert!(second.contains("DevKitCommand"));
}
