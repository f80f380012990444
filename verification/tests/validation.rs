//! Tests for the collision checks and registry validation.

use repokit::devkit::DevKit;
use repokit::external_commands::ExternalCommands;
use repokit::interfaces::{DevKitCommand, DevKitConfig, ParsedCommand};
use repokit::internal_commands::internal_registry::InternalRegistry;
use repokit::repokit::RepoKit;
use repokit::validations::{CommandCollision, CommandValidations};

fn external(name: &str, location: &str) -> DevKitCommand {
    DevKitCommand {
        name: name.to_string(),
        location: location.to_string(),
        description: format!("{name} description"),
        owner: String::new(),
        commands: Vec::new(),
    }
}

fn root_command(name: &str) -> ParsedCommand {
    ParsedCommand {
        name: name.to_string(),
        command: format!("run {name}"),
        description: format!("{name} description"),
    }
}

fn config(commands: Vec<ParsedCommand>) -> DevKitConfig {
    DevKitConfig { project: "Acme".to_string(), workspaces: Vec::new(), commands }
}

#[test]
fn duplicate_externals_report_both_locations() {
    let validator = CommandValidations::new("/repo".to_string(), config(Vec::new()));
    let records = vec![
        external("deploy", "pkgA/Commands.ts"),
        external("test", "pkgB/Commands.ts"),
        external("deploy", "pkgC/Commands.ts"),
    ];
    match validator.collect_and_validate_externals(&records) {
        Err(CommandCollision::DuplicateExternal { name, original_location, duplicate_location }) => {
            assert_eq!(name, "deploy");
            assert_eq!(original_location, "pkgA/Commands.ts");
            assert_eq!(duplicate_location, "pkgC/Commands.ts");
        },
        _ => panic!("expected a duplicate collision"),
    }
}

#[test]
fn clean_externals_build_the_registry() {
    let validator = CommandValidations::new("/repo".to_string(), config(Vec::new()));
    let records = vec![external("deploy", "pkgA/Commands.ts"), external("test", "pkgB/Commands.ts")];
    let registry = validator.collect_and_validate_externals(&records).unwrap_or_else(|_| {
        panic!("expected success")
    });
    assert_eq!(registry.len(), 2);
    assert_eq!(registry[0].name, "deploy");
    assert_eq!(registry[1].name, "test");
}

#[test]
fn external_shadowing_a_root_command_is_fatal() {
    let validator =
        CommandValidations::new("/repo".to_string(), config(vec![root_command("build")]));
    let records = vec![external("build", "pkgA/Commands.ts")];
    match validator.collect_and_validate_externals(&records) {
        Err(CommandCollision::RootWithExternal { name, location }) => {
            assert_eq!(name, "build");
            assert_eq!(location, "pkgA/Commands.ts");
        },
        _ => panic!("expected a root collision"),
    }
}

#[test]
fn collision_is_found_whichever_collection_is_scanned_first() {
    // The same shared name is caught both by the scan that visits the
    // externals and by the standalone root-versus-external check.
    let shared_root = vec![root_command("build")];
    let shared_external = vec![external("build", "pkgA/Commands.ts")];
    let validator = CommandValidations::new("/repo".to_string(), config(shared_root.clone()));
    assert!(validator.collect_and_validate_externals(&shared_external).is_err());
    let found = ExternalCommands::detect_collisions_between_root_commands_and_externals(
        &shared_external,
        &shared_root,
    );
    assert!(found.is_some());
}

#[test]
fn root_command_shadowing_a_builtin_is_fatal() {
    let validator =
        CommandValidations::new("/repo".to_string(), config(vec![root_command("onboard")]));
    match validator.collect_and_validate_internals() {
        Err(CommandCollision::RootWithInternal { name }) => assert_eq!(name, "onboard"),
        _ => panic!("expected an internal collision"),
    }
}

#[test]
fn clean_config_builds_the_builtin_registry() {
    let validator = CommandValidations::new("/repo".to_string(), config(vec![root_command("x")]));
    let internals = validator.collect_and_validate_internals().unwrap_or_else(|_| {
        panic!("expected success")
    });
    assert_eq!(internals.len(), 5);
    assert_eq!(internals[0].get_definition().name, "onboard");
    assert_eq!(internals[4].get_definition().name, "upgrade-devkit");
}

#[test]
fn external_shadowing_a_builtin_is_fatal() {
    let registry = InternalRegistry::new("/repo".to_string(), config(Vec::new())).get_all();
    let records = vec![external("list-commands", "pkgA/Commands.ts")];
    match CommandValidations::detect_collisions_between_internals_and_externals(
        &registry, &records,
    ) {
        Some(CommandCollision::WithInternal { name, location }) => {
            assert_eq!(name, "list-commands");
            assert_eq!(location, "pkgA/Commands.ts");
        },
        _ => panic!("expected an internal collision"),
    }
}

#[test]
fn builtin_root_collision_is_rejected_before_dispatch() {
    // A name in both the built-ins and the project commands never reaches
    // routing: the combined validation fails first.
    let kit = DevKit::new("/repo".to_string(), config(vec![root_command("register-command")]));
    let records = vec![external("deploy", "pkgA/Commands.ts")];
    assert!(kit.collect_and_validate(&records).is_err());
}

#[test]
fn clean_universe_validates_end_to_end() {
    let kit = RepoKit::new("/repo".to_string(), config(vec![root_command("test")]));
    let records = vec![external("deploy", "pkgA/Commands.ts")];
    let (internals, externals) = kit.collect_and_validate(&records).unwrap_or_else(|_| {
        panic!("expected success")
    });
    assert_eq!(internals.len(), 5);
    assert_eq!(externals.len(), 1);
    assert_eq!(externals[0].name, "deploy");
}

#[test]
fn collision_reports_name_their_locations() {
    let collision = CommandCollision::DuplicateExternal {
        name: "deploy".to_string(),
        original_location: "pkgA/Commands.ts".to_string(),
        duplicate_location: "pkgC/Commands.ts".to_string(),
    };
    let report = collision.report();
    assert_eq!(report.len(), 5);
    assert_eq!(report[0], "I encountered two packages with the name deploy");
    assert_eq!(report[1], "Here's where they're located:");
    assert_eq!(report[2], "     1. pkgA/Commands.ts");
    assert_eq!(report[3], "     2. pkgC/Commands.ts");
    assert_eq!(report[4], "Please rename one of these");
}

#[test]
fn duplicate_collision_report_numbers_both_locations() {
    let second = external("deploy", "pkgC/Commands.ts");
    let report =
        CommandValidations::on_external_duplicate_collision(&second, "pkgA/Commands.ts");
    assert_eq!(report.len(), 5);
    assert_eq!(report[0], "I encountered two packages with the name deploy");
    assert_eq!(report[1], "Here's where they're located:");
    assert_eq!(report[2], "     1. pkgA/Commands.ts");
    assert_eq!(report[3], "     2. pkgC/Commands.ts");
    assert_eq!(report[4], "Please rename one of these");
}

#[test]
fn root_collision_report_names_the_config_file() {
    let offender = external("build", "pkgA/Commands.ts");
    let report = CommandValidations::on_external_root_collision(&offender);
    assert_eq!(report.len(), 4);
    assert_eq!(
        report[0],
        "I encountered a package command named build that conflicts with a command in your devkit.ts file"
    );
    assert_eq!(report[2], "pkgA/Commands.ts");
}
