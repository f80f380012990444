//! Tests for invocation parsing and dispatch resolution.

use repokit::dispatch::{parent_of, parse_argv, Dispatch, ExternalDispatch, ParsedInvocation};
use repokit::interfaces::{DevKitCommand, DevKitConfig, ParsedCommand};
use repokit::internal_commands::internal_registry::InternalRegistry;
use repokit::repokit::RepoKit;

fn config(commands: Vec<ParsedCommand>) -> DevKitConfig {
    DevKitConfig { project: "Acme".to_string(), workspaces: Vec::new(), commands }
}

fn root_command(name: &str, script: &str) -> ParsedCommand {
    ParsedCommand {
        name: name.to_string(),
        command: script.to_string(),
        description: format!("{name} description"),
    }
}

fn deploy_command() -> DevKitCommand {
    DevKitCommand {
        name: "deploy".to_string(),
        location: "pkgA/Commands.ts".to_string(),
        description: "ships the package".to_string(),
        owner: "platform".to_string(),
        commands: vec![root_command("staging", "npm run deploy-staging")],
    }
}

#[test]
fn short_argument_vectors_ask_for_help() {
    assert!(matches!(parse_argv(&vec![]), ParsedInvocation::Help));
    assert!(matches!(parse_argv(&vec!["bin".to_string()]), ParsedInvocation::Help));
}

#[test]
fn argv_splits_into_command_and_arguments() {
    let argv = vec![
        "bin".to_string(),
        "deploy".to_string(),
        "staging".to_string(),
        "--flag".to_string(),
    ];
    match parse_argv(&argv) {
        ParsedInvocation::Run { command, args } => {
            assert_eq!(command, "deploy");
            assert_eq!(args, vec!["staging".to_string(), "--flag".to_string()]);
        },
        ParsedInvocation::Help => panic!("expected a run"),
    }
}

#[test]
fn builtins_win_the_route() {
    let kit = RepoKit::new("/repo".to_string(), config(vec![root_command("onboard", "x")]));
    let internals = InternalRegistry::new(kit.root.clone(), kit.configuration.clone()).get_all();
    match kit.route(&"onboard".to_string(), &Vec::new(), &internals) {
        Dispatch::RunInternal { index } => assert_eq!(index, 0),
        _ => panic!("expected the built-in"),
    }
}

#[test]
fn root_commands_shell_out_with_the_arguments_appended() {
    let kit = RepoKit::new("/repo".to_string(), config(vec![root_command("test", "npm test")]));
    let internals = InternalRegistry::new(kit.root.clone(), kit.configuration.clone()).get_all();
    let args = vec!["--watch".to_string()];
    match kit.route(&"test".to_string(), &args, &internals) {
        Dispatch::RunRoot { line } => assert_eq!(line, "npm test --watch"),
        _ => panic!("expected the project command"),
    }
}

#[test]
fn unknown_names_defer_to_the_external_registry() {
    let kit = RepoKit::new("/repo".to_string(), config(vec![root_command("test", "npm test")]));
    let internals = InternalRegistry::new(kit.root.clone(), kit.configuration.clone()).get_all();
    assert!(matches!(
        kit.route(&"deploy".to_string(), &Vec::new(), &internals),
        Dispatch::NeedExternals
    ));
}

#[test]
fn external_without_arguments_lists_subcommands() {
    let kit = RepoKit::new("/repo".to_string(), config(Vec::new()));
    let externals = vec![deploy_command()];
    match kit.route_external(&"deploy".to_string(), &Vec::new(), &externals) {
        ExternalDispatch::ListSubcommands { index } => assert_eq!(index, 0),
        _ => panic!("expected the listing"),
    }
}

#[test]
fn external_subcommand_runs_in_the_declaring_directory() {
    let kit = RepoKit::new("/repo".to_string(), config(Vec::new()));
    let externals = vec![deploy_command()];
    let args = vec!["staging".to_string(), "--flag".to_string()];
    match kit.route_external(&"deploy".to_string(), &args, &externals) {
        ExternalDispatch::RunSubcommand { line, workdir } => {
            assert_eq!(line, "npm run deploy-staging --flag");
            assert_eq!(workdir, "pkgA");
        },
        _ => panic!("expected the sub-command"),
    }
}

#[test]
fn missing_subcommand_is_reported() {
    let kit = RepoKit::new("/repo".to_string(), config(Vec::new()));
    let externals = vec![deploy_command()];
    let args = vec!["production".to_string()];
    match kit.route_external(&"deploy".to_string(), &args, &externals) {
        ExternalDispatch::SubcommandNotFound { index, sub } => {
            assert_eq!(index, 0);
            assert_eq!(sub, "production");
        },
        _ => panic!("expected the miss"),
    }
}

#[test]
fn missing_command_is_reported() {
    let kit = RepoKit::new("/repo".to_string(), config(Vec::new()));
    let externals = vec![deploy_command()];
    assert!(matches!(
        kit.route_external(&"ship".to_string(), &Vec::new(), &externals),
        ExternalDispatch::CommandNotFound
    ));
}

#[test]
fn concrete_dispatch_scenario() {
    // Root declares command "test"; pkgA declares external "deploy" with
    // sub-command "staging".
    let kit = RepoKit::new("/repo".to_string(), config(vec![root_command("test", "npm test")]));
    let (internals, externals) = kit
        .collect_and_validate(&vec![deploy_command()])
        .unwrap_or_else(|_| panic!("validation must pass"));

    // "deploy staging --flag" shells out with pkgA as working directory and
    // the remaining arguments appended.
    let args = vec!["staging".to_string(), "--flag".to_string()];
    match kit.route_external(&"deploy".to_string(), &args, &externals) {
        ExternalDispatch::RunSubcommand { line, workdir } => {
            assert_eq!(line, "npm run deploy-staging --flag");
            assert_eq!(workdir, "pkgA");
        },
        _ => panic!("expected the sub-command"),
    }

    // "test" shells out in the project root.
    match kit.route(&"test".to_string(), &Vec::new(), &internals) {
        Dispatch::RunRoot { line } => assert_eq!(line, "npm test "),
        _ => panic!("expected the project command"),
    }

    // "deploy" with no further arguments lists the sub-commands instead of
    // executing anything; the listing shows staging's description.
    match kit.route_external(&"deploy".to_string(), &Vec::new(), &externals) {
        ExternalDispatch::ListSubcommands { index } => {
            let lines = kit.log_external_command(&externals[index]);
            assert_eq!(lines[0], "Listing available commands for deploy");
            assert_eq!(lines[1], "   staging: staging description");
        },
        _ => panic!("expected the listing"),
    }
}

#[test]
fn parent_of_strips_the_last_component() {
    assert_eq!(parent_of("pkgA/Commands.ts"), "pkgA");
    assert_eq!(parent_of("a/b/c"), "a/b");
    assert_eq!(parent_of("Commands.ts"), "");
}

#[test]
fn kit_messages_name_the_offenders() {
    let kit = RepoKit::new("/repo".to_string(), config(Vec::new()));
    assert_eq!(kit.command_not_found("ship"), "I'm not aware of a command named ship");
    let lines = kit.subcommand_not_found(&deploy_command(), "production");
    assert_eq!(lines[0], "The command production was not found on deploy");
    assert_eq!(lines[1], "Here are the commands that belong to deploy");
    assert_eq!(lines[2], "   staging: staging description");
}
