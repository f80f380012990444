//! Tests for the help renderer and the built-in registry.

use repokit::executables::{ArgDoc, InternalExecutableDefinition};
use repokit::interfaces::{DevKitCommand, DevKitConfig, ParsedCommand};
use repokit::internal_commands::help::Help;
use repokit::internal_commands::internal_registry::InternalRegistry;
use repokit::internal_commands::onboarder::Onboarder;

fn config() -> DevKitConfig {
    DevKitConfig { project: "Acme".to_string(), workspaces: Vec::new(), commands: Vec::new() }
}

fn root_command(name: &str) -> ParsedCommand {
    ParsedCommand {
        name: name.to_string(),
        command: format!("run {name}"),
        description: format!("{name} description"),
    }
}

fn external(name: &str) -> DevKitCommand {
    DevKitCommand {
        name: name.to_string(),
        location: format!("{name}/Commands.ts"),
        description: format!("{name} description"),
        owner: String::new(),
        commands: vec![root_command("sub")],
    }
}

#[test]
fn registry_holds_the_five_builtins() {
    let registry = InternalRegistry::new("/repo".to_string(), config()).get_all();
    let names: Vec<&str> =
        registry.iter().map(|c| c.get_definition().name.as_str()).collect();
    assert_eq!(
        names,
        vec!["onboard", "list-commands", "locate-command", "register-command", "upgrade-devkit"]
    );
}

#[test]
fn root_commands_sort_by_name() {
    let commands = vec![root_command("zeta"), root_command("alpha"), root_command("midd")];
    let sorted = Help::sort_root_commands(&commands);
    let names: Vec<&str> = sorted.iter().map(|c| c.name.as_str()).collect();
    assert_eq!(names, vec!["alpha", "midd", "zeta"]);
}

#[test]
fn externals_sort_by_name() {
    let commands = vec![external("ship"), external("audit"), external("deploy")];
    let sorted = Help::sort_external(&commands);
    let names: Vec<&str> = sorted.iter().map(|c| c.name.as_str()).collect();
    assert_eq!(names, vec!["audit", "deploy", "ship"]);
}

#[test]
fn builtins_sort_by_name_through_indices() {
    let registry = InternalRegistry::new("/repo".to_string(), config()).get_all();
    let order = Help::sort_internal(&registry);
    let names: Vec<&str> =
        order.iter().map(|&i| registry[i].get_definition().name.as_str()).collect();
    assert_eq!(
        names,
        vec!["list-commands", "locate-command", "onboard", "register-command", "upgrade-devkit"]
    );
}

#[test]
fn internal_card_lists_name_and_arguments() {
    let definition = InternalExecutableDefinition {
        name: "locate-command".to_string(),
        description: "Locates command definitions".to_string(),
        args: vec![ArgDoc {
            flag: "<name>".to_string(),
            description: "The name of a registered command".to_string(),
        }],
    };
    let lines = Help::log_internal_command(&definition);
    assert_eq!(lines.len(), 2);
    assert_eq!(lines[0], "   locate-command Locates command definitions");
    assert_eq!(lines[1], "      <name>: The name of a registered command");
}

#[test]
fn command_map_lines_use_the_requested_indentation() {
    let map = vec![root_command("staging")];
    let lines = Help::print_commands(&map, Some(3));
    assert_eq!(lines, vec!["   staging: staging description".to_string()]);
    let default_indent = Help::print_commands(&map, None);
    assert_eq!(default_indent, vec!["     staging: staging description".to_string()]);
}

#[test]
fn external_card_lists_subcommands() {
    let lines = Help::log_external_command(&external("deploy"));
    assert_eq!(lines.len(), 2);
    assert_eq!(lines[0], "   deploy deploy description");
    assert_eq!(lines[1], "      sub: sub description");
}

#[test]
fn sections_are_headed_and_sorted() {
    let roots = vec![root_command("zeta"), root_command("alpha")];
    let lines = Help::log_root_commands(&roots);
    assert_eq!(lines[0], "Project Level Commands:");
    assert_eq!(lines[1], "");
    assert_eq!(lines[2], "   alpha alpha description");
    assert_eq!(lines[3], "   zeta zeta description");
    assert_eq!(lines[4], "");
    assert!(Help::log_root_commands(&Vec::new()).is_empty());
    assert!(Help::log_external_commands(&Vec::new()).is_empty());
    assert!(Help::log_internal_commands(&Vec::new()).is_empty());
}

#[test]
fn full_listing_concatenates_the_sections() {
    let registry = InternalRegistry::new("/repo".to_string(), config()).get_all();
    let roots = vec![root_command("test")];
    let externals = vec![external("deploy")];
    let lines = Help::list_all(&roots, &registry, &externals);
    let text: Vec<&str> = lines.iter().map(|l| l.as_str()).collect();
    assert_eq!(text[0], "");
    assert_eq!(text[1], "Internal Commands:");
    assert!(text.contains(&"Project Level Commands:"));
    assert!(text.contains(&"Package Level Commands:"));
    assert!(text.contains(&"   test test description"));
    assert!(text.contains(&"   deploy deploy description"));
    // Built-ins come sorted; the first card is list-commands.
    assert_eq!(text[3], "   list-commands List commands based on their scope of definition");
}

#[test]
fn onboarding_text_is_complete() {
    let onboarder = Onboarder::new("/repo".to_string(), config());
    let lines = onboarder.run();
    assert_eq!(lines.len(), 8);
    assert_eq!(lines[0], "Welcome to Devkit");
    assert_eq!(lines[3], "devkit register-command ./path/to/your-feature");
    assert_eq!(lines[7], "It's your living source of knowledge and documentation");
}
