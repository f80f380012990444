//! Resolution of one invocation: which collection owns the command name,
//! and what action follows.  Built-ins win over project commands, which win
//! over external commands; external commands are only consulted when the
//! first two collections miss.

use vstd::prelude::*;
use vstd::string::StrSliceExecFns;
use crate::interfaces::{contains_name, external_names, external_views, find_external,
    find_parsed, parsed_names, parsed_views, DevKitCommand, DevKitCommandView, ParsedCommand,
    ParsedCommandView};
use crate::internal_commands::internal_registry::{find_internal, internal_names, InternalCommand};
use crate::text::{join_strings, join_with, views_of};

verus! {

/// What the raw argument vector asks for.
pub enum ParsedInvocation {
    /// Fewer than two tokens: print the full merged help listing.
    Help,
    /// A command name and the arguments that follow it.
    Run { command: String, args: Vec<String> },
}

/// Splits the argument vector into the command name and its arguments.
pub fn parse_argv(argv: &Vec<String>) -> (r: ParsedInvocation)
    ensures
        match r {
            ParsedInvocation::Help => argv@.len() < 2,
            ParsedInvocation::Run { command, args } => argv@.len() >= 2 && command@ == argv@[1]@
                && args@.len() == argv@.len() - 2 && (forall|k: int|
                0 <= k < args@.len() ==> #[trigger] args@[k]@ == argv@[k + 2]@),
        },
{
    if argv.len() < 2 {
        return ParsedInvocation::Help;
    }
    let command = argv[1].clone();
    let mut args: Vec<String> = Vec::new();
    let mut k: usize = 2;
    while k < argv.len()
        invariant
            2 <= k <= argv@.len(),
            args@.len() == k - 2,
            forall|m: int| 0 <= m < args@.len() ==> #[trigger] args@[m]@ == argv@[m + 2]@,
        decreases argv@.len() - k,
    {
        args.push(argv[k].clone());
        k = k + 1;
    }
    ParsedInvocation::Run { command, args }
}

/// Where the first two collections route an invocation.
pub enum Dispatch {
    /// The name belongs to a built-in: run it with the arguments.
    RunInternal { index: usize },
    /// The name belongs to a project command: run this shell line in the
    /// project root.
    RunRoot { line: String },
    /// Neither collection owns the name: the external registry decides.
    NeedExternals,
}

/// How the external registry routes an invocation.
pub enum ExternalDispatch {
    /// No arguments followed the name: list the command's sub-commands.
    ListSubcommands { index: usize },
    /// Run this shell line in the directory holding the declaration file.
    RunSubcommand { line: String, workdir: String },
    /// The first argument names no sub-command of the matched command.
    SubcommandNotFound { index: usize, sub: String },
    /// No collection owns the name.
    CommandNotFound,
}

/// The shell line a script is run with: the script followed by the
/// remaining arguments, space-separated.
pub open spec fn shell_line(script: Seq<char>, args: Seq<Seq<char>>) -> Seq<char> {
    script + " "@ + join_with(args, " "@)
}

/// Index of the last separator of `p`, or a negative value when `p` holds
/// none.
pub open spec fn last_slash(p: Seq<char>) -> int
    decreases p.len(),
{
    if p.len() == 0 {
        -1
    } else if p[p.len() - 1] == '/' {
        p.len() - 1
    } else {
        last_slash(p.drop_last())
    }
}

/// The directory part of a plain slash-separated path: everything before
/// the last separator, or empty when there is none.
pub open spec fn parent_dir(p: Seq<char>) -> Seq<char> {
    if last_slash(p) < 0 {
        Seq::empty()
    } else {
        p.subrange(0, last_slash(p))
    }
}

/// A separator-free tail pins the last separator of the whole path.
proof fn lemma_last_slash_clean_tail(p: Seq<char>, i: int)
    requires
        0 <= i <= p.len(),
        forall|k: int| i <= k < p.len() ==> p[k] != '/',
    ensures
        last_slash(p) == last_slash(p.take(i)),
    decreases p.len() - i,
{
    if i < p.len() {
        assert(p[p.len() - 1] != '/');
        assert(p.drop_last() =~= p.take(p.len() - 1));
        lemma_last_slash_clean_tail(p.take(p.len() - 1), i);
        assert(p.take(p.len() - 1).take(i) =~= p.take(i));
    } else {
        assert(p.take(i) =~= p);
    }
}

/// The directory part of `p`, as [`parent_dir`] describes.
pub fn parent_of(p: &str) -> (r: String)
    ensures
        r@ == parent_dir(p@),
{
    let len = p.unicode_len();
    let mut i: usize = len;
    while i > 0
        invariant
            0 <= i <= len,
            len == p@.len(),
            forall|k: int| i <= k < len ==> p@[k] != '/',
        decreases i,
    {
        if p.get_char(i - 1) == '/' {
            proof {
                lemma_last_slash_clean_tail(p@, i as int);
                assert(p@.take(i as int)[i - 1] == '/');
                assert(p@.take(i as int).len() == i);
                assert(last_slash(p@.take(i as int)) == i - 1);
                assert(p@.subrange(0, i - 1) =~= parent_dir(p@));
            }
            return p.substring_char(0, i - 1).to_owned();
        }
        i = i - 1;
    }
    proof {
        lemma_last_slash_clean_tail(p@, 0);
        assert(p@.take(0) =~= Seq::<char>::empty());
        assert(last_slash(Seq::<char>::empty()) == -1);
    }
    String::new()
}

/// The arguments behind the first one.
pub fn tail_of(args: &Vec<String>) -> (r: Vec<String>)
    requires
        args@.len() > 0,
    ensures
        views_of(r@) == views_of(args@).drop_first(),
{
    let mut r: Vec<String> = Vec::new();
    let mut k: usize = 1;
    while k < args.len()
        invariant
            1 <= k <= args@.len(),
            r@.len() == k - 1,
            forall|m: int| 0 <= m < r@.len() ==> #[trigger] r@[m]@ == args@[m + 1]@,
        decreases args@.len() - k,
    {
        r.push(args[k].clone());
        k = k + 1;
    }
    proof {
        assert(views_of(r@) =~= views_of(args@).drop_first());
    }
    r
}

/// The routing contract of the first two collections: what each outcome
/// says about the name, the registries and the produced shell line.
pub open spec fn resolve_builtin_or_root(
    cfg_commands: Seq<ParsedCommandView>,
    internals: Seq<Seq<char>>,
    command: Seq<char>,
    args: Seq<Seq<char>>,
    r: Dispatch,
) -> bool {
    match r {
        Dispatch::RunInternal { index } => index < internals.len() && internals[index as int]
            == command && (forall|k: int| 0 <= k < index ==> internals[k] != command),
        Dispatch::RunRoot { line } => !contains_name(internals, command) && exists|i: int|
            0 <= i < cfg_commands.len() && #[trigger] cfg_commands[i].name == command && line@
                == shell_line(cfg_commands[i].command, args) && (forall|k: int|
                0 <= k < i ==> #[trigger] cfg_commands[k].name != command),
        Dispatch::NeedExternals => !contains_name(internals, command) && !contains_name(
            parsed_names(cfg_commands),
            command,
        ),
    }
}

/// The routing contract of the external registry.
pub open spec fn resolve_external(
    externals: Seq<DevKitCommandView>,
    command: Seq<char>,
    args: Seq<Seq<char>>,
    r: ExternalDispatch,
) -> bool {
    match r {
        ExternalDispatch::ListSubcommands { index } => args.len() == 0 && index < externals.len()
            && externals[index as int].name == command && (forall|k: int|
            0 <= k < index ==> externals[k].name != command),
        ExternalDispatch::RunSubcommand { line, workdir } => args.len() > 0 && exists|i: int|
            0 <= i < externals.len() && #[trigger] externals[i].name == command && (forall|k: int|
                0 <= k < i ==> #[trigger] externals[k].name != command) && workdir@ == parent_dir(
                externals[i].location,
            ) && exists|si: int|
                0 <= si < externals[i].commands.len() && #[trigger] externals[i].commands[si].name
                    == args[0] && line@ == shell_line(
                    externals[i].commands[si].command,
                    args.drop_first(),
                ) && (forall|k: int|
                    0 <= k < si ==> #[trigger] externals[i].commands[k].name != args[0]),
        ExternalDispatch::SubcommandNotFound { index, sub } => args.len() > 0 && index
            < externals.len() && externals[index as int].name == command && (forall|k: int|
            0 <= k < index ==> externals[k].name != command) && sub@ == args[0] && !contains_name(
            parsed_names(externals[index as int].commands),
            args[0],
        ),
        ExternalDispatch::CommandNotFound => !contains_name(external_names(externals), command),
    }
}

/// Routes against built-ins first, then project commands.
pub fn route(
    cfg_commands: &Vec<ParsedCommand>,
    internals: &Vec<InternalCommand>,
    command: &String,
    args: &Vec<String>,
) -> (r: Dispatch)
    ensures
        resolve_builtin_or_root(
            parsed_views(cfg_commands@),
            internal_names(internals@),
            command@,
            views_of(args@),
            r,
        ),
{
    match find_internal(internals, command.as_str()) {
        Some(i) => {
            proof {
                assert(forall|k: int| 0 <= k < i
                    ==> internal_names(internals@)[k] == internals@[k].name_view());
            }
            return Dispatch::RunInternal { index: i };
        },
        None => {},
    }
    match find_parsed(cfg_commands, command.as_str()) {
        Some(i) => {
            let joined = join_strings(args, " ");
            let line = cfg_commands[i].command.clone().concat(" ").concat(joined.as_str());
            proof {
                assert(parsed_views(cfg_commands@)[i as int] == cfg_commands@[i as int]@);
                assert(forall|k: int| 0 <= k < i
                    ==> parsed_views(cfg_commands@)[k] == cfg_commands@[k]@);
            }
            return Dispatch::RunRoot { line };
        },
        None => {},
    }
    proof {
        assert(forall|k: int| 0 <= k < cfg_commands@.len()
            ==> parsed_names(parsed_views(cfg_commands@))[k] == cfg_commands@[k]@.name);
    }
    Dispatch::NeedExternals
}

/// Routes against the external registry.
pub fn route_external(
    command: &String,
    args: &Vec<String>,
    externals: &Vec<DevKitCommand>,
) -> (r: ExternalDispatch)
    ensures
        resolve_external(external_views(externals@), command@, views_of(args@), r),
{
    match find_external(externals, command.as_str()) {
        Some(i) => {
            proof {
                assert(external_views(externals@)[i as int] == externals@[i as int]@);
                assert(forall|k: int| 0 <= k < i
                    ==> external_views(externals@)[k] == externals@[k]@);
            }
            if args.len() == 0 {
                return ExternalDispatch::ListSubcommands { index: i };
            }
            let sub = &args[0];
            match find_parsed(&externals[i].commands, sub.as_str()) {
                Some(si) => {
                    let rest = tail_of(args);
                    let joined = join_strings(&rest, " ");
                    let line = externals[i].commands[si].command.clone().concat(" ").concat(
                        joined.as_str(),
                    );
                    let workdir = parent_of(externals[i].location.as_str());
                    proof {
                        let ev = external_views(externals@)[i as int];
                        let sii = si as int;
                        assert(ev.commands[sii] == externals@[i as int].commands@[sii]@);
                        assert(forall|k: int| 0 <= k < si
                            ==> ev.commands[k] == externals@[i as int].commands@[k]@);
                        assert(views_of(args@)[0] == args@[0]@);
                    }
                    ExternalDispatch::RunSubcommand { line, workdir }
                },
                None => {
                    proof {
                        let cmds = externals@[i as int].commands@;
                        assert(forall|k: int| 0 <= k < cmds.len()
                            ==> parsed_names(parsed_views(cmds))[k] == cmds[k]@.name);
                        assert(views_of(args@)[0] == args@[0]@);
                    }
                    ExternalDispatch::SubcommandNotFound { index: i, sub: sub.clone() }
                },
            }
        },
        None => {
            proof {
                assert(forall|k: int| 0 <= k < externals@.len()
                    ==> external_names(external_views(externals@))[k] == externals@[k]@.name);
            }
            ExternalDispatch::CommandNotFound
        },
    }
}

} // verus!
