//! The help renderer: sorts each command collection by name and lays the
//! merged listing out as plain text lines.  Colour and printing happen
//! outside the library.

use vstd::prelude::*;
use vstd::seq_lib::to_multiset_insert;
use vstd::string::StrSliceExecFns;
use crate::executables::{ArgDocView, InternalExecutableDefinition,
    InternalExecutableDefinitionView};
use crate::interfaces::{external_views, parsed_views, DevKitCommand, DevKitCommandView,
    ParsedCommand, ParsedCommandView};
use crate::internal_commands::internal_registry::InternalCommand;
use crate::logger::Logger;
use crate::text::views_of;

verus! {

/// Lexicographic order on character sequences, by code point.
pub open spec fn str_le(a: Seq<char>, b: Seq<char>) -> bool
    decreases a.len(),
{
    if a.len() == 0 {
        true
    } else if b.len() == 0 {
        false
    } else if a[0] == b[0] {
        str_le(a.drop_first(), b.drop_first())
    } else {
        (a[0] as u32) < (b[0] as u32)
    }
}

/// Any two sequences are ordered one way or the other.
proof fn lemma_str_le_total(a: Seq<char>, b: Seq<char>)
    ensures
        str_le(a, b) || str_le(b, a),
    decreases a.len(),
{
    if a.len() > 0 && b.len() > 0 {
        if a[0] == b[0] {
            lemma_str_le_total(a.drop_first(), b.drop_first());
        } else {
            vstd::utf8::char_u32_cast(a[0], a[0] as u32);
            vstd::utf8::char_u32_cast(b[0], b[0] as u32);
            assert((a[0] as u32) != (b[0] as u32));
        }
    }
}

/// The order is transitive.
proof fn lemma_str_le_trans(a: Seq<char>, b: Seq<char>, c: Seq<char>)
    requires
        str_le(a, b),
        str_le(b, c),
    ensures
        str_le(a, c),
    decreases a.len(),
{
    if a.len() > 0 && b.len() > 0 && c.len() > 0 {
        if a[0] == b[0] && b[0] == c[0] {
            lemma_str_le_trans(a.drop_first(), b.drop_first(), c.drop_first());
        }
    }
}

/// Equal prefixes do not decide the order.
proof fn lemma_str_le_skip(a: Seq<char>, b: Seq<char>, i: int)
    requires
        0 <= i <= a.len(),
        i <= b.len(),
        forall|k: int| 0 <= k < i ==> a[k] == b[k],
    ensures
        str_le(a, b) == str_le(a.skip(i), b.skip(i)),
    decreases i,
{
    if i > 0 {
        assert(a[0] == b[0]);
        lemma_str_le_skip(a.drop_first(), b.drop_first(), i - 1);
        assert(a.drop_first().skip(i - 1) =~= a.skip(i));
        assert(b.drop_first().skip(i - 1) =~= b.skip(i));
    } else {
        assert(a.skip(0) =~= a);
        assert(b.skip(0) =~= b);
    }
}

/// Whether `a` sorts at or before `b`.
pub fn str_le_exec(a: &str, b: &str) -> (r: bool)
    ensures
        r == str_le(a@, b@),
{
    let a_len = a.unicode_len();
    let b_len = b.unicode_len();
    let mut i: usize = 0;
    while i < a_len && i < b_len
        invariant
            a_len == a@.len(),
            b_len == b@.len(),
            0 <= i <= a_len,
            i <= b_len,
            forall|k: int| 0 <= k < i ==> a@[k] == b@[k],
        decreases a_len - i,
    {
        let ca = a.get_char(i);
        let cb = b.get_char(i);
        if ca != cb {
            proof {
                lemma_str_le_skip(a@, b@, i as int);
                assert(a@.skip(i as int)[0] == a@[i as int]);
                assert(b@.skip(i as int)[0] == b@[i as int]);
            }
            return (ca as u32) < (cb as u32);
        }
        i = i + 1;
    }
    proof {
        lemma_str_le_skip(a@, b@, i as int);
        if i == a_len {
            assert(a@.skip(i as int).len() == 0);
        } else {
            assert(b@.skip(i as int).len() == 0);
            assert(a@.skip(i as int).len() > 0);
        }
    }
    a_len <= b_len
}

/// The name sequence is in ascending lexicographic order.
pub open spec fn sorted_names(names: Seq<Seq<char>>) -> bool {
    forall|a: int, b: int| 0 <= a < b < names.len() ==> str_le(names[a], names[b])
}

/// Renders the full merged help listing and the listings of its parts.
pub struct Help;

impl Help {
    /// The project commands reordered ascending by name.
    pub fn sort_root_commands(commands: &Vec<ParsedCommand>) -> (r: Vec<ParsedCommand>)
        ensures
            r@.len() == commands@.len(),
            parsed_views(r@).to_multiset() == parsed_views(commands@).to_multiset(),
            sorted_names(crate::interfaces::parsed_names(parsed_views(r@))),
    {
        let mut out: Vec<ParsedCommand> = Vec::new();
        let mut j: usize = 0;
        proof {
            assert(parsed_views(out@) =~= Seq::<ParsedCommandView>::empty());
            assert(parsed_views(commands@).take(0) =~= Seq::<ParsedCommandView>::empty());
        }
        while j < commands.len()
            invariant
                0 <= j <= commands@.len(),
                out@.len() == j,
                parsed_views(out@).to_multiset() == parsed_views(commands@).take(
                    j as int,
                ).to_multiset(),
                forall|a: int, b: int|
                    0 <= a < b < out@.len() ==> str_le(
                        #[trigger] out@[a]@.name,
                        #[trigger] out@[b]@.name,
                    ),
            decreases commands@.len() - j,
        {
            let x = commands[j].clone();
            let mut p: usize = 0;
            while p < out.len() && !str_le_exec(x.name.as_str(), out[p].name.as_str())
                invariant
                    0 <= p <= out@.len(),
                    x@ == commands@[j as int]@,
                    forall|k: int| 0 <= k < p ==> !str_le(x@.name, #[trigger] out@[k]@.name),
                decreases out@.len() - p,
            {
                p = p + 1;
            }
            let ghost before = out@;
            let ghost pos = p as int;
            out.insert(p, x);
            proof {
                broadcast use to_multiset_insert;
                broadcast use vstd::seq_lib::group_to_multiset_ensures;

                let xv = commands@[j as int]@;
                assert(parsed_views(out@) =~= parsed_views(before).insert(pos, xv));
                assert(parsed_views(before).insert(pos, xv).to_multiset() =~= parsed_views(
                    before,
                ).to_multiset().insert(xv));
                assert(parsed_views(commands@).take(j + 1) =~= parsed_views(commands@).take(
                    j as int,
                ).push(xv));
                assert(parsed_views(commands@).take(j as int).push(xv).to_multiset()
                    =~= parsed_views(commands@).take(j as int).to_multiset().insert(xv));
                assert(parsed_views(commands@).take(j + 1).to_multiset() =~= parsed_views(
                    commands@,
                ).take(j as int).to_multiset().insert(xv));
                assert forall|a: int, b: int| 0 <= a < b < out@.len() implies str_le(
                    out@[a]@.name,
                    out@[b]@.name,
                ) by {
                    if b < pos {
                        assert(out@[a] == before[a] && out@[b] == before[b]);
                    } else if a > pos {
                        assert(out@[a] == before[a - 1] && out@[b] == before[b - 1]);
                    } else if a < pos && b == pos {
                        assert(out@[a] == before[a]);
                        assert(!str_le(x@.name, before[a]@.name));
                        lemma_str_le_total(x@.name, before[a]@.name);
                    } else if a == pos && b > pos {
                        assert(out@[b] == before[b - 1]);
                        assert(pos < before.len() && str_le(x@.name, before[pos]@.name));
                        if b - 1 > pos {
                            lemma_str_le_trans(x@.name, before[pos]@.name, before[b - 1]@.name);
                        }
                    } else if a < pos && b > pos {
                        assert(out@[a] == before[a] && out@[b] == before[b - 1]);
                    }
                }
            }
            j = j + 1;
        }
        proof {
            assert(parsed_views(commands@).take(commands@.len() as int) =~= parsed_views(
                commands@,
            ));
            assert forall|a: int, b: int|
                0 <= a < b < crate::interfaces::parsed_names(parsed_views(out@)).len()
                implies str_le(
                crate::interfaces::parsed_names(parsed_views(out@))[a],
                crate::interfaces::parsed_names(parsed_views(out@))[b],
            ) by {
                assert(crate::interfaces::parsed_names(parsed_views(out@))[a] == out@[a]@.name);
                assert(crate::interfaces::parsed_names(parsed_views(out@))[b] == out@[b]@.name);
            }
        }
        out
    }

    /// The external commands reordered ascending by name.
    pub fn sort_external(commands: &Vec<DevKitCommand>) -> (r: Vec<DevKitCommand>)
        ensures
            r@.len() == commands@.len(),
            external_views(r@).to_multiset() == external_views(commands@).to_multiset(),
            forall|a: int, b: int|
                0 <= a < b < r@.len() ==> str_le(#[trigger] r@[a]@.name, #[trigger] r@[b]@.name),
    {
        let mut out: Vec<DevKitCommand> = Vec::new();
        let mut j: usize = 0;
        proof {
            assert(external_views(out@) =~= Seq::<DevKitCommandView>::empty());
            assert(external_views(commands@).take(0) =~= Seq::<DevKitCommandView>::empty());
        }
        while j < commands.len()
            invariant
                0 <= j <= commands@.len(),
                out@.len() == j,
                external_views(out@).to_multiset() == external_views(commands@).take(
                    j as int,
                ).to_multiset(),
                forall|a: int, b: int|
                    0 <= a < b < out@.len() ==> str_le(
                        #[trigger] out@[a]@.name,
                        #[trigger] out@[b]@.name,
                    ),
            decreases commands@.len() - j,
        {
            let x = commands[j].clone();
            let mut p: usize = 0;
            while p < out.len() && !str_le_exec(x.name.as_str(), out[p].name.as_str())
                invariant
                    0 <= p <= out@.len(),
                    x@ == commands@[j as int]@,
                    forall|k: int| 0 <= k < p ==> !str_le(x@.name, #[trigger] out@[k]@.name),
                decreases out@.len() - p,
            {
                p = p + 1;
            }
            let ghost before = out@;
            let ghost pos = p as int;
            out.insert(p, x);
            proof {
                broadcast use to_multiset_insert;
                broadcast use vstd::seq_lib::group_to_multiset_ensures;

                let xv = commands@[j as int]@;
                assert(external_views(out@) =~= external_views(before).insert(pos, xv));
                assert(external_views(before).insert(pos, xv).to_multiset() =~= external_views(
                    before,
                ).to_multiset().insert(xv));
                assert(external_views(commands@).take(j + 1) =~= external_views(commands@).take(
                    j as int,
                ).push(xv));
                assert(external_views(commands@).take(j as int).push(xv).to_multiset()
                    =~= external_views(commands@).take(j as int).to_multiset().insert(xv));
                assert(external_views(commands@).take(j + 1).to_multiset() =~= external_views(
                    commands@,
                ).take(j as int).to_multiset().insert(xv));
                assert forall|a: int, b: int| 0 <= a < b < out@.len() implies str_le(
                    out@[a]@.name,
                    out@[b]@.name,
                ) by {
                    if b < pos {
                        assert(out@[a] == before[a] && out@[b] == before[b]);
                    } else if a > pos {
                        assert(out@[a] == before[a - 1] && out@[b] == before[b - 1]);
                    } else if a < pos && b == pos {
                        assert(out@[a] == before[a]);
                        assert(!str_le(x@.name, before[a]@.name));
                        lemma_str_le_total(x@.name, before[a]@.name);
                    } else if a == pos && b > pos {
                        assert(out@[b] == before[b - 1]);
                        assert(pos < before.len() && str_le(x@.name, before[pos]@.name));
                        if b - 1 > pos {
                            lemma_str_le_trans(x@.name, before[pos]@.name, before[b - 1]@.name);
                        }
                    } else if a < pos && b > pos {
                        assert(out@[a] == before[a] && out@[b] == before[b - 1]);
                    }
                }
            }
            j = j + 1;
        }
        proof {
            assert(external_views(commands@).take(commands@.len() as int) =~= external_views(
                commands@,
            ));
        }
        out
    }

    /// The positions of the built-ins, reordered ascending by name.
    pub fn sort_internal(commands: &Vec<InternalCommand>) -> (r: Vec<usize>)
        ensures
            r@.len() == commands@.len(),
            forall|i: int| 0 <= i < r@.len() ==> #[trigger] r@[i] < commands@.len(),
            forall|a: int, b: int| 0 <= a < b < r@.len() ==> r@[a] != r@[b],
            forall|v: usize| v < commands@.len() ==> #[trigger] r@.contains(v),
            forall|a: int, b: int|
                0 <= a < b < r@.len() ==> str_le(
                    #[trigger] commands@[r@[a] as int].name_view(),
                    #[trigger] commands@[r@[b] as int].name_view(),
                ),
    {
        let mut out: Vec<usize> = Vec::new();
        let mut j: usize = 0;
        while j < commands.len()
            invariant
                0 <= j <= commands@.len(),
                out@.len() == j,
                forall|i: int| 0 <= i < out@.len() ==> #[trigger] out@[i] < j,
                forall|a: int, b: int| 0 <= a < b < out@.len() ==> out@[a] != out@[b],
                forall|v: usize| v < j ==> #[trigger] out@.contains(v),
                forall|a: int, b: int|
                    0 <= a < b < out@.len() ==> str_le(
                        #[trigger] commands@[out@[a] as int].name_view(),
                        #[trigger] commands@[out@[b] as int].name_view(),
                    ),
            decreases commands@.len() - j,
        {
            let name = commands[j].get_definition().name.clone();
            let mut p: usize = 0;
            while p < out.len() && !str_le_exec(
                name.as_str(),
                commands[out[p]].get_definition().name.as_str(),
            )
                invariant
                    0 <= p <= out@.len(),
                    name@ == commands@[j as int].name_view(),
                    forall|i: int| 0 <= i < out@.len() ==> #[trigger] out@[i] < j <= commands@.len(),
                    forall|k: int|
                        0 <= k < p ==> !str_le(
                            name@,
                            #[trigger] commands@[out@[k] as int].name_view(),
                        ),
                decreases out@.len() - p,
            {
                p = p + 1;
            }
            let ghost before = out@;
            let ghost pos = p as int;
            out.insert(p, j);
            proof {
                assert(out@ =~= before.insert(pos, j));
                assert forall|v: usize| v < j + 1 implies #[trigger] out@.contains(v) by {
                    if v == j {
                        assert(out@[pos] == j);
                    } else {
                        assert(before.contains(v));
                        let i0 = choose|i: int| 0 <= i < before.len() && before[i] == v;
                        if i0 < pos {
                            assert(out@[i0] == v);
                        } else {
                            assert(out@[i0 + 1] == v);
                        }
                    }
                }
                assert forall|a: int, b: int| 0 <= a < b < out@.len() implies str_le(
                    commands@[out@[a] as int].name_view(),
                    commands@[out@[b] as int].name_view(),
                ) by {
                    if b < pos {
                        assert(out@[a] == before[a] && out@[b] == before[b]);
                    } else if a > pos {
                        assert(out@[a] == before[a - 1] && out@[b] == before[b - 1]);
                    } else if a < pos && b == pos {
                        assert(out@[a] == before[a]);
                        assert(!str_le(name@, commands@[before[a] as int].name_view()));
                        lemma_str_le_total(name@, commands@[before[a] as int].name_view());
                    } else if a == pos && b > pos {
                        assert(out@[b] == before[b - 1]);
                        assert(pos < before.len() && str_le(
                            name@,
                            commands@[before[pos] as int].name_view(),
                        ));
                        if b - 1 > pos {
                            lemma_str_le_trans(
                                name@,
                                commands@[before[pos] as int].name_view(),
                                commands@[before[b - 1] as int].name_view(),
                            );
                        }
                    } else if a < pos && b > pos {
                        assert(out@[a] == before[a] && out@[b] == before[b - 1]);
                    }
                }
            }
            j = j + 1;
        }
        out
    }
}

/// `n` spaces, as a sequence.
pub open spec fn indent_seq(n: int) -> Seq<char> {
    Seq::new(n as nat, |i: int| ' ')
}

/// The header line of one command in a listing: name and description.
pub open spec fn titled_line(ind: int, name: Seq<char>, description: Seq<char>) -> Seq<char> {
    indent_seq(ind) + name + " "@ + description
}

/// One line of a sub-command or argument listing: key, colon, description.
pub open spec fn keyed_line(ind: int, key: Seq<char>, description: Seq<char>) -> Seq<char> {
    indent_seq(ind) + key + ": "@ + description
}

/// The argument lines of a built-in's help card, in order.
pub open spec fn arg_lines(args: Seq<ArgDocView>) -> Seq<Seq<char>>
    decreases args.len(),
{
    if args.len() == 0 {
        Seq::empty()
    } else {
        seq![keyed_line(6, args[0].flag, args[0].description)] + arg_lines(args.drop_first())
    }
}

/// Appending one argument appends its line.
proof fn lemma_arg_lines_push(args: Seq<ArgDocView>, a: ArgDocView)
    ensures
        arg_lines(args.push(a)) =~= arg_lines(args) + seq![
            keyed_line(6, a.flag, a.description),
        ],
    decreases args.len(),
{
    if args.len() == 0 {
        assert(args.push(a)[0] == a);
        assert(args.push(a).drop_first() =~= Seq::<ArgDocView>::empty());
        assert(arg_lines(args.push(a)) =~= seq![keyed_line(6, a.flag, a.description)]
            + arg_lines(Seq::<ArgDocView>::empty()));
        assert(arg_lines(Seq::<ArgDocView>::empty()) =~= Seq::<Seq<char>>::empty());
    } else {
        assert(args.push(a)[0] == args[0]);
        assert(args.push(a).drop_first() =~= args.drop_first().push(a));
        lemma_arg_lines_push(args.drop_first(), a);
        assert(arg_lines(args.push(a)) =~= seq![
            keyed_line(6, args[0].flag, args[0].description),
        ] + (arg_lines(args.drop_first()) + seq![keyed_line(6, a.flag, a.description)]));
    }
}

/// The listing lines of a command map, in map order.
pub open spec fn keyed_lines(ind: int, cs: Seq<ParsedCommandView>) -> Seq<Seq<char>>
    decreases cs.len(),
{
    if cs.len() == 0 {
        Seq::empty()
    } else {
        seq![keyed_line(ind, cs[0].name, cs[0].description)] + keyed_lines(ind, cs.drop_first())
    }
}

/// Appending one command appends its line.
proof fn lemma_keyed_lines_push(ind: int, cs: Seq<ParsedCommandView>, c: ParsedCommandView)
    ensures
        keyed_lines(ind, cs.push(c)) =~= keyed_lines(ind, cs) + seq![
            keyed_line(ind, c.name, c.description),
        ],
    decreases cs.len(),
{
    if cs.len() == 0 {
        assert(cs.push(c)[0] == c);
        assert(cs.push(c).drop_first() =~= Seq::<ParsedCommandView>::empty());
        assert(keyed_lines(ind, cs.push(c)) =~= seq![keyed_line(ind, c.name, c.description)]
            + keyed_lines(ind, Seq::<ParsedCommandView>::empty()));
        assert(keyed_lines(ind, Seq::<ParsedCommandView>::empty()) =~= Seq::<Seq<char>>::empty());
    } else {
        assert(cs.push(c)[0] == cs[0]);
        assert(cs.push(c).drop_first() =~= cs.drop_first().push(c));
        lemma_keyed_lines_push(ind, cs.drop_first(), c);
        assert(keyed_lines(ind, cs.push(c)) =~= seq![
            keyed_line(ind, cs[0].name, cs[0].description),
        ] + (keyed_lines(ind, cs.drop_first()) + seq![keyed_line(ind, c.name, c.description)]));
    }
}

impl Help {
    /// The help card of one built-in: its header line and one line per
    /// documented argument.
    pub fn log_internal_command(command: &InternalExecutableDefinition) -> (r: Vec<String>)
        ensures
            views_of(r@) == seq![titled_line(3, command@.name, command@.description)] + arg_lines(
                command@.args,
            ),
    {
        let mut lines: Vec<String> = Vec::new();
        let ind3 = Logger::indent(Some(3));
        proof {
            assert(ind3@ =~= indent_seq(3));
        }
        let head = ind3.concat(command.name.as_str()).concat(" ").concat(
            command.description.as_str(),
        );
        lines.push(head);
        proof {
            assert(views_of(lines@)[0] =~= titled_line(3, command@.name, command@.description));
            assert(views_of(lines@) =~= seq![titled_line(3, command@.name, command@.description)]
                + arg_lines(command@.args.take(0)));
            assert(command@.args.take(0) =~= Seq::<ArgDocView>::empty());
        }
        let ind6 = Logger::indent(Some(6));
        proof {
            assert(ind6@ =~= indent_seq(6));
        }
        let mut k: usize = 0;
        while k < command.args.len()
            invariant
                0 <= k <= command.args@.len(),
                command@.args.len() == command.args@.len(),
                ind6@ == indent_seq(6),
                views_of(lines@) == seq![titled_line(3, command@.name, command@.description)]
                    + arg_lines(command@.args.take(k as int)),
            decreases command.args@.len() - k,
        {
            let arg = &command.args[k];
            let line = ind6.clone().concat(arg.flag.as_str()).concat(": ").concat(
                arg.description.as_str(),
            );
            let ghost before = lines@;
            lines.push(line);
            proof {
                assert(command@.args[k as int] == command.args@[k as int]@);
                lemma_arg_lines_push(command@.args.take(k as int), command@.args[k as int]);
                assert(command@.args.take(k + 1) =~= command@.args.take(k as int).push(
                    command@.args[k as int],
                ));
                assert(views_of(lines@) =~= views_of(before) + seq![
                    keyed_line(
                        6,
                        command@.args[k as int].flag,
                        command@.args[k as int].description,
                    ),
                ]);
            }
            k = k + 1;
        }
        proof {
            assert(command@.args.take(command.args@.len() as int) =~= command@.args);
        }
        lines
    }

    /// The listing line of one project command.
    pub fn log_root_command(command: &ParsedCommand) -> (r: String)
        ensures
            r@ == titled_line(3, command@.name, command@.description),
    {
        let ind3 = Logger::indent(Some(3));
        proof {
            assert(ind3@ =~= indent_seq(3));
        }
        ind3.concat(command.name.as_str()).concat(" ").concat(command.description.as_str())
    }

    /// One line per entry of a command map, at the given indentation (five
    /// when unspecified).
    pub fn print_commands(map: &Vec<ParsedCommand>, indentation: Option<i32>) -> (r: Vec<String>)
        requires
            match indentation {
                Some(t) => t >= 0,
                None => true,
            },
        ensures
            views_of(r@) == keyed_lines(
                match indentation {
                    Some(t) => t as int,
                    None => 5,
                },
                parsed_views(map@),
            ),
    {
        let ind = match indentation {
            Some(t) => Logger::indent(Some(t)),
            None => Logger::indent(None),
        };
        let ghost ind_n: int = match indentation {
            Some(t) => t as int,
            None => 5,
        };
        let mut lines: Vec<String> = Vec::new();
        proof {
            assert(ind@ =~= indent_seq(ind_n));
            assert(parsed_views(map@).take(0) =~= Seq::<ParsedCommandView>::empty());
            assert(views_of(lines@) =~= keyed_lines(ind_n, parsed_views(map@).take(0)));
        }
        let mut k: usize = 0;
        while k < map.len()
            invariant
                0 <= k <= map@.len(),
                ind@ == indent_seq(ind_n),
                ind_n == (match indentation {
                    Some(t) => t as int,
                    None => 5,
                }),
                views_of(lines@) == keyed_lines(ind_n, parsed_views(map@).take(k as int)),
            decreases map@.len() - k,
        {
            let c = &map[k];
            let line = ind.clone().concat(c.name.as_str()).concat(": ").concat(
                c.description.as_str(),
            );
            let ghost before = lines@;
            lines.push(line);
            proof {
                assert(parsed_views(map@)[k as int] == map@[k as int]@);
                lemma_keyed_lines_push(
                    ind_n,
                    parsed_views(map@).take(k as int),
                    parsed_views(map@)[k as int],
                );
                assert(parsed_views(map@).take(k + 1) =~= parsed_views(map@).take(k as int).push(
                    parsed_views(map@)[k as int],
                ));
                assert(views_of(lines@) =~= views_of(before) + seq![
                    keyed_line(ind_n, map@[k as int]@.name, map@[k as int]@.description),
                ]);
            }
            k = k + 1;
        }
        proof {
            assert(parsed_views(map@).take(map@.len() as int) =~= parsed_views(map@));
        }
        lines
    }

    /// The help card of one external command: its header line and one line
    /// per sub-command.
    pub fn log_external_command(command: &DevKitCommand) -> (r: Vec<String>)
        ensures
            views_of(r@) == seq![titled_line(3, command@.name, command@.description)]
                + keyed_lines(6, command@.commands),
    {
        let mut lines: Vec<String> = Vec::new();
        let ind3 = Logger::indent(Some(3));
        proof {
            assert(ind3@ =~= indent_seq(3));
        }
        lines.push(
            ind3.concat(command.name.as_str()).concat(" ").concat(command.description.as_str()),
        );
        let subs = Help::print_commands(&command.commands, Some(6));
        let mut k: usize = 0;
        proof {
            assert(views_of(lines@) =~= seq![
                titled_line(3, command@.name, command@.description),
            ] + views_of(subs@).take(0));
        }
        while k < subs.len()
            invariant
                0 <= k <= subs@.len(),
                views_of(subs@) == keyed_lines(6, command@.commands),
                views_of(lines@) == seq![titled_line(3, command@.name, command@.description)]
                    + views_of(subs@).take(k as int),
            decreases subs@.len() - k,
        {
            let ghost before = lines@;
            lines.push(subs[k].clone());
            proof {
                assert(views_of(lines@) =~= views_of(before).push(views_of(subs@)[k as int]));
                assert(views_of(subs@).take(k + 1) =~= views_of(subs@).take(k as int).push(
                    views_of(subs@)[k as int],
                ));
            }
            k = k + 1;
        }
        proof {
            assert(views_of(subs@).take(subs@.len() as int) =~= views_of(subs@));
        }
        lines
    }
}

/// The help card of one built-in, as the full listing shows it: header,
/// argument lines, blank separator.
pub open spec fn internal_card(d: InternalExecutableDefinitionView) -> Seq<Seq<char>> {
    seq![titled_line(3, d.name, d.description)] + arg_lines(d.args) + seq![Seq::<char>::empty()]
}

/// The help cards of a run of built-ins, in order.
pub open spec fn internal_cards(ds: Seq<InternalExecutableDefinitionView>) -> Seq<Seq<char>>
    decreases ds.len(),
{
    if ds.len() == 0 {
        Seq::empty()
    } else {
        internal_card(ds[0]) + internal_cards(ds.drop_first())
    }
}

/// Appending one built-in appends its card.
proof fn lemma_internal_cards_push(
    ds: Seq<InternalExecutableDefinitionView>,
    d: InternalExecutableDefinitionView,
)
    ensures
        internal_cards(ds.push(d)) =~= internal_cards(ds) + internal_card(d),
    decreases ds.len(),
{
    if ds.len() == 0 {
        assert(ds.push(d)[0] == d);
        assert(ds.push(d).drop_first() =~= Seq::<InternalExecutableDefinitionView>::empty());
        assert(internal_cards(Seq::<InternalExecutableDefinitionView>::empty())
            =~= Seq::<Seq<char>>::empty());
    } else {
        assert(ds.push(d)[0] == ds[0]);
        assert(ds.push(d).drop_first() =~= ds.drop_first().push(d));
        lemma_internal_cards_push(ds.drop_first(), d);
        assert(internal_cards(ds.push(d)) =~= internal_card(ds[0]) + (internal_cards(
            ds.drop_first(),
        ) + internal_card(d)));
    }
}

/// The built-in section of the full listing.
pub open spec fn internal_section(ds: Seq<InternalExecutableDefinitionView>) -> Seq<Seq<char>> {
    if ds.len() == 0 {
        Seq::empty()
    } else {
        seq![Seq::<char>::empty(), "Internal Commands:"@, Seq::<char>::empty()] + internal_cards(
            ds,
        )
    }
}

/// The listing lines of a run of project commands, in order.
pub open spec fn root_lines(cs: Seq<ParsedCommandView>) -> Seq<Seq<char>>
    decreases cs.len(),
{
    if cs.len() == 0 {
        Seq::empty()
    } else {
        seq![titled_line(3, cs[0].name, cs[0].description)] + root_lines(cs.drop_first())
    }
}

/// Appending one project command appends its line.
proof fn lemma_root_lines_push(cs: Seq<ParsedCommandView>, c: ParsedCommandView)
    ensures
        root_lines(cs.push(c)) =~= root_lines(cs) + seq![titled_line(3, c.name, c.description)],
    decreases cs.len(),
{
    if cs.len() == 0 {
        assert(cs.push(c)[0] == c);
        assert(cs.push(c).drop_first() =~= Seq::<ParsedCommandView>::empty());
        assert(root_lines(Seq::<ParsedCommandView>::empty()) =~= Seq::<Seq<char>>::empty());
    } else {
        assert(cs.push(c)[0] == cs[0]);
        assert(cs.push(c).drop_first() =~= cs.drop_first().push(c));
        lemma_root_lines_push(cs.drop_first(), c);
        assert(root_lines(cs.push(c)) =~= seq![titled_line(3, cs[0].name, cs[0].description)] + (
        root_lines(cs.drop_first()) + seq![titled_line(3, c.name, c.description)]));
    }
}

/// The project-command section of the full listing.
pub open spec fn root_section(cs: Seq<ParsedCommandView>) -> Seq<Seq<char>> {
    if cs.len() == 0 {
        Seq::empty()
    } else {
        seq!["Project Level Commands:"@, Seq::<char>::empty()] + root_lines(cs) + seq![
            Seq::<char>::empty(),
        ]
    }
}

/// The help card of one external command, as the full listing shows it:
/// header, sub-command lines, blank separator.
pub open spec fn external_card(c: DevKitCommandView) -> Seq<Seq<char>> {
    seq![titled_line(3, c.name, c.description)] + keyed_lines(6, c.commands) + seq![
        Seq::<char>::empty(),
    ]
}

/// The help cards of a run of external commands, in order.
pub open spec fn external_cards(cs: Seq<DevKitCommandView>) -> Seq<Seq<char>>
    decreases cs.len(),
{
    if cs.len() == 0 {
        Seq::empty()
    } else {
        external_card(cs[0]) + external_cards(cs.drop_first())
    }
}

/// Appending one external command appends its card.
proof fn lemma_external_cards_push(cs: Seq<DevKitCommandView>, c: DevKitCommandView)
    ensures
        external_cards(cs.push(c)) =~= external_cards(cs) + external_card(c),
    decreases cs.len(),
{
    if cs.len() == 0 {
        assert(cs.push(c)[0] == c);
        assert(cs.push(c).drop_first() =~= Seq::<DevKitCommandView>::empty());
        assert(external_cards(Seq::<DevKitCommandView>::empty()) =~= Seq::<Seq<char>>::empty());
    } else {
        assert(cs.push(c)[0] == cs[0]);
        assert(cs.push(c).drop_first() =~= cs.drop_first().push(c));
        lemma_external_cards_push(cs.drop_first(), c);
        assert(external_cards(cs.push(c)) =~= external_card(cs[0]) + (external_cards(
            cs.drop_first(),
        ) + external_card(c)));
    }
}

/// The external-command section of the full listing.
pub open spec fn external_section(cs: Seq<DevKitCommandView>) -> Seq<Seq<char>> {
    if cs.len() == 0 {
        Seq::empty()
    } else {
        seq!["Package Level Commands:"@, Seq::<char>::empty()] + external_cards(cs)
    }
}

impl Help {
    /// Sorts a batch of definition records ascending by name.
    fn sort_definitions(defs: &Vec<InternalExecutableDefinition>) -> (r: Vec<
        InternalExecutableDefinition,
    >)
        ensures
            r@.len() == defs@.len(),
            r@.map_values(|d: InternalExecutableDefinition| d@).to_multiset() == defs@.map_values(
                |d: InternalExecutableDefinition| d@,
            ).to_multiset(),
            forall|a: int, b: int|
                0 <= a < b < r@.len() ==> str_le(#[trigger] r@[a]@.name, #[trigger] r@[b]@.name),
    {
        let ghost view_of = |d: InternalExecutableDefinition| d@;
        let mut out: Vec<InternalExecutableDefinition> = Vec::new();
        let mut j: usize = 0;
        proof {
            assert(out@.map_values(view_of) =~= Seq::<InternalExecutableDefinitionView>::empty());
            assert(defs@.take(0).map_values(view_of)
                =~= Seq::<InternalExecutableDefinitionView>::empty());
        }
        while j < defs.len()
            invariant
                0 <= j <= defs@.len(),
                out@.len() == j,
                view_of == (|d: InternalExecutableDefinition| d@),
                out@.map_values(view_of).to_multiset() == defs@.take(j as int).map_values(
                    view_of,
                ).to_multiset(),
                forall|a: int, b: int|
                    0 <= a < b < out@.len() ==> str_le(
                        #[trigger] out@[a]@.name,
                        #[trigger] out@[b]@.name,
                    ),
            decreases defs@.len() - j,
        {
            let x = defs[j].clone();
            let mut p: usize = 0;
            while p < out.len() && !str_le_exec(x.name.as_str(), out[p].name.as_str())
                invariant
                    0 <= p <= out@.len(),
                    x@ == defs@[j as int]@,
                    forall|k: int| 0 <= k < p ==> !str_le(x@.name, #[trigger] out@[k]@.name),
                decreases out@.len() - p,
            {
                p = p + 1;
            }
            let ghost before = out@;
            let ghost pos = p as int;
            out.insert(p, x);
            proof {
                broadcast use to_multiset_insert;
                broadcast use vstd::seq_lib::group_to_multiset_ensures;

                let xv = defs@[j as int]@;
                assert(out@.map_values(view_of) =~= before.map_values(view_of).insert(pos, xv));
                assert(before.map_values(view_of).insert(pos, xv).to_multiset() =~= before
                    .map_values(view_of).to_multiset().insert(xv));
                assert(defs@.take(j + 1).map_values(view_of) =~= defs@.take(j as int).map_values(
                    view_of,
                ).push(xv));
                assert(defs@.take(j as int).map_values(view_of).push(xv).to_multiset() =~= defs@
                    .take(j as int).map_values(view_of).to_multiset().insert(xv));
                assert forall|a: int, b: int| 0 <= a < b < out@.len() implies str_le(
                    out@[a]@.name,
                    out@[b]@.name,
                ) by {
                    if b < pos {
                        assert(out@[a] == before[a] && out@[b] == before[b]);
                    } else if a > pos {
                        assert(out@[a] == before[a - 1] && out@[b] == before[b - 1]);
                    } else if a < pos && b == pos {
                        assert(out@[a] == before[a]);
                        assert(!str_le(x@.name, before[a]@.name));
                        lemma_str_le_total(x@.name, before[a]@.name);
                    } else if a == pos && b > pos {
                        assert(out@[b] == before[b - 1]);
                        assert(pos < before.len() && str_le(x@.name, before[pos]@.name));
                        if b - 1 > pos {
                            lemma_str_le_trans(x@.name, before[pos]@.name, before[b - 1]@.name);
                        }
                    } else if a < pos && b > pos {
                        assert(out@[a] == before[a] && out@[b] == before[b - 1]);
                    }
                }
            }
            j = j + 1;
        }
        proof {
            assert(defs@.take(defs@.len() as int) =~= defs@);
        }
        out
    }

    /// The built-in section: empty for an empty registry, else a header
    /// and the cards of the built-ins sorted by name.
    pub fn log_internal_commands(internals: &Vec<InternalCommand>) -> (r: Vec<String>)
        ensures
            exists|sorted: Seq<InternalExecutableDefinitionView>|
                #![trigger internal_section(sorted)]
                sorted.to_multiset() == internals@.map_values(
                    |c: InternalCommand| c.definition_view(),
                ).to_multiset() && sorted_names(
                    sorted.map_values(|d: InternalExecutableDefinitionView| d.name),
                ) && views_of(r@) == internal_section(sorted),
    {
        let ghost def_of = |c: InternalCommand| c.definition_view();
        let mut defs: Vec<InternalExecutableDefinition> = Vec::new();
        let mut k: usize = 0;
        proof {
            assert(defs@.map_values(|d: InternalExecutableDefinition| d@)
                =~= internals@.take(0).map_values(def_of));
        }
        while k < internals.len()
            invariant
                0 <= k <= internals@.len(),
                defs@.len() == k,
                def_of == (|c: InternalCommand| c.definition_view()),
                defs@.map_values(|d: InternalExecutableDefinition| d@) == internals@.take(
                    k as int,
                ).map_values(def_of),
            decreases internals@.len() - k,
        {
            let ghost before = defs@;
            defs.push(internals[k].get_definition().clone());
            proof {
                assert(defs@[k as int]@ == internals@[k as int].definition_view());
                assert forall|m: int|
                    0 <= m < k + 1 implies defs@.map_values(
                    |d: InternalExecutableDefinition| d@,
                )[m] == #[trigger] internals@.take(k + 1).map_values(def_of)[m] by {
                    assert(internals@.take(k + 1)[m] == internals@[m]);
                    if m < k as int {
                        assert(defs@[m] == before[m]);
                        assert(before.map_values(|d: InternalExecutableDefinition| d@)[m]
                            == before[m]@);
                    }
                }
                assert(defs@.map_values(|d: InternalExecutableDefinition| d@) =~= internals@.take(
                    k + 1,
                ).map_values(def_of));
            }
            k = k + 1;
        }
        proof {
            assert(internals@.take(internals@.len() as int) =~= internals@);
        }
        let sorted = Help::sort_definitions(&defs);
        let ghost sv = sorted@.map_values(|d: InternalExecutableDefinition| d@);
        let mut lines: Vec<String> = Vec::new();
        if sorted.len() == 0 {
            proof {
                assert(views_of(lines@) =~= internal_section(sv));
                assert(sorted_names(sv.map_values(|d: InternalExecutableDefinitionView| d.name)));
            }
            return lines;
        }
        lines.push(String::new());
        lines.push("Internal Commands:".to_owned());
        lines.push(String::new());
        let ghost header = views_of(lines@);
        proof {
            assert(header =~= seq![
                Seq::<char>::empty(),
                "Internal Commands:"@,
                Seq::<char>::empty(),
            ]);
            assert(internal_cards(sv.take(0)) =~= Seq::<Seq<char>>::empty());
            assert(views_of(lines@) =~= header + internal_cards(sv.take(0)));
        }
        let mut k2: usize = 0;
        while k2 < sorted.len()
            invariant
                0 <= k2 <= sorted@.len(),
                sv == sorted@.map_values(|d: InternalExecutableDefinition| d@),
                header == seq![Seq::<char>::empty(), "Internal Commands:"@, Seq::<char>::empty()],
                views_of(lines@) == header + internal_cards(sv.take(k2 as int)),
            decreases sorted@.len() - k2,
        {
            let mut card = Help::log_internal_command(&sorted[k2]);
            let ghost before = lines@;
            let ghost card_views = views_of(card@);
            lines.append(&mut card);
            lines.push(String::new());
            proof {
                assert(sv[k2 as int] == sorted@[k2 as int]@);
                lemma_internal_cards_push(sv.take(k2 as int), sv[k2 as int]);
                assert(sv.take(k2 + 1) =~= sv.take(k2 as int).push(sv[k2 as int]));
                assert(views_of(lines@) =~= views_of(before) + card_views + seq![
                    Seq::<char>::empty(),
                ]);
                assert(card_views + seq![Seq::<char>::empty()] =~= internal_card(sv[k2 as int]));
                assert(views_of(lines@) =~= header + internal_cards(sv.take(k2 + 1)));
            }
            k2 = k2 + 1;
        }
        proof {
            assert(sv.take(sorted@.len() as int) =~= sv);
            assert(views_of(lines@) =~= internal_section(sv));
            let names = sv.map_values(|d: InternalExecutableDefinitionView| d.name);
            assert forall|a: int, b: int| 0 <= a < b < names.len() implies str_le(
                #[trigger] names[a],
                #[trigger] names[b],
            ) by {
                assert(names[a] == sorted@[a]@.name);
                assert(names[b] == sorted@[b]@.name);
            }
            assert(sorted_names(names));
        }
        lines
    }

    /// The project-command section: empty for an empty map, else a header
    /// and one line per command sorted by name.
    pub fn log_root_commands(root_commands: &Vec<ParsedCommand>) -> (r: Vec<String>)
        ensures
            exists|sorted: Seq<ParsedCommandView>|
                #![trigger root_section(sorted)]
                sorted.to_multiset() == parsed_views(root_commands@).to_multiset()
                    && sorted_names(crate::interfaces::parsed_names(sorted)) && views_of(r@)
                    == root_section(sorted),
    {
        let sorted = Help::sort_root_commands(root_commands);
        let ghost sv = parsed_views(sorted@);
        let mut lines: Vec<String> = Vec::new();
        if sorted.len() == 0 {
            proof {
                assert(views_of(lines@) =~= root_section(sv));
            }
            return lines;
        }
        lines.push("Project Level Commands:".to_owned());
        lines.push(String::new());
        let ghost header = views_of(lines@);
        proof {
            assert(header =~= seq!["Project Level Commands:"@, Seq::<char>::empty()]);
            assert(root_lines(sv.take(0)) =~= Seq::<Seq<char>>::empty());
            assert(views_of(lines@) =~= header + root_lines(sv.take(0)));
        }
        let mut k: usize = 0;
        while k < sorted.len()
            invariant
                0 <= k <= sorted@.len(),
                sv == parsed_views(sorted@),
                header == seq!["Project Level Commands:"@, Seq::<char>::empty()],
                views_of(lines@) == header + root_lines(sv.take(k as int)),
            decreases sorted@.len() - k,
        {
            let line = Help::log_root_command(&sorted[k]);
            let ghost before = lines@;
            lines.push(line);
            proof {
                assert(sv[k as int] == sorted@[k as int]@);
                lemma_root_lines_push(sv.take(k as int), sv[k as int]);
                assert(sv.take(k + 1) =~= sv.take(k as int).push(sv[k as int]));
                assert(views_of(lines@) =~= views_of(before) + seq![
                    titled_line(3, sv[k as int].name, sv[k as int].description),
                ]);
                assert(views_of(lines@) =~= header + root_lines(sv.take(k + 1)));
            }
            k = k + 1;
        }
        lines.push(String::new());
        proof {
            assert(sv.take(sorted@.len() as int) =~= sv);
            assert(views_of(lines@) =~= root_section(sv));
        }
        lines
    }

    /// The external-command section: empty for an empty registry, else a
    /// header and the cards of the commands sorted by name.
    pub fn log_external_commands(externals: &Vec<DevKitCommand>) -> (r: Vec<String>)
        ensures
            exists|sorted: Seq<DevKitCommandView>|
                #![trigger external_section(sorted)]
                sorted.to_multiset() == external_views(externals@).to_multiset() && sorted_names(
                    crate::interfaces::external_names(sorted),
                ) && views_of(r@) == external_section(sorted),
    {
        let sorted = Help::sort_external(externals);
        let ghost sv = external_views(sorted@);
        let mut lines: Vec<String> = Vec::new();
        if sorted.len() == 0 {
            proof {
                assert(views_of(lines@) =~= external_section(sv));
            }
            return lines;
        }
        lines.push("Package Level Commands:".to_owned());
        lines.push(String::new());
        let ghost header = views_of(lines@);
        proof {
            assert(header =~= seq!["Package Level Commands:"@, Seq::<char>::empty()]);
            assert(external_cards(sv.take(0)) =~= Seq::<Seq<char>>::empty());
            assert(views_of(lines@) =~= header + external_cards(sv.take(0)));
        }
        let mut k: usize = 0;
        while k < sorted.len()
            invariant
                0 <= k <= sorted@.len(),
                sv == external_views(sorted@),
                header == seq!["Package Level Commands:"@, Seq::<char>::empty()],
                views_of(lines@) == header + external_cards(sv.take(k as int)),
            decreases sorted@.len() - k,
        {
            let mut card = Help::log_external_command(&sorted[k]);
            let ghost before = lines@;
            let ghost card_views = views_of(card@);
            lines.append(&mut card);
            lines.push(String::new());
            proof {
                assert(sv[k as int] == sorted@[k as int]@);
                lemma_external_cards_push(sv.take(k as int), sv[k as int]);
                assert(sv.take(k + 1) =~= sv.take(k as int).push(sv[k as int]));
                assert(views_of(lines@) =~= views_of(before) + card_views + seq![
                    Seq::<char>::empty(),
                ]);
                assert(card_views + seq![Seq::<char>::empty()] =~= external_card(sv[k as int]));
                assert(views_of(lines@) =~= header + external_cards(sv.take(k + 1)));
            }
            k = k + 1;
        }
        proof {
            assert(sv.take(sorted@.len() as int) =~= sv);
            assert(views_of(lines@) =~= external_section(sv));
            assert forall|a: int, b: int|
                0 <= a < b < crate::interfaces::external_names(sv).len() implies str_le(
                crate::interfaces::external_names(sv)[a],
                crate::interfaces::external_names(sv)[b],
            ) by {
                assert(crate::interfaces::external_names(sv)[a] == sorted@[a]@.name);
                assert(crate::interfaces::external_names(sv)[b] == sorted@[b]@.name);
            }
        }
        lines
    }

    /// The full merged help listing: the built-in, project-command and
    /// external-command sections, in that order, each sorted by name.
    pub fn list_all(
        root_commands: &Vec<ParsedCommand>,
        internals: &Vec<InternalCommand>,
        externals: &Vec<DevKitCommand>,
    ) -> (r: Vec<String>)
        ensures
            exists|
                si: Seq<InternalExecutableDefinitionView>,
                sr: Seq<ParsedCommandView>,
                se: Seq<DevKitCommandView>,
            |
                #![trigger internal_section(si), root_section(sr), external_section(se)]
                si.to_multiset() == internals@.map_values(
                    |c: InternalCommand| c.definition_view(),
                ).to_multiset() && sorted_names(
                    si.map_values(|d: InternalExecutableDefinitionView| d.name),
                ) && sr.to_multiset() == parsed_views(root_commands@).to_multiset()
                    && sorted_names(crate::interfaces::parsed_names(sr)) && se.to_multiset()
                    == external_views(externals@).to_multiset() && sorted_names(
                    crate::interfaces::external_names(se),
                ) && views_of(r@) == internal_section(si) + root_section(sr) + external_section(
                    se,
                ),
    {
        let mut lines = Help::log_internal_commands(internals);
        let mut roots = Help::log_root_commands(root_commands);
        let mut exts = Help::log_external_commands(externals);
        let ghost v1 = views_of(lines@);
        let ghost v2 = views_of(roots@);
        let ghost v3 = views_of(exts@);
        lines.append(&mut roots);
        lines.append(&mut exts);
        proof {
            assert(views_of(lines@) =~= v1 + v2 + v3);
        }
        lines
    }
}

} // verus!
