//! What the internal commands show: the details of one command, and the
//! listing of all commands by kind.

use crate::commands::Action;
use crate::commands::ExecuteView;
use crate::context::fields_object;
use crate::context::groups_object;
use crate::context::Fields;
use crate::context::Groups;
use crate::context::Records;
use crate::context::Json;
use crate::error::CommandErrorView;
use crate::metadata::kind_name;
use crate::metadata::lemma_kind_names_differ;
use crate::metadata::CommandKind;
use crate::metadata::Table;
use crate::text::joined;
use vstd::prelude::*;

verus! {

/// The text of an optional field, or `otherwise` where it is absent.
pub open spec fn text_or(text: Option<Seq<char>>, otherwise: Seq<char>) -> Seq<char> {
    match text {
        Some(text) => text,
        None => otherwise,
    }
}

/// The details shown for a command name: its kind and description, with the
/// URL of a redirect or the target of an alias; for a name that the table
/// does not hold, `unknown` twice.
pub open spec fn command_details(table: Table, command: Seq<char>) -> Fields {
    if table.contains_key(command) {
        let entry = table[command];
        let common = map!["type"@ => kind_name(entry.kind), "description"@ => entry.description];
        match entry.kind {
            CommandKind::Redirect => common.insert("url"@, text_or(entry.url, "unknown url"@)),
            CommandKind::Alias => common.insert("target"@, text_or(entry.target, "unknown target"@)),
            CommandKind::Internal => common,
        }
    } else {
        map!["type"@ => "unknown"@, "description"@ => "unknown"@]
    }
}

/// The commands of one kind, each with its details.
pub open spec fn commands_of_kind(table: Table, kind: CommandKind) -> Records {
    Map::new(
        |command: Seq<char>| table.contains_key(command) && table[command].kind == kind,
        |command: Seq<char>| command_details(table, command),
    )
}

/// Whether `group` is the display name of the kind of some command.
pub open spec fn is_group(table: Table, group: Seq<char>) -> bool {
    exists|command: Seq<char>| table.contains_key(command) && kind_name(table[command].kind) == group
}

/// Every command of the table with its details, grouped by the display name
/// of its kind. A kind without commands has no group.
pub open spec fn command_listing(table: Table) -> Groups {
    Map::new(
        |group: Seq<char>| is_group(table, group),
        |group: Seq<char>|
            Map::new(
                |command: Seq<char>| table.contains_key(command) && kind_name(table[command].kind) == group,
                |command: Seq<char>| command_details(table, command),
            ),
    )
}

/// What the internal command `command` yields for the arguments.
pub open spec fn internal_outcome(table: Table, command: Seq<char>, args: Seq<Seq<char>>) -> Result<
    ExecuteView,
    CommandErrorView,
> {
    if command == "echo"@ {
        Ok(
            ExecuteView {
                action: Action::Render,
                data: map!["echo"@ => Json::Text("true"@), "args"@ => Json::Text(joined(args))],
            },
        )
    } else if command == "list"@ {
        if args.len() > 0 {
            Ok(
                ExecuteView {
                    action: Action::Render,
                    data: map![
                        "command"@ => Json::Text(args[0]),
                        "data"@ => fields_object(command_details(table, args[0]))
                    ],
                },
            )
        } else {
            Ok(
                ExecuteView {
                    action: Action::Render,
                    data: map!["commands_list"@ => groups_object(command_listing(table))],
                },
            )
        }
    } else {
        Err(CommandErrorView::UnimplementedInternalCommand(command))
    }
}

/// The groups with the commands of `kind` added, where there are any.
pub(crate) open spec fn with_kind(groups: Groups, table: Table, kind: CommandKind) -> Groups {
    if commands_of_kind(table, kind) == Records::empty() {
        groups
    } else {
        groups.insert(kind_name(kind), commands_of_kind(table, kind))
    }
}

/// The listing holds the commands of each kind that has any, under the
/// kind's name.
pub(crate) proof fn lemma_listing_by_kind(table: Table)
    ensures
        command_listing(table) == with_kind(
            with_kind(with_kind(Groups::empty(), table, CommandKind::Internal), table, CommandKind::Redirect),
            table,
            CommandKind::Alias,
        ),
{
    let built = with_kind(
        with_kind(with_kind(Groups::empty(), table, CommandKind::Internal), table, CommandKind::Redirect),
        table,
        CommandKind::Alias,
    );
    lemma_kind_names_differ(CommandKind::Internal, CommandKind::Redirect);
    lemma_kind_names_differ(CommandKind::Internal, CommandKind::Alias);
    lemma_kind_names_differ(CommandKind::Redirect, CommandKind::Alias);
    assert forall|kind: CommandKind| commands_of_kind(table, kind) != Records::empty() implies is_group(
        table,
        #[trigger] kind_name(kind),
    ) by {
        let records = commands_of_kind(table, kind);
        if forall|command: Seq<char>| !records.contains_key(command) {
            assert(records =~= Records::empty());
        }
    }
    assert forall|group: Seq<char>| is_group(table, group) implies built.contains_key(group) by {
        let command = choose|command: Seq<char>|
            table.contains_key(command) && kind_name(table[command].kind) == group;
        let kind = table[command].kind;
        assert(commands_of_kind(table, kind).contains_key(command));
    }
    assert forall|group: Seq<char>| built.contains_key(group) implies #[trigger] built[group]
        == command_listing(table)[group] && is_group(table, group) by {
        let kind = if group == kind_name(CommandKind::Internal) {
            CommandKind::Internal
        } else if group == kind_name(CommandKind::Redirect) {
            CommandKind::Redirect
        } else {
            CommandKind::Alias
        };
        assert forall|command: Seq<char>| table.contains_key(command) implies (kind_name(table[command].kind)
            == group <==> table[command].kind == kind) by {
            lemma_kind_names_differ(table[command].kind, kind);
        }
    }
}

} // verus!
