//! The command table and the resolver that works on it.

use crate::context::context_data;
use crate::context::insert_fields;
use crate::context::insert_groups;
use crate::context::insert_text;
use crate::context::ContextData;
use crate::context::FieldMap;
use crate::context::GroupMap;
use crate::context::RecordMap;
use crate::context::Records;
use crate::encoding::percent_encode;
use crate::error::CommandError;
use crate::error::CommandErrorView;
use crate::listing::command_details;
use crate::listing::command_listing;
use crate::listing::commands_of_kind;
use crate::listing::internal_outcome;
use crate::listing::lemma_listing_by_kind;
use crate::listing::text_or;
use crate::listing::with_kind;
use crate::metadata::optional_text;
use crate::metadata::CommandKind;
use crate::metadata::CommandMetadata;
use crate::metadata::Table;
use crate::redirect::build_redirect_url;
use crate::redirect::redirect_outcome;
use crate::source::entry_views;
use crate::source::lemma_failure_stays;
use crate::source::loaded;
use crate::source::merged;
use crate::source::source_views;
use crate::source::LoadError;
use crate::source::LoadErrorView;
use crate::source::Source;
use crate::source::SourceContent;
use crate::string_map::StringMap;
use crate::text::join;
use crate::text::same_text;
use crate::text::texts;
use tera::Context;
use vstd::prelude::*;

verus! {

/// What the caller is to do with the result of a resolution.
#[derive(Clone, Copy, Debug, PartialEq, Eq, Structural)]
pub enum Action {
    /// Send the user to the URL under `redirect_url`.
    Redirect,
    /// Show the data of the context.
    Render,
}

/// The result of a resolution: what to do, and the data to do it with.
pub struct Execute {
    /// What the caller is to do.
    pub action: Action,
    /// The data to do it with.
    pub context: Context,
}

/// The result of a resolution as plain values.
pub struct ExecuteView {
    pub action: Action,
    pub data: ContextData,
}

impl View for Execute {
    type V = ExecuteView;

    open spec fn view(&self) -> ExecuteView {
        ExecuteView { action: self.action, data: context_data(self.context) }
    }
}

/// A resolution that succeeded with `found` or failed with the error.
pub open spec fn outcome_is(
    outcome: Result<Execute, CommandError>,
    expected: Result<ExecuteView, CommandErrorView>,
) -> bool {
    match outcome {
        Ok(found) => expected == Ok::<ExecuteView, CommandErrorView>(found@),
        Err(error) => expected == Err::<ExecuteView, CommandErrorView>(error@),
    }
}

/// Where the lookup of a command lands: at its own entry, or, for a name
/// that the table does not hold, at the entry `default` with the name put
/// before the arguments. Without a `default` entry such a name lands nowhere.
pub open spec fn located(table: Table, command: Seq<char>, args: Seq<Seq<char>>) -> Option<
    (Seq<char>, Seq<Seq<char>>),
> {
    if table.contains_key(command) {
        Some((command, args))
    } else if table.contains_key("default"@) {
        Some(("default"@, seq![command] + args))
    } else {
        None
    }
}

/// What resolving `command` yields when at most `hops` aliases are followed.
pub open spec fn resolved(table: Table, command: Seq<char>, args: Seq<Seq<char>>, hops: nat) -> Result<
    ExecuteView,
    CommandErrorView,
>
    decreases hops,
{
    match located(table, command, args) {
        Some((name, args)) => {
            let entry = table[name];
            match entry.kind {
                CommandKind::Alias => match entry.target {
                    Some(target) => if hops == 0 {
                        Err(CommandErrorView::CyclicAlias)
                    } else {
                        resolved(table, target, args, (hops - 1) as nat)
                    },
                    None => Err(CommandErrorView::MissingAliasTarget),
                },
                CommandKind::Redirect => redirect_outcome(entry.url, args),
                CommandKind::Internal => internal_outcome(table, name, args),
            }
        },
        None => Err(CommandErrorView::UnknownCommand(command)),
    }
}

/// What processing `command` with the arguments yields. As many aliases are
/// followed as the table has entries: a chain of aliases that has not ended
/// by then has come by one entry twice, and so never ends.
pub open spec fn process_outcome(table: Table, command: Seq<char>, args: Seq<Seq<char>>) -> Result<
    ExecuteView,
    CommandErrorView,
> {
    resolved(table, command, args, table.len())
}

/// The command table: the entry of each command name. It is filled when it is
/// loaded and only read afterwards.
pub struct Commands {
    commands: StringMap<CommandMetadata>,
}

impl View for Commands {
    type V = Table;

    closed spec fn view(&self) -> Table {
        self.commands@
    }
}

/// The commands of `kind` among the first `count` keys.
spec fn commands_of_kind_among(table: Table, kind: CommandKind, keys: Seq<Seq<char>>, count: int) -> Records {
    Map::new(
        |command: Seq<char>| keys.take(count).contains(command) && table[command].kind == kind,
        |command: Seq<char>| command_details(table, command),
    )
}

/// The text of an optional field as a string of its own, or `otherwise`.
fn text_or_else(text: &Option<String>, otherwise: &str) -> (chosen: String)
    ensures
        chosen@ == text_or(optional_text(*text), otherwise@),
{
    match text {
        Some(text) => text.clone(),
        None => otherwise.to_owned(),
    }
}

impl Commands {
    /// The number of commands.
    pub fn len(&self) -> (count: usize)
        ensures
            count == self@.len(),
            self@.dom().finite(),
    {
        self.commands.len()
    }

    /// Whether the table holds no command.
    pub fn is_empty(&self) -> (empty: bool)
        ensures
            empty == (self@ == Table::empty()),
    {
        self.commands.is_empty()
    }

    /// The entry of `command`, if the table holds one.
    pub fn get(&self, command: &str) -> (found: Option<&CommandMetadata>)
        ensures
            match found {
                Some(entry) => self@.contains_key(command@) && entry@ == self@[command@],
                None => !self@.contains_key(command@),
            },
    {
        self.commands.get(command)
    }

    /// Carries out a redirect command: the arguments are joined with single
    /// spaces and percent-encoded, and the result is put into the URL.
    pub fn process_redirect(&self, target_url: &Option<String>, args: &[&str]) -> (outcome: Result<
        Execute,
        CommandError,
    >)
        ensures
            outcome_is(outcome, redirect_outcome(optional_text(*target_url), texts(args@))),
    {
        match target_url {
            Some(url) => {
                let query = percent_encode(join(args).as_str());
                let redirect_url = build_redirect_url(url.as_str(), query.as_str());
                let mut context = Context::new();
                insert_text(&mut context, "redirect_url", redirect_url.as_str());
                Ok(Execute { action: Action::Redirect, context })
            },
            None => Err(CommandError::MissingRedirectTarget),
        }
    }

    /// The details of one command, for display.
    pub fn list_cmd_data(&self, command: &str) -> (data: FieldMap)
        ensures
            data@ == command_details(self@, command@),
    {
        let mut data = StringMap::new();
        match self.commands.get(command) {
            Some(entry) => {
                data.insert("type".to_owned(), entry.kind.name().to_owned());
                data.insert("description".to_owned(), entry.description.clone());
                match entry.kind {
                    CommandKind::Redirect => {
                        data.insert("url".to_owned(), text_or_else(&entry.url, "unknown url"));
                    },
                    CommandKind::Alias => {
                        data.insert("target".to_owned(), text_or_else(&entry.target, "unknown target"));
                    },
                    CommandKind::Internal => {},
                }
            },
            None => {
                data.insert("type".to_owned(), "unknown".to_owned());
                data.insert("description".to_owned(), "unknown".to_owned());
            },
        }
        data
    }

    /// The commands of one kind, each with its details.
    fn list_kind(&self, kind: CommandKind) -> (found: RecordMap)
        ensures
            found@ == commands_of_kind(self@, kind),
    {
        let mut found: RecordMap = StringMap::new();
        let count: usize = self.commands.len();
        let mut i: usize = 0;
        while i < count
            invariant
                i <= count == self.commands.keys().len(),
                self.commands.keys_list_domain(),
                found@ == commands_of_kind_among(self@, kind, self.commands.keys(), i as int),
            decreases count - i,
        {
            let ghost keys = self.commands.keys();
            match self.commands.entry(i) {
                Some((name, entry)) => {
                    if entry.kind == kind {
                        found.insert(name.to_owned(), self.list_cmd_data(name));
                    }
                },
                None => {},
            }
            proof {
                let shorter = keys.take(i as int);
                let longer = keys.take(i + 1);
                assert forall|command: Seq<char>|
                    longer.contains(command) <==> (shorter.contains(command) || command == keys[i as int]) by {
                    if shorter.contains(command) {
                        assert(longer[shorter.index_of(command)] == command);
                    }
                    if command == keys[i as int] {
                        assert(longer[i as int] == command);
                    }
                    if longer.contains(command) && longer.index_of(command) < i {
                        assert(shorter[longer.index_of(command)] == command);
                    }
                }
            }
            i += 1;
        }
        proof {
            assert(self.commands.keys().take(count as int) =~= self.commands.keys());
        }
        found
    }

    /// Adds the commands of `kind` to the groups, where there are any.
    fn add_kind(&self, groups: &mut GroupMap, kind: CommandKind)
        ensures
            final(groups)@ == with_kind(old(groups)@, self@, kind),
    {
        let found = self.list_kind(kind);
        if !found.is_empty() {
            groups.insert(kind.name().to_owned(), found);
        }
    }

    /// Every command with its details, grouped by the display name of its
    /// kind.
    pub fn list_data(&self) -> (groups: GroupMap)
        ensures
            groups@ == command_listing(self@),
    {
        let mut groups: GroupMap = StringMap::new();
        self.add_kind(&mut groups, CommandKind::Internal);
        self.add_kind(&mut groups, CommandKind::Redirect);
        self.add_kind(&mut groups, CommandKind::Alias);
        proof {
            lemma_listing_by_kind(self@);
        }
        groups
    }

    /// Carries out an internal command: `echo` hands the arguments back,
    /// `list` describes the command named by the first argument, or all
    /// commands where there is no argument.
    pub fn process_internal_command(&self, command: &str, args: &Vec<&str>) -> (outcome: Result<
        Execute,
        CommandError,
    >)
        ensures
            outcome_is(outcome, internal_outcome(self@, command@, texts(args@))),
    {
        if same_text(command, "echo") {
            let mut context = Context::new();
            insert_text(&mut context, "echo", "true");
            insert_text(&mut context, "args", join(args.as_slice()).as_str());
            Ok(Execute { action: Action::Render, context })
        } else if same_text(command, "list") {
            let mut context = Context::new();
            if args.len() > 0 {
                let data = self.list_cmd_data(args[0]);
                insert_text(&mut context, "command", args[0]);
                insert_fields(&mut context, "data", &data);
            } else {
                let groups = self.list_data();
                insert_groups(&mut context, "commands_list", &groups);
            }
            Ok(Execute { action: Action::Render, context })
        } else {
            Err(CommandError::UnimplementedInternalCommand(command.to_owned()))
        }
    }

    /// Resolves a command word with its arguments. An alias stands for its
    /// target; a word that the table does not hold goes, as the first
    /// argument, to the entry `default`, where there is one.
    pub fn process<'a>(&'a self, command: &'a str, args: &Vec<&'a str>) -> (outcome: Result<
        Execute,
        CommandError,
    >)
        ensures
            outcome_is(outcome, process_outcome(self@, command@, texts(args@))),
    {
        let limit: usize = self.commands.len();
        // The arguments are copied, because the way to `default` puts the
        // command before them.
        let mut rest: Vec<&'a str> = Vec::new();
        let mut i: usize = 0;
        while i < args.len()
            invariant
                i <= args@.len(),
                rest@ == args@.take(i as int),
            decreases args@.len() - i,
        {
            rest.push(args[i]);
            i += 1;
        }
        proof {
            assert(rest@ =~= args@);
        }
        let mut name: &'a str = command;
        let mut hops: usize = 0;
        loop
            invariant
                hops <= limit == self@.len(),
                process_outcome(self@, command@, texts(args@)) == resolved(
                    self@,
                    name@,
                    texts(rest@),
                    (limit - hops) as nat,
                ),
            decreases limit - hops,
        {
            let ghost asked = name@;
            let ghost given = texts(rest@);
            let entry = match self.commands.get(name) {
                Some(entry) => entry,
                None => match self.commands.get("default") {
                    Some(entry) => {
                        rest.insert(0, name);
                        name = "default";
                        entry
                    },
                    None => {
                        return Err(CommandError::UnknownCommand(name.to_owned()));
                    },
                },
            };
            assert(located(self@, asked, given) == Some((name@, texts(rest@))));
            match entry.kind {
                CommandKind::Alias => match &entry.target {
                    Some(target) => {
                        if hops == limit {
                            return Err(CommandError::CyclicAlias);
                        }
                        hops += 1;
                        name = target.as_str();
                    },
                    None => {
                        return Err(CommandError::MissingAliasTarget);
                    },
                },
                CommandKind::Redirect => {
                    return self.process_redirect(&entry.url, rest.as_slice());
                },
                CommandKind::Internal => {
                    return self.process_internal_command(name, &rest);
                },
            }
        }
    }

    /// Puts the entries into the table one after the other; an entry takes
    /// the place of an earlier one with the same name.
    fn merge(&mut self, entries: &Vec<(String, CommandMetadata)>)
        ensures
            final(self)@ == merged(old(self)@, entry_views(entries@)),
    {
        // The map is taken out while it is filled, and put back at the end.
        let mut commands = StringMap::new();
        std::mem::swap(&mut commands, &mut self.commands);
        let mut i: usize = 0;
        while i < entries.len()
            invariant
                i <= entries@.len(),
                commands@ == merged(old(self)@, entry_views(entries@).take(i as int)),
            decreases entries@.len() - i,
        {
            let entry = &entries[i];
            commands.insert(entry.0.clone(), entry.1.duplicate());
            proof {
                assert(entry_views(entries@).take(i + 1).drop_last() =~= entry_views(entries@).take(i as int));
            }
            i += 1;
        }
        proof {
            assert(entry_views(entries@).take(i as int) =~= entry_views(entries@));
        }
        self.commands = commands;
    }

    /// Builds the table from the sources, in their order: an entry of a later
    /// source takes the place of an earlier entry with the same name. The
    /// first source that could not be read or parsed fails the whole load.
    pub fn load(sources: &[Source]) -> (outcome: Result<Commands, LoadError>)
        ensures
            match outcome {
                Ok(table) => loaded(source_views(sources@)) == Ok::<Table, LoadErrorView>(table@),
                Err(error) => loaded(source_views(sources@)) == Err::<Table, LoadErrorView>(error@),
            },
    {
        let mut table = Commands { commands: StringMap::new() };
        let mut i: usize = 0;
        while i < sources.len()
            invariant
                i <= sources@.len(),
                loaded(source_views(sources@).take(i as int)) == Ok::<Table, LoadErrorView>(table@),
            decreases sources@.len() - i,
        {
            let source = &sources[i];
            proof {
                assert(source_views(sources@).take(i + 1).drop_last() =~= source_views(sources@).take(i as int));
            }
            match &source.content {
                SourceContent::Parsed(entries) => {
                    table.merge(entries);
                },
                SourceContent::Unreadable(reason) => {
                    proof {
                        lemma_failure_stays(source_views(sources@), i + 1);
                    }
                    return Err(LoadError::Read { source: source.name.clone(), reason: reason.clone() });
                },
                SourceContent::Malformed(reason) => {
                    proof {
                        lemma_failure_stays(source_views(sources@), i + 1);
                    }
                    return Err(LoadError::Parse { source: source.name.clone(), reason: reason.clone() });
                },
            }
            i += 1;
        }
        proof {
            assert(source_views(sources@).take(i as int) =~= source_views(sources@));
        }
        Ok(table)
    }
}

} // verus!
