//! What holds of loading and resolving, whatever the table and the input.

use crate::commands::located;
use crate::commands::outcome_is;
use crate::commands::process_outcome;
use crate::commands::resolved;
use crate::commands::Action;
use crate::commands::Execute;
use crate::commands::ExecuteView;
use crate::error::CommandError;
use crate::error::CommandErrorView;
use crate::metadata::CommandKind;
use crate::metadata::MetadataView;
use crate::metadata::Table;
use crate::redirect::redirect_outcome;
use crate::reply::reply_to;
use crate::reply::FailureStatus;
use crate::reply::ReplyView;
use crate::source::loaded;
use crate::source::merged;
use crate::source::LoadErrorView;
use crate::source::SourceContentView;
use crate::source::SourceView;
use crate::text::words;
use vstd::prelude::*;

verus! {

/// The mapping that the entries of one source make up.
pub open spec fn mapping(entries: Seq<(Seq<char>, MetadataView)>) -> Table {
    merged(Table::empty(), entries)
}

/// The mapping of a source; empty where the source has no entries.
pub open spec fn source_mapping(source: SourceView) -> Table {
    match source.content {
        SourceContentView::Parsed(entries) => mapping(entries),
        _ => Table::empty(),
    }
}

/// `from` is an alias for `to`.
pub open spec fn is_alias_for(table: Table, from: Seq<char>, to: Seq<char>) -> bool {
    &&& table.contains_key(from)
    &&& table[from].kind == CommandKind::Alias
    &&& table[from].target == Some(to)
}

/// The name that resolving `command` turns to next, where the entry it lands
/// at is an alias with a target.
pub open spec fn next_name(table: Table, command: Seq<char>) -> Option<Seq<char>> {
    match located(table, command, Seq::empty()) {
        Some((name, _)) => if table[name].kind == CommandKind::Alias {
            table[name].target
        } else {
            None
        },
        None => None,
    }
}

/// Resolving `command` comes to an end after at most `hops` aliases.
pub open spec fn ends_within(table: Table, command: Seq<char>, hops: nat) -> bool
    decreases hops,
{
    match next_name(table, command) {
        Some(target) => hops > 0 && ends_within(table, target, (hops - 1) as nat),
        None => true,
    }
}

/// Resolving `command` comes to an end after `hops` aliases and no fewer.
pub open spec fn ends_after(table: Table, command: Seq<char>, hops: nat) -> bool {
    ends_within(table, command, hops) && (hops == 0 || !ends_within(table, command, (hops - 1) as nat))
}

/// Loading no source gives the empty table.
pub proof fn lemma_load_of_nothing()
    ensures
        loaded(Seq::<SourceView>::empty()) == Ok::<Table, LoadErrorView>(Table::empty()),
{
}

/// Merging entries into a table gives the table, overridden by the mapping
/// of the entries.
pub proof fn lemma_merged_overrides(table: Table, entries: Seq<(Seq<char>, MetadataView)>)
    ensures
        merged(table, entries) == table.union_prefer_right(mapping(entries)),
    decreases entries.len(),
{
    if entries.len() > 0 {
        lemma_merged_overrides(table, entries.drop_last());
    }
}

/// Where every source was parsed, the load succeeds, and a name has the
/// entry that the last source holding it gives it.
pub proof fn lemma_later_source_wins(sources: Seq<SourceView>, winner: int, name: Seq<char>)
    requires
        forall|i: int| 0 <= i < sources.len() ==> sources[i].content is Parsed,
        0 <= winner < sources.len(),
        source_mapping(sources[winner]).contains_key(name),
        forall|i: int| winner < i < sources.len() ==> !source_mapping(sources[i]).contains_key(name),
    ensures
        loaded(sources) is Ok,
        loaded(sources)->Ok_0.contains_key(name),
        loaded(sources)->Ok_0[name] == source_mapping(sources[winner])[name],
    decreases sources.len(),
{
    let earlier = sources.drop_last();
    lemma_all_parsed_loads(earlier);
    let entries = sources.last().content->Parsed_0;
    lemma_merged_overrides(loaded(earlier)->Ok_0, entries);
    if winner < sources.len() - 1 {
        lemma_later_source_wins(earlier, winner, name);
    }
}

/// Where every source was parsed, the load succeeds.
pub proof fn lemma_all_parsed_loads(sources: Seq<SourceView>)
    requires
        forall|i: int| 0 <= i < sources.len() ==> sources[i].content is Parsed,
    ensures
        loaded(sources) is Ok,
    decreases sources.len(),
{
    if sources.len() > 0 {
        lemma_all_parsed_loads(sources.drop_last());
    }
}

/// A command that the table does not hold is resolved as the command
/// `default` with the command put before its arguments.
pub proof fn lemma_unknown_goes_to_default(table: Table, command: Seq<char>, args: Seq<Seq<char>>)
    requires
        !table.contains_key(command),
        table.contains_key("default"@),
    ensures
        process_outcome(table, command, args) == process_outcome(table, "default"@, seq![command] + args),
{
}

/// A command that the table does not hold fails as unknown where the table
/// has no entry `default`.
pub proof fn lemma_unknown_without_default(table: Table, command: Seq<char>, args: Seq<Seq<char>>)
    requires
        !table.contains_key(command),
        !table.contains_key("default"@),
    ensures
        process_outcome(table, command, args) == Err::<ExecuteView, CommandErrorView>(
            CommandErrorView::UnknownCommand(command),
        ),
{
}

/// Two redirects built from the same URL and the same arguments are the same.
pub proof fn lemma_redirect_is_repeatable(
    url: Option<Seq<char>>,
    args: Seq<Seq<char>>,
    first: Result<Execute, CommandError>,
    second: Result<Execute, CommandError>,
)
    requires
        outcome_is(first, redirect_outcome(url, args)),
        outcome_is(second, redirect_outcome(url, args)),
    ensures
        match (first, second) {
            (Ok(one), Ok(other)) => one@ == other@,
            (Err(one), Err(other)) => one@ == other@,
            _ => false,
        },
{
}

/// A result that asks for a redirect holds the URL, as a text, under
/// `redirect_url`.
pub proof fn lemma_redirect_holds_its_url(table: Table, command: Seq<char>, args: Seq<Seq<char>>, hops: nat)
    ensures
        resolved(table, command, args, hops) matches Ok(found) ==> (found.action == Action::Redirect ==> {
            &&& found.data.contains_key("redirect_url"@)
            &&& found.data["redirect_url"@] is Text
        }),
    decreases hops,
{
    match located(table, command, args) {
        Some((name, rest)) => {
            if table[name].kind == CommandKind::Alias && table[name].target is Some && hops > 0 {
                lemma_redirect_holds_its_url(table, table[name].target->Some_0, rest, (hops - 1) as nat);
            }
        },
        None => {},
    }
}

/// The answer to a query is a redirect, a page or a bad request: what the
/// resolver yields can always be used.
pub proof fn lemma_answer_is_no_internal_failure(table: Table, query: Seq<char>)
    ensures
        !(reply_to(table, query) matches ReplyView::Failure { status, .. } && status
            == FailureStatus::InternalServerError),
{
    if words(query).len() > 0 {
        lemma_redirect_holds_its_url(table, words(query)[0], words(query).skip(1), table.len());
    }
}

/// The resolution fails for a circle of aliases exactly when it has not
/// come to an end within the hops it was given.
pub proof fn lemma_cyclic_means_not_ended(table: Table, command: Seq<char>, args: Seq<Seq<char>>, hops: nat)
    ensures
        resolved(table, command, args, hops) == Err::<ExecuteView, CommandErrorView>(
            CommandErrorView::CyclicAlias,
        ) <==> !ends_within(table, command, hops),
    decreases hops,
{
    match located(table, command, args) {
        Some((name, rest)) => {
            if table[name].kind == CommandKind::Alias && table[name].target is Some && hops > 0 {
                lemma_cyclic_means_not_ended(table, table[name].target->Some_0, rest, (hops - 1) as nat);
            }
        },
        None => {},
    }
}

/// A resolution that has come to an end yields the same with more hops.
pub proof fn lemma_more_hops_change_nothing(
    table: Table,
    command: Seq<char>,
    args: Seq<Seq<char>>,
    hops: nat,
    more: nat,
)
    requires
        ends_within(table, command, hops),
        hops <= more,
    ensures
        ends_within(table, command, more),
        resolved(table, command, args, more) == resolved(table, command, args, hops),
    decreases hops,
{
    match located(table, command, args) {
        Some((name, rest)) => {
            if table[name].kind == CommandKind::Alias && table[name].target is Some {
                lemma_more_hops_change_nothing(
                    table,
                    table[name].target->Some_0,
                    rest,
                    (hops - 1) as nat,
                    (more - 1) as nat,
                );
            }
        },
        None => {},
    }
}

/// The entries at which the first `hops` aliases of a resolution are
/// followed.
spec fn trail(table: Table, command: Seq<char>, hops: nat) -> Seq<Seq<char>>
    decreases hops,
{
    match next_name(table, command) {
        Some(target) => if hops > 0 {
            seq![located(table, command, Seq::empty())->Some_0.0] + trail(table, target, (hops - 1) as nat)
        } else {
            Seq::empty()
        },
        None => Seq::empty(),
    }
}

/// A resolution that ends comes to an end after some smallest number of
/// aliases.
proof fn lemma_ends_after_some(table: Table, command: Seq<char>, hops: nat) -> (least: nat)
    requires
        ends_within(table, command, hops),
    ensures
        least <= hops,
        ends_after(table, command, least),
    decreases hops,
{
    if hops == 0 || !ends_within(table, command, (hops - 1) as nat) {
        hops
    } else {
        lemma_ends_after_some(table, command, (hops - 1) as nat)
    }
}

/// Along a resolution that ends after `hops` aliases, each alias is an entry
/// of the table, and from it the resolution ends after the hops that are
/// left.
proof fn lemma_trail(table: Table, command: Seq<char>, hops: nat)
    requires
        ends_after(table, command, hops),
    ensures
        trail(table, command, hops).len() == hops,
        forall|i: int|
            0 <= i < hops ==> {
                &&& table.contains_key(#[trigger] trail(table, command, hops)[i])
                &&& ends_after(table, trail(table, command, hops)[i], (hops - i) as nat)
            },
    decreases hops,
{
    if hops > 0 {
        let target = next_name(table, command)->Some_0;
        let key = located(table, command, Seq::empty())->Some_0.0;
        lemma_trail(table, target, (hops - 1) as nat);
        assert(ends_after(table, key, hops));
    }
}

/// A resolution that ends follows fewer aliases than the table has entries,
/// or as many.
pub proof fn lemma_end_is_within_the_table(table: Table, command: Seq<char>, hops: nat)
    requires
        table.dom().finite(),
        ends_after(table, command, hops),
    ensures
        hops <= table.len(),
{
    let keys = trail(table, command, hops);
    lemma_trail(table, command, hops);
    assert forall|i: int, j: int| 0 <= i < keys.len() && 0 <= j < keys.len() && i != j implies keys[i]
        != keys[j] by {
        if keys[i] == keys[j] {
            let least = if i < j {
                (hops - j) as nat
            } else {
                (hops - i) as nat
            };
            let most = if i < j {
                (hops - i) as nat
            } else {
                (hops - j) as nat
            };
            lemma_more_hops_change_nothing(table, keys[i], Seq::empty(), least, (most - 1) as nat);
        }
    }
    keys.unique_seq_to_set();
    assert(keys.to_set().subset_of(table.dom())) by {
        assert forall|key: Seq<char>| keys.to_set().contains(key) implies table.dom().contains(key) by {
            assert(keys[keys.index_of(key)] == key);
        }
    }
    vstd::set_lib::lemma_len_subset(keys.to_set(), table.dom());
}

/// To follow as many aliases as the table has entries is enough: with more
/// hops the resolution yields the same. So a resolution that fails for a
/// circle of aliases would never come to an end.
pub proof fn lemma_table_length_is_enough(table: Table, command: Seq<char>, args: Seq<Seq<char>>, hops: nat)
    requires
        table.dom().finite(),
        hops >= table.len(),
    ensures
        resolved(table, command, args, hops) == process_outcome(table, command, args),
{
    if ends_within(table, command, hops) {
        let least = lemma_ends_after_some(table, command, hops);
        lemma_end_is_within_the_table(table, command, least);
        lemma_more_hops_change_nothing(table, command, args, least, hops);
        lemma_more_hops_change_nothing(table, command, args, least, table.len());
    } else {
        if ends_within(table, command, table.len()) {
            lemma_more_hops_change_nothing(table, command, args, table.len(), hops);
        }
        lemma_cyclic_means_not_ended(table, command, args, hops);
        lemma_cyclic_means_not_ended(table, command, args, table.len());
    }
}

/// An alias yields what its target yields.
pub proof fn lemma_alias_yields_its_target(table: Table, alias: Seq<char>, target: Seq<char>, args: Seq<Seq<char>>)
    requires
        table.dom().finite(),
        is_alias_for(table, alias, target),
    ensures
        process_outcome(table, alias, args) == process_outcome(table, target, args),
{
    assert(table.len() > 0) by {
        if table.len() == 0 {
            assert(table.dom() =~= Set::empty()) by {
                table.dom().lemma_len0_is_empty();
            }
        }
    }
    lemma_table_length_is_enough(table, alias, args, table.len() + 1);
}

/// The first name of a chain of aliases yields what the last name yields.
pub proof fn lemma_alias_chain_yields_its_end(table: Table, chain: Seq<Seq<char>>, args: Seq<Seq<char>>)
    requires
        table.dom().finite(),
        chain.len() > 0,
        forall|i: int| 0 <= i < chain.len() - 1 ==> is_alias_for(table, #[trigger] chain[i], chain[i + 1]),
    ensures
        process_outcome(table, chain.first(), args) == process_outcome(table, chain.last(), args),
    decreases chain.len(),
{
    if chain.len() > 1 {
        lemma_alias_chain_yields_its_end(table, chain.drop_first(), args);
        lemma_alias_yields_its_target(table, chain[0], chain[1], args);
    }
}

} // verus!
