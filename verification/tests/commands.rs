use bang_commands::redirect::build_redirect_url;
use bang_commands::{
    Action, CommandError, CommandKind, CommandMetadata, Commands, LoadError, Source, SourceContent,
};

fn entry(kind: CommandKind, description: &str, url: Option<&str>, target: Option<&str>) -> CommandMetadata {
    CommandMetadata {
        kind,
        description: description.to_string(),
        url: url.map(|u| u.to_string()),
        target: target.map(|t| t.to_string()),
    }
}

fn internal(name: &str) -> (String, CommandMetadata) {
    (name.to_string(), entry(CommandKind::Internal, "a built-in command", None, None))
}

fn redirect(name: &str, url: &str) -> (String, CommandMetadata) {
    (name.to_string(), entry(CommandKind::Redirect, "a search", Some(url), None))
}

fn alias(name: &str, target: &str) -> (String, CommandMetadata) {
    (name.to_string(), entry(CommandKind::Alias, "another name", None, Some(target)))
}

fn parsed(name: &str, entries: Vec<(String, CommandMetadata)>) -> Source {
    Source {
        name: name.to_string(),
        content: SourceContent::Parsed(entries),
    }
}

fn default_source() -> Source {
    parsed(
        "commands.toml",
        vec![
            internal("echo"),
            internal("list"),
            alias("ls", "list"),
            alias("help", "list"),
            alias("h", "help"),
            redirect("g", "https://www.google.com/search?q="),
            alias("default", "g"),
        ],
    )
}

fn test_source() -> Source {
    parsed(
        "test_commands.toml",
        vec![
            internal("test_internal"),
            redirect("test_redirect", "http://some.url.tld/search?q="),
        ],
    )
}

fn load(sources: Vec<Source>) -> Result<Commands, String> {
    Commands::load(&sources).map_err(|e| e.message())
}

fn text_at<'a>(context: &'a tera::Context, key: &str) -> &'a str {
    context.get(key).unwrap().as_str().unwrap()
}

#[test]
fn test_load_commands_empty() -> Result<(), String> {
    let cmds = load(vec![])?;

    assert!(cmds.is_empty());

    Ok(())
}

#[test]
fn test_load_commands_default() -> Result<(), String> {
    let cmds = load(vec![default_source()])?;

    assert!(cmds.len() > 0);

    let cmd = cmds.get("h").unwrap();
    assert_eq!(cmd.kind, CommandKind::Alias);
    assert_eq!(cmd.target, Some("help".to_string()));

    Ok(())
}

#[test]
fn test_load_commands_multiple() -> Result<(), String> {
    let cmds = load(vec![default_source(), test_source()])?;

    assert!(cmds.len() > 0);

    // from the default commands
    let cmd = cmds.get("echo").unwrap();
    assert_eq!(cmd.kind, CommandKind::Internal);
    // from the test commands
    let cmd1 = cmds.get("test_internal").unwrap();
    assert_eq!(cmd1.kind, CommandKind::Internal);
    let cmd2 = cmds.get("test_redirect").unwrap();
    assert_eq!(cmd2.kind, CommandKind::Redirect);

    Ok(())
}

#[test]
fn test_redirect_simple() -> Result<(), String> {
    let cmds = load(vec![test_source()])?;

    let query = "foo bar";
    let target_simple = "http://some.url.tld/search?q=";
    let url_simple = "http://some.url.tld/search?q=foo%20bar";

    let exec = cmds
        .process_redirect(&Some(target_simple.to_string()), &vec![query])
        .map_err(|e| e.message())?;
    assert_eq!(
        exec.context.get("redirect_url").unwrap().as_str().unwrap(),
        url_simple
    );

    Ok(())
}

#[test]
fn test_redirect_fmt() -> Result<(), String> {
    let cmds = load(vec![test_source()])?;

    let query = "bar baz";
    let target_fmt = "http://some.url.tld/search?q=\"{query}\"";
    let url_fmt = "http://some.url.tld/search?q=\"bar%20baz\"";

    let exec = cmds
        .process_redirect(&Some(target_fmt.to_string()), &vec![query])
        .map_err(|e| e.message())?;
    assert_eq!(
        exec.context.get("redirect_url").unwrap().as_str().unwrap(),
        url_fmt
    );

    Ok(())
}

#[test]
fn load_of_nothing_is_an_empty_table() {
    let cmds = Commands::load(&[]).unwrap();
    assert_eq!(cmds.len(), 0);
    assert!(cmds.is_empty());
    assert!(cmds.get("default").is_none());
}

#[test]
fn load_lets_the_later_source_win() {
    let first = parsed("first", vec![redirect("g", "http://first/?q="), internal("echo")]);
    let second = parsed("second", vec![redirect("g", "http://second/?q=")]);
    let cmds = Commands::load(&[first, second]).unwrap();
    assert_eq!(cmds.len(), 2);
    assert_eq!(cmds.get("g").unwrap().url, Some("http://second/?q=".to_string()));
    assert_eq!(cmds.get("echo").unwrap().kind, CommandKind::Internal);
}

#[test]
fn load_lets_the_later_entry_of_one_source_win() {
    let source = parsed("only", vec![alias("x", "a"), alias("x", "b")]);
    let cmds = Commands::load(&[source]).unwrap();
    assert_eq!(cmds.len(), 1);
    assert_eq!(cmds.get("x").unwrap().target, Some("b".to_string()));
}

#[test]
fn load_fails_on_a_source_that_cannot_be_read() {
    let missing = Source {
        name: "missing.toml".to_string(),
        content: SourceContent::Unreadable("No such file or directory (os error 2)".to_string()),
    };
    let error = Commands::load(&[default_source(), missing, test_source()]).err().unwrap();
    assert_eq!(
        error,
        LoadError::Read {
            source: "missing.toml".to_string(),
            reason: "No such file or directory (os error 2)".to_string(),
        }
    );
    assert_eq!(
        error.message(),
        "failed to read 'missing.toml': No such file or directory (os error 2)"
    );
}

#[test]
fn load_fails_on_a_source_that_cannot_be_parsed() {
    let broken = Source {
        name: "broken.toml".to_string(),
        content: SourceContent::Malformed("expected an equals, found eof at line 1 column 4".to_string()),
    };
    let error = Commands::load(&[broken]).err().unwrap();
    assert_eq!(
        error,
        LoadError::Parse {
            source: "broken.toml".to_string(),
            reason: "expected an equals, found eof at line 1 column 4".to_string(),
        }
    );
    assert_eq!(
        error.message(),
        "failed to parse 'broken.toml': expected an equals, found eof at line 1 column 4"
    );
}

#[test]
fn load_reports_the_first_failure() {
    let unreadable = Source {
        name: "a".to_string(),
        content: SourceContent::Unreadable("gone".to_string()),
    };
    let malformed = Source {
        name: "b".to_string(),
        content: SourceContent::Malformed("bad".to_string()),
    };
    let error = Commands::load(&[malformed.clone(), unreadable.clone()]).err().unwrap();
    assert_eq!(error.message(), "failed to parse 'b': bad");
    let error = Commands::load(&[unreadable, malformed]).err().unwrap();
    assert_eq!(error.message(), "failed to read 'a': gone");
}

#[test]
fn redirect_appends_the_encoded_arguments() {
    let cmds = Commands::load(&[]).unwrap();
    let exec = cmds
        .process_redirect(&Some("http://x.tld/search?q=".to_string()), &["foo", "bar"])
        .unwrap();
    assert_eq!(exec.action, Action::Redirect);
    assert_eq!(text_at(&exec.context, "redirect_url"), "http://x.tld/search?q=foo%20bar");
}

#[test]
fn redirect_fills_the_placeholder() {
    let cmds = Commands::load(&[]).unwrap();
    let exec = cmds
        .process_redirect(&Some("http://x.tld/search?q=\"{query}\"".to_string()), &["bar", "baz"])
        .unwrap();
    assert_eq!(exec.action, Action::Redirect);
    assert_eq!(
        text_at(&exec.context, "redirect_url"),
        "http://x.tld/search?q=\"bar%20baz\""
    );
}

#[test]
fn redirect_fills_every_placeholder() {
    let cmds = Commands::load(&[]).unwrap();
    let exec = cmds
        .process_redirect(&Some("http://{query}.tld/{query}/x".to_string()), &["a"])
        .unwrap();
    assert_eq!(text_at(&exec.context, "redirect_url"), "http://a.tld/a/x");
}

#[test]
fn redirect_escapes_reserved_characters() {
    let cmds = Commands::load(&[]).unwrap();
    let exec = cmds
        .process_redirect(&Some("http://x.tld/?q=".to_string()), &["a&b=c", "d/e?f", "100%", "caf\u{e9}"])
        .unwrap();
    assert_eq!(
        text_at(&exec.context, "redirect_url"),
        "http://x.tld/?q=a%26b%3Dc%20d%2Fe%3Ff%20100%25%20caf%C3%A9"
    );
}

#[test]
fn redirect_without_arguments_adds_nothing() {
    let cmds = Commands::load(&[]).unwrap();
    let exec = cmds
        .process_redirect(&Some("http://x.tld/?q=".to_string()), &[])
        .unwrap();
    assert_eq!(text_at(&exec.context, "redirect_url"), "http://x.tld/?q=");
}

#[test]
fn redirect_without_url_fails() {
    let cmds = Commands::load(&[]).unwrap();
    let error = cmds.process_redirect(&None, &["foo"]).err().unwrap();
    assert_eq!(error, CommandError::MissingRedirectTarget);
    assert_eq!(error.message(), "redirect command missing target URL");
}

#[test]
fn redirect_is_the_same_on_the_same_inputs() {
    let cmds = Commands::load(&[]).unwrap();
    let url = Some("http://x.tld/{query}?again={query}".to_string());
    let first = cmds.process_redirect(&url, &["foo bar", "baz"]).unwrap();
    let second = cmds.process_redirect(&url, &["foo bar", "baz"]).unwrap();
    assert_eq!(first.action, second.action);
    assert_eq!(first.context, second.context);
    assert_eq!(
        text_at(&first.context, "redirect_url"),
        "http://x.tld/foo%20bar%20baz?again=foo%20bar%20baz"
    );
}

#[test]
fn build_redirect_url_takes_the_query_as_it_is() {
    assert_eq!(build_redirect_url("http://x/?q=", "a b"), "http://x/?q=a b");
    assert_eq!(build_redirect_url("http://x/{query}/y", "{query}"), "http://x/{query}/y");
    assert_eq!(build_redirect_url("{query}{query}", "ab"), "abab");
    assert_eq!(build_redirect_url("{quer{query}y}", "-"), "{quer-y}");
    assert_eq!(build_redirect_url("{query", "z"), "{queryz");
    assert_eq!(build_redirect_url("", ""), "");
}

#[test]
fn echo_hands_the_arguments_back() {
    let cmds = load(vec![default_source()]).unwrap();
    let exec = cmds.process_internal_command("echo", &vec!["a", "b"]).unwrap();
    assert_eq!(exec.action, Action::Render);
    assert_eq!(text_at(&exec.context, "echo"), "true");
    assert_eq!(text_at(&exec.context, "args"), "a b");
    assert!(exec.context.get("command").is_none());
}

#[test]
fn echo_without_arguments() {
    let cmds = Commands::load(&[]).unwrap();
    let exec = cmds.process_internal_command("echo", &vec![]).unwrap();
    assert_eq!(text_at(&exec.context, "echo"), "true");
    assert_eq!(text_at(&exec.context, "args"), "");
}

#[test]
fn list_of_a_name_that_is_not_there() {
    let cmds = load(vec![default_source()]).unwrap();
    let exec = cmds.process_internal_command("list", &vec!["nonexistent"]).unwrap();
    assert_eq!(exec.action, Action::Render);
    assert_eq!(text_at(&exec.context, "command"), "nonexistent");
    let data = exec.context.get("data").unwrap().as_object().unwrap();
    assert_eq!(data.len(), 2);
    assert_eq!(data.get("type").unwrap().as_str(), Some("unknown"));
    assert_eq!(data.get("description").unwrap().as_str(), Some("unknown"));
}

#[test]
fn list_of_one_command() {
    let cmds = load(vec![default_source()]).unwrap();

    let exec = cmds.process_internal_command("list", &vec!["g", "ignored"]).unwrap();
    assert_eq!(text_at(&exec.context, "command"), "g");
    let data = exec.context.get("data").unwrap().as_object().unwrap();
    assert_eq!(data.len(), 3);
    assert_eq!(data.get("type").unwrap().as_str(), Some("Redirect"));
    assert_eq!(data.get("description").unwrap().as_str(), Some("a search"));
    assert_eq!(data.get("url").unwrap().as_str(), Some("https://www.google.com/search?q="));

    let exec = cmds.process_internal_command("list", &vec!["h"]).unwrap();
    let data = exec.context.get("data").unwrap().as_object().unwrap();
    assert_eq!(data.len(), 3);
    assert_eq!(data.get("type").unwrap().as_str(), Some("Alias"));
    assert_eq!(data.get("target").unwrap().as_str(), Some("help"));

    let exec = cmds.process_internal_command("list", &vec!["echo"]).unwrap();
    let data = exec.context.get("data").unwrap().as_object().unwrap();
    assert_eq!(data.len(), 2);
    assert_eq!(data.get("type").unwrap().as_str(), Some("Internal"));
    assert_eq!(data.get("description").unwrap().as_str(), Some("a built-in command"));
}

#[test]
fn list_cmd_data_names_what_is_missing() {
    let source = parsed(
        "lenient",
        vec![
            ("r".to_string(), entry(CommandKind::Redirect, "no url", None, None)),
            ("a".to_string(), entry(CommandKind::Alias, "no target", None, None)),
            ("i".to_string(), entry(CommandKind::Internal, "both", Some("http://u"), Some("t"))),
        ],
    );
    let cmds = Commands::load(&[source]).unwrap();

    let data = cmds.list_cmd_data("r");
    assert_eq!(data.len(), 3);
    assert_eq!(data.get("type"), Some(&"Redirect".to_string()));
    assert_eq!(data.get("description"), Some(&"no url".to_string()));
    assert_eq!(data.get("url"), Some(&"unknown url".to_string()));

    let data = cmds.list_cmd_data("a");
    assert_eq!(data.len(), 3);
    assert_eq!(data.get("type"), Some(&"Alias".to_string()));
    assert_eq!(data.get("target"), Some(&"unknown target".to_string()));

    let data = cmds.list_cmd_data("i");
    assert_eq!(data.len(), 2);
    assert_eq!(data.get("url"), None);
    assert_eq!(data.get("target"), None);

    let data = cmds.list_cmd_data("nope");
    assert_eq!(data.len(), 2);
    assert_eq!(data.get("type"), Some(&"unknown".to_string()));
    assert_eq!(data.get("description"), Some(&"unknown".to_string()));
}

#[test]
fn list_of_all_commands_groups_by_kind() {
    let cmds = load(vec![default_source(), test_source()]).unwrap();
    let exec = cmds.process_internal_command("list", &vec![]).unwrap();
    assert_eq!(exec.action, Action::Render);
    let groups = exec.context.get("commands_list").unwrap().as_object().unwrap();
    assert_eq!(groups.len(), 3);

    let internal = groups.get("Internal").unwrap().as_object().unwrap();
    let mut names: Vec<&str> = internal.keys().map(|k| k.as_str()).collect();
    names.sort();
    assert_eq!(names, vec!["echo", "list", "test_internal"]);

    let redirects = groups.get("Redirect").unwrap().as_object().unwrap();
    assert_eq!(redirects.len(), 2);
    assert_eq!(
        redirects.get("test_redirect").unwrap().get("url").unwrap().as_str(),
        Some("http://some.url.tld/search?q=")
    );

    let aliases = groups.get("Alias").unwrap().as_object().unwrap();
    assert_eq!(aliases.len(), 4);
    assert_eq!(aliases.get("h").unwrap().get("target").unwrap().as_str(), Some("help"));
    assert_eq!(aliases.get("h").unwrap().get("type").unwrap().as_str(), Some("Alias"));
    assert_eq!(
        aliases.get("default").unwrap().get("description").unwrap().as_str(),
        Some("another name")
    );
}

#[test]
fn list_of_all_commands_leaves_out_kinds_without_commands() {
    let cmds = load(vec![test_source()]).unwrap();
    let groups = cmds.list_data();
    assert_eq!(groups.len(), 2);
    assert!(groups.get("Alias").is_none());
    assert_eq!(groups.get("Internal").unwrap().len(), 1);
    assert_eq!(
        groups.get("Redirect").unwrap().get("test_redirect").unwrap().get("type"),
        Some(&"Redirect".to_string())
    );

    let empty = Commands::load(&[]).unwrap();
    assert!(empty.list_data().is_empty());
    let exec = empty.process_internal_command("list", &vec![]).unwrap();
    assert_eq!(exec.context.get("commands_list").unwrap().as_object().unwrap().len(), 0);
}

#[test]
fn other_internal_commands_are_not_implemented() {
    let cmds = load(vec![test_source()]).unwrap();
    let error = cmds.process_internal_command("test_internal", &vec!["x"]).err().unwrap();
    assert_eq!(
        error,
        CommandError::UnimplementedInternalCommand("test_internal".to_string())
    );
    assert_eq!(error.message(), "internal command 'test_internal' not yet implemented.");
    let error = cmds.process("test_internal", &vec![]).err().unwrap();
    assert_eq!(
        error,
        CommandError::UnimplementedInternalCommand("test_internal".to_string())
    );
}

#[test]
fn process_carries_out_a_redirect() {
    let cmds = load(vec![default_source()]).unwrap();
    let exec = cmds.process("g", &vec!["rust", "lang"]).unwrap();
    assert_eq!(exec.action, Action::Redirect);
    assert_eq!(
        text_at(&exec.context, "redirect_url"),
        "https://www.google.com/search?q=rust%20lang"
    );
}

#[test]
fn process_follows_a_chain_of_aliases() {
    let cmds = load(vec![default_source()]).unwrap();
    let through_alias = cmds.process("h", &vec!["g"]).unwrap();
    let direct = cmds.process("list", &vec!["g"]).unwrap();
    assert_eq!(through_alias.action, direct.action);
    assert_eq!(through_alias.context, direct.context);
    assert_eq!(text_at(&through_alias.context, "command"), "g");
}

#[test]
fn process_sends_an_unknown_command_to_the_default() {
    let cmds = load(vec![default_source()]).unwrap();
    let unknown = cmds.process("foo", &vec!["bar"]).unwrap();
    let spelled_out = cmds.process("default", &vec!["foo", "bar"]).unwrap();
    assert_eq!(unknown.action, Action::Redirect);
    assert_eq!(unknown.action, spelled_out.action);
    assert_eq!(unknown.context, spelled_out.context);
    assert_eq!(
        text_at(&unknown.context, "redirect_url"),
        "https://www.google.com/search?q=foo%20bar"
    );
}

#[test]
fn process_sends_an_unknown_alias_target_to_the_default() {
    let cmds = load(vec![default_source(), parsed("more", vec![alias("lost", "nowhere")])]).unwrap();
    let exec = cmds.process("lost", &vec!["x"]).unwrap();
    assert_eq!(
        text_at(&exec.context, "redirect_url"),
        "https://www.google.com/search?q=nowhere%20x"
    );
}

#[test]
fn process_of_an_unknown_command_without_default_fails() {
    let cmds = load(vec![test_source()]).unwrap();
    let error = cmds.process("foo", &vec!["bar"]).err().unwrap();
    assert_eq!(error, CommandError::UnknownCommand("foo".to_string()));
    assert_eq!(error.message(), "unknown command: 'foo'");
}

#[test]
fn process_of_an_alias_without_target_fails() {
    let source = parsed(
        "lenient",
        vec![("a".to_string(), entry(CommandKind::Alias, "no target", None, None))],
    );
    let cmds = Commands::load(&[source]).unwrap();
    let error = cmds.process("a", &vec![]).err().unwrap();
    assert_eq!(error, CommandError::MissingAliasTarget);
    assert_eq!(error.message(), "missing alias target");
}

#[test]
fn process_of_a_redirect_without_url_fails() {
    let source = parsed(
        "lenient",
        vec![("r".to_string(), entry(CommandKind::Redirect, "no url", None, None))],
    );
    let cmds = Commands::load(&[source]).unwrap();
    assert_eq!(
        cmds.process("r", &vec!["x"]).err().unwrap(),
        CommandError::MissingRedirectTarget
    );
}

#[test]
fn process_of_aliases_in_a_circle_fails() {
    let cmds = load(vec![parsed("circle", vec![alias("a", "b"), alias("b", "a"), internal("echo")])]).unwrap();
    let error = cmds.process("a", &vec!["x"]).err().unwrap();
    assert_eq!(error, CommandError::CyclicAlias);
    assert_eq!(error.message(), "alias chain never reaches a command");
    assert_eq!(cmds.process("b", &vec![]).err().unwrap(), CommandError::CyclicAlias);

    let own = load(vec![parsed("own", vec![alias("me", "me")])]).unwrap();
    assert_eq!(own.process("me", &vec![]).err().unwrap(), CommandError::CyclicAlias);
}

#[test]
fn process_of_a_default_that_leads_nowhere_fails() {
    let cmds = load(vec![parsed("lost", vec![alias("default", "nowhere")])]).unwrap();
    assert_eq!(cmds.process("x", &vec![]).err().unwrap(), CommandError::CyclicAlias);
}

#[test]
fn process_follows_the_longest_chain_that_fits_the_table() {
    let cmds = load(vec![parsed(
        "chain",
        vec![alias("a", "b"), alias("b", "c"), alias("c", "d"), internal("echo"), alias("d", "echo")],
    )])
    .unwrap();
    let exec = cmds.process("a", &vec!["x", "y"]).unwrap();
    assert_eq!(text_at(&exec.context, "args"), "x y");
}

#[test]
fn process_may_follow_as_many_aliases_as_the_table_holds() {
    let cmds = load(vec![parsed("two", vec![alias("a", "b"), alias("b", "zzz")])]).unwrap();
    assert_eq!(
        cmds.process("a", &vec![]).err().unwrap(),
        CommandError::UnknownCommand("zzz".to_string())
    );
}

#[test]
fn process_hands_the_name_default_to_an_internal_default() {
    let cmds = load(vec![parsed("odd", vec![internal("default")])]).unwrap();
    assert_eq!(
        cmds.process("foo", &vec!["bar"]).err().unwrap(),
        CommandError::UnimplementedInternalCommand("default".to_string())
    );
}

#[test]
fn process_lists_through_an_alias() {
    let cmds = load(vec![default_source()]).unwrap();
    let exec = cmds.process("ls", &vec![]).unwrap();
    assert_eq!(exec.action, Action::Render);
    let groups = exec.context.get("commands_list").unwrap().as_object().unwrap();
    assert_eq!(groups.get("Internal").unwrap().as_object().unwrap().len(), 2);
    assert!(exec.context.get("command").is_none());
}

#[test]
fn process_is_case_sensitive() {
    let cmds = load(vec![test_source()]).unwrap();
    assert_eq!(
        cmds.process("Test_Redirect", &vec![]).err().unwrap(),
        CommandError::UnknownCommand("Test_Redirect".to_string())
    );
    assert!(cmds.process("test_redirect", &vec![]).is_ok());
}
