use bang_commands::reply::{answer, redirect};
use bang_commands::{
    CommandKind, CommandMetadata, Commands, FailureStatus, Reply, Source, SourceContent,
};

fn table() -> Commands {
    let entries = vec![
        (
            "echo".to_string(),
            CommandMetadata {
                kind: CommandKind::Internal,
                description: "echo the arguments".to_string(),
                url: None,
                target: None,
            },
        ),
        (
            "g".to_string(),
            CommandMetadata {
                kind: CommandKind::Redirect,
                description: "search".to_string(),
                url: Some("https://search.tld/?q={query}".to_string()),
                target: None,
            },
        ),
        (
            "e".to_string(),
            CommandMetadata {
                kind: CommandKind::Alias,
                description: "echo, shorter".to_string(),
                url: None,
                target: Some("echo".to_string()),
            },
        ),
    ];
    let source = Source {
        name: "commands.toml".to_string(),
        content: SourceContent::Parsed(entries),
    };
    Commands::load(&[source]).unwrap()
}

fn failure(reply: Reply) -> (FailureStatus, String) {
    match reply {
        Reply::Failure { status, message } => (status, message),
        Reply::Redirect { location } => panic!("a redirect to {}", location),
        Reply::Page { context } => panic!("a page of {:?}", context),
    }
}

#[test]
fn answer_to_a_redirect_command() {
    match answer(&table(), "  g  two words ") {
        Reply::Redirect { location } => assert_eq!(location, "https://search.tld/?q=two%20words"),
        _ => panic!("no redirect"),
    }
}

#[test]
fn answer_to_an_internal_command() {
    match answer(&table(), "e a b") {
        Reply::Page { context } => {
            assert_eq!(context.get("echo").unwrap().as_str(), Some("true"));
            assert_eq!(context.get("args").unwrap().as_str(), Some("a b"));
        }
        _ => panic!("no page"),
    }
}

#[test]
fn answer_to_an_empty_query() {
    assert_eq!(
        failure(answer(&table(), " \t ")),
        (FailureStatus::BadRequest, "no command provided".to_string())
    );
}

#[test]
fn answer_to_an_unknown_command() {
    let (status, message) = failure(answer(&table(), "nope x"));
    assert_eq!(status, FailureStatus::BadRequest);
    assert_eq!(status.code(), 400);
    assert_eq!(message, "unknown command: 'nope'");
}

#[test]
fn redirect_reads_the_url_from_the_context() {
    let mut context = tera::Context::new();
    context.insert("other", "x");
    context.insert("redirect_url", "http://x.tld/");
    match redirect(&context) {
        Reply::Redirect { location } => assert_eq!(location, "http://x.tld/"),
        _ => panic!("no redirect"),
    }
}

#[test]
fn redirect_without_a_url_in_the_context() {
    let mut context = tera::Context::new();
    context.insert("other", "x");
    let (status, message) = failure(redirect(&context));
    assert_eq!(status, FailureStatus::InternalServerError);
    assert_eq!(status.code(), 500);
    assert_eq!(message, "missing redirect URL");
}

#[test]
fn redirect_with_a_url_that_is_no_text() {
    let mut context = tera::Context::new();
    context.insert("redirect_url", &42);
    assert_eq!(
        failure(redirect(&context)),
        (FailureStatus::InternalServerError, "malformed redirect URL".to_string())
    );

    let mut context = tera::Context::new();
    context.insert("redirect_url", &vec!["http://x.tld/"]);
    assert_eq!(
        failure(redirect(&context)),
        (FailureStatus::InternalServerError, "malformed redirect URL".to_string())
    );
}
