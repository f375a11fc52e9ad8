use nt::cli::Cli;
use nt::cli::CommandAction;
use nt::cli::ResolveError;

fn bare_cli() -> Cli {
    Cli {
        print: None,
        config_file: None,
        show_config_path: false,
        interactive: false,
        note: Vec::new(),
    }
}

#[test]
fn resolve_print_default_count() {
    let cli = Cli {
        print: Some(None),
        ..bare_cli()
    };
    let action = cli.resolve_action(true);
    assert_eq!(action, Ok(CommandAction::Print { count: 10 }));
}

#[test]
fn resolve_print_explicit_count() {
    let cli = Cli {
        print: Some(Some(5)),
        ..bare_cli()
    };
    let action = cli.resolve_action(true);
    assert_eq!(action, Ok(CommandAction::Print { count: 5 }));
}

#[test]
fn resolve_print_with_note_text_conflicts() {
    let cli = Cli {
        print: Some(None),
        note: vec!["hello".to_string()],
        ..bare_cli()
    };
    let action = cli.resolve_action(true);
    assert_eq!(action, Err(ResolveError::PrintWithNoteText));
    assert!(action.unwrap_err().is_usage_conflict());
}

#[test]
fn resolve_interactive_with_print_conflicts() {
    let cli = Cli {
        print: Some(None),
        interactive: true,
        ..bare_cli()
    };
    let action = cli.resolve_action(true);
    assert_eq!(action, Err(ResolveError::InteractiveWithPrint));
    assert!(action.unwrap_err().is_usage_conflict());
}

#[test]
fn resolve_interactive_with_note_text_conflicts() {
    let cli = Cli {
        interactive: true,
        note: vec!["hello".to_string()],
        ..bare_cli()
    };
    let action = cli.resolve_action(true);
    assert_eq!(action, Err(ResolveError::InteractiveWithNoteText));
}

#[test]
fn resolve_interactive_alone() {
    let cli = Cli {
        interactive: true,
        ..bare_cli()
    };
    assert_eq!(cli.resolve_action(true), Ok(CommandAction::InteractiveAppend));
}

#[test]
fn resolve_note_tokens_joined_with_single_spaces() {
    let cli = Cli {
        note: vec!["hello".to_string(), "world".to_string()],
        ..bare_cli()
    };
    let action = cli.resolve_action(true);
    assert_eq!(
        action,
        Ok(CommandAction::Append {
            text: "hello world".to_string()
        })
    );
}

#[test]
fn resolve_whitespace_note_text_is_empty_input() {
    let cli = Cli {
        note: vec!["   ".to_string(), " ".to_string()],
        ..bare_cli()
    };
    let action = cli.resolve_action(true);
    assert_eq!(action, Err(ResolveError::EmptyNoteText));
    assert!(!action.unwrap_err().is_usage_conflict());
}

#[test]
fn resolve_no_args_at_terminal_starts_interactive() {
    let cli = bare_cli();
    assert_eq!(cli.resolve_action(true), Ok(CommandAction::InteractiveAppend));
}

#[test]
fn resolve_no_args_piped_reads_stdin() {
    let cli = bare_cli();
    assert_eq!(cli.resolve_action(false), Ok(CommandAction::AppendFromStdin));
}

#[test]
fn resolve_config_path_alone() {
    let cli = Cli {
        show_config_path: true,
        ..bare_cli()
    };
    assert_eq!(cli.resolve_action(true), Ok(CommandAction::ShowConfigPath));
}

#[test]
fn resolve_config_path_with_other_options_conflicts() {
    let cli = Cli {
        show_config_path: true,
        print: Some(None),
        ..bare_cli()
    };
    let action = cli.resolve_action(true);
    assert_eq!(action, Err(ResolveError::ConfigPathCombined));
    assert_eq!(
        action.unwrap_err().message(),
        "--config-path cannot be combined with other options or note text"
    );
}

#[test]
fn resolve_error_messages() {
    assert_eq!(
        ResolveError::InteractiveWithPrint.message(),
        "cannot mix --interactive with --print/-p"
    );
    assert_eq!(
        ResolveError::InteractiveWithNoteText.message(),
        "cannot supply note text with --interactive"
    );
    assert_eq!(
        ResolveError::PrintWithNoteText.message(),
        "cannot mix note text with --print/-p"
    );
    assert_eq!(
        ResolveError::EmptyNoteText.message(),
        "note text cannot be empty"
    );
}
