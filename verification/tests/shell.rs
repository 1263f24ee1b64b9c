use cargo_cli::shell::{shell, Color, MultiShell, Shell, ShellConfig};

fn texts(shell: &Shell) -> Vec<(String, Option<Color>)> {
    shell.written().iter().map(|line| (line.text.clone(), line.color)).collect()
}

#[test]
fn color_is_shown_only_on_a_terminal_that_asked_for_it() {
    let mut colored = Shell::create(ShellConfig { color: true, verbose: false, tty: true });
    colored.say("hello", Color::Green);
    assert_eq!(texts(&colored), vec![("hello".to_string(), Some(Color::Green))]);

    let mut piped = Shell::create(ShellConfig { color: true, verbose: false, tty: false });
    piped.say("hello", Color::Green);
    assert_eq!(texts(&piped), vec![("hello".to_string(), None)]);

    let mut plain = Shell::create(ShellConfig { color: false, verbose: false, tty: true });
    plain.say("hello", Color::Green);
    assert_eq!(texts(&plain), vec![("hello".to_string(), None)]);
}

#[test]
fn black_never_sets_a_color() {
    let mut colored = Shell::create(ShellConfig { color: true, verbose: false, tty: true });
    colored.say("hello", Color::Black);
    assert_eq!(texts(&colored), vec![("hello".to_string(), None)]);
}

#[test]
fn lines_are_kept_in_order_and_taken_once() {
    let mut out = Shell::create(ShellConfig { color: true, verbose: false, tty: false });
    out.say("one", Color::Black);
    out.say("two", Color::Black);
    let taken = out.take();
    assert_eq!(taken.len(), 2);
    assert_eq!(taken[0].text, "one");
    assert_eq!(taken[1].text, "two");
    assert!(out.written().is_empty());
    assert_eq!(out.config(), ShellConfig { color: true, verbose: false, tty: false });
}

#[test]
fn error_goes_to_the_error_channel_in_red() {
    let mut shells = shell(false, true, true);
    shells.error("it broke");
    assert_eq!(texts(shells.err()), vec![("it broke".to_string(), Some(Color::Red))]);
    assert!(shells.out().written().is_empty());
}

#[test]
fn empty_error_says_nothing() {
    let mut shells = shell(false, true, true);
    shells.error("");
    assert!(shells.err().written().is_empty());
    assert!(shells.out().written().is_empty());
}

#[test]
fn say_goes_to_the_output_channel() {
    let mut shells = shell(false, false, false);
    shells.say("done", Color::Black);
    assert_eq!(texts(shells.out()), vec![("done".to_string(), None)]);
    assert!(shells.err().written().is_empty());
}

fn note(shells: &mut MultiShell) {
    shells.say("note", Color::Black);
}

#[test]
fn concise_block_runs_only_when_not_verbose() {
    let mut quiet = shell(false, false, false);
    quiet.concise(note);
    assert_eq!(quiet.out().written().len(), 1);

    let mut loud = shell(true, false, false);
    loud.concise(note);
    assert!(loud.out().written().is_empty());
}

#[test]
fn verbose_block_runs_only_when_verbose() {
    let mut quiet = shell(false, false, false);
    quiet.verbose(note);
    assert!(quiet.out().written().is_empty());

    let mut loud = shell(true, false, false);
    loud.verbose(note);
    assert_eq!(loud.out().written().len(), 1);
}

#[test]
fn shells_of_a_command_ask_for_color_and_know_their_terminals() {
    let mut shells = shell(true, true, false);
    assert!(shells.get_verbose());
    assert_eq!(shells.out().config(), ShellConfig { color: true, verbose: true, tty: true });
    assert_eq!(shells.err().config(), ShellConfig { color: true, verbose: true, tty: false });
}

#[test]
fn multishell_keeps_the_channels_it_was_made_with() {
    let mut out = Shell::create(ShellConfig { color: false, verbose: false, tty: false });
    out.say("kept", Color::Black);
    let err = Shell::create(ShellConfig { color: true, verbose: false, tty: true });
    let mut shells = MultiShell::new(out, err, false);
    assert!(!shells.get_verbose());
    assert_eq!(shells.out().written().len(), 1);
    assert_eq!(shells.err().config().tty, true);
}

#[test]
fn set_verbose_changes_which_blocks_run() {
    let mut shells = shell(true, false, false);
    shells.set_verbose(false);
    assert!(!shells.get_verbose());
    shells.verbose(note);
    assert!(shells.out().written().is_empty());
    shells.concise(note);
    assert_eq!(shells.out().written().len(), 1);
    shells.set_verbose(true);
    assert!(shells.get_verbose());
}
