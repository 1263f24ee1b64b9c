//! The two reporting channels of a command: what is said on each, in which
//! color, and which blocks run in verbose and in concise mode.
//!
//! A shell keeps what was said on it; whoever owns the streams takes the lines
//! from it and writes them.

use vstd::prelude::*;
use vstd::string::*;

verus! {

/// The colors of a terminal. `Black` stands for the terminal's own color.
#[derive(Clone, Copy, PartialEq, Eq, Debug, Structural)]
pub enum Color {
    Black,
    Red,
    Green,
    Yellow,
    Blue,
    Magenta,
    Cyan,
    White,
}

/// What a channel was made with: whether color was asked for, whether it is
/// verbose, and whether it ends in a terminal.
#[derive(Clone, Copy, PartialEq, Eq, Debug, Structural)]
pub struct ShellConfig {
    pub color: bool,
    pub verbose: bool,
    pub tty: bool,
}

/// One line said on a channel, and the color it is shown in; `None` leaves the
/// terminal's color as it is.
#[derive(Debug, Clone)]
pub struct Output {
    pub text: String,
    pub color: Option<Color>,
}

/// The model of an [`Output`].
pub struct Line {
    pub text: Seq<char>,
    pub color: Option<Color>,
}

impl View for Output {
    type V = Line;

    open spec fn view(&self) -> Line {
        Line { text: self.text@, color: self.color }
    }
}

/// The models of the lines of a channel, in order.
pub open spec fn lines_of(written: Seq<Output>) -> Seq<Line> {
    Seq::new(written.len(), |i: int| written[i]@)
}

/// The color that a line said in `color` is shown in on a channel made with
/// `config`: color is honored only where it was asked for and the channel
/// ends in a terminal, and `Black` never sets one.
pub open spec fn shown_color(config: ShellConfig, color: Color) -> Option<Color> {
    if color != Color::Black && config.color && config.tty {
        Some(color)
    } else {
        None
    }
}

/// A message handed to a channel, and the color asked for it.
pub struct Said {
    pub text: Seq<char>,
    pub color: Color,
}

/// One output channel.
#[derive(Debug)]
pub struct Shell {
    config: ShellConfig,
    written: Vec<Output>,
}

/// The model of a [`Shell`]: its configuration and the lines said so far.
pub struct ShellView {
    pub config: ShellConfig,
    pub lines: Seq<Line>,
}

impl ShellView {
    /// The channel after one more line.
    pub open spec fn say(self, text: Seq<char>, color: Color) -> ShellView {
        ShellView {
            config: self.config,
            lines: self.lines.push(Line { text, color: shown_color(self.config, color) }),
        }
    }

    /// The channel after the messages `said`, each a line of its own.
    pub open spec fn say_all(self, said: Seq<Said>) -> ShellView {
        ShellView {
            config: self.config,
            lines: self.lines + Seq::new(
                said.len(),
                |i: int| Line { text: said[i].text, color: shown_color(self.config, said[i].color) },
            ),
        }
    }
}

/// Saying nothing leaves a channel as it is.
pub proof fn lemma_say_nothing(shell: ShellView)
    ensures
        shell.say_all(Seq::empty()) == shell,
{
    assert(shell.say_all(Seq::empty()).lines =~= shell.lines);
}

/// Saying messages one after the other is saying them all.
pub proof fn lemma_say_more(shell: ShellView, said: Seq<Said>, more: Seq<Said>)
    ensures
        shell.say_all(said).say_all(more) == shell.say_all(said + more),
{
    assert(shell.say_all(said).say_all(more).lines =~= shell.say_all(said + more).lines);
}

/// Saying one line is saying a list of one message.
pub proof fn lemma_say_one(shell: ShellView, text: Seq<char>, color: Color)
    ensures
        shell.say(text, color) == shell.say_all(seq![Said { text, color }]),
{
    assert(shell.say(text, color).lines =~= shell.say_all(seq![Said { text, color }]).lines);
}

impl View for Shell {
    type V = ShellView;

    closed spec fn view(&self) -> ShellView {
        ShellView { config: self.config, lines: lines_of(self.written@) }
    }
}

impl Shell {
    /// A channel on which nothing was said yet.
    pub fn create(config: ShellConfig) -> (shell: Shell)
        ensures
            shell@ == (ShellView { config, lines: Seq::empty() }),
    {
        let shell = Shell { config, written: Vec::new() };
        proof {
            assert(shell@.lines =~= Seq::<Line>::empty());
        }
        shell
    }

    /// What the channel was made with.
    pub fn config(&self) -> (config: ShellConfig)
        ensures
            config == self@.config,
    {
        self.config
    }

    /// Says one line.
    pub fn say(&mut self, message: &str, color: Color)
        ensures
            final(self)@ == old(self)@.say(message@, color),
    {
        let shown = if color != Color::Black && self.config.color && self.config.tty {
            Some(color)
        } else {
            None
        };
        self.written.push(Output { text: String::from_str(message), color: shown });
        proof {
            assert(final(self)@.lines =~= old(self)@.say(message@, color).lines);
        }
    }

    /// The lines said so far.
    pub fn written(&self) -> (lines: &Vec<Output>)
        ensures
            lines_of(lines@) == self@.lines,
    {
        &self.written
    }

    /// Hands out the lines said so far and forgets them.
    pub fn take(&mut self) -> (lines: Vec<Output>)
        ensures
            lines_of(lines@) == old(self)@.lines,
            final(self)@ == (ShellView { config: old(self)@.config, lines: Seq::empty() }),
    {
        let mut lines: Vec<Output> = Vec::new();
        std::mem::swap(&mut self.written, &mut lines);
        proof {
            assert(final(self)@.lines =~= Seq::<Line>::empty());
        }
        lines
    }
}

/// The output channel and the error channel of a command, and whether the
/// command runs verbosely.
#[derive(Debug)]
pub struct MultiShell {
    out: Shell,
    err: Shell,
    verbose: bool,
}

/// The model of a [`MultiShell`].
pub struct MultiShellView {
    pub out: ShellView,
    pub err: ShellView,
    pub verbose: bool,
}

impl MultiShellView {
    /// The shells after one more line on the output channel.
    pub open spec fn say(self, text: Seq<char>, color: Color) -> MultiShellView {
        MultiShellView { out: self.out.say(text, color), err: self.err, verbose: self.verbose }
    }

    /// The shells after one more line on the error channel.
    pub open spec fn say_err(self, text: Seq<char>, color: Color) -> MultiShellView {
        MultiShellView { out: self.out, err: self.err.say(text, color), verbose: self.verbose }
    }

    /// The shells after an error message: a red line on the error channel,
    /// and nothing for an empty message.
    pub open spec fn error(self, message: Seq<char>) -> MultiShellView {
        if message.len() == 0 {
            self
        } else {
            self.say_err(message, Color::Red)
        }
    }
}

impl View for MultiShell {
    type V = MultiShellView;

    closed spec fn view(&self) -> MultiShellView {
        MultiShellView { out: self.out@, err: self.err@, verbose: self.verbose }
    }
}

impl MultiShell {
    /// The two channels of a command.
    pub fn new(out: Shell, err: Shell, verbose: bool) -> (shell: MultiShell)
        ensures
            shell@ == (MultiShellView { out: out@, err: err@, verbose }),
    {
        MultiShell { out, err, verbose }
    }

    /// Whether the command runs verbosely.
    pub fn get_verbose(&self) -> (verbose: bool)
        ensures
            verbose == self@.verbose,
    {
        self.verbose
    }

    /// Makes the command run verbosely, or concisely.
    pub fn set_verbose(&mut self, verbose: bool)
        ensures
            final(self)@ == (MultiShellView {
                out: old(self)@.out,
                err: old(self)@.err,
                verbose,
            }),
    {
        self.verbose = verbose;
    }

    /// The output channel.
    pub fn out(&mut self) -> (shell: &mut Shell)
        ensures
            shell@ == old(self)@.out,
            final(self)@ == (MultiShellView {
                out: final(shell)@,
                err: old(self)@.err,
                verbose: old(self)@.verbose,
            }),
    {
        &mut self.out
    }

    /// The error channel.
    pub fn err(&mut self) -> (shell: &mut Shell)
        ensures
            shell@ == old(self)@.err,
            final(self)@ == (MultiShellView {
                out: old(self)@.out,
                err: final(shell)@,
                verbose: old(self)@.verbose,
            }),
    {
        &mut self.err
    }

    /// Says one line on the output channel.
    pub fn say(&mut self, message: &str, color: Color)
        ensures
            final(self)@ == old(self)@.say(message@, color),
    {
        self.out.say(message, color);
    }

    /// Says an error message, in red, on the error channel. An empty message
    /// says nothing.
    pub fn error(&mut self, message: &str)
        ensures
            final(self)@ == old(self)@.error(message@),
    {
        if !message.is_empty() {
            self.err.say(message, Color::Red);
        }
    }

    /// Runs `block` on the shells unless the command runs verbosely.
    pub fn concise<F: FnOnce(&mut MultiShell)>(&mut self, block: F)
        requires
            !old(self)@.verbose ==> forall|shell: &mut MultiShell|
                *shell == *old(self) ==> call_requires(block, (shell,)),
        ensures
            old(self)@.verbose ==> *final(self) == *old(self),
            !old(self)@.verbose ==> exists|shell: &mut MultiShell|
                *shell == *old(self) && *final(shell) == *final(self) && call_ensures(
                    block,
                    (shell,),
                    (),
                ),
    {
        if !self.verbose {
            block(self);
        }
    }

    /// Runs `block` on the shells if the command runs verbosely.
    pub fn verbose<F: FnOnce(&mut MultiShell)>(&mut self, block: F)
        requires
            old(self)@.verbose ==> forall|shell: &mut MultiShell|
                *shell == *old(self) ==> call_requires(block, (shell,)),
        ensures
            !old(self)@.verbose ==> *final(self) == *old(self),
            old(self)@.verbose ==> exists|shell: &mut MultiShell|
                *shell == *old(self) && *final(shell) == *final(self) && call_ensures(
                    block,
                    (shell,),
                    (),
                ),
    {
        if self.verbose {
            block(self);
        }
    }
}

/// The shells of a command: both channels ask for color, and each knows
/// whether it ends in a terminal.
pub fn shell(verbose: bool, out_tty: bool, err_tty: bool) -> (shell: MultiShell)
    ensures
        shell@ == (MultiShellView {
            out: ShellView {
                config: ShellConfig { color: true, verbose, tty: out_tty },
                lines: Seq::empty(),
            },
            err: ShellView {
                config: ShellConfig { color: true, verbose, tty: err_tty },
                lines: Seq::empty(),
            },
            verbose,
        }),
{
    let config = ShellConfig { color: true, verbose, tty: err_tty };
    let err = Shell::create(config);
    let config = ShellConfig { color: true, verbose, tty: out_tty };
    let out = Shell::create(config);
    MultiShell::new(out, err, verbose)
}

} // verus!
