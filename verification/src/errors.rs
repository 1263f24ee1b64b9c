//! The unified error representation: an error with an optional detail and a
//! chain of causes, and the error that a command ends with.

use vstd::prelude::*;
use vstd::string::*;

verus! {

/// An error with an optional detail and, where another error led to it, that
/// error as its cause.
#[derive(Debug)]
pub struct CargoError {
    pub description: String,
    pub detail: Option<String>,
    pub cause: Option<Box<CargoError>>,
}

/// The model of one error of a chain: what it says and its detail.
pub struct Link {
    pub description: Seq<char>,
    pub detail: Option<Seq<char>>,
}

/// The view of an optional text.
pub open spec fn text_view(text: Option<String>) -> Option<Seq<char>> {
    match text {
        Some(t) => Some(t@),
        None => None,
    }
}

impl View for CargoError {
    /// The error itself, then its cause, then the cause of that one, down to
    /// the root.
    type V = Seq<Link>;

    open spec fn view(&self) -> Seq<Link>
        decreases self,
    {
        seq![Link { description: self.description@, detail: text_view(self.detail) }] + match self.cause {
            Some(inner) => (*inner).view(),
            None => Seq::empty(),
        }
    }
}

/// A chain starts with the error itself and goes on with the chain of its
/// cause.
pub proof fn lemma_chain(error: CargoError)
    ensures
        error@.len() >= 1,
        error@[0] == (Link { description: error.description@, detail: text_view(error.detail) }),
        match error.cause {
            Some(inner) => error@.drop_first() == (*inner)@,
            None => error@.len() == 1,
        },
{
    let head = seq![Link { description: error.description@, detail: text_view(error.detail) }];
    match error.cause {
        Some(inner) => {
            assert(error@ == head + (*inner).view());
            assert(error@.drop_first() =~= (*inner)@);
        },
        None => {
            assert(error@ == head + Seq::<Link>::empty());
        },
    }
}

/// The chain of an error that says `message` and has neither detail nor cause.
pub open spec fn plain_chain(message: Seq<char>) -> Seq<Link> {
    seq![Link { description: message, detail: None }]
}

/// An error for the user to read: it says `message` and has neither detail
/// nor cause.
pub fn human(message: &str) -> (error: CargoError)
    ensures
        error@ == plain_chain(message@),
{
    let error = CargoError { description: String::from_str(message), detail: None, cause: None };
    proof {
        lemma_chain(error);
        assert(error@ =~= plain_chain(message@));
    }
    error
}

impl CargoError {
    /// What the error says.
    pub fn description(&self) -> (text: &String)
        ensures
            text@ == self@[0].description,
    {
        proof {
            lemma_chain(*self);
        }
        &self.description
    }

    /// The detail of the error, if it has one.
    pub fn detail(&self) -> (text: Option<&String>)
        ensures
            match text {
                Some(t) => self@[0].detail == Some(t@),
                None => self@[0].detail is None,
            },
    {
        proof {
            lemma_chain(*self);
        }
        match &self.detail {
            Some(t) => Some(t),
            None => None,
        }
    }

    /// The error that led to this one, if there is one.
    pub fn cause(&self) -> (inner: Option<&CargoError>)
        ensures
            match inner {
                Some(c) => self@.len() > 1 && c@ == self@.drop_first(),
                None => self@.len() == 1,
            },
    {
        proof {
            lemma_chain(*self);
        }
        match &self.cause {
            Some(c) => {
                proof {
                    lemma_chain(**c);
                }
                Some(&**c)
            },
            None => None,
        }
    }

    /// The same error with `detail` as its detail.
    pub fn with_detail(self, detail: &str) -> (error: CargoError)
        ensures
            error@ == self@.update(
                0,
                Link { description: self@[0].description, detail: Some(detail@) },
            ),
    {
        let error = CargoError {
            description: self.description,
            detail: Some(String::from_str(detail)),
            cause: self.cause,
        };
        proof {
            lemma_chain(self);
            lemma_chain(error);
            assert(error@ =~= self@.update(
                0,
                Link { description: self@[0].description, detail: Some(detail@) },
            ));
        }
        error
    }

    /// The same error with `cause` as what led to it, in place of any cause it
    /// had.
    pub fn caused_by(self, cause: CargoError) -> (error: CargoError)
        ensures
            error@ == seq![self@[0]] + cause@,
    {
        let error = CargoError {
            description: self.description,
            detail: self.detail,
            cause: Some(Box::new(cause)),
        };
        proof {
            lemma_chain(self);
            lemma_chain(error);
            assert(error@ =~= seq![self@[0]] + cause@);
        }
        error
    }
}

/// The error that a command ends with: what went wrong, the exit status of the
/// process, and whether the error is of no known kind.
#[derive(Debug)]
pub struct CliError {
    pub error: CargoError,
    pub exit_code: u32,
    pub unknown: bool,
}

/// The model of a [`CliError`].
pub struct CliErrorView {
    pub chain: Seq<Link>,
    pub exit_code: u32,
    pub unknown: bool,
}

impl View for CliError {
    type V = CliErrorView;

    open spec fn view(&self) -> CliErrorView {
        CliErrorView { chain: self.error@, exit_code: self.exit_code, unknown: self.unknown }
    }
}

impl CliErrorView {
    /// What the error says.
    pub open spec fn message(self) -> Seq<char> {
        self.chain[0].description
    }

    /// The detail of the error.
    pub open spec fn detail(self) -> Option<Seq<char>> {
        self.chain[0].detail
    }

    /// The causes of the error, the immediate one first and the root last.
    pub open spec fn causes(self) -> Seq<Link> {
        self.chain.drop_first()
    }
}

/// What a command returns.
pub type CliResult<T> = Result<T, CliError>;

/// The model of the error that says `message` and ends the process with
/// `exit_code`.
pub open spec fn cli_failure(message: Seq<char>, exit_code: u32) -> CliErrorView {
    CliErrorView { chain: plain_chain(message), exit_code, unknown: false }
}

impl CliError {
    /// An error of a known kind that says `message`.
    pub fn new(message: &str, exit_code: u32) -> (error: CliError)
        ensures
            error@ == cli_failure(message@, exit_code),
    {
        CliError { error: human(message), exit_code, unknown: false }
    }

    /// An error of a known kind made from an underlying error, whose detail
    /// and causes it keeps.
    pub fn from_error(error: CargoError, exit_code: u32) -> (r: CliError)
        ensures
            r@ == (CliErrorView { chain: error@, exit_code, unknown: false }),
    {
        CliError { error, exit_code, unknown: false }
    }

    /// An error of no known kind. It ends the process with status 1.
    pub fn unknown(error: CargoError) -> (r: CliError)
        ensures
            r@ == (CliErrorView { chain: error@, exit_code: 1, unknown: true }),
    {
        CliError { error, exit_code: 1, unknown: true }
    }
}

} // verus!
