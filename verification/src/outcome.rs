use vstd::prelude::*;

verus! {

/// Status of the response that answers a denied request.
pub const UNAUTHORIZED: u16 = 401;

/// Status of the response that answers a request whose input a guard could not read.
pub const BAD_REQUEST: u16 = 400;

/// Status of the response sent when extraction failed on the serving side.
pub const INTERNAL_SERVER_ERROR: u16 = 500;

/// Who is to blame for a failed extraction.
#[derive(Clone, Copy, Debug, PartialEq, Eq, Structural)]
pub enum ErrorKind {
    /// The request was malformed or lacked what the guard needs.
    Client,
    /// The extractor itself could not do its work.
    Server,
}

impl ErrorKind {
    /// The kind that a numeric status stands for: the range 400 to 499 is the
    /// client's fault, everything else is reported as the server's.
    pub open spec fn classify(status: u16) -> ErrorKind {
        if 400 <= status <= 499 {
            ErrorKind::Client
        } else {
            ErrorKind::Server
        }
    }

    /// The status of the response that reports an error of this kind.
    pub open spec fn status_spec(self) -> u16 {
        match self {
            ErrorKind::Client => BAD_REQUEST,
            ErrorKind::Server => INTERNAL_SERVER_ERROR,
        }
    }

    /// Classifies a numeric status reported by an extractor.
    pub fn of_status(status: u16) -> (kind: ErrorKind)
        ensures
            kind == Self::classify(status),
    {
        if 400 <= status && status <= 499 {
            ErrorKind::Client
        } else {
            ErrorKind::Server
        }
    }

    /// The status of the response that reports an error of this kind. It is never
    /// the status of a denial.
    #[verifier::when_used_as_spec(status_spec)]
    pub fn status(self) -> (status: u16)
        ensures
            status == self.status_spec(),
            status != UNAUTHORIZED,
    {
        match self {
            ErrorKind::Client => BAD_REQUEST,
            ErrorKind::Server => INTERNAL_SERVER_ERROR,
        }
    }
}

/// Why a leaf could not produce its guard value.
///
/// This is not a denial: the comparison never took place.
#[derive(Clone, Debug, PartialEq, Eq)]
pub struct ExtractionError {
    pub kind: ErrorKind,
    pub detail: String,
}

/// The mathematical content of an [`ExtractionError`].
pub struct ExtractionErrorView {
    pub kind: ErrorKind,
    pub detail: Seq<char>,
}

impl View for ExtractionError {
    type V = ExtractionErrorView;

    open spec fn view(&self) -> ExtractionErrorView {
        ExtractionErrorView { kind: self.kind, detail: self.detail@ }
    }
}

impl ExtractionError {
    /// An error of the given kind.
    pub fn new(kind: ErrorKind, detail: String) -> (error: Self)
        ensures
            error == (ExtractionError { kind, detail }),
    {
        ExtractionError { kind, detail }
    }

    /// The error that an extractor reports as a numeric status and a text.
    pub fn from_status(status: u16, detail: String) -> (error: Self)
        ensures
            error == (ExtractionError { kind: ErrorKind::classify(status), detail }),
    {
        ExtractionError { kind: ErrorKind::of_status(status), detail }
    }
}

/// The result of evaluating a tree, or a part of it, against one request.
///
/// The three cases exclude one another. `Denied` means that every extraction that
/// was attempted succeeded and the boolean expression came out false;
/// `ExtractionFailed` means that a leaf could not even produce its guard value.
#[derive(Clone, Debug, PartialEq, Eq)]
pub enum EvaluationOutcome {
    Allowed,
    Denied(Option<String>),
    ExtractionFailed(ExtractionError),
}

/// The mathematical content of an [`EvaluationOutcome`].
pub enum OutcomeView {
    Allowed,
    Denied(Option<Seq<char>>),
    ExtractionFailed(ExtractionErrorView),
}

impl View for EvaluationOutcome {
    type V = OutcomeView;

    open spec fn view(&self) -> OutcomeView {
        match self {
            EvaluationOutcome::Allowed => OutcomeView::Allowed,
            EvaluationOutcome::Denied(None) => OutcomeView::Denied(None),
            EvaluationOutcome::Denied(Some(message)) => OutcomeView::Denied(Some(message@)),
            EvaluationOutcome::ExtractionFailed(error) => OutcomeView::ExtractionFailed(error@),
        }
    }
}

impl EvaluationOutcome {
    /// Whether the request may pass.
    pub fn is_allowed(&self) -> (allowed: bool)
        ensures
            allowed == (self@ is Allowed),
    {
        match self {
            EvaluationOutcome::Allowed => true,
            _ => false,
        }
    }
}

/// What a finished evaluation hands back: the outcome, and the request metadata as
/// the extractors that ran have left it.
#[derive(Debug)]
pub struct GuardServiceResponse<M>(pub EvaluationOutcome, pub M);

} // verus!
