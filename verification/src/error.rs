//! Why a collector failed to start, and why a delivery failed.
//!
//! An error names the stage or reason that failed and carries a detail: either
//! the underlying source, kept as it was reported, or a fixed text. The type of
//! the source is a parameter, so that any error type can travel through the
//! collector without being looked into.
use vstd::prelude::*;

verus! {

/// The startup stage at which a collector failed.
#[derive(Clone, Copy, Debug, Eq, PartialEq, Structural)]
#[non_exhaustive]
pub enum CollectorStartErrorKind {
    /// The requested event capacity was zero.
    InvalidCapacity,
    /// The private worker thread could not be spawned.
    Spawn,
    /// The embedded BPF object could not be opened.
    Open,
    /// The BPF object could not be loaded into the kernel.
    Load,
    /// The BPF programs could not be attached.
    Attach,
    /// The userspace BPF ring-buffer consumer could not be set up.
    RingSetup,
    /// The worker stopped before reporting successful startup.
    EarlyWorkerStop,
}

impl CollectorStartErrorKind {
    /// What the collector was doing, as a verb phrase.
    pub open spec fn text(self) -> Seq<char> {
        match self {
            CollectorStartErrorKind::InvalidCapacity => "validate collector event capacity"@,
            CollectorStartErrorKind::Spawn => "spawn collector worker"@,
            CollectorStartErrorKind::Open => "open embedded BPF object"@,
            CollectorStartErrorKind::Load => "load BPF object"@,
            CollectorStartErrorKind::Attach => "attach BPF programs"@,
            CollectorStartErrorKind::RingSetup => "set up BPF ring buffer"@,
            CollectorStartErrorKind::EarlyWorkerStop => "complete collector startup"@,
        }
    }

    /// Returns what the collector was doing when it failed, as a verb phrase.
    pub fn description(self) -> (description: &'static str)
        ensures
            description@ == self.text(),
    {
        match self {
            CollectorStartErrorKind::InvalidCapacity => "validate collector event capacity",
            CollectorStartErrorKind::Spawn => "spawn collector worker",
            CollectorStartErrorKind::Open => "open embedded BPF object",
            CollectorStartErrorKind::Load => "load BPF object",
            CollectorStartErrorKind::Attach => "attach BPF programs",
            CollectorStartErrorKind::RingSetup => "set up BPF ring buffer",
            CollectorStartErrorKind::EarlyWorkerStop => "complete collector startup",
        }
    }
}

/// The reason an event could not be delivered by a running collector.
#[derive(Clone, Copy, Debug, Eq, PartialEq, Structural)]
#[non_exhaustive]
pub enum CollectorReceiveErrorKind {
    /// A BPF ring-buffer sample did not match the private wire format.
    MalformedSample,
    /// At least one userspace delivery entry was omitted because the output
    /// queue was full. This does not account for kernel-side event loss.
    OutputQueueFull,
    /// Polling the BPF ring buffer failed and collection terminated.
    PollFailure,
    /// The private collector worker has stopped.
    WorkerStop,
}

impl CollectorReceiveErrorKind {
    /// What the collector was doing, as a verb phrase.
    pub open spec fn text(self) -> Seq<char> {
        match self {
            CollectorReceiveErrorKind::MalformedSample => "decode BPF event sample"@,
            CollectorReceiveErrorKind::OutputQueueFull =>
                "deliver entries through the full output queue"@,
            CollectorReceiveErrorKind::PollFailure => "poll BPF ring buffer"@,
            CollectorReceiveErrorKind::WorkerStop => "receive from the stopped collector worker"@,
        }
    }

    /// Returns what the collector was doing when it failed, as a verb phrase.
    pub fn description(self) -> (description: &'static str)
        ensures
            description@ == self.text(),
    {
        match self {
            CollectorReceiveErrorKind::MalformedSample => "decode BPF event sample",
            CollectorReceiveErrorKind::OutputQueueFull =>
                "deliver entries through the full output queue",
            CollectorReceiveErrorKind::PollFailure => "poll BPF ring buffer",
            CollectorReceiveErrorKind::WorkerStop => "receive from the stopped collector worker",
        }
    }
}

/// The detail behind a failure: its underlying source, or a fixed text where
/// there is none.
#[derive(Debug)]
pub enum ErrorDetail<S> {
    /// The underlying error, as it was reported.
    Source(S),
    /// A fixed text.
    Static(&'static str),
}

impl<S> ErrorDetail<S> {
    /// The underlying error, if there is one.
    pub open spec fn as_source(self) -> Option<S> {
        match self {
            ErrorDetail::Source(source) => Some(source),
            ErrorDetail::Static(_) => None,
        }
    }

    /// Whether `shown` is what the detail displays: what the underlying error
    /// displays, or the fixed text.
    pub open spec fn displays(self, shown: Seq<char>) -> bool where S: core::fmt::Display {
        match self {
            ErrorDetail::Source(source) => exists|text: String|
                #[trigger] vstd::string::to_string_from_display_ensures::<S>(&source, text) && text@
                    == shown,
            ErrorDetail::Static(detail) => detail@ == shown,
        }
    }

    /// Returns the underlying error, if there is one.
    pub fn source(&self) -> (source: Option<&S>)
        ensures
            source == (match self.as_source() {
                Some(inner) => Some(&inner),
                None => None,
            }),
            source == (match *self {
                ErrorDetail::Source(inner) => Some(&inner),
                ErrorDetail::Static(_) => None,
            }),
    {
        match self {
            ErrorDetail::Source(source) => Some(source),
            ErrorDetail::Static(_) => None,
        }
    }

    /// Returns the text that the detail displays.
    pub fn message(&self) -> (message: String) where S: core::fmt::Display
        ensures
            self.displays(message@),
            *self matches ErrorDetail::Source(source)
                ==> vstd::string::to_string_from_display_ensures::<S>(&source, message),
            *self matches ErrorDetail::Static(detail) ==> message@ == detail@,
    {
        match self {
            ErrorDetail::Source(source) => source.to_string(),
            ErrorDetail::Static(detail) => (*detail).to_owned(),
        }
    }
}

/// The text of a failure, from what was being done and the text of the detail.
pub open spec fn failure_text(description: Seq<char>, detail: Seq<char>) -> Seq<char> {
    "failed to "@ + description + ": "@ + detail
}

/// The text of a failure is made of all of what was being done and all of the
/// detail, in this order, after the words for a failure and with a colon and a
/// space in between.
pub proof fn law_failure_text(description: Seq<char>, detail: Seq<char>)
    ensures
        ({
            let text = failure_text(description, detail);
            let colon = 10 + description.len() as int;
            &&& text.len() == colon + 2 + detail.len()
            &&& text.subrange(0, 10) == "failed to "@
            &&& text.subrange(10, colon) == description
            &&& text.subrange(colon, colon + 2) == ": "@
            &&& text.subrange(colon + 2, text.len() as int) == detail
        }),
{
    reveal_strlit("failed to ");
    reveal_strlit(": ");
    let text = failure_text(description, detail);
    let colon = 10 + description.len() as int;
    assert(text.subrange(0, 10) == "failed to "@);
    assert(text.subrange(10, colon) == description);
    assert(text.subrange(colon, colon + 2) == ": "@);
    assert(text.subrange(colon + 2, text.len() as int) == detail);
}

/// The source of a detail is the underlying error that it was made from, and a
/// fixed text has none. A fixed text displays itself and nothing else.
pub proof fn law_detail_parts<S: core::fmt::Display>(
    source: S,
    detail: &'static str,
    shown: Seq<char>,
)
    ensures
        ErrorDetail::Source(source).as_source() == Some(source),
        ErrorDetail::<S>::Static(detail).as_source() is None,
        ErrorDetail::<S>::Static(detail).displays(shown) <==> shown == detail@,
        forall|text: String| #[trigger]
            vstd::string::to_string_from_display_ensures::<S>(&source, text)
                ==> ErrorDetail::Source(source).displays(text@),
        ErrorDetail::Source(source).displays(shown) ==> exists|text: String|
            #[trigger] vstd::string::to_string_from_display_ensures::<S>(&source, text) && text@
                == shown,
{
}

/// Startup errors of different kinds are told apart by their texts.
pub proof fn law_start_texts_differ(one: CollectorStartErrorKind, other: CollectorStartErrorKind)
    ensures
        one != other ==> one.text() != other.text(),
{
    reveal_strlit("validate collector event capacity");
    assert("validate collector event capacity"@.len() == 33);
    reveal_strlit("spawn collector worker");
    assert("spawn collector worker"@.len() == 22);
    reveal_strlit("open embedded BPF object");
    assert("open embedded BPF object"@.len() == 24);
    reveal_strlit("load BPF object");
    assert("load BPF object"@.len() == 15);
    reveal_strlit("attach BPF programs");
    assert("attach BPF programs"@.len() == 19);
    reveal_strlit("set up BPF ring buffer");
    assert("set up BPF ring buffer"@.len() == 22);
    reveal_strlit("complete collector startup");
    assert("complete collector startup"@.len() == 26);
    assert("spawn collector worker"@[1] == 'p');
    assert("set up BPF ring buffer"@[1] == 'e');
}

/// Delivery failures of different kinds are told apart by their texts.
pub proof fn law_receive_texts_differ(
    one: CollectorReceiveErrorKind,
    other: CollectorReceiveErrorKind,
)
    ensures
        one != other ==> one.text() != other.text(),
{
    reveal_strlit("decode BPF event sample");
    assert("decode BPF event sample"@.len() == 23);
    reveal_strlit("deliver entries through the full output queue");
    assert("deliver entries through the full output queue"@.len() == 45);
    reveal_strlit("poll BPF ring buffer");
    assert("poll BPF ring buffer"@.len() == 20);
    reveal_strlit("receive from the stopped collector worker");
    assert("receive from the stopped collector worker"@.len() == 41);
}

/// Returns the text of a failure.
pub fn failure_message(description: &str, detail: &str) -> (message: String)
    ensures
        message@ == failure_text(description@, detail@),
{
    let mut message = "failed to ".to_owned();
    message.append(description);
    message.append(": ");
    message.append(detail);
    message
}

/// A failure to create a collector.
///
/// [`CollectorStartError::kind`] identifies the startup stage, and
/// [`CollectorStartError::source`] hands out the underlying error. Validation
/// failures have no source and keep a fixed text.
#[derive(Debug)]
#[non_exhaustive]
pub struct CollectorStartError<S> {
    pub(crate) kind: CollectorStartErrorKind,
    pub(crate) detail: ErrorDetail<S>,
}

impl<S> CollectorStartError<S> {
    /// The error with this kind and this detail.
    pub open(crate) spec fn of(kind: CollectorStartErrorKind, detail: ErrorDetail<S>) -> Self {
        CollectorStartError { kind, detail }
    }

    /// The startup stage that failed.
    pub open(crate) spec fn stage(self) -> CollectorStartErrorKind {
        self.kind
    }

    /// The detail of the failure.
    pub open(crate) spec fn reason(self) -> ErrorDetail<S> {
        self.detail
    }

    /// Creates an error from the stage that failed and the underlying error.
    pub fn new(kind: CollectorStartErrorKind, source: S) -> (error: Self)
        ensures
            error == Self::of(kind, ErrorDetail::Source(source)),
            error.stage() == kind,
            error.reason() == ErrorDetail::Source(source),
    {
        CollectorStartError { kind, detail: ErrorDetail::Source(source) }
    }

    /// Creates an error without a source from the stage that failed and a text.
    pub fn with_static_detail(kind: CollectorStartErrorKind, detail: &'static str) -> (error: Self)
        ensures
            error == Self::of(kind, ErrorDetail::Static(detail)),
            error.stage() == kind,
            error.reason() == ErrorDetail::<S>::Static(detail),
    {
        CollectorStartError { kind, detail: ErrorDetail::Static(detail) }
    }

    /// Returns the startup stage that failed.
    pub fn kind(&self) -> (kind: CollectorStartErrorKind)
        ensures
            kind == self.stage(),
    {
        self.kind
    }

    /// Returns the underlying error, if there is one.
    pub fn source(&self) -> (source: Option<&S>)
        ensures
            source == (match self.reason().as_source() {
                Some(inner) => Some(&inner),
                None => None,
            }),
    {
        self.detail.source()
    }

    /// Returns the text that the error displays.
    pub fn message(&self) -> (message: String) where S: core::fmt::Display
        ensures
            exists|shown: Seq<char>| #[trigger] self.reason().displays(shown) && message@
                == failure_text(self.stage().text(), shown),
    {
        let detail = self.detail.message();
        failure_message(self.kind.description(), detail.as_str())
    }
}

/// A startup error has the kind and the detail that it is made of.
pub proof fn law_start_error_parts<S>(
    kind: CollectorStartErrorKind,
    detail: ErrorDetail<S>,
)
    ensures
        CollectorStartError::of(kind, detail).stage() == kind,
        CollectorStartError::of(kind, detail).reason() == detail,
{
}

/// A collection failure occupying a position in the delivery stream.
///
/// [`CollectorReceiveError::kind`] identifies the failure, and
/// [`CollectorReceiveError::source`] hands out the underlying decoding or
/// polling error. Queue and worker-state failures have no source and keep a
/// fixed text.
#[derive(Debug)]
#[non_exhaustive]
pub struct CollectorReceiveError<S> {
    pub(crate) kind: CollectorReceiveErrorKind,
    pub(crate) detail: ErrorDetail<S>,
}

impl<S> CollectorReceiveError<S> {
    /// The error with this kind and this detail.
    pub open(crate) spec fn of(kind: CollectorReceiveErrorKind, detail: ErrorDetail<S>) -> Self {
        CollectorReceiveError { kind, detail }
    }

    /// The reason the delivery failed.
    pub open(crate) spec fn failure(self) -> CollectorReceiveErrorKind {
        self.kind
    }

    /// The detail of the failure.
    pub open(crate) spec fn reason(self) -> ErrorDetail<S> {
        self.detail
    }

    /// Creates an error from the reason of the failure and the underlying error.
    pub fn new(kind: CollectorReceiveErrorKind, source: S) -> (error: Self)
        ensures
            error == Self::of(kind, ErrorDetail::Source(source)),
            error.failure() == kind,
            error.reason() == ErrorDetail::Source(source),
    {
        CollectorReceiveError { kind, detail: ErrorDetail::Source(source) }
    }

    /// Creates an error without a source from the reason of the failure and a
    /// text.
    pub fn with_static_detail(kind: CollectorReceiveErrorKind, detail: &'static str) -> (error:
        Self)
        ensures
            error == Self::of(kind, ErrorDetail::Static(detail)),
            error.failure() == kind,
            error.reason() == ErrorDetail::<S>::Static(detail),
    {
        CollectorReceiveError { kind, detail: ErrorDetail::Static(detail) }
    }

    /// Returns the reason this delivery failed.
    pub fn kind(&self) -> (kind: CollectorReceiveErrorKind)
        ensures
            kind == self.failure(),
    {
        self.kind
    }

    /// Returns the underlying error, if there is one.
    pub fn source(&self) -> (source: Option<&S>)
        ensures
            source == (match self.reason().as_source() {
                Some(inner) => Some(&inner),
                None => None,
            }),
    {
        self.detail.source()
    }

    /// Returns the text that the error displays.
    pub fn message(&self) -> (message: String) where S: core::fmt::Display
        ensures
            exists|shown: Seq<char>| #[trigger] self.reason().displays(shown) && message@
                == failure_text(self.failure().text(), shown),
    {
        let detail = self.detail.message();
        failure_message(self.kind.description(), detail.as_str())
    }
}

/// A delivery failure has the kind and the detail that it is made of.
pub proof fn law_receive_error_parts<S>(
    kind: CollectorReceiveErrorKind,
    detail: ErrorDetail<S>,
)
    ensures
        CollectorReceiveError::of(kind, detail).failure() == kind,
        CollectorReceiveError::of(kind, detail).reason() == detail,
{
}

/// The error returned once the worker has stopped and nothing is left to
/// receive.
pub open spec fn worker_stop_error<S>() -> CollectorReceiveError<S> {
    CollectorReceiveError::of(
        CollectorReceiveErrorKind::WorkerStop,
        ErrorDetail::Static("collector worker is no longer running"),
    )
}

/// The notice that delivery entries were omitted because the output queue was
/// full.
pub open spec fn omission_notice<S>() -> CollectorReceiveError<S> {
    CollectorReceiveError::of(
        CollectorReceiveErrorKind::OutputQueueFull,
        ErrorDetail::Static("one or more delivery entries were omitted"),
    )
}

/// Creates a delivery failure without a source.
pub fn receive_error<S>(kind: CollectorReceiveErrorKind, message: &'static str) -> (error:
    CollectorReceiveError<S>)
    ensures
        error == CollectorReceiveError::<S>::of(kind, ErrorDetail::Static(message)),
        error.failure() == kind,
        error.reason() == ErrorDetail::<S>::Static(message),
{
    CollectorReceiveError::with_static_detail(kind, message)
}

/// Creates the error returned once the worker has stopped.
pub fn worker_stop<S>() -> (error: CollectorReceiveError<S>)
    ensures
        error == worker_stop_error::<S>(),
        error.failure() == CollectorReceiveErrorKind::WorkerStop,
        error.reason() == ErrorDetail::<S>::Static("collector worker is no longer running"),
{
    receive_error(CollectorReceiveErrorKind::WorkerStop, "collector worker is no longer running")
}

/// Creates the notice that delivery entries were omitted.
pub fn output_queue_full<S>() -> (error: CollectorReceiveError<S>)
    ensures
        error == omission_notice::<S>(),
        error.failure() == CollectorReceiveErrorKind::OutputQueueFull,
        error.reason() == ErrorDetail::<S>::Static("one or more delivery entries were omitted"),
{
    receive_error(
        CollectorReceiveErrorKind::OutputQueueFull,
        "one or more delivery entries were omitted",
    )
}

/// An error of an attempt to receive without waiting.
#[derive(Debug)]
#[non_exhaustive]
pub enum TryReceiveError<S> {
    /// The collector is still running but no delivery entry is currently ready.
    Empty,
    /// The next delivery entry is a collector error.
    Collector(CollectorReceiveError<S>),
}

impl<S> TryReceiveError<S> {
    /// Returns the text that the error displays.
    pub fn message(&self) -> (message: String) where S: core::fmt::Display
        ensures
            match *self {
                TryReceiveError::Empty => message@ == "collector output queue is empty"@,
                TryReceiveError::Collector(error) => exists|shown: Seq<char>|
                    #[trigger] error.reason().displays(shown) && message@ == failure_text(
                        error.failure().text(),
                        shown,
                    ),
            },
    {
        match self {
            TryReceiveError::Empty => "collector output queue is empty".to_owned(),
            TryReceiveError::Collector(error) => error.message(),
        }
    }

    /// Returns the collector error behind this one, if there is one.
    pub fn source(&self) -> (source: Option<&CollectorReceiveError<S>>)
        ensures
            source == (match *self {
                TryReceiveError::Empty => None,
                TryReceiveError::Collector(error) => Some(&error),
            }),
    {
        match self {
            TryReceiveError::Empty => None,
            TryReceiveError::Collector(error) => Some(error),
        }
    }
}

/// An error of an attempt to receive within a time limit.
#[derive(Debug)]
#[non_exhaustive]
pub enum ReceiveTimeoutError<S> {
    /// No delivery entry became ready before the requested timeout elapsed.
    Timeout,
    /// The next delivery entry is a collector error.
    Collector(CollectorReceiveError<S>),
}

impl<S> ReceiveTimeoutError<S> {
    /// Returns the text that the error displays.
    pub fn message(&self) -> (message: String) where S: core::fmt::Display
        ensures
            match *self {
                ReceiveTimeoutError::Timeout => message@
                    == "timed out waiting for collector output"@,
                ReceiveTimeoutError::Collector(error) => exists|shown: Seq<char>|
                    #[trigger] error.reason().displays(shown) && message@ == failure_text(
                        error.failure().text(),
                        shown,
                    ),
            },
    {
        match self {
            ReceiveTimeoutError::Timeout => "timed out waiting for collector output".to_owned(),
            ReceiveTimeoutError::Collector(error) => error.message(),
        }
    }

    /// Returns the collector error behind this one, if there is one.
    pub fn source(&self) -> (source: Option<&CollectorReceiveError<S>>)
        ensures
            source == (match *self {
                ReceiveTimeoutError::Timeout => None,
                ReceiveTimeoutError::Collector(error) => Some(&error),
            }),
    {
        match self {
            ReceiveTimeoutError::Timeout => None,
            ReceiveTimeoutError::Collector(error) => Some(error),
        }
    }
}

} // verus!
