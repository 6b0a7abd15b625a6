//! What one invocation reports: the payload of a command that succeeded, or
//! the message and exit code of one that failed.

use crate::record::StringMap;
use crate::text::view_of;
use vstd::prelude::*;
use vstd::std_specs::convert::FromSpecImpl;
use vstd::string::StringExecFns;

verus! {

/// A failure, known by its message.
#[derive(Debug)]
pub struct Error {
    message: String,
}

impl View for Error {
    type V = Seq<char>;

    closed spec fn view(&self) -> Seq<char> {
        self.message@
    }
}

impl Error {
    /// The failure with the message `message`.
    pub fn msg(message: &str) -> (e: Error)
        ensures
            e@ == message@,
    {
        Error { message: String::from_str(message) }
    }

    /// The message.
    pub fn message(&self) -> (r: &str)
        ensures
            r@ == self@,
    {
        self.message.as_str()
    }
}

/// Whether an invocation succeeded.
#[derive(Debug, Clone, Copy, PartialEq, Eq, Structural)]
pub enum Code {
    /// The invocation succeeded. The report calls it `ok`.
    Success,
    /// The invocation failed. The report calls it `error`.
    Failure,
}

impl Code {
    /// The word that stands for the code in the report.
    pub open spec fn label(self) -> Seq<char> {
        match self {
            Code::Success => "ok"@,
            Code::Failure => "error"@,
        }
    }

    /// The word that stands for the code in the report: `ok` or `error`.
    pub fn to_string(&self) -> (r: String)
        ensures
            r@ == self.label(),
    {
        match self {
            Code::Success => String::from_str("ok"),
            Code::Failure => String::from_str("error"),
        }
    }
}

/// What a command that succeeded has to report.
#[derive(Debug)]
pub enum Data {
    /// A notification was posted. There is nothing more to say.
    Notification {  },
    /// A dialog was answered or gave up.
    Dialog {
        /// The host's answer as it came.
        raw: String,
        /// The answer read as a record.
        record: StringMap,
        /// The text that the user entered.
        text: Option<String>,
        /// The button that the user pressed.
        button: Option<String>,
        /// Whether the dialog was dismissed because its time ran out.
        gave_up: bool,
    },
    /// An alert was answered or gave up.
    Alert {
        /// The host's answer as it came.
        raw: String,
        /// The answer read as a record.
        record: StringMap,
        /// The button that the user pressed.
        button: Option<String>,
        /// Whether the alert was dismissed because its time ran out.
        gave_up: bool,
    },
}

/// A payload, with each text by its characters and the record as a map.
pub ghost enum DataView {
    Notification,
    Dialog {
        raw: Seq<char>,
        record: Map<Seq<char>, Seq<char>>,
        text: Option<Seq<char>>,
        button: Option<Seq<char>>,
        gave_up: bool,
    },
    Alert {
        raw: Seq<char>,
        record: Map<Seq<char>, Seq<char>>,
        button: Option<Seq<char>>,
        gave_up: bool,
    },
}

impl View for Data {
    type V = DataView;

    open spec fn view(&self) -> DataView {
        match self {
            Data::Notification {  } => DataView::Notification,
            Data::Dialog { raw, record, text, button, gave_up } => DataView::Dialog {
                raw: raw@,
                record: record@,
                text: view_of(*text),
                button: view_of(*button),
                gave_up: *gave_up,
            },
            Data::Alert { raw, record, button, gave_up } => DataView::Alert {
                raw: raw@,
                record: record@,
                button: view_of(*button),
                gave_up: *gave_up,
            },
        }
    }
}

/// The report of one invocation. It holds either a payload and no message, and
/// then its result is `Code::Success`, or a message and no payload, and then
/// its result is `Code::Failure`.
#[derive(Debug)]
pub struct Response {
    result: Code,
    code: Option<i32>,
    error: Option<String>,
    data: Option<Data>,
}

/// A report, with its message by its characters and its payload by its view.
pub ghost struct ResponseView {
    pub result: Code,
    pub code: Option<i32>,
    pub error: Option<Seq<char>>,
    pub data: Option<DataView>,
}

impl ResponseView {
    /// The report of a failure with the message `message` and the exit code
    /// `code`.
    pub open spec fn failure(message: Seq<char>, code: Option<i32>) -> ResponseView {
        ResponseView { result: Code::Failure, code, error: Some(message), data: None }
    }

    /// The report of a success with the payload `data`.
    pub open spec fn success(data: DataView) -> ResponseView {
        ResponseView { result: Code::Success, code: Some(0), error: None, data: Some(data) }
    }

    /// Whether the report holds either a payload or a message, and its result
    /// says which.
    pub open spec fn consistent(self) -> bool {
        ||| self.result == Code::Success && self.data is Some && self.error is None
        ||| self.result == Code::Failure && self.data is None && self.error is Some
    }

    /// The exit code of the program that makes the report: 0 for a success, 1
    /// for a failure.
    pub open spec fn exit_code(self) -> i32 {
        if self.result == Code::Success {
            0
        } else {
            1
        }
    }
}

impl View for Response {
    type V = ResponseView;

    closed spec fn view(&self) -> ResponseView {
        ResponseView {
            result: self.result,
            code: self.code,
            error: view_of(self.error),
            data: match self.data {
                Some(d) => Some(d@),
                None => None,
            },
        }
    }
}

impl Response {
    #[verifier::type_invariant]
    spec fn payload_or_message(self) -> bool {
        self@.consistent()
    }

    /// The report of the failure `from` of a process that ended with the exit
    /// code `code`, if it had one.
    pub fn from_err_with_code(from: Error, code: Option<i32>) -> (r: Response)
        ensures
            r@ == ResponseView::failure(from@, code),
    {
        Response { result: Code::Failure, code, error: Some(from.message), data: None }
    }

    /// Whether the invocation succeeded.
    pub fn result(&self) -> (r: Code)
        ensures
            r == self@.result,
            self@.consistent(),
    {
        proof {
            use_type_invariant(self);
        }
        self.result
    }

    /// The exit code of the host's process, where it is known.
    pub fn code(&self) -> (r: Option<i32>)
        ensures
            r == self@.code,
    {
        self.code
    }

    /// The message of the failure, if the invocation failed.
    pub fn error(&self) -> (r: Option<&String>)
        ensures
            self@.error == match r {
                Some(s) => Some(s@),
                None => None,
            },
            self@.consistent(),
    {
        proof {
            use_type_invariant(self);
        }
        self.error.as_ref()
    }

    /// The payload, if the invocation succeeded.
    pub fn data(&self) -> (r: Option<&Data>)
        ensures
            self@.data == match r {
                Some(d) => Some(d@),
                None => None,
            },
            self@.consistent(),
    {
        proof {
            use_type_invariant(self);
        }
        self.data.as_ref()
    }

    /// The exit code with which the program that makes this report ends: 0
    /// for a success, 1 for a failure.
    pub fn exit_code(&self) -> (r: i32)
        ensures
            r == self@.exit_code(),
    {
        match self.result {
            Code::Success => 0,
            Code::Failure => 1,
        }
    }
}

impl From<Error> for Response {
    /// The report of a failure of which no exit code is known.
    fn from(from: Error) -> (r: Response)
        ensures
            r@ == ResponseView::failure(from@, None),
    {
        Response { result: Code::Failure, code: None, error: Some(from.message), data: None }
    }
}

impl FromSpecImpl<Error> for Response {
    open spec fn obeys_from_spec() -> bool {
        true
    }

    closed spec fn from_spec(v: Error) -> Response {
        Response { result: Code::Failure, code: None, error: Some(v.message), data: None }
    }
}

impl From<Data> for Response {
    /// The report of a success with the payload `from`.
    fn from(from: Data) -> (r: Response)
        ensures
            r@ == ResponseView::success(from@),
    {
        Response { result: Code::Success, code: Some(0), error: None, data: Some(from) }
    }
}

impl FromSpecImpl<Data> for Response {
    open spec fn obeys_from_spec() -> bool {
        true
    }

    closed spec fn from_spec(v: Data) -> Response {
        Response { result: Code::Success, code: Some(0), error: None, data: Some(v) }
    }
}

impl From<Result<Data, Error>> for Response {
    /// The report of a success with its payload, or of a failure of which no
    /// exit code is known.
    fn from(from: Result<Data, Error>) -> (r: Response)
        ensures
            r@ == match from {
                Ok(data) => ResponseView::success(data@),
                Err(e) => ResponseView::failure(e@, None),
            },
    {
        match from {
            Ok(x) => Response::from(x),
            Err(x) => Response::from(x),
        }
    }
}

impl FromSpecImpl<Result<Data, Error>> for Response {
    open spec fn obeys_from_spec() -> bool {
        true
    }

    closed spec fn from_spec(v: Result<Data, Error>) -> Response {
        match v {
            Ok(x) => Response { result: Code::Success, code: Some(0), error: None, data: Some(x) },
            Err(x) => Response {
                result: Code::Failure,
                code: None,
                error: Some(x.message),
                data: None,
            },
        }
    }
}

} // verus!
