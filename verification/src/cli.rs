//! The three display commands: what each asks of the scripting host, and what
//! the host's answer means.

use crate::cmd::{pair_of, Cmd};
use crate::decode::{decode, utf8_error_text};
use crate::parse::{decimal, integer_or_text, list_literal, quoted, record_of, Input, Output};
use crate::response::{Code, Data, DataView, Error, Response, ResponseView};
use crate::text::{as_text, joined, texts, view_of};
use vstd::prelude::*;
use vstd::string::StringExecFns;
use vstd::utf8::{decode_utf8, valid_utf8};

verus! {

/// `x` between double quotes, if there is an `x`.
pub open spec fn quoted_if(x: Option<String>) -> Option<Seq<char>> {
    match x {
        Some(s) => Some(quoted(s@)),
        None => None,
    }
}

/// The selector `x` as a number or between double quotes, if there is an `x`.
pub open spec fn selector_if(x: Option<String>) -> Option<Seq<char>> {
    match x {
        Some(s) => Some(integer_or_text(s@)),
        None => None,
    }
}

/// The list literal of `buttons`, if there are any.
pub open spec fn buttons_if(buttons: Seq<String>) -> Option<Seq<char>> {
    if buttons.len() > 0 {
        Some(list_literal(texts(buttons)))
    } else {
        None
    }
}

/// The seconds `x` in base ten, if there is an `x`.
pub open spec fn seconds_if(x: Option<u8>) -> Option<Seq<char>> {
    match x {
        Some(n) => Some(decimal(n as nat)),
        None => None,
    }
}

/// The one word that a flag adds where it is set.
pub open spec fn flag_of(set: bool, word: Seq<char>) -> Seq<Seq<char>> {
    if set {
        seq![word]
    } else {
        Seq::empty()
    }
}

/// The value of `key` in `record`, if it has one.
pub open spec fn field(record: Map<Seq<char>, Seq<char>>, key: Seq<char>) -> Option<Seq<char>> {
    if record.contains_key(key) {
        Some(record[key])
    } else {
        None
    }
}

/// Whether `record` says that the host gave up: its key `gave up` has the
/// value `true`, letter for letter.
pub open spec fn gave_up(record: Map<Seq<char>, Seq<char>>) -> bool {
    record.contains_key("gave up"@) && record["gave up"@] == "true"@
}

/// One of the three display commands, with what it was given.
#[derive(Debug)]
pub enum Commands {
    /// Posts a notification.
    Notification {
        /// The body text.
        text: String,
        /// The title.
        title: Option<String>,
        /// The subtitle.
        subtitle: Option<String>,
        /// The name of the sound to play.
        sound_name: Option<String>,
    },
    /// Shows an alert.
    Alert {
        /// The alert text.
        text: String,
        /// The explanation below the alert text.
        message: Option<String>,
        /// The kind of alert: `informational`, `warning` or `critical`.
        alert_type: Option<String>,
        /// The names of the buttons, from left to right. None means the
        /// host's own buttons.
        buttons: Vec<String>,
        /// The name or the number of the default button.
        default_button: Option<String>,
        /// The name or the number of the cancel button.
        cancel_button: Option<String>,
        /// The seconds after which the alert is dismissed by itself.
        giving_up_after: Option<u8>,
    },
    /// Shows a dialog.
    Dialog {
        /// The dialog text.
        text: String,
        /// What the field for the user's text holds at first. Without it the
        /// dialog has no such field.
        default_answer: Option<String>,
        /// Whether the field shows bullets in place of what is typed.
        hidden_answer: bool,
        /// The names of the buttons, from left to right. None means the
        /// host's own buttons.
        buttons: Vec<String>,
        /// The name or the number of the default button.
        default_button: Option<String>,
        /// The name or the number of the cancel button.
        cancel_button: Option<String>,
        /// The title of the dialog's window.
        title: Option<String>,
        /// The number of an icon, or the file that holds one.
        icon: Option<String>,
        /// The seconds after which the dialog is dismissed by itself.
        giving_up_after: Option<u8>,
    },
}

impl Commands {
    /// The statement of the command, word group by word group: the verb, the
    /// body text between double quotes, and then what each parameter that was
    /// given adds, in the order in which the host documents them. A parameter
    /// that was not given adds nothing, and neither does an empty list of
    /// buttons.
    pub open spec fn parts(&self) -> Seq<Seq<char>> {
        match self {
            Commands::Notification { text, title, subtitle, sound_name } => {
                seq!["display notification"@, quoted(text@)]
                    + pair_of("with title"@, quoted_if(*title))
                    + pair_of("subtitle"@, quoted_if(*subtitle))
                    + pair_of("sound name"@, quoted_if(*sound_name))
            },
            Commands::Alert {
                text,
                message,
                alert_type,
                buttons,
                default_button,
                cancel_button,
                giving_up_after,
            } => {
                seq!["display alert"@, quoted(text@)]
                    + pair_of("message"@, quoted_if(*message))
                    + pair_of("as"@, view_of(*alert_type))
                    + pair_of("buttons"@, buttons_if(buttons@))
                    + pair_of("default button"@, selector_if(*default_button))
                    + pair_of("cancel button"@, selector_if(*cancel_button))
                    + pair_of("giving up after"@, seconds_if(*giving_up_after))
            },
            Commands::Dialog {
                text,
                default_answer,
                hidden_answer,
                buttons,
                default_button,
                cancel_button,
                title,
                icon,
                giving_up_after,
            } => {
                seq!["display dialog"@, quoted(text@)]
                    + pair_of("default answer"@, quoted_if(*default_answer))
                    + flag_of(*hidden_answer, "hidden answer"@)
                    + pair_of("buttons"@, buttons_if(buttons@))
                    + pair_of("default button"@, selector_if(*default_button))
                    + pair_of("cancel button"@, selector_if(*cancel_button))
                    + pair_of("with title"@, quoted_if(*title))
                    + pair_of("with icon"@, selector_if(*icon))
                    + pair_of("giving up after"@, seconds_if(*giving_up_after))
            },
        }
    }

    /// What the command reports when the host answered `text`. A notification
    /// reports nothing. A dialog and an alert report the answer, the record
    /// read from it, the button and, for a dialog, the text that it names,
    /// and whether the host gave up.
    pub open spec fn payload(&self, text: Seq<char>) -> DataView {
        let record = record_of(text);
        match self {
            Commands::Notification { .. } => DataView::Notification,
            Commands::Dialog { .. } => DataView::Dialog {
                raw: text,
                record,
                text: field(record, "text returned"@),
                button: field(record, "button returned"@),
                gave_up: gave_up(record),
            },
            Commands::Alert { .. } => DataView::Alert {
                raw: text,
                record,
                button: field(record, "button returned"@),
                gave_up: gave_up(record),
            },
        }
    }

    /// Builds the statement of the command as an argument vector, the verb
    /// first. Texts are put between double quotes and not checked otherwise.
    pub fn cmd(&self) -> (c: Cmd)
        ensures
            c@ == self.parts(),
    {
        match self {
            Commands::Notification { text, title, subtitle, sound_name } => {
                let mut c = Cmd::new("display notification");
                c.arg(Some(Input::quoted(text.as_str()).as_str()));
                c.pair("with title", as_text(&quoted_option(title)));
                c.pair("subtitle", as_text(&quoted_option(subtitle)));
                c.pair("sound name", as_text(&quoted_option(sound_name)));
                assert(c@ =~= self.parts());
                c
            },
            Commands::Alert {
                text,
                message,
                alert_type,
                buttons,
                default_button,
                cancel_button,
                giving_up_after,
            } => {
                let mut c = Cmd::new("display alert");
                c.arg(Some(Input::quoted(text.as_str()).as_str()));
                c.pair("message", as_text(&quoted_option(message)));
                c.pair("as", as_text(alert_type));
                c.pair("buttons", as_text(&buttons_option(buttons)));
                c.pair("default button", as_text(&selector_option(default_button)));
                c.pair("cancel button", as_text(&selector_option(cancel_button)));
                c.pair("giving up after", as_text(&seconds_option(giving_up_after)));
                assert(c@ =~= self.parts());
                c
            },
            Commands::Dialog {
                text,
                default_answer,
                hidden_answer,
                buttons,
                default_button,
                cancel_button,
                title,
                icon,
                giving_up_after,
            } => {
                let mut c = Cmd::new("display dialog");
                c.arg(Some(Input::quoted(text.as_str()).as_str()));
                c.pair("default answer", as_text(&quoted_option(default_answer)));
                c.arg(
                    if *hidden_answer {
                        Some("hidden answer")
                    } else {
                        None
                    },
                );
                c.pair("buttons", as_text(&buttons_option(buttons)));
                c.pair("default button", as_text(&selector_option(default_button)));
                c.pair("cancel button", as_text(&selector_option(cancel_button)));
                c.pair("with title", as_text(&quoted_option(title)));
                c.pair("with icon", as_text(&selector_option(icon)));
                c.pair("giving up after", as_text(&seconds_option(giving_up_after)));
                assert(c@ =~= self.parts());
                c
            },
        }
    }

    /// Reads the host's answer `text` into what the command reports.
    pub fn parse_text(&self, text: String) -> (d: Data)
        ensures
            d@ == self.payload(text@),
    {
        match self {
            Commands::Notification { .. } => Data::Notification {  },
            Commands::Dialog { .. } => {
                let r = Output::record(text.as_str());
                let returned = cloned(r.get("text returned"));
                let button = cloned(r.get("button returned"));
                let gave_up = is_true(r.get("gave up"));
                Data::Dialog { raw: text, record: r, text: returned, button, gave_up }
            },
            Commands::Alert { .. } => {
                let r = Output::record(text.as_str());
                let button = cloned(r.get("button returned"));
                let gave_up = is_true(r.get("gave up"));
                Data::Alert { raw: text, record: r, button, gave_up }
            },
        }
    }

    /// Reads the bytes that the host wrote to its standard output into what
    /// the command reports. Bytes that are not valid UTF-8 are a failure,
    /// whatever the command.
    pub fn parse_stdout(&self, output: Vec<u8>) -> (r: Result<Data, Error>)
        ensures
            match r {
                Ok(d) => valid_utf8(output@) && d@ == self.payload(decode_utf8(output@)),
                Err(e) => !valid_utf8(output@) && e@ == utf8_error_text(output@),
            },
    {
        match decode(output) {
            Ok(text) => Ok(self.parse_text(text)),
            Err(e) => Err(e),
        }
    }
}

/// `x` between double quotes, if there is an `x`.
fn quoted_option(x: &Option<String>) -> (r: Option<String>)
    ensures
        view_of(r) == quoted_if(*x),
{
    match x {
        Some(s) => Some(Input::quoted(s.as_str())),
        None => None,
    }
}

/// The selector `x` as a number or between double quotes, if there is an `x`.
fn selector_option(x: &Option<String>) -> (r: Option<String>)
    ensures
        view_of(r) == selector_if(*x),
{
    match x {
        Some(s) => Some(Input::integer_or_text(s.as_str())),
        None => None,
    }
}

/// The list literal of `buttons`, if there are any.
fn buttons_option(buttons: &Vec<String>) -> (r: Option<String>)
    ensures
        view_of(r) == buttons_if(buttons@),
{
    if buttons.len() > 0 {
        let copy = buttons.clone();
        assert(texts(copy@) =~= texts(buttons@));
        Some(Input::apple_script_list(copy))
    } else {
        None
    }
}

/// The seconds `x` in base ten, if there is an `x`.
fn seconds_option(x: &Option<u8>) -> (r: Option<String>)
    ensures
        view_of(r) == seconds_if(*x),
{
    match x {
        Some(n) => Some(Input::integer(*n)),
        None => None,
    }
}

/// A copy of the string, if there is one.
fn cloned(x: Option<&String>) -> (r: Option<String>)
    ensures
        view_of(r) == match x {
            Some(s) => Some(s@),
            None => None,
        },
{
    match x {
        Some(s) => Some(s.clone()),
        None => None,
    }
}

/// Whether there is a value and it is `true`, letter for letter.
fn is_true(x: Option<&String>) -> (r: bool)
    ensures
        r == match x {
            Some(s) => s@ == "true"@,
            None => false,
        },
{
    match x {
        Some(s) => *s == String::from_str("true"),
        None => false,
    }
}

/// What became of the scripting host's process.
#[derive(Debug)]
pub enum Outcome {
    /// The process could not be started, or its end could not be awaited.
    NotRun(Error),
    /// The process ran and ended.
    Exited {
        /// The exit code, unless a signal ended the process.
        code: Option<i32>,
        /// What the process wrote to its standard output.
        stdout: Vec<u8>,
        /// What the process wrote to its standard error.
        stderr: Vec<u8>,
    },
}

/// One invocation: the scripting host to run and the command to give it.
#[derive(Debug)]
pub struct Cli {
    /// The name of the scripting host's program.
    pub osascript: String,
    /// The command.
    pub command: Commands,
}

impl Cli {
    /// The message of a process that failed: what it wrote to its standard
    /// error, or why that is not text.
    pub open spec fn complaint(stderr: Seq<u8>) -> Seq<char> {
        if valid_utf8(stderr) {
            decode_utf8(stderr)
        } else {
            utf8_error_text(stderr)
        }
    }

    /// The report on `outcome`. A process that did not run is a failure
    /// without an exit code. One that ended with the exit code 0 is a
    /// success with what the command reports of its standard output, or, where
    /// that is not text, a failure without an exit code. Any other is a
    /// failure with its exit code and what it wrote to its standard error.
    pub open spec fn report(&self, outcome: Outcome) -> ResponseView {
        match outcome {
            Outcome::NotRun(e) => ResponseView::failure(e@, None),
            Outcome::Exited { code, stdout, stderr } => {
                if code == Some(0i32) {
                    if valid_utf8(stdout@) {
                        ResponseView::success(self.command.payload(decode_utf8(stdout@)))
                    } else {
                        ResponseView::failure(utf8_error_text(stdout@), None)
                    }
                } else {
                    ResponseView::failure(Cli::complaint(stderr@), code)
                }
            },
        }
    }

    /// The argument vector of the invocation: the host's program, `-e`, and
    /// the statement of the command as one argument, its word groups with one
    /// space between every two of them.
    pub fn cmd(&self) -> (c: Cmd)
        ensures
            c@ == seq![self.osascript@, "-e"@, joined(self.command.parts(), seq![' '])],
    {
        let mut c = Cmd::new(self.osascript.as_str());
        let a = self.command.cmd();
        let statement = String::from(a);
        c.pair("-e", Some(statement.as_str()));
        assert(c@ =~= seq![self.osascript@, "-e"@, joined(self.command.parts(), seq![' '])]);
        c
    }

    /// Reads the bytes that the host wrote to its standard output into what
    /// the command reports.
    pub fn parse_stdout(&self, output: Vec<u8>) -> (r: Result<Data, Error>)
        ensures
            match r {
                Ok(d) => valid_utf8(output@) && d@ == self.command.payload(decode_utf8(output@)),
                Err(e) => !valid_utf8(output@) && e@ == utf8_error_text(output@),
            },
    {
        self.command.parse_stdout(output)
    }

    /// Makes the report on what became of the host's process.
    pub fn respond(&self, outcome: Outcome) -> (r: Response)
        ensures
            r@ == self.report(outcome),
            r@.consistent(),
    {
        match outcome {
            Outcome::NotRun(e) => Response::from(e),
            Outcome::Exited { code, stdout, stderr } => {
                if is_zero(code) {
                    Response::from(self.parse_stdout(stdout))
                } else {
                    match decode(stderr) {
                        Ok(text) => Response::from_err_with_code(Error::msg(text.as_str()), code),
                        Err(e) => Response::from_err_with_code(e, code),
                    }
                }
            },
        }
    }
}

/// A record without the key `gave up` does not say that the host gave up.
/// One with the key says so where the value is `true`, letter for letter, and
/// for no other value.
pub proof fn law_gave_up(record: Map<Seq<char>, Seq<char>>)
    ensures
        !record.contains_key("gave up"@) ==> !gave_up(record),
        record.contains_key("gave up"@) ==> (gave_up(record) <==> record["gave up"@] == "true"@),
{
}

/// Every report holds either a payload or a message, and its result says
/// which. It is a success, and the program that makes it ends with 0, where
/// the host's process ended with the exit code 0 and wrote valid UTF-8 to its
/// standard output; in every other case it is a failure, and the program ends
/// with 1.
pub proof fn law_report(cli: Cli, outcome: Outcome)
    ensures
        cli.report(outcome).consistent(),
        cli.report(outcome).exit_code() == 0 || cli.report(outcome).exit_code() == 1,
        cli.report(outcome).exit_code() == 0 <==> cli.report(outcome).result == Code::Success,
        cli.report(outcome).result == Code::Success <==> (outcome matches Outcome::Exited {
            code,
            stdout,
            ..
        } && code == Some(0i32) && valid_utf8(stdout@)),
{
}

/// Whether the process ended with the exit code 0.
fn is_zero(code: Option<i32>) -> (r: bool)
    ensures
        r == (code == Some(0i32)),
{
    match code {
        Some(n) => n == 0,
        None => false,
    }
}

} // verus!
