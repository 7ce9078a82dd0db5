use vstd::prelude::*;
use crate::printer::text_of;

verus! {

/// Where in the source an unrecoverable failure was raised.
pub struct Location {
    pub file: String,
    pub line: u32,
    pub column: u32,
}

/// An unrecoverable failure: its message, if it carries text, and where it
/// was raised, if that is known.
pub struct FailureEvent {
    pub message: Option<String>,
    pub location: Option<Location>,
}

/// The character of a decimal digit.
pub open spec fn digit_char(d: int) -> char {
    if d == 0 {
        '0'
    } else if d == 1 {
        '1'
    } else if d == 2 {
        '2'
    } else if d == 3 {
        '3'
    } else if d == 4 {
        '4'
    } else if d == 5 {
        '5'
    } else if d == 6 {
        '6'
    } else if d == 7 {
        '7'
    } else if d == 8 {
        '8'
    } else {
        '9'
    }
}

/// `n` written in decimal, without leading zeros.
pub open spec fn decimal(n: nat) -> Seq<char>
    decreases n,
{
    if n < 10 {
        seq![digit_char(n as int)]
    } else {
        decimal(n / 10).push(digit_char((n % 10) as int))
    }
}

/// The text used when a failure carries no message.
pub open spec fn fallback_message() -> Seq<char> {
    "unknown location"@
}

/// The diagnostic line for a failure with message `msg` (absent: the
/// fallback text) raised at `loc` (file, line, column), if known.
pub open spec fn failure_text(msg: Option<Seq<char>>, loc: Option<(Seq<char>, nat, nat)>) -> Seq<
    char,
> {
    let m = match msg {
        Some(t) => t,
        None => fallback_message(),
    };
    match loc {
        Some(l) => "Panicked at '"@ + m + "', "@ + l.0 + ":"@ + decimal(l.1) + ":"@ + decimal(
            l.2,
        ),
        None => "Panicked at an unknown location '"@ + m + "'"@,
    }
}

impl Location {
    /// The file, line and column.
    pub open spec fn model(&self) -> (Seq<char>, nat, nat) {
        (self.file@, self.line as nat, self.column as nat)
    }
}

impl FailureEvent {
    /// The message's text, if it carries one.
    pub open spec fn message_model(&self) -> Option<Seq<char>> {
        match self.message {
            Some(m) => Some(m@),
            None => None,
        }
    }

    /// The file, line and column, if known.
    pub open spec fn location_model(&self) -> Option<(Seq<char>, nat, nat)> {
        match self.location {
            Some(l) => Some(l.model()),
            None => None,
        }
    }
}

/// The character of the decimal digit `d`.
fn digit(d: u32) -> (c: char)
    requires
        d < 10,
    ensures
        c == digit_char(d as int),
{
    if d == 0 {
        '0'
    } else if d == 1 {
        '1'
    } else if d == 2 {
        '2'
    } else if d == 3 {
        '3'
    } else if d == 4 {
        '4'
    } else if d == 5 {
        '5'
    } else if d == 6 {
        '6'
    } else if d == 7 {
        '7'
    } else if d == 8 {
        '8'
    } else {
        '9'
    }
}

/// Appends the decimal digits of `n` to `out`.
fn push_decimal(n: u32, out: &mut Vec<char>)
    ensures
        final(out)@ == old(out)@ + decimal(n as nat),
    decreases n,
{
    if n >= 10 {
        push_decimal(n / 10, out);
    }
    out.push(digit(n % 10));
    assert(final(out)@ =~= old(out)@ + decimal(n as nat));
}

/// `n` written in decimal.
pub fn decimal_text(n: u32) -> (r: String)
    ensures
        r@ == decimal(n as nat),
{
    let mut digits: Vec<char> = Vec::new();
    push_decimal(n, &mut digits);
    assert(digits@ =~= decimal(n as nat));
    text_of(digits.as_slice())
}

/// Formats a failure as one diagnostic line: `Panicked at '<message>',
/// <file>:<line>:<column>` when the location is known, `Panicked at an unknown
/// location '<message>'` otherwise.
pub fn failure_message(event: &FailureEvent) -> (r: String)
    ensures
        r@ == failure_text(event.message_model(), event.location_model()),
{
    let mut r: String;
    let msg: &str = match &event.message {
        Some(m) => m.as_str(),
        None => "unknown location",
    };
    match &event.location {
        Some(loc) => {
            r = "Panicked at '".to_owned();
            r.append(msg);
            r.append("', ");
            r.append(loc.file.as_str());
            r.append(":");
            r.append(decimal_text(loc.line).as_str());
            r.append(":");
            r.append(decimal_text(loc.column).as_str());
        },
        None => {
            r = "Panicked at an unknown location '".to_owned();
            r.append(msg);
            r.append("'");
        },
    }
    r
}

} // verus!
