//! The log record that producers send, and what the pipeline adds to it
//! before indexing.

use vstd::prelude::*;

use crate::text::{
    middle_is_determined, push_signed_decimal, signed_decimal, signed_decimal_is_injective, signed_decimal_reads_back,
    signed_decimal_value,
};

verus! {

/// A point in time in UTC: whole seconds since the Unix epoch and the
/// nanoseconds past them (up to 1_999_999_999 within a leap second).
#[derive(Debug, Clone, Copy, PartialEq, Eq)]
pub struct Timestamp {
    pub secs: i64,
    pub nanos: u32,
}

/// One log record, as a producer describes it.
pub struct LogEntry {
    pub process: i64,
    pub channel: String,
    pub func_name: String,
    pub args: Vec<String>,
    pub filename: String,
    pub module: String,
    pub host: Option<String>,
    pub message: String,
    pub lineno: i32,
    pub time: Timestamp,
    pub level: i32,
    pub ty: Option<String>,
    pub ts: Option<Timestamp>,
}

/// The view of an optional string.
pub open spec fn opt_view(s: Option<String>) -> Option<Seq<char>> {
    match s {
        Some(v) => Some(v@),
        None => None,
    }
}

/// The fields that the pipeline never changes are the same in `a` and `b`.
pub open spec fn same_producer_fields(a: LogEntry, b: LogEntry) -> bool {
    &&& a.process == b.process
    &&& a.channel == b.channel
    &&& a.func_name == b.func_name
    &&& a.args == b.args
    &&& a.filename == b.filename
    &&& a.module == b.module
    &&& a.message == b.message
    &&& a.lineno == b.lineno
    &&& a.time == b.time
    &&& a.level == b.level
}

/// The host name of this machine, when the system gives one.
#[verifier::external_body]
fn machine_hostname() -> Option<String> {
    hostname::get_hostname()
}

/// The one-line description of a record.
pub open spec fn spec_display(message: Seq<char>, func_name: Seq<char>, lineno: int) -> Seq<char> {
    "Msg: '"@ + message + "' @ "@ + func_name + " line: "@ + signed_decimal(lineno)
}

/// The description tells records apart by their message, and by their
/// function: for the same function and line, different messages give
/// different descriptions, and for the same message and line, different
/// functions do.
pub proof fn display_names_message_and_function(
    m1: Seq<char>,
    m2: Seq<char>,
    f1: Seq<char>,
    f2: Seq<char>,
    line: int,
)
    ensures
        spec_display(m1, f1, line) == spec_display(m2, f1, line) <==> m1 == m2,
        spec_display(m1, f1, line) == spec_display(m1, f2, line) <==> f1 == f2,
{
    let tail1 = "' @ "@ + f1 + " line: "@ + signed_decimal(line);
    assert(spec_display(m1, f1, line) =~= "Msg: '"@ + m1 + tail1);
    assert(spec_display(m2, f1, line) =~= "Msg: '"@ + m2 + tail1);
    middle_is_determined("Msg: '"@, m1, m2, tail1);
    let head = "Msg: '"@ + m1 + "' @ "@;
    let tail2 = " line: "@ + signed_decimal(line);
    assert(spec_display(m1, f1, line) =~= head + f1 + tail2);
    assert(spec_display(m1, f2, line) =~= head + f2 + tail2);
    middle_is_determined(head, f1, f2, tail2);
}

/// The description names the record's full line number: what follows
/// the text before it reads back as that number, so records that differ
/// only in their line number are described differently.
pub proof fn display_names_the_line(message: Seq<char>, func_name: Seq<char>, a: int, b: int)
    ensures
        signed_decimal_value(
            spec_display(message, func_name, a).skip(
                ("Msg: '"@ + message + "' @ "@ + func_name + " line: "@).len() as int,
            ),
        ) == a,
        spec_display(message, func_name, a) == spec_display(message, func_name, b) <==> a == b,
{
    let prefix = "Msg: '"@ + message + "' @ "@ + func_name + " line: "@;
    assert(spec_display(message, func_name, a) == prefix + signed_decimal(a));
    assert(spec_display(message, func_name, b) == prefix + signed_decimal(b));
    assert((prefix + signed_decimal(a)).skip(prefix.len() as int) =~= signed_decimal(a));
    assert((prefix + signed_decimal(b)).skip(prefix.len() as int) =~= signed_decimal(b));
    signed_decimal_reads_back(a);
    signed_decimal_is_injective(a, b);
}

impl LogEntry {
    /// Completes a record with what the pipeline adds: the type when the
    /// producer gave none, the given host name when the producer gave
    /// none, and the indexing timestamp, which is the record's own time.
    pub fn fill_defaults(&mut self, default_ty: &str, hostname: Option<String>)
        ensures
            same_producer_fields(*final(self), *old(self)),
            opt_view(final(self).ty) == match old(self).ty {
                Some(t) => Some(t@),
                None => Some(default_ty@),
            },
            opt_view(final(self).host) == match old(self).host {
                Some(h) => Some(h@),
                None => opt_view(hostname),
            },
            final(self).ts == Some(old(self).time),
    {
        if self.ty.is_none() {
            self.ty = Some(default_ty.to_owned());
        }
        if self.host.is_none() {
            self.host = hostname;
        }
        self.ts = Some(self.time);
    }

    /// Completes a record as `fill_defaults` does, asking the system for
    /// this machine's host name when the producer gave none.
    pub fn enrich(&mut self, default_ty: &str)
        ensures
            same_producer_fields(*final(self), *old(self)),
            opt_view(final(self).ty) == match old(self).ty {
                Some(t) => Some(t@),
                None => Some(default_ty@),
            },
            old(self).host is Some ==> opt_view(final(self).host) == opt_view(old(self).host),
            final(self).ts == Some(old(self).time),
    {
        let hostname = if self.host.is_none() {
            machine_hostname()
        } else {
            None
        };
        self.fill_defaults(default_ty, hostname);
    }

    /// `Msg: '<message>' @ <function> line: <line>`.
    pub fn to_display_string(&self) -> (s: String)
        ensures
            s@ == spec_display(self.message@, self.func_name@, self.lineno as int),
    {
        let mut s = String::new();
        s.append("Msg: '");
        s.append(self.message.as_str());
        s.append("' @ ");
        s.append(self.func_name.as_str());
        s.append(" line: ");
        push_signed_decimal(&mut s, self.lineno as i64);
        s
    }
}

} // verus!
