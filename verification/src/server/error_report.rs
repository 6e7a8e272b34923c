//! Reports of errors, for clients.

use vstd::prelude::*;

use crate::base::bytes;
use crate::base::name_set;
use crate::base::text::chars_of;

verus! {

/// One error in a chain of causes.
pub struct Cause {
    pub message: String,
    /// The text of the backtrace, where there is one.
    pub backtrace: Option<String>,
    /// Whether the error is the result of another query.
    pub nested_query: bool,
}

/// An error, with what caused it.
pub struct ErrorReport {
    pub message: String,
    pub backtrace: Vec<String>,
    pub nested_query: bool,
    pub cause: Option<Box<ErrorReport>>,
}

/// An error over texts.
pub struct ReportModel {
    pub message: Seq<char>,
    pub backtrace: Seq<Seq<char>>,
    pub nested_query: bool,
    pub cause: Option<Box<ReportModel>>,
}

/// The lines of a backtrace: none where there is none.
pub open spec fn backtrace_lines(backtrace: Option<String>) -> Seq<Seq<char>> {
    match backtrace {
        Some(text) => bytes::split_on(text@, '\n'),
        None => Seq::empty(),
    }
}

pub open spec fn report_model(r: ErrorReport) -> ReportModel
    decreases r,
{
    ReportModel {
        message: r.message@,
        backtrace: name_set::texts(r.backtrace@),
        nested_query: r.nested_query,
        cause: match r.cause {
            Some(c) => Some(Box::new(report_model(*c))),
            None => None,
        },
    }
}

/// A chain of causes, each behind the one that comes after it.
pub open spec fn chain_model(causes: Seq<Cause>) -> Option<Box<ReportModel>>
    decreases causes.len(),
{
    if causes.len() == 0 {
        None
    } else {
        let c = causes.last();
        Some(
            Box::new(
                ReportModel {
                    message: c.message@,
                    backtrace: backtrace_lines(c.backtrace),
                    nested_query: c.nested_query,
                    cause: chain_model(causes.drop_last()),
                },
            ),
        )
    }
}

/// The lines of a backtrace.
pub fn format_backtrace(backtrace: &str) -> (r: Vec<String>)
    ensures
        name_set::texts(r@) == bytes::split_on(backtrace@, '\n'),
{
    let chars = chars_of(backtrace);
    let mut lines: Vec<String> = Vec::new();
    let mut current: String = String::new();
    let mut i: usize = 0;
    proof {
        assert(backtrace@.take(0) =~= Seq::<char>::empty());
        assert(name_set::texts(lines@).push(current@) =~= seq![Seq::<char>::empty()]);
    }
    while i < chars.len()
        invariant
            chars@ == backtrace@,
            i <= chars@.len(),
            name_set::texts(lines@).push(current@) == bytes::split_on(
                backtrace@.take(i as int),
                '\n',
            ),
        decreases chars@.len() - i,
    {
        let ghost done = name_set::texts(lines@);
        let ghost before = done.push(current@);
        proof {
            assert(backtrace@.take(i + 1).drop_last() =~= backtrace@.take(i as int));
            assert(backtrace@.take(i + 1).last() == chars@[i as int]);
            assert(before.drop_last() =~= done);
        }
        if chars[i] == '\n' {
            let ghost line = current@;
            lines.push(current);
            current = String::new();
            assert(name_set::texts(lines@) =~= done.push(line));
            assert(current@ =~= Seq::<char>::empty());
        } else {
            current.push(chars[i]);
        }
        i += 1;
    }
    assert(backtrace@.take(backtrace@.len() as int) =~= backtrace@);
    let ghost done = name_set::texts(lines@);
    let ghost line = current@;
    lines.push(current);
    assert(name_set::texts(lines@) =~= done.push(line));
    lines
}

fn optional_backtrace(backtrace: &Option<String>) -> (r: Vec<String>)
    ensures
        name_set::texts(r@) == backtrace_lines(*backtrace),
{
    match backtrace {
        Some(text) => format_backtrace(text.as_str()),
        None => {
            let r: Vec<String> = Vec::new();
            assert(name_set::texts(r@) =~= Seq::<Seq<char>>::empty());
            r
        },
    }
}

/// The report of an error of a query: the causes of its chain, outermost first, come out with the
/// innermost one directly behind the error.
pub fn prepare_internal_error(outer: &Cause, chain: &Vec<Cause>) -> (r: ErrorReport)
    ensures
        report_model(r) == (ReportModel {
            message: outer.message@,
            backtrace: backtrace_lines(outer.backtrace),
            nested_query: true,
            cause: chain_model(chain@),
        }),
{
    let mut prev: Option<Box<ErrorReport>> = None;
    let mut i: usize = 0;
    assert(chain@.take(0) =~= Seq::<Cause>::empty());
    while i < chain.len()
        invariant
            i <= chain@.len(),
            chain_model(chain@.take(i as int)) == match prev {
                Some(c) => Some(Box::new(report_model(*c))),
                None => None,
            },
        decreases chain@.len() - i,
    {
        assert(chain@.take(i + 1).drop_last() =~= chain@.take(i as int));
        assert(chain@.take(i + 1).last() == chain@[i as int]);
        let report = ErrorReport {
            message: chain[i].message.clone(),
            backtrace: optional_backtrace(&chain[i].backtrace),
            nested_query: chain[i].nested_query,
            cause: prev,
        };
        prev = Some(Box::new(report));
        i += 1;
    }
    assert(chain@.take(chain@.len() as int) =~= chain@);
    ErrorReport {
        message: outer.message.clone(),
        backtrace: optional_backtrace(&outer.backtrace),
        nested_query: true,
        cause: prev,
    }
}

/// The cause that comes last in a chain is told first, with all before it behind it.
pub proof fn later_causes_are_told_first(causes: Seq<Cause>, c: Cause)
    ensures
        chain_model(Seq::empty()) is None,
        chain_model(causes.push(c)) matches Some(report) && {
            &&& report.message == c.message@
            &&& report.backtrace == backtrace_lines(c.backtrace)
            &&& report.nested_query == c.nested_query
            &&& report.cause == chain_model(causes)
        },
{
    assert(causes.push(c).drop_last() =~= causes);
}

/// The lines of a backtrace with newlines between them are its text, and no line holds one.
pub proof fn backtraces_are_told_line_by_line(backtrace: Option<String>, i: int)
    ensures
        backtrace is None ==> backtrace_lines(backtrace).len() == 0,
        backtrace matches Some(text) ==> bytes::joined_with(backtrace_lines(backtrace), '\n') == text@,
        0 <= i < backtrace_lines(backtrace).len() ==> !backtrace_lines(backtrace)[i].contains('\n'),
{
    if let Some(text) = backtrace {
        bytes::split_pieces_are_the_whole(text@, '\n');
        bytes::split_on_pieces(text@, '\n');
    }
}

/// A report is told as it is, with its cause behind it.
pub proof fn reports_are_told_as_they_are(r: ErrorReport)
    ensures
        report_model(r).message == r.message@,
        report_model(r).backtrace == name_set::texts(r.backtrace@),
        report_model(r).nested_query == r.nested_query,
        match (r.cause, report_model(r).cause) {
            (Some(cause), Some(model)) => *model == report_model(*cause),
            (None, None) => true,
            _ => false,
        },
{
}

} // verus!
