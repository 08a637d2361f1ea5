//! Parsing every line of a file, stopping at the first that fails.
use vstd::prelude::*;
use crate::line_names::{line_spec, message_of, texts, LineNames};
use crate::text::{decimal, push_decimal};

verus! {

/// A line that does not parse: its index (counted from 1), its text, and why.
pub struct ParseError {
    pub index: usize,
    pub line: String,
    pub error: String,
}

impl ParseError {
    /// The report: `Line <index>: '<line>'`, a newline, then the reason.
    pub fn to_text(&self) -> (r: String)
        ensures
            r@ == "Line "@ + decimal(self.index as nat) + ": '"@ + self.line@ + "'\n"@
                + self.error@,
    {
        let mut out = String::from_str("Line ");
        push_decimal(&mut out, self.index);
        out.append(": '");
        out.append(self.line.as_str());
        out.append("'\n");
        out.append(self.error.as_str());
        out
    }
}

/// A record is what a line parses to.
pub open spec fn parsed_as(r: LineNames, line: Seq<char>, strict: bool) -> bool {
    line_spec(line, strict) == Ok::<(nat, Seq<Seq<char>>), crate::line_names::LineError>(
        (r.number as nat, r.name_seqs()),
    )
}

/// What loading the lines gives: a record for each line when all parse,
/// else the first line that does not, with its error.
pub open spec fn loaded(
    lines: Seq<Seq<char>>,
    strict: bool,
    r: Result<Vec<LineNames>, ParseError>,
) -> bool {
    match r {
        Ok(v) => v@.len() == lines.len() && forall|i: int|
            0 <= i < lines.len() ==> parsed_as(#[trigger] v@[i], lines[i], strict),
        Err(e) => 1 <= e.index <= lines.len() && (forall|j: int|
            0 <= j < e.index - 1 ==> (#[trigger] line_spec(lines[j], strict)) is Ok) && ({
            let k = e.index - 1;
            &&& line_spec(lines[k], strict) is Err
            &&& e.line@ == lines[k]
            &&& e.error@ == message_of(line_spec(lines[k], strict)->Err_0)
        }),
    }
}

/// Parses each line in order; the first that fails ends the work.
pub fn parse_lines(lines: &Vec<String>, strict: bool) -> (r: Result<Vec<LineNames>, ParseError>)
    ensures
        loaded(texts(lines@), strict, r),
{
    let ghost ls = texts(lines@);
    let mut result: Vec<LineNames> = Vec::new();
    let mut i: usize = 0;
    while i < lines.len()
        invariant
            i <= lines.len(),
            ls == texts(lines@),
            result@.len() == i,
            forall|j: int| 0 <= j < i ==> parsed_as(#[trigger] result@[j], ls[j], strict),
        decreases lines.len() - i,
    {
        match LineNames::parse_from_str(lines[i].as_str(), strict) {
            Ok(v) => {
                result.push(v);
            },
            Err(error) => {
                let e = ParseError { index: i + 1, line: lines[i].clone(), error };
                assert forall|j: int| 0 <= j < i implies (#[trigger] line_spec(ls[j], strict)) is Ok by {
                    assert(parsed_as(result@[j], ls[j], strict));
                }
                return Err(e);
            },
        }
        i = i + 1;
    }
    Ok(result)
}

/// What `str::lines` gives for a text.
pub uninterp spec fn lines_of(s: Seq<char>) -> Seq<Seq<char>>;

/// Relies on `str::lines`: the lines of the text, which depend on the text alone.
#[verifier::external_body]
fn split_lines(s: &str) -> (r: Vec<String>)
    ensures
        texts(r@) == lines_of(s@),
{
    s.lines().map(|l| l.to_string()).collect()
}

/// Parses each line of a file's text in order; the first that fails ends the work.
pub fn parse_file(content: &str, strict: bool) -> (r: Result<Vec<LineNames>, ParseError>)
    ensures
        loaded(lines_of(content@), strict, r),
{
    let lines = split_lines(content);
    parse_lines(&lines, strict)
}

} // verus!
