//! Conversions between the formats of policies and workflows: which one a
//! request asks for, and how the phrases of a policy are joined into text.

use vstd::prelude::*;
use crate::graph::names_view;

verus! {

/// A format that a request may convert from or to.
#[derive(Clone, Copy, Debug, PartialEq, Eq, Structural)]
pub enum CodeFormat {
    EFlintJson,
    EFlint,
    WIR,
    BraneScript,
}

/// The formats that a request converts between.
#[derive(Clone, Copy, Debug, PartialEq, Eq, Structural)]
pub struct ConvQuery {
    pub from: CodeFormat,
    pub to: CodeFormat,
}

/// A conversion that the service performs.
#[derive(Clone, Copy, Debug, PartialEq, Eq, Structural)]
pub enum Conversion {
    /// From eFLINT text to its JSON form.
    EFlintToJson,
    /// From the JSON form of eFLINT to text.
    JsonToEFlint,
    /// From workflow source text to the analysed workflow.
    BraneScriptToWir,
}

/// Why a request names no conversion.
#[derive(Clone, Copy, Debug, PartialEq, Eq, Structural)]
pub enum ConvRefusal {
    /// Both formats are the same.
    SameFormat,
    /// The service does not convert between the two formats.
    Unsupported,
}

/// The conversion that a pair of formats asks for.
pub open spec fn conversion_of(query: ConvQuery) -> Result<Conversion, ConvRefusal> {
    if query.from == query.to {
        Err(ConvRefusal::SameFormat)
    } else if query.from == CodeFormat::EFlint && query.to == CodeFormat::EFlintJson {
        Ok(Conversion::EFlintToJson)
    } else if query.from == CodeFormat::EFlintJson && query.to == CodeFormat::EFlint {
        Ok(Conversion::JsonToEFlint)
    } else if query.from == CodeFormat::BraneScript && query.to == CodeFormat::WIR {
        Ok(Conversion::BraneScriptToWir)
    } else {
        Err(ConvRefusal::Unsupported)
    }
}

impl ConvQuery {
    /// Decides which conversion the request asks for, or why it asks for
    /// none.
    pub fn conversion(&self) -> (res: Result<Conversion, ConvRefusal>)
        ensures
            res == conversion_of(*self),
    {
        if self.from == self.to {
            Err(ConvRefusal::SameFormat)
        } else if self.from == CodeFormat::EFlint && self.to == CodeFormat::EFlintJson {
            Ok(Conversion::EFlintToJson)
        } else if self.from == CodeFormat::EFlintJson && self.to == CodeFormat::EFlint {
            Ok(Conversion::JsonToEFlint)
        } else if self.from == CodeFormat::BraneScript && self.to == CodeFormat::WIR {
            Ok(Conversion::BraneScriptToWir)
        } else {
            Err(ConvRefusal::Unsupported)
        }
    }
}

/// The text that tells a client why its request names no conversion.
pub open spec fn refusal_text(refusal: ConvRefusal) -> Seq<char> {
    match refusal {
        ConvRefusal::SameFormat => "From and into can't be the same format"@,
        ConvRefusal::Unsupported => "Invalid conversion"@,
    }
}

impl ConvRefusal {
    /// The status of the reply: the request is at fault.
    pub fn status(&self) -> (res: u16)
        ensures
            res == 400,
    {
        400
    }

    /// The text that tells the client why its request names no conversion.
    pub fn message(&self) -> (res: String)
        ensures
            res@ == refusal_text(*self),
    {
        match self {
            ConvRefusal::SameFormat => "From and into can't be the same format".to_owned(),
            ConvRefusal::Unsupported => "Invalid conversion".to_owned(),
        }
    }
}

/// The lines joined with one line feed between each two of them.
pub open spec fn joined_lines(lines: Seq<Seq<char>>) -> Seq<char>
    decreases lines.len(),
{
    if lines.len() == 0 {
        Seq::empty()
    } else if lines.len() == 1 {
        lines[0]
    } else {
        joined_lines(lines.drop_last()) + seq!['\n'] + lines.last()
    }
}

/// Joins lines with one line feed between each two of them.
pub fn join_lines(lines: &Vec<String>) -> (res: String)
    ensures
        res@ == joined_lines(names_view(lines@)),
{
    let mut res = String::new();
    let mut i: usize = 0;
    while i < lines.len()
        invariant
            i <= lines.len(),
            res@ == joined_lines(names_view(lines@).subrange(0, i as int)),
        decreases lines.len() - i,
    {
        let ghost before = names_view(lines@).subrange(0, i as int);
        let ghost after = names_view(lines@).subrange(0, i + 1);
        proof {
            reveal_strlit("\n");
            assert(after.drop_last() =~= before);
            assert(after.last() == lines[i as int]@);
        }
        if i > 0 {
            res.append("\n");
        }
        res.append(lines[i].as_str());
        proof {
            if i == 0 {
                assert(res@ =~= lines[i as int]@);
            } else {
                assert(res@ =~= joined_lines(before) + seq!['\n'] + lines[i as int]@);
            }
        }
        i += 1;
    }
    assert(names_view(lines@).subrange(0, i as int) =~= names_view(lines@));
    res
}

/// The text without the white space at its start and at its end.
pub uninterp spec fn trimmed(text: Seq<char>) -> Seq<char>;

/// `str::trim`: the text without leading and trailing white space, which
/// depends on the text alone.
#[verifier::external_body]
fn trim(text: &str) -> (res: &str)
    ensures
        res@ == trimmed(text@),
{
    text.trim()
}

/// Renders the phrases of a policy as text: one phrase a line, without
/// white space before the first and after the last.
pub fn join_phrases(phrases: &Vec<String>) -> (res: String)
    ensures
        res@ == trimmed(joined_lines(names_view(phrases@))),
{
    let text = join_lines(phrases);
    trim(text.as_str()).to_owned()
}

} // verus!
