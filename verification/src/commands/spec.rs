//! Validating the description of an agent.

use crate::text as t;
use vstd::prelude::*;
use vstd::string::*;

verus! {

#[derive(Debug, PartialEq, Eq)]
pub struct SpecCommand {
    pub command: SpecSubcommand,
}

#[derive(Debug, PartialEq, Eq)]
pub enum SpecSubcommand {
    Validate { spec: String, json: bool },
}

/// What a validation found.
#[derive(Debug, PartialEq, Eq)]
pub struct ValidationReport<L> {
    pub valid: bool,
    pub errors: L,
    pub warnings: L,
}

impl View for ValidationReport<Vec<String>> {
    type V = ValidationReport<Seq<Seq<char>>>;

    open spec fn view(&self) -> ValidationReport<Seq<Seq<char>>> {
        ValidationReport {
            valid: self.valid,
            errors: t::texts(self.errors@),
            warnings: t::texts(self.warnings@),
        }
    }
}

impl ValidationReport<Seq<Seq<char>>> {
    pub open spec fn lines(self) -> Seq<Seq<char>> {
        seq![
            if self.valid {
                "valid"@
            } else {
                "invalid"@
            },
        ] + t::labelled("error: "@, self.errors) + t::labelled("warning: "@, self.warnings)
    }
}

pub fn print_report(report: &ValidationReport<Vec<String>>) -> (r: Vec<String>)
    ensures
        t::texts(r@) == report@.lines(),
{
    let word = if report.valid {
        "valid"
    } else {
        "invalid"
    };
    let mut lines = t::one_line(word.to_owned());
    t::append_lines(&mut lines, &t::label_each("error: ", &report.errors));
    t::append_lines(&mut lines, &t::label_each("warning: ", &report.warnings));
    lines
}

/// The lines on agents that the description collides with.
pub open spec fn collision_lines(collisions: Seq<Seq<char>>) -> Seq<Seq<char>> {
    if collisions.len() == 0 {
        Seq::empty()
    } else {
        seq!["\nnetwork/image collisions:"@] + t::labelled("  \u{2717} "@, collisions)
    }
}

/// What a validation prints, and how it ends.
#[derive(Debug, PartialEq, Eq)]
pub struct SpecOutcome {
    pub lines: Vec<String>,
    /// The lines for the error output.
    pub errors: Vec<String>,
    /// The error that the command ends with.
    pub failure: Option<String>,
}

pub open spec fn verdict(valid: bool, collisions: Seq<Seq<char>>) -> Option<Seq<char>> {
    if !valid {
        Some("spec is invalid"@)
    } else if collisions.len() > 0 {
        Some("spec collides with an existing agent \u{2014} "@ + t::joined(collisions, "; "@))
    } else {
        None
    }
}

/// Reports on a validation; a report in JSON prints no lines.
pub fn handle_spec(report: &ValidationReport<Vec<String>>, collisions: &Vec<String>, json: bool) -> (r: SpecOutcome)
    ensures
        t::texts(r.lines@) == if json {
            Seq::<Seq<char>>::empty()
        } else {
            report@.lines()
        },
        t::texts(r.errors@) == if json {
            Seq::<Seq<char>>::empty()
        } else {
            collision_lines(t::texts(collisions@))
        },
        t::opt_view(r.failure) == verdict(report.valid, t::texts(collisions@)),
{
    let lines = if json {
        t::no_lines()
    } else {
        print_report(report)
    };
    let errors = if json || collisions.len() == 0 {
        t::no_lines()
    } else {
        let mut e = t::one_line("\nnetwork/image collisions:".to_owned());
        t::append_lines(&mut e, &t::label_each("  \u{2717} ", collisions));
        e
    };
    let failure: Option<String> = if !report.valid {
        Some("spec is invalid".to_owned())
    } else if collisions.len() > 0 {
        Some(
            "spec collides with an existing agent \u{2014} ".to_owned().concat(t::join(collisions, "; ").as_str()),
        )
    } else {
        None
    };
    SpecOutcome { lines, errors, failure }
}

/// A validation succeeds exactly for a valid description without collisions.
pub proof fn law_success_needs_a_valid_description(valid: bool, collisions: Seq<Seq<char>>)
    ensures
        verdict(valid, collisions) is None <==> valid && collisions.len() == 0,
{
}

/// The report says whether the description is valid, then each error and each
/// warning; a collision is named in the verdict.
pub proof fn law_a_description_is_reported_on(
    r: ValidationReport<Seq<Seq<char>>>,
    collisions: Seq<Seq<char>>,
    i: int,
)
    ensures
        r.lines().len() == 1 + r.errors.len() + r.warnings.len(),
        r.valid ==> r.lines()[0] == "valid"@,
        !r.valid ==> r.lines()[0] == "invalid"@,
        0 <= i < r.errors.len() ==> r.lines()[1 + i] == "error: "@ + r.errors[i],
        0 <= i < r.warnings.len() ==> r.lines()[1 + r.errors.len() + i] == "warning: "@ + r.warnings[i],
        0 <= i < collisions.len() ==> collision_lines(collisions).len() == collisions.len() + 1 && collision_lines(
            collisions,
        )[1 + i] == "  \u{2717} "@ + collisions[i],
        collision_lines(Seq::empty()).len() == 0,
        verdict(false, collisions) == Some("spec is invalid"@),
        collisions.len() > 0 ==> (verdict(true, collisions) matches Some(s) && t::ends(s, t::joined(collisions, "; "@))),
{
    let a = "spec collides with an existing agent \u{2014} "@;
    let z = t::joined(collisions, "; "@);
    let s = a + z;
    assert(s.subrange(s.len() - z.len(), s.len() as int) =~= z);
}

} // verus!
