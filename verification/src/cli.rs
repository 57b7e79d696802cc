//! What a command of the command line reports.

use crate::text::decimal;
use crate::text::push_decimal;
use vstd::prelude::*;

verus! {

/// The outcome of a command: a message of success or of failure.
pub enum CliResult {
    Success(String),
    Error(String),
}

/// The mathematical value of a [`CliResult`].
pub enum CliOutcome {
    Success(Seq<char>),
    Error(Seq<char>),
}

impl View for CliResult {
    type V = CliOutcome;

    open spec fn view(&self) -> CliOutcome {
        match self {
            CliResult::Success(m) => CliOutcome::Success(m@),
            CliResult::Error(m) => CliOutcome::Error(m@),
        }
    }
}

/// The line shown for an outcome: a mark and the message.
pub open spec fn outcome_line(outcome: CliOutcome) -> Seq<char> {
    match outcome {
        CliOutcome::Success(m) => "✓ "@ + m,
        CliOutcome::Error(m) => "✗ "@ + m,
    }
}

/// The outcome of translating the files of a directory, of which `translated`
/// went well and `failed` did not: a failure as soon as one file failed.
pub open spec fn project_outcome(translated: nat, failed: nat) -> CliOutcome {
    if failed > 0 {
        CliOutcome::Error("Транслировано: "@ + decimal(translated) + ", Ошибок: "@ + decimal(failed))
    } else {
        CliOutcome::Success("Проект транслирован: "@ + decimal(translated) + " файлов"@)
    }
}

impl CliResult {
    /// The line to show for the outcome.
    pub fn line(&self) -> (r: String)
        ensures
            r@ == outcome_line(self@),
    {
        match self {
            CliResult::Success(m) => {
                let mut r = String::from_str("✓ ");
                r.append(m.as_str());
                r
            },
            CliResult::Error(m) => {
                let mut r = String::from_str("✗ ");
                r.append(m.as_str());
                r
            },
        }
    }

    /// Whether the outcome is a failure.
    pub fn is_error(&self) -> (r: bool)
        ensures
            r == (self@ is Error),
    {
        match self {
            CliResult::Success(_) => false,
            CliResult::Error(_) => true,
        }
    }

    /// The outcome of translating the files of a directory.
    pub fn project_summary(translated: usize, failed: usize) -> (r: CliResult)
        ensures
            r@ == project_outcome(translated as nat, failed as nat),
    {
        if failed > 0 {
            let mut m = String::from_str("Транслировано: ");
            push_decimal(&mut m, translated);
            m.append(", Ошибок: ");
            push_decimal(&mut m, failed);
            CliResult::Error(m)
        } else {
            let mut m = String::from_str("Проект транслирован: ");
            push_decimal(&mut m, translated);
            m.append(" файлов");
            CliResult::Success(m)
        }
    }
}

} // verus!
