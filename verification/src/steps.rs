//! The order in which a build does its work.

use crate::target::{RunContext, RunTarget};
use crate::text::optional_text;
use vstd::prelude::*;
use vstd::string::*;

verus! {

/// What a build does next.
#[derive(Debug, Clone, Copy, PartialEq, Eq, Structural)]
pub enum BuildStep {
    /// Run the parser on the application.
    Parse,
    /// Read the parsed application and the host crate, and fill in the prefixes
    /// of the types.
    ReadManifest,
    /// Compile the expressions.
    CompileExpressions,
    /// Copy the packages and generate the re-exports, the coproduct and the
    /// cartridge.
    Generate,
    /// Build the chassis together with the cartridge.
    BuildChassis,
    /// Build the harness.
    BuildHarness,
    /// Nothing.
    Finished,
}

/// What ended a build before its time.
#[derive(Debug, Clone, Copy, PartialEq, Eq, Structural)]
pub enum BuildFailure {
    Parser,
    Chassis,
}

impl BuildStep {
    /// The step after this one.
    pub open spec fn following(self) -> BuildStep {
        match self {
            BuildStep::Parse => BuildStep::ReadManifest,
            BuildStep::ReadManifest => BuildStep::CompileExpressions,
            BuildStep::CompileExpressions => BuildStep::Generate,
            BuildStep::Generate => BuildStep::BuildChassis,
            BuildStep::BuildChassis => BuildStep::BuildHarness,
            BuildStep::BuildHarness => BuildStep::Finished,
            BuildStep::Finished => BuildStep::Finished,
        }
    }

    /// How the build ends where the command of this step does not succeed.
    pub open spec fn failure(self) -> Option<BuildFailure> {
        match self {
            BuildStep::Parse => Some(BuildFailure::Parser),
            BuildStep::BuildChassis => Some(BuildFailure::Chassis),
            _ => None,
        }
    }

    /// What comes after this step, if its command ended with `exit_code`.
    pub open spec fn after(self, exit_code: Option<i32>) -> Result<BuildStep, BuildFailure> {
        if self.failure() is Some && exit_code != Some(0i32) {
            Err(self.failure()->0)
        } else {
            Ok(self.following())
        }
    }

    /// What comes after this step. The parser and the build of the chassis must
    /// exit with 0; a command that did not exit has no exit code. How the other
    /// steps end makes no difference.
    pub fn next(self, exit_code: Option<i32>) -> (r: Result<BuildStep, BuildFailure>)
        ensures
            r == self.after(exit_code),
    {
        let succeeded: bool = match exit_code {
            Some(code) => code == 0,
            None => false,
        };
        match self {
            BuildStep::Parse => if succeeded {
                Ok(BuildStep::ReadManifest)
            } else {
                Err(BuildFailure::Parser)
            },
            BuildStep::ReadManifest => Ok(BuildStep::CompileExpressions),
            BuildStep::CompileExpressions => Ok(BuildStep::Generate),
            BuildStep::Generate => Ok(BuildStep::BuildChassis),
            BuildStep::BuildChassis => if succeeded {
                Ok(BuildStep::BuildHarness)
            } else {
                Err(BuildFailure::Chassis)
            },
            BuildStep::BuildHarness => Ok(BuildStep::Finished),
            BuildStep::Finished => Ok(BuildStep::Finished),
        }
    }

    /// What is printed before this step.
    pub open spec fn announced(self, target: RunTarget, should_also_run: bool) -> Option<
        Seq<char>,
    > {
        match self {
            BuildStep::Parse => Some("🛠 Running `cargo build`..."@),
            BuildStep::ReadManifest => None,
            BuildStep::CompileExpressions => Some("🧮 Compiling expressions"@),
            BuildStep::Generate => Some("🦀 Generating Rust"@),
            BuildStep::BuildChassis => Some("🧱 Building cartridge with cargo"@),
            BuildStep::BuildHarness => Some(
                (if should_also_run {
                    "🏃‍ Running fully compiled "@
                } else {
                    "🛠 Building fully compiled "@
                }) + target.name() + " app..."@,
            ),
            BuildStep::Finished => None,
        }
    }

    /// What is printed before this step.
    pub fn announcement(self, ctx: &RunContext) -> (r: Option<String>)
        ensures
            optional_text(r) == self.announced(ctx.target, ctx.should_also_run),
    {
        match self {
            BuildStep::Parse => Some(String::from_str("🛠 Running `cargo build`...")),
            BuildStep::ReadManifest => None,
            BuildStep::CompileExpressions => Some(String::from_str("🧮 Compiling expressions")),
            BuildStep::Generate => Some(String::from_str("🦀 Generating Rust")),
            BuildStep::BuildChassis => Some(
                String::from_str("🧱 Building cartridge with cargo"),
            ),
            BuildStep::BuildHarness => {
                let mut s: String = if ctx.should_also_run {
                    String::from_str("🏃‍ Running fully compiled ")
                } else {
                    String::from_str("🛠 Building fully compiled ")
                };
                s.append(RunTarget::into(&ctx.target));
                s.append(" app...");
                Some(s)
            },
            BuildStep::Finished => None,
        }
    }
}

impl BuildFailure {
    /// What is said of the failure.
    pub open spec fn said(self) -> Option<Seq<char>> {
        match self {
            BuildFailure::Parser => Some(
                "Parsing failed — there is likely a syntax error in the provided pax"@,
            ),
            BuildFailure::Chassis => None,
        }
    }

    /// What is said of the failure. The build of the chassis has printed its
    /// own errors.
    pub fn message(self) -> (r: Option<String>)
        ensures
            optional_text(r) == self.said(),
    {
        match self {
            BuildFailure::Parser => Some(
                String::from_str(
                    "Parsing failed — there is likely a syntax error in the provided pax",
                ),
            ),
            BuildFailure::Chassis => None,
        }
    }
}

/// Where a build is after steps that ended with these exit codes.
pub open spec fn progress(exit_codes: Seq<Option<i32>>) -> Result<BuildStep, BuildFailure>
    decreases exit_codes.len(),
{
    if exit_codes.len() == 0 {
        Ok(BuildStep::Parse)
    } else {
        match progress(exit_codes.drop_last()) {
            Ok(step) => step.after(exit_codes.last()),
            Err(failure) => Err(failure),
        }
    }
}

/// How many steps come before this one.
pub open spec fn steps_before(step: BuildStep) -> int {
    match step {
        BuildStep::Parse => 0,
        BuildStep::ReadManifest => 1,
        BuildStep::CompileExpressions => 2,
        BuildStep::Generate => 3,
        BuildStep::BuildChassis => 4,
        BuildStep::BuildHarness => 5,
        BuildStep::Finished => 6,
    }
}

/// A build takes its steps one by one: it is at a step only after all steps
/// before that one, and past the parser and the chassis only if they exited
/// with 0. It ends early only where one of them did not.
pub proof fn a_build_takes_every_step(exit_codes: Seq<Option<i32>>)
    ensures
        match progress(exit_codes) {
            Ok(step) => {
                &&& if step is Finished {
                    exit_codes.len() >= steps_before(step)
                } else {
                    exit_codes.len() == steps_before(step)
                }
                &&& steps_before(step) > steps_before(BuildStep::Parse) ==> exit_codes[0] == Some(
                    0i32,
                )
                &&& steps_before(step) > steps_before(BuildStep::BuildChassis) ==> exit_codes[4]
                    == Some(0i32)
            },
            Err(BuildFailure::Parser) => exit_codes.len() > 0 && exit_codes[0] != Some(0i32),
            Err(BuildFailure::Chassis) => exit_codes.len() > 4 && exit_codes[4] != Some(0i32),
        },
    decreases exit_codes.len(),
{
    if exit_codes.len() > 0 {
        a_build_takes_every_step(exit_codes.drop_last());
    }
}

/// A build whose commands exit with 0 finishes.
pub proof fn a_build_without_failures_finishes(exit_codes: Seq<Option<i32>>)
    requires
        exit_codes.len() >= steps_before(BuildStep::Finished),
        forall|i: int| 0 <= i < exit_codes.len() ==> exit_codes[i] == Some(0i32),
    ensures
        progress(exit_codes) == Ok::<BuildStep, BuildFailure>(BuildStep::Finished),
{
    a_build_takes_every_step(exit_codes);
}

} // verus!
