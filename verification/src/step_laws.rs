//! The order of the steps of a build, and what is said of them.

use crate::steps::{BuildFailure, BuildStep};
use crate::target::RunContext;
use crate::text::optional_text;
use vstd::prelude::*;
use vstd::string::*;

verus! {

/// Each step came after the one before, which ended with its exit code.
pub open spec fn is_run(steps: Seq<BuildStep>, exit_codes: Seq<Option<i32>>) -> bool {
    &&& steps.len() == exit_codes.len() + 1
    &&& steps[0] is Parse
    &&& forall|i: int|
        0 <= i < exit_codes.len() ==> call_ensures(
            BuildStep::next,
            (steps[i], #[trigger] exit_codes[i]),
            Ok::<BuildStep, BuildFailure>(steps[i + 1]),
        )
}

/// A build parses the application, reads it, compiles its expressions, generates
/// code, builds the chassis and builds the harness, in this order. It comes past
/// the parser and the chassis only where they exit with 0.
pub proof fn a_build_takes_its_steps_in_order(
    steps: Seq<BuildStep>,
    exit_codes: Seq<Option<i32>>,
)
    requires
        is_run(steps, exit_codes),
    ensures
        steps.len() > 1 ==> steps[1] is ReadManifest && exit_codes[0] == Some(0i32),
        steps.len() > 2 ==> steps[2] is CompileExpressions,
        steps.len() > 3 ==> steps[3] is Generate,
        steps.len() > 4 ==> steps[4] is BuildChassis,
        steps.len() > 5 ==> steps[5] is BuildHarness && exit_codes[4] == Some(0i32),
        forall|i: int| 6 <= i < steps.len() ==> #[trigger] steps[i] is Finished,
{
    let n = exit_codes.len() as int;
    if n > 0 {
        assert(exit_codes[0] == exit_codes[0]);
    }
    if n > 1 {
        assert(exit_codes[1] == exit_codes[1]);
    }
    if n > 2 {
        assert(exit_codes[2] == exit_codes[2]);
    }
    if n > 3 {
        assert(exit_codes[3] == exit_codes[3]);
    }
    if n > 4 {
        assert(exit_codes[4] == exit_codes[4]);
    }
    if n > 5 {
        assert(exit_codes[5] == exit_codes[5]);
    }
    assert forall|i: int| 6 <= i < steps.len() implies #[trigger] steps[i] is Finished by {
        lemma_finished(steps, exit_codes, i);
    }
}

proof fn lemma_finished(steps: Seq<BuildStep>, exit_codes: Seq<Option<i32>>, i: int)
    requires
        is_run(steps, exit_codes),
        6 <= i < steps.len(),
        steps[5] is BuildHarness,
    ensures
        steps[i] is Finished,
    decreases i,
{
    assert(exit_codes[i - 1] == exit_codes[i - 1]);
    if i > 6 {
        lemma_finished(steps, exit_codes, i - 1);
    }
}

/// A build fails at the parser or at the chassis and nowhere else, and there if
/// and only if the command does not exit with 0.
pub proof fn a_build_fails_where_a_command_does(
    step: BuildStep,
    exit_code: Option<i32>,
    r: Result<BuildStep, BuildFailure>,
)
    requires
        call_ensures(BuildStep::next, (step, exit_code), r),
    ensures
        r is Err <==> (step is Parse || step is BuildChassis) && exit_code != Some(0i32),
        r matches Err(failure) ==> (failure is Parser <==> step is Parse),
        r matches Err(failure) ==> (failure is Chassis <==> step is BuildChassis),
{
}

/// Before the harness is built, it is said whether the application is also run,
/// and for which target it was compiled. Of the other steps it is said what they
/// do; nothing is said before the application is read, nor at the end.
pub proof fn a_step_is_announced(step: BuildStep, ctx: &RunContext, r: Option<String>)
    requires
        call_ensures(BuildStep::announcement, (step, ctx), r),
    ensures
        r is None <==> step is ReadManifest || step is Finished,
        step is Parse ==> r->0@ == "🛠 Running `cargo build`..."@,
        step is CompileExpressions ==> r->0@ == "🧮 Compiling expressions"@,
        step is Generate ==> r->0@ == "🦀 Generating Rust"@,
        step is BuildChassis ==> r->0@ == "🧱 Building cartridge with cargo"@,
        step is BuildHarness && ctx.should_also_run && ctx.target is Web ==> r->0@
            == "🏃‍ Running fully compiled "@ + "Web"@ + " app..."@,
        step is BuildHarness && ctx.should_also_run && ctx.target is MacOS ==> r->0@
            == "🏃‍ Running fully compiled "@ + "MacOS"@ + " app..."@,
        step is BuildHarness && !ctx.should_also_run && ctx.target is Web ==> r->0@
            == "🛠 Building fully compiled "@ + "Web"@ + " app..."@,
        step is BuildHarness && !ctx.should_also_run && ctx.target is MacOS ==> r->0@
            == "🛠 Building fully compiled "@ + "MacOS"@ + " app..."@,
{
    assert(optional_text(r) == step.announced(ctx.target, ctx.should_also_run));
}

/// Only a failure of the parser is explained.
pub proof fn a_failure_of_the_parser_is_explained(failure: BuildFailure, r: Option<String>)
    requires
        call_ensures(BuildFailure::message, (failure,), r),
    ensures
        r is Some <==> failure is Parser,
        failure is Parser ==> r->0@
            == "Parsing failed — there is likely a syntax error in the provided pax"@,
{
    assert(optional_text(r) == failure.said());
}

} // verus!
