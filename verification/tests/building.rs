use pax_compiler::commands::{
    chassis_command, copies_to_tmp, harness_command, output_directory, parser_command, CommandArg,
    CommandPlan, CopySource,
};
use pax_compiler::host::host_crate_named;
use pax_compiler::steps::{BuildFailure, BuildStep};
use pax_compiler::target::{Harness, RunContext, RunTarget};

fn context(target: RunTarget, verbose: bool, should_also_run: bool) -> RunContext {
    RunContext {
        target,
        path: ".".to_string(),
        verbose,
        should_also_run,
        libdevmode: false,
    }
}

fn args(plan: &CommandPlan) -> Vec<String> {
    plan.args
        .iter()
        .map(|a| match a {
            CommandArg::Text(s) => s.clone(),
            CommandArg::PathBelow(segments) => format!("below {}", segments.join("/")),
        })
        .collect()
}

#[test]
fn targets_are_found_by_their_names_in_any_case() {
    assert!(matches!(RunTarget::from("web"), RunTarget::Web));
    assert!(matches!(RunTarget::from("WEB"), RunTarget::Web));
    assert!(matches!(RunTarget::from("MacOS"), RunTarget::MacOS));
    assert!(matches!(RunTarget::try_from("mAcOs"), Some(RunTarget::MacOS)));
    assert!(RunTarget::try_from("ios").is_none());
    assert!(RunTarget::try_from("").is_none());
    assert!(RunTarget::try_from("wéb").is_none());
    assert!(RunTarget::from_lowercase("Web").is_none());
    assert!(matches!(RunTarget::from_lowercase("macos"), Some(RunTarget::MacOS)));
}

#[test]
fn targets_are_found_by_the_names_they_bear() {
    assert_eq!(RunTarget::into(&RunTarget::Web), "Web");
    assert_eq!(RunTarget::into(&RunTarget::MacOS), "MacOS");
    assert_eq!(RunTarget::Web.lowercase_into(), "web");
    assert_eq!(RunTarget::MacOS.lowercase_into(), "macos");
    assert!(matches!(RunTarget::from(RunTarget::into(&RunTarget::Web)), RunTarget::Web));
    assert!(matches!(RunTarget::from(RunTarget::into(&RunTarget::MacOS)), RunTarget::MacOS));
}

#[test]
fn the_parser_is_run_by_cargo() {
    let plan = parser_command();
    assert_eq!(plan.program, "cargo");
    assert!(plan.dir.is_empty());
    assert_eq!(args(&plan), vec!["run", "--features", "parser", "--color", "always"]);
    assert!(!plan.sets_pax_dir);
    assert!(plan.captures_output && plan.captures_errors);
}

#[test]
fn the_chassis_is_built_for_its_target() {
    let plan = chassis_command(&RunTarget::MacOS);
    assert_eq!(plan.program, "cargo");
    assert_eq!(plan.dir, vec!["pax-chassis-macos"]);
    assert_eq!(args(&plan), vec!["build", "--color", "always"]);
    assert!(plan.sets_pax_dir);
    assert!(plan.captures_output && plan.captures_errors);
    let plan = chassis_command(&RunTarget::Web);
    assert_eq!(plan.program, "wasm-pack");
    assert_eq!(plan.dir, vec!["pax-chassis-web"]);
    assert_eq!(
        args(&plan),
        vec!["build", "--release", "-d", "below pax-chassis-web/pax-dev-harness-web/dist"]
    );
    assert!(plan.sets_pax_dir);
    assert!(plan.captures_output && plan.captures_errors);
}

#[test]
fn the_harness_is_built_for_its_target() {
    let web = context(RunTarget::Web, false, true);
    let plan = harness_command(&web, &Harness::Development, "x86_64");
    assert_eq!(plan.program, "./run-web.sh");
    assert_eq!(plan.dir, vec!["pax-chassis-web", "pax-dev-harness-web"]);
    assert_eq!(args(&plan), vec!["true", "below build/Web"]);
    assert!(!plan.captures_errors && !plan.sets_pax_dir);
    assert_eq!(output_directory(&web.target), vec!["build", "Web"]);

    let mac = context(RunTarget::MacOS, false, false);
    let plan = harness_command(&mac, &Harness::Development, "aarch64");
    assert_eq!(plan.program, "./run-debuggable-mac-app.sh");
    assert_eq!(plan.dir, vec!["pax-chassis-macos", "pax-dev-harness-macos"]);
    assert_eq!(args(&plan), vec!["false", "x86_64", "false", "below build/MacOS"]);
    assert!(plan.captures_errors && !plan.captures_output);

    let loud = context(RunTarget::MacOS, true, true);
    let plan = harness_command(&loud, &Harness::Development, "x86_64");
    assert_eq!(args(&plan), vec!["true", "arm64", "true", "below build/MacOS"]);
    assert!(!plan.captures_errors);
}

#[test]
fn packages_are_copied_from_where_they_are() {
    let inside = host_crate_named("pax-example".to_string(), "pax-example/Cargo.toml");
    let copies = copies_to_tmp(&inside);
    assert_eq!(copies.len(), 13);
    assert_eq!(copies[0].dest, vec!["pkg-tmp", "pax-cartridge"]);
    assert!(matches!(&copies[0].source, CopySource::Embedded(s) if s == "pax-cartridge"));
    assert_eq!(copies[12].dest, vec!["pkg-tmp", "pax-std"]);
    let outside = host_crate_named("app".to_string(), "app/Cargo.toml");
    let copies = copies_to_tmp(&outside);
    assert_eq!(copies.len(), 13);
    assert_eq!(copies[4].dest, vec!["pkg-tmp", "pax-cli"]);
    assert!(matches!(&copies[4].source, CopySource::Directory(s) if s == "."));
}

#[test]
fn a_build_takes_its_steps_in_order() {
    let mut step = BuildStep::Parse;
    let mut seen = vec![step];
    while step != BuildStep::Finished {
        step = step.next(Some(0)).unwrap();
        seen.push(step);
    }
    assert_eq!(
        seen,
        vec![
            BuildStep::Parse,
            BuildStep::ReadManifest,
            BuildStep::CompileExpressions,
            BuildStep::Generate,
            BuildStep::BuildChassis,
            BuildStep::BuildHarness,
            BuildStep::Finished,
        ]
    );
    assert_eq!(BuildStep::Finished.next(None), Ok(BuildStep::Finished));
}

#[test]
fn a_failed_command_ends_the_build() {
    assert_eq!(BuildStep::Parse.next(Some(1)), Err(BuildFailure::Parser));
    assert_eq!(BuildStep::Parse.next(None), Err(BuildFailure::Parser));
    assert_eq!(BuildStep::BuildChassis.next(Some(101)), Err(BuildFailure::Chassis));
    assert_eq!(BuildStep::BuildHarness.next(Some(1)), Ok(BuildStep::Finished));
    assert_eq!(BuildStep::Generate.next(None), Ok(BuildStep::BuildChassis));
    assert_eq!(
        BuildFailure::Parser.message().as_deref(),
        Some("Parsing failed — there is likely a syntax error in the provided pax")
    );
    assert_eq!(BuildFailure::Chassis.message(), None);
}

#[test]
fn steps_are_announced() {
    let run = context(RunTarget::Web, false, true);
    let build = context(RunTarget::MacOS, false, false);
    assert_eq!(
        BuildStep::Parse.announcement(&run).as_deref(),
        Some("🛠 Running `cargo build`...")
    );
    assert_eq!(BuildStep::ReadManifest.announcement(&run), None);
    assert_eq!(
        BuildStep::BuildHarness.announcement(&run).as_deref(),
        Some("🏃‍ Running fully compiled Web app...")
    );
    assert_eq!(
        BuildStep::BuildHarness.announcement(&build).as_deref(),
        Some("🛠 Building fully compiled MacOS app...")
    );
    assert_eq!(BuildStep::Finished.announcement(&run), None);
}
