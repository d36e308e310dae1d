//! What the commands of a build are.

use crate::commands::{
    chassis_command, copies, copies_to_tmp, harness_command, output_dir, output_directory,
    package_names, parser_command, ArgView, CommandArg, CommandPlan, CopySource, CopyStep,
};
use crate::manifest::HostCrateInfo;
use crate::target::{Harness, RunContext, RunTarget};
use crate::text::texts;
use vstd::prelude::*;
use vstd::string::*;

verus! {

/// The argument is that text.
pub open spec fn says(arg: CommandArg, s: Seq<char>) -> bool {
    arg matches CommandArg::Text(t) && t@ == s
}

/// The path has these two segments.
pub open spec fn is_path_of_two(path: Seq<String>, a: Seq<char>, b: Seq<char>) -> bool {
    path.len() == 2 && path[0]@ == a && path[1]@ == b
}

/// The argument is `true` if the flag is set, and `false` if it is not.
pub open spec fn tells(arg: CommandArg, flag: bool) -> bool {
    &&& flag ==> says(arg, "true"@)
    &&& !flag ==> says(arg, "false"@)
}

/// The argument is the directory that the finished application goes to, below
/// `build`.
pub open spec fn is_output_of(arg: CommandArg, target: RunTarget) -> bool {
    arg matches CommandArg::PathBelow(path) && {
        &&& target is Web ==> is_path_of_two(path@, "build"@, "Web"@)
        &&& target is MacOS ==> is_path_of_two(path@, "build"@, "MacOS"@)
    }
}

/// The harness for the web is told whether to run, and where the application
/// goes.
pub proof fn the_web_harness_is_told_whether_to_run(
    ctx: &RunContext,
    harness: &Harness,
    arch: &str,
    r: CommandPlan,
)
    requires
        call_ensures(harness_command, (ctx, harness, arch), r),
        ctx.target is Web,
    ensures
        r.program@ == "./run-web.sh"@,
        is_path_of_two(r.dir@, "pax-chassis-web"@, "pax-dev-harness-web"@),
        r.args@.len() == 2,
        tells(r.args@[0], ctx.should_also_run),
        is_output_of(r.args@[1], ctx.target),
        !r.sets_pax_dir,
        !r.captures_output,
        !r.captures_errors,
{
    lemma_chassis_names();
    assert(r@.dir.len() == r.dir@.len());
    assert(r@.dir[0] == r.dir@[0]@);
    assert(r@.dir[1] == r.dir@[1]@);
    assert(r@.args.len() == r.args@.len());
    assert(r@.args[0] == r.args@[0]@);
    assert(r@.args[1] == r.args@[1]@);
    lemma_output(r.args@[1], ctx.target);
}

/// The harness for the Mac is told, in this order, whether to be verbose, which
/// architecture to leave out, whether to run, and where the application goes.
/// Each flag is told whatever the other is. Its errors are shown exactly where it
/// is to be verbose.
pub proof fn the_mac_harness_is_told_its_flags(
    ctx: &RunContext,
    harness: &Harness,
    arch: &str,
    r: CommandPlan,
)
    requires
        call_ensures(harness_command, (ctx, harness, arch), r),
        ctx.target is MacOS,
    ensures
        r.program@ == "./run-debuggable-mac-app.sh"@,
        is_path_of_two(r.dir@, "pax-chassis-macos"@, "pax-dev-harness-macos"@),
        r.args@.len() == 4,
        tells(r.args@[0], ctx.verbose),
        arch@ == "aarch64"@ ==> says(r.args@[1], "x86_64"@),
        arch@ != "aarch64"@ ==> says(r.args@[1], "arm64"@),
        tells(r.args@[2], ctx.should_also_run),
        is_output_of(r.args@[3], ctx.target),
        !r.sets_pax_dir,
        !r.captures_output,
        r.captures_errors <==> !ctx.verbose,
{
    lemma_chassis_names();
    assert(r@.dir.len() == r.dir@.len());
    assert(r@.dir[0] == r.dir@[0]@);
    assert(r@.dir[1] == r.dir@[1]@);
    assert(r@.args.len() == r.args@.len());
    assert(r@.args[0] == r.args@[0]@);
    assert(r@.args[1] == r.args@[1]@);
    assert(r@.args[2] == r.args@[2]@);
    assert(r@.args[3] == r.args@[3]@);
    lemma_output(r.args@[3], ctx.target);
}

/// Being verbose or not makes no difference to any other argument, and neither
/// does being run or not.
pub proof fn each_flag_has_its_own_argument(
    ctx: &RunContext,
    other: &RunContext,
    harness: &Harness,
    arch: &str,
    r: CommandPlan,
    q: CommandPlan,
    i: int,
)
    requires
        call_ensures(harness_command, (ctx, harness, arch), r),
        call_ensures(harness_command, (other, harness, arch), q),
        ctx.target == other.target,
        0 <= i < r.args@.len(),
        r.args@[i]@ != q.args@[i]@,
    ensures
        ctx.target is MacOS && i == 0 ==> ctx.verbose != other.verbose,
        ctx.target is MacOS && i == 2 ==> ctx.should_also_run != other.should_also_run,
        ctx.target is MacOS ==> i == 0 || i == 2,
        ctx.target is Web ==> i == 0 && ctx.should_also_run != other.should_also_run,
{
    assert(r@.args.len() == r.args@.len());
    assert(q@.args.len() == q.args@.len());
    assert(r@.args[i] == r.args@[i]@);
    assert(q@.args[i] == q.args@[i]@);
}

proof fn lemma_chassis_names()
    ensures
        "pax-chassis-"@ + "web"@ == "pax-chassis-web"@,
        "pax-chassis-"@ + "macos"@ == "pax-chassis-macos"@,
        "pax-dev-harness-"@ + "web"@ == "pax-dev-harness-web"@,
        "pax-dev-harness-"@ + "macos"@ == "pax-dev-harness-macos"@,
{
    reveal_strlit("pax-chassis-");
    reveal_strlit("pax-dev-harness-");
    reveal_strlit("web");
    reveal_strlit("macos");
    reveal_strlit("pax-chassis-web");
    reveal_strlit("pax-chassis-macos");
    reveal_strlit("pax-dev-harness-web");
    reveal_strlit("pax-dev-harness-macos");
    assert("pax-chassis-"@ + "web"@ =~= "pax-chassis-web"@);
    assert("pax-chassis-"@ + "macos"@ =~= "pax-chassis-macos"@);
    assert("pax-dev-harness-"@ + "web"@ =~= "pax-dev-harness-web"@);
    assert("pax-dev-harness-"@ + "macos"@ =~= "pax-dev-harness-macos"@);
}

proof fn lemma_output(arg: CommandArg, target: RunTarget)
    requires
        arg@ == ArgView::PathBelow(output_dir(target)),
    ensures
        is_output_of(arg, target),
{
    match arg {
        CommandArg::PathBelow(path) => {
            assert(texts(path@) == output_dir(target));
            assert(texts(path@).len() == path@.len());
            assert(texts(path@)[0] == path@[0]@);
            assert(texts(path@)[1] == path@[1]@);
        },
        CommandArg::Text(_) => {},
    }
}

/// The finished application goes below `build`, to a directory with the name of
/// the target.
pub proof fn the_application_goes_below_build(target: &RunTarget, r: Vec<String>)
    requires
        call_ensures(output_directory, (target,), r),
    ensures
        *target is Web ==> is_path_of_two(r@, "build"@, "Web"@),
        *target is MacOS ==> is_path_of_two(r@, "build"@, "MacOS"@),
{
    assert(texts(r@).len() == r@.len());
    assert(texts(r@)[0] == r@[0]@);
    assert(texts(r@)[1] == r@[1]@);
}

/// The chassis for the Mac is built by `cargo build`, that for the web by
/// `wasm-pack`, each in its directory, with `PAX_DIR` set; what is printed is
/// captured.
pub proof fn the_chassis_is_built_in_its_directory(target: &RunTarget, r: CommandPlan)
    requires
        call_ensures(chassis_command, (target,), r),
    ensures
        r.sets_pax_dir,
        r.captures_output,
        r.captures_errors,
        r.dir@.len() == 1,
        *target is MacOS ==> {
            &&& r.program@ == "cargo"@
            &&& r.dir@[0]@ == "pax-chassis-macos"@
            &&& r.args@.len() == 3
            &&& says(r.args@[0], "build"@)
            &&& says(r.args@[1], "--color"@)
            &&& says(r.args@[2], "always"@)
        },
        *target is Web ==> {
            &&& r.program@ == "wasm-pack"@
            &&& r.dir@[0]@ == "pax-chassis-web"@
            &&& r.args@.len() == 4
            &&& says(r.args@[0], "build"@)
            &&& says(r.args@[1], "--release"@)
            &&& says(r.args@[2], "-d"@)
            &&& r.args@[3] matches CommandArg::PathBelow(path) && {
                &&& path@.len() == 3
                &&& path@[0]@ == "pax-chassis-web"@
                &&& path@[1]@ == "pax-dev-harness-web"@
                &&& path@[2]@ == "dist"@
            }
        },
{
    lemma_chassis_names();
    assert(r@.dir.len() == r.dir@.len());
    assert(r@.dir[0] == texts(r.dir@)[0]);
    assert(r@.args.len() == r.args@.len());
    assert(r@.args[0] == r.args@[0]@);
    assert(r@.args[1] == r.args@[1]@);
    assert(r@.args[2] == r.args@[2]@);
    if *target is Web {
        assert(r@.args[3] == r.args@[3]@);
        match r.args@[3] {
            CommandArg::PathBelow(path) => {
                assert(texts(path@).len() == path@.len());
                assert(texts(path@)[0] == path@[0]@);
                assert(texts(path@)[1] == path@[1]@);
                assert(texts(path@)[2] == path@[2]@);
            },
            CommandArg::Text(_) => {},
        }
    }
}

/// The parser is run by `cargo run --features parser --color always`, where the
/// application is; what is printed is captured.
pub proof fn the_parser_is_run_where_the_application_is(r: CommandPlan)
    requires
        call_ensures(parser_command, (), r),
    ensures
        r.program@ == "cargo"@,
        r.dir@.len() == 0,
        r.args@.len() == 5,
        says(r.args@[0], "run"@),
        says(r.args@[1], "--features"@),
        says(r.args@[2], "parser"@),
        says(r.args@[3], "--color"@),
        says(r.args@[4], "always"@),
        !r.sets_pax_dir,
        r.captures_output,
        r.captures_errors,
{
    assert(r@.dir.len() == r.dir@.len());
    assert(r@.args.len() == r.args@.len());
    assert(r@.args[0] == r.args@[0]@);
    assert(r@.args[1] == r.args@[1]@);
    assert(r@.args[2] == r.args@[2]@);
    assert(r@.args[3] == r.args@[3]@);
    assert(r@.args[4] == r.args@[4]@);
}

/// The copy goes to the package's directory below `pkg-tmp`, from what is embedded
/// under its name inside `pax-example`, and from the current directory elsewhere.
pub open spec fn copies_package(c: CopyStep, is_lib_dev_mode: bool, name: Seq<char>) -> bool {
    &&& is_path_of_two(c.dest@, "pkg-tmp"@, name)
    &&& is_lib_dev_mode ==> (c.source matches CopySource::Embedded(s) && s@ == name)
    &&& !is_lib_dev_mode ==> (c.source matches CopySource::Directory(s) && s@ == "."@)
}

/// Each package is copied once.
pub proof fn every_package_is_copied(host: &HostCrateInfo, r: Vec<CopyStep>)
    requires
        call_ensures(copies_to_tmp, (host,), r),
    ensures
        r@.len() == 13,
        copies_package(r@[0], host.is_lib_dev_mode, "pax-cartridge"@),
        copies_package(r@[1], host.is_lib_dev_mode, "pax-chassis-ios"@),
        copies_package(r@[2], host.is_lib_dev_mode, "pax-chassis-macos"@),
        copies_package(r@[3], host.is_lib_dev_mode, "pax-chassis-web"@),
        copies_package(r@[4], host.is_lib_dev_mode, "pax-cli"@),
        copies_package(r@[5], host.is_lib_dev_mode, "pax-compiler"@),
        copies_package(r@[6], host.is_lib_dev_mode, "pax-core"@),
        copies_package(r@[7], host.is_lib_dev_mode, "pax-lang"@),
        copies_package(r@[8], host.is_lib_dev_mode, "pax-macro"@),
        copies_package(r@[9], host.is_lib_dev_mode, "pax-message"@),
        copies_package(r@[10], host.is_lib_dev_mode, "pax-properties-coproduct"@),
        copies_package(r@[11], host.is_lib_dev_mode, "pax-runtime-api"@),
        copies_package(r@[12], host.is_lib_dev_mode, "pax-std"@),
{
    let views = r@.map_values(|c: CopyStep| c@);
    let names = package_names();
    assert(views == copies(host.is_lib_dev_mode));
    assert(views.len() == r@.len());
    assert(names.len() == 13);
    assert forall|i: int| 0 <= i < 13 implies copies_package(
        #[trigger] r@[i],
        host.is_lib_dev_mode,
        names[i],
    ) by {
        assert(views[i] == r@[i]@);
        let dest = r@[i].dest@;
        assert(texts(dest).len() == dest.len());
        assert(texts(dest)[0] == dest[0]@);
        assert(texts(dest)[1] == dest[1]@);
    }
    assert(copies_package(r@[0], host.is_lib_dev_mode, names[0]));
    assert(copies_package(r@[1], host.is_lib_dev_mode, names[1]));
    assert(copies_package(r@[2], host.is_lib_dev_mode, names[2]));
    assert(copies_package(r@[3], host.is_lib_dev_mode, names[3]));
    assert(copies_package(r@[4], host.is_lib_dev_mode, names[4]));
    assert(copies_package(r@[5], host.is_lib_dev_mode, names[5]));
    assert(copies_package(r@[6], host.is_lib_dev_mode, names[6]));
    assert(copies_package(r@[7], host.is_lib_dev_mode, names[7]));
    assert(copies_package(r@[8], host.is_lib_dev_mode, names[8]));
    assert(copies_package(r@[9], host.is_lib_dev_mode, names[9]));
    assert(copies_package(r@[10], host.is_lib_dev_mode, names[10]));
    assert(copies_package(r@[11], host.is_lib_dev_mode, names[11]));
    assert(copies_package(r@[12], host.is_lib_dev_mode, names[12]));
}

} // verus!
