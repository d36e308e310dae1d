//! The steps of a build: the commands it runs and the directories it copies.

use crate::manifest::HostCrateInfo;
use crate::target::{Harness, RunContext, RunTarget};
use crate::text::{same_text, texts};
use vstd::prelude::*;
use vstd::string::*;

verus! {

/// An argument of a command: a text, or the path of a file below the
/// directory that the build works in.
#[derive(Debug)]
pub enum CommandArg {
    Text(String),
    PathBelow(Vec<String>),
}

/// A command. The directory that it runs in lies below the one that the build
/// works in.
#[derive(Debug)]
pub struct CommandPlan {
    pub program: String,
    pub dir: Vec<String>,
    pub args: Vec<CommandArg>,
    /// Whether `PAX_DIR` is set to the directory that the build works in.
    pub sets_pax_dir: bool,
    /// Whether what the command prints is kept from the terminal.
    pub captures_output: bool,
    /// Whether the errors that the command prints are kept from the terminal.
    pub captures_errors: bool,
}

/// An argument as mathematical values.
#[verifier::ext_equal]
pub enum ArgView {
    Text(Seq<char>),
    PathBelow(Seq<Seq<char>>),
}

/// A command as mathematical values.
#[verifier::ext_equal]
pub struct CommandView {
    pub program: Seq<char>,
    pub dir: Seq<Seq<char>>,
    pub args: Seq<ArgView>,
    pub sets_pax_dir: bool,
    pub captures_output: bool,
    pub captures_errors: bool,
}

impl View for CommandArg {
    type V = ArgView;

    open spec fn view(&self) -> ArgView {
        match self {
            CommandArg::Text(s) => ArgView::Text(s@),
            CommandArg::PathBelow(segments) => ArgView::PathBelow(texts(segments@)),
        }
    }
}

impl View for CommandPlan {
    type V = CommandView;

    open spec fn view(&self) -> CommandView {
        CommandView {
            program: self.program@,
            dir: texts(self.dir@),
            args: self.args@.map_values(|a: CommandArg| a@),
            sets_pax_dir: self.sets_pax_dir,
            captures_output: self.captures_output,
            captures_errors: self.captures_errors,
        }
    }
}

fn text_arg(s: &str) -> (r: CommandArg)
    ensures
        r@ == ArgView::Text(s@),
{
    CommandArg::Text(String::from_str(s))
}

fn joined(a: &str, b: &str) -> (r: String)
    ensures
        r@ == a@ + b@,
{
    let mut r: String = String::from_str(a);
    r.append(b);
    r
}

/// `true` or `false`.
pub open spec fn flag(b: bool) -> Seq<char> {
    if b {
        "true"@
    } else {
        "false"@
    }
}

fn flag_arg(b: bool) -> (r: CommandArg)
    ensures
        r@ == ArgView::Text(flag(b)),
{
    if b {
        text_arg("true")
    } else {
        text_arg("false")
    }
}

/// The command that parses the application. It runs where the application is.
pub open spec fn parser_command_view() -> CommandView {
    CommandView {
        program: "cargo"@,
        dir: seq![],
        args: seq![
            ArgView::Text("run"@),
            ArgView::Text("--features"@),
            ArgView::Text("parser"@),
            ArgView::Text("--color"@),
            ArgView::Text("always"@),
        ],
        sets_pax_dir: false,
        captures_output: true,
        captures_errors: true,
    }
}

/// The directory of the chassis.
pub open spec fn chassis_dir(target: RunTarget) -> Seq<char> {
    "pax-chassis-"@ + target.lowercase_name()
}

/// The command that builds the chassis together with the cartridge. What it
/// prints is for the caller.
pub open spec fn chassis_command_view(target: RunTarget) -> CommandView {
    CommandView {
        program: match target {
            RunTarget::MacOS => "cargo"@,
            RunTarget::Web => "wasm-pack"@,
        },
        dir: seq![chassis_dir(target)],
        args: match target {
            RunTarget::MacOS => seq![
                ArgView::Text("build"@),
                ArgView::Text("--color"@),
                ArgView::Text("always"@),
            ],
            RunTarget::Web => seq![
                ArgView::Text("build"@),
                ArgView::Text("--release"@),
                ArgView::Text("-d"@),
                ArgView::PathBelow(seq![chassis_dir(target), "pax-dev-harness-web"@, "dist"@]),
            ],
        },
        sets_pax_dir: true,
        captures_output: true,
        captures_errors: true,
    }
}

/// Where the finished application goes.
pub open spec fn output_dir(target: RunTarget) -> Seq<Seq<char>> {
    seq!["build"@, target.name()]
}

/// The architecture that the harness is not built for.
pub open spec fn excluded_arch(arch: Seq<char>) -> Seq<char> {
    if arch == "aarch64"@ {
        "x86_64"@
    } else {
        "arm64"@
    }
}

/// The command that builds the harness, and runs it if that is asked for, on a
/// machine of the architecture `arch`.
pub open spec fn harness_command_view(
    ctx: RunContext,
    harness: Harness,
    arch: Seq<char>,
) -> CommandView {
    CommandView {
        program: match ctx.target {
            RunTarget::Web => "./run-web.sh"@,
            RunTarget::MacOS => "./run-debuggable-mac-app.sh"@,
        },
        dir: seq![
            chassis_dir(ctx.target),
            match harness {
                Harness::Development => "pax-dev-harness-"@ + ctx.target.lowercase_name(),
            },
        ],
        args: match ctx.target {
            RunTarget::Web => seq![
                ArgView::Text(flag(ctx.should_also_run)),
                ArgView::PathBelow(output_dir(ctx.target)),
            ],
            RunTarget::MacOS => seq![
                ArgView::Text(flag(ctx.verbose)),
                ArgView::Text(excluded_arch(arch)),
                ArgView::Text(flag(ctx.should_also_run)),
                ArgView::PathBelow(output_dir(ctx.target)),
            ],
        },
        sets_pax_dir: false,
        captures_output: false,
        captures_errors: ctx.target is MacOS && !ctx.verbose,
    }
}

/// The command that parses the application.
pub fn parser_command() -> (r: CommandPlan)
    ensures
        r@ == parser_command_view(),
{
    let r: CommandPlan = CommandPlan {
        program: String::from_str("cargo"),
        dir: Vec::new(),
        args: vec![
            text_arg("run"),
            text_arg("--features"),
            text_arg("parser"),
            text_arg("--color"),
            text_arg("always"),
        ],
        sets_pax_dir: false,
        captures_output: true,
        captures_errors: true,
    };
    assert(r@ =~~= parser_command_view());
    r
}

fn chassis_directory(target: &RunTarget) -> (r: String)
    ensures
        r@ == chassis_dir(*target),
{
    let name: String = target.lowercase_into();
    joined("pax-chassis-", name.as_str())
}

/// Where the finished application goes.
pub fn output_directory(target: &RunTarget) -> (r: Vec<String>)
    ensures
        texts(r@) == output_dir(*target),
{
    let r: Vec<String> = vec![String::from_str("build"), String::from_str(target.into())];
    assert(texts(r@) =~= output_dir(*target));
    r
}

/// The command that builds the chassis together with the cartridge. What it
/// prints is for the caller.
pub fn chassis_command(target: &RunTarget) -> (r: CommandPlan)
    ensures
        r@ == chassis_command_view(*target),
{
    let dir: String = chassis_directory(target);
    let (program, args): (String, Vec<CommandArg>) = match target {
        RunTarget::MacOS => (
            String::from_str("cargo"),
            vec![text_arg("build"), text_arg("--color"), text_arg("always")],
        ),
        RunTarget::Web => {
            let dist: Vec<String> =
                vec![
                dir.clone(),
                String::from_str("pax-dev-harness-web"),
                String::from_str("dist"),
            ];
            assert(texts(dist@) =~= seq![dir@, "pax-dev-harness-web"@, "dist"@]);
            (
                String::from_str("wasm-pack"),
                vec![
                    text_arg("build"),
                    text_arg("--release"),
                    text_arg("-d"),
                    CommandArg::PathBelow(dist),
                ],
            )
        },
    };
    let r: CommandPlan = CommandPlan {
        program,
        dir: vec![dir],
        args,
        sets_pax_dir: true,
        captures_output: true,
        captures_errors: true,
    };
    assert(r@.dir =~= chassis_command_view(*target).dir);
    assert(r@.args =~= chassis_command_view(*target).args);
    r
}

/// The command that builds the harness, and runs it if that is asked for, on a
/// machine of the architecture `arch`.
pub fn harness_command(ctx: &RunContext, harness: &Harness, arch: &str) -> (r: CommandPlan)
    ensures
        r@ == harness_command_view(*ctx, *harness, arch@),
{
    let dir: String = chassis_directory(&ctx.target);
    let name: String = ctx.target.lowercase_into();
    let harness_dir: String = match harness {
        Harness::Development => joined("pax-dev-harness-", name.as_str()),
    };
    let output: CommandArg = CommandArg::PathBelow(output_directory(&ctx.target));
    let is_web: bool = match ctx.target {
        RunTarget::Web => true,
        RunTarget::MacOS => false,
    };
    let exclude_arch: &str = if same_text(arch, "aarch64") {
        "x86_64"
    } else {
        "arm64"
    };
    let (program, args): (String, Vec<CommandArg>) = if is_web {
        (String::from_str("./run-web.sh"), vec![flag_arg(ctx.should_also_run), output])
    } else {
        (
            String::from_str("./run-debuggable-mac-app.sh"),
            vec![
                flag_arg(ctx.verbose),
                text_arg(exclude_arch),
                flag_arg(ctx.should_also_run),
                output,
            ],
        )
    };
    let r: CommandPlan = CommandPlan {
        program,
        dir: vec![dir, harness_dir],
        args,
        sets_pax_dir: false,
        captures_output: false,
        captures_errors: !is_web && !ctx.verbose,
    };
    assert(r@.dir =~= harness_command_view(*ctx, *harness, arch@).dir);
    assert(r@.args =~= harness_command_view(*ctx, *harness, arch@).args);
    r
}

/// Where the packages are copied to, below the directory that the build works
/// in, before they are taken over.
pub const PAX_DIR_PKG_TMP_PATH: &'static str = "pkg-tmp";

/// The packages that a build needs copies of.
pub open spec fn package_names() -> Seq<Seq<char>> {
    seq![
        "pax-cartridge"@,
        "pax-chassis-ios"@,
        "pax-chassis-macos"@,
        "pax-chassis-web"@,
        "pax-cli"@,
        "pax-compiler"@,
        "pax-core"@,
        "pax-lang"@,
        "pax-macro"@,
        "pax-message"@,
        "pax-properties-coproduct"@,
        "pax-runtime-api"@,
        "pax-std"@,
    ]
}

/// Where a copy comes from: a package that is embedded in the compiler, or a
/// directory.
#[derive(Debug)]
pub enum CopySource {
    Embedded(String),
    Directory(String),
}

/// A copy to be made, below the directory that the build works in.
#[derive(Debug)]
pub struct CopyStep {
    pub source: CopySource,
    pub dest: Vec<String>,
}

/// The source of a copy as mathematical values.
#[verifier::ext_equal]
pub enum CopySourceView {
    Embedded(Seq<char>),
    Directory(Seq<char>),
}

impl View for CopyStep {
    type V = (CopySourceView, Seq<Seq<char>>);

    open spec fn view(&self) -> (CopySourceView, Seq<Seq<char>>) {
        (
            match self.source {
                CopySource::Embedded(s) => CopySourceView::Embedded(s@),
                CopySource::Directory(s) => CopySourceView::Directory(s@),
            },
            texts(self.dest@),
        )
    }
}

/// The copies that a build makes: one for each package, of what is embedded
/// where the application is developed inside `pax-example`, and of the current
/// directory elsewhere.
pub open spec fn copies(is_lib_dev_mode: bool) -> Seq<(CopySourceView, Seq<Seq<char>>)> {
    package_names().map_values(
        |name: Seq<char>|
            (
                if is_lib_dev_mode {
                    CopySourceView::Embedded(name)
                } else {
                    CopySourceView::Directory("."@)
                },
                seq![PAX_DIR_PKG_TMP_PATH@, name],
            ),
    )
}

/// The copies that a build makes.
pub fn copies_to_tmp(host_crate_info: &HostCrateInfo) -> (r: Vec<CopyStep>)
    ensures
        r@.map_values(|c: CopyStep| c@) == copies(host_crate_info.is_lib_dev_mode),
{
    let names: Vec<&'static str> =
        vec![
        "pax-cartridge",
        "pax-chassis-ios",
        "pax-chassis-macos",
        "pax-chassis-web",
        "pax-cli",
        "pax-compiler",
        "pax-core",
        "pax-lang",
        "pax-macro",
        "pax-message",
        "pax-properties-coproduct",
        "pax-runtime-api",
        "pax-std",
    ];
    let ghost wanted = copies(host_crate_info.is_lib_dev_mode);
    assert(names@.map_values(|s: &'static str| s@) =~= package_names());
    let mut r: Vec<CopyStep> = Vec::new();
    let mut i: usize = 0;
    while i < names.len()
        invariant
            wanted == copies(host_crate_info.is_lib_dev_mode),
            names@.map_values(|s: &'static str| s@) == package_names(),
            i <= names@.len(),
            r@.len() == i,
            forall|j: int| 0 <= j < i ==> (#[trigger] r@[j])@ == wanted[j],
        decreases names@.len() - i,
    {
        assert(package_names()[i as int] == names@[i as int]@);
        let dest: Vec<String> =
            vec![String::from_str(PAX_DIR_PKG_TMP_PATH), String::from_str(names[i])];
        assert(texts(dest@) =~= seq![PAX_DIR_PKG_TMP_PATH@, names@[i as int]@]);
        let source: CopySource = if host_crate_info.is_lib_dev_mode {
            CopySource::Embedded(String::from_str(names[i]))
        } else {
            CopySource::Directory(String::from_str("."))
        };
        r.push(CopyStep { source, dest });
        i += 1;
    }
    assert(r@.map_values(|c: CopyStep| c@) =~= wanted);
    r
}

} // verus!
