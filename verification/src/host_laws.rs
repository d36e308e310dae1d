//! What is known of a host crate, and which files are made to point to it.

use crate::host::{
    get_host_crate_info, host_crate_named, is_host, is_pointed_to_host, point_to_host,
    points_to_host, process_file_content, toml_string, toml_with_item, transform_file_content,
    try_get_host_crate_info, try_process_file_content, try_transform_file_content,
};
use crate::manifest::HostCrateInfo;
use crate::text::{ends_with, optional_text};
use crate::text_laws::characters_are_replaced_one_by_one;
use vstd::prelude::*;
use vstd::string::*;

verus! {

/// The path comes to an end with the given text.
pub open spec fn comes_to(path: Seq<char>, end: Seq<char>) -> bool {
    exists|before: Seq<char>| path == #[trigger] (before + end)
}

proof fn lemma_comes_to(path: Seq<char>, end: Seq<char>)
    ensures
        comes_to(path, end) <==> ends_with(path, end),
{
    if ends_with(path, end) {
        assert(path =~= path.take(path.len() - end.len()) + end);
    }
    if comes_to(path, end) {
        let before = choose|before: Seq<char>| path == #[trigger] (before + end);
        assert(path.subrange(path.len() - end.len(), path.len() as int) =~= end);
    }
}

/// The crate keeps its name; the identifier is the name with an underscore for
/// each hyphen, and what the crate re-exports lies below the identifier.
pub open spec fn describes_crate(
    info: HostCrateInfo,
    name: Seq<char>,
    path: Seq<char>,
) -> bool {
    &&& info.name@ == name
    &&& info.identifier@.len() == name.len()
    &&& forall|i: int|
        0 <= i < name.len() ==> #[trigger] info.identifier@[i] == (if name[i] == '-' {
            '_'
        } else {
            name[i]
        })
    &&& info.import_prefix@ == info.identifier@ + "::pax_reexports::"@
    &&& info.is_lib_dev_mode <==> comes_to(path, "pax-example/Cargo.toml"@)
}

proof fn lemma_described_crate(info: HostCrateInfo, name: Seq<char>, path: Seq<char>)
    requires
        is_host(info, name, path),
    ensures
        describes_crate(info, name, path),
{
    reveal_strlit("-");
    reveal_strlit("_");
    assert("-"@ =~= seq!['-']);
    assert("_"@ =~= seq!['_']);
    characters_are_replaced_one_by_one(name, '-', '_');
    lemma_comes_to(path, "pax-example/Cargo.toml"@);
}

/// A crate is described by its name and by where its `Cargo.toml` lies.
pub proof fn a_crate_is_known_by_its_name(name: String, path: &str, r: HostCrateInfo)
    requires
        call_ensures(host_crate_named, (name, path), r),
    ensures
        describes_crate(r, name@, path@),
{
    lemma_described_crate(r, name@, path@);
}

/// The name of a crate is what its `Cargo.toml` says of the package.
pub proof fn a_crate_is_named_in_its_package(cargo_toml: &str, path: &str, r: HostCrateInfo)
    requires
        toml_string(cargo_toml@, "package"@, "name"@) is Some,
        call_ensures(get_host_crate_info, (cargo_toml, path), r),
    ensures
        describes_crate(r, toml_string(cargo_toml@, "package"@, "name"@)->0, path@),
{
    lemma_described_crate(r, toml_string(cargo_toml@, "package"@, "name"@)->0, path@);
}

/// A crate is known if and only if its `Cargo.toml` names the package.
pub proof fn a_crate_without_a_name_is_not_known(
    cargo_toml: &str,
    path: &str,
    r: Option<HostCrateInfo>,
)
    requires
        call_ensures(try_get_host_crate_info, (cargo_toml, path), r),
    ensures
        r is Some <==> toml_string(cargo_toml@, "package"@, "name"@) is Some,
        r is Some ==> describes_crate(
            r->0,
            toml_string(cargo_toml@, "package"@, "name"@)->0,
            path@,
        ),
{
    if r is Some {
        lemma_described_crate(r->0, toml_string(cargo_toml@, "package"@, "name"@)->0, path@);
    }
}

/// The file that names the dependencies of the coproduct or of the cartridge.
pub open spec fn depends_on_the_host(path: Seq<char>) -> bool {
    ||| comes_to(path, "pax-properties-coproduct/Cargo.toml"@)
    ||| comes_to(path, "pax-cartridge/Cargo.toml"@)
}

/// What the file holds once its dependency on the host crate is found where that
/// crate lies; a file that does not depend on it stays as it is.
pub open spec fn finds_the_host(
    content: Seq<char>,
    path: Seq<char>,
    name: Seq<char>,
    r: Option<Seq<char>>,
) -> bool {
    &&& !depends_on_the_host(path) ==> r == Some(content)
    &&& depends_on_the_host(path) ==> r == toml_with_item(
        content,
        "dependencies"@,
        name,
        "{ path=\"../..\" }"@,
    )
}

proof fn lemma_depends(path: Seq<char>)
    ensures
        depends_on_the_host(path) <==> points_to_host(path),
{
    lemma_comes_to(path, "pax-properties-coproduct/Cargo.toml"@);
    lemma_comes_to(path, "pax-cartridge/Cargo.toml"@);
}

/// The dependency on the host crate is set under the name of that crate.
pub proof fn the_host_is_two_directories_up(
    content: &str,
    host: &HostCrateInfo,
    r: Option<String>,
)
    requires
        call_ensures(point_to_host, (content, host), r),
    ensures
        optional_text(r) == toml_with_item(
            content@,
            "dependencies"@,
            host.name@,
            "{ path=\"../..\" }"@,
        ),
{
}

/// Two files depend on the host crate.
pub proof fn two_files_depend_on_the_host(path: &str, r: bool)
    requires
        call_ensures(is_pointed_to_host, (path,), r),
    ensures
        r <==> depends_on_the_host(path@),
{
    lemma_depends(path@);
}

/// A copied file finds the host crate where it depends on it.
pub proof fn a_copied_file_finds_the_host(
    content: &str,
    path: &str,
    host: &HostCrateInfo,
    r: String,
    tried: Option<String>,
)
    requires
        call_ensures(process_file_content, (content, path, host), r),
        call_ensures(try_process_file_content, (content, path, host), tried),
    ensures
        finds_the_host(content@, path@, host.name@, Some(r@)),
        finds_the_host(content@, path@, host.name@, optional_text(tried)),
{
    lemma_depends(path@);
}

/// A transformed file is what a copied file is.
pub proof fn a_transformed_file_finds_the_host(
    path: &str,
    content: &str,
    host: &HostCrateInfo,
    r: String,
    tried: Option<String>,
)
    requires
        call_ensures(transform_file_content, (path, content, host), r),
        call_ensures(try_transform_file_content, (path, content, host), tried),
    ensures
        finds_the_host(content@, path@, host.name@, Some(r@)),
        finds_the_host(content@, path@, host.name@, optional_text(tried)),
{
    lemma_depends(path@);
}

} // verus!
