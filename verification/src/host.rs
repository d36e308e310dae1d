//! The host crate: the crate that an application is written in, and the
//! `Cargo.toml` files that point to it.

use crate::manifest::HostCrateInfo;
use crate::text::{
    contains_text, ends_with, occurs_at, optional_text, replace, replace_text,
    replacing_is_complete, text_ends_with,
};
use vstd::prelude::*;
use vstd::string::*;

verus! {

/// The TOML document `text` after its item `table.key` is set to `item`, or
/// nothing where `text` or `item` is no TOML or `table` has no keys.
pub uninterp spec fn toml_with_item(
    text: Seq<char>,
    table: Seq<char>,
    key: Seq<char>,
    item: Seq<char>,
) -> Option<Seq<char>>;

/// The string at `table.key` of the TOML document `text`, or nothing where
/// `text` is no TOML or holds no string there.
pub uninterp spec fn toml_string(text: Seq<char>, table: Seq<char>, key: Seq<char>) -> Option<
    Seq<char>,
>;

/// `text` is parsed into a `toml_edit::Document` and `item` into a
/// `toml_edit::Item`; the latter takes the place of what `Item::get_mut` finds
/// under `key` in the item `table`, and `to_string` gives the text of the
/// document. The result is named and depends on the four texts alone. What the
/// text looks like afterwards is left unsaid.
#[verifier::external_body]
fn set_toml_item(text: &str, table: &str, key: &str, item: &str) -> (r: Option<String>)
    ensures
        optional_text(r) == toml_with_item(text@, table@, key@, item@),
{
    let mut document = text.parse::<toml_edit::Document>().ok()?;
    let mut item = item.parse::<toml_edit::Item>().ok()?;
    std::mem::swap(document[table].get_mut(key)?, &mut item);
    Some(document.to_string())
}

/// `text` is parsed into a `toml_edit::Document`; `Table::get`, `Item::get` and
/// `Item::as_str` give the string at `table.key`. The result is named and
/// depends on the three texts alone.
#[verifier::external_body]
fn get_toml_string(text: &str, table: &str, key: &str) -> (r: Option<String>)
    ensures
        optional_text(r) == toml_string(text@, table@, key@),
{
    let document = text.parse::<toml_edit::Document>().ok()?;
    let found = document.get(table)?.get(key)?.as_str()?;
    Some(found.to_string())
}

/// The TOML text of a dependency on the crate two directories up, which is
/// where the host crate lies.
pub open spec fn host_dependency() -> Seq<char> {
    "{ path=\"../..\" }"@
}

/// The `Cargo.toml` text `content` with its dependency on the host crate
/// pointing to where that crate lies.
pub open spec fn pointed_to_host(content: Seq<char>, name: Seq<char>) -> Option<Seq<char>> {
    toml_with_item(content, "dependencies"@, name, host_dependency())
}

/// Whether the file at `path` is to point to the host crate.
pub open spec fn points_to_host(path: Seq<char>) -> bool {
    ends_with(path, "pax-properties-coproduct/Cargo.toml"@) || ends_with(
        path,
        "pax-cartridge/Cargo.toml"@,
    )
}

/// What becomes of the file at `path` with the text `content` when it is
/// copied.
pub open spec fn copied(content: Seq<char>, path: Seq<char>, name: Seq<char>) -> Option<
    Seq<char>,
> {
    if points_to_host(path) {
        pointed_to_host(content, name)
    } else {
        Some(content)
    }
}

/// The crate whose `Cargo.toml` lies at `path` and names it `name`.
pub open spec fn is_host(info: HostCrateInfo, name: Seq<char>, path: Seq<char>) -> bool {
    &&& info.name@ == name
    &&& info.identifier@ == replace(name, "-"@, "_"@)
    &&& info.import_prefix@ == replace(name, "-"@, "_"@) + "::pax_reexports::"@
    &&& info.is_lib_dev_mode == ends_with(path, "pax-example/Cargo.toml"@)
}

/// The `Cargo.toml` text with its dependency on the host crate pointing to
/// where that crate lies.
pub fn point_to_host(content: &str, host_crate_info: &HostCrateInfo) -> (r: Option<String>)
    ensures
        optional_text(r) == pointed_to_host(content@, host_crate_info.name@),
{
    set_toml_item(
        content,
        "dependencies",
        host_crate_info.name.as_str(),
        "{ path=\"../..\" }",
    )
}

/// Whether the file at `path` is to point to the host crate.
pub fn is_pointed_to_host(path: &str) -> (r: bool)
    ensures
        r == points_to_host(path@),
{
    text_ends_with(path, "pax-properties-coproduct/Cargo.toml") || text_ends_with(
        path,
        "pax-cartridge/Cargo.toml",
    )
}

/// What is written for the file at `path` with the text `content` when it is
/// copied: two `Cargo.toml` files are made to point to the host crate, all
/// other files stay as they are.
pub fn process_file_content(
    content: &str,
    path: &str,
    host_crate_info: &HostCrateInfo,
) -> (r: String)
    requires
        copied(content@, path@, host_crate_info.name@) is Some,
    ensures
        copied(content@, path@, host_crate_info.name@) == Some(r@),
{
    if is_pointed_to_host(path) {
        point_to_host(content, host_crate_info).unwrap()
    } else {
        String::from_str(content)
    }
}

/// As `process_file_content`, with nothing where a file that is to point to
/// the host crate cannot.
pub fn try_process_file_content(
    content: &str,
    path: &str,
    host_crate_info: &HostCrateInfo,
) -> (r: Option<String>)
    ensures
        optional_text(r) == copied(content@, path@, host_crate_info.name@),
{
    if is_pointed_to_host(path) && point_to_host(content, host_crate_info).is_none() {
        None
    } else {
        Some(process_file_content(content, path, host_crate_info))
    }
}

/// As `process_file_content`, with the path first.
pub fn transform_file_content(
    src_path: &str,
    src_content: &str,
    host_crate_info: &HostCrateInfo,
) -> (r: String)
    requires
        copied(src_content@, src_path@, host_crate_info.name@) is Some,
    ensures
        copied(src_content@, src_path@, host_crate_info.name@) == Some(r@),
{
    process_file_content(src_content, src_path, host_crate_info)
}

/// As `transform_file_content`, with nothing where a file that is to point to
/// the host crate cannot.
pub fn try_transform_file_content(
    src_path: &str,
    src_content: &str,
    host_crate_info: &HostCrateInfo,
) -> (r: Option<String>)
    ensures
        optional_text(r) == copied(src_content@, src_path@, host_crate_info.name@),
{
    if is_pointed_to_host(src_path) && point_to_host(src_content, host_crate_info).is_none() {
        None
    } else {
        Some(transform_file_content(src_path, src_content, host_crate_info))
    }
}

/// The crate whose `Cargo.toml` lies at `cargo_toml_path` and names it `name`.
pub fn host_crate_named(name: String, cargo_toml_path: &str) -> (r: HostCrateInfo)
    ensures
        is_host(r, name@, cargo_toml_path@),
{
    proof {
        reveal_strlit("-");
    }
    let identifier: String = replace_text(name.as_str(), "-", "_");
    let mut import_prefix: String = identifier.clone();
    import_prefix.append("::pax_reexports::");
    let is_lib_dev_mode: bool = text_ends_with(cargo_toml_path, "pax-example/Cargo.toml");
    HostCrateInfo { name, identifier, import_prefix, is_lib_dev_mode }
}

/// The crate whose `Cargo.toml` lies at `cargo_toml_path` and holds
/// `cargo_toml`.
pub fn get_host_crate_info(cargo_toml: &str, cargo_toml_path: &str) -> (r: HostCrateInfo)
    requires
        toml_string(cargo_toml@, "package"@, "name"@) is Some,
    ensures
        is_host(r, toml_string(cargo_toml@, "package"@, "name"@)->0, cargo_toml_path@),
{
    host_crate_named(get_toml_string(cargo_toml, "package", "name").unwrap(), cargo_toml_path)
}

/// As `get_host_crate_info`, with nothing where the text names no crate.
pub fn try_get_host_crate_info(cargo_toml: &str, cargo_toml_path: &str) -> (r: Option<
    HostCrateInfo,
>)
    ensures
        match r {
            Some(info) => toml_string(cargo_toml@, "package"@, "name"@) is Some && is_host(
                info,
                toml_string(cargo_toml@, "package"@, "name"@)->0,
                cargo_toml_path@,
            ),
            None => toml_string(cargo_toml@, "package"@, "name"@) is None,
        },
{
    if get_toml_string(cargo_toml, "package", "name").is_none() {
        None
    } else {
        Some(get_host_crate_info(cargo_toml, cargo_toml_path))
    }
}

/// No identifier of a host crate holds a hyphen.
pub proof fn an_identifier_has_no_hyphen(info: HostCrateInfo, name: Seq<char>, path: Seq<char>)
    requires
        is_host(info, name, path),
    ensures
        !info.identifier@.contains('-'),
{
    reveal_strlit("-");
    reveal_strlit("_");
    let s = info.identifier@;
    replacing_is_complete(name, "-"@, "_"@, 0);
    if s.contains('-') {
        let i = choose|i: int| 0 <= i < s.len() && s[i] == '-';
        assert(s.subrange(i, i + "-"@.len()) =~= "-"@);
        assert(occurs_at(s, "-"@, i));
        assert(contains_text(s, "-"@));
    }
}

} // verus!
