//! What an application is built for, and how.

use crate::text::same_text;
use vstd::prelude::*;
use vstd::string::*;

verus! {

/// The platform that an application is built for.
#[derive(Debug)]
pub enum RunTarget {
    MacOS,
    Web,
}

/// What runs the application once it is built.
#[derive(Debug)]
pub enum Harness {
    Development,
}

/// What is to be built, where and how.
#[derive(Debug)]
pub struct RunContext {
    pub target: RunTarget,
    pub path: String,
    pub verbose: bool,
    pub should_also_run: bool,
    pub libdevmode: bool,
}

/// The text in lower case.
pub uninterp spec fn lowercase(s: Seq<char>) -> Seq<char>;

/// All characters are ASCII.
pub open spec fn is_ascii_text(s: Seq<char>) -> bool {
    forall|i: int| 0 <= i < s.len() ==> (#[trigger] s[i]) as int <= 127
}

/// The ASCII character in lower case.
pub open spec fn ascii_lowercase_char(c: char) -> char {
    if 65 <= c as int <= 90 {
        (c as int + 32) as char
    } else {
        c
    }
}

/// The ASCII text in lower case.
pub open spec fn ascii_lowercase(s: Seq<char>) -> Seq<char> {
    s.map_values(|c: char| ascii_lowercase_char(c))
}

/// `str::to_lowercase`: the text in lower case, which is named. Of an ASCII
/// text it says that the capital letters, and nothing else, are replaced by
/// the small ones; of other texts what the result is is left unsaid.
#[verifier::external_body]
pub(crate) fn lowercase_text(s: &str) -> (r: String)
    ensures
        r@ == lowercase(s@),
        is_ascii_text(s@) ==> r@ == ascii_lowercase(s@),
{
    s.to_lowercase()
}

/// The target with the name `text`, which is in lower case.
pub open spec fn target_named(text: Seq<char>) -> Option<RunTarget> {
    if text == "macos"@ {
        Some(RunTarget::MacOS)
    } else if text == "web"@ {
        Some(RunTarget::Web)
    } else {
        None
    }
}

/// The text is the name of a target, whatever its case.
pub open spec fn names_target(text: Seq<char>) -> bool {
    ||| target_named(lowercase(text)) is Some
    ||| is_ascii_text(text) && target_named(ascii_lowercase(text)) is Some
}

impl RunTarget {
    /// The name of the target.
    pub open spec fn name(self) -> Seq<char> {
        match self {
            RunTarget::Web => "Web"@,
            RunTarget::MacOS => "MacOS"@,
        }
    }

    /// The name of the target in lower case.
    pub open spec fn lowercase_name(self) -> Seq<char> {
        match self {
            RunTarget::Web => "web"@,
            RunTarget::MacOS => "macos"@,
        }
    }

    /// The target with the name `text`, which is in lower case.
    pub fn from_lowercase(text: &str) -> (r: Option<RunTarget>)
        ensures
            r == target_named(text@),
    {
        if same_text(text, "macos") {
            Some(RunTarget::MacOS)
        } else if same_text(text, "web") {
            Some(RunTarget::Web)
        } else {
            None
        }
    }

    /// The target with the name `input`, whatever its case.
    pub fn from(input: &str) -> (r: RunTarget)
        requires
            names_target(input@),
        ensures
            target_named(lowercase(input@)) == Some(r),
            is_ascii_text(input@) ==> target_named(ascii_lowercase(input@)) == Some(r),
    {
        let lower: String = lowercase_text(input);
        RunTarget::from_lowercase(lower.as_str()).unwrap()
    }

    /// As `from`, with nothing where no target has that name.
    pub fn try_from(input: &str) -> (r: Option<RunTarget>)
        ensures
            r == target_named(lowercase(input@)),
            is_ascii_text(input@) ==> r == target_named(ascii_lowercase(input@)),
    {
        let lower: String = lowercase_text(input);
        if RunTarget::from_lowercase(lower.as_str()).is_none() {
            None
        } else {
            Some(RunTarget::from(input))
        }
    }

    /// The name of the target.
    pub fn into(&self) -> (r: &'static str)
        ensures
            r@ == self.name(),
    {
        match self {
            RunTarget::Web => "Web",
            RunTarget::MacOS => "MacOS",
        }
    }

    /// The name of the target in lower case.
    pub fn lowercase_into(&self) -> (r: String)
        ensures
            r@ == self.lowercase_name(),
    {
        proof {
            a_target_is_found_by_its_name(*self);
        }
        lowercase_text(self.into())
    }
}

/// The name of a target, in lower case, is the one under which it is found.
pub proof fn a_target_is_found_by_its_name(target: RunTarget)
    ensures
        is_ascii_text(target.name()),
        ascii_lowercase(target.name()) == target.lowercase_name(),
        target_named(ascii_lowercase(target.name())) == Some(target),
{
    reveal_strlit("Web");
    reveal_strlit("web");
    reveal_strlit("MacOS");
    reveal_strlit("macos");
    assert(ascii_lowercase(target.name()) =~= target.lowercase_name());
    assert("web"@.len() != "macos"@.len());
}

/// A target is found by its name in any case, and by no other ASCII text.
pub proof fn a_target_is_found_by_its_name_only(text: Seq<char>, target: RunTarget)
    requires
        is_ascii_text(text),
    ensures
        target_named(ascii_lowercase(text)) == Some(target) <==> ascii_lowercase(text)
            == ascii_lowercase(target.name()),
{
    a_target_is_found_by_its_name(target);
}

} // verus!
