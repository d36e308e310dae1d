//! How targets are named and found.

use crate::target::{
    a_target_is_found_by_its_name, ascii_lowercase, is_ascii_text, target_named, RunTarget,
};
use vstd::prelude::*;
use vstd::string::*;

verus! {

/// One character is the other, or they are the small and the capital form of one
/// letter.
pub open spec fn is_same_letter(a: char, b: char) -> bool {
    ||| a == b
    ||| 'A' <= a <= 'Z' && b as int == a as int + 32
    ||| 'A' <= b <= 'Z' && a as int == b as int + 32
}

/// The texts have the same letters, small or capital.
pub open spec fn has_same_letters(a: Seq<char>, b: Seq<char>) -> bool {
    &&& a.len() == b.len()
    &&& forall|i: int| 0 <= i < a.len() ==> is_same_letter(#[trigger] a[i], b[i])
}

proof fn lemma_same_letters(text: Seq<char>, name: Seq<char>)
    requires
        is_ascii_text(text),
        is_ascii_text(name),
        forall|i: int| 0 <= i < name.len() ==> 'a' <= #[trigger] name[i] <= 'z',
    ensures
        has_same_letters(text, name) <==> ascii_lowercase(text) == name,
{
    let lower = ascii_lowercase(text);
    if has_same_letters(text, name) {
        assert forall|i: int| 0 <= i < name.len() implies lower[i] == name[i] by {
            assert(is_same_letter(text[i], name[i]));
        }
        assert(lower =~= name);
    }
    if lower == name {
        assert forall|i: int| 0 <= i < text.len() implies is_same_letter(
            #[trigger] text[i],
            name[i],
        ) by {
            assert(lower[i] == name[i]);
        }
    }
}

proof fn lemma_found(text: Seq<char>)
    requires
        is_ascii_text(text),
    ensures
        target_named(ascii_lowercase(text)) == Some(RunTarget::Web) <==> has_same_letters(
            text,
            "web"@,
        ),
        target_named(ascii_lowercase(text)) == Some(RunTarget::MacOS) <==> has_same_letters(
            text,
            "macos"@,
        ),
{
    reveal_strlit("web");
    reveal_strlit("macos");
    lemma_same_letters(text, "web"@);
    lemma_same_letters(text, "macos"@);
    assert("web"@.len() != "macos"@.len());
}

/// A lower case name leads to its target, and any other text to none.
pub proof fn a_lower_case_name_leads_to_its_target(text: &str, r: Option<RunTarget>)
    requires
        call_ensures(RunTarget::from_lowercase, (text,), r),
    ensures
        r == Some(RunTarget::Web) <==> text@ == "web"@,
        r == Some(RunTarget::MacOS) <==> text@ == "macos"@,
{
    reveal_strlit("web");
    reveal_strlit("macos");
    assert("web"@.len() != "macos"@.len());
}

/// The case of a name does not matter.
pub proof fn a_name_in_any_case_leads_to_its_target(input: &str, r: Option<RunTarget>)
    requires
        is_ascii_text(input@),
        call_ensures(RunTarget::try_from, (input,), r),
    ensures
        r == Some(RunTarget::Web) <==> has_same_letters(input@, "web"@),
        r == Some(RunTarget::MacOS) <==> has_same_letters(input@, "macos"@),
{
    lemma_found(input@);
}

/// A target that must be there is the one that is tried.
pub proof fn a_name_leads_to_one_target(input: &str, r: RunTarget, tried: Option<RunTarget>)
    requires
        call_ensures(RunTarget::from, (input,), r),
        call_ensures(RunTarget::try_from, (input,), tried),
    ensures
        tried == Some(r),
        is_ascii_text(input@) ==> (r is Web <==> has_same_letters(input@, "web"@)),
        is_ascii_text(input@) ==> (r is MacOS <==> has_same_letters(input@, "macos"@)),
{
    if is_ascii_text(input@) {
        lemma_found(input@);
    }
}

/// A target has the same name in both forms, and each leads back to it.
pub proof fn a_name_leads_back_to_its_target(
    target: &RunTarget,
    name: &'static str,
    lower: String,
    tried: Option<RunTarget>,
    found: Option<RunTarget>,
    lower_name: &str,
)
    requires
        call_ensures(RunTarget::into, (target,), name),
        call_ensures(RunTarget::lowercase_into, (target,), lower),
        call_ensures(RunTarget::try_from, (name,), tried),
        lower_name@ == lower@,
        call_ensures(RunTarget::from_lowercase, (lower_name,), found),
    ensures
        tried == Some(*target),
        found == Some(*target),
        has_same_letters(name@, lower@),
        target is Web ==> name@ == "Web"@ && lower@ == "web"@,
        target is MacOS ==> name@ == "MacOS"@ && lower@ == "macos"@,
{
    reveal_strlit("Web");
    reveal_strlit("web");
    reveal_strlit("MacOS");
    reveal_strlit("macos");
    a_target_is_found_by_its_name(*target);
    assert(name@.len() == lower@.len());
    assert forall|i: int| 0 <= i < name@.len() implies is_same_letter(
        #[trigger] name@[i],
        lower@[i],
    ) by {
        assert(ascii_lowercase(name@)[i] == lower@[i]);
    }
}

} // verus!
