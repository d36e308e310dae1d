//! The sources that were visited while an application was parsed.

use crate::text::{same_text, texts};
use vstd::prelude::*;
use vstd::string::*;

verus! {

/// What was found so far: the ids of the sources that were visited, and a
/// definition for each of them.
#[derive(Debug)]
pub struct ManifestContext<D> {
    pub visited_source_ids: Vec<String>,
    pub component_definitions: Vec<D>,
}

/// The same as mathematical values.
#[verifier::ext_equal]
pub struct Visits<D> {
    pub sources: Seq<Seq<char>>,
    pub definitions: Seq<D>,
}

impl<D> View for ManifestContext<D> {
    type V = Visits<D>;

    open spec fn view(&self) -> Visits<D> {
        Visits {
            sources: texts(self.visited_source_ids@),
            definitions: self.component_definitions@,
        }
    }
}

impl<D> Visits<D> {
    /// No source was visited twice, and each has one definition.
    pub open spec fn wf(self) -> bool {
        &&& self.sources.no_duplicates()
        &&& self.definitions.len() == self.sources.len()
    }

    /// After a visit to a source that holds `definition`.
    pub open spec fn visit(self, source: Seq<char>, definition: D) -> Visits<D> {
        if self.sources.contains(source) {
            self
        } else {
            Visits {
                sources: self.sources.push(source),
                definitions: self.definitions.push(definition),
            }
        }
    }
}

impl<D> ManifestContext<D> {
    /// Nothing was visited.
    pub fn new() -> (r: Self)
        ensures
            r@.wf(),
            r@.sources == Seq::<Seq<char>>::empty(),
            r@.definitions == Seq::<D>::empty(),
    {
        let r: Self = ManifestContext {
            visited_source_ids: Vec::new(),
            component_definitions: Vec::new(),
        };
        assert(r@.sources =~= Seq::<Seq<char>>::empty());
        r
    }

    /// Whether the source was visited.
    pub fn is_visited(&self, source_id: &str) -> (r: bool)
        ensures
            r == self@.sources.contains(source_id@),
    {
        let mut i: usize = 0;
        while i < self.visited_source_ids.len()
            invariant
                i <= self.visited_source_ids@.len(),
                forall|j: int| 0 <= j < i ==> #[trigger] self@.sources[j] != source_id@,
            decreases self.visited_source_ids@.len() - i,
        {
            if same_text(self.visited_source_ids[i].as_str(), source_id) {
                assert(self@.sources[i as int] == source_id@);
                return true;
            }
            i += 1;
        }
        false
    }

    /// Visits a source. On the first visit `handle_file` parses it; a source
    /// that was visited is not parsed again.
    pub fn parse_to_manifest<F: FnOnce() -> D>(self, source_id: &str, handle_file: F) -> (r: Self)
        requires
            !self@.sources.contains(source_id@) ==> call_requires(handle_file, ()),
        ensures
            self@.wf() ==> r@.wf(),
            self@.sources.contains(source_id@) ==> r == self,
            !self@.sources.contains(source_id@) ==> exists|definition: D|
                {
                    &&& #[trigger] call_ensures(handle_file, (), definition)
                    &&& r@ == self@.visit(source_id@, definition)
                },
    {
        if self.is_visited(source_id) {
            return self;
        }
        let ghost before = self@;
        let mut ctx: Self = self;
        ctx.visited_source_ids.push(String::from_str(source_id));
        let definition: D = handle_file();
        ctx.component_definitions.push(definition);
        proof {
            assert(call_ensures(handle_file, (), definition));
            assert(ctx@ =~= before.visit(source_id@, definition));
            if before.wf() {
                a_visit_keeps_one_definition_for_each_source(before, source_id@, definition);
            }
        }
        ctx
    }
}

/// Visits keep one definition for each source.
pub proof fn a_visit_keeps_one_definition_for_each_source<D>(
    visits: Visits<D>,
    source: Seq<char>,
    definition: D,
)
    requires
        visits.wf(),
    ensures
        visits.visit(source, definition).wf(),
{
    let after = visits.visit(source, definition);
    if !visits.sources.contains(source) {
        assert forall|i: int, j: int|
            0 <= i < after.sources.len() && 0 <= j < after.sources.len() && i != j implies
            after.sources[i] != after.sources[j] by {
            if i < visits.sources.len() && j < visits.sources.len() {
                assert(visits.sources[i] != visits.sources[j]);
            } else if i < visits.sources.len() {
                assert(visits.sources.contains(visits.sources[i]));
            } else {
                assert(visits.sources.contains(visits.sources[j]));
            }
        }
    }
}

/// A second visit to a source changes nothing, whatever it holds by then.
pub proof fn a_source_is_parsed_once<D>(
    visits: Visits<D>,
    source: Seq<char>,
    definition: D,
    again: D,
)
    ensures
        visits.visit(source, definition).visit(source, again) == visits.visit(source, definition),
{
    if !visits.sources.contains(source) {
        let after = visits.visit(source, definition);
        assert(after.sources[visits.sources.len() as int] == source);
    }
}

} // verus!
