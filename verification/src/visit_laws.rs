//! A source is parsed when it is first visited, and never again.

use crate::text::texts;
use crate::visits::ManifestContext;
use vstd::prelude::*;
use vstd::string::*;

verus! {

/// The source is among those that were visited.
pub open spec fn was_visited<D>(ctx: ManifestContext<D>, source: Seq<char>) -> bool {
    exists|j: int|
        0 <= j < ctx.visited_source_ids@.len() && (#[trigger] ctx.visited_source_ids@[j])@
            == source
}

proof fn lemma_visited<D>(ctx: ManifestContext<D>, source: Seq<char>)
    ensures
        ctx@.sources.contains(source) <==> was_visited(ctx, source),
{
    if ctx@.sources.contains(source) {
        let j = choose|j: int| 0 <= j < ctx@.sources.len() && ctx@.sources[j] == source;
        assert(ctx.visited_source_ids@[j]@ == source);
    }
    if was_visited(ctx, source) {
        let j = choose|j: int|
            0 <= j < ctx.visited_source_ids@.len() && (#[trigger] ctx.visited_source_ids@[j])@
                == source;
        assert(ctx@.sources[j] == source);
    }
}

/// At first no source was visited and none has a definition.
pub proof fn at_first_nothing_was_visited<D>(r: ManifestContext<D>)
    requires
        call_ensures(ManifestContext::<D>::new, (), r),
    ensures
        r.visited_source_ids@.len() == 0,
        r.component_definitions@.len() == 0,
{
    assert(texts(r.visited_source_ids@).len() == r.visited_source_ids@.len());
}

/// What was visited is known.
pub proof fn a_visit_is_remembered<D>(ctx: &ManifestContext<D>, source: &str, r: bool)
    requires
        call_ensures(ManifestContext::<D>::is_visited, (ctx, source), r),
    ensures
        r <==> was_visited(*ctx, source@),
{
    lemma_visited(*ctx, source@);
}

/// A first visit parses the source: its id and what was parsed come behind all
/// that was there. A later visit changes nothing.
pub proof fn a_first_visit_parses_the_source<D, F: FnOnce() -> D>(
    ctx: ManifestContext<D>,
    source: &str,
    handle_file: F,
    r: ManifestContext<D>,
)
    requires
        call_ensures(
            ManifestContext::<D>::parse_to_manifest::<F>,
            (ctx, source, handle_file),
            r,
        ),
    ensures
        was_visited(r, source@),
        was_visited(ctx, source@) ==> r == ctx,
        !was_visited(ctx, source@) ==> {
            let n = ctx.visited_source_ids@.len();
            &&& r.visited_source_ids@.len() == n + 1
            &&& r.visited_source_ids@[n as int]@ == source@
            &&& forall|j: int|
                0 <= j < n ==> (#[trigger] r.visited_source_ids@[j])@
                    == ctx.visited_source_ids@[j]@
            &&& r.component_definitions@.len() == ctx.component_definitions@.len() + 1
            &&& call_ensures(handle_file, (), r.component_definitions@.last())
            &&& r.component_definitions@.drop_last() == ctx.component_definitions@
        },
{
    lemma_visited(ctx, source@);
    lemma_visited(r, source@);
    if !was_visited(ctx, source@) {
        let n = ctx.visited_source_ids@.len() as int;
        let definition = choose|definition: D|
            {
                &&& #[trigger] call_ensures(handle_file, (), definition)
                &&& r@ == ctx@.visit(source@, definition)
            };
        assert(r@.sources == ctx@.sources.push(source@));
        assert(r@.sources.len() == r.visited_source_ids@.len());
        assert(ctx@.sources.len() == n);
        assert(r@.sources[n] == r.visited_source_ids@[n]@);
        assert(r@.sources.contains(source@));
        assert forall|j: int| 0 <= j < n implies (#[trigger] r.visited_source_ids@[j])@
            == ctx.visited_source_ids@[j]@ by {
            assert(r@.sources[j] == r.visited_source_ids@[j]@);
            assert(ctx@.sources[j] == ctx.visited_source_ids@[j]@);
        }
        assert(r.component_definitions@ == ctx.component_definitions@.push(definition));
        assert(r.component_definitions@.drop_last() =~= ctx.component_definitions@);
    }
}

} // verus!
