//! Laws of the minimum-merge: merging a list of raw pairs is idempotent,
//! so a map that already holds the resulting minimum floors is left
//! unchanged by merging the same pairs again.

use vstd::prelude::*;

use crate::engine::{spec_engine_of, Engine};
use crate::targets::spec_merged;
use crate::version::{spec_parse_version, spec_version_le, Version};

verus! {

/// A map already lies at or below the floor a raw pair asks for: either the
/// pair does not resolve at all, or its engine is present with a version no
/// higher than the pair's.
pub open spec fn spec_pair_covered(m: Map<Engine, Version>, p: (Seq<char>, Seq<char>)) -> bool {
    match spec_engine_of(p.0) {
        Some(e) => match spec_parse_version(p.1) {
            Some(v) => m.dom().contains(e) && spec_version_le(m[e], v),
            None => true,
        },
        None => true,
    }
}

/// Merging never removes an engine and never raises its floor.
proof fn lemma_merged_monotone(
    m: Map<Engine, Version>,
    pairs: Seq<(Seq<char>, Seq<char>)>,
    e: Engine,
)
    requires
        m.dom().contains(e),
    ensures
        spec_merged(m, pairs).dom().contains(e),
        spec_version_le(spec_merged(m, pairs)[e], m[e]),
    decreases pairs.len(),
{
    if pairs.len() > 0 {
        lemma_merged_monotone(m, pairs.drop_last(), e);
    }
}

/// After a merge, the result lies at or below the floor of every pair that
/// went into it.
proof fn lemma_merged_covers(m: Map<Engine, Version>, pairs: Seq<(Seq<char>, Seq<char>)>, i: int)
    requires
        0 <= i < pairs.len(),
    ensures
        spec_pair_covered(spec_merged(m, pairs), pairs[i]),
    decreases pairs.len(),
{
    if i < pairs.len() - 1 {
        assert(pairs.drop_last()[i] == pairs[i]);
        lemma_merged_covers(m, pairs.drop_last(), i);
    }
}

/// Merging pairs that a map already covers leaves it unchanged.
proof fn lemma_merge_covered_id(m: Map<Engine, Version>, pairs: Seq<(Seq<char>, Seq<char>)>)
    requires
        forall|i: int| 0 <= i < pairs.len() ==> spec_pair_covered(m, #[trigger] pairs[i]),
    ensures
        spec_merged(m, pairs) == m,
    decreases pairs.len(),
{
    if pairs.len() > 0 {
        assert forall|i: int|
            0 <= i < pairs.drop_last().len() implies spec_pair_covered(
            m,
            #[trigger] pairs.drop_last()[i],
        ) by {
            assert(pairs.drop_last()[i] == pairs[i]);
        }
        lemma_merge_covered_id(m, pairs.drop_last());
        assert(spec_pair_covered(m, pairs.last()));
    }
}

/// Idempotence of the minimum-merge: a map that already holds the minimum
/// floors a pair list yields is left unchanged when the same list is merged
/// into it again.
pub proof fn lemma_merge_idempotent(m: Map<Engine, Version>, pairs: Seq<(Seq<char>, Seq<char>)>)
    ensures
        spec_merged(spec_merged(m, pairs), pairs) == spec_merged(m, pairs),
{
    let merged_once = spec_merged(m, pairs);
    assert forall|i: int|
        0 <= i < pairs.len() implies spec_pair_covered(merged_once, #[trigger] pairs[i]) by {
        lemma_merged_covers(m, pairs, i);
    }
    lemma_merge_covered_id(merged_once, pairs);
}

} // verus!
