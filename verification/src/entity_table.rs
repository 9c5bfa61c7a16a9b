//! Exact-match lookup in the static named-entity table.

use vstd::prelude::*;

verus! {

/// The replacement text that the named-entity table gives for a key (the
/// full reference, `&` and `;` included), or `None` when the table has no
/// entry of that name. Names are matched case-sensitively.
pub uninterp spec fn entity_lookup(key: Seq<char>) -> Option<Seq<char>>;

/// Relies on entities::ENTITIES: a fixed, immutable table of named
/// entities, searched here by exact match on the full reference text, so
/// the result depends on the key alone.
#[verifier::external_body]
pub(crate) fn lookup_entity(key: &Vec<char>) -> (r: Option<&'static str>)
    ensures
        match r {
            Some(t) => entity_lookup(key@) == Some(t@),
            None => entity_lookup(key@) is None,
        },
{
    let k: String = key.iter().collect();
    entities::ENTITIES.iter().find(|e| e.entity == k).map(|e| e.characters)
}

} // verus!
