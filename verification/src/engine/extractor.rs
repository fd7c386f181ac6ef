//! What is asked of a rune file before it is read, and what is counted in a
//! rune after it was read.

use crate::model::runer::Rune;
use vstd::prelude::*;
use vstd::string::*;

verus! {

/// Whether `file` ends in `.runer`.
pub open spec fn has_rune_extension(file: Seq<char>) -> bool {
    file.len() >= 6 && file.subrange(file.len() - 6, file.len() as int) == ".runer"@
}

/// Whether `file` names a rune file: only a name that ends in `.runer` is
/// read at all.
pub fn is_rune_file(file: &str) -> (accepted: bool)
    ensures
        accepted == has_rune_extension(file@),
{
    let extension = ".runer";
    proof {
        reveal_strlit(".runer");
    }
    let length = file.unicode_len();
    if length < 6 {
        return false;
    }
    let start: usize = length - 6;
    let ghost tail = file@.subrange(file@.len() - 6, file@.len() as int);
    let mut i: usize = 0;
    while i < 6
        invariant
            i <= 6,
            length == file@.len(),
            start == length - 6,
            extension@.len() == 6,
            extension@ == ".runer"@,
            tail == file@.subrange(file@.len() - 6, file@.len() as int),
            forall|k: int| 0 <= k < i ==> tail[k] == extension@[k],
        decreases 6 - i,
    {
        assert(tail[i as int] == file@[start + i]);
        if file.get_char(start + i) != extension.get_char(i) {
            assert(tail[i as int] != extension@[i as int]);
            assert(tail != extension@);
            return false;
        }
        i += 1;
    }
    assert(tail =~= extension@);
    true
}

/// How many entries each fragment of a rune holds; nothing for a fragment
/// that is missing.
#[derive(Clone, Copy, Debug, PartialEq, Eq, Structural)]
pub struct Fragments {
    pub blueprints: Option<usize>,
    pub flows: Option<usize>,
    pub env: Option<usize>,
}

/// Counts the blueprints, the flows and the environment bundles of a rune.
pub fn analyze_fragments(rune: &Rune) -> (counts: Fragments)
    ensures
        counts.blueprints == (match rune@.blueprints {
            Some(blueprints) => Some(blueprints.len() as usize),
            None => None,
        }),
        counts.flows == (match rune@.flows {
            Some(flows) => Some(flows.len() as usize),
            None => None,
        }),
        counts.env == (match rune@.env {
            Some(env) => Some(env.len() as usize),
            None => None,
        }),
{
    Fragments {
        blueprints: match &rune.blueprints {
            Some(blueprints) => Some(blueprints.len()),
            None => None,
        },
        flows: match &rune.flows {
            Some(flows) => Some(flows.len()),
            None => None,
        },
        env: match &rune.env {
            Some(env) => Some(env.len()),
            None => None,
        },
    }
}

} // verus!
