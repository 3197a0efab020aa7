//! The reaction pipeline's verified core: classifying a detected collision
//! and producing the blend results, and applying drained results back onto
//! the particle list.  The channels and the worker that carry these values
//! between threads live outside the library; they only ever see owned
//! copies of DNA and indices.

use vstd::prelude::*;

verus! {

use crate::material::{
    MaterialDNA, State, ReactionType, dna_wf, spec_state_of_gene, spec_energy, spec_reaction_type,
    blend_post, decide_reaction_type, from_dna,
};
use crate::dot::{Dot, dot_wf, dots_wf};
use crate::naming::generate_name;

/// The blend ratio used for contact reactions: an even mix.
pub const REACTION_RATIO: i64 = 500_000;

/// A detected collision, carrying owned snapshots of both particles' DNA.
pub struct ReactionEvent {
    pub index_a: usize,
    pub dna_a: MaterialDNA,
    pub index_b: usize,
    pub dna_b: MaterialDNA,
}

pub open spec fn event_wf(ev: &ReactionEvent) -> bool {
    &&& dna_wf(&ev.dna_a)
    &&& dna_wf(&ev.dna_b)
}

/// The outcome of evaluating one event: a material change or a removal.
pub enum BlendResult {
    Change { index: usize, new_dna: MaterialDNA },
    Vanish { index: usize },
}

/// What evaluating an event yields: nothing for twins of one seed; otherwise
/// one or two results, picked by the phase-energy difference, all carrying
/// the one blended DNA that `blend_post` determines.
pub open spec fn spec_eval_post(ev: &ReactionEvent, rs: Seq<BlendResult>) -> bool {
    if ev.dna_a.seed == ev.dna_b.seed {
        rs.len() == 0
    } else {
        let sa = spec_state_of_gene(ev.dna_a.genes@[0] as int);
        let sb = spec_state_of_gene(ev.dna_b.genes@[0] as int);
        let a_low = spec_energy(sa) < spec_energy(sb);
        match spec_reaction_type(sa, sb) {
            ReactionType::Reaction => {
                &&& rs.len() == 2
                &&& rs[0] matches BlendResult::Change { index, new_dna } && index == ev.index_a
                    && blend_post(&ev.dna_a, &ev.dna_b, REACTION_RATIO as int, &new_dna)
                &&& rs[1] matches BlendResult::Change { index, new_dna } && index == ev.index_b
                    && blend_post(&ev.dna_a, &ev.dna_b, REACTION_RATIO as int, &new_dna)
            },
            ReactionType::CatalyticLowChanges => {
                &&& rs.len() == 1
                &&& rs[0] matches BlendResult::Change { index, new_dna } && index == (
                if a_low {
                    ev.index_a
                } else {
                    ev.index_b
                }) && blend_post(&ev.dna_a, &ev.dna_b, REACTION_RATIO as int, &new_dna)
            },
            ReactionType::CatalyticHighChangesAndLowVanishes => {
                &&& rs.len() == 2
                &&& rs[0] matches BlendResult::Change { index, new_dna } && index == (
                if a_low {
                    ev.index_b
                } else {
                    ev.index_a
                }) && blend_post(&ev.dna_a, &ev.dna_b, REACTION_RATIO as int, &new_dna)
                &&& rs[1] matches BlendResult::Vanish { index } && index == (
                if a_low {
                    ev.index_a
                } else {
                    ev.index_b
                })
            },
        }
    }
}

/// Evaluates one detected collision: same-seed pairs do not react; otherwise
/// the phases' energy gap picks a mutual change, an asymmetric change of the
/// lower-energy particle, or a change of the higher one with the lower one
/// vanishing.
pub fn evaluate_event(ev: &ReactionEvent) -> (rs: Vec<BlendResult>)
    requires
        event_wf(ev),
    ensures
        spec_eval_post(ev, rs@),
        rs@.len() <= 2,
{
    let mut rs: Vec<BlendResult> = Vec::new();
    if ev.dna_a.seed == ev.dna_b.seed {
        return rs;
    }
    let pa = from_dna(&ev.dna_a);
    let pb = from_dna(&ev.dna_b);
    let rt: ReactionType = decide_reaction_type(pa.state, pb.state);
    let new_dna: MaterialDNA = ev.dna_a.blend(&ev.dna_b, REACTION_RATIO);
    let ea: i64 = pa.state.get_energy_level();
    let eb: i64 = pb.state.get_energy_level();
    match rt {
        ReactionType::Reaction => {
            rs.push(BlendResult::Change { index: ev.index_a, new_dna: new_dna.clone() });
            rs.push(BlendResult::Change { index: ev.index_b, new_dna });
        },
        ReactionType::CatalyticLowChanges => {
            if ea < eb {
                rs.push(BlendResult::Change { index: ev.index_a, new_dna });
            } else {
                rs.push(BlendResult::Change { index: ev.index_b, new_dna });
            }
        },
        ReactionType::CatalyticHighChangesAndLowVanishes => {
            if ea < eb {
                rs.push(BlendResult::Change { index: ev.index_b, new_dna });
                rs.push(BlendResult::Vanish { index: ev.index_a });
            } else {
                rs.push(BlendResult::Change { index: ev.index_a, new_dna });
                rs.push(BlendResult::Vanish { index: ev.index_b });
            }
        },
    }
    rs
}

/// Whether the list holds the value.
pub open spec fn spec_list_has(s: Seq<usize>, x: usize) -> bool {
    exists|k: int| 0 <= k < s.len() && s[k] == x
}

pub fn list_has(v: &Vec<usize>, x: usize) -> (r: bool)
    ensures
        r == spec_list_has(v@, x),
{
    let mut k: usize = 0;
    while k < v.len()
        invariant
            k <= v@.len(),
            forall|k2: int| 0 <= k2 < k ==> v@[k2] != x,
        decreases v@.len() - k,
    {
        if v[k] == x {
            return true;
        }
        k = k + 1;
    }
    false
}

/// Whether the particle list holds this exact particle.
pub open spec fn seq_has_dot(s: Seq<Dot>, d: Dot) -> bool {
    exists|o: int| 0 <= o < s.len() && #[trigger] s[o] == d
}

/// Whether the particle list holds a particle of this identity.
pub open spec fn seq_has_id(s: Seq<Dot>, id: u64) -> bool {
    exists|o: int| 0 <= o < s.len() && #[trigger] s[o].id == id
}

/// The particle list with every marked index removed, keeping the others'
/// order.
pub open spec fn spec_remove_marked(s: Seq<Dot>, marked: Seq<usize>, from: int) -> Seq<Dot>
    decreases s.len() - from,
{
    if from < 0 || from >= s.len() {
        Seq::empty()
    } else if spec_list_has(marked, from as usize) {
        spec_remove_marked(s, marked, from + 1)
    } else {
        seq![s[from]] + spec_remove_marked(s, marked, from + 1)
    }
}

/// Removes the marked indices from the list, walking from the back so that
/// earlier indices stay valid while later ones are removed.
pub fn remove_marked(dots: &mut Vec<Dot>, marked: &Vec<usize>)
    requires
        dots_wf(old(dots)@),
    ensures
        final(dots)@ == spec_remove_marked(old(dots)@, marked@, 0),
        dots_wf(final(dots)@),
        final(dots)@.len() <= old(dots)@.len(),
        forall|k: int|
            0 <= k < final(dots)@.len() ==> seq_has_dot(old(dots)@, #[trigger] final(dots)@[k]),
{
    let n: usize = dots.len();
    let mut i: usize = n;
    while i > 0
        invariant
            i <= n,
            dots@.len() == i + spec_remove_marked(old(dots)@, marked@, i as int).len(),
            dots@ == old(dots)@.take(i as int) + spec_remove_marked(old(dots)@, marked@, i as int),
            n == old(dots)@.len(),
            dots_wf(old(dots)@),
        decreases i,
    {
        i = i - 1;
        if list_has(marked, i) {
            dots.remove(i);
            proof {
                assert(dots@ =~= old(dots)@.take(i as int) + spec_remove_marked(
                    old(dots)@,
                    marked@,
                    i as int,
                ));
            }
        } else {
            proof {
                assert(dots@ =~= old(dots)@.take(i as int) + spec_remove_marked(
                    old(dots)@,
                    marked@,
                    i as int,
                ));
            }
        }
    }
    proof {
        assert(dots@ =~= spec_remove_marked(old(dots)@, marked@, 0));
        lemma_remove_marked_len(old(dots)@, marked@, 0);
        assert forall|k: int| 0 <= k < dots@.len() implies dot_wf(&dots@[k]) && seq_has_dot(
            old(dots)@,
            dots@[k],
        ) by {
            lemma_remove_marked_members(old(dots)@, marked@, 0, k);
            let o = choose|o: int|
                0 <= o < old(dots)@.len() && spec_remove_marked(old(dots)@, marked@, 0)[k] == old(
                    dots,
                )@[o];
            assert(old(dots)@[o] == dots@[k]);
        }
    }
}

/// The filtered list is no longer than what it filters.
proof fn lemma_remove_marked_len(s: Seq<Dot>, marked: Seq<usize>, from: int)
    requires
        0 <= from,
    ensures
        spec_remove_marked(s, marked, from).len() <= s.len() - from || spec_remove_marked(
            s,
            marked,
            from,
        ).len() == 0,
    decreases s.len() - from,
{
    if from < s.len() {
        lemma_remove_marked_len(s, marked, from + 1);
    }
}

/// Every element of the filtered list is an element of the original.
proof fn lemma_remove_marked_members(s: Seq<Dot>, marked: Seq<usize>, from: int, k: int)
    requires
        0 <= k < spec_remove_marked(s, marked, from).len(),
    ensures
        exists|o: int| 0 <= o < s.len() && spec_remove_marked(s, marked, from)[k] == s[o],
    decreases s.len() - from,
{
    if from < 0 || from >= s.len() {
    } else if spec_list_has(marked, from as usize) {
        lemma_remove_marked_members(s, marked, from + 1, k);
    } else {
        if k == 0 {
            assert(spec_remove_marked(s, marked, from)[0] == s[from]);
        } else {
            lemma_remove_marked_members(s, marked, from + 1, k - 1);
        }
    }
}

/// The DNA that the last applicable `Change` among the first `j` results
/// assigns to particle index `i`, if any.
pub open spec fn spec_last_change(rs: Seq<BlendResult>, j: int, i: int) -> Option<MaterialDNA>
    decreases j,
{
    if j <= 0 {
        None
    } else {
        match rs[j - 1] {
            BlendResult::Change { index, new_dna } => if index == i {
                Some(new_dna)
            } else {
                spec_last_change(rs, j - 1, i)
            },
            BlendResult::Vanish { .. } => spec_last_change(rs, j - 1, i),
        }
    }
}

/// The indices the first `j` results mark to vanish, in order.
pub open spec fn spec_vanishes(rs: Seq<BlendResult>, j: int) -> Seq<usize>
    decreases j,
{
    if j <= 0 {
        Seq::empty()
    } else {
        match rs[j - 1] {
            BlendResult::Vanish { index } => spec_vanishes(rs, j - 1).push(index),
            BlendResult::Change { .. } => spec_vanishes(rs, j - 1),
        }
    }
}

/// A particle after adopting a blended DNA: the genetic record carries the
/// new seed and genes, the material is its decoding, and every other field
/// but the display name keeps its value (the name is regenerated from the
/// new DNA, whose rendering this module does not pin).
pub open spec fn dot_changed(before: Dot, nd: MaterialDNA, after: Dot) -> bool {
    &&& after.id == before.id
    &&& after.x == before.x && after.y == before.y
    &&& after.vx == before.vx && after.vy == before.vy
    &&& after.reaction_count == before.reaction_count
    &&& after.last_reaction_at == before.last_reaction_at
    &&& after.last_decay_check_at == before.last_decay_check_at
    &&& after.last_heat_exchange_at == before.last_heat_exchange_at
    &&& after.selected == before.selected
    &&& after.glowing_since == before.glowing_since
    &&& after.material_dna.seed == nd.seed
    &&& after.material_dna.genes@ == nd.genes@
    &&& crate::material::spec_decodes(&after.material_dna, after.material)
}

/// What applying a result list does: a middle state applies, per index, the
/// last change naming it (or leaves the particle untouched, name aside),
/// and the final list removes the vanished indices from that middle state.
pub open spec fn spec_apply_post(
    before: Seq<Dot>,
    rs: Seq<BlendResult>,
    mid: Seq<Dot>,
    after: Seq<Dot>,
) -> bool {
    &&& mid.len() == before.len()
    &&& forall|i: int|
        0 <= i < mid.len() ==> match spec_last_change(rs, rs.len() as int, i) {
            Some(nd) => dot_changed(before[i], nd, #[trigger] mid[i]),
            None => mid[i] == before[i],
        }
    &&& after == spec_remove_marked(mid, spec_vanishes(rs, rs.len() as int), 0)
}

/// Applies drained blend results to the live particles: changes overwrite
/// the DNA, re-decode the material and regenerate the name; vanishes are
/// collected and removed back-to-front.  Results naming an index that no
/// longer exists are dropped.
pub fn apply_results(dots: &mut Vec<Dot>, results: &Vec<BlendResult>)
    requires
        dots_wf(old(dots)@),
        forall|k: int|
            0 <= k < results@.len() ==> ((#[trigger] results@[k]) matches BlendResult::Change {
                index,
                new_dna,
            } ==> dna_wf(&new_dna)),
    ensures
        dots_wf(final(dots)@),
        final(dots)@.len() <= old(dots)@.len(),
        forall|k: int|
            0 <= k < final(dots)@.len() ==> seq_has_id(
                old(dots)@,
                (#[trigger] final(dots)@[k]).id,
            ),
        exists|mid: Seq<Dot>| #[trigger] spec_apply_post(old(dots)@, results@, mid, final(dots)@),
{
    let mut to_remove: Vec<usize> = Vec::new();
    let mut k: usize = 0;
    while k < results.len()
        invariant
            k <= results@.len(),
            dots_wf(dots@),
            dots@.len() == old(dots)@.len(),
            forall|k2: int|
                0 <= k2 < dots@.len() ==> #[trigger] dots@[k2].id == old(dots)@[k2].id,
            forall|i: int|
                0 <= i < dots@.len() ==> match spec_last_change(results@, k as int, i) {
                    Some(nd) => dot_changed(old(dots)@[i], nd, #[trigger] dots@[i]),
                    None => dots@[i] == old(dots)@[i],
                },
            to_remove@ == spec_vanishes(results@, k as int),
            forall|k2: int|
                0 <= k2 < results@.len() ==> ((#[trigger] results@[k2])
                    matches BlendResult::Change { index, new_dna } ==> dna_wf(&new_dna)),
        decreases results@.len() - k,
    {
        match &results[k] {
            BlendResult::Change { index, new_dna } => {
                let idx: usize = *index;
                if idx < dots.len() {
                    let dna: MaterialDNA = new_dna.clone();
                    let mat = from_dna(&dna);
                    let name: String = generate_name(&dna);
                    dots[idx].material_dna = dna;
                    dots[idx].material = mat;
                    dots[idx].name = name;
                }
            },
            BlendResult::Vanish { index } => {
                to_remove.push(*index);
            },
        }
        k = k + 1;
    }
    let ghost mid = dots@;
    remove_marked(dots, &to_remove);
    proof {
        assert(spec_apply_post(old(dots)@, results@, mid, dots@));
        assert forall|k: int| 0 <= k < dots@.len() implies seq_has_id(
            old(dots)@,
            dots@[k].id,
        ) by {
            assert(seq_has_dot(mid, dots@[k]));
            let o = choose|o: int| 0 <= o < mid.len() && #[trigger] mid[o] == dots@[k];
            assert(old(dots)@[o].id == dots@[k].id);
        }
    }
}

} // verus!
