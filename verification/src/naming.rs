//! Cosmetic material names: a tiny Markov chain over phonemes, walked with
//! the material seed's reproducible word stream, so a DNA always maps to the
//! same name; the whole walk is pinned by spec twins.

use vstd::prelude::*;

verus! {

use crate::material::{MaterialDNA, State, dna_wf, spec_state_of_gene};
use crate::rng::{seed_words, word_in, word_stream, STREAM_LEN};
use vstd::string::StringExecFns;

/// How many distinct phonemes the chain knows.
pub const PHONEME_COUNT: usize = 36;

/// The characters of the `i`-th phoneme, lower case.
pub open spec fn spec_phoneme(i: int) -> Seq<char> {
    if i == 0 { "gr"@ } else if i == 1 { "kr"@ } else if i == 2 { "st"@ } else if i == 3 { "dr"@ }
    else if i == 4 { "br"@ } else if i == 5 { "ar"@ } else if i == 6 { "or"@ }
    else if i == 7 { "an"@ } else if i == 8 { "ul"@ } else if i == 9 { "tar"@ }
    else if i == 10 { "dor"@ } else if i == 11 { "on"@ } else if i == 12 { "ite"@ }
    else if i == 13 { "orn"@ } else if i == 14 { "el"@ } else if i == 15 { "lo"@ }
    else if i == 16 { "va"@ } else if i == 17 { "mi"@ } else if i == 18 { "sa"@ }
    else if i == 19 { "ae"@ } else if i == 20 { "al"@ } else if i == 21 { "ir"@ }
    else if i == 22 { "ol"@ } else if i == 23 { "ra"@ } else if i == 24 { "lia"@ }
    else if i == 25 { "ine"@ } else if i == 26 { "pha"@ } else if i == 27 { "is"@ }
    else if i == 28 { "sy"@ } else if i == 29 { "lu"@ } else if i == 30 { "ia"@ }
    else if i == 31 { "es"@ } else if i == 32 { "the"@ } else if i == 33 { "ion"@ }
    else if i == 34 { "os"@ } else { "eth"@ }
}

/// The characters of the `i`-th phoneme with its first letter capitalized.
pub open spec fn spec_phoneme_cap(i: int) -> Seq<char> {
    if i == 0 { "Gr"@ } else if i == 1 { "Kr"@ } else if i == 2 { "St"@ } else if i == 3 { "Dr"@ }
    else if i == 4 { "Br"@ } else if i == 5 { "Ar"@ } else if i == 6 { "Or"@ }
    else if i == 7 { "An"@ } else if i == 8 { "Ul"@ } else if i == 9 { "Tar"@ }
    else if i == 10 { "Dor"@ } else if i == 11 { "On"@ } else if i == 12 { "Ite"@ }
    else if i == 13 { "Orn"@ } else if i == 14 { "El"@ } else if i == 15 { "Lo"@ }
    else if i == 16 { "Va"@ } else if i == 17 { "Mi"@ } else if i == 18 { "Sa"@ }
    else if i == 19 { "Ae"@ } else if i == 20 { "Al"@ } else if i == 21 { "Ir"@ }
    else if i == 22 { "Ol"@ } else if i == 23 { "Ra"@ } else if i == 24 { "Lia"@ }
    else if i == 25 { "Ine"@ } else if i == 26 { "Pha"@ } else if i == 27 { "Is"@ }
    else if i == 28 { "Sy"@ } else if i == 29 { "Lu"@ } else if i == 30 { "Ia"@ }
    else if i == 31 { "Es"@ } else if i == 32 { "The"@ } else if i == 33 { "Ion"@ }
    else if i == 34 { "Os"@ } else { "Eth"@ }
}

/// The `i`-th phoneme, lower case.
fn phoneme(i: usize) -> (s: &'static str)
    requires
        i < PHONEME_COUNT,
    ensures
        s@ == spec_phoneme(i as int),
{
    match i {
        0 => "gr", 1 => "kr", 2 => "st", 3 => "dr", 4 => "br", 5 => "ar", 6 => "or",
        7 => "an", 8 => "ul", 9 => "tar", 10 => "dor", 11 => "on", 12 => "ite", 13 => "orn",
        14 => "el", 15 => "lo", 16 => "va", 17 => "mi", 18 => "sa", 19 => "ae", 20 => "al",
        21 => "ir", 22 => "ol", 23 => "ra", 24 => "lia", 25 => "ine", 26 => "pha", 27 => "is",
        28 => "sy", 29 => "lu", 30 => "ia", 31 => "es", 32 => "the", 33 => "ion", 34 => "os",
        _ => "eth",
    }
}

/// The `i`-th phoneme with its first letter capitalized, for name starts.
fn phoneme_cap(i: usize) -> (s: &'static str)
    requires
        i < PHONEME_COUNT,
    ensures
        s@ == spec_phoneme_cap(i as int),
        s@.len() > 0,
{
    proof {
        reveal_strlit("Gr");
        reveal_strlit("Kr");
        reveal_strlit("St");
        reveal_strlit("Dr");
        reveal_strlit("Br");
        reveal_strlit("Ar");
        reveal_strlit("Or");
        reveal_strlit("An");
        reveal_strlit("Ul");
        reveal_strlit("Tar");
        reveal_strlit("Dor");
        reveal_strlit("On");
        reveal_strlit("Ite");
        reveal_strlit("Orn");
        reveal_strlit("El");
        reveal_strlit("Lo");
        reveal_strlit("Va");
        reveal_strlit("Mi");
        reveal_strlit("Sa");
        reveal_strlit("Ae");
        reveal_strlit("Al");
        reveal_strlit("Ir");
        reveal_strlit("Ol");
        reveal_strlit("Ra");
        reveal_strlit("Lia");
        reveal_strlit("Ine");
        reveal_strlit("Pha");
        reveal_strlit("Is");
        reveal_strlit("Sy");
        reveal_strlit("Lu");
        reveal_strlit("Ia");
        reveal_strlit("Es");
        reveal_strlit("The");
        reveal_strlit("Ion");
        reveal_strlit("Os");
        reveal_strlit("Eth");
    }
    match i {
        0 => "Gr", 1 => "Kr", 2 => "St", 3 => "Dr", 4 => "Br", 5 => "Ar", 6 => "Or",
        7 => "An", 8 => "Ul", 9 => "Tar", 10 => "Dor", 11 => "On", 12 => "Ite", 13 => "Orn",
        14 => "El", 15 => "Lo", 16 => "Va", 17 => "Mi", 18 => "Sa", 19 => "Ae", 20 => "Al",
        21 => "Ir", 22 => "Ol", 23 => "Ra", 24 => "Lia", 25 => "Ine", 26 => "Pha", 27 => "Is",
        28 => "Sy", 29 => "Lu", 30 => "Ia", 31 => "Es", 32 => "The", 33 => "Ion", 34 => "Os",
        _ => "Eth",
    }
}

/// Whether the phoneme contains the letter `r`.
pub open spec fn spec_has_r(i: int) -> bool {
    i == 0 || i == 1 || i == 3 || i == 4 || i == 5 || i == 6 || i == 9 || i == 10 || i == 13
        || i == 21 || i == 23 || i == 26
}

/// Whether the phoneme contains the letter `d`.
pub open spec fn spec_has_d(i: int) -> bool {
    i == 3 || i == 10
}

/// Whether the phoneme contains the letter `a`.
pub open spec fn spec_has_a(i: int) -> bool {
    i == 5 || i == 7 || i == 9 || i == 16 || i == 18 || i == 19 || i == 20 || i == 23 || i == 24
        || i == 26 || i == 30
}

/// Whether the phoneme contains the letter `e`.
pub open spec fn spec_has_e(i: int) -> bool {
    i == 14 || i == 19 || i == 25 || i == 31 || i == 32 || i == 35
}

/// The chain's transition weight: phase-flavored letter pairings are five
/// times as likely as the rest.
pub open spec fn spec_weight(state: State, from: int, to: int) -> int {
    if from == to {
        1
    } else {
        match state {
            State::Solid => if (spec_has_r(from) && spec_has_d(to)) || (spec_has_d(from)
                && spec_has_r(to)) {
                5
            } else {
                1
            },
            State::Liquid => if (spec_has_a(from) && spec_has_e(to)) || (spec_has_e(from)
                && spec_has_a(to)) {
                5
            } else {
                1
            },
            State::Gas => if from == 19 && to == 33 {
                5
            } else {
                1
            },
        }
    }
}

fn transition_weight(state: State, from: usize, to: usize) -> (w: u64)
    ensures
        w == spec_weight(state, from as int, to as int),
        1 <= w <= 5,
{
    if from == to {
        return 1;
    }
    match state {
        State::Solid => {
            if (has_r(from) && has_d(to)) || (has_d(from) && has_r(to)) {
                5
            } else {
                1
            }
        },
        State::Liquid => {
            if (has_a(from) && has_e(to)) || (has_e(from) && has_a(to)) {
                5
            } else {
                1
            }
        },
        State::Gas => {
            if from == 19 && to == 33 {
                5
            } else {
                1
            }
        },
    }
}

fn has_r(i: usize) -> (r: bool)
    ensures
        r == spec_has_r(i as int),
{
    matches!(i, 0 | 1 | 3 | 4 | 5 | 6 | 9 | 10 | 13 | 21 | 23 | 26)
}

fn has_d(i: usize) -> (r: bool)
    ensures
        r == spec_has_d(i as int),
{
    matches!(i, 3 | 10)
}

fn has_a(i: usize) -> (r: bool)
    ensures
        r == spec_has_a(i as int),
{
    matches!(i, 5 | 7 | 9 | 16 | 18 | 19 | 20 | 23 | 24 | 26 | 30)
}

fn has_e(i: usize) -> (r: bool)
    ensures
        r == spec_has_e(i as int),
{
    matches!(i, 14 | 19 | 25 | 31 | 32 | 35)
}

/// Total weight of the transitions out of `from` into the first `i`
/// phonemes, the self-transition excluded.
pub open spec fn spec_total_weight(state: State, from: int, i: int) -> int
    decreases i,
{
    if i <= 0 {
        0
    } else {
        spec_total_weight(state, from, i - 1) + (if i - 1 != from {
            spec_weight(state, from, i - 1)
        } else {
            0
        })
    }
}

/// The phoneme a residual pick lands on, scanning weights from `j` up.
pub open spec fn spec_pick_scan(state: State, from: int, pick: int, j: int) -> int
    decreases PHONEME_COUNT - j,
{
    if j >= PHONEME_COUNT {
        if from == 0 {
            1
        } else {
            0
        }
    } else if j == from {
        spec_pick_scan(state, from, pick, j + 1)
    } else if pick < spec_weight(state, from, j) {
        j
    } else {
        spec_pick_scan(state, from, pick - spec_weight(state, from, j), j + 1)
    }
}

/// The next phoneme the chain picks for a random word: the word reduced
/// modulo the total weight selects a transition by cumulative weight.
pub open spec fn spec_pick_next(state: State, from: int, w: u64) -> int {
    let total = spec_total_weight(state, from, PHONEME_COUNT as int);
    if total == 0 {
        if from == 0 {
            1
        } else {
            0
        }
    } else {
        spec_pick_scan(state, from, (w as int) % total, 0)
    }
}

/// Picks the next phoneme by weighted choice, skipping the current one.
fn pick_next(state: State, from: usize, w: u64) -> (r: usize)
    requires
        from < PHONEME_COUNT,
    ensures
        r == spec_pick_next(state, from as int, w),
        r < PHONEME_COUNT,
        r != from,
{
    let mut total: u64 = 0;
    let mut i: usize = 0;
    while i < PHONEME_COUNT
        invariant
            i <= PHONEME_COUNT,
            total == spec_total_weight(state, from as int, i as int),
            total <= 5 * i,
        decreases PHONEME_COUNT - i,
    {
        if i != from {
            total = total + transition_weight(state, from, i);
        }
        i = i + 1;
    }
    if total == 0 {
        return if from == 0 {
            1
        } else {
            0
        };
    }
    let ghost pick0: int = (w as int) % (total as int);
    let mut pick: u64 = word_in(w, total);
    let mut j: usize = 0;
    while j < PHONEME_COUNT
        invariant
            j <= PHONEME_COUNT,
            from < PHONEME_COUNT,
            1 <= total,
            total == spec_total_weight(state, from as int, PHONEME_COUNT as int),
            pick0 == (w as int) % (total as int),
            spec_pick_scan(state, from as int, pick as int, j as int) == spec_pick_scan(
                state,
                from as int,
                pick0,
                0,
            ),
        decreases PHONEME_COUNT - j,
    {
        if j != from {
            let wj: u64 = transition_weight(state, from, j);
            if pick < wj {
                proof {
                    assert(spec_pick_scan(state, from as int, pick as int, j as int) == j);
                    assert(total == spec_total_weight(
                        state,
                        from as int,
                        PHONEME_COUNT as int,
                    ));
                    assert(spec_pick_next(state, from as int, w) == spec_pick_scan(
                        state,
                        from as int,
                        pick0,
                        0,
                    ));
                }
                return j;
            }
            pick = pick - wj;
        }
        j = j + 1;
    }
    proof {
        assert(spec_pick_scan(state, from as int, pick as int, PHONEME_COUNT as int) == (
        if from == 0 {
            1int
        } else {
            0int
        }));
        assert(total == spec_total_weight(state, from as int, PHONEME_COUNT as int));
        assert(spec_pick_next(state, from as int, w) == spec_pick_scan(
            state,
            from as int,
            pick0,
            0,
        ));
    }
    if from == 0 {
        1
    } else {
        0
    }
}

/// How many phonemes a name of this phase gets, driven by one stream word.
pub open spec fn spec_name_len(state: State, w0: u64) -> int {
    match state {
        State::Solid => 2 + (w0 as int) % 2,
        State::Liquid => 3,
        State::Gas => 1 + (w0 as int) % 2,
    }
}

/// The rest of the walk from phoneme `cur`, taking steps `k` up to `len`,
/// each fed by the stream word after the one that chose `cur`.
pub open spec fn spec_walk(state: State, cur: int, k: int, len: int, ws: Seq<u64>) -> Seq<char>
    decreases len - k,
{
    if k >= len {
        Seq::empty()
    } else {
        let nxt = spec_pick_next(state, cur, ws[1 + k]);
        spec_phoneme(nxt) + spec_walk(state, nxt, k + 1, len, ws)
    }
}

/// The display name a DNA maps to: its phase picks the chain's flavor and
/// length, its seed's word stream picks the start and every step.
pub open spec fn spec_generate_name(dna: &MaterialDNA) -> Seq<char> {
    let ws = word_stream(dna.seed);
    let state = spec_state_of_gene(dna.genes@[0] as int);
    let len = spec_name_len(state, ws[0]);
    let start = (ws[1] as int) % (PHONEME_COUNT as int);
    spec_phoneme_cap(start) + spec_walk(state, start, 1, len, ws)
}

/// Derives a display name from a DNA: one to three phonemes walked through
/// the phase-flavored chain, driven entirely by the DNA's seed, capitalized.
pub fn generate_name(dna: &MaterialDNA) -> (r: String)
    requires
        dna_wf(dna),
    ensures
        r@ == spec_generate_name(dna),
        r@.len() > 0,
{
    let ws: Vec<u64> = seed_words(dna.seed);
    let g0: i64 = dna.genes[0];
    let state: State = if g0 < 330_000 {
        State::Solid
    } else if g0 < 660_000 {
        State::Liquid
    } else {
        State::Gas
    };
    let len: usize = match state {
        State::Solid => 2 + (word_in(ws[0], 2) as usize),
        State::Liquid => 3,
        State::Gas => 1 + (word_in(ws[0], 2) as usize),
    };
    let start: usize = word_in(ws[1], PHONEME_COUNT as u64) as usize;
    let mut cur: usize = start;
    let mut name: String = String::new();
    name.append(phoneme_cap(start));
    let mut k: usize = 1;
    while k < len
        invariant
            dna_wf(dna),
            start < PHONEME_COUNT,
            cur < PHONEME_COUNT,
            name@.len() > 0,
            ws@ == word_stream(dna.seed),
            ws@.len() == STREAM_LEN,
            1 <= k <= len <= 3,
            len == spec_name_len(state, ws@[0]),
            state == spec_state_of_gene(dna.genes@[0] as int),
            start == (ws@[1] as int) % (PHONEME_COUNT as int),
            spec_generate_name(dna) == name@ + spec_walk(
                state,
                cur as int,
                k as int,
                len as int,
                ws@,
            ),
        decreases len - k,
    {
        cur = pick_next(state, cur, ws[1 + k]);
        name.append(phoneme(cur));
        k = k + 1;
    }
    proof {
        assert(spec_walk(state, cur as int, len as int, len as int, ws@) =~= Seq::<char>::empty());
        assert(name@ =~= name@ + Seq::<char>::empty());
    }
    name
}

} // verus!
