use vstd::prelude::*;

use crate::text::{spec_contains, str_contains, str_eq};
use crate::types::{EngineType, ModelInfo, TranscribeError};

verus! {

/// No catalog entry before index `i` carries this id.
pub open spec fn no_model_before(catalog: Seq<ModelInfo>, id: Seq<char>, i: int) -> bool {
    forall|j: int| 0 <= j < i ==> (#[trigger] catalog[j]).id@ != id
}

/// Index `i` is the first catalog entry with this id.
pub open spec fn is_first_match(catalog: Seq<ModelInfo>, id: Seq<char>, i: int) -> bool {
    &&& 0 <= i < catalog.len()
    &&& catalog[i].id@ == id
    &&& no_model_before(catalog, id, i)
}

/// The index of the first catalog entry with this id, if any.
pub open spec fn first_match(catalog: Seq<ModelInfo>, id: Seq<char>) -> Option<int> {
    if exists|i: int| is_first_match(catalog, id, i) {
        Option::Some(choose|i: int| is_first_match(catalog, id, i))
    } else {
        Option::None
    }
}

pub proof fn lemma_first_match_unique(catalog: Seq<ModelInfo>, id: Seq<char>, i: int, j: int)
    requires
        is_first_match(catalog, id, i),
        is_first_match(catalog, id, j),
    ensures
        i == j,
{
    if i < j {
        assert(catalog[i].id@ != id);
    }
    if j < i {
        assert(catalog[j].id@ != id);
    }
}

/// How the lifecycle controller resolves a model id: the first catalog
/// entry with that id, refused when absent or not downloaded.
pub open spec fn load_lookup(catalog: Seq<ModelInfo>, id: Seq<char>) -> Result<int, TranscribeError> {
    match first_match(catalog, id) {
        Option::Some(i) => if catalog[i].is_downloaded {
            Result::Ok(i)
        } else {
            Result::Err(TranscribeError::ModelNotDownloaded)
        },
        Option::None => Result::Err(TranscribeError::ModelNotFound),
    }
}

/// Find the first catalog entry with the given id.
pub fn find_model(catalog: &Vec<ModelInfo>, id: &str) -> (r: Option<usize>)
    ensures
        match r {
            Option::Some(i) => first_match(catalog@, id@) == Option::Some(i as int),
            Option::None => first_match(catalog@, id@) is None,
        },
{
    let mut k: usize = 0;
    while k < catalog.len()
        invariant
            0 <= k <= catalog@.len(),
            no_model_before(catalog@, id@, k as int),
        decreases catalog@.len() - k,
    {
        if str_eq(catalog[k].id.as_str(), id) {
            proof {
                assert(is_first_match(catalog@, id@, k as int));
                let w = choose|i: int| is_first_match(catalog@, id@, i);
                lemma_first_match_unique(catalog@, id@, w, k as int);
            }
            return Some(k);
        }
        k += 1;
    }
    proof {
        if exists|i: int| is_first_match(catalog@, id@, i) {
            let w = choose|i: int| is_first_match(catalog@, id@, i);
            assert(catalog@[w].id@ != id@);
        }
    }
    None
}

/// Whether a catalog entry can serve a translation request: a downloaded
/// Whisper-family model.
pub open spec fn translation_candidate(m: ModelInfo) -> bool {
    m.engine_type == EngineType::Whisper && m.is_downloaded
}

/// The effective score of a candidate: ids containing "turbo" count as
/// 100, anything else counts as its catalog accuracy score.
pub open spec fn effective_score(m: ModelInfo) -> int {
    if spec_contains(m.id@, "turbo"@) {
        100
    } else {
        m.accuracy_score as int
    }
}

pub fn effective_score_exec(m: &ModelInfo) -> (r: u32)
    ensures
        r == effective_score(*m),
{
    if str_contains(m.id.as_str(), "turbo") {
        100
    } else {
        m.accuracy_score
    }
}

/// The candidate the capability switcher picks: among downloaded
/// Whisper-family models, the one with the highest effective score, the
/// last such entry when several tie.
pub open spec fn is_best_candidate(catalog: Seq<ModelInfo>, i: int) -> bool {
    &&& 0 <= i < catalog.len()
    &&& translation_candidate(catalog[i])
    &&& forall|j: int|
        0 <= j < catalog.len() && translation_candidate(#[trigger] catalog[j]) ==> effective_score(
            catalog[j],
        ) <= effective_score(catalog[i])
    &&& forall|j: int|
        i < j < catalog.len() && translation_candidate(#[trigger] catalog[j]) ==> effective_score(
            catalog[j],
        ) < effective_score(catalog[i])
}

/// The candidate the switcher picks, as a function of the catalog.
pub open spec fn spec_best_candidate(catalog: Seq<ModelInfo>) -> Option<int> {
    if exists|i: int| is_best_candidate(catalog, i) {
        Option::Some(choose|i: int| is_best_candidate(catalog, i))
    } else {
        Option::None
    }
}

pub proof fn lemma_best_candidate_unique(catalog: Seq<ModelInfo>, i: int, j: int)
    requires
        is_best_candidate(catalog, i),
        is_best_candidate(catalog, j),
    ensures
        i == j,
{
    if i < j {
        assert(effective_score(catalog[j]) < effective_score(catalog[i]));
        assert(effective_score(catalog[i]) <= effective_score(catalog[j]));
    }
    if j < i {
        assert(effective_score(catalog[i]) < effective_score(catalog[j]));
        assert(effective_score(catalog[j]) <= effective_score(catalog[i]));
    }
}

/// Select the model the switcher would load for translation.
pub fn best_translation_model(catalog: &Vec<ModelInfo>) -> (r: Option<usize>)
    ensures
        match r {
            Option::Some(i) => is_best_candidate(catalog@, i as int) && spec_best_candidate(
                catalog@,
            ) == Option::Some(i as int),
            Option::None => spec_best_candidate(catalog@) is None && forall|j: int|
                0 <= j < catalog@.len() ==> !translation_candidate(#[trigger] catalog@[j]),
        },
{
    let mut best: Option<usize> = None;
    let mut best_score: u32 = 0;
    let mut k: usize = 0;
    while k < catalog.len()
        invariant
            0 <= k <= catalog@.len(),
            match best {
                Option::Some(b) => {
                    &&& 0 <= b < k
                    &&& translation_candidate(catalog@[b as int])
                    &&& best_score == effective_score(catalog@[b as int])
                    &&& forall|j: int|
                        0 <= j < k && translation_candidate(#[trigger] catalog@[j])
                            ==> effective_score(catalog@[j]) <= best_score
                    &&& forall|j: int|
                        b < j < k && translation_candidate(#[trigger] catalog@[j])
                            ==> effective_score(catalog@[j]) < best_score
                },
                Option::None => forall|j: int|
                    0 <= j < k ==> !translation_candidate(#[trigger] catalog@[j]),
            },
        decreases catalog@.len() - k,
    {
        let m = &catalog[k];
        if matches!(m.engine_type, EngineType::Whisper) && m.is_downloaded {
            let score = effective_score_exec(m);
            match best {
                Option::Some(_) => {
                    if score >= best_score {
                        best = Some(k);
                        best_score = score;
                    }
                },
                Option::None => {
                    best = Some(k);
                    best_score = score;
                },
            }
        }
        k += 1;
    }
    proof {
        if let Option::Some(b) = best {
            assert(is_best_candidate(catalog@, b as int));
            let w = choose|i: int| is_best_candidate(catalog@, i);
            lemma_best_candidate_unique(catalog@, w, b as int);
        } else {
            if exists|i: int| is_best_candidate(catalog@, i) {
                let w = choose|i: int| is_best_candidate(catalog@, i);
                assert(translation_candidate(catalog@[w]));
            }
        }
    }
    best
}

} // verus!
