//! Which of several versions is the highest.
use semver::Version as Semver;
use vstd::prelude::*;

use crate::semantic::{
    before, has_no_prerelease, law_before_is_total, law_before_is_transitive, outranks, place_of,
    released,
};

verus! {

// ── The highest of several versions ─────────────────────────────────────────

/// An entry of a list of versions: the semantic version that its text is, if
/// it is one, and whether it was yanked.
pub struct Candidate {
    pub version: Option<Semver>,
    pub yanked: bool,
}

/// Which candidates take part in a choice.
#[derive(Clone, Copy)]
pub struct Admission {
    /// Yanked versions take part.
    pub yanked: bool,
    /// Pre-releases take part.
    pub prereleases: bool,
}

/// Whether a candidate takes part: its text is a semantic version, and it is
/// neither yanked nor a pre-release where those are left out.
pub open spec fn takes_part(candidate: Candidate, admission: Admission) -> bool {
    match candidate.version {
        Some(version) => (admission.yanked || !candidate.yanked) && (admission.prereleases
            || released(version)),
        None => false,
    }
}

/// The place of a candidate in the order of versions.
pub open spec fn rank(candidate: Candidate) -> Seq<int> {
    place_of(candidate.version->0)
}

/// The candidate at `i` takes part, none that takes part is higher, and none
/// that takes part behind it is as high.
pub open spec fn wins(candidates: Seq<Candidate>, admission: Admission, i: int) -> bool {
    &&& 0 <= i < candidates.len()
    &&& takes_part(candidates[i], admission)
    &&& forall|j: int|
        0 <= j < candidates.len() && takes_part(#[trigger] candidates[j], admission) ==> {
            &&& !before(rank(candidates[i]), rank(candidates[j]))
            &&& i < j ==> before(rank(candidates[j]), rank(candidates[i]))
        }
}

/// The highest candidate that takes part, if any takes part.
pub open spec fn winner(candidates: Seq<Candidate>, admission: Admission) -> Option<int> {
    if exists|i: int| wins(candidates, admission, i) {
        Some(choose|i: int| wins(candidates, admission, i))
    } else {
        None
    }
}

/// At most one candidate wins.
pub proof fn law_winner_is_unique(
    candidates: Seq<Candidate>,
    admission: Admission,
    i: int,
    j: int,
)
    requires
        wins(candidates, admission, i),
        wins(candidates, admission, j),
    ensures
        i == j,
{
    law_before_is_total(rank(candidates[i]), rank(candidates[j]));
}

/// Where a candidate takes part, one wins: it takes part, and none that takes
/// part is higher. Where none takes part there is no winner.
pub proof fn law_winner(candidates: Seq<Candidate>, admission: Admission)
    ensures
        match winner(candidates, admission) {
            Some(i) => {
                &&& 0 <= i < candidates.len()
                &&& takes_part(candidates[i], admission)
                &&& forall|j: int|
                    0 <= j < candidates.len() && takes_part(#[trigger] candidates[j], admission)
                        ==> !before(rank(candidates[i]), rank(candidates[j]))
            },
            None => forall|j: int|
                0 <= j < candidates.len() ==> !takes_part(#[trigger] candidates[j], admission),
        },
{
    lemma_someone_wins(candidates, admission);
}

/// Of the candidates that are versions, not yanked unless those take part and no
/// pre-releases unless those take part, the winner is one that no other stands
/// behind in the order of versions, and the last of those in its place. There is
/// no winner only where there is no such candidate.
pub proof fn law_picked(candidates: Seq<Candidate>, admission: Admission)
    ensures
        match winner(candidates, admission) {
            Some(i) => {
                &&& 0 <= i < candidates.len()
                &&& candidates[i].version matches Some(best) && (admission.yanked
                    || !candidates[i].yanked) && (admission.prereleases || released(best))
                &&& forall|j: int|
                    0 <= j < candidates.len() && (admission.yanked || !(
                    #[trigger] candidates[j]).yanked) ==> (candidates[j].version matches Some(
                        version,
                    ) ==> (admission.prereleases || released(version) ==> {
                        &&& !before(place_of(candidates[i].version->0), place_of(version))
                        &&& i < j ==> place_of(candidates[i].version->0) != place_of(version)
                    }))
            },
            None => forall|j: int|
                0 <= j < candidates.len() && (admission.yanked || !(
                #[trigger] candidates[j]).yanked) ==> (candidates[j].version matches Some(version)
                    ==> !admission.prereleases && !released(version)),
        },
{
    law_winner(candidates, admission);
    match winner(candidates, admission) {
        Some(i) => {
            assert(wins(candidates, admission, i));
            assert forall|j: int|
                0 <= j < candidates.len() && (admission.yanked || !(
                #[trigger] candidates[j]).yanked) implies (candidates[j].version matches Some(
                version,
            ) ==> (admission.prereleases || released(version) ==> {
                &&& !before(place_of(candidates[i].version->0), place_of(version))
                &&& i < j ==> place_of(candidates[i].version->0) != place_of(version)
            })) by {
                if let Some(version) = candidates[j].version {
                    if admission.prereleases || released(version) {
                        assert(takes_part(candidates[j], admission));
                        law_before_is_total(rank(candidates[j]), rank(candidates[i]));
                    }
                }
            }
        },
        None => {
            assert forall|j: int|
                0 <= j < candidates.len() && (admission.yanked || !(
                #[trigger] candidates[j]).yanked) implies (candidates[j].version matches Some(
                version,
            ) ==> !admission.prereleases && !released(version)) by {
                assert(!takes_part(candidates[j], admission));
            }
        },
    }
}

/// The winner among all candidates, from the winner among all but the last.
spec fn later_winner(
    candidates: Seq<Candidate>,
    admission: Admission,
    earlier: Option<int>,
) -> Option<int> {
    let last = candidates.len() - 1;
    if !takes_part(candidates[last], admission) {
        earlier
    } else {
        match earlier {
            Some(i) => if before(rank(candidates[last]), rank(candidates[i])) {
                Some(i)
            } else {
                Some(last)
            },
            None => Some(last),
        }
    }
}

/// What it is to have won, or for nobody to have taken part.
spec fn outcome(
    candidates: Seq<Candidate>,
    admission: Admission,
    winner: Option<int>,
) -> bool {
    match winner {
        Some(i) => wins(candidates, admission, i),
        None => forall|j: int|
            0 <= j < candidates.len() ==> !takes_part(#[trigger] candidates[j], admission),
    }
}

proof fn lemma_later_winner(
    candidates: Seq<Candidate>,
    admission: Admission,
    earlier: Option<int>,
)
    requires
        candidates.len() > 0,
        outcome(candidates.drop_last(), admission, earlier),
    ensures
        outcome(candidates, admission, later_winner(candidates, admission, earlier)),
{
    let fewer = candidates.drop_last();
    let last = candidates.len() - 1;
    assert forall|j: int| 0 <= j < last implies #[trigger] candidates[j] == fewer[j] by {}
    law_before_is_total(rank(candidates[last]), rank(candidates[last]));
    match earlier {
        Some(i) => {
            if takes_part(candidates[last], admission) {
                law_before_is_total(rank(candidates[last]), rank(candidates[i]));
                if !before(rank(candidates[last]), rank(candidates[i])) {
                    assert forall|j: int|
                        0 <= j < candidates.len() && takes_part(
                            #[trigger] candidates[j],
                            admission,
                        ) implies !before(
                        rank(candidates[last]),
                        rank(candidates[j]),
                    ) by {
                        if j < last {
                            assert(takes_part(fewer[j], admission));
                            if before(rank(candidates[last]), rank(candidates[j])) {
                                if before(rank(candidates[i]), rank(candidates[last])) {
                                    law_before_is_transitive(
                                        rank(candidates[i]),
                                        rank(candidates[last]),
                                        rank(candidates[j]),
                                    );
                                }
                            }
                        }
                    }
                    assert(wins(candidates, admission, last));
                } else {
                    assert(wins(candidates, admission, i));
                }
            } else {
                assert(wins(candidates, admission, i));
            }
        },
        None => {
            if takes_part(candidates[last], admission) {
                assert forall|j: int|
                    0 <= j < candidates.len() && takes_part(
                        #[trigger] candidates[j],
                        admission,
                    ) implies j == last by {
                    if j < last {
                        assert(!takes_part(fewer[j], admission));
                    }
                }
                assert(wins(candidates, admission, last));
            } else {
                assert forall|j: int| 0 <= j < candidates.len() implies !takes_part(
                    #[trigger] candidates[j],
                    admission,
                ) by {
                    if j < last {
                        assert(!takes_part(fewer[j], admission));
                    }
                }
            }
        },
    }
}

proof fn lemma_someone_wins(candidates: Seq<Candidate>, admission: Admission) -> (winner: Option<
    int,
>)
    ensures
        outcome(candidates, admission, winner),
    decreases candidates.len(),
{
    if candidates.len() == 0 {
        None
    } else {
        let earlier = lemma_someone_wins(candidates.drop_last(), admission);
        lemma_later_winner(candidates, admission, earlier);
        later_winner(candidates, admission, earlier)
    }
}

proof fn lemma_outcome_is_winner(
    candidates: Seq<Candidate>,
    admission: Admission,
    found: Option<int>,
)
    requires
        outcome(candidates, admission, found),
    ensures
        winner(candidates, admission) == found,
{
    match found {
        Some(i) => {
            law_winner_is_unique(
                candidates,
                admission,
                i,
                choose|j: int| wins(candidates, admission, j),
            );
        },
        None => {
            if exists|j: int| wins(candidates, admission, j) {
                let j = choose|j: int| wins(candidates, admission, j);
                assert(takes_part(candidates[j], admission));
            }
        },
    }
}

/// A place in a list, as a number.
spec fn place(index: Option<usize>) -> Option<int> {
    match index {
        Some(i) => Some(i as int),
        None => None,
    }
}

/// The place of the highest candidate that takes part; of several that are as
/// high, the last.
pub fn pick_highest(candidates: &Vec<Candidate>, admission: Admission) -> (picked: Option<usize>)
    ensures
        match picked {
            Some(i) => winner(candidates@, admission) == Some(i as int),
            None => winner(candidates@, admission) is None,
        },
{
    let mut picked: Option<usize> = None;
    for k in 0..candidates.len()
        invariant
            outcome(candidates@.take(k as int), admission, place(picked)),
            picked matches Some(i) ==> i < k,
    {
        let ghost now = candidates@.take(k + 1);
        let ghost earlier = place(picked);
        assert(now.drop_last() =~= candidates@.take(k as int));
        proof {
            lemma_later_winner(now, admission, earlier);
        }
        let candidate = &candidates[k];
        if admission.yanked || !candidate.yanked {
            if let Some(version) = &candidate.version {
                if admission.prereleases || has_no_prerelease(version) {
                    let keep = match picked {
                        Some(i) => match &candidates[i].version {
                            Some(best) => outranks(best, version),
                            None => false,
                        },
                        None => false,
                    };
                    if !keep {
                        picked = Some(k);
                    }
                }
            }
        }
        assert(place(picked) == later_winner(now, admission, earlier));
    }
    assert(candidates@.take(candidates@.len() as int) =~= candidates@);
    proof {
        lemma_outcome_is_winner(candidates@, admission, place(picked));
    }
    picked
}

} // verus!
