use vstd::prelude::*;
use crate::opinion::{
    PersonalOpinion, fresh_opinion, adjusted_likeability_opinion, lemma_squash_in_range,
};
use crate::store::Opinions;
use crate::fixed::{scaled_product, mul_scaled, DISPLAY_LIMIT, SEED_LIMIT};
use crate::motion::{Pos, pos_in_arena};

verus! {

/// How far a spoken statement carries, in thousandths of a unit.
pub const GOSSIP_RADIUS: i64 = 150_000;

/// Largest magnitude of a first impression's seed: fifty units.
pub const FIRST_IMPRESSION_LIMIT: i64 = 50_000;

/// A statement one agent speaks and nearby agents overhear: who spoke, from
/// where, how far the statement carries, and at most one (subject, opinion)
/// pair as its content.
pub struct GossipEvent {
    pub author: u64,
    pub origin: Pos,
    pub distance: i64,
    pub opinion: Option<(u64, PersonalOpinion)>,
}

impl GossipEvent {
    /// A structurally sound event: spoken from inside the arena, carrying the
    /// fixed radius and a sound opinion snapshot if any.
    pub open spec fn wf(self) -> bool {
        &&& pos_in_arena(self.origin)
        &&& self.distance == GOSSIP_RADIUS
        &&& self.opinion matches Some(st) ==> st.1.wf()
    }
}

/// The credibility weight a listener gives a speaker it holds likeability `l`
/// of: a liked speaker's weight shrinks toward zero as the liking grows, and
/// a disliked or unknown speaker's weight is negative, inverting the
/// transmitted sentiment.
pub open spec fn gossip_weight(l: int) -> int {
    if l > 0 {
        DISPLAY_LIMIT - l
    } else {
        (-DISPLAY_LIMIT) - l
    }
}

/// The likeability a listener holds of the speaker, read against the store as
/// it was before any bootstrapping: a speaker heard of for the first time
/// counts as zero here, not as its freshly seeded value.
pub open spec fn heard_likeability(pre: Opinions, speaker_id: u64) -> int {
    if pre.people_map().contains_key(speaker_id) {
        pre.people_map()[speaker_id].likeability as int
    } else {
        0
    }
}

/// Whether a listener position is within a statement's reach: the Euclidean
/// distance from the origin is at most the radius, compared in squares.
pub open spec fn within_radius(origin: Pos, p: Pos, radius: int) -> bool {
    (p.x - origin.x) * (p.x - origin.x) + (p.y - origin.y) * (p.y - origin.y) <= radius * radius
}

/// Decides whether a position is within earshot of a statement's origin.
pub fn within_earshot(origin: Pos, p: Pos, radius: i64) -> (b: bool)
    requires
        pos_in_arena(origin),
        pos_in_arena(p),
        0 <= radius <= 1_000_000,
    ensures
        b == within_radius(origin, p, radius as int),
{
    let dx: i64 = p.x - origin.x;
    let dy: i64 = p.y - origin.y;
    proof {
        assert(dx * dx + dy * dy <= 8_000_000_000_000 && dx * dx >= 0 && dy * dy >= 0
            && radius * radius <= 1_000_000_000_000) by (nonlinear_arith)
            requires
                -2_000_000 <= dx <= 2_000_000,
                -2_000_000 <= dy <= 2_000_000,
                0 <= radius <= 1_000_000,
        ;
    }
    dx * dx + dy * dy <= radius * radius
}

/// Everything one heard statement does to a listener's store. Ids unknown
/// before the statement — the speaker, the subject, or both — are seeded with
/// their first-impression draw; the subject's opinion is then adjusted by the
/// transmitted likeability scaled by the speaker's credibility weight, and
/// the subject is finally held against the cached favorite. The weight is
/// read against the pre-bootstrap store, so a brand-new speaker weighs in at
/// likeability zero.
pub open spec fn gossip_applied(
    pre: Opinions,
    post: Opinions,
    speaker_id: u64,
    subject_id: u64,
    transmitted: PersonalOpinion,
    speaker_boot: int,
    subject_boot: int,
) -> bool {
    let l = heard_likeability(pre, speaker_id);
    let delta = scaled_product(gossip_weight(l), transmitted.likeability as int);
    let boot_speaker = !pre.people_map().contains_key(speaker_id) && speaker_id != subject_id;
    let boot_subject = !pre.people_map().contains_key(subject_id);
    let people1 = if boot_speaker {
        pre.people_map().insert(speaker_id, fresh_opinion(speaker_boot, speaker_boot))
    } else {
        pre.people_map()
    };
    let known1 = if boot_speaker {
        pre.known_seq().push(speaker_id)
    } else {
        pre.known_seq()
    };
    let people2 = if boot_subject {
        people1.insert(subject_id, fresh_opinion(subject_boot, subject_boot))
    } else {
        people1
    };
    let known2 = if boot_subject {
        known1.push(subject_id)
    } else {
        known1
    };
    let adjusted = adjusted_likeability_opinion(people2[subject_id], delta);
    &&& post.people_map() == people2.insert(subject_id, adjusted)
    &&& post.known_seq() == known2
    &&& post.favorite() == if adjusted.likeability > pre.favorite().1 {
        (subject_id, adjusted.likeability)
    } else {
        pre.favorite()
    }
}

/// A speaker the listener has never heard of weighs in at likeability zero,
/// so its statement arrives at the full negative weight of one hundred
/// units: first contact always inverts the transmitted sentiment.
pub proof fn lemma_first_contact_weight(pre: Opinions, speaker_id: u64)
    requires
        !pre.people_map().contains_key(speaker_id),
    ensures
        gossip_weight(heard_likeability(pre, speaker_id)) == -DISPLAY_LIMIT,
{
}

/// Folds one heard statement into the listener's store: bootstraps unknown
/// ids from the two first-impression draws, adjusts the held opinion of the
/// subject by the credibility-weighted transmitted likeability, and re-checks
/// the subject against the cached favorite.
pub fn process_heard_opinion(
    listener_opinions: &mut Opinions,
    speaker_id: u64,
    subject_id: u64,
    transmitted_opinion: &PersonalOpinion,
    speaker_first_impression: i64,
    subject_first_impression: i64,
)
    requires
        old(listener_opinions).wf(),
        transmitted_opinion.wf(),
        -SEED_LIMIT <= speaker_first_impression <= SEED_LIMIT,
        -SEED_LIMIT <= subject_first_impression <= SEED_LIMIT,
    ensures
        final(listener_opinions).wf(),
        gossip_applied(
            *old(listener_opinions),
            *final(listener_opinions),
            speaker_id,
            subject_id,
            *transmitted_opinion,
            speaker_first_impression as int,
            subject_first_impression as int,
        ),
        final(listener_opinions).known_seq().len() >= old(listener_opinions).known_seq().len(),
{
    let mut held_opinion_of_speaker: i64 = 0;
    let speaker_known = match listener_opinions.get_opinion(speaker_id) {
        Some(held) => {
            held_opinion_of_speaker = held.likeability;
            proof {
                lemma_squash_in_range(held.likeability_seed as int);
            }
            true
        },
        None => false,
    };
    let subject_known = listener_opinions.knows(subject_id);
    if !speaker_known && speaker_id != subject_id {
        let first_impression = PersonalOpinion::new(
            speaker_first_impression,
            speaker_first_impression,
        );
        listener_opinions.insert_opinion(speaker_id, first_impression);
    }
    if !subject_known {
        let first_impression = PersonalOpinion::new(
            subject_first_impression,
            subject_first_impression,
        );
        listener_opinions.insert_opinion(subject_id, first_impression);
    }
    let weight: i64 = if held_opinion_of_speaker > 0 {
        DISPLAY_LIMIT - held_opinion_of_speaker
    } else {
        -DISPLAY_LIMIT - held_opinion_of_speaker
    };
    proof {
        lemma_squash_in_range(transmitted_opinion.likeability_seed as int);
    }
    let modifier = mul_scaled(weight, transmitted_opinion.likeability);
    let mut subject_opinion: PersonalOpinion = *listener_opinions.get_opinion(subject_id).unwrap();
    subject_opinion.adjust_likeability(modifier);
    listener_opinions.insert_opinion(subject_id, subject_opinion);
    listener_opinions.check_if_new_favorite(&subject_opinion, subject_id);
}

} // verus!
