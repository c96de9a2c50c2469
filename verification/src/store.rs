use vstd::prelude::*;
use std::collections::HashMap;
use crate::opinion::{PersonalOpinion, fresh_opinion};
use crate::fixed::SEED_LIMIT;

verus! {

/// Seed of the self-opinion every store starts from: one hundred units on
/// both dimensions.
pub const SELF_OPINION_SEED: i64 = 100_000;

/// One agent's knowledge of the people around it: every held opinion keyed by
/// person id, the ids in the order they became known, and the cached favorite
/// person with the likeability snapshot taken when it was elected.
pub struct Opinions {
    people: HashMap<u64, PersonalOpinion>,
    known: Vec<u64>,
    favorite_person: (u64, i64),
}

impl Opinions {
    /// The held opinions as a map from person id to opinion.
    pub closed spec fn people_map(self) -> Map<u64, PersonalOpinion> {
        self.people@
    }

    /// The known person ids, oldest first.
    pub closed spec fn known_seq(self) -> Seq<u64> {
        self.known@
    }

    /// The cached favorite: its id and the likeability snapshot recorded at
    /// election time.
    pub closed spec fn favorite(self) -> (u64, i64) {
        self.favorite_person
    }

    /// A structurally sound store: the known-id list names exactly the keys of
    /// the opinion map, once each, and every held opinion is sound.
    pub open spec fn wf(self) -> bool {
        &&& self.known_seq().no_duplicates()
        &&& forall|k: u64| #[trigger] self.people_map().contains_key(k) <==> self.known_seq().contains(k)
        &&& forall|k: u64| self.people_map().contains_key(k) ==> (#[trigger] self.people_map()[k]).wf()
    }

    /// Creates a store holding only a maximal self-opinion, cached as the
    /// favorite with its likeability snapshot.
    pub fn new(owner_id: u64) -> (s: Opinions)
        ensures
            s.wf(),
            s.people_map() == Map::<u64, PersonalOpinion>::empty().insert(
                owner_id,
                fresh_opinion(SELF_OPINION_SEED as int, SELF_OPINION_SEED as int),
            ),
            s.known_seq() == seq![owner_id],
            s.favorite() == (owner_id, fresh_opinion(SELF_OPINION_SEED as int, SELF_OPINION_SEED as int).likeability),
    {
        let mut people: HashMap<u64, PersonalOpinion> = HashMap::new();
        let opinion_of_self = PersonalOpinion::new(SELF_OPINION_SEED, SELF_OPINION_SEED);
        let fav_person_tuple = (owner_id, opinion_of_self.likeability);
        people.insert(owner_id, opinion_of_self);
        let mut known: Vec<u64> = Vec::new();
        known.push(owner_id);
        proof {
            assert(known@ =~= seq![owner_id]);
            let m = people@;
            let sq = known@;
            assert forall|k: u64| #[trigger] m.contains_key(k) implies sq.contains(k) by {
                assert(k == owner_id);
                assert(sq[0] == owner_id);
            }
            assert forall|k: u64| sq.contains(k) implies #[trigger] m.contains_key(k) by {
                let i = choose|i: int| 0 <= i < sq.len() && sq[i] == k;
                assert(sq[0] == owner_id);
            }
        }
        Opinions { people, known, favorite_person: fav_person_tuple }
    }

    /// Replaces the cached favorite exactly when the candidate's likeability
    /// strictly exceeds the cached snapshot; the snapshot of the new favorite
    /// is taken now and not refreshed later.
    pub fn check_if_new_favorite(&mut self, candidate_opinion: &PersonalOpinion, candidate_id: u64)
        ensures
            candidate_opinion.likeability > old(self).favorite().1 ==> final(self).favorite()
                == (candidate_id, candidate_opinion.likeability),
            candidate_opinion.likeability <= old(self).favorite().1 ==> final(self).favorite()
                == old(self).favorite(),
            final(self).people_map() == old(self).people_map(),
            final(self).known_seq() == old(self).known_seq(),
    {
        let likeability_threshold = self.favorite_person.1;
        if candidate_opinion.likeability > likeability_threshold {
            self.favorite_person = (candidate_id, candidate_opinion.likeability);
        }
    }

    /// The id of the cached favorite person.
    pub fn get_fav_person_id(&self) -> (id: u64)
        ensures
            id == self.favorite().0,
    {
        self.favorite_person.0
    }

    /// The likeability snapshot the favorite was elected with.
    pub fn favorite_snapshot(&self) -> (l: i64)
        ensures
            l == self.favorite().1,
    {
        self.favorite_person.1
    }

    /// The held opinion of one person, if any.
    pub fn get_opinion(&self, id: u64) -> (r: Option<&PersonalOpinion>)
        ensures
            match r {
                Some(o) => self.people_map().contains_key(id) && *o == self.people_map()[id],
                None => !self.people_map().contains_key(id),
            },
    {
        self.people.get(&id)
    }

    /// Whether an opinion of this person is held.
    pub fn knows(&self, id: u64) -> (b: bool)
        ensures
            b == self.people_map().contains_key(id),
    {
        self.people.contains_key(&id)
    }

    /// Records an opinion of a person, overwriting any held one; a person not
    /// seen before joins the end of the known-id list.
    pub fn insert_opinion(&mut self, id: u64, opinion: PersonalOpinion)
        requires
            old(self).wf(),
            opinion.wf(),
        ensures
            final(self).wf(),
            final(self).people_map() == old(self).people_map().insert(id, opinion),
            final(self).known_seq() == if old(self).people_map().contains_key(id) {
                old(self).known_seq()
            } else {
                old(self).known_seq().push(id)
            },
            final(self).favorite() == old(self).favorite(),
    {
        if !self.people.contains_key(&id) {
            self.known.push(id);
            proof {
                let s0 = old(self).known_seq();
                let s1 = self.known@;
                broadcast use vstd::seq_lib::lemma_seq_contains_after_push;
                assert(!old(self).people_map().contains_key(id));
                assert(!s0.contains(id));
                assert forall|i: int, j: int|
                    0 <= i < s1.len() && 0 <= j < s1.len() && i != j implies s1[i] != s1[j] by {
                    if i < s0.len() && j < s0.len() {
                        assert(s0[i] == s1[i] && s0[j] == s1[j]);
                    } else if j == s0.len() {
                        if s1[i] == id {
                            assert(s0.contains(id));
                        }
                    } else {
                        if s1[j] == id {
                            assert(s0.contains(id));
                        }
                    }
                }
                assert(s1.no_duplicates());
            }
        }
        self.people.insert(id, opinion);
        proof {
            broadcast use vstd::seq_lib::lemma_seq_contains_after_push;
            assert forall|k: u64| #[trigger] self.people_map().contains_key(k) implies
                self.known_seq().contains(k) by {
                if k != id {
                    assert(old(self).people_map().contains_key(k));
                }
            }
            assert forall|k: u64| self.known_seq().contains(k) implies
                #[trigger] self.people_map().contains_key(k) by {
                if !old(self).people_map().contains_key(id) {
                    assert(self.known_seq() == old(self).known_seq().push(id));
                } else {
                    assert(self.known_seq() == old(self).known_seq());
                }
            }
        }
    }

    /// How many people this store holds an opinion of.
    pub fn known_count(&self) -> (n: usize)
        ensures
            n == self.known_seq().len(),
    {
        self.known.len()
    }

    /// The id at one position of the known-id list.
    pub fn known_id_at(&self, i: usize) -> (id: u64)
        requires
            i < self.known_seq().len(),
        ensures
            id == self.known_seq()[i as int],
    {
        self.known[i]
    }

    /// The statement content a speaker picks at one position of its known-id
    /// list: that person's id and the full held opinion of them.
    pub fn statement_at(&self, i: usize) -> (st: (u64, PersonalOpinion))
        requires
            self.wf(),
            i < self.known_seq().len(),
        ensures
            st.0 == self.known_seq()[i as int],
            self.people_map().contains_key(st.0),
            st.1 == self.people_map()[st.0],
    {
        let id = self.known[i];
        proof {
            assert(self.known_seq().contains(self.known_seq()[i as int]));
            assert(self.people_map().contains_key(id));
        }
        let opinion = *self.get_opinion(id).unwrap();
        (id, opinion)
    }
}

} // verus!
