//! The order of merit: members by local score, the highest first, and among
//! equal scores in the order in which the leaderboard lists them.

use vstd::prelude::*;
use crate::leaderboard::{Leaderboard, LeaderboardView, Member, MemberView};
use crate::sorting::{
    comes_before,
    is_stable_order,
    lemma_stable_order_unique,
    sort_places,
    stable_order_of,
};

verus! {

/// The key by which a member is ranked: the higher the local score, the
/// smaller the key.
pub open spec fn rank_key(member: MemberView) -> i128 {
    (-(member.local_score as int)) as i128
}

/// The keys by which the members are ranked, in the order of the list.
pub open spec fn rank_keys(board: LeaderboardView) -> Seq<i128> {
    Seq::new(board.members.len(), |i: int| rank_key(board.members[i].1))
}

/// The places of the members in the order of merit: the place in the list of
/// the member ranked first, then of the one ranked second, and so on.
pub open spec fn ranking_of(board: LeaderboardView) -> Seq<usize> {
    stable_order_of(rank_keys(board))
}

/// In the order of merit a member with a higher score stands before one with
/// a lower score, of two with the same score the one that the leaderboard
/// lists first, and each member stands in it.
pub proof fn lemma_ranking(board: LeaderboardView, order: Seq<usize>)
    requires
        is_stable_order(rank_keys(board), order),
    ensures
        order == ranking_of(board),
        order.len() == board.members.len(),
        forall|i: int, j: int|
            0 <= i < j < order.len() ==> {
                let first = board.members[#[trigger] order[i] as int].1;
                let second = board.members[#[trigger] order[j] as int].1;
                first.local_score > second.local_score || (first.local_score
                    == second.local_score && order[i] < order[j])
            },
{
    lemma_stable_order_unique(rank_keys(board), order, ranking_of(board));
    assert forall|i: int, j: int| 0 <= i < j < order.len() implies {
        let first = board.members[#[trigger] order[i] as int].1;
        let second = board.members[#[trigger] order[j] as int].1;
        first.local_score > second.local_score || (first.local_score == second.local_score
            && order[i] < order[j])
    } by {
        assert(comes_before(rank_keys(board), order[i] as int, order[j] as int));
    }
}

impl Leaderboard {
    /// The places of the members in the order of merit.
    pub fn ranking(&self) -> (order: Vec<usize>)
        ensures
            order@ == ranking_of(self@),
            is_stable_order(rank_keys(self@), order@),
    {
        let mut keys: Vec<i128> = Vec::new();
        let mut at: usize = 0;
        while at < self.members.len()
            invariant
                at <= self.members.len(),
                keys@.len() == at,
                forall|i: int| 0 <= i < at ==> #[trigger] keys@[i] == rank_key(self@.members[i].1),
            decreases self.members.len() - at,
        {
            keys.push(-(self.members[at].1.local_score as i128));
            at = at + 1;
        }
        assert(keys@ =~= rank_keys(self@));
        let order = sort_places(&keys);
        proof {
            lemma_ranking(self@, order@);
        }
        order
    }

    /// The members in the order of merit.
    pub fn ranked_members(&self) -> (ranked: Vec<&Member>)
        ensures
            ranked@.len() == self@.members.len(),
            is_stable_order(rank_keys(self@), ranking_of(self@)),
            forall|i: int|
                0 <= i < ranked@.len() ==> (#[trigger] ranked@[i])@ == self@.members[ranking_of(
                    self@,
                )[i] as int].1,
    {
        let order = self.ranking();
        let mut ranked: Vec<&Member> = Vec::new();
        let mut at: usize = 0;
        while at < order.len()
            invariant
                at <= order.len(),
                order@.len() == self.members@.len(),
                order@ == ranking_of(self@),
                is_stable_order(rank_keys(self@), order@),
                ranked@.len() == at,
                forall|i: int|
                    0 <= i < at ==> *(#[trigger] ranked@[i]) == self.members@[order@[i] as int].1,
            decreases order.len() - at,
        {
            let place = order[at];
            assert(0 <= order@[at as int] < rank_keys(self@).len());
            ranked.push(&self.members[place].1);
            at = at + 1;
        }
        ranked
    }
}

} // verus!
