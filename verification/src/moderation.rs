//! Rules of moderation: who may remove whom from a server.

use vstd::prelude::*;
use crate::ids::{same_id, Id};
use crate::member::Member;
use crate::record::{views, Record};
use crate::server::{first_role, RoleEntry, RoleEntryView, Server};

verus! {

/// Why a user may not ban another.
#[derive(Clone, Copy, PartialEq, Eq, Structural, Debug)]
pub enum BanRefusal {
    /// Nobody bans themselves.
    CannotRemoveYourself,
    /// The owner of a server is not banned from it.
    InvalidOperation,
    /// The target ranks as high as the user, or higher.
    NotElevated,
}

/// The least rank among the roles `held` that `roles` has, the greatest
/// number there is where it has none of them. A lesser rank ranks higher.
pub open spec fn ranking(held: Seq<Id>, roles: Seq<RoleEntryView>) -> i64
    decreases held.len(),
{
    if held.len() == 0 {
        i64::MAX
    } else {
        let before = ranking(held.drop_last(), roles);
        match first_role(roles, held.last()) {
            Some(role) => if role.rank < before {
                role.rank
            } else {
                before
            },
            None => before,
        }
    }
}

/// Those of `roles` whose identifier is among `held`, in their order.
pub open spec fn roles_held(roles: Seq<RoleEntryView>, held: Seq<Id>) -> Seq<RoleEntryView>
    decreases roles.len(),
{
    if roles.len() == 0 {
        Seq::empty()
    } else {
        let before = roles_held(roles.drop_last(), held);
        if held.contains(roles.last().id) {
            before.push(roles.last())
        } else {
            before
        }
    }
}

/// Whether `user` may ban `target` from the server of `owner`, as far as
/// their identities go.
pub open spec fn ban_target_refusal(user: Id, target: Id, owner: Id) -> Option<BanRefusal> {
    if target == user {
        Some(BanRefusal::CannotRemoveYourself)
    } else if target == owner {
        Some(BanRefusal::InvalidOperation)
    } else {
        None
    }
}

impl Member {
    /// The member's ranking in `server`: the least rank among their roles.
    pub fn get_ranking(&self, server: &Server) -> (r: i64)
        ensures
            r == ranking(self@.roles, server@.roles),
    {
        let mut value = i64::MAX;
        let mut i: usize = 0;
        assert(self@.roles.take(0) =~= Seq::<Id>::empty());
        while i < self.roles.len()
            invariant
                i <= self.roles.len(),
                value == ranking(self@.roles.take(i as int), server@.roles),
            decreases self.roles.len() - i,
        {
            proof {
                let all = self@.roles;
                assert(all.take(i + 1).drop_last() =~= all.take(i as int));
                assert(all.take(i + 1).last() == self.roles[i as int]@);
            }
            if let Some(role) = server.role(self.roles[i].as_str()) {
                if role.rank < value {
                    value = role.rank;
                }
            }
            i += 1;
        }
        assert(self@.roles.take(self.roles.len() as int) =~= self@.roles);
        value
    }
}

impl Server {
    /// The roles of the server that `member` holds, in the server's order.
    pub fn roles_held_by(&self, member: &Member) -> (r: Vec<RoleEntry>)
        ensures
            views(r@) == roles_held(self@.roles, member@.roles),
    {
        let mut held: Vec<RoleEntry> = Vec::new();
        let mut i: usize = 0;
        assert(self@.roles.take(0) =~= Seq::<RoleEntryView>::empty());
        assert(views(held@) =~= Seq::<RoleEntryView>::empty());
        while i < self.roles.len()
            invariant
                i <= self.roles.len(),
                views(held@) == roles_held(self@.roles.take(i as int), member@.roles),
            decreases self.roles.len() - i,
        {
            let ghost before = held@;
            proof {
                let all = self@.roles;
                assert(all.take(i + 1).drop_last() =~= all.take(i as int));
                assert(all.take(i + 1).last() == self.roles[i as int]@);
            }
            if member.has_role(self.roles[i].id.as_str()) {
                held.push(self.roles[i].duplicate());
                assert(views(held@) =~= views(before).push(self.roles[i as int]@));
            }
            i += 1;
        }
        assert(self@.roles.take(self.roles.len() as int) =~= self@.roles);
        held
    }
}

/// Refuses a ban that `user` asks for against themselves or against the
/// owner of the server.
pub fn check_ban_target(user: &str, target: &str, owner: &str) -> (r: Result<(), BanRefusal>)
    ensures
        match r {
            Ok(_) => ban_target_refusal(user@, target@, owner@) is None,
            Err(refusal) => ban_target_refusal(user@, target@, owner@) == Some(refusal),
        },
{
    if same_id(target, user) {
        Err(BanRefusal::CannotRemoveYourself)
    } else if same_id(target, owner) {
        Err(BanRefusal::InvalidOperation)
    } else {
        Ok(())
    }
}

/// Refuses a ban against a member of the server who does not rank below the
/// user: whose ranking is at most the user's rank, where a user without rank
/// ranks above everybody.
pub fn check_ban_rank(target: &Member, server: &Server, own_rank: Option<i64>) -> (r: Result<
    (),
    BanRefusal,
>)
    ensures
        r is Ok == (ranking(target@.roles, server@.roles) > match own_rank {
            Some(rank) => rank,
            None => i64::MIN,
        }),
        r is Err ==> r == Err::<(), BanRefusal>(BanRefusal::NotElevated),
{
    let own = match own_rank {
        Some(rank) => rank,
        None => i64::MIN,
    };
    if target.get_ranking(server) <= own {
        Err(BanRefusal::NotElevated)
    } else {
        Ok(())
    }
}

} // verus!
