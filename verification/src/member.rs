//! Server memberships.

use vstd::prelude::*;
use crate::ids::{find_id, Id};
use crate::record::{
    duplicate_all, duplicate_opt, duplicate_opt_all, settle, settled, view_opt, view_opt_all,
    views, Record,
};

verus! {

/// The key of a membership: the server and the user.
#[derive(Debug, PartialEq, Eq)]
pub struct MemberCompositeKey {
    pub server: String,
    pub user: String,
}

/// What the key of a membership stands for: the model that contracts speak of.
pub struct MemberKeyView {
    pub server: Id,
    pub user: Id,
}

impl View for MemberCompositeKey {
    type V = MemberKeyView;

    open spec fn view(&self) -> MemberKeyView {
        MemberKeyView { server: self.server@, user: self.user@ }
    }
}

impl Record for MemberCompositeKey {
    fn duplicate(&self) -> (r: Self) {
        MemberCompositeKey { server: self.server.clone(), user: self.user.clone() }
    }
}

/// A user's membership of a server.
#[derive(Debug, PartialEq, Eq)]
pub struct Member {
    pub id: MemberCompositeKey,
    pub nickname: Option<String>,
    pub avatar: Option<String>,
    /// The identifiers of the roles that the member holds.
    pub roles: Vec<String>,
    /// Until when the member is timed out, if they are.
    pub timeout: Option<String>,
}

/// What a membership stands for: the model that contracts speak of.
pub struct MemberView {
    pub id: MemberKeyView,
    pub nickname: Option<Seq<char>>,
    pub avatar: Option<Seq<char>>,
    pub roles: Seq<Id>,
    pub timeout: Option<Seq<char>>,
}

impl View for Member {
    type V = MemberView;

    open spec fn view(&self) -> MemberView {
        MemberView {
            id: self.id@,
            nickname: view_opt(self.nickname),
            avatar: view_opt(self.avatar),
            roles: views(self.roles@),
            timeout: view_opt(self.timeout),
        }
    }
}

impl Record for Member {
    fn duplicate(&self) -> (r: Self) {
        Member {
            id: self.id.duplicate(),
            nickname: duplicate_opt(&self.nickname),
            avatar: duplicate_opt(&self.avatar),
            roles: duplicate_all(&self.roles),
            timeout: duplicate_opt(&self.timeout),
        }
    }
}

/// Changes to a membership; a field that is `None` stays as it is.
#[derive(Debug, PartialEq, Eq)]
pub struct PartialMember {
    pub nickname: Option<String>,
    pub avatar: Option<String>,
    pub roles: Option<Vec<String>>,
    pub timeout: Option<String>,
}

/// What changes to a membership stands for: the model that contracts speak of.
pub struct PartialMemberView {
    pub nickname: Option<Seq<char>>,
    pub avatar: Option<Seq<char>>,
    pub roles: Option<Seq<Id>>,
    pub timeout: Option<Seq<char>>,
}

impl View for PartialMember {
    type V = PartialMemberView;

    open spec fn view(&self) -> PartialMemberView {
        PartialMemberView {
            nickname: view_opt(self.nickname),
            avatar: view_opt(self.avatar),
            roles: view_opt_all(self.roles),
            timeout: view_opt(self.timeout),
        }
    }
}

impl Record for PartialMember {
    fn duplicate(&self) -> (r: Self) {
        PartialMember {
            nickname: duplicate_opt(&self.nickname),
            avatar: duplicate_opt(&self.avatar),
            roles: duplicate_opt_all(&self.roles),
            timeout: duplicate_opt(&self.timeout),
        }
    }
}

/// The fields of a membership that an update can clear.
#[derive(Clone, Copy, PartialEq, Eq, Structural, Debug)]
pub enum FieldsMember {
    Nickname,
    Avatar,
    Roles,
    Timeout,
}

/// Whether `field` is among `clear`.
pub fn clears_member_field(clear: &Vec<FieldsMember>, field: FieldsMember) -> (r: bool)
    ensures
        r == clear@.contains(field),
{
    let mut i: usize = 0;
    while i < clear.len()
        invariant
            i <= clear.len(),
            !clear@.take(i as int).contains(field),
        decreases clear.len() - i,
    {
        if clear[i] == field {
            return true;
        }
        assert(clear@.take(i + 1) =~= clear@.take(i as int).push(clear@[i as int]));
        i += 1;
    }
    assert(clear@.take(clear.len() as int) =~= clear@);
    false
}

impl MemberView {
    /// The membership of `user` in `server` that holds nothing yet.
    pub open spec fn empty(server: Id, user: Id) -> MemberView {
        MemberView {
            id: MemberKeyView { server, user },
            nickname: None,
            avatar: None,
            roles: Seq::empty(),
            timeout: None,
        }
    }

    /// The membership after an update that clears the fields of `clear` and
    /// then sets those that `data` holds. Clearing the roles leaves none.
    pub open spec fn updated(self, data: PartialMemberView, clear: Seq<FieldsMember>) -> MemberView {
        MemberView {
            id: self.id,
            nickname: settled(self.nickname, clear.contains(FieldsMember::Nickname), data.nickname),
            avatar: settled(self.avatar, clear.contains(FieldsMember::Avatar), data.avatar),
            roles: match data.roles {
                Some(roles) => roles,
                None => if clear.contains(FieldsMember::Roles) {
                    Seq::empty()
                } else {
                    self.roles
                },
            },
            timeout: settled(self.timeout, clear.contains(FieldsMember::Timeout), data.timeout),
        }
    }
}

impl Member {
    /// The membership of `user` in `server` that holds nothing yet.
    pub fn new(server: String, user: String) -> (r: Member)
        ensures
            r@ == MemberView::empty(server@, user@),
    {
        let r = Member {
            id: MemberCompositeKey { server, user },
            nickname: None,
            avatar: None,
            roles: Vec::new(),
            timeout: None,
        };
        assert(r@.roles =~= Seq::empty());
        r
    }

    /// Whether the member holds the role `role`.
    pub fn has_role(&self, role: &str) -> (r: bool)
        ensures
            r == self@.roles.contains(role@),
    {
        find_id(&self.roles, role).is_some()
    }

    /// The membership after an update.
    pub fn updated(&self, data: &PartialMember, clear: &Vec<FieldsMember>) -> (r: Member)
        ensures
            r@ == self@.updated(data@, clear@),
    {
        let roles = match &data.roles {
            Some(roles) => duplicate_all(roles),
            None => if clears_member_field(clear, FieldsMember::Roles) {
                let none: Vec<String> = Vec::new();
                assert(views(none@) =~= Seq::empty());
                none
            } else {
                duplicate_all(&self.roles)
            },
        };
        Member {
            id: self.id.duplicate(),
            nickname: settle(
                &self.nickname,
                clears_member_field(clear, FieldsMember::Nickname),
                &data.nickname,
            ),
            avatar: settle(
                &self.avatar,
                clears_member_field(clear, FieldsMember::Avatar),
                &data.avatar,
            ),
            roles,
            timeout: settle(
                &self.timeout,
                clears_member_field(clear, FieldsMember::Timeout),
                &data.timeout,
            ),
        }
    }
}

} // verus!
