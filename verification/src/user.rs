//! Users, as the gateway knows them.

use vstd::prelude::*;
use crate::ids::{same_id, Id};
use crate::record::{duplicate_all, duplicate_opt, view_opt, views, Record};

verus! {

/// How one user stands to another.
#[derive(Clone, Copy, PartialEq, Eq, Structural, Debug)]
pub enum RelationshipStatus {
    /// No relationship.
    Unrelated,
    /// The other user is this user.
    User,
    Friend,
    /// A friend request was sent to the other user.
    Outgoing,
    /// A friend request came from the other user.
    Incoming,
    Blocked,
    BlockedOther,
}

/// A user's presence, as they chose it.
#[derive(Clone, Copy, PartialEq, Eq, Structural, Debug)]
pub enum Presence {
    Online,
    Idle,
    Focus,
    Busy,
    Invisible,
}

/// One entry of a user's list of relations.
#[derive(Debug, PartialEq, Eq)]
pub struct Relationship {
    pub id: String,
    pub status: RelationshipStatus,
}

/// What a relation stands for: the model that contracts speak of.
pub struct RelationshipView {
    pub id: Id,
    pub status: RelationshipStatus,
}

impl View for Relationship {
    type V = RelationshipView;

    open spec fn view(&self) -> RelationshipView {
        RelationshipView { id: self.id@, status: self.status }
    }
}

impl Record for Relationship {
    fn duplicate(&self) -> (r: Self) {
        Relationship { id: self.id.clone(), status: self.status }
    }
}

/// A user's status line and chosen presence.
#[derive(Debug, PartialEq, Eq)]
pub struct UserStatus {
    pub text: Option<String>,
    pub presence: Option<Presence>,
}

/// What a status stands for: the model that contracts speak of.
pub struct UserStatusView {
    pub text: Option<Id>,
    pub presence: Option<Presence>,
}

impl View for UserStatus {
    type V = UserStatusView;

    open spec fn view(&self) -> UserStatusView {
        UserStatusView { text: view_opt(self.text), presence: self.presence }
    }
}

impl Record for UserStatus {
    fn duplicate(&self) -> (r: Self) {
        UserStatus { text: duplicate_opt(&self.text), presence: self.presence }
    }
}

/// A user record.
///
/// `relations` is the user's own list of relations; it is empty on a record
/// rendered for somebody else. `relationship` and `online` are what the viewer
/// of a rendered record sees.
#[derive(Debug, PartialEq, Eq)]
pub struct User {
    pub id: String,
    pub username: String,
    pub relations: Vec<Relationship>,
    pub relationship: RelationshipStatus,
    pub online: bool,
    pub status: Option<UserStatus>,
}

/// What a user stands for: the model that contracts speak of.
pub struct UserView {
    pub id: Id,
    pub username: Seq<char>,
    pub relations: Seq<RelationshipView>,
    pub relationship: RelationshipStatus,
    pub online: bool,
    pub status: Option<UserStatusView>,
}

impl View for User {
    type V = UserView;

    open spec fn view(&self) -> UserView {
        UserView {
            id: self.id@,
            username: self.username@,
            relations: views(self.relations@),
            relationship: self.relationship,
            online: self.online,
            status: view_opt(self.status),
        }
    }
}

impl Record for User {
    fn duplicate(&self) -> (r: Self) {
        User {
            id: self.id.clone(),
            username: self.username.clone(),
            relations: duplicate_all(&self.relations),
            relationship: self.relationship,
            online: self.online,
            status: duplicate_opt(&self.status),
        }
    }
}

/// The status of the first relation with `other` in `relations`, `Unrelated` where
/// there is no such relation.
pub open spec fn listed_status(relations: Seq<RelationshipView>, other: Id) -> RelationshipStatus
    decreases relations.len(),
{
    if relations.len() == 0 {
        RelationshipStatus::Unrelated
    } else if relations[0].id == other {
        relations[0].status
    } else {
        listed_status(relations.drop_first(), other)
    }
}

impl UserView {
    /// How this user stands to `other`: `User` for the user themselves, else
    /// what their list of relations says.
    pub open spec fn relationship_with(self, other: Id) -> RelationshipStatus {
        if self.id == other {
            RelationshipStatus::User
        } else {
            listed_status(self.relations, other)
        }
    }

    /// Whether the user chose to appear offline.
    pub open spec fn is_invisible(self) -> bool {
        self.status matches Some(s) && s.presence == Some(Presence::Invisible)
    }

    /// This user as `viewer` knows them while they are online or not.
    pub open spec fn known_to(self, viewer: UserView, is_online: bool) -> UserView {
        let relationship = viewer.relationship_with(self.id);
        let hidden = relationship == RelationshipStatus::Blocked
            || relationship == RelationshipStatus::BlockedOther;
        UserView {
            id: self.id,
            username: self.username,
            relations: Seq::empty(),
            relationship,
            online: is_online && !hidden,
            status: if hidden { None } else { self.status },
        }
    }

    /// This user as they know themselves.
    pub open spec fn known_to_self(self) -> UserView {
        UserView { relationship: RelationshipStatus::User, online: true, ..self }
    }
}

impl RelationshipStatus {
    /// Whether a user in this relationship is one whose updates the viewer
    /// follows: a friend, either side of a pending request, or the viewer.
    pub open spec fn spec_follows(self) -> bool {
        self == RelationshipStatus::Friend || self == RelationshipStatus::Incoming
            || self == RelationshipStatus::Outgoing || self == RelationshipStatus::User
    }

    #[verifier::when_used_as_spec(spec_follows)]
    pub fn follows(self) -> (r: bool)
        ensures
            r == self.spec_follows(),
    {
        match self {
            RelationshipStatus::Friend
            | RelationshipStatus::Incoming
            | RelationshipStatus::Outgoing
            | RelationshipStatus::User => true,
            _ => false,
        }
    }
}

impl User {
    /// How this user stands to `other`.
    pub fn relationship_with(&self, other: &str) -> (r: RelationshipStatus)
        ensures
            r == self@.relationship_with(other@),
    {
        if same_id(self.id.as_str(), other) {
            return RelationshipStatus::User;
        }
        let mut i: usize = 0;
        assert(self@.relations.skip(0) =~= self@.relations);
        while i < self.relations.len()
            invariant
                i <= self.relations.len(),
                self.id@ != other@,
                listed_status(self@.relations, other@) == listed_status(
                    self@.relations.skip(i as int),
                    other@,
                ),
            decreases self.relations.len() - i,
        {
            let ghost rest = self@.relations.skip(i as int);
            assert(rest[0] == self.relations[i as int]@);
            assert(rest.drop_first() =~= self@.relations.skip(i + 1));
            if same_id(self.relations[i].id.as_str(), other) {
                return self.relations[i].status;
            }
            i += 1;
        }
        RelationshipStatus::Unrelated
    }

    /// Whether the user chose to appear offline.
    pub fn is_invisible(&self) -> (r: bool)
        ensures
            r == self@.is_invisible(),
    {
        match &self.status {
            Some(status) => match status.presence {
                Some(Presence::Invisible) => true,
                _ => false,
            },
            None => false,
        }
    }

    /// This user's record as `viewer` is to see it: the relationship is the
    /// viewer's, the list of relations is withheld, and a user in a blocked
    /// relationship shows neither status nor presence.
    pub fn into_known(&self, viewer: &User, is_online: bool) -> (r: User)
        ensures
            r@ == self@.known_to(viewer@, is_online),
    {
        let relationship = viewer.relationship_with(self.id.as_str());
        let hidden = match relationship {
            RelationshipStatus::Blocked | RelationshipStatus::BlockedOther => true,
            _ => false,
        };
        let r = User {
            id: self.id.clone(),
            username: self.username.clone(),
            relations: Vec::new(),
            relationship,
            online: is_online && !hidden,
            status: if hidden { None } else { duplicate_opt(&self.status) },
        };
        assert(r@.relations =~= Seq::empty());
        r
    }

    /// This user's record as the user is to see it themselves.
    pub fn into_self(&self) -> (r: User)
        ensures
            r@ == self@.known_to_self(),
    {
        let mut r = self.duplicate();
        r.relationship = RelationshipStatus::User;
        r.online = true;
        r
    }
}

/// Changes to a user record; a field that is `None` stays as it is.
#[derive(Debug, PartialEq, Eq)]
pub struct PartialUser {
    pub username: Option<String>,
    pub status: Option<UserStatus>,
    pub online: Option<bool>,
}

/// What changes to a user stands for: the model that contracts speak of.
pub struct PartialUserView {
    pub username: Option<Seq<char>>,
    pub status: Option<UserStatusView>,
    pub online: Option<bool>,
}

impl View for PartialUser {
    type V = PartialUserView;

    open spec fn view(&self) -> PartialUserView {
        PartialUserView {
            username: view_opt(self.username),
            status: view_opt(self.status),
            online: self.online,
        }
    }
}

impl Record for PartialUser {
    fn duplicate(&self) -> (r: Self) {
        PartialUser {
            username: duplicate_opt(&self.username),
            status: duplicate_opt(&self.status),
            online: self.online,
        }
    }
}

/// The optional fields of a user record that an update can clear.
#[derive(Clone, Copy, PartialEq, Eq, Structural, Debug)]
pub enum FieldsUser {
    StatusText,
    StatusPresence,
}

} // verus!
