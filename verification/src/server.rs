//! Servers and their roles.

use vstd::prelude::*;
use crate::ids::{same_id, Id};
use crate::record::{
    duplicate_all, duplicate_opt, duplicate_opt_all, or_else, pick, pick_all, settle, settled,
    view_opt, view_opt_all, views, Record,
};

verus! {

/// A pair of permission masks: what is allowed and what is denied.
#[derive(Clone, Copy, PartialEq, Eq, Structural, Debug)]
pub struct OverrideField {
    pub a: i64,
    pub d: i64,
}

impl View for OverrideField {
    type V = OverrideField;

    open spec fn view(&self) -> OverrideField {
        *self
    }
}

impl Record for OverrideField {
    fn duplicate(&self) -> (r: Self) {
        *self
    }
}

/// A role of a server.
#[derive(Debug, PartialEq, Eq)]
pub struct Role {
    pub name: String,
    pub permissions: OverrideField,
    pub colour: Option<String>,
    pub hoist: bool,
    pub rank: i64,
}

/// What a role stands for: the model that contracts speak of.
pub struct RoleView {
    pub name: Seq<char>,
    pub permissions: OverrideField,
    pub colour: Option<Seq<char>>,
    pub hoist: bool,
    pub rank: i64,
}

impl View for Role {
    type V = RoleView;

    open spec fn view(&self) -> RoleView {
        RoleView {
            name: self.name@,
            permissions: self.permissions,
            colour: view_opt(self.colour),
            hoist: self.hoist,
            rank: self.rank,
        }
    }
}

impl Record for Role {
    fn duplicate(&self) -> (r: Self) {
        Role {
            name: self.name.clone(),
            permissions: self.permissions,
            colour: duplicate_opt(&self.colour),
            hoist: self.hoist,
            rank: self.rank,
        }
    }
}

/// Changes to a role; a field that is `None` stays as it is.
#[derive(Debug, PartialEq, Eq)]
pub struct PartialRole {
    pub name: Option<String>,
    pub permissions: Option<OverrideField>,
    pub colour: Option<String>,
    pub hoist: Option<bool>,
    pub rank: Option<i64>,
}

/// What changes to a role stands for: the model that contracts speak of.
pub struct PartialRoleView {
    pub name: Option<Seq<char>>,
    pub permissions: Option<OverrideField>,
    pub colour: Option<Seq<char>>,
    pub hoist: Option<bool>,
    pub rank: Option<i64>,
}

impl View for PartialRole {
    type V = PartialRoleView;

    open spec fn view(&self) -> PartialRoleView {
        PartialRoleView {
            name: view_opt(self.name),
            permissions: self.permissions,
            colour: view_opt(self.colour),
            hoist: self.hoist,
            rank: self.rank,
        }
    }
}

impl Record for PartialRole {
    fn duplicate(&self) -> (r: Self) {
        PartialRole {
            name: duplicate_opt(&self.name),
            permissions: self.permissions,
            colour: duplicate_opt(&self.colour),
            hoist: self.hoist,
            rank: self.rank,
        }
    }
}

/// The optional fields of a role that an update can clear.
#[derive(Clone, Copy, PartialEq, Eq, Structural, Debug)]
pub enum FieldsRole {
    Colour,
}

/// Whether `field` is among `clear`.
pub fn clears_role_field(clear: &Vec<FieldsRole>, field: FieldsRole) -> (r: bool)
    ensures
        r == clear@.contains(field),
{
    let mut i: usize = 0;
    while i < clear.len()
        invariant
            i <= clear.len(),
            !clear@.take(i as int).contains(field),
        decreases clear.len() - i,
    {
        if clear[i] == field {
            return true;
        }
        assert(clear@.take(i + 1) =~= clear@.take(i as int).push(clear@[i as int]));
        i += 1;
    }
    assert(clear@.take(clear.len() as int) =~= clear@);
    false
}

impl RoleView {
    /// The role after an update that clears the fields of `clear` and then
    /// sets those that `data` holds.
    pub open spec fn updated(self, data: PartialRoleView, clear: Seq<FieldsRole>) -> RoleView {
        RoleView {
            name: or_else(data.name, self.name),
            permissions: or_else(data.permissions, self.permissions),
            colour: settled(self.colour, clear.contains(FieldsRole::Colour), data.colour),
            hoist: or_else(data.hoist, self.hoist),
            rank: or_else(data.rank, self.rank),
        }
    }
}

impl Role {
    /// The role after an update.
    pub fn updated(&self, data: &PartialRole, clear: &Vec<FieldsRole>) -> (r: Role)
        ensures
            r@ == self@.updated(data@, clear@),
    {
        Role {
            name: pick(&data.name, &self.name),
            permissions: pick(&data.permissions, &self.permissions),
            colour: settle(
                &self.colour,
                clears_role_field(clear, FieldsRole::Colour),
                &data.colour,
            ),
            hoist: pick(&data.hoist, &self.hoist),
            rank: pick(&data.rank, &self.rank),
        }
    }
}

/// A role under its identifier, as a server lists it.
#[derive(Debug, PartialEq, Eq)]
pub struct RoleEntry {
    pub id: String,
    pub role: Role,
}

/// What a listed role stands for: the model that contracts speak of.
pub struct RoleEntryView {
    pub id: Id,
    pub role: RoleView,
}

impl View for RoleEntry {
    type V = RoleEntryView;

    open spec fn view(&self) -> RoleEntryView {
        RoleEntryView { id: self.id@, role: self.role@ }
    }
}

impl Record for RoleEntry {
    fn duplicate(&self) -> (r: Self) {
        RoleEntry { id: self.id.clone(), role: self.role.duplicate() }
    }
}

/// The roles of `roles` after the update of role `id`: every entry under that
/// identifier is updated, the others stay.
pub open spec fn roles_updated(
    roles: Seq<RoleEntryView>,
    id: Id,
    data: PartialRoleView,
    clear: Seq<FieldsRole>,
) -> Seq<RoleEntryView> {
    Seq::new(
        roles.len(),
        |i: int|
            if roles[i].id == id {
                RoleEntryView { id, role: roles[i].role.updated(data, clear) }
            } else {
                roles[i]
            },
    )
}

/// The roles of `roles` without those under `id`, in their order.
pub open spec fn roles_without(roles: Seq<RoleEntryView>, id: Id) -> Seq<RoleEntryView>
    decreases roles.len(),
{
    if roles.len() == 0 {
        roles
    } else if roles.last().id == id {
        roles_without(roles.drop_last(), id)
    } else {
        roles_without(roles.drop_last(), id).push(roles.last())
    }
}

/// A server.
#[derive(Debug, PartialEq, Eq)]
pub struct Server {
    pub id: String,
    pub owner: String,
    pub name: String,
    pub description: Option<String>,
    /// The identifiers of the server's channels, as the server declares them.
    pub channels: Vec<String>,
    pub roles: Vec<RoleEntry>,
    /// The permission mask that every member has.
    pub default_permissions: i64,
    pub icon: Option<String>,
    pub banner: Option<String>,
}

/// What a server stands for: the model that contracts speak of.
pub struct ServerView {
    pub id: Id,
    pub owner: Id,
    pub name: Seq<char>,
    pub description: Option<Seq<char>>,
    pub channels: Seq<Id>,
    pub roles: Seq<RoleEntryView>,
    pub default_permissions: i64,
    pub icon: Option<Seq<char>>,
    pub banner: Option<Seq<char>>,
}

impl View for Server {
    type V = ServerView;

    open spec fn view(&self) -> ServerView {
        ServerView {
            id: self.id@,
            owner: self.owner@,
            name: self.name@,
            description: view_opt(self.description),
            channels: views(self.channels@),
            roles: views(self.roles@),
            default_permissions: self.default_permissions,
            icon: view_opt(self.icon),
            banner: view_opt(self.banner),
        }
    }
}

impl Record for Server {
    fn duplicate(&self) -> (r: Self) {
        Server {
            id: self.id.clone(),
            owner: self.owner.clone(),
            name: self.name.clone(),
            description: duplicate_opt(&self.description),
            channels: duplicate_all(&self.channels),
            roles: duplicate_all(&self.roles),
            default_permissions: self.default_permissions,
            icon: duplicate_opt(&self.icon),
            banner: duplicate_opt(&self.banner),
        }
    }
}

/// Changes to a server; a field that is `None` stays as it is.
#[derive(Debug, PartialEq, Eq)]
pub struct PartialServer {
    pub owner: Option<String>,
    pub name: Option<String>,
    pub description: Option<String>,
    pub channels: Option<Vec<String>>,
    pub default_permissions: Option<i64>,
    pub icon: Option<String>,
    pub banner: Option<String>,
}

/// What changes to a server stands for: the model that contracts speak of.
pub struct PartialServerView {
    pub owner: Option<Id>,
    pub name: Option<Seq<char>>,
    pub description: Option<Seq<char>>,
    pub channels: Option<Seq<Id>>,
    pub default_permissions: Option<i64>,
    pub icon: Option<Seq<char>>,
    pub banner: Option<Seq<char>>,
}

impl View for PartialServer {
    type V = PartialServerView;

    open spec fn view(&self) -> PartialServerView {
        PartialServerView {
            owner: view_opt(self.owner),
            name: view_opt(self.name),
            description: view_opt(self.description),
            channels: view_opt_all(self.channels),
            default_permissions: self.default_permissions,
            icon: view_opt(self.icon),
            banner: view_opt(self.banner),
        }
    }
}

impl Record for PartialServer {
    fn duplicate(&self) -> (r: Self) {
        PartialServer {
            owner: duplicate_opt(&self.owner),
            name: duplicate_opt(&self.name),
            description: duplicate_opt(&self.description),
            channels: duplicate_opt_all(&self.channels),
            default_permissions: self.default_permissions,
            icon: duplicate_opt(&self.icon),
            banner: duplicate_opt(&self.banner),
        }
    }
}

/// The optional fields of a server that an update can clear.
#[derive(Clone, Copy, PartialEq, Eq, Structural, Debug)]
pub enum FieldsServer {
    Description,
    Icon,
    Banner,
}

/// Whether `field` is among `clear`.
pub fn clears_server_field(clear: &Vec<FieldsServer>, field: FieldsServer) -> (r: bool)
    ensures
        r == clear@.contains(field),
{
    let mut i: usize = 0;
    while i < clear.len()
        invariant
            i <= clear.len(),
            !clear@.take(i as int).contains(field),
        decreases clear.len() - i,
    {
        if clear[i] == field {
            return true;
        }
        assert(clear@.take(i + 1) =~= clear@.take(i as int).push(clear@[i as int]));
        i += 1;
    }
    assert(clear@.take(clear.len() as int) =~= clear@);
    false
}

impl ServerView {
    /// The server after an update that clears the fields of `clear` and then
    /// sets those that `data` holds.
    pub open spec fn updated(self, data: PartialServerView, clear: Seq<FieldsServer>) -> ServerView {
        ServerView {
            id: self.id,
            owner: or_else(data.owner, self.owner),
            name: or_else(data.name, self.name),
            description: settled(
                self.description,
                clear.contains(FieldsServer::Description),
                data.description,
            ),
            channels: or_else(data.channels, self.channels),
            roles: self.roles,
            default_permissions: or_else(data.default_permissions, self.default_permissions),
            icon: settled(self.icon, clear.contains(FieldsServer::Icon), data.icon),
            banner: settled(self.banner, clear.contains(FieldsServer::Banner), data.banner),
        }
    }

    /// The server after the update of one of its roles.
    pub open spec fn with_role_updated(
        self,
        role: Id,
        data: PartialRoleView,
        clear: Seq<FieldsRole>,
    ) -> ServerView {
        ServerView { roles: roles_updated(self.roles, role, data, clear), ..self }
    }

    /// The server without the role `role`.
    pub open spec fn without_role(self, role: Id) -> ServerView {
        ServerView { roles: roles_without(self.roles, role), ..self }
    }
}

impl Server {
    /// The server after an update.
    pub fn updated(&self, data: &PartialServer, clear: &Vec<FieldsServer>) -> (r: Server)
        ensures
            r@ == self@.updated(data@, clear@),
    {
        Server {
            id: self.id.clone(),
            owner: pick(&data.owner, &self.owner),
            name: pick(&data.name, &self.name),
            description: settle(
                &self.description,
                clears_server_field(clear, FieldsServer::Description),
                &data.description,
            ),
            channels: pick_all(&data.channels, &self.channels),
            roles: duplicate_all(&self.roles),
            default_permissions: pick(&data.default_permissions, &self.default_permissions),
            icon: settle(&self.icon, clears_server_field(clear, FieldsServer::Icon), &data.icon),
            banner: settle(
                &self.banner,
                clears_server_field(clear, FieldsServer::Banner),
                &data.banner,
            ),
        }
    }

    /// The server after the update of role `role`.
    pub fn with_role_updated(&self, role: &str, data: &PartialRole, clear: &Vec<FieldsRole>) -> (r: Server)
        ensures
            r@ == self@.with_role_updated(role@, data@, clear@),
    {
        let mut roles: Vec<RoleEntry> = Vec::new();
        let mut i: usize = 0;
        while i < self.roles.len()
            invariant
                i <= self.roles.len(),
                roles.len() == i,
                forall|j: int|
                    0 <= j < i ==> roles[j]@ == roles_updated(
                        views(self.roles@),
                        role@,
                        data@,
                        clear@,
                    )[j],
            decreases self.roles.len() - i,
        {
            let entry = &self.roles[i];
            assert(views(self.roles@)[i as int] == entry@);
            if same_id(entry.id.as_str(), role) {
                roles.push(RoleEntry { id: entry.id.clone(), role: entry.role.updated(data, clear) });
            } else {
                roles.push(entry.duplicate());
            }
            i += 1;
        }
        let mut r = self.duplicate();
        r.roles = roles;
        assert(views(r.roles@) =~= roles_updated(views(self.roles@), role@, data@, clear@));
        r
    }

    /// The server without the role `role`.
    pub fn without_role(&self, role: &str) -> (r: Server)
        ensures
            r@ == self@.without_role(role@),
    {
        let mut roles: Vec<RoleEntry> = Vec::new();
        let mut i: usize = 0;
        while i < self.roles.len()
            invariant
                i <= self.roles.len(),
                views(roles@) == roles_without(views(self.roles@).take(i as int), role@),
            decreases self.roles.len() - i,
        {
            let entry = &self.roles[i];
            let ghost before = roles@;
            proof {
                let all = views(self.roles@);
                assert(all.take(i + 1).drop_last() =~= all.take(i as int));
                assert(all.take(i + 1).last() == entry@);
            }
            if !same_id(entry.id.as_str(), role) {
                roles.push(entry.duplicate());
                assert(views(roles@) =~= views(before).push(entry@));
            }
            i += 1;
        }
        assert(views(self.roles@).take(self.roles.len() as int) =~= views(self.roles@));
        let mut r = self.duplicate();
        r.roles = roles;
        r
    }

    /// The role that the server has under `role`: that of the first such
    /// entry.
    pub fn role(&self, role: &str) -> (r: Option<&Role>)
        ensures
            view_opt_ref(r) == first_role(self@.roles, role@),
    {
        let mut i: usize = 0;
        assert(self@.roles.skip(0) =~= self@.roles);
        while i < self.roles.len()
            invariant
                i <= self.roles.len(),
                first_role(self@.roles, role@) == first_role(self@.roles.skip(i as int), role@),
            decreases self.roles.len() - i,
        {
            let ghost rest = self@.roles.skip(i as int);
            assert(rest[0] == self.roles[i as int]@);
            assert(rest.drop_first() =~= self@.roles.skip(i + 1));
            if same_id(self.roles[i].id.as_str(), role) {
                return Some(&self.roles[i].role);
            }
            i += 1;
        }
        None
    }
}

/// The role of the first entry of `roles` under `id`, if there is one.
pub open spec fn first_role(roles: Seq<RoleEntryView>, id: Id) -> Option<RoleView>
    decreases roles.len(),
{
    if roles.len() == 0 {
        None
    } else if roles[0].id == id {
        Some(roles[0].role)
    } else {
        first_role(roles.drop_first(), id)
    }
}

/// The view of an optional reference to a role.
pub open spec fn view_opt_ref(o: Option<&Role>) -> Option<RoleView> {
    match o {
        Some(role) => Some(role@),
        None => None,
    }
}

} // verus!
