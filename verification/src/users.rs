//! Members of the organization and the closed set of privilege roles.

use vstd::prelude::*;

verus! {

/// The closed set of privilege levels a member can hold.
#[derive(Clone, Copy, Debug, PartialEq, Eq, Structural)]
pub enum Role {
    Anggota,
    Ketua,
    Sekretaris,
}

impl Role {
    /// Whether this role may create, update or delete administrative data.
    pub fn has_permission(&self) -> (r: bool)
        ensures
            r == self.spec_has_permission(),
    {
        match self {
            Role::Ketua | Role::Sekretaris => true,
            _ => false,
        }
    }

    /// Whether this role belongs to the set of roles at all; every role of
    /// the closed set may read.
    pub fn valid_permission(&self) -> (r: bool)
        ensures
            r == self.spec_valid_permission(),
    {
        match self {
            Role::Ketua | Role::Sekretaris | Role::Anggota => true,
        }
    }

    /// The elevated-permission predicate: true of the roles that may mutate
    /// administrative data.
    pub open spec fn spec_has_permission(&self) -> bool {
        self is Ketua || self is Sekretaris
    }

    /// Membership in the closed role set; true of every role value.
    pub open spec fn spec_valid_permission(&self) -> bool {
        self is Ketua || self is Sekretaris || self is Anggota
    }

    /// The stored name of each role.
    pub open spec fn spec_text(&self) -> Seq<char> {
        match self {
            Role::Anggota => "Anggota"@,
            Role::Ketua => "Ketua"@,
            Role::Sekretaris => "Sekretaris"@,
        }
    }

    /// Renders the role as its stored name.
    pub fn text(&self) -> (r: String)
        ensures
            r@ == self.spec_text(),
    {
        match self {
            Role::Anggota => "Anggota".to_owned(),
            Role::Ketua => "Ketua".to_owned(),
            Role::Sekretaris => "Sekretaris".to_owned(),
        }
    }
}

/// The mathematical value of one member row.
pub struct UserModel {
    pub id: int,
    pub username: Seq<char>,
    pub name: Seq<char>,
    pub role: Seq<char>,
    pub profile_picture: Option<Seq<char>>,
}

/// A request to create a member. The password is consumed by the external
/// credential store, never by the verified model.
pub struct CreateUserRequest {
    pub username: String,
    pub name: String,
    pub role: Role,
    pub password: String,
}

/// One member row as responses carry it.
pub struct UserResponse {
    pub id: i32,
    pub username: String,
    pub name: String,
    pub role: String,
    pub profile_picture: Option<String>,
}

/// A request to update a member's mutable attributes.
pub struct UpdateUserRequest {
    pub user_id: i32,
    pub username: String,
    pub name: String,
    pub profile_picture: Option<String>,
}

/// The view of an optional text field.
pub open spec fn opt_text_view(o: Option<String>) -> Option<Seq<char>> {
    match o {
        Some(s) => Some(s@),
        None => None,
    }
}

impl View for UserResponse {
    type V = UserModel;

    open spec fn view(&self) -> UserModel {
        UserModel {
            id: self.id as int,
            username: self.username@,
            name: self.name@,
            role: self.role@,
            profile_picture: opt_text_view(self.profile_picture),
        }
    }
}

/// Copies an optional text field.
pub fn clone_opt_text(o: &Option<String>) -> (r: Option<String>)
    ensures
        opt_text_view(r) == opt_text_view(*o),
{
    match o {
        Some(s) => Some(s.clone()),
        None => None,
    }
}

impl UserResponse {
    /// Copies this row.
    pub fn duplicate(&self) -> (r: UserResponse)
        ensures
            r@ == self@,
    {
        UserResponse {
            id: self.id,
            username: self.username.clone(),
            name: self.name.clone(),
            role: self.role.clone(),
            profile_picture: clone_opt_text(&self.profile_picture),
        }
    }
}

} // verus!
