//! New-row shapes: the fields a caller supplies when creating a row,
//! before the store assigns the identifier. `into_row` attaches the
//! identifier the store hands out.
use vstd::prelude::*;

use crate::models::{
    Admin, AdminV, Composer, ContributorV, DbPiece, DbRelease, Performer, PieceRowV, ReleaseRowV,
    Songwriter, User, UserV, opt_view,
};

verus! {

/// A new user to insert into the user table.
pub struct NewUser {
    pub username: String,
    pub password_hash: String,
    pub salt: String,
    pub session: Option<String>,
    pub created_at: Option<i64>,
}

impl NewUser {
    /// The stored row, under the identifier the store assigns.
    pub fn into_row(self, id: i32) -> (r: User)
        ensures
            r@ == (UserV {
                id,
                username: self.username@,
                password_hash: self.password_hash@,
                salt: self.salt@,
                session: opt_view(self.session),
                created_at: self.created_at,
            }),
    {
        User {
            id,
            username: self.username,
            password_hash: self.password_hash,
            salt: self.salt,
            session: self.session,
            created_at: self.created_at,
        }
    }
}

/// A new admin marker to insert into the admin table.
pub struct NewAdmin {
    pub username: String,
}

impl NewAdmin {
    /// The stored row, under the identifier the store assigns.
    pub fn into_row(self, id: i32) -> (r: Admin)
        ensures
            r@ == (AdminV { id, username: self.username@ }),
    {
        Admin { id, username: self.username }
    }
}

/// A new performer to insert into the performer table.
pub struct NewPerformer {
    pub name: String,
    pub description: Option<String>,
    pub image_path: Option<String>,
}

impl NewPerformer {
    /// The stored row, under the identifier the store assigns.
    pub fn into_row(self, id: i32) -> (r: Performer)
        ensures
            r@ == (ContributorV {
                id,
                name: self.name@,
                description: opt_view(self.description),
                image_path: opt_view(self.image_path),
            }),
    {
        Performer {
            id,
            name: self.name,
            description: self.description,
            image_path: self.image_path,
        }
    }
}

/// A new composer to insert into the composer table.
pub struct NewComposer {
    pub name: String,
    pub description: Option<String>,
    pub image_path: Option<String>,
}

impl NewComposer {
    /// The stored row, under the identifier the store assigns.
    pub fn into_row(self, id: i32) -> (r: Composer)
        ensures
            r@ == (ContributorV {
                id,
                name: self.name@,
                description: opt_view(self.description),
                image_path: opt_view(self.image_path),
            }),
    {
        Composer {
            id,
            name: self.name,
            description: self.description,
            image_path: self.image_path,
        }
    }
}

/// A new songwriter to insert into the songwriter table.
pub struct NewSongwriter {
    pub name: String,
    pub description: Option<String>,
    pub image_path: Option<String>,
}

impl NewSongwriter {
    /// The stored row, under the identifier the store assigns.
    pub fn into_row(self, id: i32) -> (r: Songwriter)
        ensures
            r@ == (ContributorV {
                id,
                name: self.name@,
                description: opt_view(self.description),
                image_path: opt_view(self.image_path),
            }),
    {
        Songwriter {
            id,
            name: self.name,
            description: self.description,
            image_path: self.image_path,
        }
    }
}

/// A new release to insert into the release table.
pub struct NewRelease {
    pub name: String,
    pub description: Option<String>,
    pub image_path: Option<String>,
}

impl NewRelease {
    /// The stored row, under the identifier the store assigns.
    pub fn into_row(self, id: i32) -> (r: DbRelease)
        ensures
            r@ == (ReleaseRowV {
                id,
                name: self.name@,
                description: opt_view(self.description),
                image_path: opt_view(self.image_path),
            }),
    {
        DbRelease {
            id,
            name: self.name,
            description: self.description,
            image_path: self.image_path,
        }
    }
}

/// A new piece to insert into the piece table.
pub struct NewPiece {
    pub name: String,
    pub movements: Option<i32>,
    pub description: Option<String>,
}

impl NewPiece {
    /// The stored row, under the identifier the store assigns.
    pub fn into_row(self, id: i32) -> (r: DbPiece)
        ensures
            r@ == (PieceRowV {
                id,
                name: self.name@,
                movements: self.movements,
                description: opt_view(self.description),
            }),
    {
        DbPiece { id, name: self.name, movements: self.movements, description: self.description }
    }
}

} // verus!
