//! A toy user store behind a storage trait.

pub mod usernotfound;

use vstd::prelude::*;

use crate::mysqldb::usernotfound::UserNotFound;

verus! {

/// The sex recorded for a user.
#[derive(Clone, Copy, Debug, PartialEq, Eq, Structural)]
pub enum UserSex {
    Male,
    Female,
    Other,
}

/// One user record.
#[derive(Debug)]
pub struct User {
    pub id: u32,
    pub name: String,
    pub sex: UserSex,
}

/// A store of user records, looked up by id.  Implementations say through
/// `has_user` which ids they hold and answer lookups accordingly.
pub trait PersistentStorage {
    /// Whether the store holds a user with this id.
    spec fn has_user(&self, id: u32) -> bool;

    /// Every user the store holds.
    fn get_all_users(&self) -> (r: Vec<User>)
        ensures
            forall|i: int| 0 <= i < r@.len() ==> self.has_user(#[trigger] r@[i].id),
    ;

    /// The user with the given id, or `UserNotFound` when the store holds
    /// none.
    fn get_user_by_id(&self, id: u32) -> (r: Result<User, UserNotFound>)
        ensures
            match r {
                Ok(u) => u.id == id && self.has_user(id),
                Err(_) => !self.has_user(id),
            },
    ;
}

/// A stand-in for a relational store; it serves one fixed user record.
pub struct MysqlDatabase {
    handle: u32,
}

impl MysqlDatabase {
    /// The connection handle the store was opened with.
    pub closed spec fn handle_val(self) -> u32 {
        self.handle
    }
}

/// Opens the store over the given connection handle.
pub fn new_mysql_db(handle: u32) -> (r: MysqlDatabase)
    ensures
        r.handle_val() == handle,
{
    MysqlDatabase { handle }
}

impl PersistentStorage for MysqlDatabase {
    open spec fn has_user(&self, id: u32) -> bool {
        id == 1
    }

    fn get_all_users(&self) -> (r: Vec<User>)
    {
        let mut v: Vec<User> = Vec::new();
        v.push(User { id: 1, name: "Aleksander".to_owned(), sex: UserSex::Male });
        v
    }

    fn get_user_by_id(&self, id: u32) -> (r: Result<User, UserNotFound>)
    {
        if id != 1 {
            return Err(UserNotFound);
        }
        Ok(User { id: 1, name: "Aleksander".to_owned(), sex: UserSex::Male })
    }
}

} // verus!
