//! A user as the service exposes it: the record without its password hash.

use vstd::prelude::*;

verus! {

pub struct User {
    pub id: Option<i32>,
    pub first_name: String,
    pub last_name: String,
    pub email: String,
    pub age: i32,
}

} // verus!
