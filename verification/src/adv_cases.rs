//! A module exercising the richer storage shapes: an indexed user table,
//! sum and product types, tuples and arrays of results.

use vstd::prelude::*;

verus! {

use vstd::string::StringExecFns;
use crate::registry::AccountId;

#[derive(Debug, PartialEq, Eq, Structural, Clone, Copy)]
pub enum Error {
    NotFound,
    Unknown,
}

#[derive(Debug, PartialEq, Eq, Structural, Clone, Copy)]
pub enum Error2 {
    Sample(u8),
}

#[derive(Debug, PartialEq, Eq, Structural, Clone, Copy)]
pub enum Role {
    User,
    Admin(u8),
}

#[derive(Debug, PartialEq, Eq)]
#[verifier::ext_equal]
pub struct User {
    pub active: bool,
    pub name: String,
    pub role: Role,
    pub age: u8,
    pub salery: u64,
    pub favorite_numbers: Vec<u32>,
}

/// Two users carrying the same data, compared through the views of
/// their buffers.
pub open spec fn user_view_eq(a: User, b: User) -> bool {
    &&& a.active == b.active
    &&& a.name@ == b.name@
    &&& a.role == b.role
    &&& a.age == b.age
    &&& a.salery == b.salery
    &&& a.favorite_numbers@ == b.favorite_numbers@
}

impl Clone for User {
    /// A field-for-field copy carrying the same data.
    fn clone(&self) -> (r: Self)
        ensures
            user_view_eq(r, *self),
    {
        let favorite_numbers = crate::adv_cases::copy_u32s(&self.favorite_numbers);
        assert(favorite_numbers@ =~= self.favorite_numbers@);
        let r = User {
            active: self.active,
            name: self.name.clone(),
            role: self.role,
            age: self.age,
            salery: self.salery,
            favorite_numbers,
        };
        r
    }
}

/// Copy a vector of numbers element by element.
pub fn copy_u32s(v: &Vec<u32>) -> (r: Vec<u32>)
    ensures
        r@ == v@,
{
    let mut r: Vec<u32> = Vec::new();
    let mut i: usize = 0;
    while i < v.len()
        invariant
            i <= v@.len(),
            r@ == v@.take(i as int),
        decreases v@.len() - i,
    {
        r.push(v[i]);
        i = i + 1;
        assert(r@ =~= v@.take(i as int));
    }
    assert(v@.take(v@.len() as int) =~= v@);
    r
}

/// The user table: users are keyed by the order they were added in, and
/// the key counter always equals the table's size.
pub struct AdvCases {
    pub users: Vec<User>,
    pub users_num: u32,
    pub users_by_account: Vec<(AccountId, u64)>,
    pub lazy_user: Option<User>,
}

impl AdvCases {
    pub open spec fn well_formed(&self) -> bool {
        self.users@.len() == self.users_num
    }

    pub fn default() -> (r: AdvCases)
        ensures
            r.well_formed(),
            r.users@.len() == 0,
            r.users_by_account@.len() == 0,
            r.lazy_user is None,
    {
        AdvCases {
            users: Vec::new(),
            users_num: 0,
            users_by_account: Vec::new(),
            lazy_user: None,
        }
    }

    /// Store a user under the next free index.
    pub fn add(&mut self, user: User)
        requires
            old(self).well_formed(),
            old(self).users_num < u32::MAX,
        ensures
            final(self).well_formed(),
            final(self).users@ == old(self).users@.push(user),
            final(self).users_num == old(self).users_num + 1,
            final(self).users_by_account == old(self).users_by_account,
            final(self).lazy_user == old(self).lazy_user,
    {
        self.users.push(user);
        self.users_num = self.users_num + 1;
    }

    /// The user stored under `idx`, if any.
    pub fn get_user(&self, idx: u32) -> (r: Option<User>)
        ensures
            match r {
                Some(u) => idx < self.users@.len() && user_view_eq(u, self.users@[idx as int]),
                None => idx >= self.users@.len(),
            },
    {
        if (idx as usize) < self.users.len() {
            Some(self.users[idx as usize].clone())
        } else {
            None
        }
    }

    /// A plain sample user whose salary is the given index.
    pub fn get_sample_user(&self, idx: u64) -> (r: User)
        ensures
            !r.active,
            r.name@ == "Simple user"@,
            r.role == Role::User,
            r.age == 0,
            r.salery == idx,
            r.favorite_numbers@.len() == 0,
    {
        User {
            active: false,
            name: String::from_str("Simple user"),
            role: Role::User,
            age: 0,
            salery: idx,
            favorite_numbers: Vec::new(),
        }
    }

    /// A sample administrator carrying the given admin level.
    pub fn get_sample_admin(&self, idx: u8) -> (r: User)
        ensures
            !r.active,
            r.name@ == "Nice admin"@,
            r.role == Role::Admin(idx),
            r.age == 0,
            r.salery == 0,
            r.favorite_numbers@.len() == 0,
    {
        User {
            active: false,
            name: String::from_str("Nice admin"),
            role: Role::Admin(idx),
            age: 0,
            salery: 0,
            favorite_numbers: Vec::new(),
        }
    }

    pub fn get_integers(&self) -> (r: (u8, u128, i8, i128))
        ensures
            r == (1u8, 2u128, -3i8, 4i128),
    {
        (1, 2, -3, 4)
    }

    /// The user stored under `idx`, or `NotFound`.
    pub fn get_user_by_result(&self, idx: u32) -> (r: Result<User, Error>)
        ensures
            match r {
                Ok(u) => idx < self.users@.len() && user_view_eq(u, self.users@[idx as int]),
                Err(e) => idx >= self.users@.len() && e == Error::NotFound,
            },
    {
        match self.get_user(idx) {
            Some(u) => Ok(u),
            None => Err(Error::NotFound),
        }
    }

    /// The lazily stored user, if one was ever set.
    pub fn get_lazy_user(&self) -> (r: Option<User>)
        ensures
            match r {
                Some(u) => self.lazy_user is Some && user_view_eq(u, self.lazy_user->Some_0),
                None => self.lazy_user is None,
            },
    {
        match &self.lazy_user {
            Some(u) => Some(u.clone()),
            None => None,
        }
    }

    pub fn get_array(&self, text: String) -> (r: Vec<u64>)
        ensures
            r@ == seq![5u64, 6u64, 7u64, 8u64],
    {
        let mut v: Vec<u64> = Vec::new();
        v.push(5);
        v.push(6);
        v.push(7);
        v.push(8);
        assert(v@ =~= seq![5u64, 6u64, 7u64, 8u64]);
        v
    }

    pub fn get_tuple(&self, text: String) -> (r: (u64, String))
        ensures
            r.0 == 10,
            r.1 == text,
    {
        (10, text)
    }

    /// Echo the argument inside the sample error.
    pub fn sample(&self, value: u8) -> (r: Result<u8, Error2>)
        ensures
            r == Err::<u8, Error2>(Error2::Sample(value)),
    {
        Err(Error2::Sample(value))
    }

    pub fn handle_req(&self) {
    }
}

} // verus!
