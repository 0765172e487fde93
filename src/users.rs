//! User records, as one struct per user or as one column per field.
use vstd::prelude::*;

verus! {

/// Users stored column by column: the `k`-th user is the `k`-th entry of
/// each column.
pub struct UserSoA {
    pub ids: Vec<i64>,
    pub names: Vec<String>,
    pub ages: Vec<u8>,
}

/// One user.
pub struct User {
    pub id: i64,
    pub name: String,
    pub age: u8,
}

impl UserSoA {
    /// All columns hold the same number of users.
    pub open spec fn wf(&self) -> bool {
        self.ids@.len() == self.names@.len() && self.names@.len() == self.ages@.len()
    }

    pub fn new() -> (r: UserSoA)
        ensures
            r.wf(),
            r.ids@.len() == 0,
    {
        UserSoA { ids: Vec::new(), names: Vec::new(), ages: Vec::new() }
    }

    /// An empty table with room for `capacity` users in each column.
    pub fn new_with_capacity(capacity: usize) -> (r: UserSoA)
        ensures
            r.wf(),
            r.ids@.len() == 0,
    {
        UserSoA {
            ids: Vec::with_capacity(capacity),
            names: Vec::with_capacity(capacity),
            ages: Vec::with_capacity(capacity),
        }
    }

    /// Appends one user to every column.
    pub fn add_user(&mut self, id: i64, name: String, age: u8)
        ensures
            final(self).ids@ == old(self).ids@.push(id),
            final(self).names@ == old(self).names@.push(name),
            final(self).ages@ == old(self).ages@.push(age),
            old(self).wf() ==> final(self).wf(),
    {
        self.ids.push(id);
        self.names.push(name);
        self.ages.push(age);
    }
}

} // verus!
