//! The profile that a node's owner publishes.
use vstd::prelude::*;

verus! {

/// A profile: its identifier, the owner's name, and a contact address.
#[derive(PartialEq, Eq, Clone, Debug, Hash)]
pub struct Profile {
    pub id: String,
    pub name: String,
    pub email: String,
}

/// The fields of a profile as a profile record holds them.
#[derive(PartialEq, Eq, Clone, Debug, Hash)]
pub struct ProfileData {
    pub id: String,
    pub name: String,
    pub email: String,
}

impl Profile {
    pub fn new(id: String, name: String, email: String) -> (r: Profile)
        ensures
            r.id@ == id@,
            r.name@ == name@,
            r.email@ == email@,
    {
        Profile { id, name, email }
    }

    /// The profile that a record's fields make.
    pub fn from_data(data: ProfileData) -> (r: Profile)
        ensures
            r.id@ == data.id@,
            r.name@ == data.name@,
            r.email@ == data.email@,
    {
        Profile { id: data.id, name: data.name, email: data.email }
    }

    /// The record fields of the profile.
    pub fn to_data(self) -> (r: ProfileData)
        ensures
            r.id@ == self.id@,
            r.name@ == self.name@,
            r.email@ == self.email@,
    {
        ProfileData { id: self.id, name: self.name, email: self.email }
    }
}

} // verus!
