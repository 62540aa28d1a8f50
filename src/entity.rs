//! The domain records exchanged between the use-case layer and the stores.

use vstd::prelude::*;

verus! {

/// The id that marks an entity which no store has assigned an id to yet.
pub const NEW_ENTITY_ID: i64 = -1;

/// The email address given to users built from a name alone.
pub const DEFAULT_EMAIL: &'static str = "abc@d.e";

/// A record with an integer identifier.
pub trait Entity: Sized {
    /// The identifier of the record.
    spec fn spec_id(&self) -> i64;

    /// The same record under the identifier `id`.
    spec fn spec_with_id(&self, id: i64) -> Self;

    /// The identifier of the record.
    fn get_id(&self) -> (r: &i64)
        ensures
            *r == self.spec_id(),
    ;

    /// Whether the record still carries the "new" sentinel: a negative id.
    fn is_new(&self) -> (r: bool)
        ensures
            r == (self.spec_id() < 0),
    ;

    /// The same record under the identifier `id`.
    fn with_id(self, id: i64) -> (r: Self)
        ensures
            r == self.spec_with_id(id),
            r.spec_id() == id,
    ;

    /// A copy of the record.
    fn duplicate(&self) -> (r: Self)
        ensures
            r == *self,
    ;
}

/// The sample record: an id and a name.
#[derive(Debug)]
pub struct Sample {
    pub id: i64,
    pub name: String,
}

impl Sample {
    /// A sample that has not been stored yet.
    pub fn with_name(name: String) -> (r: Sample)
        ensures
            r.id == NEW_ENTITY_ID,
            r.name == name,
    {
        Sample { id: NEW_ENTITY_ID, name }
    }

    /// A sample that has not been stored yet (the same as `with_name`).
    pub fn from_name(name: String) -> (r: Sample)
        ensures
            r.id == NEW_ENTITY_ID,
            r.name == name,
    {
        Sample::with_name(name)
    }

    /// A sample with the given id and name.
    pub fn new(id: i64, name: String) -> (r: Sample)
        ensures
            r.id == id,
            r.name == name,
    {
        Sample { id, name }
    }
}

impl Entity for Sample {
    open spec fn spec_id(&self) -> i64 {
        self.id
    }

    open spec fn spec_with_id(&self, id: i64) -> Sample {
        Sample { id, name: self.name }
    }

    fn get_id(&self) -> (r: &i64) {
        &self.id
    }

    fn is_new(&self) -> (r: bool) {
        assert(self.spec_id() == self.id);
        self.id < 0
    }

    fn with_id(self, id: i64) -> (r: Sample) {
        Sample { id, name: self.name }
    }

    fn duplicate(&self) -> (r: Sample) {
        Sample { id: self.id, name: self.name.clone() }
    }
}

/// A user record: an id, a name and an email address.
#[derive(Debug)]
pub struct User {
    pub id: i64,
    pub name: String,
    pub email: String,
}

impl User {
    /// A user that has not been stored yet, with the default email address.
    pub fn with_name(name: String) -> (r: User)
        ensures
            r.id == NEW_ENTITY_ID,
            r.name == name,
            r.email@ == DEFAULT_EMAIL@,
    {
        User { id: NEW_ENTITY_ID, name, email: DEFAULT_EMAIL.to_owned() }
    }

    /// A user with the given id and name, and the default email address.
    pub fn new(id: i64, name: String) -> (r: User)
        ensures
            r.id == id,
            r.name == name,
            r.email@ == DEFAULT_EMAIL@,
    {
        User { id, name, email: DEFAULT_EMAIL.to_owned() }
    }
}

impl Entity for User {
    open spec fn spec_id(&self) -> i64 {
        self.id
    }

    open spec fn spec_with_id(&self, id: i64) -> User {
        User { id, name: self.name, email: self.email }
    }

    fn get_id(&self) -> (r: &i64) {
        &self.id
    }

    fn is_new(&self) -> (r: bool) {
        assert(self.spec_id() == self.id);
        self.id < 0
    }

    fn with_id(self, id: i64) -> (r: User) {
        User { id, name: self.name, email: self.email }
    }

    fn duplicate(&self) -> (r: User) {
        User { id: self.id, name: self.name.clone(), email: self.email.clone() }
    }
}

} // verus!
