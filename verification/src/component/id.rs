use vstd::prelude::*;

verus! {

/// An identifier: a 128-bit value.
#[derive(Copy, Clone, PartialEq, Eq, Structural, PartialOrd, Ord, Hash, Debug)]
pub struct Id {
    pub id: u128,
}

/// A source of identifiers.
///
/// `can_generate` names the identifiers that a repository may hand out;
/// every call of `generate` that succeeds returns one of them, and `None`
/// says that the repository could not make one.
pub trait IdRepository {
    spec fn can_generate(&self, id: Id) -> bool;

    fn generate(&self) -> (id: Option<Id>)
        ensures
            id matches Some(i) ==> self.can_generate(i),
    ;
}

/// Hands out identifiers by asking its repository.
pub struct IdInteractor<T> where T: IdRepository {
    pub id_repository: T,
}

impl<T: IdRepository> IdInteractor<T> {
    /// Returns what one call of the repository's `generate` returns.
    pub fn generate(&self) -> (id: Option<Id>)
        ensures
            call_ensures(T::generate, (&self.id_repository,), id),
            id matches Some(i) ==> self.id_repository.can_generate(i),
    {
        self.id_repository.generate()
    }
}

} // verus!
