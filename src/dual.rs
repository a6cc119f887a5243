//! A store made of two stores: each root key is assigned statically to one of
//! them, and the decisions that span both (which namespaces exist in both,
//! which to create) are taken here.

use vstd::prelude::*;

verus! {

/// Relies on `bcs::Error`, the error of decoding a root key; carried, never inspected.
#[verifier::external_type_specification]
#[verifier::external_body]
pub struct ExBcsError(bcs::Error);

/// The initial configuration of the system.
#[derive(Clone, Debug)]
pub struct DualStoreConfig<C1, C2> {
    /// The first config.
    pub first_config: C1,
    /// The second config.
    pub second_config: C2,
}

/// The store in use.
#[derive(Clone, Copy, Debug, PartialEq, Eq, Structural)]
pub enum StoreInUse {
    /// The first store.
    First,
    /// The second store.
    Second,
}

/// A static assignment of root keys to stores.
pub trait DualStoreRootKeyAssignment {
    /// Obtains the store assigned to this root key.
    fn assigned_store(root_key: &[u8]) -> Result<StoreInUse, bcs::Error>;
}

/// A store made of two existing stores.
pub struct DualStore<S1, S2, A> {
    /// The first underlying store.
    first_store: S1,
    /// The second underlying store.
    second_store: S2,
    /// Which store is in use for the root key. (The root key in the other store is set arbitrarily.)
    store_in_use: StoreInUse,
    /// Marker for the static root key assignment.
    _marker: std::marker::PhantomData<A>,
}

/// The error type for [`DualStore`].
#[derive(Debug)]
pub enum DualStoreError<E1, E2> {
    /// Store already exists during a create operation.
    StoreAlreadyExists,
    /// The root key could not be assigned to a store.
    BcsError(bcs::Error),
    /// First store.
    First(E1),
    /// Second store.
    Second(E2),
}

impl<S1, S2, A> DualStore<S1, S2, A> {
    /// The store in use.
    pub closed spec fn spec_store_in_use(&self) -> StoreInUse {
        self.store_in_use
    }

    /// The first underlying store.
    pub closed spec fn spec_first(&self) -> S1 {
        self.first_store
    }

    /// The second underlying store.
    pub closed spec fn spec_second(&self) -> S2 {
        self.second_store
    }

    /// Puts together a dual store from what opening each store and assigning
    /// the root key gave: the first failure, in that order, is the error.
    pub fn assemble<E1, E2>(first: Result<S1, E1>, second: Result<S2, E2>, assigned: Result<StoreInUse, bcs::Error>) -> (r: Result<Self, DualStoreError<E1, E2>>)
        ensures
            first is Err ==> r is Err && r->Err_0 is First && r->Err_0->First_0 == first->Err_0,
            first is Ok && second is Err ==> r is Err && r->Err_0 is Second && r->Err_0->Second_0 == second->Err_0,
            first is Ok && second is Ok && assigned is Err ==> r is Err && r->Err_0 is BcsError
                && r->Err_0->BcsError_0 == assigned->Err_0,
            first is Ok && second is Ok && assigned is Ok ==> r is Ok
                && r->Ok_0.spec_first() == first->Ok_0
                && r->Ok_0.spec_second() == second->Ok_0
                && r->Ok_0.spec_store_in_use() == assigned->Ok_0,
    {
        let first_store = match first {
            Ok(s) => s,
            Err(e) => return Err(DualStoreError::First(e)),
        };
        let second_store = match second {
            Ok(s) => s,
            Err(e) => return Err(DualStoreError::Second(e)),
        };
        let store_in_use = match assigned {
            Ok(s) => s,
            Err(e) => return Err(DualStoreError::BcsError(e)),
        };
        Ok(DualStore { first_store, second_store, store_in_use, _marker: std::marker::PhantomData })
    }

    /// Which store is in use for this store's root key.
    pub fn store_in_use(&self) -> (r: StoreInUse)
        ensures
            r == self.spec_store_in_use(),
    {
        self.store_in_use
    }

    /// The first underlying store.
    pub fn first_store(&self) -> (r: &S1)
        ensures
            *r == self.spec_first(),
    {
        &self.first_store
    }

    /// The second underlying store.
    pub fn second_store(&self) -> (r: &S2)
        ensures
            *r == self.spec_second(),
    {
        &self.second_store
    }
}

/// Decides which stores creating a namespace must create, given whether it
/// exists in each; fails where it exists in both already.
pub fn create_plan<E1, E2>(exists1: bool, exists2: bool) -> (r: Result<(bool, bool), DualStoreError<E1, E2>>)
    ensures
        exists1 && exists2 ==> r is Err && r->Err_0 is StoreAlreadyExists,
        !(exists1 && exists2) ==> r == Ok::<(bool, bool), DualStoreError<E1, E2>>((!exists1, !exists2)),
{
    if exists1 && exists2 {
        return Err(DualStoreError::StoreAlreadyExists);
    }
    Ok((!exists1, !exists2))
}

/// The namespaces of `names` whose flag in `in_second` is set, in order.
pub open spec fn kept_namespaces<T>(names: Seq<T>, in_second: Seq<bool>, n: nat) -> Seq<T>
    decreases n,
{
    if n == 0 {
        seq![]
    } else {
        let prev = kept_namespaces(names, in_second, (n - 1) as nat);
        if in_second[n - 1] { prev.push(names[n - 1]) } else { prev }
    }
}

/// Keeps the namespaces of the first store that exist in the second as well:
/// `in_second[i]` says whether `names[i]` does.
pub fn namespaces_in_both<T>(names: Vec<T>, in_second: &Vec<bool>) -> (r: Vec<T>)
    requires
        in_second@.len() == names@.len(),
    ensures
        r@ == kept_namespaces(names@, in_second@, names@.len()),
{
    let mut kept: Vec<T> = Vec::new();
    let mut rest = names;
    let ghost all = rest@;
    let mut reversed: Vec<T> = Vec::new();
    while rest.len() > 0
        invariant
            reversed@.len() + rest@.len() == all.len(),
            rest@ == all.subrange(0, rest@.len() as int),
            forall|k: int| 0 <= k < reversed@.len() ==> reversed@[k] == all[all.len() - 1 - k],
        decreases rest@.len(),
    {
        let x = rest.pop().unwrap();
        reversed.push(x);
    }
    let n = in_second.len();
    let mut i: usize = 0;
    while reversed.len() > 0
        invariant
            n == all.len(),
            i + reversed@.len() == all.len(),
            in_second@.len() == all.len(),
            forall|k: int| 0 <= k < reversed@.len() ==> reversed@[k] == all[all.len() - 1 - k],
            kept@ == kept_namespaces(all, in_second@, i as nat),
        decreases reversed@.len(),
    {
        let x = reversed.pop().unwrap();
        if in_second[i] {
            kept.push(x);
        }
        i = i + 1;
    }
    kept
}

/// The root keys of both stores, those of the first first.
pub fn concat_root_keys(first: Vec<Vec<u8>>, second: Vec<Vec<u8>>) -> (r: Vec<Vec<u8>>)
    ensures
        r@ == first@ + second@,
{
    let mut root_keys = first;
    let mut rest = second;
    root_keys.append(&mut rest);
    root_keys
}

} // verus!
