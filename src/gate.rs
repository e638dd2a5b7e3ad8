use vstd::prelude::*;
use crate::actor::Actor;
use crate::book::{ActorSet, Book};
use crate::error::Error;

verus! {

/// An admin plus a set of further privileged callers, both fixed at
/// construction.
pub struct AuthGate {
    pub admin: Actor,
    pub allowed: ActorSet,
}

impl AuthGate {
    pub open spec fn wf(&self) -> bool {
        self.allowed.wf()
    }

    /// Whether `caller` may use the gated operations.
    pub open spec fn admits(&self, caller: Seq<u8>) -> bool {
        caller == self.admin@ || self.allowed@.contains(caller)
    }

    /// A gate for `admin`, with `extra` as the one further privileged caller
    /// if given.
    pub fn new(admin: Actor, extra: Option<Actor>) -> (r: AuthGate)
        ensures
            r.wf(),
            r.admin@ == admin@,
            r.allowed@ == (match extra {
                Some(a) => Set::<Seq<u8>>::empty().insert(a@),
                None => Set::<Seq<u8>>::empty(),
            }),
    {
        let mut allowed = ActorSet::new();
        if let Some(a) = extra {
            allowed.insert(&a);
        }
        AuthGate { admin, allowed }
    }

    /// Fails with `Unauthorized` unless `caller` is the admin or allowed.
    pub fn ensure_privileged(&self, caller: &Actor) -> (r: Result<(), Error>)
        requires
            self.wf(),
        ensures
            r == (if self.admits(caller@) { Ok::<(), Error>(()) } else { Err(Error::Unauthorized) }),
    {
        if caller.same(&self.admin) || self.allowed.contains(caller) {
            Ok(())
        } else {
            Err(Error::Unauthorized)
        }
    }
}

/// The collateral vault: a balance per actor, raised by privileged callers.
pub struct Vault {
    pub gate: AuthGate,
    pub balances: Book<u128>,
}

impl Vault {
    pub open spec fn wf(&self) -> bool {
        self.gate.wf() && self.balances.wf()
    }

    /// The balance of `who`, zero when none was recorded.
    pub open spec fn balance(&self, who: Seq<u8>) -> u128 {
        if self.balances@.contains_key(who) { self.balances@[who] } else { 0 }
    }

    /// An empty vault; `depositor` is allowed to deposit besides `admin`.
    pub fn new(admin: Actor, depositor: Option<Actor>) -> (r: Vault)
        ensures
            r.wf(),
            r.gate.admin@ == admin@,
            forall|who: Seq<u8>| r.balance(who) == 0,
            forall|c: Seq<u8>| #[trigger] r.gate.admits(c) == (c == admin@ || (match depositor {
                Some(d) => c == d@,
                None => false,
            })),
    {
        Vault { gate: AuthGate::new(admin, depositor), balances: Book::new() }
    }

    pub fn get_collateral(&self, who: &Actor) -> (r: u128)
        requires
            self.wf(),
        ensures
            r == self.balance(who@),
    {
        match self.balances.get(who) {
            Some(v) => v,
            None => 0,
        }
    }

    /// Adds `amount` to the balance of `who`, on behalf of `caller`.
    pub fn deposit(&mut self, caller: &Actor, who: &Actor, amount: u128) -> (r: Result<(), Error>)
        requires
            old(self).wf(),
        ensures
            final(self).wf(),
            final(self).gate == old(self).gate,
            !old(self).gate.admits(caller@) ==> r == Err::<(), Error>(Error::Unauthorized),
            old(self).gate.admits(caller@) && amount == 0 ==> r == Err::<(), Error>(Error::InvalidArgument),
            old(self).gate.admits(caller@) && amount > 0 && old(self).balance(who@) + amount > u128::MAX
                ==> r == Err::<(), Error>(Error::Overflow),
            r is Ok <==> old(self).gate.admits(caller@) && amount > 0 && old(self).balance(who@) + amount
                <= u128::MAX,
            r is Ok ==> final(self).balances@ == old(self).balances@.insert(who@, (old(self).balance(who@) + amount) as u128),
            r is Err ==> final(self).balances@ == old(self).balances@,
    {
        self.gate.ensure_privileged(caller)?;
        if amount == 0 {
            return Err(Error::InvalidArgument);
        }
        let current = self.get_collateral(who);
        match current.checked_add(amount) {
            Some(total) => {
                self.balances.set(who, total);
                Ok(())
            },
            None => Err(Error::Overflow),
        }
    }
}

/// The reputation store: a level per actor, set by privileged callers.
pub struct ReputeStore {
    pub gate: AuthGate,
    pub levels: Book<u64>,
}

impl ReputeStore {
    pub open spec fn wf(&self) -> bool {
        self.gate.wf() && self.levels.wf()
    }

    /// The level of `who`, zero when none was recorded.
    pub open spec fn level(&self, who: Seq<u8>) -> u64 {
        if self.levels@.contains_key(who) { self.levels@[who] } else { 0 }
    }

    /// An empty store; `setter` may set levels besides `admin`.
    pub fn new(admin: Actor, setter: Option<Actor>) -> (r: ReputeStore)
        ensures
            r.wf(),
            r.gate.admin@ == admin@,
            forall|who: Seq<u8>| r.level(who) == 0,
            forall|c: Seq<u8>| #[trigger] r.gate.admits(c) == (c == admin@ || (match setter {
                Some(d) => c == d@,
                None => false,
            })),
    {
        ReputeStore { gate: AuthGate::new(admin, setter), levels: Book::new() }
    }

    pub fn get_level(&self, who: &Actor) -> (r: u64)
        requires
            self.wf(),
        ensures
            r == self.level(who@),
    {
        match self.levels.get(who) {
            Some(v) => v,
            None => 0,
        }
    }

    /// Sets the level of `who` to `level`, on behalf of `caller`.
    pub fn set_level(&mut self, caller: &Actor, who: &Actor, level: u64) -> (r: Result<(), Error>)
        requires
            old(self).wf(),
        ensures
            final(self).wf(),
            final(self).gate == old(self).gate,
            r == (if old(self).gate.admits(caller@) { Ok::<(), Error>(()) } else { Err(Error::Unauthorized) }),
            r is Ok ==> final(self).levels@ == old(self).levels@.insert(who@, level),
            r is Err ==> final(self).levels@ == old(self).levels@,
    {
        self.gate.ensure_privileged(caller)?;
        self.levels.set(who, level);
        Ok(())
    }
}

} // verus!
