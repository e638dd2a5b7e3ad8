use vstd::prelude::*;
use vstd::string::StringExecFns;
use crate::actor::Actor;
use crate::book::ActorSet;
use crate::error::Error;
use crate::scoring::{
    Config, Decision, Recommendation, capped, decision_of, lemma_no_collateral_never_approved, score_of,
};

verus! {

#[derive(Clone, Copy, Debug, PartialEq, Eq, Structural)]
pub enum LoanStatus {
    Active,
    Repaid,
}

pub open spec fn status_label(s: LoanStatus) -> Seq<char> {
    match s {
        LoanStatus::Active => "Active"@,
        LoanStatus::Repaid => "Repaid"@,
    }
}

impl LoanStatus {
    /// `Active` or `Repaid`.
    pub fn label(&self) -> (r: String)
        ensures
            r@ == status_label(*self),
    {
        match self {
            LoanStatus::Active => String::from_str("Active"),
            LoanStatus::Repaid => String::from_str("Repaid"),
        }
    }
}

/// A loan record. `repaid` is the total paid so far: it saturates at the
/// largest value, and an overpayment is kept in it without refund.
pub struct Loan {
    pub id: u128,
    pub borrower: Actor,
    pub amount: u128,
    pub repaid: u128,
    pub status: LoanStatus,
    pub created_at_ns: u64,
}

impl Loan {
    /// A copy of this record.
    pub fn duplicate(&self) -> (r: Loan)
        ensures
            r.id == self.id,
            r.borrower@ == self.borrower@,
            r.amount == self.amount,
            r.repaid == self.repaid,
            r.status == self.status,
            r.created_at_ns == self.created_at_ns,
    {
        Loan {
            id: self.id,
            borrower: self.borrower.duplicate(),
            amount: self.amount,
            repaid: self.repaid,
            status: self.status,
            created_at_ns: self.created_at_ns,
        }
    }
}

/// A loan as the summary lists it.
#[derive(Clone, Copy, Debug, PartialEq, Eq, Structural)]
pub struct LoanInfo {
    pub id: u128,
    pub amount: u128,
    pub status: LoanStatus,
}

/// What `get_summary` reports on one actor.
pub struct Summary {
    pub registered: bool,
    pub level: u64,
    pub collateral: u128,
    pub outstanding: u128,
    pub loans: Vec<LoanInfo>,
}

/// What `request_loan` answers: the oracle's decision, score and reasons, and
/// the new loan's id when it was approved.
pub struct LoanDecision {
    pub loan_id: Option<u128>,
    pub decision: Decision,
    pub score: u64,
    pub reasons: Vec<String>,
}

/// What `repay` answers.
#[derive(Clone, Copy, Debug, PartialEq, Eq, Structural)]
pub struct RepayResult {
    pub repaid: u128,
    pub remaining: u128,
    pub status: LoanStatus,
}

/// A loan's status agrees with what was repaid on it.
pub open spec fn loan_ok(l: Loan) -> bool {
    &&& l.amount > 0
    &&& (l.status == LoanStatus::Active <==> l.repaid < l.amount)
}

/// `a + b`, held at the largest value instead of overflowing.
pub open spec fn sat_add(a: u128, b: u128) -> u128 {
    if a + b > u128::MAX { u128::MAX } else { (a + b) as u128 }
}

/// The loan after a payment of `amount` is applied to it.
pub open spec fn paid(l: Loan, amount: u128) -> Loan {
    let total = sat_add(l.repaid, amount);
    Loan {
        repaid: total,
        status: if total >= l.amount { LoanStatus::Repaid } else { l.status },
        ..l
    }
}

/// What is still owed on a loan.
pub open spec fn remaining_of(l: Loan) -> u128 {
    if l.repaid >= l.amount { 0 } else { (l.amount - l.repaid) as u128 }
}

/// Why `repay(who, id, amount)` is refused on `loans`, checked in this order.
pub open spec fn repay_refusal(loans: Seq<Loan>, who: Seq<u8>, id: u128, amount: u128) -> Option<Error> {
    if amount == 0 {
        Some(Error::InvalidArgument)
    } else if !(1 <= id <= loans.len()) {
        Some(Error::NotFound)
    } else if loans[id - 1].borrower@ != who {
        Some(Error::Unauthorized)
    } else if loans[id - 1].status != LoanStatus::Active {
        Some(Error::InvalidState)
    } else {
        None
    }
}

/// The summary rows of `who`'s loans, in the order of `loans`.
pub open spec fn infos_of(loans: Seq<Loan>, who: Seq<u8>) -> Seq<LoanInfo>
    decreases loans.len(),
{
    if loans.len() == 0 {
        Seq::empty()
    } else {
        let l = loans.last();
        let rest = infos_of(loans.drop_last(), who);
        if l.borrower@ == who {
            rest.push(LoanInfo { id: l.id, amount: l.amount, status: l.status })
        } else {
            rest
        }
    }
}

/// What `who` still owes over their active loans.
pub open spec fn outstanding_of(loans: Seq<Loan>, who: Seq<u8>) -> int
    decreases loans.len(),
{
    if loans.len() == 0 {
        0
    } else {
        let l = loans.last();
        let rest = outstanding_of(loans.drop_last(), who);
        if l.borrower@ == who && l.status == LoanStatus::Active {
            rest + remaining_of(l)
        } else {
            rest
        }
    }
}

/// `x`, or the largest `u128` where `x` is larger.
pub open spec fn held_at_max(x: int) -> int {
    if x > u128::MAX { u128::MAX as int } else { x }
}

/// The value read from a remote store, or zero when the read failed.
pub open spec fn or_zero_u64(v: Option<u64>) -> u64 {
    match v {
        Some(x) => x,
        None => 0,
    }
}

pub open spec fn or_zero_u128(v: Option<u128>) -> u128 {
    match v {
        Some(x) => x,
        None => 0,
    }
}

/// The reads of a reputation level and a collateral balance fail open: a
/// failed read counts as zero.
pub fn fail_open(level: Option<u64>, collateral: Option<u128>) -> (r: (u64, u128))
    ensures
        r.0 == or_zero_u64(level),
        r.1 == or_zero_u128(collateral),
{
    let l = match level {
        Some(v) => v,
        None => 0,
    };
    let c = match collateral {
        Some(v) => v,
        None => 0,
    };
    (l, c)
}

/// The loan ledger: registered borrowers and their loans. Loan ids start at 1
/// and the loan with id `i` sits at position `i - 1`.
pub struct Ledger {
    users: ActorSet,
    loans: Vec<Loan>,
    next_loan_id: u128,
}

impl Ledger {
    pub closed spec fn loan_seq(&self) -> Seq<Loan> {
        self.loans@
    }

    pub closed spec fn next_id(&self) -> u128 {
        self.next_loan_id
    }

    pub closed spec fn registered(&self) -> Set<Seq<u8>> {
        self.users@
    }

    pub closed spec fn users_wf(&self) -> bool {
        self.users.wf()
    }

    pub open spec fn wf(&self) -> bool {
        &&& self.users_wf()
        &&& self.next_id() == self.loan_seq().len() + 1
        &&& forall|i: int| 0 <= i < self.loan_seq().len() ==> (#[trigger] self.loan_seq()[i]).id == i + 1
            && loan_ok(self.loan_seq()[i])
    }

    /// An empty ledger whose first loan will get id 1.
    pub fn new() -> (r: Ledger)
        ensures
            r.wf(),
            r.loan_seq() == Seq::<Loan>::empty(),
            r.next_id() == 1,
            r.registered() == Set::<Seq<u8>>::empty(),
    {
        Ledger { users: ActorSet::new(), loans: Vec::new(), next_loan_id: 1 }
    }

    /// The registered borrowers and the loan table, for the host to keep
    /// across an upgrade.
    pub fn snapshot(&self) -> (r: (Vec<Actor>, Vec<Loan>))
        requires
            self.wf(),
        ensures
            forall|i: int| 0 <= i < r.0@.len() ==> self.registered().contains(#[trigger] r.0@[i]@),
            forall|k: Seq<u8>| #[trigger] self.registered().contains(k) ==> exists|i: int|
                0 <= i < r.0@.len() && r.0@[i]@ == k,
            r.1@.len() == self.loan_seq().len(),
            forall|i: int| 0 <= i < r.1@.len() ==> {
                let a = #[trigger] r.1@[i];
                let b = self.loan_seq()[i];
                a.id == b.id && a.borrower@ == b.borrower@ && a.amount == b.amount && a.repaid == b.repaid
                    && a.status == b.status && a.created_at_ns == b.created_at_ns
            },
    {
        let users = self.users.members();
        let mut loans: Vec<Loan> = Vec::new();
        let mut i: usize = 0;
        while i < self.loans.len()
            invariant
                0 <= i <= self.loans@.len(),
                loans@.len() == i,
                forall|j: int| 0 <= j < i ==> {
                    let a = #[trigger] loans@[j];
                    let b = self.loans@[j];
                    a.id == b.id && a.borrower@ == b.borrower@ && a.amount == b.amount && a.repaid == b.repaid
                        && a.status == b.status && a.created_at_ns == b.created_at_ns
                },
            decreases self.loans@.len() - i,
        {
            loans.push(self.loans[i].duplicate());
            i = i + 1;
        }
        (users, loans)
    }

    /// A ledger rebuilt from a snapshot. The loan table is refused with
    /// `InvalidArgument` unless loan `i` has id `i`, counting from 1, a
    /// positive amount, and a status that agrees with what was repaid.
    pub fn restore(users: Vec<Actor>, loans: Vec<Loan>) -> (r: Result<Ledger, Error>)
        ensures
            r is Ok <==> forall|i: int| 0 <= i < loans@.len() ==> (#[trigger] loans@[i]).id == i + 1
                && loan_ok(loans@[i]),
            r is Err ==> r == Err::<Ledger, Error>(Error::InvalidArgument),
            r matches Ok(l) ==> {
                &&& l.wf()
                &&& l.loan_seq() == loans@
                &&& l.next_id() == loans@.len() + 1
                &&& forall|k: Seq<u8>| #[trigger] l.registered().contains(k) <==> exists|i: int|
                    0 <= i < users@.len() && users@[i]@ == k
            },
    {
        let mut i: usize = 0;
        while i < loans.len()
            invariant
                0 <= i <= loans@.len(),
                forall|j: int| 0 <= j < i ==> (#[trigger] loans@[j]).id == j + 1 && loan_ok(loans@[j]),
            decreases loans@.len() - i,
        {
            let l = &loans[i];
            let ok = l.id == (i as u128) + 1 && l.amount > 0 && ((l.status == LoanStatus::Active) == (l.repaid < l.amount));
            if !ok {
                return Err(Error::InvalidArgument);
            }
            i = i + 1;
        }
        let mut set = ActorSet::new();
        let mut k: usize = 0;
        while k < users.len()
            invariant
                set.wf(),
                0 <= k <= users@.len(),
                forall|x: Seq<u8>| #[trigger] set@.contains(x) <==> exists|j: int| 0 <= j < k && users@[j]@ == x,
            decreases users@.len() - k,
        {
            set.insert(&users[k]);
            proof {
                assert forall|x: Seq<u8>| #[trigger] set@.contains(x) implies exists|j: int|
                    0 <= j < k + 1 && users@[j]@ == x by {
                    if x != users@[k as int]@ {
                        let j = choose|j: int| 0 <= j < k && users@[j]@ == x;
                        assert(users@[j]@ == x);
                    }
                }
                assert forall|x: Seq<u8>| (exists|j: int| 0 <= j < k + 1 && users@[j]@ == x) implies #[trigger] set@.contains(x) by {
                    let j = choose|j: int| 0 <= j < k + 1 && users@[j]@ == x;
                    if j < k {
                        assert(exists|j2: int| 0 <= j2 < k && users@[j2]@ == x);
                    }
                }
            }
            k = k + 1;
        }
        let n = loans.len();
        Ok(Ledger { users: set, loans, next_loan_id: (n as u128) + 1 })
    }

    /// How many loans were ever opened.
    pub fn loan_count(&self) -> (r: usize)
        ensures
            r == self.loan_seq().len(),
    {
        self.loans.len()
    }

    /// The id the next approved loan will get.
    pub fn next_loan_id(&self) -> (r: u128)
        ensures
            r == self.next_id(),
    {
        self.next_loan_id
    }

    pub fn is_registered(&self, who: &Actor) -> (r: bool)
        requires
            self.wf(),
        ensures
            r == self.registered().contains(who@),
    {
        self.users.contains(who)
    }

    /// Registers `who` as a borrower; registering again changes nothing.
    pub fn register(&mut self, who: &Actor)
        requires
            old(self).wf(),
        ensures
            final(self).wf(),
            final(self).registered() == old(self).registered().insert(who@),
            final(self).loan_seq() == old(self).loan_seq(),
            final(self).next_id() == old(self).next_id(),
    {
        self.users.insert(who);
    }

    /// The checks that come before any remote call: a positive amount, then
    /// a registered borrower.
    pub fn check_request(&self, who: &Actor, amount: u128) -> (r: Result<(), Error>)
        requires
            self.wf(),
        ensures
            r == (if amount == 0 {
                Err(Error::InvalidArgument)
            } else if !self.registered().contains(who@) {
                Err(Error::Unauthorized)
            } else {
                Ok::<(), Error>(())
            }),
    {
        if amount == 0 {
            return Err(Error::InvalidArgument);
        }
        if !self.users.contains(who) {
            return Err(Error::Unauthorized);
        }
        Ok(())
    }

    /// Settles a loan request once the oracle has answered (`reply`), or
    /// failed to (`None`). The checks of `check_request` are made again; an
    /// approval opens a new active loan in one step, with the next id.
    pub fn request_loan(&mut self, who: &Actor, amount: u128, reply: Option<Recommendation>, now: u64)
        -> (r: Result<LoanDecision, Error>)
        requires
            old(self).wf(),
        ensures
            final(self).wf(),
            final(self).registered() == old(self).registered(),
            amount == 0 ==> r == Err::<LoanDecision, Error>(Error::InvalidArgument),
            amount > 0 && !old(self).registered().contains(who@) ==> r == Err::<LoanDecision, Error>(
                Error::Unauthorized,
            ),
            amount > 0 && old(self).registered().contains(who@) && reply is None ==> r == Err::<
                LoanDecision,
                Error,
            >(Error::DependencyFailure),
            r is Ok <==> amount > 0 && old(self).registered().contains(who@) && reply is Some,
            r is Err ==> final(self).loan_seq() == old(self).loan_seq() && final(self).next_id()
                == old(self).next_id(),
            r matches Ok(d) ==> {
                let rec = reply->Some_0;
                &&& d.decision == rec.decision
                &&& d.score == rec.score
                &&& d.reasons@ == rec.reasons@
                &&& rec.decision == Decision::Approve ==> {
                    &&& d.loan_id == Some(old(self).next_id())
                    &&& final(self).next_id() == old(self).next_id() + 1
                    &&& final(self).loan_seq().len() == old(self).loan_seq().len() + 1
                    &&& final(self).loan_seq().drop_last() == old(self).loan_seq()
                    &&& final(self).loan_seq().last().id == old(self).next_id()
                    &&& final(self).loan_seq().last().borrower@ == who@
                    &&& final(self).loan_seq().last().amount == amount
                    &&& final(self).loan_seq().last().repaid == 0
                    &&& final(self).loan_seq().last().status == LoanStatus::Active
                    &&& final(self).loan_seq().last().created_at_ns == now
                }
                &&& rec.decision != Decision::Approve ==> {
                    &&& d.loan_id.is_none()
                    &&& final(self).loan_seq() == old(self).loan_seq()
                    &&& final(self).next_id() == old(self).next_id()
                }
            },
    {
        self.check_request(who, amount)?;
        let rec = match reply {
            Some(rec) => rec,
            None => {
                return Err(Error::DependencyFailure);
            },
        };
        let loan_id = if rec.decision == Decision::Approve {
            let id = self.next_loan_id;
            self.loans.push(
                Loan {
                    id,
                    borrower: who.duplicate(),
                    amount,
                    repaid: 0,
                    status: LoanStatus::Active,
                    created_at_ns: now,
                },
            );
            let count = self.loans.len();
            assert(id + 1 == count + 1);
            self.next_loan_id = id + 1;
            proof {
                assert(self.loans@.drop_last() =~= old(self).loans@);
            }
            Some(id)
        } else {
            None
        };
        Ok(LoanDecision { loan_id, decision: rec.decision, score: rec.score, reasons: rec.reasons })
    }

    /// The whole request with the oracle run in-process: the two remote reads
    /// fail open to zero, `oracle` scores the borrower, and an approval opens
    /// the loan.
    pub fn request_loan_local(
        &mut self,
        oracle: &Config,
        who: &Actor,
        amount: u128,
        level: Option<u64>,
        collateral: Option<u128>,
        now: u64,
    ) -> (r: Result<LoanDecision, Error>)
        requires
            old(self).wf(),
        ensures
            final(self).wf(),
            final(self).registered() == old(self).registered(),
            r == Err::<LoanDecision, Error>(Error::InvalidArgument) <==> amount == 0,
            r == Err::<LoanDecision, Error>(Error::Unauthorized) <==> amount > 0 && !old(self).registered().contains(
                who@,
            ),
            r is Ok <==> amount > 0 && old(self).registered().contains(who@),
            r is Err ==> final(self).loan_seq() == old(self).loan_seq() && final(self).next_id()
                == old(self).next_id(),
            r matches Ok(d) ==> {
                let decision = decision_of(*oracle, or_zero_u128(collateral), or_zero_u64(level));
                &&& d.decision == decision
                &&& d.score == score_of(*oracle, or_zero_u128(collateral), or_zero_u64(level))
                &&& d.reasons@.len() == 2
                &&& (d.loan_id is Some <==> decision == Decision::Approve)
                &&& decision == Decision::Approve ==> d.loan_id == Some(old(self).next_id())
                    && final(self).loan_seq().len() == old(self).loan_seq().len() + 1
                    && final(self).loan_seq().drop_last() == old(self).loan_seq()
                    && final(self).loan_seq().last().borrower@ == who@
                    && final(self).loan_seq().last().amount == amount
                    && final(self).loan_seq().last().repaid == 0
                    && final(self).loan_seq().last().status == LoanStatus::Active
                &&& decision != Decision::Approve ==> final(self).loan_seq() == old(self).loan_seq()
                    && final(self).next_id() == old(self).next_id()
            },
    {
        self.check_request(who, amount)?;
        let (lv, col) = fail_open(level, collateral);
        let rec = oracle.recommend(who, col, lv);
        self.request_loan(who, amount, Some(rec), now)
    }

    /// Applies a payment of `amount` by `who` to loan `loan_id`. The total
    /// repaid saturates; once it reaches the amount the loan is `Repaid`, and a
    /// repaid loan takes no more payments.
    pub fn repay(&mut self, who: &Actor, loan_id: u128, amount: u128) -> (r: Result<RepayResult, Error>)
        requires
            old(self).wf(),
        ensures
            final(self).wf(),
            final(self).registered() == old(self).registered(),
            final(self).next_id() == old(self).next_id(),
            final(self).loan_seq().len() == old(self).loan_seq().len(),
            forall|i: int| 0 <= i < old(self).loan_seq().len() ==> (#[trigger] final(self).loan_seq()[i]).repaid
                >= old(self).loan_seq()[i].repaid,
            r matches Err(e) ==> repay_refusal(old(self).loan_seq(), who@, loan_id, amount) == Some(e)
                && final(self).loan_seq() == old(self).loan_seq(),
            r matches Ok(res) ==> {
                let i = loan_id - 1;
                let l = paid(old(self).loan_seq()[i], amount);
                &&& repay_refusal(old(self).loan_seq(), who@, loan_id, amount) is None
                &&& final(self).loan_seq() == old(self).loan_seq().update(i, l)
                &&& res.repaid == l.repaid
                &&& res.remaining == remaining_of(l)
                &&& res.status == l.status
            },
    {
        if amount == 0 {
            return Err(Error::InvalidArgument);
        }
        let n = self.loans.len();
        if loan_id == 0 || loan_id > n as u128 {
            return Err(Error::NotFound);
        }
        let idx = (loan_id - 1) as usize;
        if !self.loans[idx].borrower.same(who) {
            return Err(Error::Unauthorized);
        }
        if self.loans[idx].status != LoanStatus::Active {
            return Err(Error::InvalidState);
        }
        let owed = self.loans[idx].amount;
        let total = self.loans[idx].repaid.saturating_add(amount);
        let status = if total >= owed { LoanStatus::Repaid } else { LoanStatus::Active };
        self.loans[idx].repaid = total;
        self.loans[idx].status = status;
        let remaining = if total >= owed { 0 } else { owed - total };
        proof {
            assert(self.loans@ =~= old(self).loans@.update(idx as int, paid(old(self).loans@[idx as int], amount)));
        }
        Ok(RepayResult { repaid: total, remaining, status })
    }

    /// Everything known of `who`: registration, the level and collateral read
    /// from the remote stores (zero where a read failed), their loans in
    /// ascending id order, and what they still owe over their active loans,
    /// held at the largest value.
    pub fn get_summary(&self, who: &Actor, level: Option<u64>, collateral: Option<u128>) -> (r: Summary)
        requires
            self.wf(),
        ensures
            r.registered == self.registered().contains(who@),
            r.level == or_zero_u64(level),
            r.collateral == or_zero_u128(collateral),
            r.loans@ == infos_of(self.loan_seq(), who@),
            forall|i: int, j: int| 0 <= i < j < r.loans@.len() ==> r.loans@[i].id < r.loans@[j].id,
            r.outstanding == held_at_max(outstanding_of(self.loan_seq(), who@)),
    {
        let (lv, col) = fail_open(level, collateral);
        let registered = self.users.contains(who);
        let mut infos: Vec<LoanInfo> = Vec::new();
        let mut total: u128 = 0;
        let mut i: usize = 0;
        while i < self.loans.len()
            invariant
                self.wf(),
                0 <= i <= self.loans@.len(),
                infos@ == infos_of(self.loans@.subrange(0, i as int), who@),
                total == held_at_max(outstanding_of(self.loans@.subrange(0, i as int), who@)),
            decreases self.loans@.len() - i,
        {
            let ghost before = self.loans@.subrange(0, i as int);
            let l = &self.loans[i];
            proof {
                let after = self.loans@.subrange(0, i + 1);
                assert(after.drop_last() =~= before);
                assert(after.last() == *l);
                assert(outstanding_of(before, who@) >= 0) by {
                    lemma_outstanding_nonneg(before, who@);
                }
            }
            if l.borrower.same(who) {
                infos.push(LoanInfo { id: l.id, amount: l.amount, status: l.status });
                if l.status == LoanStatus::Active {
                    let owed = if l.repaid >= l.amount { 0 } else { l.amount - l.repaid };
                    total = total.saturating_add(owed);
                }
            }
            i = i + 1;
        }
        proof {
            assert(self.loans@.subrange(0, self.loans@.len() as int) =~= self.loans@);
            lemma_infos_ascending(self.loans@, who@);
        }
        Summary { registered, level: lv, collateral: col, outstanding: total, loans: infos }
    }
}

proof fn lemma_infos_ascending(loans: Seq<Loan>, who: Seq<u8>)
    requires
        forall|i: int| 0 <= i < loans.len() ==> (#[trigger] loans[i]).id == i + 1,
    ensures
        forall|i: int| 0 <= i < infos_of(loans, who).len() ==> #[trigger] infos_of(loans, who)[i].id
            <= loans.len(),
        forall|i: int, j: int|
            0 <= i < j < infos_of(loans, who).len() ==> infos_of(loans, who)[i].id < infos_of(loans, who)[j].id,
    decreases loans.len(),
{
    if loans.len() > 0 {
        let rest = loans.drop_last();
        assert forall|i: int| 0 <= i < rest.len() implies (#[trigger] rest[i]).id == i + 1 by {
            assert(rest[i] == loans[i]);
        }
        lemma_infos_ascending(rest, who);
    }
}

proof fn lemma_outstanding_nonneg(loans: Seq<Loan>, who: Seq<u8>)
    ensures
        outstanding_of(loans, who) >= 0,
    decreases loans.len(),
{
    if loans.len() > 0 {
        lemma_outstanding_nonneg(loans.drop_last(), who);
    }
}

/// A payment that brings the total repaid up to the amount leaves the loan
/// `Repaid`, and any later payment on it by its borrower is refused with
/// `InvalidState`; the total repaid never goes down.
pub proof fn lemma_repaid_is_final(loans: Seq<Loan>, who: Seq<u8>, id: u128, amount: u128, later: u128)
    requires
        repay_refusal(loans, who, id, amount) is None,
        later > 0,
    ensures
        ({
            let l = paid(loans[id - 1], amount);
            let after = loans.update(id - 1, l);
            &&& l.repaid >= loans[id - 1].repaid
            &&& l.repaid >= l.amount ==> l.status == LoanStatus::Repaid
                && repay_refusal(after, who, id, later) == Some(Error::InvalidState)
        }),
{
}

/// A request whose vault read failed is scored as having no collateral: while
/// a collateral threshold is set it is never approved, so `request_loan_local`
/// opens no loan, and it is sent to review when the trust level alone meets
/// the trust threshold.
pub proof fn lemma_vault_failure_never_approved(oracle: Config, level: Option<u64>)
    requires
        oracle.min_collateral > 0,
    ensures
        decision_of(oracle, or_zero_u128(None), or_zero_u64(level)) != Decision::Approve,
        capped(or_zero_u64(level), oracle.trust_cap) >= oracle.min_trust ==> decision_of(
            oracle,
            or_zero_u128(None),
            or_zero_u64(level),
        ) == Decision::Review,
{
    lemma_no_collateral_never_approved(oracle, or_zero_u64(level));
}

} // verus!
