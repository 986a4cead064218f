//! The verification of businesses: applications, their approval or
//! rejection by the admin, and what an invoice must satisfy to be uploaded.

use vstd::prelude::*;
use crate::errors::QuickLendXError;
use crate::keys::{
    first_index, lemma_first_index, lemma_first_index_is, lemma_first_index_none, lemma_first_index_push,
    lemma_push_contains, lemma_push_no_duplicates, lemma_without, without, Index, Key,
};
use crate::types::Address;

verus! {

/// Where the verification of a business stands.
#[derive(Clone, Copy, Debug, PartialEq, Eq, Hash, Structural)]
pub enum BusinessVerificationStatus {
    Pending,
    Verified,
    Rejected,
}

impl Key for BusinessVerificationStatus {
    fn same(&self, other: &Self) -> (equal: bool) {
        *self == *other
    }
}

/// The verification of a business.
#[derive(Debug, PartialEq, Eq)]
pub struct BusinessVerification {
    pub business: Address,
    pub status: BusinessVerificationStatus,
    pub verified_at: Option<u64>,
    pub verified_by: Option<Address>,
    /// What the business handed in, as it handed it in.
    pub kyc_data: String,
    pub submitted_at: u64,
    pub rejection_reason: Option<String>,
}

impl Clone for BusinessVerification {
    fn clone(&self) -> (copy: Self)
        ensures
            copy == *self,
    {
        BusinessVerification {
            business: self.business,
            status: self.status,
            verified_at: self.verified_at,
            verified_by: self.verified_by,
            kyc_data: self.kyc_data.clone(),
            submitted_at: self.submitted_at,
            rejection_reason: match &self.rejection_reason {
                Some(reason) => Some(reason.clone()),
                None => None,
            },
        }
    }
}

/// The verifications of the given business.
pub open spec fn of_business(business: Address) -> spec_fn(BusinessVerification) -> bool {
    |verification: BusinessVerification| verification.business == business
}

/// The verifications as a mathematical value: one record for each business
/// that applied, in the order of the first applications; the businesses of
/// each status, in the order in which they reached it; and the admin.
pub struct Registry {
    pub records: Seq<BusinessVerification>,
    pub verified: Seq<Address>,
    pub pending: Seq<Address>,
    pub rejected: Seq<Address>,
    pub admin: Option<Address>,
}

impl Registry {
    /// The registry without records and without an admin.
    pub open spec fn empty() -> Registry {
        Registry {
            records: Seq::empty(),
            verified: Seq::empty(),
            pending: Seq::empty(),
            rejected: Seq::empty(),
            admin: None,
        }
    }

    /// The businesses whose verification has the given status.
    pub open spec fn listed(self, status: BusinessVerificationStatus) -> Seq<Address> {
        match status {
            BusinessVerificationStatus::Verified => self.verified,
            BusinessVerificationStatus::Pending => self.pending,
            BusinessVerificationStatus::Rejected => self.rejected,
        }
    }

    /// The registry with the list of `status` replaced by `businesses`.
    pub open spec fn with_listed(self, status: BusinessVerificationStatus, businesses: Seq<Address>) -> Registry {
        match status {
            BusinessVerificationStatus::Verified => Registry { verified: businesses, ..self },
            BusinessVerificationStatus::Pending => Registry { pending: businesses, ..self },
            BusinessVerificationStatus::Rejected => Registry { rejected: businesses, ..self },
        }
    }

    /// Where the record of `business` stands, or -1.
    pub open spec fn position(self, business: Address) -> int {
        first_index(self.records, of_business(business))
    }

    /// The record of `business`.
    pub open spec fn get(self, business: Address) -> Option<BusinessVerification> {
        if self.position(business) >= 0 {
            Some(self.records[self.position(business)])
        } else {
            None
        }
    }

    /// The status of the verification of `business`.
    pub open spec fn status_of(self, business: Address) -> Option<BusinessVerificationStatus> {
        match self.get(business) {
            Some(verification) => Some(verification.status),
            None => None,
        }
    }

    /// No business has two records, and the list of each status holds, once
    /// each, exactly the businesses whose verification has that status.
    pub open spec fn wf(self) -> bool {
        &&& forall|i: int, j: int|
            0 <= i < self.records.len() && 0 <= j < self.records.len() && i != j
                ==> self.records[i].business != self.records[j].business
        &&& forall|status: BusinessVerificationStatus, business: Address|
            #![trigger self.listed(status).contains(business)]
            self.listed(status).contains(business) <==> self.status_of(business) == Some(status)
        &&& forall|status: BusinessVerificationStatus| (#[trigger] self.listed(status)).no_duplicates()
    }

    /// Whether `business` is verified.
    pub open spec fn is_verified(self, business: Address) -> bool {
        self.get(business) matches Some(verification) && verification.status
            == BusinessVerificationStatus::Verified
    }

    /// The registry after `verification` took the place of the record of
    /// its business, or was added where the business had none. The business
    /// is then at the end of the list of its status, unless it was in that
    /// list already, and in no other list.
    pub open spec fn put(self, verification: BusinessVerification) -> Registry {
        let at = self.position(verification.business);
        if at >= 0 {
            let old_status = self.records[at].status;
            let replaced = Registry { records: self.records.update(at, verification), ..self };
            if old_status == verification.status {
                replaced
            } else {
                replaced.with_listed(
                    old_status,
                    without(self.listed(old_status), verification.business),
                ).with_listed(
                    verification.status,
                    self.listed(verification.status).push(verification.business),
                )
            }
        } else {
            Registry { records: self.records.push(verification), ..self }.with_listed(
                verification.status,
                self.listed(verification.status).push(verification.business),
            )
        }
    }

    /// Why an application of `business` is refused, or `None` where it is
    /// accepted: a business can apply unless it has a pending application
    /// or is verified.
    pub open spec fn application_refusal(self, business: Address) -> Option<QuickLendXError> {
        match self.get(business) {
            Some(verification) => match verification.status {
                BusinessVerificationStatus::Pending => Some(QuickLendXError::KYCAlreadyPending),
                BusinessVerificationStatus::Verified => Some(QuickLendXError::KYCAlreadyVerified),
                BusinessVerificationStatus::Rejected => None,
            },
            None => None,
        }
    }

    /// Why `admin` cannot decide on the application of `business`, or `None`
    /// where it can: `admin` is the admin, and the business has a pending
    /// application.
    pub open spec fn decision_refusal(self, admin: Address, business: Address) -> Option<QuickLendXError> {
        if self.admin != Some(admin) {
            Some(QuickLendXError::NotAdmin)
        } else {
            match self.get(business) {
                None => Some(QuickLendXError::KYCNotFound),
                Some(verification) => if verification.status != BusinessVerificationStatus::Pending {
                    Some(QuickLendXError::InvalidKYCStatus)
                } else {
                    None
                },
            }
        }
    }
}

/// Putting a record keeps the registry well formed; the record is then found
/// under its business, and every other lookup gives what it gave.
pub proof fn lemma_put(registry: Registry, verification: BusinessVerification)
    requires
        registry.wf(),
    ensures
        registry.put(verification).wf(),
        registry.put(verification).get(verification.business) == Some(verification),
        registry.put(verification).admin == registry.admin,
        forall|other: Address|
            other != verification.business ==> #[trigger] registry.put(verification).get(other) == registry.get(
                other,
            ),
{
    let business = verification.business;
    let at = registry.position(business);
    let after = registry.put(verification);
    lemma_first_index(registry.records, of_business(business));
    if at >= 0 {
        let old_status = registry.records[at].status;
        assert(after.records =~= registry.records.update(at, verification));
        assert forall|other: Address| #[trigger] after.position(other) == registry.position(other) by {
            lemma_first_index(registry.records, of_business(other));
            let found = registry.position(other);
            if found >= 0 {
                assert(of_business(other)(after.records[found]));
                assert forall|i: int| 0 <= i < found implies !of_business(other)(#[trigger] after.records[i]) by {
                    assert(!of_business(other)(registry.records[i]));
                }
                lemma_first_index_is(after.records, of_business(other), found);
            } else {
                assert forall|i: int| 0 <= i < after.records.len() implies !of_business(other)(
                    #[trigger] after.records[i],
                ) by {
                    assert(!of_business(other)(registry.records[i]));
                }
                lemma_first_index_none(after.records, of_business(other));
            }
        }
        assert(after.position(business) == at);
        assert forall|other: Address| other != business implies #[trigger] after.get(other) == registry.get(
            other,
        ) by {
            assert(after.position(other) == registry.position(other));
            lemma_first_index(registry.records, of_business(other));
        }
        assert forall|status: BusinessVerificationStatus, other: Address|
            #![trigger after.listed(status).contains(other)]
            after.listed(status).contains(other) <==> after.status_of(other) == Some(status) by {
            assert(registry.listed(status).contains(other) <==> registry.status_of(other) == Some(status));
            assert(after.position(other) == registry.position(other));
            if other != business {
                assert(after.get(other) == registry.get(other));
            }
            if old_status != verification.status {
                lemma_without(registry.listed(old_status), business);
                lemma_push_contains(registry.listed(verification.status), business, other);
                assert(without(registry.listed(old_status), business).contains(other) <==> (other != business
                    && registry.listed(old_status).contains(other)));
            }
        }
        assert forall|status: BusinessVerificationStatus| (#[trigger] after.listed(status)).no_duplicates() by {
            assert(registry.listed(status).no_duplicates());
            if old_status != verification.status {
                lemma_without(registry.listed(old_status), business);
                assert(registry.listed(verification.status).contains(business) <==> registry.status_of(business)
                    == Some(verification.status));
                if status == verification.status {
                    lemma_push_no_duplicates(registry.listed(status), business);
                }
            }
        }
    } else {
        assert forall|i: int, j: int|
            0 <= i < after.records.len() && 0 <= j < after.records.len() && i != j implies after.records[i].business
            != after.records[j].business by {
            if i == registry.records.len() {
                assert(!of_business(business)(registry.records[j]));
            } else if j == registry.records.len() {
                assert(!of_business(business)(registry.records[i]));
            }
        }
        lemma_first_index_push(registry.records, verification, of_business(business));
        assert forall|other: Address| other != business implies #[trigger] after.get(other) == registry.get(
            other,
        ) by {
            lemma_first_index_push(registry.records, verification, of_business(other));
            lemma_first_index(registry.records, of_business(other));
        }
        assert(registry.status_of(business).is_none());
        assert forall|status: BusinessVerificationStatus, other: Address|
            #![trigger after.listed(status).contains(other)]
            after.listed(status).contains(other) <==> after.status_of(other) == Some(status) by {
            lemma_push_contains(registry.listed(verification.status), business, other);
            assert(registry.listed(status).contains(other) <==> registry.status_of(other) == Some(status));
            if other != business {
                assert(after.get(other) == registry.get(other));
            }
        }
        assert forall|status: BusinessVerificationStatus| (#[trigger] after.listed(status)).no_duplicates() by {
            assert(registry.listed(status).no_duplicates());
            if status == verification.status {
                assert(registry.listed(status).contains(business) <==> registry.status_of(business) == Some(
                    status,
                ));
                lemma_push_no_duplicates(registry.listed(status), business);
            }
        }
    }
}

/// The verifications of businesses, and the admin.
pub struct BusinessVerificationStorage {
    records: Vec<BusinessVerification>,
    by_status: Index<BusinessVerificationStatus, Address>,
    admin: Option<Address>,
}

impl View for BusinessVerificationStorage {
    type V = Registry;

    closed spec fn view(&self) -> Registry {
        Registry {
            records: self.records@,
            verified: self.by_status.list(BusinessVerificationStatus::Verified),
            pending: self.by_status.list(BusinessVerificationStatus::Pending),
            rejected: self.by_status.list(BusinessVerificationStatus::Rejected),
            admin: self.admin,
        }
    }
}

impl BusinessVerificationStorage {
    /// The invariant of the registry.
    pub closed spec fn wf(&self) -> bool {
        &&& self@.wf()
        &&& self.by_status.wf()
    }

    /// What `wf` says of the registry as a mathematical value.
    pub proof fn lemma_wf(&self)
        requires
            self.wf(),
        ensures
            self@.wf(),
    {
    }

    /// A registry without records and without an admin.
    pub fn new() -> (registry: Self)
        ensures
            registry.wf(),
            registry@ == Registry::empty(),
    {
        let registry = BusinessVerificationStorage { records: Vec::new(), by_status: Index::new(), admin: None };
        proof {
            assert forall|status: BusinessVerificationStatus, business: Address|
                #![trigger registry@.listed(status).contains(business)]
                !registry@.listed(status).contains(business) by {}
        }
        registry
    }

    fn add_to_status_list(&mut self, status: BusinessVerificationStatus, business: Address)
        requires
            old(self).by_status.wf(),
        ensures
            final(self).by_status.wf(),
            final(self).records == old(self).records,
            final(self)@ == old(self)@.with_listed(status, old(self)@.listed(status).push(business)),
    {
        self.by_status.add(status, business);
    }

    fn remove_from_status_list(&mut self, status: BusinessVerificationStatus, business: &Address)
        requires
            old(self).by_status.wf(),
        ensures
            final(self).by_status.wf(),
            final(self).records == old(self).records,
            final(self)@ == old(self)@.with_listed(status, without(old(self)@.listed(status), *business)),
    {
        self.by_status.remove(status, business);
    }

    fn find(&self, business: &Address) -> (at: Option<usize>)
        ensures
            match at {
                Some(at) => at < self.records.len() && at == self@.position(*business),
                None => self@.position(*business) == -1,
            },
    {
        let mut i: usize = 0;
        while i < self.records.len()
            invariant
                i <= self.records.len(),
                forall|j: int| 0 <= j < i ==> !of_business(*business)(#[trigger] self.records@[j]),
            decreases self.records.len() - i,
        {
            if self.records[i].business.same(business) {
                proof {
                    lemma_first_index_is(self.records@, of_business(*business), i as int);
                }
                return Some(i);
            }
            i += 1;
        }
        proof {
            lemma_first_index_none(self.records@, of_business(*business));
        }
        None
    }

    /// Stores `verification` as the record of its business, and lists the
    /// business under the status of `verification` and under no other.
    pub fn store_verification(&mut self, verification: &BusinessVerification)
        requires
            old(self).wf(),
        ensures
            final(self).wf(),
            final(self)@ == old(self)@.put(*verification),
    {
        proof {
            lemma_put(self@, *verification);
        }
        match self.find(&verification.business) {
            Some(at) => {
                let old_status = self.records[at].status;
                self.records.set(at, verification.clone());
                if old_status != verification.status {
                    self.remove_from_status_list(old_status, &verification.business);
                    self.add_to_status_list(verification.status, verification.business);
                }
            },
            None => {
                self.records.push(verification.clone());
                self.add_to_status_list(verification.status, verification.business);
            },
        }
    }

    /// The record of `business`.
    pub fn get_verification(&self, business: &Address) -> (verification: Option<BusinessVerification>)
        ensures
            verification == self@.get(*business),
    {
        match self.find(business) {
            Some(at) => Some(self.records[at].clone()),
            None => None,
        }
    }

    /// Replaces the record of the business of `verification`. The business
    /// thereby leaves the list of its old status and enters that of the new.
    pub fn update_verification(&mut self, verification: &BusinessVerification)
        requires
            old(self).wf(),
        ensures
            final(self).wf(),
            final(self)@ == old(self)@.put(*verification),
    {
        self.store_verification(verification);
    }

    /// Whether `business` is verified.
    pub fn is_business_verified(&self, business: &Address) -> (verified: bool)
        ensures
            verified == self@.is_verified(*business),
    {
        if let Some(verification) = self.get_verification(business) {
            verification.status == BusinessVerificationStatus::Verified
        } else {
            false
        }
    }

    /// The verified businesses, in the order in which they were verified.
    pub fn get_verified_businesses(&self) -> (businesses: Vec<Address>)
        requires
            self.wf(),
        ensures
            businesses@ == self@.verified,
    {
        self.by_status.get(&BusinessVerificationStatus::Verified)
    }

    /// The businesses whose application is pending, in the order in which
    /// they applied.
    pub fn get_pending_businesses(&self) -> (businesses: Vec<Address>)
        requires
            self.wf(),
        ensures
            businesses@ == self@.pending,
    {
        self.by_status.get(&BusinessVerificationStatus::Pending)
    }

    /// The rejected businesses, in the order in which they were rejected.
    pub fn get_rejected_businesses(&self) -> (businesses: Vec<Address>)
        requires
            self.wf(),
        ensures
            businesses@ == self@.rejected,
    {
        self.by_status.get(&BusinessVerificationStatus::Rejected)
    }

    /// Makes `admin` the admin.
    pub fn set_admin(&mut self, admin: &Address)
        ensures
            final(self)@ == (Registry { admin: Some(*admin), ..old(self)@ }),
            old(self).wf() ==> final(self).wf(),
    {
        self.admin = Some(*admin);
        proof {
            if old(self).wf() {
                assert forall|status: BusinessVerificationStatus, business: Address|
                    #![trigger self@.listed(status).contains(business)]
                    self@.listed(status).contains(business) <==> self@.status_of(business) == Some(status) by {
                    assert(old(self)@.listed(status).contains(business) <==> old(self)@.status_of(business)
                        == Some(status));
                }
                assert forall|status: BusinessVerificationStatus| (#[trigger] self@.listed(status)).no_duplicates() by {
                    assert(old(self)@.listed(status).no_duplicates());
                }
            }
        }
    }

    /// The admin.
    pub fn get_admin(&self) -> (admin: Option<Address>)
        ensures
            admin == self@.admin,
    {
        self.admin
    }

    /// Whether `address` is the admin.
    pub fn is_admin(&self, address: &Address) -> (admin: bool)
        ensures
            admin == (self@.admin == Some(*address)),
    {
        if let Some(admin) = self.admin {
            admin.same(address)
        } else {
            false
        }
    }
}

/// The record of an application of `business` handed in at `now`.
pub open spec fn application(business: Address, kyc_data: String, now: u64) -> BusinessVerification {
    BusinessVerification {
        business,
        status: BusinessVerificationStatus::Pending,
        verified_at: None,
        verified_by: None,
        kyc_data,
        submitted_at: now,
        rejection_reason: None,
    }
}

/// Takes the application of `business`. A business can apply unless it has
/// a pending application or is verified.
pub fn submit_kyc_application(
    registry: &mut BusinessVerificationStorage,
    now: u64,
    business: &Address,
    kyc_data: String,
) -> (outcome: Result<(), QuickLendXError>)
    requires
        old(registry).wf(),
    ensures
        final(registry).wf(),
        match old(registry)@.application_refusal(*business) {
            Some(error) => outcome == Err::<(), QuickLendXError>(error) && final(registry)@ == old(registry)@,
            None => outcome.is_ok() && final(registry)@ == old(registry)@.put(
                application(*business, kyc_data, now),
            ),
        },
{
    if let Some(existing_verification) = registry.get_verification(business) {
        match existing_verification.status {
            BusinessVerificationStatus::Pending => {
                return Err(QuickLendXError::KYCAlreadyPending);
            },
            BusinessVerificationStatus::Verified => {
                return Err(QuickLendXError::KYCAlreadyVerified);
            },
            BusinessVerificationStatus::Rejected => {},
        }
    }
    let verification = BusinessVerification {
        business: *business,
        status: BusinessVerificationStatus::Pending,
        verified_at: None,
        verified_by: None,
        kyc_data,
        submitted_at: now,
        rejection_reason: None,
    };
    registry.store_verification(&verification);
    Ok(())
}

/// Approves the pending application of `business`, on behalf of `admin`.
pub fn verify_business(registry: &mut BusinessVerificationStorage, now: u64, admin: &Address, business: &Address) -> (outcome:
    Result<(), QuickLendXError>)
    requires
        old(registry).wf(),
    ensures
        final(registry).wf(),
        match old(registry)@.decision_refusal(*admin, *business) {
            Some(error) => outcome == Err::<(), QuickLendXError>(error) && final(registry)@ == old(registry)@,
            None => outcome.is_ok() && final(registry)@ == old(registry)@.put(
                BusinessVerification {
                    status: BusinessVerificationStatus::Verified,
                    verified_at: Some(now),
                    verified_by: Some(*admin),
                    ..old(registry)@.get(*business).unwrap()
                },
            ),
        },
{
    if !registry.is_admin(admin) {
        return Err(QuickLendXError::NotAdmin);
    }
    let mut verification = match registry.get_verification(business) {
        Some(verification) => verification,
        None => {
            return Err(QuickLendXError::KYCNotFound);
        },
    };
    if verification.status != BusinessVerificationStatus::Pending {
        return Err(QuickLendXError::InvalidKYCStatus);
    }
    verification.status = BusinessVerificationStatus::Verified;
    verification.verified_at = Some(now);
    verification.verified_by = Some(*admin);
    registry.update_verification(&verification);
    Ok(())
}

/// Rejects the pending application of `business`, on behalf of `admin`, for
/// the given reason.
pub fn reject_business(
    registry: &mut BusinessVerificationStorage,
    admin: &Address,
    business: &Address,
    reason: String,
) -> (outcome: Result<(), QuickLendXError>)
    requires
        old(registry).wf(),
    ensures
        final(registry).wf(),
        match old(registry)@.decision_refusal(*admin, *business) {
            Some(error) => outcome == Err::<(), QuickLendXError>(error) && final(registry)@ == old(registry)@,
            None => outcome.is_ok() && final(registry)@ == old(registry)@.put(
                BusinessVerification {
                    status: BusinessVerificationStatus::Rejected,
                    rejection_reason: Some(reason),
                    ..old(registry)@.get(*business).unwrap()
                },
            ),
        },
{
    if !registry.is_admin(admin) {
        return Err(QuickLendXError::NotAdmin);
    }
    let mut verification = match registry.get_verification(business) {
        Some(verification) => verification,
        None => {
            return Err(QuickLendXError::KYCNotFound);
        },
    };
    if verification.status != BusinessVerificationStatus::Pending {
        return Err(QuickLendXError::InvalidKYCStatus);
    }
    verification.status = BusinessVerificationStatus::Rejected;
    verification.rejection_reason = Some(reason);
    registry.update_verification(&verification);
    Ok(())
}

/// The record of `business`.
pub fn get_business_verification_status(registry: &BusinessVerificationStorage, business: &Address) -> (verification:
    Option<BusinessVerification>)
    ensures
        verification == registry@.get(*business),
{
    registry.get_verification(business)
}

/// Refuses a business that is not verified.
pub fn require_business_verification(registry: &BusinessVerificationStorage, business: &Address) -> (outcome:
    Result<(), QuickLendXError>)
    ensures
        outcome == if registry@.is_verified(*business) {
            Ok::<(), QuickLendXError>(())
        } else {
            Err::<(), QuickLendXError>(QuickLendXError::BusinessNotVerified)
        },
{
    if !registry.is_business_verified(business) {
        return Err(QuickLendXError::BusinessNotVerified);
    }
    Ok(())
}

/// Why an invoice with these data is not taken at `now`, or `None` where it
/// is: the amount must be positive, the due date after `now`, and the
/// description not empty. The amount is looked at first, then the due date.
pub open spec fn invoice_data_refusal(now: u64, amount: i128, due_date: u64, description: Seq<char>) -> Option<
    QuickLendXError,
> {
    if amount <= 0 {
        Some(QuickLendXError::InvalidAmount)
    } else if due_date <= now {
        Some(QuickLendXError::InvoiceDueDateInvalid)
    } else if description.len() == 0 {
        Some(QuickLendXError::InvalidDescription)
    } else {
        None
    }
}

/// Checks the data of an invoice at `now`: the amount must be positive, the
/// due date after `now`, and the description not empty.
pub fn check_invoice_data(now: u64, amount: i128, due_date: u64, description: &String) -> (outcome: Result<
    (),
    QuickLendXError,
>)
    ensures
        outcome == match invoice_data_refusal(now, amount, due_date, description@) {
            Some(error) => Err::<(), QuickLendXError>(error),
            None => Ok::<(), QuickLendXError>(()),
        },
{
    if amount <= 0 {
        return Err(QuickLendXError::InvalidAmount);
    }
    if due_date <= now {
        return Err(QuickLendXError::InvoiceDueDateInvalid);
    }
    if description.as_str().is_empty() {
        return Err(QuickLendXError::InvalidDescription);
    }
    Ok(())
}

/// Checks that `business` is verified, and then the data of its invoice.
pub fn verify_invoice_data(
    registry: &BusinessVerificationStorage,
    now: u64,
    business: &Address,
    amount: i128,
    _currency: &Address,
    due_date: u64,
    description: &String,
) -> (outcome: Result<(), QuickLendXError>)
    ensures
        outcome == if !registry@.is_verified(*business) {
            Err::<(), QuickLendXError>(QuickLendXError::BusinessNotVerified)
        } else {
            match invoice_data_refusal(now, amount, due_date, description@) {
                Some(error) => Err::<(), QuickLendXError>(error),
                None => Ok::<(), QuickLendXError>(()),
            }
        },
{
    match require_business_verification(registry, business) {
        Err(error) => {
            return Err(error);
        },
        Ok(_) => {},
    }
    check_invoice_data(now, amount, due_date, description)
}

} // verus!
