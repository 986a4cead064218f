//! Default: what happens to an invoice that is not paid, and to the
//! investment in it. No funds move.

use vstd::prelude::*;
use crate::contract::{Books, QuickLendXContract};
use crate::errors::QuickLendXError;
use crate::investment::{invested_in, investment_in, lemma_investment_replaced, Investment, InvestmentStatus};
use crate::invoice::{
    lemma_invoice_found, lemma_update, lemma_update_steps, status_change_logged, steps_legally, InvoiceStatus,
};
use crate::keys::lemma_first_index;
use crate::types::Id;

verus! {

impl Books {
    /// Why the invoice `invoice_id` cannot be defaulted, or `None` where it
    /// can: the invoice must be funded, with an investment on record.
    pub open spec fn default_refusal(self, invoice_id: Id) -> Option<QuickLendXError> {
        match self.invoices.get(invoice_id) {
            None => Some(QuickLendXError::InvoiceNotFound),
            Some(invoice) => if invoice.status != InvoiceStatus::Funded {
                Some(QuickLendXError::InvalidStatus)
            } else if investment_in(self.investments, invoice_id).is_none() {
                Some(QuickLendXError::StorageKeyNotFound)
            } else {
                None
            },
        }
    }

    /// Whether `after` is `self` with the invoice `invoice_id` defaulted:
    /// the invoice defaulted, the investment in it withdrawn, and the change
    /// of status recorded on behalf of the business.
    pub open spec fn defaulted(self, after: Books, invoice_id: Id) -> bool {
        let invoice = self.invoices.get(invoice_id).unwrap();
        let investment = investment_in(self.investments, invoice_id).unwrap();
        &&& after == Books {
            invoices: self.invoices.update(invoice.with_status(InvoiceStatus::Defaulted)),
            investments: self.investments.update(
                Investment { status: InvestmentStatus::Withdrawn, ..investment },
            ),
            audit: after.audit,
            ..self
        }
        &&& status_change_logged(
            self.audit,
            after.audit,
            self.now,
            invoice,
            invoice.business,
            InvoiceStatus::Defaulted,
        )
        &&& steps_legally(self.invoices, after.invoices)
        &&& after.invoices.get(invoice_id) matches Some(then) && then.status == InvoiceStatus::Defaulted
        &&& investment_in(after.investments, invoice_id) matches Some(then) && then.status
            == InvestmentStatus::Withdrawn
    }
}

/// Defaults a funded invoice: marks it as defaulted and the investment in it
/// as withdrawn, and records the change of status. An invoice that is not
/// funded is refused with `InvalidStatus`.
pub fn handle_default(contract: &mut QuickLendXContract, invoice_id: &Id) -> (outcome: Result<
    (),
    QuickLendXError,
>)
    requires
        old(contract).wf(),
        old(contract)@.has_room(),
    ensures
        final(contract).wf(),
        match old(contract)@.default_refusal(*invoice_id) {
            Some(error) => outcome == Err::<(), QuickLendXError>(error) && final(contract)@ == old(contract)@,
            None => outcome.is_ok() && old(contract)@.defaulted(final(contract)@, *invoice_id),
        },
{
    let mut invoice = match contract.invoices.get_invoice(invoice_id) {
        Some(invoice) => invoice,
        None => {
            return Err(QuickLendXError::InvoiceNotFound);
        },
    };
    if invoice.status != InvoiceStatus::Funded {
        return Err(QuickLendXError::InvalidStatus);
    }
    let mut investment = match contract.investments.get_investment_by_invoice(invoice_id) {
        Some(investment) => investment,
        None => {
            return Err(QuickLendXError::StorageKeyNotFound);
        },
    };
    proof {
        lemma_invoice_found(contract.invoices@, *invoice_id);
    }
    let ledger = contract.ledger;
    let business = invoice.business;
    invoice.mark_as_defaulted(&mut contract.audit, ledger, business);
    proof {
        contract.invoices.lemma_wf();
        lemma_update_steps(contract.invoices@, invoice@);
        lemma_update(contract.invoices@, invoice@);
        contract.investments.lemma_wf();
        lemma_first_index(
            contract.investments@.records,
            invested_in(*invoice_id),
        );
        lemma_investment_replaced(
            contract.investments@,
            *invoice_id,
            Investment { status: InvestmentStatus::Withdrawn, ..investment },
        );
    }
    contract.invoices.update_invoice(&invoice);
    investment.status = InvestmentStatus::Withdrawn;
    contract.investments.update_investment(&investment);
    Ok(())
}

} // verus!
