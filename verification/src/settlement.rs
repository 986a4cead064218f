//! Settlement: the payment of a funded invoice, split between the investor
//! and the platform.

use vstd::prelude::*;
use crate::contract::{Books, QuickLendXContract};
use crate::errors::QuickLendXError;
use crate::investment::{investment_in, Investment, InvestmentStatus};
use crate::invoice::{lemma_invoice_found, lemma_update_steps, status_change_logged, steps_legally, InvoiceStatus};
use crate::profits::{checked_profit, investor_return, platform_fee, split_fits};
use crate::types::{Address, FundsMovement, Id};

verus! {

impl Books {
    /// Why the invoice `invoice_id` cannot be settled, or `None` where it
    /// can. The invoice must be funded, by a known investor, with an
    /// investment on record; the split of the payment must stay within
    /// `i128`; and both movements of funds must have gone through.
    pub open spec fn settlement_refusal(
        self,
        invoice_id: Id,
        payment_amount: i128,
        platform_fee_bps: i128,
        investor_paid: bool,
        platform_paid: bool,
    ) -> Option<QuickLendXError> {
        match self.invoices.get(invoice_id) {
            None => Some(QuickLendXError::InvoiceNotFound),
            Some(invoice) => if invoice.status != InvoiceStatus::Funded {
                Some(QuickLendXError::InvalidStatus)
            } else if invoice.investor.is_none() {
                Some(QuickLendXError::NotInvestor)
            } else {
                match investment_in(self.investments, invoice_id) {
                    None => Some(QuickLendXError::StorageKeyNotFound),
                    Some(investment) => if !split_fits(
                        investment.amount as int,
                        payment_amount as int,
                        platform_fee_bps as int,
                    ) {
                        Some(QuickLendXError::InvalidAmount)
                    } else if !investor_paid || !platform_paid {
                        Some(QuickLendXError::InsufficientFunds)
                    } else {
                        None
                    },
                }
            },
        }
    }

    /// Whether `after` is `self` with the invoice `invoice_id` settled: the
    /// invoice paid now, the investment in it completed, and the change of
    /// status recorded on behalf of the business.
    pub open spec fn settled(self, after: Books, invoice_id: Id) -> bool {
        let invoice = self.invoices.get(invoice_id).unwrap();
        let investment = investment_in(self.investments, invoice_id).unwrap();
        &&& after == Books {
            invoices: self.invoices.update(invoice.paid(self.now.timestamp)),
            investments: self.investments.update(
                Investment { status: InvestmentStatus::Completed, ..investment },
            ),
            audit: after.audit,
            ..self
        }
        &&& status_change_logged(self.audit, after.audit, self.now, invoice, invoice.business, InvoiceStatus::Paid)
        &&& steps_legally(self.invoices, after.invoices)
    }

    /// The two movements of funds that the settlement of the invoice
    /// `invoice_id` calls for: the investor's return, and the platform's
    /// fee, both from the business.
    pub open spec fn settlement_due(
        self,
        invoice_id: Id,
        payment_amount: i128,
        platform: Address,
        platform_fee_bps: i128,
    ) -> (FundsMovement, FundsMovement) {
        let invoice = self.invoices.get(invoice_id).unwrap();
        let investment = investment_in(self.investments, invoice_id).unwrap();
        (
            FundsMovement {
                from: invoice.business,
                to: invoice.investor.unwrap(),
                amount: investor_return(
                    investment.amount as int,
                    payment_amount as int,
                    platform_fee_bps as int,
                ) as i128,
            },
            FundsMovement {
                from: invoice.business,
                to: platform,
                amount: platform_fee(investment.amount as int, payment_amount as int, platform_fee_bps as int)
                    as i128,
            },
        )
    }
}

/// The two movements of funds that the settlement of an invoice calls for,
/// or why the invoice cannot be settled.
pub fn settlement_movements(
    contract: &QuickLendXContract,
    invoice_id: &Id,
    payment_amount: i128,
    platform: &Address,
    platform_fee_bps: i128,
) -> (outcome: Result<(FundsMovement, FundsMovement), QuickLendXError>)
    ensures
        match contract@.settlement_refusal(*invoice_id, payment_amount, platform_fee_bps, true, true) {
            Some(error) => outcome == Err::<(FundsMovement, FundsMovement), QuickLendXError>(error),
            None => outcome == Ok::<(FundsMovement, FundsMovement), QuickLendXError>(
                contract@.settlement_due(*invoice_id, payment_amount, *platform, platform_fee_bps),
            ),
        },
{
    let invoice = match contract.invoices.get_invoice(invoice_id) {
        Some(invoice) => invoice,
        None => {
            return Err(QuickLendXError::InvoiceNotFound);
        },
    };
    if invoice.status != InvoiceStatus::Funded {
        return Err(QuickLendXError::InvalidStatus);
    }
    let investor = match invoice.investor {
        Some(investor) => investor,
        None => {
            return Err(QuickLendXError::NotInvestor);
        },
    };
    let investment = match contract.investments.get_investment_by_invoice(invoice_id) {
        Some(investment) => investment,
        None => {
            return Err(QuickLendXError::StorageKeyNotFound);
        },
    };
    let (investor_return, platform_fee) = match checked_profit(
        investment.amount,
        payment_amount,
        platform_fee_bps,
    ) {
        Some(split) => split,
        None => {
            return Err(QuickLendXError::InvalidAmount);
        },
    };
    Ok(
        (
            FundsMovement { from: invoice.business, to: investor, amount: investor_return },
            FundsMovement { from: invoice.business, to: *platform, amount: platform_fee },
        ),
    )
}

/// Settles a funded invoice: marks it as paid now and the investment in it
/// as completed, and records the change of status. `investor_paid` and
/// `platform_paid` say whether the host moved the investor's return and the
/// platform's fee.
pub fn settle_invoice(
    contract: &mut QuickLendXContract,
    invoice_id: &Id,
    payment_amount: i128,
    platform: &Address,
    platform_fee_bps: i128,
    investor_paid: bool,
    platform_paid: bool,
) -> (outcome: Result<(), QuickLendXError>)
    requires
        old(contract).wf(),
        old(contract)@.has_room(),
    ensures
        final(contract).wf(),
        match old(contract)@.settlement_refusal(
            *invoice_id,
            payment_amount,
            platform_fee_bps,
            investor_paid,
            platform_paid,
        ) {
            Some(error) => outcome == Err::<(), QuickLendXError>(error) && final(contract)@ == old(contract)@,
            None => outcome.is_ok() && old(contract)@.settled(final(contract)@, *invoice_id),
        },
{
    match settlement_movements(contract, invoice_id, payment_amount, platform, platform_fee_bps) {
        Err(error) => {
            return Err(error);
        },
        Ok(_) => {},
    }
    if !investor_paid || !platform_paid {
        return Err(QuickLendXError::InsufficientFunds);
    }
    let mut invoice = match contract.invoices.get_invoice(invoice_id) {
        Some(invoice) => invoice,
        None => {
            return Err(QuickLendXError::InvoiceNotFound);
        },
    };
    let investment = match contract.investments.get_investment_by_invoice(invoice_id) {
        Some(investment) => investment,
        None => {
            return Err(QuickLendXError::StorageKeyNotFound);
        },
    };
    proof {
        lemma_invoice_found(contract.invoices@, *invoice_id);
    }
    let ledger = contract.ledger;
    let business = invoice.business;
    invoice.mark_as_paid(&mut contract.audit, ledger, business, ledger.timestamp);
    proof {
        contract.invoices.lemma_wf();
        lemma_update_steps(contract.invoices@, invoice@);
    }
    contract.invoices.update_invoice(&invoice);
    let mut updated_investment = investment;
    updated_investment.status = InvestmentStatus::Completed;
    contract.investments.update_investment(&updated_investment);
    Ok(())
}

} // verus!
