//! Financial entities: income transactions and expense vouchers, with the
//! per-entity rules the sync reconciler applies when a client copy of a
//! record reaches the server.
//!
//! Dates are epoch day numbers, times of day are seconds since midnight,
//! and timestamps are unix milliseconds; monetary amounts carry a decimal
//! mantissa and scale.

use vstd::prelude::*;

use crate::store::Keyed;
use crate::sync::SyncEntity;
use crate::text::str_eq;

verus! {

#[derive(Clone, Copy, Debug, PartialEq, Eq, Structural)]
pub enum TransactionCategory {
    Tithe,
    Offertory,
    Thanksgiving,
    Donation,
    Fundraising,
    MassOffering,
    WeddingFee,
    BaptismFee,
    FuneralFee,
    CertificateFee,
    RentIncome,
    InvestmentIncome,
    OtherIncome,
    SalaryExpense,
    UtilitiesExpense,
    MaintenanceExpense,
    SuppliesExpense,
    DiocesanLevy,
    CharityExpense,
    ConstructionExpense,
    OtherExpense,
}

#[derive(Clone, Copy, Debug, PartialEq, Eq, Structural)]
pub enum PaymentMethod {
    Cash,
    Cheque,
    BankTransfer,
    Mpesa,
    TigoPesa,
    AirtelMoney,
    Halopesa,
    CreditCard,
    Other,
}

#[derive(Clone, Copy, Debug, PartialEq, Eq, Structural)]
pub enum ApprovalStatus {
    Pending,
    Approved,
    Rejected,
    Cancelled,
}

/// An exact decimal amount: `mantissa * 10^(-scale)`.
#[derive(Clone, Copy, Debug, PartialEq, Eq, Structural)]
pub struct DecimalValue {
    pub mantissa: i128,
    pub scale: u32,
}

/// The category a wire name denotes, if any.
pub open spec fn spec_category_from_name(s: Seq<char>) -> Option<TransactionCategory> {
    if s == "TITHE"@ {
        Some(TransactionCategory::Tithe)
    } else if s == "OFFERTORY"@ {
        Some(TransactionCategory::Offertory)
    } else if s == "THANKSGIVING"@ {
        Some(TransactionCategory::Thanksgiving)
    } else if s == "DONATION"@ {
        Some(TransactionCategory::Donation)
    } else if s == "FUNDRAISING"@ {
        Some(TransactionCategory::Fundraising)
    } else if s == "MASS_OFFERING"@ {
        Some(TransactionCategory::MassOffering)
    } else if s == "WEDDING_FEE"@ {
        Some(TransactionCategory::WeddingFee)
    } else if s == "BAPTISM_FEE"@ {
        Some(TransactionCategory::BaptismFee)
    } else if s == "FUNERAL_FEE"@ {
        Some(TransactionCategory::FuneralFee)
    } else if s == "CERTIFICATE_FEE"@ {
        Some(TransactionCategory::CertificateFee)
    } else if s == "RENT_INCOME"@ {
        Some(TransactionCategory::RentIncome)
    } else if s == "INVESTMENT_INCOME"@ {
        Some(TransactionCategory::InvestmentIncome)
    } else if s == "OTHER_INCOME"@ {
        Some(TransactionCategory::OtherIncome)
    } else if s == "SALARY_EXPENSE"@ {
        Some(TransactionCategory::SalaryExpense)
    } else if s == "UTILITIES_EXPENSE"@ {
        Some(TransactionCategory::UtilitiesExpense)
    } else if s == "MAINTENANCE_EXPENSE"@ {
        Some(TransactionCategory::MaintenanceExpense)
    } else if s == "SUPPLIES_EXPENSE"@ {
        Some(TransactionCategory::SuppliesExpense)
    } else if s == "DIOCESAN_LEVY"@ {
        Some(TransactionCategory::DiocesanLevy)
    } else if s == "CHARITY_EXPENSE"@ {
        Some(TransactionCategory::CharityExpense)
    } else if s == "CONSTRUCTION_EXPENSE"@ {
        Some(TransactionCategory::ConstructionExpense)
    } else if s == "OTHER_EXPENSE"@ {
        Some(TransactionCategory::OtherExpense)
    } else {
        None
    }
}

pub fn category_from_name(s: &str) -> (r: Option<TransactionCategory>)
    ensures
        r == spec_category_from_name(s@),
{
    if str_eq(s, "TITHE") {
        Some(TransactionCategory::Tithe)
    } else if str_eq(s, "OFFERTORY") {
        Some(TransactionCategory::Offertory)
    } else if str_eq(s, "THANKSGIVING") {
        Some(TransactionCategory::Thanksgiving)
    } else if str_eq(s, "DONATION") {
        Some(TransactionCategory::Donation)
    } else if str_eq(s, "FUNDRAISING") {
        Some(TransactionCategory::Fundraising)
    } else if str_eq(s, "MASS_OFFERING") {
        Some(TransactionCategory::MassOffering)
    } else if str_eq(s, "WEDDING_FEE") {
        Some(TransactionCategory::WeddingFee)
    } else if str_eq(s, "BAPTISM_FEE") {
        Some(TransactionCategory::BaptismFee)
    } else if str_eq(s, "FUNERAL_FEE") {
        Some(TransactionCategory::FuneralFee)
    } else if str_eq(s, "CERTIFICATE_FEE") {
        Some(TransactionCategory::CertificateFee)
    } else if str_eq(s, "RENT_INCOME") {
        Some(TransactionCategory::RentIncome)
    } else if str_eq(s, "INVESTMENT_INCOME") {
        Some(TransactionCategory::InvestmentIncome)
    } else if str_eq(s, "OTHER_INCOME") {
        Some(TransactionCategory::OtherIncome)
    } else if str_eq(s, "SALARY_EXPENSE") {
        Some(TransactionCategory::SalaryExpense)
    } else if str_eq(s, "UTILITIES_EXPENSE") {
        Some(TransactionCategory::UtilitiesExpense)
    } else if str_eq(s, "MAINTENANCE_EXPENSE") {
        Some(TransactionCategory::MaintenanceExpense)
    } else if str_eq(s, "SUPPLIES_EXPENSE") {
        Some(TransactionCategory::SuppliesExpense)
    } else if str_eq(s, "DIOCESAN_LEVY") {
        Some(TransactionCategory::DiocesanLevy)
    } else if str_eq(s, "CHARITY_EXPENSE") {
        Some(TransactionCategory::CharityExpense)
    } else if str_eq(s, "CONSTRUCTION_EXPENSE") {
        Some(TransactionCategory::ConstructionExpense)
    } else if str_eq(s, "OTHER_EXPENSE") {
        Some(TransactionCategory::OtherExpense)
    } else {
        None
    }
}

/// The payment method a wire name denotes, if any.
pub open spec fn spec_payment_from_name(s: Seq<char>) -> Option<PaymentMethod> {
    if s == "CASH"@ {
        Some(PaymentMethod::Cash)
    } else if s == "CHEQUE"@ {
        Some(PaymentMethod::Cheque)
    } else if s == "BANK_TRANSFER"@ {
        Some(PaymentMethod::BankTransfer)
    } else if s == "MPESA"@ {
        Some(PaymentMethod::Mpesa)
    } else if s == "TIGO_PESA"@ {
        Some(PaymentMethod::TigoPesa)
    } else if s == "AIRTEL_MONEY"@ {
        Some(PaymentMethod::AirtelMoney)
    } else if s == "HALOPESA"@ {
        Some(PaymentMethod::Halopesa)
    } else if s == "CREDIT_CARD"@ {
        Some(PaymentMethod::CreditCard)
    } else if s == "OTHER"@ {
        Some(PaymentMethod::Other)
    } else {
        None
    }
}

pub fn payment_from_name(s: &str) -> (r: Option<PaymentMethod>)
    ensures
        r == spec_payment_from_name(s@),
{
    if str_eq(s, "CASH") {
        Some(PaymentMethod::Cash)
    } else if str_eq(s, "CHEQUE") {
        Some(PaymentMethod::Cheque)
    } else if str_eq(s, "BANK_TRANSFER") {
        Some(PaymentMethod::BankTransfer)
    } else if str_eq(s, "MPESA") {
        Some(PaymentMethod::Mpesa)
    } else if str_eq(s, "TIGO_PESA") {
        Some(PaymentMethod::TigoPesa)
    } else if str_eq(s, "AIRTEL_MONEY") {
        Some(PaymentMethod::AirtelMoney)
    } else if str_eq(s, "HALOPESA") {
        Some(PaymentMethod::Halopesa)
    } else if str_eq(s, "CREDIT_CARD") {
        Some(PaymentMethod::CreditCard)
    } else if str_eq(s, "OTHER") {
        Some(PaymentMethod::Other)
    } else {
        None
    }
}

/// One income record. The soft-delete tombstone lives in the table, not
/// here.
pub struct IncomeTransaction {
    pub id: u128,
    pub parish_id: u128,
    pub member_id: Option<u128>,
    pub family_id: Option<u128>,
    pub transaction_number: String,
    pub category: TransactionCategory,
    pub amount: DecimalValue,
    pub payment_method: PaymentMethod,
    /// Epoch day number.
    pub transaction_date: i64,
    /// Seconds since midnight.
    pub transaction_time: Option<u32>,
    pub description: Option<String>,
    pub reference_number: Option<String>,
    pub received_by: Option<u128>,
    pub receipt_printed: Option<bool>,
    pub receipt_printed_at: Option<i64>,
    pub is_synced: Option<bool>,
    pub synced_at: Option<i64>,
    pub created_at: Option<i64>,
    pub updated_at: Option<i64>,
}

impl Keyed for IncomeTransaction {
    open spec fn key_spec(&self) -> u128 {
        self.id
    }

    fn key(&self) -> (k: u128) {
        self.id
    }
}

impl SyncEntity for IncomeTransaction {
    /// The row stored when a client-inserted copy is accepted: the server
    /// forces the sync mark, whatever the client sent.
    open spec fn received_spec(self, now: i64) -> Self {
        IncomeTransaction { is_synced: Some(true), synced_at: Some(now), ..self }
    }

    /// The row stored when a client update overwrites an existing row:
    /// every mutable column comes from the client copy (`updated_at`
    /// included), the creation stamp and the receipt stamp stay, and the
    /// sync mark is forced.
    open spec fn merged_spec(self, existing: Self, now: i64) -> Self {
        IncomeTransaction {
            created_at: existing.created_at,
            receipt_printed_at: existing.receipt_printed_at,
            is_synced: Some(true),
            synced_at: Some(now),
            ..self
        }
    }

    proof fn lemma_key_preserved(self, existing: Self, now: i64) {
    }

    proof fn lemma_merged_absorbs(self, other: Self, existing: Self, now1: i64, now2: i64) {
    }
}

impl IncomeTransaction {
    pub fn received(self, now: i64) -> (r: Self)
        ensures
            r == self.received_spec(now),
    {
        IncomeTransaction { is_synced: Some(true), synced_at: Some(now), ..self }
    }

    pub fn merged(self, existing: &Self, now: i64) -> (r: Self)
        ensures
            r == self.merged_spec(*existing, now),
    {
        IncomeTransaction {
            created_at: existing.created_at,
            receipt_printed_at: existing.receipt_printed_at,
            is_synced: Some(true),
            synced_at: Some(now),
            ..self
        }
    }
}

/// One expense record. The soft-delete tombstone lives in the table, not
/// here.
pub struct ExpenseVoucher {
    pub id: u128,
    pub parish_id: u128,
    pub voucher_number: String,
    pub category: TransactionCategory,
    pub amount: DecimalValue,
    pub payment_method: PaymentMethod,
    pub payee_name: String,
    pub payee_phone: Option<String>,
    /// Epoch day number.
    pub expense_date: i64,
    pub description: String,
    pub reference_number: Option<String>,
    pub approval_status: Option<ApprovalStatus>,
    pub requested_by: u128,
    pub approved_by: Option<u128>,
    pub approved_at: Option<i64>,
    pub rejection_reason: Option<String>,
    pub paid: Option<bool>,
    pub paid_at: Option<i64>,
    pub is_synced: Option<bool>,
    pub synced_at: Option<i64>,
    pub created_at: Option<i64>,
    pub updated_at: Option<i64>,
}

impl Keyed for ExpenseVoucher {
    open spec fn key_spec(&self) -> u128 {
        self.id
    }

    fn key(&self) -> (k: u128) {
        self.id
    }
}

impl SyncEntity for ExpenseVoucher {
    /// See `IncomeTransaction::received_spec`.
    open spec fn received_spec(self, now: i64) -> Self {
        ExpenseVoucher { is_synced: Some(true), synced_at: Some(now), ..self }
    }

    /// See `IncomeTransaction::merged_spec`.
    open spec fn merged_spec(self, existing: Self, now: i64) -> Self {
        ExpenseVoucher {
            created_at: existing.created_at,
            is_synced: Some(true),
            synced_at: Some(now),
            ..self
        }
    }

    proof fn lemma_key_preserved(self, existing: Self, now: i64) {
    }

    proof fn lemma_merged_absorbs(self, other: Self, existing: Self, now1: i64, now2: i64) {
    }
}

impl ExpenseVoucher {
    pub fn received(self, now: i64) -> (r: Self)
        ensures
            r == self.received_spec(now),
    {
        ExpenseVoucher { is_synced: Some(true), synced_at: Some(now), ..self }
    }

    pub fn merged(self, existing: &Self, now: i64) -> (r: Self)
        ensures
            r == self.merged_spec(*existing, now),
    {
        ExpenseVoucher {
            created_at: existing.created_at,
            is_synced: Some(true),
            synced_at: Some(now),
            ..self
        }
    }
}

} // verus!
