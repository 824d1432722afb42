use vstd::prelude::*;

use crate::text::{remove_apostrophes, trim, trimmed, without_char};

verus! {

/// An invoice as stored, with the row id the store gave it.
#[derive(Debug, Clone, PartialEq)]
pub struct DbInvoice {
    id: i32,
    pub sirname: String,
    pub name: String,
    pub number: String,
    pub total: String,
    pub date: String,
}

/// An invoice read from a document.
#[derive(Debug, PartialEq)]
pub struct Invoice {
    pub sirname: String,
    pub name: String,
    pub number: String,
    pub total: String,
    pub date: String,
}

pub struct InvoiceView {
    pub sirname: Seq<char>,
    pub name: Seq<char>,
    pub number: Seq<char>,
    pub total: Seq<char>,
    pub date: Seq<char>,
}

impl View for Invoice {
    type V = InvoiceView;

    open spec fn view(&self) -> InvoiceView {
        InvoiceView {
            sirname: self.sirname@,
            name: self.name@,
            number: self.number@,
            total: self.total@,
            date: self.date@,
        }
    }
}

/// The invoice made of the given raw fields: each is trimmed of white space,
/// and the total also loses its apostrophes (thousands separators).
pub open spec fn invoice_of(
    sirname: Seq<char>,
    name: Seq<char>,
    date: Seq<char>,
    number: Seq<char>,
    total: Seq<char>,
) -> InvoiceView {
    InvoiceView {
        sirname: trimmed(sirname),
        name: trimmed(name),
        number: trimmed(number),
        total: without_char(trimmed(total), '\''),
        date: trimmed(date),
    }
}

impl Invoice {
    pub fn new(sirname: &str, name: &str, date: &str, number: &str, total: &str) -> (r: Invoice)
        ensures
            r@ == invoice_of(sirname@, name@, date@, number@, total@),
    {
        let trimmed_total = trim(total);
        Invoice {
            sirname: trim(sirname),
            name: trim(name),
            date: trim(date),
            number: trim(number),
            total: remove_apostrophes(trimmed_total.as_str()),
        }
    }
}

/// A payment as stored, with the row id the store gave it.
#[derive(Debug)]
pub struct DbPayment {
    id: i32,
    date: String,
    number: String,
    unused: String,
    subject: String,
    invoice_number: String,
    amount: String,
}

/// A payment read from one line of a payments export.
#[derive(Debug, PartialEq)]
pub struct Payment {
    date: String,
    number: String,
    unused: String,
    subject: String,
    invoice_number: String,
    amount: String,
}

pub struct PaymentView {
    pub date: Seq<char>,
    pub number: Seq<char>,
    pub unused: Seq<char>,
    pub subject: Seq<char>,
    pub invoice_number: Seq<char>,
    pub amount: Seq<char>,
}

impl View for Payment {
    type V = PaymentView;

    closed spec fn view(&self) -> PaymentView {
        PaymentView {
            date: self.date@,
            number: self.number@,
            unused: self.unused@,
            subject: self.subject@,
            invoice_number: self.invoice_number@,
            amount: self.amount@,
        }
    }
}

impl Payment {
    /// The payment with the given fields, kept as they are.
    pub fn new(
        date: &str,
        number: &str,
        unused: &str,
        subject: &str,
        invoice_number: &str,
        amount: &str,
    ) -> (r: Payment)
        ensures
            r@ == (PaymentView {
                date: date@,
                number: number@,
                unused: unused@,
                subject: subject@,
                invoice_number: invoice_number@,
                amount: amount@,
            }),
    {
        Payment {
            date: String::from_str(date),
            number: String::from_str(number),
            unused: String::from_str(unused),
            subject: String::from_str(subject),
            invoice_number: String::from_str(invoice_number),
            amount: String::from_str(amount),
        }
    }
}

} // verus!
