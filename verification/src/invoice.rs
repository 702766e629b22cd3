use vstd::prelude::*;

verus! {

/// One invoice's identifier, as the upstream lists it.
pub struct InvoiceID {
    pub id: String,
}

/// The identifiers of a page of invoices.
pub struct InvoiceIDs {
    pub inner: Vec<InvoiceID>,
}

} // verus!
