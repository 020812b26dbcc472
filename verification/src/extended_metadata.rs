use vstd::prelude::*;
use vstd::string::StrSliceExecFns;
use crate::error::Error;

verus! {

/// Whether the attested revenue is net or gross.
#[derive(Clone, Copy, Debug, PartialEq, Eq, Structural)]
pub enum RevenueBasis {
    Gross,
    Net,
}

/// What an attestation may say beyond its root: the currency and the basis
/// of the revenue.
#[derive(Debug)]
pub struct AttestationMetadata {
    /// A currency code such as `USD`: letters only, three at most.
    pub currency_code: String,
    /// Net or gross.
    pub basis: RevenueBasis,
}

/// What an [`AttestationMetadata`] holds.
pub struct AttestationMetadataView {
    pub currency_code: Seq<char>,
    pub basis: RevenueBasis,
}

impl View for AttestationMetadata {
    type V = AttestationMetadataView;

    open spec fn view(&self) -> AttestationMetadataView {
        AttestationMetadataView { currency_code: self.currency_code@, basis: self.basis }
    }
}

impl Clone for AttestationMetadata {
    fn clone(&self) -> (r: Self)
        ensures
            r == *self,
    {
        AttestationMetadata { currency_code: self.currency_code.clone(), basis: self.basis }
    }
}

/// What metadata that may be missing holds.
pub open spec fn metadata_view(m: Option<AttestationMetadata>) -> Option<AttestationMetadataView> {
    match m {
        Some(m) => Some(m@),
        None => None,
    }
}

/// A letter of the basic Latin alphabet.
pub open spec fn is_letter(c: char) -> bool {
    ('A' <= c && c <= 'Z') || ('a' <= c && c <= 'z')
}

/// A currency code that the ledger accepts: letters only, three at most.
pub open spec fn currency_code_ok(code: Seq<char>) -> bool {
    &&& code.len() <= 3
    &&& forall|i: int| 0 <= i < code.len() ==> is_letter(#[trigger] code[i])
}

/// The basis that the flag `is_net` stands for.
pub open spec fn basis_of(is_net: bool) -> RevenueBasis {
    if is_net {
        RevenueBasis::Net
    } else {
        RevenueBasis::Gross
    }
}

/// Whether `code` is a currency code that the ledger accepts.
pub fn check_currency_code(code: &str) -> (ok: bool)
    ensures
        ok == currency_code_ok(code@),
{
    let n: usize = code.unicode_len();
    if n > 3 {
        return false;
    }
    let mut i: usize = 0;
    while i < n
        invariant
            i <= n,
            n == code@.len(),
            forall|j: int| 0 <= j < i ==> is_letter(#[trigger] code@[j]),
        decreases n - i,
    {
        let c: char = code.get_char(i);
        if !(('A' <= c && c <= 'Z') || ('a' <= c && c <= 'z')) {
            return false;
        }
        i += 1;
    }
    true
}

/// Checks a currency code and builds the metadata record from it and the
/// net/gross flag. A code that is too long or holds anything but letters is
/// an `InvalidConfig`.
pub fn validate_metadata(currency_code: &str, is_net: bool) -> (r: Result<AttestationMetadata, Error>)
    ensures
        currency_code_ok(currency_code@) ==> r is Ok && r->Ok_0@ == (AttestationMetadataView {
            currency_code: currency_code@,
            basis: basis_of(is_net),
        }),
        !currency_code_ok(currency_code@) ==> r == Err::<AttestationMetadata, Error>(
            Error::InvalidConfig,
        ),
{
    if !check_currency_code(currency_code) {
        return Err(Error::InvalidConfig);
    }
    let basis = if is_net {
        RevenueBasis::Net
    } else {
        RevenueBasis::Gross
    };
    Ok(AttestationMetadata { currency_code: currency_code.to_owned(), basis })
}

} // verus!
