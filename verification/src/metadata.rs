//! Descriptive token metadata, validated once at initialization and
//! immutable afterwards.

use vstd::prelude::*;

verus! {

/// The metadata blob handed to `Contract::new`. `spec_version` names the
/// metadata schema the blob follows and must read `ft-1.0.0`; `reference`
/// and `reference_hash` come together or not at all, and the hash of an
/// off-ledger reference document is always 32 bytes long.
pub struct TokenMetadata {
    pub spec_version: String,
    pub name: String,
    pub symbol: String,
    pub icon: Option<String>,
    pub reference: Option<String>,
    pub reference_hash: Option<Vec<u8>>,
    pub decimals: u8,
}

impl TokenMetadata {
    /// The validation rule applied at initialization.
    pub open spec fn valid(self) -> bool {
        &&& self.spec_version@ == "ft-1.0.0"@
        &&& (self.reference is Some <==> self.reference_hash is Some)
        &&& (self.reference_hash matches Some(h) ==> h@.len() == 32)
    }

    /// Checks the validation rule.
    pub fn is_valid(&self) -> (r: bool)
        ensures
            r == self.valid(),
    {
        let expected = "ft-1.0.0".to_owned();
        if !(self.spec_version == expected) {
            return false;
        }
        match (&self.reference, &self.reference_hash) {
            (Some(_), Some(h)) => h.len() == 32,
            (None, None) => true,
            _ => false,
        }
    }

    /// An observably identical copy, field by field.
    pub fn duplicate(&self) -> (r: TokenMetadata)
        ensures
            r.spec_version == self.spec_version,
            r.name == self.name,
            r.symbol == self.symbol,
            r.icon == self.icon,
            r.reference == self.reference,
            r.decimals == self.decimals,
            r.reference_hash is Some <==> self.reference_hash is Some,
            r.reference_hash matches Some(h) ==> (self.reference_hash matches Some(g)
                && h@ == g@),
            r.valid() == self.valid(),
    {
        TokenMetadata {
            spec_version: self.spec_version.clone(),
            name: self.name.clone(),
            symbol: self.symbol.clone(),
            icon: clone_opt_string(&self.icon),
            reference: clone_opt_string(&self.reference),
            reference_hash: clone_opt_bytes(&self.reference_hash),
            decimals: self.decimals,
        }
    }
}

fn clone_opt_string(o: &Option<String>) -> (r: Option<String>)
    ensures
        r == *o,
{
    match o {
        Some(s) => Some(s.clone()),
        None => None,
    }
}

fn clone_opt_bytes(o: &Option<Vec<u8>>) -> (r: Option<Vec<u8>>)
    ensures
        r is Some <==> *o is Some,
        r matches Some(h) ==> (*o matches Some(g) && h@ == g@),
{
    match o {
        Some(v) => {
            let mut c: Vec<u8> = Vec::new();
            let n = v.len();
            let mut i: usize = 0;
            while i < n
                invariant
                    n == v@.len(),
                    i <= n,
                    c@ =~= v@.subrange(0, i as int),
                decreases n - i,
            {
                c.push(v[i]);
                i += 1;
            }
            proof {
                assert(c@ =~= v@);
            }
            Some(c)
        },
        None => None,
    }
}

} // verus!
