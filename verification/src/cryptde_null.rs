//! A cipher that hides nothing: a blob is the recipient's key followed by
//! the cleartext. It lets a whole network run in one process.

use vstd::prelude::*;
use crate::cryptde::{CryptDE, CryptData, CryptdecError, PlainData, PrivateKey, PublicKey};
use crate::wire::put_bytes;
use vstd::slice::slice_subrange;
use crate::cryptde::same_bytes;

verus! {

/// A node's key pair under the transparent cipher. The private key has the
/// same bytes as the public one, so only one of them is kept.
#[derive(Debug, PartialEq, Eq)]
pub struct CryptDENull {
    pub public_key: PublicKey,
}

impl Clone for CryptDENull {
    fn clone(&self) -> (copy: Self)
        ensures
            copy.public_key@ == self.public_key@,
    {
        CryptDENull { public_key: self.public_key.clone() }
    }
}

impl CryptDENull {
    /// What the node holding `private_key` makes of `data`.
    pub open spec fn opened_with(private_key: Seq<u8>, data: Seq<u8>) -> Result<
        Seq<u8>,
        CryptdecError,
    > {
        if private_key.len() == 0 {
            Err(CryptdecError::EmptyKey)
        } else if data.len() == 0 {
            Err(CryptdecError::EmptyData)
        } else if data.len() < private_key.len() || data.subrange(0, private_key.len() as int)
            != private_key {
            Err(CryptdecError::OtherError)
        } else {
            Ok(data.subrange(private_key.len() as int, data.len() as int))
        }
    }

    /// What sealing `data` for `key` gives.
    pub open spec fn sealed_for(key: Seq<u8>, data: Seq<u8>) -> Result<Seq<u8>, CryptdecError> {
        if key.len() == 0 {
            Err(CryptdecError::EmptyKey)
        } else if data.len() == 0 {
            Err(CryptdecError::EmptyData)
        } else {
            Ok(key + data)
        }
    }

    /// The key pair that belongs to `public_key`.
    pub fn from(public_key: &PublicKey) -> (cryptde: CryptDENull)
        ensures
            cryptde.public_key@ == public_key@,
    {
        CryptDENull { public_key: public_key.clone() }
    }

    /// This node's private key.
    pub fn private_key(&self) -> (key: PrivateKey)
        ensures
            key@ == self.public_key@,
    {
        PrivateKey::new(self.public_key.as_slice())
    }
}

impl CryptDE for CryptDENull {
    open spec fn public_key_view(&self) -> Seq<u8> {
        self.public_key@
    }

    open spec fn encoded(key: Seq<u8>, data: Seq<u8>) -> Result<Seq<u8>, CryptdecError> {
        Self::sealed_for(key, data)
    }

    open spec fn decoded(&self, data: Seq<u8>) -> Result<Seq<u8>, CryptdecError> {
        Self::opened_with(self.public_key@, data)
    }

    fn encode(&self, public_key: &PublicKey, data: &PlainData) -> (r: Result<
        CryptData,
        CryptdecError,
    >) {
        if public_key.is_empty() {
            Err(CryptdecError::EmptyKey)
        } else if data.is_empty() {
            Err(CryptdecError::EmptyData)
        } else {
            let mut out: Vec<u8> = Vec::new();
            put_bytes(&mut out, public_key.as_slice());
            put_bytes(&mut out, data.as_slice());
            assert(out@ =~= public_key@ + data@);
            Ok(CryptData { data: out })
        }
    }

    fn decode(&self, data: &CryptData) -> (r: Result<PlainData, CryptdecError>) {
        let key = self.public_key.as_slice();
        let bytes = data.as_slice();
        if key.len() == 0 {
            Err(CryptdecError::EmptyKey)
        } else if bytes.len() == 0 {
            Err(CryptdecError::EmptyData)
        } else if bytes.len() < key.len() {
            Err(CryptdecError::OtherError)
        } else if !same_bytes(slice_subrange(bytes, 0, key.len()), key) {
            Err(CryptdecError::OtherError)
        } else {
            Ok(PlainData::new(slice_subrange(bytes, key.len(), bytes.len())))
        }
    }

    fn public_key(&self) -> (key: PublicKey) {
        self.public_key.clone()
    }

    proof fn encoded_needs_key_and_data(key: Seq<u8>, data: Seq<u8>) {
    }

    proof fn decoded_opens_encoded(&self, data: Seq<u8>) {
        let key = self.public_key@;
        let sealed = key + data;
        assert(sealed.subrange(0, key.len() as int) =~= key);
        assert(sealed.subrange(key.len() as int, sealed.len() as int) =~= data);
    }
}

} // verus!
