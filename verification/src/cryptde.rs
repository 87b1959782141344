//! Keys, opaque blobs and the cipher interface every node carries.

use vstd::prelude::*;
use vstd::slice::slice_to_vec;
use crate::wire::{decoded, from_bytes, lemma_decoded_wire, to_bytes, Wire};

verus! {

/// Compares two byte strings.
pub fn same_bytes(a: &[u8], b: &[u8]) -> (same: bool)
    ensures
        same == (a@ == b@),
{
    if a.len() != b.len() {
        return false;
    }
    let mut i: usize = 0;
    while i < a.len()
        invariant
            a@.len() == b@.len(),
            i <= a@.len(),
            forall|j: int| 0 <= j < i ==> a@[j] == b@[j],
        decreases a@.len() - i,
    {
        if a[i] != b[i] {
            return false;
        }
        i += 1;
    }
    assert(a@ =~= b@);
    true
}

/// The public identity of a node. The empty key marks the end of a route.
#[derive(Debug, PartialEq, Eq)]
pub struct PublicKey {
    pub data: Vec<u8>,
}

impl View for PublicKey {
    type V = Seq<u8>;

    open spec fn view(&self) -> Seq<u8> {
        self.data@
    }
}

impl Clone for PublicKey {
    fn clone(&self) -> (copy: Self)
        ensures
            copy@ == self@,
    {
        PublicKey { data: slice_to_vec(self.data.as_slice()) }
    }
}

impl PublicKey {
    pub fn new(data: &[u8]) -> (key: PublicKey)
        ensures
            key@ == data@,
    {
        PublicKey { data: slice_to_vec(data) }
    }

    pub fn as_slice(&self) -> (bytes: &[u8])
        ensures
            bytes@ == self@,
    {
        self.data.as_slice()
    }

    pub fn len(&self) -> (n: usize)
        ensures
            n == self@.len(),
    {
        self.data.len()
    }

    pub fn is_empty(&self) -> (empty: bool)
        ensures
            empty == (self@.len() == 0),
    {
        self.data.len() == 0
    }

    /// Two values are equal exactly when their bytes are.
    pub fn equals(&self, other: &PublicKey) -> (same: bool)
        ensures
            same == (self@ == other@),
    {
        same_bytes(self.data.as_slice(), other.data.as_slice())
    }
}

/// The secret half of a node's identity.
#[derive(Debug, PartialEq, Eq)]
pub struct PrivateKey {
    pub data: Vec<u8>,
}

impl View for PrivateKey {
    type V = Seq<u8>;

    open spec fn view(&self) -> Seq<u8> {
        self.data@
    }
}

impl Clone for PrivateKey {
    fn clone(&self) -> (copy: Self)
        ensures
            copy@ == self@,
    {
        PrivateKey { data: slice_to_vec(self.data.as_slice()) }
    }
}

impl PrivateKey {
    pub fn new(data: &[u8]) -> (key: PrivateKey)
        ensures
            key@ == data@,
    {
        PrivateKey { data: slice_to_vec(data) }
    }

    pub fn as_slice(&self) -> (bytes: &[u8])
        ensures
            bytes@ == self@,
    {
        self.data.as_slice()
    }

    pub fn len(&self) -> (n: usize)
        ensures
            n == self@.len(),
    {
        self.data.len()
    }

    pub fn is_empty(&self) -> (empty: bool)
        ensures
            empty == (self@.len() == 0),
    {
        self.data.len() == 0
    }

    /// Two values are equal exactly when their bytes are.
    pub fn equals(&self, other: &PrivateKey) -> (same: bool)
        ensures
            same == (self@ == other@),
    {
        same_bytes(self.data.as_slice(), other.data.as_slice())
    }
}

/// An opaque blob: ciphertext, or the padding that stands in for it.
#[derive(Debug, PartialEq, Eq)]
pub struct CryptData {
    pub data: Vec<u8>,
}

impl View for CryptData {
    type V = Seq<u8>;

    open spec fn view(&self) -> Seq<u8> {
        self.data@
    }
}

impl Clone for CryptData {
    fn clone(&self) -> (copy: Self)
        ensures
            copy@ == self@,
    {
        CryptData { data: slice_to_vec(self.data.as_slice()) }
    }
}

impl CryptData {
    pub fn new(data: &[u8]) -> (blob: CryptData)
        ensures
            blob@ == data@,
    {
        CryptData { data: slice_to_vec(data) }
    }

    pub fn as_slice(&self) -> (bytes: &[u8])
        ensures
            bytes@ == self@,
    {
        self.data.as_slice()
    }

    pub fn len(&self) -> (n: usize)
        ensures
            n == self@.len(),
    {
        self.data.len()
    }

    pub fn is_empty(&self) -> (empty: bool)
        ensures
            empty == (self@.len() == 0),
    {
        self.data.len() == 0
    }

    /// Two values are equal exactly when their bytes are.
    pub fn equals(&self, other: &CryptData) -> (same: bool)
        ensures
            same == (self@ == other@),
    {
        same_bytes(self.data.as_slice(), other.data.as_slice())
    }
}

/// Cleartext on its way into or out of a cipher.
#[derive(Debug, PartialEq, Eq)]
pub struct PlainData {
    pub data: Vec<u8>,
}

impl View for PlainData {
    type V = Seq<u8>;

    open spec fn view(&self) -> Seq<u8> {
        self.data@
    }
}

impl Clone for PlainData {
    fn clone(&self) -> (copy: Self)
        ensures
            copy@ == self@,
    {
        PlainData { data: slice_to_vec(self.data.as_slice()) }
    }
}

impl PlainData {
    pub fn new(data: &[u8]) -> (plain: PlainData)
        ensures
            plain@ == data@,
    {
        PlainData { data: slice_to_vec(data) }
    }

    pub fn as_slice(&self) -> (bytes: &[u8])
        ensures
            bytes@ == self@,
    {
        self.data.as_slice()
    }

    pub fn len(&self) -> (n: usize)
        ensures
            n == self@.len(),
    {
        self.data.len()
    }

    pub fn is_empty(&self) -> (empty: bool)
        ensures
            empty == (self@.len() == 0),
    {
        self.data.len() == 0
    }

    /// Two values are equal exactly when their bytes are.
    pub fn equals(&self, other: &PlainData) -> (same: bool)
        ensures
            same == (self@ == other@),
    {
        same_bytes(self.data.as_slice(), other.data.as_slice())
    }
}

/// Why a cipher refused to work.
#[derive(Debug, Clone, Copy, PartialEq, Eq, Structural)]
pub enum CryptdecError {
    /// The key handed in has no bytes.
    EmptyKey,
    /// There was nothing to encrypt or decrypt.
    EmptyData,
    /// The cleartext does not hold a value of the expected shape.
    SerializationError,
    /// Anything else a cipher may object to, such as data sealed for another key.
    OtherError,
}

impl CryptdecError {
    /// The name of this error as it appears in messages.
    pub open spec fn name_spec(self) -> Seq<char> {
        match self {
            CryptdecError::EmptyKey => "EmptyKey"@,
            CryptdecError::EmptyData => "EmptyData"@,
            CryptdecError::SerializationError => "SerializationError"@,
            CryptdecError::OtherError => "OtherError"@,
        }
    }

    pub fn name(self) -> (name: &'static str)
        ensures
            name@ == self.name_spec(),
    {
        match self {
            CryptdecError::EmptyKey => "EmptyKey",
            CryptdecError::EmptyData => "EmptyData",
            CryptdecError::SerializationError => "SerializationError",
            CryptdecError::OtherError => "OtherError",
        }
    }
}

/// What sealing `data` yields, seen as bytes.
pub open spec fn sealed_view(r: Result<CryptData, CryptdecError>) -> Result<
    Seq<u8>,
    CryptdecError,
> {
    match r {
        Ok(c) => Ok(c@),
        Err(e) => Err(e),
    }
}

/// What opening a blob yields, seen as bytes.
pub open spec fn opened_view(r: Result<PlainData, CryptdecError>) -> Result<
    Seq<u8>,
    CryptdecError,
> {
    match r {
        Ok(p) => Ok(p@),
        Err(e) => Err(e),
    }
}

/// A cipher suite together with one node's key pair.
///
/// Sealing depends on the recipient's public key alone, so every node of a
/// network that shares the suite produces the same blob for the same key and
/// cleartext. Opening uses the private key of the node that holds the value.
pub trait CryptDE {
    /// The public key of this node.
    spec fn public_key_view(&self) -> Seq<u8>;

    /// What sealing `data` for the holder of `key` gives.
    spec fn encoded(key: Seq<u8>, data: Seq<u8>) -> Result<Seq<u8>, CryptdecError>;

    /// What this node makes of the blob `data`.
    spec fn decoded(&self, data: Seq<u8>) -> Result<Seq<u8>, CryptdecError>;

    /// Seals `data` for the holder of `public_key`.
    fn encode(&self, public_key: &PublicKey, data: &PlainData) -> (r: Result<
        CryptData,
        CryptdecError,
    >)
        ensures
            sealed_view(r) == Self::encoded(public_key@, data@),
    ;

    /// Opens a blob sealed for this node.
    fn decode(&self, data: &CryptData) -> (r: Result<PlainData, CryptdecError>)
        ensures
            opened_view(r) == self.decoded(data@),
    ;

    /// This node's public key.
    fn public_key(&self) -> (key: PublicKey)
        ensures
            key@ == self.public_key_view(),
    ;

    /// Sealing for the empty key fails, which is how the end of a route is
    /// noticed; with a key, sealing nothing fails too.
    proof fn encoded_needs_key_and_data(key: Seq<u8>, data: Seq<u8>)
        ensures
            key.len() == 0 ==> Self::encoded(key, data) == Err::<Seq<u8>, CryptdecError>(
                CryptdecError::EmptyKey,
            ),
            key.len() > 0 && data.len() == 0 ==> Self::encoded(key, data) == Err::<
                Seq<u8>,
                CryptdecError,
            >(CryptdecError::EmptyData),
    ;

    /// A node opens whatever was sealed for its own public key.
    proof fn decoded_opens_encoded(&self, data: Seq<u8>)
        requires
            Self::encoded(self.public_key_view(), data) is Ok,
        ensures
            self.decoded(Self::encoded(self.public_key_view(), data)->Ok_0) == Ok::<
                Seq<u8>,
                CryptdecError,
            >(data),
    ;
}

/// What sealing the bytes of `item` for the holder of `key` gives.
pub open spec fn encodex_spec<C: CryptDE, T: Wire>(key: Seq<u8>, item: T::V) -> Result<
    Seq<u8>,
    CryptdecError,
> {
    C::encoded(key, T::wire(item))
}

/// The value that `cryptde` finds in the blob `data`: it opens the blob and
/// reads the cleartext, which must stand for one value and nothing more.
pub open spec fn decodex_spec<C: CryptDE, T: Wire>(cryptde: &C, data: Seq<u8>) -> Result<
    T::V,
    CryptdecError,
> {
    match cryptde.decoded(data) {
        Ok(plain) => match decoded::<T>(plain) {
            Some(v) => Ok(v),
            None => Err(CryptdecError::SerializationError),
        },
        Err(e) => Err(e),
    }
}

/// What reading a value out of a blob yields, seen through the value's view.
pub open spec fn decodex_view<T: Wire>(r: Result<T, CryptdecError>) -> Result<T::V, CryptdecError> {
    match r {
        Ok(v) => Ok(v@),
        Err(e) => Err(e),
    }
}

/// Writes `item` as bytes and seals them for the holder of `public_key`.
pub fn encodex<C: CryptDE, T: Wire>(cryptde: &C, public_key: &PublicKey, item: &T) -> (r: Result<
    CryptData,
    CryptdecError,
>)
    ensures
        sealed_view(r) == encodex_spec::<C, T>(public_key@, item@),
        T::fits(item@),
{
    let plain = PlainData { data: to_bytes(item) };
    cryptde.encode(public_key, &plain)
}

/// Opens `data` and reads the value it holds.
pub fn decodex<C: CryptDE, T: Wire>(cryptde: &C, data: &CryptData) -> (r: Result<T, CryptdecError>)
    ensures
        decodex_view(r) == decodex_spec::<C, T>(cryptde, data@),
{
    match cryptde.decode(data) {
        Ok(plain) => match from_bytes::<T>(plain.as_slice()) {
            Some(v) => Ok(v),
            None => Err(CryptdecError::SerializationError),
        },
        Err(e) => Err(e),
    }
}

/// The node a value was sealed for reads the same value back.
pub proof fn lemma_decodex_encodex<C: CryptDE, T: Wire>(cryptde: &C, item: T::V)
    requires
        T::fits(item),
        encodex_spec::<C, T>(cryptde.public_key_view(), item) is Ok,
    ensures
        decodex_spec::<C, T>(
            cryptde,
            encodex_spec::<C, T>(cryptde.public_key_view(), item)->Ok_0,
        ) == Ok::<T::V, CryptdecError>(item),
{
    cryptde.decoded_opens_encoded(T::wire(item));
    lemma_decoded_wire::<T>(item);
}

} // verus!
