//! Transactions: a signer, an instruction kind with a gas budget, and an
//! opaque signature. Signature verification is out of scope, so signatures
//! are carried but never interpreted.

use rand::Rng;
use vstd::prelude::*;

use crate::object::ObjectID;
use crate::strutil::clone_string_vec;

verus! {

/// The instruction a transaction carries: a plain object transfer or a
/// module call.
#[derive(Debug)]
pub enum TransactionKind {
    Transfer { object: ObjectID, recipient: String },
    Call { package: ObjectID, module: String, function: String, arguments: Vec<String> },
}

pub enum TransactionKindView {
    Transfer { object: Seq<char>, recipient: Seq<char> },
    Call {
        package: Seq<char>,
        module: Seq<char>,
        function: Seq<char>,
        arguments: Seq<Seq<char>>,
    },
}

impl View for TransactionKind {
    type V = TransactionKindView;

    open spec fn view(&self) -> TransactionKindView {
        match self {
            TransactionKind::Transfer { object, recipient } => TransactionKindView::Transfer {
                object: object@,
                recipient: recipient@,
            },
            TransactionKind::Call { package, module, function, arguments } => {
                TransactionKindView::Call {
                    package: package@,
                    module: module@,
                    function: function@,
                    arguments: arguments.deep_view(),
                }
            },
        }
    }
}

impl Clone for TransactionKind {
    fn clone(&self) -> (r: Self)
        ensures
            r@ == self@,
    {
        match self {
            TransactionKind::Transfer { object, recipient } => TransactionKind::Transfer {
                object: object.clone(),
                recipient: recipient.clone(),
            },
            TransactionKind::Call { package, module, function, arguments } => {
                TransactionKind::Call {
                    package: package.clone(),
                    module: module.clone(),
                    function: function.clone(),
                    arguments: clone_string_vec(arguments),
                }
            },
        }
    }
}

#[derive(Debug)]
pub struct TransactionPayload {
    pub kind: TransactionKind,
    pub gas_budget: u64,
}

pub struct TransactionPayloadView {
    pub kind: TransactionKindView,
    pub gas_budget: u64,
}

impl View for TransactionPayload {
    type V = TransactionPayloadView;

    open spec fn view(&self) -> TransactionPayloadView {
        TransactionPayloadView { kind: self.kind@, gas_budget: self.gas_budget }
    }
}

impl Clone for TransactionPayload {
    fn clone(&self) -> (r: Self)
        ensures
            r@ == self@,
    {
        TransactionPayload { kind: self.kind.clone(), gas_budget: self.gas_budget }
    }
}

#[derive(Debug)]
pub struct SignedTransaction {
    pub signer: String,
    pub payload: TransactionPayload,
    pub signature: String,
}

pub struct SignedTransactionView {
    pub signer: Seq<char>,
    pub payload: TransactionPayloadView,
    pub signature: Seq<char>,
}

impl View for SignedTransaction {
    type V = SignedTransactionView;

    open spec fn view(&self) -> SignedTransactionView {
        SignedTransactionView {
            signer: self.signer@,
            payload: self.payload@,
            signature: self.signature@,
        }
    }
}

impl Clone for SignedTransaction {
    fn clone(&self) -> (r: Self)
        ensures
            r@ == self@,
    {
        SignedTransaction {
            signer: self.signer.clone(),
            payload: self.payload.clone(),
            signature: self.signature.clone(),
        }
    }
}

/// Relies on `rand::thread_rng` and `rand::Rng::gen` for a mock signature;
/// nothing is promised of the drawn value.
#[verifier::external_body]
fn mock_signature() -> String {
    format!("mock-signature-{:x}", rand::thread_rng().gen::<u64>())
}

impl SignedTransaction {
    /// A transfer transaction with the default gas budget of 1000.
    pub fn new_transfer(sender: String, recipient: String, object: String) -> (r: Self)
        ensures
            r@.signer == sender@,
            r@.payload.kind == (TransactionKindView::Transfer {
                object: object@,
                recipient: recipient@,
            }),
            r@.payload.gas_budget == 1000,
    {
        let payload = TransactionPayload {
            kind: TransactionKind::Transfer { object: ObjectID(object), recipient },
            gas_budget: 1000,
        };
        Self::new(sender, payload)
    }

    /// Signs with a mock signature; the signature's content is opaque.
    pub fn new(sender: String, payload: TransactionPayload) -> (r: Self)
        ensures
            r@.signer == sender@,
            r@.payload == payload@,
    {
        let signature = mock_signature();
        SignedTransaction { signer: sender, payload, signature }
    }
}

#[derive(Debug)]
pub struct GasObject {
    pub id: ObjectID,
    pub balance: u64,
}

#[derive(Debug, PartialEq, Eq, Hash)]
pub struct TransactionDigest(pub String);

impl View for TransactionDigest {
    type V = Seq<char>;

    open spec fn view(&self) -> Seq<char> {
        self.0@
    }
}

impl Clone for TransactionDigest {
    fn clone(&self) -> (r: Self)
        ensures
            r@ == self@,
    {
        TransactionDigest(self.0.clone())
    }
}

impl TransactionDigest {
    /// Relies on `rand::thread_rng` and `rand::Rng::gen` for a fresh digest;
    /// nothing is promised of the drawn value.
    #[verifier::external_body]
    pub fn random() -> TransactionDigest {
        TransactionDigest(format!("tx-{:x}", rand::thread_rng().gen::<u128>()))
    }
}

/// Fabricates a signed transfer without real cryptography.
pub fn mock_signed_transfer(from: &str, to: &str, object_id: &str) -> (r: SignedTransaction)
    ensures
        r@.signer == from@,
        r@.payload.kind == (TransactionKindView::Transfer { object: object_id@, recipient: to@ }),
        r@.payload.gas_budget == 1000,
{
    SignedTransaction::new_transfer(from.to_owned(), to.to_owned(), object_id.to_owned())
}

} // verus!
