//! The object model: versioned objects with an identity, an ownership tag
//! and a data payload. Contracts speak about objects through the
//! mathematical `ObjectView` model.

use rand::Rng;
use vstd::prelude::*;
use vstd::string::StringExecFns;

use crate::strutil::{dec_digits, u64_to_dec};

verus! {

/// Unique identifier for any on-chain object.
#[derive(Debug, PartialEq, Eq, Hash)]
pub struct ObjectID(pub String);

impl View for ObjectID {
    type V = Seq<char>;

    open spec fn view(&self) -> Seq<char> {
        self.0@
    }
}

impl DeepView for ObjectID {
    type V = Seq<char>;

    open spec fn deep_view(&self) -> Seq<char> {
        self.0@
    }
}

impl Clone for ObjectID {
    fn clone(&self) -> (r: Self)
        ensures
            r@ == self@,
    {
        ObjectID(self.0.clone())
    }
}

impl ObjectID {
    pub fn new(id: String) -> (r: Self)
        ensures
            r@ == id@,
    {
        ObjectID(id)
    }

    /// Relies on `rand::thread_rng` and `rand::Rng::gen` for a fresh
    /// identifier; nothing is promised of the drawn value.
    #[verifier::external_body]
    pub fn random() -> ObjectID {
        ObjectID(format!("obj-{:x}", rand::thread_rng().gen::<u128>()))
    }
}

/// Ownership tag of an object.
#[derive(Debug, PartialEq, Eq)]
pub enum Owner {
    Address(String),
    Shared,
    Immutable,
}

pub enum OwnerView {
    Address(Seq<char>),
    Shared,
    Immutable,
}

impl View for Owner {
    type V = OwnerView;

    open spec fn view(&self) -> OwnerView {
        match self {
            Owner::Address(a) => OwnerView::Address(a@),
            Owner::Shared => OwnerView::Shared,
            Owner::Immutable => OwnerView::Immutable,
        }
    }
}

impl Clone for Owner {
    fn clone(&self) -> (r: Self)
        ensures
            r@ == self@,
    {
        match self {
            Owner::Address(a) => Owner::Address(a.clone()),
            Owner::Shared => Owner::Shared,
            Owner::Immutable => Owner::Immutable,
        }
    }
}

/// Payload variants: a fungible balance, a bundle of module names, or typed
/// structured data whose schema-free value is carried as opaque text.
#[derive(Debug, PartialEq)]
pub enum ObjectData {
    Coin { balance: u64 },
    Package { modules: Vec<String> },
    MoveStruct { type_tag: String, fields: String },
}

pub enum ObjectDataView {
    Coin { balance: u64 },
    Package { modules: Seq<Seq<char>> },
    MoveStruct { type_tag: Seq<char>, fields: Seq<char> },
}

impl View for ObjectData {
    type V = ObjectDataView;

    open spec fn view(&self) -> ObjectDataView {
        match self {
            ObjectData::Coin { balance } => ObjectDataView::Coin { balance: *balance },
            ObjectData::Package { modules } => ObjectDataView::Package {
                modules: modules.deep_view(),
            },
            ObjectData::MoveStruct { type_tag, fields } => ObjectDataView::MoveStruct {
                type_tag: type_tag@,
                fields: fields@,
            },
        }
    }
}

impl Clone for ObjectData {
    fn clone(&self) -> (r: Self)
        ensures
            r@ == self@,
    {
        match self {
            ObjectData::Coin { balance } => ObjectData::Coin { balance: *balance },
            ObjectData::Package { modules } => ObjectData::Package {
                modules: crate::strutil::clone_string_vec(modules),
            },
            ObjectData::MoveStruct { type_tag, fields } => ObjectData::MoveStruct {
                type_tag: type_tag.clone(),
                fields: fields.clone(),
            },
        }
    }
}

/// The mathematical value of a `SuiObject`.
pub struct ObjectView {
    pub id: Seq<char>,
    pub version: u64,
    pub owner: OwnerView,
    pub data: ObjectDataView,
}

#[derive(Debug, PartialEq)]
pub struct SuiObject {
    pub id: ObjectID,
    pub version: u64,
    pub owner: Owner,
    pub data: ObjectData,
}

impl View for SuiObject {
    type V = ObjectView;

    open spec fn view(&self) -> ObjectView {
        ObjectView { id: self.id@, version: self.version, owner: self.owner@, data: self.data@ }
    }
}

impl DeepView for SuiObject {
    type V = ObjectView;

    open spec fn deep_view(&self) -> ObjectView {
        self@
    }
}

impl Clone for SuiObject {
    fn clone(&self) -> (r: Self)
        ensures
            r@ == self@,
    {
        SuiObject {
            id: self.id.clone(),
            version: self.version,
            owner: self.owner.clone(),
            data: self.data.clone(),
        }
    }
}

/// The string a lock table indexes an object by: its identity joined with
/// its current version.
pub open spec fn lock_key_of(id: Seq<char>, version: u64) -> Seq<char> {
    id + "::v"@ + dec_digits(version as nat)
}

impl SuiObject {
    /// A fresh object always starts at version 1.
    pub fn new(id: ObjectID, owner: Owner, data: ObjectData) -> (r: Self)
        ensures
            r@ == (ObjectView { id: id@, version: 1, owner: owner@, data: data@ }),
    {
        SuiObject { id, version: 1, owner, data }
    }

    pub fn lock_key(&self) -> (r: String)
        ensures
            r@ == lock_key_of(self.id@, self.version),
    {
        let mut key = self.id.0.clone();
        key.append("::v");
        let digits = u64_to_dec(self.version);
        key.append(digits.as_str());
        proof {
            assert(key@ =~= lock_key_of(self.id@, self.version));
        }
        key
    }

    pub fn is_shared(&self) -> (r: bool)
        ensures
            r == (self@.owner is Shared),
    {
        match self.owner {
            Owner::Shared => true,
            _ => false,
        }
    }
}

} // verus!
