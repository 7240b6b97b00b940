//! The values that pass through the engine.
//!
//! A payload in clear or encrypted form is held as its canonical
//! bit-serialization, the string of bits that the hash and commitment
//! primitives consume. A record in clear form is held by its entries, of which
//! the engine reads the balance.
use crate::field::{Field, Group};
use vstd::prelude::*;

verus! {

/// The name of the entry that holds the balance of a record.
pub const BALANCE_FIELD: &'static str = "microcredits";

/// A name in a program: of a function, of a record entry.
#[derive(Clone, Debug, PartialEq, Eq)]
pub struct Identifier {
    pub name: String,
}

impl View for Identifier {
    type V = Seq<char>;

    open spec fn view(&self) -> Seq<char> {
        self.name@
    }
}

impl Identifier {
    /// Tells whether two identifiers spell the same name.
    pub fn same(&self, other: &Identifier) -> (r: bool)
        ensures
            r == (self@ == other@),
    {
        self.name == other.name
    }
}

/// A value in clear form, by its canonical bit-serialization.
#[derive(Clone, Debug, PartialEq, Eq)]
pub struct Plaintext {
    pub bits: Vec<bool>,
}

impl View for Plaintext {
    type V = Seq<bool>;

    open spec fn view(&self) -> Seq<bool> {
        self.bits@
    }
}

/// An encrypted value, by its canonical bit-serialization.
#[derive(Clone, Debug, PartialEq, Eq)]
pub struct Ciphertext {
    pub bits: Vec<bool>,
}

impl View for Ciphertext {
    type V = Seq<bool>;

    open spec fn view(&self) -> Seq<bool> {
        self.bits@
    }
}

/// A record in encrypted form: its nonce, which stays in the clear, and its
/// canonical bit-serialization.
#[derive(Clone, Debug, PartialEq, Eq)]
pub struct EncryptedRecord {
    pub nonce: Group,
    pub bits: Vec<bool>,
}

/// The mathematical model of an [`EncryptedRecord`].
pub struct EncryptedRecordView {
    pub nonce: Group,
    pub bits: Seq<bool>,
}

impl View for EncryptedRecord {
    type V = EncryptedRecordView;

    open spec fn view(&self) -> EncryptedRecordView {
        EncryptedRecordView { nonce: self.nonce, bits: self.bits@ }
    }
}

impl EncryptedRecord {
    /// The nonce of the record.
    pub fn nonce(&self) -> (r: &Group)
        ensures
            *r == self.nonce,
    {
        &self.nonce
    }

    /// Consumes the record and returns its nonce.
    pub fn into_nonce(self) -> (r: Group)
        ensures
            r == self.nonce,
    {
        self.nonce
    }
}

/// Who may see an entry of a record.
#[derive(Clone, Copy, Debug, PartialEq, Eq, Structural)]
pub enum Visibility {
    Constant,
    Public,
    Private,
}

/// An integer literal, of any of the integer types of a program.
#[derive(Clone, Copy, Debug, PartialEq, Eq, Structural)]
pub enum Integer {
    U8(u8),
    U16(u16),
    U32(u32),
    U64(u64),
    U128(u128),
    I8(i8),
    I16(i16),
    I32(i32),
    I64(i64),
    I128(i128),
}

impl Integer {
    /// The number that the literal stands for.
    pub open spec fn value(self) -> int {
        match self {
            Integer::U8(n) => n as int,
            Integer::U16(n) => n as int,
            Integer::U32(n) => n as int,
            Integer::U64(n) => n as int,
            Integer::U128(n) => n as int,
            Integer::I8(n) => n as int,
            Integer::I16(n) => n as int,
            Integer::I32(n) => n as int,
            Integer::I64(n) => n as int,
            Integer::I128(n) => n as int,
        }
    }

    /// Tells whether the number is at least `amount`.
    pub fn covers(&self, amount: u64) -> (r: bool)
        ensures
            r == (self.value() >= amount),
    {
        match *self {
            Integer::U8(n) => n as u64 >= amount,
            Integer::U16(n) => n as u64 >= amount,
            Integer::U32(n) => n as u64 >= amount,
            Integer::U64(n) => n >= amount,
            Integer::U128(n) => n >= amount as u128,
            Integer::I8(n) => n >= 0 && n as u64 >= amount,
            Integer::I16(n) => n >= 0 && n as u64 >= amount,
            Integer::I32(n) => n >= 0 && n as u64 >= amount,
            Integer::I64(n) => n >= 0 && n as u64 >= amount,
            Integer::I128(n) => n >= 0 && n as u128 >= amount as u128,
        }
    }
}

/// What an entry of a record holds.
#[derive(Clone, Debug, PartialEq, Eq)]
pub enum EntryValue {
    /// An integer literal.
    Integer(Integer),
    /// Any other value: a boolean, an address, a struct.
    Other(Plaintext),
}

/// A named entry of a record.
#[derive(Clone, Debug, PartialEq, Eq)]
pub struct Entry {
    pub name: Identifier,
    pub visibility: Visibility,
    pub value: EntryValue,
}

/// A record in clear form: an owned, value-bearing unit of data.
#[derive(Clone, Debug, PartialEq, Eq)]
pub struct Record {
    pub owner: Field,
    pub entries: Vec<Entry>,
}

/// The declared type of an input or an output of a function.
#[derive(Clone, Copy, Debug, PartialEq, Eq, Structural)]
pub enum ValueType {
    Constant,
    Public,
    Private,
    Record,
}

/// A value on the stack of the evaluator: an input or an output of a call.
#[derive(Clone, Debug, PartialEq, Eq)]
pub enum Value {
    Plaintext(Plaintext),
    Record(Record),
}

impl Value {
    /// Tells whether the value has the shape of a record.
    pub fn is_record(&self) -> (r: bool)
        ensures
            r == (*self is Record),
    {
        match self {
            Value::Record(_) => true,
            Value::Plaintext(_) => false,
        }
    }
}

impl Record {
    /// Tells whether `index` is the position of the first entry called `name`.
    pub open spec fn is_first(entries: Seq<Entry>, index: int, name: Seq<char>) -> bool {
        &&& 0 <= index < entries.len()
        &&& entries[index].name@ == name
        &&& forall|j: int| 0 <= j < index ==> (#[trigger] entries[j]).name@ != name
    }

    /// Tells whether some entry is called `name`.
    pub open spec fn has_entry(entries: Seq<Entry>, name: Seq<char>) -> bool {
        exists|i: int| 0 <= i < entries.len() && (#[trigger] entries[i]).name@ == name
    }

    /// The balance that the entries hold: the number under the first entry
    /// called `microcredits`, if that entry holds an integer literal.
    pub open spec fn balance_of(entries: Seq<Entry>) -> Option<int> {
        if exists|i: int| Record::is_first(entries, i, BALANCE_FIELD@) {
            let i = choose|i: int| Record::is_first(entries, i, BALANCE_FIELD@);
            match entries[i].value {
                EntryValue::Integer(literal) => Some(literal.value()),
                EntryValue::Other(_) => None,
            }
        } else {
            None
        }
    }

    /// The first entry with the given name.
    pub fn find(&self, name: &Identifier) -> (r: Option<&Entry>)
        ensures
            r is Some <==> Record::has_entry(self.entries@, name@),
            r matches Some(entry) ==> exists|i: int|
                Record::is_first(self.entries@, i, name@) && *entry == self.entries@[i],
    {
        let mut i: usize = 0;
        while i < self.entries.len()
            invariant
                i <= self.entries@.len(),
                forall|j: int| 0 <= j < i ==> (#[trigger] self.entries@[j]).name@ != name@,
            decreases self.entries@.len() - i,
        {
            if self.entries[i].name.same(name) {
                assert(Record::is_first(self.entries@, i as int, name@));
                return Some(&self.entries[i]);
            }
            i = i + 1;
        }
        None
    }

    /// The balance of the record, if it holds one.
    pub fn balance(&self) -> (r: Option<Integer>)
        ensures
            match Record::balance_of(self.entries@) {
                Some(balance) => r matches Some(literal) && literal.value() == balance,
                None => r is None,
            },
    {
        let name = Identifier { name: BALANCE_FIELD.to_owned() };
        match self.find(&name) {
            Some(entry) => {
                proof {
                    Record::lemma_first_is_unique(self.entries@, name@);
                }
                match &entry.value {
                    EntryValue::Integer(literal) => Some(*literal),
                    EntryValue::Other(_) => None,
                }
            },
            None => None,
        }
    }

    /// At most one position is the first with a given name.
    pub proof fn lemma_first_is_unique(entries: Seq<Entry>, name: Seq<char>)
        ensures
            forall|i: int, j: int|
                Record::is_first(entries, i, name) && Record::is_first(entries, j, name) ==> i == j,
    {
    }
}

} // verus!
