//! Table file headers: what a header records about the data that follows it,
//! and the check that a file holds the data a reader expects.

use std::hash::{DefaultHasher, Hasher};
use std::marker::PhantomData;
use vstd::prelude::*;
use vstd::std_specs::hash::DefaultHasherAdditionalSpecFns;

verus! {

/// A type that a table file can hold: a plain value that is valid for any
/// bit pattern of its memory.
pub trait TablePod {}

/// An item stored in a table that has a `u64` sort key. Keys must uniquely
/// identify items and must be stored in ascending order in the file.
pub trait Item: TablePod {
    /// The sort key of an item.
    spec fn key_spec(&self) -> u64;

    fn key(&self) -> (r: u64)
        ensures
            r == self.key_spec(),
    ;
}

/// Metadata written into the header when an index has been built.
#[derive(Copy, Clone, Debug, PartialEq, Eq, Structural)]
pub struct IndexInfo {
    pub num_data_entries: u64,
    pub entries_per_block: u64,
    pub num_index_entries: u64,
}

/// What every table header offers: the index metadata it stores, if any.
pub trait TableDataHeader: TablePod {
    /// The index metadata that the header records.
    spec fn index_info_spec(&self) -> Option<IndexInfo>;

    fn index_info(&self) -> (r: Option<IndexInfo>)
        ensures
            r == self.index_info_spec(),
    ;
}

/// A header type that stores index metadata persistently.
pub trait SupportsIndex: TableDataHeader {
    fn set_index_info(&mut self, info: IndexInfo)
        ensures
            final(self).index_info_spec() == (if info.entries_per_block == 0 {
                None::<IndexInfo>
            } else {
                Some(info)
            }),
    ;
}

/// A type of table data together with the type of its file's header.
pub trait TableData: TablePod {
    type Header: TableDataHeader;
}

/// A type of table data with a format version.
pub trait Versioned {
    /// Version number for the data format. Must be incremented when the data
    /// format changes in a non-compatible way (e.g. adding or resizing fields).
    const VERSION: u32;
}

/// Why a table header does not match the data a reader expects.
#[derive(Copy, Clone, Debug, PartialEq, Eq, Structural)]
pub enum VerifiicationError {
    HashMismatch,
    VersionMismatch,
    HeaderSizeMismatch,
    DataSizeMismatch,
}

/// The description of each verification error.
pub open spec fn description_spec(e: VerifiicationError) -> Seq<char> {
    match e {
        VerifiicationError::HashMismatch => "Header hash does not match expected value"@,
        VerifiicationError::VersionMismatch => "Header version does not match expected value"@,
        VerifiicationError::HeaderSizeMismatch => "Header size does not match expected value"@,
        VerifiicationError::DataSizeMismatch => "Data size does not match expected value"@,
    }
}

impl VerifiicationError {
    pub fn description(&self) -> (r: &'static str)
        ensures
            r@ == description_spec(*self),
    {
        match self {
            VerifiicationError::HashMismatch => "Header hash does not match expected value",
            VerifiicationError::VersionMismatch => "Header version does not match expected value",
            VerifiicationError::HeaderSizeMismatch => "Header size does not match expected value",
            VerifiicationError::DataSizeMismatch => "Data size does not match expected value",
        }
    }
}

/// The header of a table of `I` items: a hash of the item type's name, the
/// format version, the sizes of header and item, and the type name itself.
pub struct SimpleHeader<I> {
    pub hash: u64,
    pub version: u64,
    pub header_size: u64,
    pub data_size: u64,
    pub name: [u8; 128],
    pub _phantom: PhantomData<I>,
}

/// The outcome of checking a header against the expected type-name hash:
/// the first field that differs from what a table of `I` needs.
pub open spec fn check_spec<I: Versioned>(h: SimpleHeader<I>, expected_hash: u64) -> Result<(), VerifiicationError> {
    if h.hash != expected_hash {
        Err(VerifiicationError::HashMismatch)
    } else if h.version != I::VERSION {
        Err(VerifiicationError::VersionMismatch)
    } else if h.header_size != vstd::layout::size_of::<SimpleHeader<I>>() {
        Err(VerifiicationError::HeaderSizeMismatch)
    } else if h.data_size != vstd::layout::size_of::<I>() {
        Err(VerifiicationError::DataSizeMismatch)
    } else {
        Ok(())
    }
}

impl<I: Versioned> SimpleHeader<I> {
    /// Checks the header against a table of `I` items whose type name hashes
    /// to `expected_hash`: hash, then version, then header size, then item size.
    pub fn check(&self, expected_hash: u64) -> (r: Result<(), VerifiicationError>)
        ensures
            r == check_spec(*self, expected_hash),
    {
        if self.hash != expected_hash {
            Err(VerifiicationError::HashMismatch)
        } else if self.version != I::VERSION as u64 {
            Err(VerifiicationError::VersionMismatch)
        } else if self.header_size != core::mem::size_of::<Self>() as u64 {
            Err(VerifiicationError::HeaderSizeMismatch)
        } else if self.data_size != core::mem::size_of::<I>() as u64 {
            Err(VerifiicationError::DataSizeMismatch)
        } else {
            Ok(())
        }
    }
}

/// The hash that headers record for an item type: the bytes of the type's
/// name written into a `DefaultHasher`.
pub open spec fn name_hash_spec(item_name: Seq<char>) -> u64 {
    DefaultHasher::spec_finish(seq![vstd::utf8::encode_utf8(item_name)])
}

/// Hashes a type name the way headers record it.
pub fn name_hash(item_name: &str) -> (r: u64)
    ensures
        r == name_hash_spec(item_name@),
{
    let mut hash = DefaultHasher::new();
    hash.write(item_name.as_bytes());
    let r = hash.finish();
    proof {
        assert(hash@ =~= seq![vstd::utf8::encode_utf8(item_name@)]);
    }
    r
}

impl<I: Versioned> SimpleHeader<I> {
    /// Checks that the header belongs to a table of `I` items, `item_name`
    /// being the name of `I`: the recorded name hash, version, header size
    /// and item size must all match.
    pub fn verify(&self, item_name: &str) -> (r: Result<(), VerifiicationError>)
        ensures
            r == check_spec(*self, name_hash_spec(item_name@)),
    {
        self.check(name_hash(item_name))
    }
}

/// The name bytes that a header records: the first 128 bytes of the name,
/// padded with zeros.
pub open spec fn recorded_name(name: Seq<u8>) -> Seq<u8> {
    Seq::new(128, |i: int| if i < name.len() { name[i] } else { 0u8 })
}

impl<I: Versioned> SimpleHeader<I> {
    /// A fresh header for a table of `I` items, `item_name` being the name of `I`.
    pub fn for_item(item_name: &str) -> (r: Self)
        ensures
            r.hash == name_hash_spec(item_name@),
            r.version == I::VERSION,
            r.header_size == vstd::layout::size_of::<SimpleHeader<I>>(),
            r.data_size == vstd::layout::size_of::<I>(),
            r.name@ == recorded_name(vstd::utf8::encode_utf8(item_name@)),
            check_spec(r, name_hash_spec(item_name@)) is Ok,
    {
        let bytes = item_name.as_bytes();
        let mut name = [0u8; 128];
        let copy_len = if bytes.len() < 128 {
            bytes.len()
        } else {
            128
        };
        let mut i: usize = 0;
        while i < copy_len
            invariant
                copy_len <= 128,
                copy_len <= bytes@.len(),
                i <= copy_len,
                forall|j: int| 0 <= j < i ==> name@[j] == bytes@[j],
                forall|j: int| i <= j < 128 ==> name@[j] == 0u8,
            decreases copy_len - i,
        {
            name[i] = bytes[i];
            i = i + 1;
        }
        proof {
            assert(name@ =~= recorded_name(bytes@));
        }
        let r = SimpleHeader {
            hash: name_hash(item_name),
            version: I::VERSION as u64,
            header_size: core::mem::size_of::<Self>() as u64,
            data_size: core::mem::size_of::<I>() as u64,
            name,
            _phantom: PhantomData,
        };
        r
    }
}

impl<I: Versioned> TablePod for SimpleHeader<I> {}

impl<I: Versioned> TableDataHeader for SimpleHeader<I> {
    /// Simple headers never carry an index.
    open spec fn index_info_spec(&self) -> Option<IndexInfo> {
        None
    }

    fn index_info(&self) -> (r: Option<IndexInfo>) {
        None
    }
}

/// A header that additionally stores sparse lookup index metadata; the
/// index fields stay zero until an index is built.
pub struct HeaderWithIndex<I> {
    pub base: SimpleHeader<I>,
    pub num_data_entries: u64,
    pub entries_per_block: u64,
    pub num_index_entries: u64,
}

impl<I: Versioned> HeaderWithIndex<I> {
    /// Checks the header like a [`SimpleHeader`].
    pub fn verify(&self, item_name: &str) -> (r: Result<(), VerifiicationError>)
        ensures
            r == check_spec(self.base, name_hash_spec(item_name@)),
    {
        self.base.verify(item_name)
    }
}

impl<I: Versioned> HeaderWithIndex<I> {
    /// A fresh header for a table of `I` items, with no index yet.
    pub fn for_item(item_name: &str) -> (r: Self)
        ensures
            r.base.hash == name_hash_spec(item_name@),
            r.base.version == I::VERSION,
            r.base.header_size == vstd::layout::size_of::<SimpleHeader<I>>(),
            r.base.data_size == vstd::layout::size_of::<I>(),
            r.base.name@ == recorded_name(vstd::utf8::encode_utf8(item_name@)),
            r.index_info_spec() is None,
    {
        HeaderWithIndex {
            base: SimpleHeader::for_item(item_name),
            num_data_entries: 0,
            entries_per_block: 0,
            num_index_entries: 0,
        }
    }
}

impl<I: Versioned> TablePod for HeaderWithIndex<I> {}

impl<I: Versioned> TableDataHeader for HeaderWithIndex<I> {
    /// The stored index metadata; none while no index has been built.
    open spec fn index_info_spec(&self) -> Option<IndexInfo> {
        if self.entries_per_block == 0 {
            None
        } else {
            Some(
                IndexInfo {
                    num_data_entries: self.num_data_entries,
                    entries_per_block: self.entries_per_block,
                    num_index_entries: self.num_index_entries,
                },
            )
        }
    }

    fn index_info(&self) -> (r: Option<IndexInfo>) {
        if self.entries_per_block == 0 {
            return None;
        }
        Some(
            IndexInfo {
                num_data_entries: self.num_data_entries,
                entries_per_block: self.entries_per_block,
                num_index_entries: self.num_index_entries,
            },
        )
    }
}

impl<I: Versioned> SupportsIndex for HeaderWithIndex<I> {
    fn set_index_info(&mut self, info: IndexInfo) {
        self.num_data_entries = info.num_data_entries;
        self.entries_per_block = info.entries_per_block;
        self.num_index_entries = info.num_index_entries;
    }
}

} // verus!
