use vstd::prelude::*;
use vstd::bytes::*;

use crate::codec::decode_string;
use crate::module::{spec_slot_duration, Module};
use crate::primitives::same_bytes;

verus! {

broadcast use vstd::array::group_array_axioms;

/// Identifies a kind of inherent data.
pub type InherentIdentifier = [u8; 8];

/// The BABE inherent identifier: the bytes of `"babeslot"`.
pub const INHERENT_IDENTIFIER: InherentIdentifier = [98u8, 97u8, 98u8, 101u8, 115u8, 108u8, 111u8, 116u8];

/// The timestamp inherent identifier: the bytes of `"timstap0"`.
pub const TIMESTAMP_INHERENT_IDENTIFIER: InherentIdentifier = [116u8, 105u8, 109u8, 115u8, 116u8, 97u8, 112u8, 48u8];

/// The type of the BABE inherent: a slot number.
pub type InherentType = u64;

/// Why inherent data could not be had or checked.
#[derive(Clone, Copy, Debug, PartialEq, Eq, Structural)]
pub enum InherentError {
    /// Data under the identifier is already present.
    AlreadyExists,
    /// The data under the identifier does not decode.
    CannotDecode,
    /// There is no BABE inherent data.
    BabeDataNotFound,
    /// There is no timestamp inherent data.
    TimestampDataNotFound,
    /// The timestamp of the block and the slot in its seal disagree.
    SlotMismatch,
    /// A provider with the identifier is already registered.
    ProviderAlreadyRegistered,
}

impl InherentError {
    /// The message that describes the error.
    pub open spec fn spec_message(&self) -> Seq<char> {
        match self {
            InherentError::AlreadyExists => "Inherent with same identifier already exists!"@,
            InherentError::CannotDecode => "Could not decode requested inherent type!"@,
            InherentError::BabeDataNotFound => "BABE inherent data not found"@,
            InherentError::TimestampDataNotFound => "Timestamp inherent data not found"@,
            InherentError::SlotMismatch => "timestamp set in block doesn't match slot in seal"@,
            InherentError::ProviderAlreadyRegistered => "Inherent data provider with identifier already exists!"@,
        }
    }

    /// The message that describes the error.
    pub fn message(&self) -> (r: &'static str)
        ensures
            r@ == self.spec_message(),
    {
        match self {
            InherentError::AlreadyExists => "Inherent with same identifier already exists!",
            InherentError::CannotDecode => "Could not decode requested inherent type!",
            InherentError::BabeDataNotFound => "BABE inherent data not found",
            InherentError::TimestampDataNotFound => "Timestamp inherent data not found",
            InherentError::SlotMismatch => "timestamp set in block doesn't match slot in seal",
            InherentError::ProviderAlreadyRegistered => "Inherent data provider with identifier already exists!",
        }
    }
}

/// Inherent data: encoded values, each under an identifier.
pub struct InherentData {
    pub data: Vec<(InherentIdentifier, Vec<u8>)>,
}

/// The entries of inherent data as byte sequences.
pub open spec fn entries_of(data: Seq<(InherentIdentifier, Vec<u8>)>) -> Seq<(InherentIdentifier, Seq<u8>)> {
    data.map_values(|e: (InherentIdentifier, Vec<u8>)| (e.0, e.1@))
}

/// The value under `id`: that of the first entry with the identifier.
pub open spec fn lookup(entries: Seq<(InherentIdentifier, Seq<u8>)>, id: InherentIdentifier) -> Option<Seq<u8>>
    decreases entries.len(),
{
    if entries.len() == 0 {
        None
    } else if entries[0].0 == id {
        Some(entries[0].1)
    } else {
        lookup(entries.drop_first(), id)
    }
}

/// The entries with the value under `id` replaced, or added at the end when
/// there is none.
pub open spec fn replaced(entries: Seq<(InherentIdentifier, Seq<u8>)>, id: InherentIdentifier, value: Seq<u8>) -> Seq<(InherentIdentifier, Seq<u8>)>
    decreases entries.len(),
{
    if entries.len() == 0 {
        seq![(id, value)]
    } else if entries[0].0 == id {
        entries.update(0, (id, value))
    } else {
        seq![entries[0]] + replaced(entries.drop_first(), id, value)
    }
}

/// What reading a `u64` under `id` gives: nothing when there is no data,
/// the little-endian value of its first eight bytes, or an error when
/// there are fewer.
pub open spec fn spec_get_data(entries: Seq<(InherentIdentifier, Seq<u8>)>, id: InherentIdentifier) -> Result<Option<u64>, InherentError> {
    match lookup(entries, id) {
        None => Ok(None),
        Some(bytes) => if bytes.len() >= 8 {
            Ok(Some(spec_u64_from_le_bytes(bytes.subrange(0, 8))))
        } else {
            Err(InherentError::CannotDecode)
        },
    }
}

/// A `u64` under `id` that must be present.
pub open spec fn spec_required(entries: Seq<(InherentIdentifier, Seq<u8>)>, id: InherentIdentifier, missing: InherentError) -> Result<u64, InherentError> {
    match spec_get_data(entries, id) {
        Err(e) => Err(e),
        Ok(None) => Err(missing),
        Ok(Some(v)) => Ok(v),
    }
}

/// The BABE inherent: the slot number.
pub open spec fn spec_babe_inherent_data(entries: Seq<(InherentIdentifier, Seq<u8>)>) -> Result<u64, InherentError> {
    spec_required(entries, INHERENT_IDENTIFIER, InherentError::BabeDataNotFound)
}

/// The timestamp inherent.
pub open spec fn spec_timestamp_inherent_data(entries: Seq<(InherentIdentifier, Seq<u8>)>) -> Result<u64, InherentError> {
    spec_required(entries, TIMESTAMP_INHERENT_IDENTIFIER, InherentError::TimestampDataNotFound)
}

proof fn lemma_replaced_at(entries: Seq<(InherentIdentifier, Seq<u8>)>, id: InherentIdentifier, value: Seq<u8>, i: int)
    requires
        0 <= i < entries.len(),
        entries[i].0 == id,
        forall|j: int| 0 <= j < i ==> entries[j].0 != id,
    ensures
        replaced(entries, id, value) == entries.update(i, (id, value)),
    decreases entries.len(),
{
    if i > 0 {
        lemma_replaced_at(entries.drop_first(), id, value, i - 1);
        assert(replaced(entries, id, value) =~= entries.update(i, (id, value)));
    }
}

proof fn lemma_replaced_absent(entries: Seq<(InherentIdentifier, Seq<u8>)>, id: InherentIdentifier, value: Seq<u8>)
    requires
        forall|j: int| 0 <= j < entries.len() ==> entries[j].0 != id,
    ensures
        replaced(entries, id, value) == entries.push((id, value)),
    decreases entries.len(),
{
    if entries.len() > 0 {
        lemma_replaced_absent(entries.drop_first(), id, value);
        assert(replaced(entries, id, value) =~= entries.push((id, value)));
    }
}

proof fn lemma_lookup_absent(entries: Seq<(InherentIdentifier, Seq<u8>)>, id: InherentIdentifier)
    requires
        forall|j: int| 0 <= j < entries.len() ==> entries[j].0 != id,
    ensures
        lookup(entries, id) is None,
    decreases entries.len(),
{
    if entries.len() > 0 {
        lemma_lookup_absent(entries.drop_first(), id);
    }
}

proof fn lemma_lookup_at(entries: Seq<(InherentIdentifier, Seq<u8>)>, id: InherentIdentifier, i: int)
    requires
        0 <= i < entries.len(),
        entries[i].0 == id,
        forall|j: int| 0 <= j < i ==> entries[j].0 != id,
    ensures
        lookup(entries, id) == Some(entries[i].1),
    decreases entries.len(),
{
    if i > 0 {
        lemma_lookup_at(entries.drop_first(), id, i - 1);
    }
}

/// A value read back under the identifier it was replaced under is the
/// value written.
pub proof fn lemma_lookup_replaced(entries: Seq<(InherentIdentifier, Seq<u8>)>, id: InherentIdentifier, value: Seq<u8>)
    ensures
        lookup(replaced(entries, id, value), id) == Some(value),
    decreases entries.len(),
{
    if entries.len() > 0 && entries[0].0 != id {
        lemma_lookup_replaced(entries.drop_first(), id, value);
        let r = replaced(entries, id, value);
        assert(r.drop_first() =~= replaced(entries.drop_first(), id, value));
    }
}

/// Replacing the value under one identifier leaves the others alone.
pub proof fn lemma_lookup_replaced_other(entries: Seq<(InherentIdentifier, Seq<u8>)>, id: InherentIdentifier, value: Seq<u8>, other: InherentIdentifier)
    requires
        other != id,
    ensures
        lookup(replaced(entries, id, value), other) == lookup(entries, other),
    decreases entries.len(),
{
    if entries.len() > 0 {
        if entries[0].0 != id {
            lemma_lookup_replaced_other(entries.drop_first(), id, value, other);
            let r = replaced(entries, id, value);
            assert(r.drop_first() =~= replaced(entries.drop_first(), id, value));
        } else {
            let r = replaced(entries, id, value);
            assert(r.drop_first() =~= entries.drop_first());
        }
    } else {
        let r = replaced(entries, id, value);
        assert(r.drop_first() =~= entries);
    }
}

/// In well-formed inherent data, every entry is the one found under its
/// identifier.
pub proof fn law_lookup_finds_each_entry(data: InherentData, i: int)
    requires
        data.wf(),
        0 <= i < data.entries().len(),
    ensures
        lookup(data.entries(), data.entries()[i].0) == Some(data.entries()[i].1),
{
    let entries = data.entries();
    assert forall|j: int| 0 <= j < i implies entries[j].0 != entries[i].0 by {
        assert(entries[j].0 != entries[i].0);
    }
    lemma_lookup_at(entries, entries[i].0, i);
}

impl InherentData {
    /// The entries as byte sequences.
    pub open spec fn entries(&self) -> Seq<(InherentIdentifier, Seq<u8>)> {
        entries_of(self.data@)
    }

    /// No identifier occurs twice, as in a map from identifiers to values.
    pub open spec fn wf(&self) -> bool {
        forall|i: int, j: int|
            0 <= i < j < self.entries().len() ==> #[trigger] self.entries()[i].0 != #[trigger] self.entries()[j].0
    }

    /// Empty inherent data.
    pub fn new() -> (r: InherentData)
        ensures
            r.entries().len() == 0,
            r.wf(),
    {
        InherentData { data: Vec::new() }
    }

    /// The position of the first entry under `id`.
    fn position(&self, id: &InherentIdentifier) -> (r: Option<usize>)
        ensures
            match r {
                Some(i) => {
                    &&& i < self.entries().len()
                    &&& self.entries()[i as int].0 == *id
                    &&& forall|j: int| 0 <= j < i ==> self.entries()[j].0 != *id
                },
                None => forall|j: int| 0 <= j < self.entries().len() ==> self.entries()[j].0 != *id,
            },
    {
        let mut i: usize = 0;
        while i < self.data.len()
            invariant
                i <= self.data@.len(),
                self.entries().len() == self.data@.len(),
                forall|j: int| 0 <= j < i ==> self.entries()[j].0 != *id,
            decreases self.data@.len() - i,
        {
            let key = self.data[i].0;
            if same_bytes(&key, id) {
                assert(key =~= *id);
                return Some(i);
            }
            i = i + 1;
        }
        None
    }

    /// Puts a `u64` under `identifier`, in its SCALE encoding; an error
    /// when data is already present under the identifier.
    pub fn put_data(&mut self, identifier: InherentIdentifier, inherent: &u64) -> (r: Result<(), InherentError>)
        ensures
            lookup(old(self).entries(), identifier) is Some ==> {
                &&& r == Err::<(), InherentError>(InherentError::AlreadyExists)
                &&& final(self).entries() == old(self).entries()
            },
            lookup(old(self).entries(), identifier) is None ==> {
                &&& r is Ok
                &&& final(self).entries() == old(self).entries().push((identifier, spec_u64_to_le_bytes(*inherent)))
            },
            old(self).wf() ==> final(self).wf(),
    {
        match self.position(&identifier) {
            Some(i) => {
                proof {
                    lemma_lookup_at(self.entries(), identifier, i as int);
                }
                Err(InherentError::AlreadyExists)
            },
            None => {
                proof {
                    lemma_lookup_absent(self.entries(), identifier);
                }
                let encoded = u64_to_le_bytes(*inherent);
                self.data.push((identifier, encoded));
                assert(self.entries() =~= old(self).entries().push((identifier, spec_u64_to_le_bytes(*inherent))));
                Ok(())
            },
        }
    }

    /// Puts a `u64` under `identifier`, replacing what was there.
    pub fn replace_data(&mut self, identifier: InherentIdentifier, inherent: &u64)
        ensures
            final(self).entries() == replaced(old(self).entries(), identifier, spec_u64_to_le_bytes(*inherent)),
            old(self).wf() ==> final(self).wf(),
    {
        let encoded = u64_to_le_bytes(*inherent);
        let ghost value = encoded@;
        match self.position(&identifier) {
            Some(i) => {
                proof {
                    lemma_replaced_at(self.entries(), identifier, value, i as int);
                }
                self.data.set(i, (identifier, encoded));
                assert(self.entries() =~= old(self).entries().update(i as int, (identifier, value)));
            },
            None => {
                proof {
                    lemma_replaced_absent(self.entries(), identifier, value);
                }
                self.data.push((identifier, encoded));
                assert(self.entries() =~= old(self).entries().push((identifier, value)));
            },
        }
    }

    /// Reads the `u64` under `identifier`: nothing when there is no data
    /// under it, an error when the data does not decode.
    pub fn get_data(&self, identifier: &InherentIdentifier) -> (r: Result<Option<u64>, InherentError>)
        ensures
            r == spec_get_data(self.entries(), *identifier),
    {
        match self.position(identifier) {
            None => {
                proof {
                    lemma_lookup_absent(self.entries(), *identifier);
                }
                Ok(None)
            },
            Some(i) => {
                proof {
                    lemma_lookup_at(self.entries(), *identifier, i as int);
                }
                let bytes = &self.data[i].1;
                if bytes.len() >= 8 {
                    let value = u64_from_le_bytes(vstd::slice::slice_subrange(bytes.as_slice(), 0, 8));
                    Ok(Some(value))
                } else {
                    Err(InherentError::CannotDecode)
                }
            },
        }
    }

    /// The timestamp inherent data, which must be present.
    pub fn timestamp_inherent_data(&self) -> (r: Result<u64, InherentError>)
        ensures
            r == spec_timestamp_inherent_data(self.entries()),
    {
        match self.get_data(&TIMESTAMP_INHERENT_IDENTIFIER) {
            Err(e) => Err(e),
            Ok(None) => Err(InherentError::TimestampDataNotFound),
            Ok(Some(timestamp)) => Ok(timestamp),
        }
    }
}

/// Reads and replaces the BABE inherent data.
pub trait BabeInherentData {
    /// Gets the BABE inherent data.
    fn babe_inherent_data(&self) -> Result<InherentType, InherentError>;

    /// Replaces the BABE inherent data.
    fn babe_replace_inherent_data(&mut self, new: InherentType);
}

impl BabeInherentData for InherentData {
    fn babe_inherent_data(&self) -> (r: Result<InherentType, InherentError>)
        ensures
            r == spec_babe_inherent_data(self.entries()),
    {
        match self.get_data(&INHERENT_IDENTIFIER) {
            Err(e) => Err(e),
            Ok(None) => Err(InherentError::BabeDataNotFound),
            Ok(Some(slot)) => Ok(slot),
        }
    }

    fn babe_replace_inherent_data(&mut self, new: InherentType)
        ensures
            final(self).entries() == replaced(old(self).entries(), INHERENT_IDENTIFIER, spec_u64_to_le_bytes(new)),
            old(self).wf() ==> final(self).wf(),
    {
        self.replace_data(INHERENT_IDENTIFIER, &new);
    }
}

/// The identifiers of the inherent data providers registered so far.
pub struct InherentDataProviders {
    pub identifiers: Vec<InherentIdentifier>,
}

impl InherentDataProviders {
    /// Whether a provider with the identifier is registered.
    pub fn has_provider(&self, identifier: &InherentIdentifier) -> (r: bool)
        ensures
            r == self.identifiers@.contains(*identifier),
    {
        let mut i: usize = 0;
        while i < self.identifiers.len()
            invariant
                i <= self.identifiers@.len(),
                forall|j: int| 0 <= j < i ==> self.identifiers@[j] != *identifier,
            decreases self.identifiers@.len() - i,
        {
            let registered = self.identifiers[i];
            if same_bytes(&registered, identifier) {
                assert(registered =~= *identifier);
                assert(self.identifiers@[i as int] == *identifier);
                return true;
            }
            i = i + 1;
        }
        false
    }

    /// Registers a provider with the identifier; an error when one is
    /// registered already.
    pub fn register_provider(&mut self, identifier: InherentIdentifier) -> (r: Result<(), InherentError>)
        ensures
            old(self).identifiers@.contains(identifier) ==> {
                &&& r == Err::<(), InherentError>(InherentError::ProviderAlreadyRegistered)
                &&& final(self).identifiers@ == old(self).identifiers@
            },
            !old(self).identifiers@.contains(identifier) ==> {
                &&& r is Ok
                &&& final(self).identifiers@ == old(self).identifiers@.push(identifier)
            },
    {
        if self.has_provider(&identifier) {
            Err(InherentError::ProviderAlreadyRegistered)
        } else {
            self.identifiers.push(identifier);
            Ok(())
        }
    }
}

/// Provides the slot number inherent data for BABE, from the timestamp and
/// the slot duration.
pub struct InherentDataProvider {
    pub slot_duration: u64,
}

impl InherentDataProvider {
    /// Constructs the provider.
    pub fn new(slot_duration: u64) -> (r: Self)
        ensures
            r.slot_duration == slot_duration,
    {
        Self { slot_duration }
    }

    /// Registration: the timestamp provider, which this one requires, is
    /// registered too unless it is already.
    pub fn on_register(&self, providers: &mut InherentDataProviders) -> (r: Result<(), InherentError>)
        ensures
            r is Ok,
            final(providers).identifiers@ == if old(providers).identifiers@.contains(TIMESTAMP_INHERENT_IDENTIFIER) {
                old(providers).identifiers@
            } else {
                old(providers).identifiers@.push(TIMESTAMP_INHERENT_IDENTIFIER)
            },
    {
        if !providers.has_provider(&TIMESTAMP_INHERENT_IDENTIFIER) {
            providers.register_provider(TIMESTAMP_INHERENT_IDENTIFIER)
        } else {
            Ok(())
        }
    }

    /// The identifier of the data that this provider puts.
    pub fn inherent_identifier(&self) -> (r: InherentIdentifier)
        ensures
            r == INHERENT_IDENTIFIER,
    {
        INHERENT_IDENTIFIER
    }

    /// Puts the slot number of the timestamp, the timestamp divided by the
    /// slot duration, under the BABE identifier.
    pub fn provide_inherent_data(&self, inherent_data: &mut InherentData) -> (r: Result<(), InherentError>)
        requires
            spec_timestamp_inherent_data(old(inherent_data).entries()) is Ok ==> self.slot_duration > 0,
        ensures
            match spec_timestamp_inherent_data(old(inherent_data).entries()) {
                Err(e) => r == Err::<(), InherentError>(e) && final(inherent_data).entries() == old(inherent_data).entries(),
                Ok(timestamp) => if lookup(old(inherent_data).entries(), INHERENT_IDENTIFIER) is Some {
                    r == Err::<(), InherentError>(InherentError::AlreadyExists)
                        && final(inherent_data).entries() == old(inherent_data).entries()
                } else {
                    r is Ok && final(inherent_data).entries() == old(inherent_data).entries().push(
                        (INHERENT_IDENTIFIER, spec_u64_to_le_bytes(timestamp / self.slot_duration)),
                    )
                },
            },
            old(inherent_data).wf() ==> final(inherent_data).wf(),
    {
        let timestamp = match inherent_data.timestamp_inherent_data() {
            Ok(timestamp) => timestamp,
            Err(e) => return Err(e),
        };
        let slot_number = timestamp / self.slot_duration;
        inherent_data.put_data(INHERENT_IDENTIFIER, &slot_number)
    }

    /// The message of an encoded error: its SCALE decoding as a string, if
    /// it decodes.
    pub fn error_to_string(&self, error: &[u8]) -> (r: Option<String>)
        ensures
            r matches Some(s) ==> crate::codec::scale_string_decoding(error@) == Some(s@),
            r is None ==> crate::codec::scale_string_decoding(error@) is None,
    {
        decode_string(error)
    }
}

/// A call of the timestamp module.
pub enum TimestampCall {
    /// Sets the timestamp of the block.
    SetTimestamp(u64),
}

/// What checking a block's timestamp inherent against its BABE inherent
/// gives: the slot of the timestamp must be the slot in the seal.
pub open spec fn spec_check_inherent(timestamp: u64, slot_duration: u64, entries: Seq<(InherentIdentifier, Seq<u8>)>) -> Result<(), InherentError> {
    match spec_babe_inherent_data(entries) {
        Err(e) => Err(e),
        Ok(seal_slot) => if timestamp / slot_duration == seal_slot {
            Ok(())
        } else {
            Err(InherentError::SlotMismatch)
        },
    }
}

impl Module {
    /// BABE creates no inherent of its own.
    pub fn create_inherent(&self, data: &InherentData) -> (r: Option<TimestampCall>)
        ensures
            r is None,
    {
        None
    }

    /// Checks the timestamp that a block sets against the slot in its
    /// seal.
    pub fn check_inherent(&self, call: &TimestampCall, data: &InherentData) -> (r: Result<(), InherentError>)
        requires
            spec_slot_duration(self.config) > 0,
        ensures
            match call {
                TimestampCall::SetTimestamp(timestamp) => r == spec_check_inherent(*timestamp, spec_slot_duration(self.config), data.entries()),
            },
    {
        let timestamp = match call {
            TimestampCall::SetTimestamp(timestamp) => *timestamp,
        };
        let timestamp_based_slot = timestamp / self.slot_duration();
        let seal_slot = match data.babe_inherent_data() {
            Ok(slot) => slot,
            Err(e) => return Err(e),
        };
        if timestamp_based_slot == seal_slot {
            Ok(())
        } else {
            Err(InherentError::SlotMismatch)
        }
    }
}

} // verus!
