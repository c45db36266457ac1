use crate::address::Address;
use crate::error::ElectionError;
use crate::wire::zeros;
use vstd::prelude::*;
use vstd::slice::slice_to_vec;

verus! {

/// A record as the ledger hands it to the program: where it lies, which
/// program owns it, and its bytes. A record that has not been created has
/// no bytes.
#[derive(Clone, Debug, PartialEq, Eq)]
pub struct RecordHandle {
    pub address: Address,
    pub owner: Address,
    pub data: Vec<u8>,
}

/// A record, as mathematical values.
pub struct RecordView {
    pub address: Address,
    pub owner: Address,
    pub data: Seq<u8>,
}

impl View for RecordHandle {
    type V = RecordView;

    open spec fn view(&self) -> RecordView {
        RecordView { address: self.address, owner: self.owner, data: self.data@ }
    }
}

/// The records as mathematical values.
pub open spec fn records_view(records: Seq<RecordHandle>) -> Seq<RecordView> {
    Seq::new(records.len(), |i: int| records[i]@)
}

impl RecordView {
    /// Whether the record has been created.
    pub open spec fn allocated(self) -> bool {
        self.data.len() > 0
    }

    /// The record after it was created with `size` bytes for `owner`. A
    /// record is created once; its size is at least one byte and no more
    /// than the machine can count.
    pub open spec fn created(self, size: int, owner: Address) -> Result<RecordView, ElectionError> {
        if self.allocated() {
            Err(ElectionError::AccountAlreadyInitialized)
        } else if size < 1 || size > usize::MAX {
            Err(ElectionError::AllocationFailure)
        } else {
            Ok(RecordView { address: self.address, owner, data: zeros(size as nat) })
        }
    }

    /// The record after `image` was written over the start of its bytes.
    /// What lies behind the image stays. An image that cannot be made, or
    /// is longer than the record, is not written.
    pub open spec fn stored(self, encodable: bool, image: Seq<u8>) -> Result<
        RecordView,
        ElectionError,
    > {
        if encodable && image.len() <= self.data.len() {
            Ok(
                RecordView {
                    address: self.address,
                    owner: self.owner,
                    data: image + self.data.skip(image.len() as int),
                },
            )
        } else {
            Err(ElectionError::RecordOverflow)
        }
    }
}

impl RecordHandle {
    /// A handle for a record that has not been created.
    pub fn vacant(address: Address, owner: Address) -> (r: RecordHandle)
        ensures
            r@ == (RecordView { address, owner, data: Seq::empty() }),
    {
        RecordHandle { address, owner, data: Vec::new() }
    }

    /// A copy of the handle.
    pub fn duplicate(&self) -> (r: RecordHandle)
        ensures
            r@ == self@,
    {
        RecordHandle {
            address: self.address,
            owner: self.owner,
            data: slice_to_vec(self.data.as_slice()),
        }
    }

    /// Creates the record with `size` zero bytes for `owner`; `None` stands
    /// for a size that the machine cannot count.
    pub fn create(&self, size: Option<usize>, owner: &Address) -> (r: Result<
        RecordHandle,
        ElectionError,
    >)
        ensures
            size matches Some(n) ==> record_result(r) == self@.created(n as int, *owner),
            size is None ==> record_result(r) == self@.created(usize::MAX + 1, *owner),
    {
        if self.data.len() > 0 {
            return Err(ElectionError::AccountAlreadyInitialized);
        }
        let n = match size {
            Some(n) => n,
            None => { return Err(ElectionError::AllocationFailure); },
        };
        if n == 0 {
            return Err(ElectionError::AllocationFailure);
        }
        let mut data: Vec<u8> = Vec::new();
        let mut i: usize = 0;
        while i < n
            invariant
                i <= n,
                data@ == zeros(i as nat),
            decreases n - i,
        {
            data.push(0u8);
            assert(data@ =~= zeros((i + 1) as nat));
            i += 1;
        }
        Ok(RecordHandle { address: self.address, owner: *owner, data })
    }

    /// Writes what came of encoding a record over the start of the bytes.
    pub fn store(&self, encoded: Result<Vec<u8>, ElectionError>) -> (r: Result<
        RecordHandle,
        ElectionError,
    >)
        ensures
            encoded matches Ok(image) ==> record_result(r) == self@.stored(true, image@),
            encoded is Err ==> record_result(r) == Err::<RecordView, ElectionError>(
                ElectionError::RecordOverflow,
            ),
    {
        let image = match encoded {
            Ok(image) => image,
            Err(_) => { return Err(ElectionError::RecordOverflow); },
        };
        if image.len() > self.data.len() {
            return Err(ElectionError::RecordOverflow);
        }
        let mut data = image;
        let mut i: usize = data.len();
        let ghost head = data@;
        assert(self.data@.skip(head.len() as int).take(0) =~= Seq::<u8>::empty());
        while i < self.data.len()
            invariant
                head.len() <= i <= self.data.len(),
                data@ == head + self.data@.subrange(head.len() as int, i as int),
            decreases self.data.len() - i,
        {
            data.push(self.data[i]);
            assert(data@ =~= head + self.data@.subrange(head.len() as int, i + 1));
            i += 1;
        }
        assert(data@ =~= head + self.data@.skip(head.len() as int));
        Ok(RecordHandle { address: self.address, owner: self.owner, data })
    }
}

/// What came of an operation on one record, as mathematical values.
pub open spec fn record_result(r: Result<RecordHandle, ElectionError>) -> Result<
    RecordView,
    ElectionError,
> {
    match r {
        Ok(record) => Ok(record@),
        Err(e) => Err(e),
    }
}

/// A copy of the records.
pub fn duplicate_records(records: &Vec<RecordHandle>) -> (r: Vec<RecordHandle>)
    ensures
        records_view(r@) == records_view(records@),
{
    let mut copy: Vec<RecordHandle> = Vec::new();
    let mut i: usize = 0;
    while i < records.len()
        invariant
            i <= records.len(),
            copy.len() == i,
            forall|j: int| 0 <= j < i ==> (#[trigger] copy@[j])@ == records@[j]@,
        decreases records.len() - i,
    {
        copy.push(records[i].duplicate());
        i += 1;
    }
    assert(records_view(copy@) =~= records_view(records@));
    copy
}

/// Puts `record` in the place `index` of the records.
pub fn replace_record(records: &mut Vec<RecordHandle>, index: usize, record: RecordHandle)
    requires
        index < old(records).len(),
    ensures
        records_view(final(records)@) == records_view(old(records)@).update(index as int, record@),
        final(records).len() == old(records).len(),
{
    records[index] = record;
    assert(records_view(records@) =~= records_view(old(records)@).update(index as int, record@));
}

/// Whether an operation on one record did what `outcome` says: on success
/// the record is the new one; on failure the error is reported and the
/// record is as before.
pub open spec fn applied(
    outcome: Result<RecordView, ElectionError>,
    before: RecordView,
    after: RecordView,
    r: Result<(), ElectionError>,
) -> bool {
    match outcome {
        Ok(next) => r is Ok && after == next,
        Err(e) => r == Err::<(), ElectionError>(e) && after == before,
    }
}

/// Whether an operation on the supplied records did what `outcome` says:
/// on success the records are the new ones; on failure the error is
/// reported and every record is as before.
pub open spec fn applied_all(
    outcome: Result<Seq<RecordView>, ElectionError>,
    before: Seq<RecordView>,
    after: Seq<RecordView>,
    r: Result<(), ElectionError>,
) -> bool {
    match outcome {
        Ok(next) => r is Ok && after == next,
        Err(e) => r == Err::<(), ElectionError>(e) && after == before,
    }
}

/// A text that may be missing, as a sequence of characters.
pub open spec fn text_option(text: Option<String>) -> Option<Seq<char>> {
    match text {
        Some(text) => Some(text@),
        None => None,
    }
}

/// Whether `expected` is there and is `address`.
pub fn is_expected(expected: &Option<Address>, address: &Address) -> (r: bool)
    ensures
        r == (*expected == Some(*address)),
{
    match expected {
        Some(found) => found.same(address),
        None => false,
    }
}


/// Writing an image into a record keeps where the record lies, who owns
/// it and how long it is; the record then starts with the image.
pub proof fn lemma_stored(record: RecordView, encodable: bool, image: Seq<u8>, next: RecordView)
    requires
        record.stored(encodable, image) == Ok::<RecordView, ElectionError>(next),
    ensures
        next.address == record.address,
        next.owner == record.owner,
        next.data.len() == record.data.len(),
        next.data == image + record.data.skip(image.len() as int),
        next.stored(encodable, image) == Ok::<RecordView, ElectionError>(next),
{
    assert(next.data.skip(image.len() as int) =~= record.data.skip(image.len() as int));
}

/// A record that was created lies where it lay, belongs to its new owner,
/// and cannot be created again.
pub proof fn lemma_created(record: RecordView, size: int, owner: Address, next: RecordView)
    requires
        record.created(size, owner) == Ok::<RecordView, ElectionError>(next),
    ensures
        next.address == record.address,
        next.owner == owner,
        next.data.len() == size,
        next.allocated(),
        forall|again: int, other: Address|
            next.created(again, other) == Err::<RecordView, ElectionError>(
                ElectionError::AccountAlreadyInitialized,
            ),
{
}


} // verus!
