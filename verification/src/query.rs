//! Finding records without an index.
//!
//! A scanner classifies a cell by its first byte and finds the records of
//! one credential or schema by comparing bytes at fixed offsets: the
//! credential of a schema stands at offset 1, the credential and the schema
//! of an attestation at offsets 33 and 65. To move a field is to break
//! every scanner.

use crate::claim::{lemma_frame_roundtrip, AttestationView};
use crate::credential::{lemma_credential_roundtrip, CredentialView};
use crate::ledger::Cell;
use crate::schema::{lemma_schema_roundtrip, SchemaView};
use crate::wire::{lemma_prefixed_len, same_key};
use vstd::prelude::*;
use vstd::slice::{axiom_spec_len, slice_to_vec};

verus! {

/// A comparison of the bytes of a cell at an offset.
#[derive(Clone, Debug)]
pub struct ByteFilter {
    /// Where the compared bytes start.
    pub offset: usize,
    /// The bytes that must stand there.
    pub bytes: Vec<u8>,
}

/// A comparison as plain values.
pub struct ByteFilterView {
    pub offset: nat,
    pub bytes: Seq<u8>,
}

impl ByteFilterView {
    /// Whether `data` holds the bytes at the offset.
    pub open spec fn matches(self, data: Seq<u8>) -> bool {
        &&& self.offset + self.bytes.len() <= data.len()
        &&& data.subrange(self.offset as int, (self.offset + self.bytes.len()) as int) == self.bytes
    }
}

/// The comparisons of a list as plain values.
pub open spec fn filter_list(filters: Seq<ByteFilter>) -> Seq<ByteFilterView> {
    Seq::new(filters.len(), |i: int| filters[i]@)
}

/// Whether `data` passes every comparison.
pub open spec fn matches_all(filters: Seq<ByteFilterView>, data: Seq<u8>) -> bool {
    forall|i: int| 0 <= i < filters.len() ==> (#[trigger] filters[i]).matches(data)
}

/// The comparison that finds credentials: discriminator 0.
pub open spec fn credential_filter_list() -> Seq<ByteFilterView> {
    seq![ByteFilterView { offset: 0, bytes: seq![0u8] }]
}

/// The comparisons that find the schemas of a credential: discriminator 1,
/// and the credential at offset 1.
pub open spec fn schema_filter_list(credential: Seq<u8>) -> Seq<ByteFilterView> {
    seq![
        ByteFilterView { offset: 0, bytes: seq![1u8] },
        ByteFilterView { offset: 1, bytes: credential },
    ]
}

/// The comparisons that find the attestations under a credential and a
/// schema: discriminator 2, the credential at offset 33, the schema at
/// offset 65.
pub open spec fn attestation_filter_list(credential: Seq<u8>, schema: Seq<u8>) -> Seq<ByteFilterView> {
    seq![
        ByteFilterView { offset: 0, bytes: seq![2u8] },
        ByteFilterView { offset: 33, bytes: credential },
        ByteFilterView { offset: 65, bytes: schema },
    ]
}

impl ByteFilter {
    /// The comparison as plain values.
    pub open spec fn view(&self) -> ByteFilterView {
        ByteFilterView { offset: self.offset as nat, bytes: self.bytes@ }
    }

    /// Whether `data` holds the bytes at the offset.
    pub fn is_match(&self, data: &[u8]) -> (matched: bool)
        ensures
            matched == self@.matches(data@),
    {
        proof {
            axiom_spec_len(data);
        }
        let n: usize = self.bytes.len();
        if self.offset > data.len() || n > data.len() - self.offset {
            return false;
        }
        let mut i: usize = 0;
        while i < n
            invariant
                i <= n,
                n == self.bytes@.len(),
                self.offset + n <= data@.len() <= usize::MAX,
                forall|j: int| 0 <= j < i ==> data@[self.offset + j] == self.bytes@[j],
            decreases n - i,
        {
            if data[self.offset + i] != self.bytes[i] {
                assert(data@.subrange(self.offset as int, self.offset + n)[i as int]
                    != self.bytes@[i as int]);
                return false;
            }
            i += 1;
        }
        assert(data@.subrange(self.offset as int, self.offset + n) =~= self.bytes@);
        true
    }
}

/// Whether `data` passes every comparison.
pub fn passes(filters: &[ByteFilter], data: &[u8]) -> (passed: bool)
    ensures
        passed == matches_all(filter_list(filters@), data@),
{
    let mut i: usize = 0;
    while i < filters.len()
        invariant
            i <= filters@.len(),
            forall|j: int| 0 <= j < i ==> (#[trigger] filter_list(filters@)[j]).matches(data@),
        decreases filters@.len() - i,
    {
        if !filters[i].is_match(data) {
            assert(!filter_list(filters@)[i as int].matches(data@));
            return false;
        }
        i += 1;
    }
    true
}

/// The comparison that finds credentials.
pub fn credential_filters() -> (filters: Vec<ByteFilter>)
    ensures
        filter_list(filters@) == credential_filter_list(),
{
    let filters: Vec<ByteFilter> = vec![ByteFilter { offset: 0, bytes: vec![0u8] }];
    assert(filters@[0].bytes@ =~= seq![0u8]);
    assert(filter_list(filters@) =~= credential_filter_list());
    filters
}

/// The comparisons that find the schemas of a credential.
pub fn schema_filters(credential_pda: &[u8; 32]) -> (filters: Vec<ByteFilter>)
    ensures
        filter_list(filters@) == schema_filter_list(credential_pda@),
{
    let filters: Vec<ByteFilter> = vec![
        ByteFilter { offset: 0, bytes: vec![1u8] },
        ByteFilter { offset: 1, bytes: slice_to_vec(credential_pda.as_slice()) },
    ];
    assert(filters@[0].bytes@ =~= seq![1u8]);
    assert(filter_list(filters@) =~= schema_filter_list(credential_pda@));
    filters
}

/// The comparisons that find the attestations under a credential and a schema.
pub fn attestation_filters(credential_pda: &[u8; 32], schema_pda: &[u8; 32]) -> (filters: Vec<
    ByteFilter,
>)
    ensures
        filter_list(filters@) == attestation_filter_list(credential_pda@, schema_pda@),
{
    let filters: Vec<ByteFilter> = vec![
        ByteFilter { offset: 0, bytes: vec![2u8] },
        ByteFilter { offset: 33, bytes: slice_to_vec(credential_pda.as_slice()) },
        ByteFilter { offset: 65, bytes: slice_to_vec(schema_pda.as_slice()) },
    ];
    assert(filters@[0].bytes@ =~= seq![2u8]);
    assert(filter_list(filters@) =~= attestation_filter_list(credential_pda@, schema_pda@));
    filters
}

/// The addresses of the cells that `program_id` owns and that pass every
/// comparison, in the order of the cells.
pub open spec fn selected(cells: Seq<Cell>, program_id: Seq<u8>, filters: Seq<ByteFilterView>) -> Seq<
    Seq<u8>,
>
    decreases cells.len(),
{
    if cells.len() == 0 {
        Seq::empty()
    } else {
        let front = selected(cells.drop_last(), program_id, filters);
        let last = cells.last();
        if last.owner@ == program_id && matches_all(filters, last.data@) {
            front.push(last.address@)
        } else {
            front
        }
    }
}

/// The addresses of a list as byte strings.
pub open spec fn address_list(addresses: Seq<[u8; 32]>) -> Seq<Seq<u8>> {
    Seq::new(addresses.len(), |i: int| addresses[i]@)
}

/// The addresses of the cells that `program_id` owns and that pass every
/// comparison, in the order of the cells.
pub fn select(cells: &[Cell], program_id: &[u8; 32], filters: &[ByteFilter]) -> (addresses: Vec<
    [u8; 32],
>)
    ensures
        address_list(addresses@) == selected(cells@, program_id@, filter_list(filters@)),
{
    let mut addresses: Vec<[u8; 32]> = Vec::new();
    let mut i: usize = 0;
    assert(cells@.subrange(0, 0) =~= Seq::<Cell>::empty());
    assert(address_list(addresses@) =~= Seq::<Seq<u8>>::empty());
    while i < cells.len()
        invariant
            i <= cells@.len(),
            address_list(addresses@) == selected(
                cells@.subrange(0, i as int),
                program_id@,
                filter_list(filters@),
            ),
        decreases cells@.len() - i,
    {
        let cell = &cells[i];
        let ghost before = address_list(addresses@);
        proof {
            let upto = cells@.subrange(0, i + 1);
            assert(upto.drop_last() =~= cells@.subrange(0, i as int));
            assert(upto.last() == cells@[i as int]);
        }
        if same_key(&cell.owner, program_id) && passes(filters, cell.data.as_slice()) {
            addresses.push(cell.address);
            assert(address_list(addresses@) =~= before.push(cell.address@));
        }
        i += 1;
    }
    assert(cells@.subrange(0, i as int) =~= cells@);
    addresses
}

/// The addresses of the credentials among the cells of a program.
pub fn get_all_credential_addresses(program_id: &[u8; 32], cells: &[Cell]) -> (addresses: Vec<
    [u8; 32],
>)
    ensures
        address_list(addresses@) == selected(cells@, program_id@, credential_filter_list()),
{
    let filters = credential_filters();
    select(cells, program_id, filters.as_slice())
}

/// The addresses of the schemas of a credential among the cells of a program.
pub fn get_all_schema_addresses(program_id: &[u8; 32], cells: &[Cell], credential_pda: &[u8; 32])
    -> (addresses: Vec<[u8; 32]>)
    ensures
        address_list(addresses@) == selected(
            cells@,
            program_id@,
            schema_filter_list(credential_pda@),
        ),
{
    let filters = schema_filters(credential_pda);
    select(cells, program_id, filters.as_slice())
}

/// The addresses of the attestations under a credential and a schema among
/// the cells of a program.
pub fn get_all_attestation_addresses(
    program_id: &[u8; 32],
    cells: &[Cell],
    credential_pda: &[u8; 32],
    schema_pda: &[u8; 32],
) -> (addresses: Vec<[u8; 32]>)
    ensures
        address_list(addresses@) == selected(
            cells@,
            program_id@,
            attestation_filter_list(credential_pda@, schema_pda@),
        ),
{
    let filters = attestation_filters(credential_pda, schema_pda);
    select(cells, program_id, filters.as_slice())
}

/// A stored credential passes the credential comparison, and no stored
/// record of another kind does.
pub proof fn lemma_credential_filter_exact(c: CredentialView, s: SchemaView, a: AttestationView)
    requires
        c.well_formed(),
        s.well_formed(),
        a.well_formed(),
    ensures
        matches_all(credential_filter_list(), c.encoded()),
        !matches_all(credential_filter_list(), s.encoded()),
        !matches_all(credential_filter_list(), a.encoded()),
{
    let filters = credential_filter_list();
    lemma_credential_roundtrip(c);
    lemma_schema_roundtrip(s);
    lemma_frame_roundtrip(a.frame());
    assert(c.encoded().subrange(0, 1) =~= seq![0u8]);
    assert(s.encoded().subrange(0, 1)[0] == 1u8);
    assert(a.encoded().subrange(0, 1)[0] == 2u8);
    assert(!filters[0].matches(s.encoded()));
    assert(!filters[0].matches(a.encoded()));
}

/// A stored schema passes the comparisons for a credential exactly when it
/// belongs to that credential.
pub proof fn lemma_schema_filter_exact(s: SchemaView, credential: Seq<u8>)
    requires
        s.well_formed(),
        credential.len() == 32,
    ensures
        matches_all(schema_filter_list(credential), s.encoded()) <==> s.credential == credential,
{
    let filters = schema_filter_list(credential);
    let b = s.encoded();
    lemma_schema_roundtrip(s);
    assert(b.subrange(0, 1) =~= seq![1u8]);
    assert(b.subrange(1, 33) =~= s.credential);
    if s.credential == credential {
        assert(filters[0].matches(b));
        assert(filters[1].matches(b));
    } else {
        assert(!filters[1].matches(b));
    }
}

/// A stored attestation passes the comparisons for a credential and a
/// schema exactly when it was issued under both.
pub proof fn lemma_attestation_filter_exact(a: AttestationView, credential: Seq<u8>, schema: Seq<u8>)
    requires
        a.well_formed(),
        credential.len() == 32,
        schema.len() == 32,
    ensures
        matches_all(attestation_filter_list(credential, schema), a.encoded()) <==> a.credential
            == credential && a.schema == schema,
{
    let filters = attestation_filter_list(credential, schema);
    let b = a.encoded();
    lemma_frame_roundtrip(a.frame());
    lemma_prefixed_len(a.data);
    assert(b.subrange(0, 1) =~= seq![2u8]);
    assert(b.subrange(33, 65) =~= a.credential);
    assert(b.subrange(65, 97) =~= a.schema);
    if a.credential == credential && a.schema == schema {
        assert(filters[0].matches(b));
        assert(filters[1].matches(b));
        assert(filters[2].matches(b));
    } else if a.credential != credential {
        assert(!filters[1].matches(b));
    } else {
        assert(!filters[2].matches(b));
    }
}

} // verus!
