//! The storage that the registry lives in: independently addressed cells,
//! each created at most once.
//!
//! There is no index and no lock. A cell is created only where none stands
//! at its address, and no instruction of this registry changes a cell
//! once it stands: two attempts to create the same record race for one
//! address, and the second finds it taken.

use crate::account::{account_list, system_program, AccountInfo, AccountInfoView};
use crate::address::{derivation, request_seeds};
use crate::claim::RequestView;
use crate::credential::credential_decoding;
use crate::schema::schema_decoding;
use crate::error::RegistryError;
use crate::instruction::{payload_of, payload_well_formed};
use crate::processor::{
    dispatch, draft_of, handled, parent_fault, CreationView, Instruction,
};
use crate::wire::same_key;
use vstd::prelude::*;

verus! {

/// An account that an instruction names, and how.
#[derive(Clone, Copy, Debug)]
pub struct AccountMeta {
    /// The address of the account.
    pub key: [u8; 32],
    /// Whether the holder of `key` signed the instruction.
    pub is_signer: bool,
    /// Whether the instruction may change the account.
    pub is_writable: bool,
}

/// An account that an instruction names as plain values.
pub struct MetaView {
    pub key: Seq<u8>,
    pub is_signer: bool,
    pub is_writable: bool,
}

impl AccountMeta {
    /// The account as plain values.
    pub open spec fn view(&self) -> MetaView {
        MetaView { key: self.key@, is_signer: self.is_signer, is_writable: self.is_writable }
    }
}

/// The accounts that an instruction names as plain values.
pub open spec fn meta_list(metas: Seq<AccountMeta>) -> Seq<MetaView> {
    Seq::new(metas.len(), |i: int| metas[i]@)
}

/// A storage cell.
#[derive(Clone, Debug)]
pub struct Cell {
    /// Where the cell stands.
    pub address: [u8; 32],
    /// The program that owns the cell.
    pub owner: [u8; 32],
    /// What the cell holds.
    pub data: Vec<u8>,
}

/// What stands at an address.
pub struct CellView {
    pub owner: Seq<u8>,
    pub data: Seq<u8>,
}

/// The cells by address.
pub type State = Map<Seq<u8>, CellView>;

/// The cells of a list by address. Of two cells at one address the first
/// counts.
pub open spec fn state_of(cells: Seq<Cell>) -> State {
    Map::new(
        |a: Seq<u8>| exists|i: int| 0 <= i < cells.len() && #[trigger] cells[i].address@ == a,
        |a: Seq<u8>|
            {
                let i = choose|i: int| 0 <= i < cells.len() && #[trigger] cells[i].address@ == a;
                CellView { owner: cells[i].owner@, data: cells[i].data@ }
            },
    )
}

/// Whether no two cells of a list share an address and no cell is empty.
pub open spec fn cells_distinct(cells: Seq<Cell>) -> bool {
    &&& forall|i: int, j: int|
        0 <= i < j < cells.len() ==> #[trigger] cells[i].address@ != #[trigger] cells[j].address@
    &&& forall|i: int| 0 <= i < cells.len() ==> (#[trigger] cells[i]).data@.len() > 0
}

/// The account that an instruction sees at `key`: the cell that stands
/// there, or an unallocated account of the system program.
pub open spec fn loaded(state: State, key: Seq<u8>, is_signer: bool, is_writable: bool)
    -> AccountInfoView {
    if state.contains_key(key) {
        AccountInfoView {
            key,
            owner: state[key].owner,
            is_signer,
            is_writable,
            data: state[key].data,
        }
    } else {
        AccountInfoView {
            key,
            owner: system_program(),
            is_signer,
            is_writable,
            data: Seq::<u8>::empty(),
        }
    }
}

/// The accounts that an instruction sees.
pub open spec fn loaded_list(state: State, metas: Seq<MetaView>) -> Seq<AccountInfoView> {
    Seq::new(
        metas.len(),
        |i: int| loaded(state, metas[i].key, metas[i].is_signer, metas[i].is_writable),
    )
}

/// What an instruction comes to in a state: the cell to create, or the
/// first fault.
pub open spec fn outcome(
    state: State,
    program_id: Seq<u8>,
    instruction: Instruction,
    metas: Seq<MetaView>,
    data: Seq<u8>,
) -> Result<CreationView, RegistryError> {
    handled(draft_of(instruction, program_id, loaded_list(state, metas), data), program_id)
}

/// The state with the created cell in it.
pub open spec fn applied(state: State, creation: CreationView) -> State {
    state.insert(creation.address, CellView { owner: creation.owner, data: creation.data })
}

/// The storage cells of a registry.
pub struct Ledger {
    cells: Vec<Cell>,
}

impl Ledger {
    #[verifier::type_invariant]
    spec fn sound(self) -> bool {
        cells_distinct(self.cells@)
    }

    /// The cells by address.
    pub closed spec fn view(&self) -> State {
        state_of(self.cells@)
    }

    /// A ledger without cells.
    pub fn new() -> (ledger: Ledger)
        ensures
            ledger@ == Map::<Seq<u8>, CellView>::empty(),
    {
        let ledger = Ledger { cells: Vec::new() };
        assert(ledger@ =~= Map::<Seq<u8>, CellView>::empty());
        ledger
    }

    /// The ledger with one more cell, at an address where none stood.
    fn with(self, cell: Cell) -> (ledger: Ledger)
        requires
            !self@.contains_key(cell.address@),
            cell.data@.len() > 0,
        ensures
            ledger@ == self@.insert(
                cell.address@,
                CellView { owner: cell.owner@, data: cell.data@ },
            ),
    {
        proof {
            use_type_invariant(&self);
            lemma_state_push(self.cells@, cell);
        }
        let mut cells = self.cells;
        cells.push(cell);
        Ledger { cells }
    }

    /// The number of cells.
    pub fn len(&self) -> (n: usize)
        ensures
            n == self@.dom().len(),
            self@.dom().finite(),
    {
        proof {
            use_type_invariant(self);
            lemma_state_size(self.cells@);
        }
        self.cells.len()
    }

    /// The cells, in the order in which they were created.
    pub fn cells(&self) -> (cells: &Vec<Cell>)
        ensures
            cells_distinct(cells@),
            state_of(cells@) == self@,
    {
        proof {
            use_type_invariant(self);
        }
        &self.cells
    }

    /// The place of the cell at `address`, if one stands there.
    fn position(&self, address: &[u8; 32]) -> (r: Option<usize>)
        ensures
            match r {
                Some(i) => i < self.cells@.len() && self.cells@[i as int].address@ == address@,
                None => !self@.contains_key(address@),
            },
    {
        let mut i: usize = 0;
        while i < self.cells.len()
            invariant
                i <= self.cells@.len(),
                forall|j: int| 0 <= j < i ==> (#[trigger] self.cells@[j]).address@ != address@,
            decreases self.cells@.len() - i,
        {
            if same_key(&self.cells[i].address, address) {
                return Some(i);
            }
            i += 1;
        }
        None
    }

    /// What the cell at `address` holds, if one stands there.
    pub fn data(&self, address: &[u8; 32]) -> (r: Option<&Vec<u8>>)
        ensures
            match r {
                Some(data) => self@.contains_key(address@) && data@ == self@[address@].data,
                None => !self@.contains_key(address@),
            },
    {
        proof {
            use_type_invariant(self);
        }
        match self.position(address) {
            Some(i) => {
                proof {
                    lemma_state_at(self.cells@, i as int);
                }
                Some(&self.cells[i].data)
            },
            None => None,
        }
    }

    /// The account that an instruction sees at `key`.
    pub fn account(&self, key: &[u8; 32], is_signer: bool, is_writable: bool) -> (account:
        AccountInfo)
        ensures
            account@ == loaded(self@, key@, is_signer, is_writable),
    {
        proof {
            use_type_invariant(self);
        }
        match self.position(key) {
            Some(i) => {
                proof {
                    lemma_state_at(self.cells@, i as int);
                }
                AccountInfo {
                    key: *key,
                    owner: self.cells[i].owner,
                    is_signer,
                    is_writable,
                    data: self.cells[i].data.clone(),
                }
            },
            None => AccountInfo::unallocated(*key, is_signer, is_writable),
        }
    }

    /// The accounts that an instruction sees.
    fn load(&self, metas: &[AccountMeta]) -> (accounts: Vec<AccountInfo>)
        ensures
            account_list(accounts@) == loaded_list(self@, meta_list(metas@)),
    {
        let mut accounts: Vec<AccountInfo> = Vec::new();
        let mut i: usize = 0;
        while i < metas.len()
            invariant
                i <= metas@.len(),
                accounts@.len() == i,
                forall|j: int|
                    0 <= j < i ==> (#[trigger] accounts@[j])@ == loaded(
                        self@,
                        metas@[j].key@,
                        metas@[j].is_signer,
                        metas@[j].is_writable,
                    ),
            decreases metas@.len() - i,
        {
            let meta = &metas[i];
            accounts.push(self.account(&meta.key, meta.is_signer, meta.is_writable));
            i += 1;
        }
        assert(account_list(accounts@) =~= loaded_list(self@, meta_list(metas@)));
        accounts
    }

    /// Carries out an instruction: the cell it calls for is created and its
    /// address handed back, or the first fault is reported and nothing
    /// changes. No cell that stood before is touched either way.
    pub fn execute(
        &mut self,
        program_id: &[u8; 32],
        instruction: Instruction,
        metas: &[AccountMeta],
        data: &[u8],
    ) -> (r: Result<[u8; 32], RegistryError>)
        ensures
            match outcome(old(self)@, program_id@, instruction, meta_list(metas@), data@) {
                Ok(creation) => {
                    &&& r is Ok
                    &&& r->Ok_0@ == creation.address
                    &&& !old(self)@.contains_key(creation.address)
                    &&& final(self)@ == applied(old(self)@, creation)
                },
                Err(e) => r == Err::<[u8; 32], RegistryError>(e) && final(self)@ == old(self)@,
            },
    {
        proof {
            use_type_invariant(&*self);
        }
        let accounts = self.load(metas);
        let handled = dispatch(instruction, program_id, accounts.as_slice(), data);
        match handled {
            Err(e) => Err(e),
            Ok(creation) => {
                proof {
                    lemma_no_empty_cell(self.cells@);
                    lemma_created_where_free(
                        self@,
                        program_id@,
                        instruction,
                        meta_list(metas@),
                        data@,
                    );
                }
                let address: [u8; 32] = creation.address;
                let mut current = Ledger::new();
                core::mem::swap(self, &mut current);
                *self = current.with(Cell { address, owner: creation.owner, data: creation.data });
                Ok(address)
            },
        }
    }
}

/// The cell at a place of a list without doubles is what stands at its
/// address.
pub proof fn lemma_state_at(cells: Seq<Cell>, i: int)
    requires
        cells_distinct(cells),
        0 <= i < cells.len(),
    ensures
        state_of(cells).contains_key(cells[i].address@),
        state_of(cells)[cells[i].address@] == (CellView {
            owner: cells[i].owner@,
            data: cells[i].data@,
        }),
{
    let a = cells[i].address@;
    let k = choose|k: int| 0 <= k < cells.len() && #[trigger] cells[k].address@ == a;
    assert(k == i) by {
        if k < i {
            assert(cells[k].address@ != cells[i].address@);
        } else if i < k {
            assert(cells[i].address@ != cells[k].address@);
        }
    }
}

/// A list without doubles holds as many cells as there are addresses.
pub proof fn lemma_state_size(cells: Seq<Cell>)
    requires
        cells_distinct(cells),
    ensures
        state_of(cells).dom().finite(),
        state_of(cells).dom().len() == cells.len(),
    decreases cells.len(),
{
    if cells.len() == 0 {
        assert(state_of(cells).dom() =~= Set::<Seq<u8>>::empty());
    } else {
        let front = cells.drop_last();
        let last = cells.last();
        assert(cells_distinct(front)) by {
            assert forall|i: int, j: int| 0 <= i < j < front.len() implies #[trigger] front[i].address@
                != #[trigger] front[j].address@ by {
                assert(cells[i].address@ != cells[j].address@);
            }
            assert forall|i: int| 0 <= i < front.len() implies (#[trigger] front[i]).data@.len()
                > 0 by {
                assert(cells[i].data@.len() > 0);
            }
        }
        lemma_state_size(front);
        assert(!state_of(front).dom().contains(last.address@)) by {
            if state_of(front).dom().contains(last.address@) {
                let k = choose|k: int|
                    0 <= k < front.len() && #[trigger] front[k].address@ == last.address@;
                assert(cells[k].address@ != cells[cells.len() - 1].address@);
            }
        }
        assert(state_of(cells).dom() =~= state_of(front).dom().insert(last.address@)) by {
            assert forall|a: Seq<u8>| state_of(cells).dom().contains(a) implies state_of(
                front,
            ).dom().insert(last.address@).contains(a) by {
                let k = choose|k: int| 0 <= k < cells.len() && #[trigger] cells[k].address@ == a;
                if k < front.len() {
                    assert(front[k].address@ == a);
                }
            }
            assert forall|a: Seq<u8>|
                state_of(front).dom().insert(last.address@).contains(a) implies state_of(
                cells,
            ).dom().contains(a) by {
                if a == last.address@ {
                    assert(cells[cells.len() - 1].address@ == a);
                } else {
                    let k = choose|k: int|
                        0 <= k < front.len() && #[trigger] front[k].address@ == a;
                    assert(cells[k].address@ == a);
                }
            }
        }
    }
}

/// A cell put behind a list at a free address, and not empty, keeps the
/// list without doubles and adds the cell to what stands.
pub proof fn lemma_state_push(cells: Seq<Cell>, cell: Cell)
    requires
        cells_distinct(cells),
        !state_of(cells).contains_key(cell.address@),
        cell.data@.len() > 0,
    ensures
        cells_distinct(cells.push(cell)),
        state_of(cells.push(cell)) == state_of(cells).insert(
            cell.address@,
            CellView { owner: cell.owner@, data: cell.data@ },
        ),
{
    let more = cells.push(cell);
    assert forall|i: int, j: int| 0 <= i < j < more.len() implies #[trigger] more[i].address@
        != #[trigger] more[j].address@ by {
        if j < cells.len() {
            assert(cells[i].address@ != cells[j].address@);
        } else {
            assert(cells[i].address@ != cell.address@) by {
                if cells[i].address@ == cell.address@ {
                    assert(state_of(cells).contains_key(cells[i].address@));
                }
            }
        }
    }
    assert(cells_distinct(more));
    let target = state_of(cells).insert(
        cell.address@,
        CellView { owner: cell.owner@, data: cell.data@ },
    );
    assert forall|a: Seq<u8>| state_of(more).contains_key(a) <==> target.contains_key(a) by {
        if state_of(more).contains_key(a) {
            let k = choose|k: int| 0 <= k < more.len() && #[trigger] more[k].address@ == a;
            if k < cells.len() {
                assert(cells[k].address@ == a);
            }
        }
        if target.contains_key(a) {
            if a == cell.address@ {
                assert(more[cells.len() as int].address@ == a);
            } else {
                let k = choose|k: int| 0 <= k < cells.len() && #[trigger] cells[k].address@ == a;
                assert(more[k].address@ == a);
            }
        }
    }
    assert forall|a: Seq<u8>| state_of(more).contains_key(a) implies state_of(more)[a]
        == target[a] by {
        let k = choose|k: int| 0 <= k < more.len() && #[trigger] more[k].address@ == a;
        lemma_state_at(more, k);
        if k < cells.len() {
            lemma_state_at(cells, k);
        }
    }
    assert(state_of(more) =~= target);
}

/// Nothing stands empty in the state of a list that holds no empty cell.
pub proof fn lemma_no_empty_cell(cells: Seq<Cell>)
    requires
        cells_distinct(cells),
    ensures
        no_empty_cell(state_of(cells)),
{
    assert forall|a: Seq<u8>| state_of(cells).contains_key(a) implies (#[trigger] state_of(
        cells,
    )[a]).data.len() > 0 by {
        let k = choose|k: int| 0 <= k < cells.len() && #[trigger] cells[k].address@ == a;
        lemma_state_at(cells, k);
    }
}

/// Whether nothing stands empty in a state.
pub open spec fn no_empty_cell(state: State) -> bool {
    forall|a: Seq<u8>| state.contains_key(a) ==> (#[trigger] state[a]).data.len() > 0
}

/// The target of a draft that settles is free, and what is created is not
/// empty.
pub proof fn lemma_created_where_free(
    state: State,
    program_id: Seq<u8>,
    instruction: Instruction,
    metas: Seq<MetaView>,
    data: Seq<u8>,
)
    requires
        no_empty_cell(state),
        outcome(state, program_id, instruction, metas, data) is Ok,
    ensures
        !state.contains_key(outcome(state, program_id, instruction, metas, data)->Ok_0.address),
        outcome(state, program_id, instruction, metas, data)->Ok_0.data.len() > 0,
        outcome(state, program_id, instruction, metas, data)->Ok_0.owner == program_id,
{
    let accounts = loaded_list(state, metas);
    let draft = draft_of(instruction, program_id, accounts, data)->Ok_0;
    let place: int = match instruction {
        Instruction::CreateCredential => 1,
        Instruction::CreateSchema => 3,
        Instruction::CreateAttestation => 4,
        Instruction::CreateRequest => 4,
    };
    assert(draft.target == accounts[place].key);
    assert(draft.occupied == accounts[place].occupied());
    assert(draft.record.len() > 0);
    if state.contains_key(draft.target) {
        assert(state[draft.target].data.len() > 0);
        assert(accounts[place].occupied());
    }
}

/// Creating a cell leaves every cell that stood before as it was.
pub proof fn lemma_cells_persist(
    state: State,
    program_id: Seq<u8>,
    instruction: Instruction,
    metas: Seq<MetaView>,
    data: Seq<u8>,
    address: Seq<u8>,
)
    requires
        no_empty_cell(state),
        outcome(state, program_id, instruction, metas, data) is Ok,
        state.contains_key(address),
    ensures
        applied(state, outcome(state, program_id, instruction, metas, data)->Ok_0).contains_key(
            address,
        ),
        applied(state, outcome(state, program_id, instruction, metas, data)->Ok_0)[address]
            == state[address],
        no_empty_cell(applied(state, outcome(state, program_id, instruction, metas, data)->Ok_0)),
{
    lemma_created_where_free(state, program_id, instruction, metas, data);
}

/// A record is created at most once. After an instruction has created a
/// record, no instruction with the same seeds succeeds, whatever else it
/// supplies; one that passes its own checks and names the address fails
/// with `AlreadyExists`.
pub proof fn lemma_created_once(
    state: State,
    program_id: Seq<u8>,
    first: Instruction,
    first_metas: Seq<MetaView>,
    first_data: Seq<u8>,
    second: Instruction,
    second_metas: Seq<MetaView>,
    second_data: Seq<u8>,
)
    requires
        no_empty_cell(state),
        outcome(state, program_id, first, first_metas, first_data) is Ok,
        ({
            let after = applied(
                state,
                outcome(state, program_id, first, first_metas, first_data)->Ok_0,
            );
            let again = draft_of(
                second,
                program_id,
                loaded_list(after, second_metas),
                second_data,
            );
            again is Ok ==> again->Ok_0.seeds == draft_of(
                first,
                program_id,
                loaded_list(state, first_metas),
                first_data,
            )->Ok_0.seeds
        }),
    ensures
        ({
            let created = outcome(state, program_id, first, first_metas, first_data)->Ok_0;
            let after = applied(state, created);
            let again = draft_of(
                second,
                program_id,
                loaded_list(after, second_metas),
                second_data,
            );
            &&& outcome(after, program_id, second, second_metas, second_data) is Err
            &&& again is Ok && again->Ok_0.target == created.address ==> outcome(
                after,
                program_id,
                second,
                second_metas,
                second_data,
            ) == Err::<CreationView, RegistryError>(RegistryError::AlreadyExists)
        }),
{
    let created = outcome(state, program_id, first, first_metas, first_data)->Ok_0;
    let after = applied(state, created);
    lemma_created_where_free(state, program_id, first, first_metas, first_data);
    assert(no_empty_cell(after));
    if outcome(after, program_id, second, second_metas, second_data) is Ok {
        lemma_created_where_free(after, program_id, second, second_metas, second_data);
    }
}

/// Of two requests for the same credential, schema and nonce only the
/// first is created. The second, whoever pays for it, fails with
/// `AlreadyExists`, and the first request stands as it was written, with
/// its own signer.
pub proof fn lemma_request_created_once(
    state: State,
    program_id: Seq<u8>,
    first_metas: Seq<MetaView>,
    first_data: Seq<u8>,
    second_metas: Seq<MetaView>,
    second_data: Seq<u8>,
)
    requires
        no_empty_cell(state),
        outcome(state, program_id, Instruction::CreateRequest, first_metas, first_data) is Ok,
        second_metas.len() == 6,
        second_metas[0].is_signer,
        second_metas[2].key == first_metas[2].key,
        second_metas[3].key == first_metas[3].key,
        second_metas[4].key == first_metas[4].key,
        payload_well_formed(second_data),
        payload_of(second_data).nonce == payload_of(first_data).nonce,
    ensures
        ({
            let created = outcome(
                state,
                program_id,
                Instruction::CreateRequest,
                first_metas,
                first_data,
            )->Ok_0;
            let after = applied(state, created);
            &&& outcome(after, program_id, Instruction::CreateRequest, second_metas, second_data)
                == Err::<CreationView, RegistryError>(RegistryError::AlreadyExists)
            &&& after.contains_key(created.address)
            &&& after[created.address].data == (RequestView {
                credential: first_metas[2].key,
                schema: first_metas[3].key,
                signer: first_metas[0].key,
                nonce: payload_of(first_data).nonce,
                data: payload_of(first_data).data,
                expiry: payload_of(first_data).expiry,
            }).encoded()
        }),
{
    let first = loaded_list(state, first_metas);
    let created = outcome(
        state,
        program_id,
        Instruction::CreateRequest,
        first_metas,
        first_data,
    )->Ok_0;
    let after = applied(state, created);
    let second = loaded_list(after, second_metas);
    lemma_created_where_free(state, program_id, Instruction::CreateRequest, first_metas, first_data);
    let credential = first_metas[2].key;
    let schema = first_metas[3].key;
    assert(created.address == first[4].key);
    assert(parent_fault(program_id, first[2], first[3]) is None);
    assert(state.contains_key(credential)) by {
        reveal(credential_decoding);
        if !state.contains_key(credential) {
            assert(first[2].data.len() == 0);
        }
    }
    assert(state.contains_key(schema)) by {
        reveal(schema_decoding);
        if !state.contains_key(schema) {
            assert(first[3].data.len() == 0);
        }
    }
    assert(second[2].data == first[2].data && second[2].owner == first[2].owner && second[2].key
        == first[2].key);
    assert(second[3].data == first[3].data && second[3].owner == first[3].owner && second[3].key
        == first[3].key);
    assert(parent_fault(program_id, second[2], second[3]) is None);
    assert(second[4].occupied()) by {
        assert(after.contains_key(created.address));
        assert(second[4].data == created.data);
    }
    let seeds = request_seeds(credential, schema, payload_of(first_data).nonce);
    assert(derivation(seeds, program_id) is Ok);
}

} // verus!
