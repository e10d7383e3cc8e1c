use vstd::prelude::*;
use crate::keyed::StringTable;
use crate::runtime::value::JsonDatum;
use crate::text::str_eq;

verus! {

/// What a block of a flow does and where control goes next.
#[derive(Debug, Clone)]
pub enum BlockType {
    Conditional { condition: String, true_block: String, false_block: String },
    Compute { expression: String, output_key: String, next_block: String },
    AwaitInput { interaction_id: String, agent_id: String, prompt: String, state_key: String, next_block: String },
    ForEach { loop_id: String, array_path: String, iterator_var: String, loop_body_block_id: String, exit_block_id: String },
    TryCatch { try_block_id: String, catch_block_id: String },
    SubFlow { flow_id: String, input_map: StringTable<JsonDatum>, output_key: String, next_block: String },
    Continue { loop_id: String },
    Break { loop_id: String },
    Terminate,
}

/// A block: its identifier and what it does.
#[derive(Debug, Clone)]
pub struct BlockDefinition {
    pub id: String,
    pub block_type: BlockType,
}

impl BlockDefinition {
    /// The block `id` of the given type.
    pub fn new(id: &str, block_type: BlockType) -> (b: Self)
        ensures
            b.id@ == id@,
            b.block_type == block_type,
    {
        BlockDefinition { id: String::from_str(id), block_type }
    }
}

/// A flow: its blocks, where it starts, who takes part, and its state.
#[derive(Debug, Clone)]
pub struct FlowDefinition {
    pub id: String,
    pub start_block_id: String,
    pub blocks: Vec<BlockDefinition>,
    pub participants: Vec<String>,
    pub permissions: StringTable<Vec<String>>,
    pub initial_state: Option<JsonDatum>,
    pub state_schema: Option<JsonDatum>,
}

/// Position `i` holds the first block with identifier `id`.
pub open spec fn first_block(blocks: Seq<BlockDefinition>, id: Seq<char>, i: int) -> bool {
    &&& 0 <= i < blocks.len()
    &&& blocks[i].id@ == id
    &&& forall|j: int| 0 <= j < i ==> #[trigger] blocks[j].id@ != id
}

impl FlowDefinition {
    /// An empty flow starting at `start_block_id`.
    pub fn new(id: &str, start_block_id: &str) -> (f: Self)
        ensures
            f.id@ == id@,
            f.start_block_id@ == start_block_id@,
            f.blocks@ == Seq::<BlockDefinition>::empty(),
            f.participants@ == Seq::<String>::empty(),
            f.permissions.wf(),
            f.permissions.map() == Map::<Seq<char>, Vec<String>>::empty(),
            f.initial_state is None,
            f.state_schema is None,
    {
        FlowDefinition {
            id: String::from_str(id),
            start_block_id: String::from_str(start_block_id),
            blocks: Vec::new(),
            participants: Vec::new(),
            permissions: StringTable::new(),
            initial_state: None,
            state_schema: None,
        }
    }

    /// Appends a block.
    pub fn add_block(&mut self, block: BlockDefinition) -> (r: &mut Self)
        ensures
            r.blocks@ == old(self).blocks@.push(block),
            r.id == old(self).id,
            r.start_block_id == old(self).start_block_id,
            r.participants == old(self).participants,
            r.permissions == old(self).permissions,
            r.initial_state == old(self).initial_state,
            r.state_schema == old(self).state_schema,
            *final(self) == *final(r),
    {
        self.blocks.push(block);
        self
    }

    /// Appends a participant.
    pub fn add_participant(&mut self, participant: &str) -> (r: &mut Self)
        ensures
            r.participants@.len() == old(self).participants@.len() + 1,
            r.participants@.drop_last() == old(self).participants@,
            r.participants@.last()@ == participant@,
            r.id == old(self).id,
            r.start_block_id == old(self).start_block_id,
            r.blocks == old(self).blocks,
            r.permissions == old(self).permissions,
            r.initial_state == old(self).initial_state,
            r.state_schema == old(self).state_schema,
            *final(self) == *final(r),
    {
        self.participants.push(String::from_str(participant));
        proof { assert(self.participants@.drop_last() =~= old(self).participants@); }
        self
    }

    /// Sets the state the flow starts with.
    pub fn set_initial_state(&mut self, state: JsonDatum) -> (r: &mut Self)
        ensures
            r.initial_state == Some(state),
            r.id == old(self).id,
            r.start_block_id == old(self).start_block_id,
            r.blocks == old(self).blocks,
            r.participants == old(self).participants,
            r.permissions == old(self).permissions,
            r.state_schema == old(self).state_schema,
            *final(self) == *final(r),
    {
        self.initial_state = Some(state);
        self
    }

    /// Sets the schema of the flow's state.
    pub fn set_state_schema(&mut self, schema: JsonDatum) -> (r: &mut Self)
        ensures
            r.state_schema == Some(schema),
            r.id == old(self).id,
            r.start_block_id == old(self).start_block_id,
            r.blocks == old(self).blocks,
            r.participants == old(self).participants,
            r.permissions == old(self).permissions,
            r.initial_state == old(self).initial_state,
            *final(self) == *final(r),
    {
        self.state_schema = Some(schema);
        self
    }

    /// The first block with identifier `id`, if any.
    pub fn get_block(&self, id: &str) -> (r: Option<&BlockDefinition>)
        ensures
            r matches Some(b) ==> exists|i: int| first_block(self.blocks@, id@, i) && *b == self.blocks@[i],
            r is None ==> forall|j: int| 0 <= j < self.blocks@.len() ==> #[trigger] self.blocks@[j].id@ != id@,
    {
        let mut i: usize = 0;
        while i < self.blocks.len()
            invariant
                i <= self.blocks@.len(),
                forall|j: int| 0 <= j < i ==> #[trigger] self.blocks@[j].id@ != id@,
            decreases self.blocks.len() - i,
        {
            if str_eq(self.blocks[i].id.as_str(), id) {
                proof { assert(first_block(self.blocks@, id@, i as int)); }
                return Some(&self.blocks[i]);
            }
            i = i + 1;
        }
        None
    }
}

} // verus!
