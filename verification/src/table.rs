use vstd::prelude::*;

use crate::schema::Schema;

verus! {

/// The append-only columnar buffer for function-selector usage rows.
///
/// `n_rows` counts every appended row. Each column holds one value per row
/// while the active schema requests that column; an unrequested column stays
/// permanently empty, so that downstream consumers reading only requested
/// columns never see a partially padded one.
pub struct FourByteCounts {
    pub n_rows: u64,
    pub block_number: Vec<Option<u32>>,
    pub transaction_index: Vec<Option<u32>>,
    pub transaction_hash: Vec<Option<Vec<u8>>>,
    pub signature: Vec<Vec<u8>>,
    pub size: Vec<u64>,
    pub count: Vec<u64>,
    pub chain_id: Vec<u64>,
}

impl FourByteCounts {
    /// Well-formedness under `schema`: a requested column holds one value
    /// per row, an unrequested column holds none.
    pub open spec fn wf(self, schema: Schema) -> bool {
        &&& self.block_number@.len() == if schema.block_number {
            self.n_rows as int
        } else {
            0
        }
        &&& self.transaction_index@.len() == if schema.transaction_index {
            self.n_rows as int
        } else {
            0
        }
        &&& self.transaction_hash@.len() == if schema.transaction_hash {
            self.n_rows as int
        } else {
            0
        }
        &&& self.signature@.len() == if schema.signature {
            self.n_rows as int
        } else {
            0
        }
        &&& self.size@.len() == if schema.size {
            self.n_rows as int
        } else {
            0
        }
        &&& self.count@.len() == if schema.count {
            self.n_rows as int
        } else {
            0
        }
        &&& self.chain_id@.len() == if schema.chain_id {
            self.n_rows as int
        } else {
            0
        }
    }

    /// Whether the table holds no rows and no column values at all.
    pub open spec fn is_empty(self) -> bool {
        &&& self.n_rows == 0
        &&& self.block_number@.len() == 0
        &&& self.transaction_index@.len() == 0
        &&& self.transaction_hash@.len() == 0
        &&& self.signature@.len() == 0
        &&& self.size@.len() == 0
        &&& self.count@.len() == 0
        &&& self.chain_id@.len() == 0
    }

    /// A fresh, empty table; one is created at the start of each extraction
    /// request and never reused.
    pub fn new() -> (t: Self)
        ensures
            t.is_empty(),
            forall|schema: Schema| t.wf(schema),
    {
        FourByteCounts {
            n_rows: 0,
            block_number: Vec::new(),
            transaction_index: Vec::new(),
            transaction_hash: Vec::new(),
            signature: Vec::new(),
            size: Vec::new(),
            count: Vec::new(),
            chain_id: Vec::new(),
        }
    }

    /// The alternative names this dataset answers to.
    pub fn aliases() -> (r: Vec<&'static str>)
        ensures
            r@.len() == 1,
            r@[0]@ == "4byte_counts"@,
    {
        let mut v: Vec<&'static str> = Vec::new();
        v.push("4byte_counts");
        v
    }

    /// Appends one output row: the row counter always moves, and each field
    /// slot is appended to its column only when `schema` requests that
    /// column.
    #[allow(clippy::too_many_arguments)]
    pub fn append_row(
        &mut self,
        schema: &Schema,
        block_number: Option<u32>,
        transaction_index: Option<u32>,
        transaction_hash: Option<Vec<u8>>,
        signature: Vec<u8>,
        size: u64,
        count: u64,
        chain_id: u64,
    )
        requires
            old(self).n_rows < u64::MAX,
        ensures
            final(self).n_rows == old(self).n_rows + 1,
            final(self).block_number@ == if schema.block_number {
                old(self).block_number@.push(block_number)
            } else {
                old(self).block_number@
            },
            final(self).transaction_index@ == if schema.transaction_index {
                old(self).transaction_index@.push(transaction_index)
            } else {
                old(self).transaction_index@
            },
            final(self).transaction_hash@ == if schema.transaction_hash {
                old(self).transaction_hash@.push(transaction_hash)
            } else {
                old(self).transaction_hash@
            },
            final(self).signature@ == if schema.signature {
                old(self).signature@.push(signature)
            } else {
                old(self).signature@
            },
            final(self).size@ == if schema.size {
                old(self).size@.push(size)
            } else {
                old(self).size@
            },
            final(self).count@ == if schema.count {
                old(self).count@.push(count)
            } else {
                old(self).count@
            },
            final(self).chain_id@ == if schema.chain_id {
                old(self).chain_id@.push(chain_id)
            } else {
                old(self).chain_id@
            },
            old(self).wf(*schema) ==> final(self).wf(*schema),
    {
        self.n_rows = self.n_rows + 1;
        if schema.block_number {
            self.block_number.push(block_number);
        }
        if schema.transaction_index {
            self.transaction_index.push(transaction_index);
        }
        if schema.transaction_hash {
            self.transaction_hash.push(transaction_hash);
        }
        if schema.signature {
            self.signature.push(signature);
        }
        if schema.size {
            self.size.push(size);
        }
        if schema.count {
            self.count.push(count);
        }
        if schema.chain_id {
            self.chain_id.push(chain_id);
        }
    }
}

impl Default for FourByteCounts {
    /// An empty table, as a fresh extraction request starts with.
    fn default() -> (t: Self)
        ensures
            t.is_empty(),
            forall|schema: Schema| t.wf(schema),
    {
        FourByteCounts::new()
    }
}

/// An unrequested column's sequence is empty in every well-formed table,
/// however many rows the table holds.
pub proof fn lemma_unrequested_column_stays_empty(t: FourByteCounts, schema: Schema)
    requires
        t.wf(schema),
    ensures
        !schema.block_number ==> t.block_number@.len() == 0,
        !schema.transaction_index ==> t.transaction_index@.len() == 0,
        !schema.transaction_hash ==> t.transaction_hash@.len() == 0,
        !schema.signature ==> t.signature@.len() == 0,
        !schema.size ==> t.size@.len() == 0,
        !schema.count ==> t.count@.len() == 0,
        !schema.chain_id ==> t.chain_id@.len() == 0,
{
}

} // verus!
