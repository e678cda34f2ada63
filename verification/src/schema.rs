use vstd::prelude::*;

verus! {

/// The set of output columns one extraction request wants populated.
///
/// One flag per output column; a column is appended to only while its flag
/// is set. The registry interface exposes the flags through the membership
/// test `has_column`.
#[derive(Clone, Copy, Debug, PartialEq, Eq, Structural)]
pub struct Schema {
    pub block_number: bool,
    pub transaction_index: bool,
    pub transaction_hash: bool,
    pub signature: bool,
    pub size: bool,
    pub count: bool,
    pub chain_id: bool,
}

impl Schema {
    /// A schema that requests every output column.
    pub fn all_columns() -> (r: Schema)
        ensures
            r == (Schema {
                block_number: true,
                transaction_index: true,
                transaction_hash: true,
                signature: true,
                size: true,
                count: true,
                chain_id: true,
            }),
    {
        Schema {
            block_number: true,
            transaction_index: true,
            transaction_hash: true,
            signature: true,
            size: true,
            count: true,
            chain_id: true,
        }
    }

    /// Whether `name` names a column this schema requests. Unknown names
    /// are requested by no schema.
    pub open spec fn spec_has_column(self, name: Seq<char>) -> bool {
        if name == "block_number"@ {
            self.block_number
        } else if name == "transaction_index"@ {
            self.transaction_index
        } else if name == "transaction_hash"@ {
            self.transaction_hash
        } else if name == "signature"@ {
            self.signature
        } else if name == "size"@ {
            self.size
        } else if name == "count"@ {
            self.count
        } else if name == "chain_id"@ {
            self.chain_id
        } else {
            false
        }
    }

    /// The membership test the schema registry exposes.
    pub fn has_column(&self, name: &str) -> (r: bool)
        ensures
            r == self.spec_has_column(name@),
    {
        let owned = name.to_owned();
        if owned == "block_number".to_owned() {
            self.block_number
        } else if owned == "transaction_index".to_owned() {
            self.transaction_index
        } else if owned == "transaction_hash".to_owned() {
            self.transaction_hash
        } else if owned == "signature".to_owned() {
            self.signature
        } else if owned == "size".to_owned() {
            self.size
        } else if owned == "count".to_owned() {
            self.count
        } else if owned == "chain_id".to_owned() {
            self.chain_id
        } else {
            false
        }
    }
}

/// The schema registry, read-only: at most one schema per dataset, and this
/// crate holds a single dataset.
#[derive(Clone, Copy, Debug)]
pub struct Schemas {
    pub four_byte_counts: Option<Schema>,
}

impl Schemas {
    /// Looks the dataset's schema up; `None` when none was provided.
    pub fn get(&self) -> (r: Option<&Schema>)
        ensures
            match r {
                Some(s) => self.four_byte_counts == Some(*s),
                None => self.four_byte_counts is None,
            },
    {
        self.four_byte_counts.as_ref()
    }
}

} // verus!
