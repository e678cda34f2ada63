use vstd::prelude::*;
use vstd::slice::slice_to_vec;

use crate::error::CollectError;
use crate::parse::parse_err;
use crate::parse::parse_ok;
use crate::parse::parse_sel;
use crate::parse::parse_signature_size;
use crate::parse::parse_size;
use crate::schema::Schema;
use crate::schema::Schemas;
use crate::table::FourByteCounts;

verus! {

/// One transaction's trace counters: encoded trace keys with their
/// occurrence counts. The driver layer supplies the entries already in
/// lexicographic key order, so row order is reproducible across runs.
pub type TraceCounts = Vec<(String, u64)>;

/// The raw result of one trace fetch: a block number (when resolved), and
/// two index-aligned sequences in which entry `i` holds transaction `i`'s
/// hash (when resolved) and its trace counters.
pub struct TraceResponse {
    pub block_number: Option<u32>,
    pub transaction_hashes: Vec<Option<Vec<u8>>>,
    pub counters: Vec<TraceCounts>,
}

/// The mathematical shape of one output row, before any schema decides
/// which of its fields reach a column.
pub struct RowModel {
    pub block_number: Option<u32>,
    pub transaction_index: Option<u32>,
    pub transaction_hash: Option<Seq<u8>>,
    pub signature: Seq<u8>,
    pub size: u64,
    pub count: u64,
}

/// The first parse failure among a transaction's entries, scanned in order.
pub open spec fn entries_err(entries: Seq<(String, u64)>) -> Option<CollectError>
    decreases entries.len(),
{
    if entries.len() == 0 {
        None
    } else if !parse_ok(entries[0].0@) {
        Some(parse_err(entries[0].0@))
    } else {
        entries_err(entries.skip(1))
    }
}

impl TraceResponse {
    /// How many transactions the response describes.
    pub open spec fn tx_count(self) -> int {
        self.counters@.len() as int
    }

    /// The two outer sequences describe the same transactions, index for
    /// index.
    pub open spec fn aligned(self) -> bool {
        self.transaction_hashes@.len() == self.counters@.len()
    }

    /// The encoded trace key of entry `j` of transaction `i`.
    pub open spec fn key(self, i: int, j: int) -> Seq<char> {
        self.counters@[i]@[j].0@
    }

    /// The output row entry `j` of transaction `i` produces.
    pub open spec fn row(self, i: int, j: int) -> RowModel {
        RowModel {
            block_number: self.block_number,
            transaction_index: Some(i as u32),
            transaction_hash: self.transaction_hashes@[i].deep_view(),
            signature: parse_sel(self.key(i, j)),
            size: parse_size(self.key(i, j)),
            count: self.counters@[i]@[j].1,
        }
    }

    /// The rows of transaction `i`, in entry order.
    pub open spec fn tx_rows(self, i: int) -> Seq<RowModel> {
        Seq::new(self.counters@[i]@.len(), |j: int| self.row(i, j))
    }

    /// The rows of the first `i` transactions, in transaction-then-entry
    /// order.
    pub open spec fn rows_upto(self, i: int) -> Seq<RowModel>
        decreases i,
    {
        if i <= 0 {
            Seq::empty()
        } else {
            self.rows_upto(i - 1) + self.tx_rows(i - 1)
        }
    }

    /// Every output row of the response, in transaction-then-entry order.
    pub open spec fn rows(self) -> Seq<RowModel> {
        self.rows_upto(self.tx_count())
    }

    /// The first parse failure among the first `i` transactions' entries.
    pub open spec fn err_upto(self, i: int) -> Option<CollectError>
        decreases i,
    {
        if i <= 0 {
            None
        } else if self.err_upto(i - 1) is Some {
            self.err_upto(i - 1)
        } else {
            entries_err(self.counters@[i - 1]@)
        }
    }

    /// The first parse failure in the whole response, in transaction-then-
    /// entry order; `None` when every encoded key parses.
    pub open spec fn first_err(self) -> Option<CollectError> {
        self.err_upto(self.tx_count())
    }

    /// Whether every encoded key of the response parses.
    pub open spec fn all_keys_ok(self) -> bool {
        forall|i: int, j: int|
            0 <= i < self.tx_count() && 0 <= j < self.counters@[i]@.len() ==> parse_ok(
                #[trigger] self.key(i, j),
            )
    }
}

// ---------------------------------------------------------------------------
// Column extraction from row models
// ---------------------------------------------------------------------------

/// The block-number column a row sequence populates.
pub open spec fn block_number_col(rows: Seq<RowModel>) -> Seq<Option<u32>> {
    rows.map_values(|r: RowModel| r.block_number)
}

/// The transaction-index column a row sequence populates.
pub open spec fn transaction_index_col(rows: Seq<RowModel>) -> Seq<Option<u32>> {
    rows.map_values(|r: RowModel| r.transaction_index)
}

/// The transaction-hash column a row sequence populates.
pub open spec fn transaction_hash_col(rows: Seq<RowModel>) -> Seq<Option<Seq<u8>>> {
    rows.map_values(|r: RowModel| r.transaction_hash)
}

/// The signature column a row sequence populates.
pub open spec fn signature_col(rows: Seq<RowModel>) -> Seq<Seq<u8>> {
    rows.map_values(|r: RowModel| r.signature)
}

/// The size column a row sequence populates.
pub open spec fn size_col(rows: Seq<RowModel>) -> Seq<u64> {
    rows.map_values(|r: RowModel| r.size)
}

/// The count column a row sequence populates.
pub open spec fn count_col(rows: Seq<RowModel>) -> Seq<u64> {
    rows.map_values(|r: RowModel| r.count)
}

/// The chain-id column: the request's chain id, broadcast to every row.
pub open spec fn chain_id_col(rows: Seq<RowModel>, chain_id: u64) -> Seq<u64> {
    Seq::new(rows.len(), |_k: int| chain_id)
}

proof fn lemma_cols_push(rows: Seq<RowModel>, r: RowModel, chain_id: u64)
    ensures
        block_number_col(rows.push(r)) == block_number_col(rows).push(r.block_number),
        transaction_index_col(rows.push(r)) == transaction_index_col(rows).push(
            r.transaction_index,
        ),
        transaction_hash_col(rows.push(r)) == transaction_hash_col(rows).push(r.transaction_hash),
        signature_col(rows.push(r)) == signature_col(rows).push(r.signature),
        size_col(rows.push(r)) == size_col(rows).push(r.size),
        count_col(rows.push(r)) == count_col(rows).push(r.count),
        chain_id_col(rows.push(r), chain_id) == chain_id_col(rows, chain_id).push(chain_id),
{
    assert(block_number_col(rows.push(r)) =~= block_number_col(rows).push(r.block_number));
    assert(transaction_index_col(rows.push(r)) =~= transaction_index_col(rows).push(
        r.transaction_index,
    ));
    assert(transaction_hash_col(rows.push(r)) =~= transaction_hash_col(rows).push(
        r.transaction_hash,
    ));
    assert(signature_col(rows.push(r)) =~= signature_col(rows).push(r.signature));
    assert(size_col(rows.push(r)) =~= size_col(rows).push(r.size));
    assert(count_col(rows.push(r)) =~= count_col(rows).push(r.count));
    assert(chain_id_col(rows.push(r), chain_id) =~= chain_id_col(rows, chain_id).push(chain_id));
}

// ---------------------------------------------------------------------------
// Scan lemmas
// ---------------------------------------------------------------------------

proof fn lemma_entries_err_none_iff(entries: Seq<(String, u64)>)
    ensures
        (entries_err(entries) is None) <==> (forall|k: int|
            0 <= k < entries.len() ==> parse_ok(#[trigger] entries[k].0@)),
    decreases entries.len(),
{
    if entries.len() > 0 {
        let rest = entries.skip(1);
        lemma_entries_err_none_iff(rest);
        if parse_ok(entries[0].0@) {
            if entries_err(entries) is None {
                assert forall|k: int| 0 <= k < entries.len() implies parse_ok(
                    #[trigger] entries[k].0@,
                ) by {
                    if k > 0 {
                        assert(entries[k] == rest[k - 1]);
                    }
                }
            } else {
                let k = choose|k: int| 0 <= k < rest.len() && !parse_ok(#[trigger] rest[k].0@);
                assert(entries[k + 1] == rest[k]);
                assert(!parse_ok(entries[k + 1].0@));
            }
        }
    }
}

proof fn lemma_entries_err_at(entries: Seq<(String, u64)>, n: int)
    requires
        0 <= n < entries.len(),
        forall|m: int| 0 <= m < n ==> parse_ok(#[trigger] entries[m].0@),
        !parse_ok(entries[n].0@),
    ensures
        entries_err(entries) == Some(parse_err(entries[n].0@)),
    decreases n,
{
    if n > 0 {
        let rest = entries.skip(1);
        assert(parse_ok(entries[0].0@));
        assert(rest[n - 1] == entries[n]);
        assert forall|m: int| 0 <= m < n - 1 implies parse_ok(#[trigger] rest[m].0@) by {
            assert(rest[m] == entries[m + 1]);
        }
        lemma_entries_err_at(rest, n - 1);
    }
}

proof fn lemma_err_upto_some_persists(resp: TraceResponse, i: int, m: int)
    requires
        0 <= i <= m,
        resp.err_upto(i) is Some,
    ensures
        resp.err_upto(m) == resp.err_upto(i),
    decreases m - i,
{
    if m > i {
        lemma_err_upto_some_persists(resp, i, m - 1);
    }
}

proof fn lemma_err_upto_none(resp: TraceResponse, i: int, m: int)
    requires
        0 <= i <= m,
        resp.err_upto(m) is None,
    ensures
        resp.err_upto(i) is None,
{
    if resp.err_upto(i) is Some {
        lemma_err_upto_some_persists(resp, i, m);
    }
}

proof fn lemma_rows_upto_len_le(resp: TraceResponse, i: int, m: int)
    requires
        0 <= i <= m,
    ensures
        resp.rows_upto(i).len() <= resp.rows_upto(m).len(),
    decreases m - i,
{
    if m > i {
        lemma_rows_upto_len_le(resp, i, m - 1);
    }
}

/// When every encoded key of a response parses, its in-order scan finds no
/// failure, and the other way round.
pub proof fn lemma_first_err_none_iff_all_keys_ok(resp: TraceResponse)
    ensures
        (resp.first_err() is None) <==> resp.all_keys_ok(),
{
    lemma_err_upto_all(resp, resp.tx_count());
}

proof fn lemma_err_upto_all(resp: TraceResponse, n: int)
    requires
        0 <= n <= resp.tx_count(),
    ensures
        (resp.err_upto(n) is None) <==> (forall|i: int, j: int|
            0 <= i < n && 0 <= j < resp.counters@[i]@.len() ==> parse_ok(
                #[trigger] resp.key(i, j),
            )),
    decreases n,
{
    if n > 0 {
        lemma_err_upto_all(resp, n - 1);
        lemma_entries_err_none_iff(resp.counters@[n - 1]@);
        if resp.err_upto(n) is None {
            assert forall|i: int, j: int|
                0 <= i < n && 0 <= j < resp.counters@[i]@.len() implies parse_ok(
                #[trigger] resp.key(i, j),
            ) by {
                if i < n - 1 {
                } else {
                    assert(parse_ok(resp.counters@[n - 1]@[j].0@));
                }
            }
        } else {
            if resp.err_upto(n - 1) is None {
                let j = choose|j: int|
                    0 <= j < resp.counters@[n - 1]@.len() && !parse_ok(
                        #[trigger] resp.counters@[n - 1]@[j].0@,
                    );
                assert(!parse_ok(resp.key(n - 1, j)));
            }
        }
    }
}

// ---------------------------------------------------------------------------
// Aggregation
// ---------------------------------------------------------------------------

/// Copies one per-transaction hash entry, value for value.
fn clone_opt_bytes(h: &Option<Vec<u8>>) -> (r: Option<Vec<u8>>)
    ensures
        r.deep_view() == h.deep_view(),
{
    match h {
        Some(v) => {
            let w = slice_to_vec(v.as_slice());
            proof {
                assert(w.deep_view() =~= v.deep_view());
            }
            Some(w)
        },
        None => None,
    }
}

/// Walks a trace response and appends one row per (transaction, encoded
/// key) pair to `columns`, honoring the active schema's column requests.
///
/// Fails with `SchemaNotProvided` when the registry holds no schema, and
/// with the first key's parse failure (in transaction-then-entry order)
/// when any encoded key is malformed; on failure the table is untouched,
/// so a partial table is never handed on as a success.
pub fn process_storage_reads(
    response: &TraceResponse,
    columns: &mut FourByteCounts,
    schemas: &Schemas,
    chain_id: u64,
) -> (r: Result<(), CollectError>)
    requires
        response.aligned(),
        response.tx_count() <= u32::MAX,
        old(columns).n_rows + response.rows().len() <= u64::MAX,
    ensures
        r is Ok <==> (schemas.four_byte_counts is Some && response.first_err() is None),
        schemas.four_byte_counts is None ==> r == Err::<(), CollectError>(
            CollectError::SchemaNotProvided,
        ),
        schemas.four_byte_counts is Some ==> (r matches Err(e) ==> response.first_err() == Some(
            e,
        )),
        r is Err ==> *final(columns) == *old(columns),
        r is Ok ==> {
            let schema = schemas.four_byte_counts->Some_0;
            let rows = response.rows();
            &&& final(columns).n_rows == old(columns).n_rows + rows.len()
            &&& final(columns).block_number@ == if schema.block_number {
                old(columns).block_number@ + block_number_col(rows)
            } else {
                old(columns).block_number@
            }
            &&& final(columns).transaction_index@ == if schema.transaction_index {
                old(columns).transaction_index@ + transaction_index_col(rows)
            } else {
                old(columns).transaction_index@
            }
            &&& final(columns).transaction_hash.deep_view() == if schema.transaction_hash {
                old(columns).transaction_hash.deep_view() + transaction_hash_col(rows)
            } else {
                old(columns).transaction_hash.deep_view()
            }
            &&& final(columns).signature.deep_view() == if schema.signature {
                old(columns).signature.deep_view() + signature_col(rows)
            } else {
                old(columns).signature.deep_view()
            }
            &&& final(columns).size@ == if schema.size {
                old(columns).size@ + size_col(rows)
            } else {
                old(columns).size@
            }
            &&& final(columns).count@ == if schema.count {
                old(columns).count@ + count_col(rows)
            } else {
                old(columns).count@
            }
            &&& final(columns).chain_id@ == if schema.chain_id {
                old(columns).chain_id@ + chain_id_col(rows, chain_id)
            } else {
                old(columns).chain_id@
            }
            &&& old(columns).wf(schema) ==> final(columns).wf(schema)
        },
{
    let schema: &Schema = match schemas.get() {
        Some(s) => s,
        None => {
            return Err(CollectError::SchemaNotProvided);
        },
    };
    let ntx = response.counters.len();

    // First pass: every encoded key must parse, else the whole request is
    // aborted before the table is touched.
    let mut i: usize = 0;
    while i < ntx
        invariant
            ntx == response.counters@.len(),
            i <= ntx,
            schemas.four_byte_counts == Some(*schema),
            response.err_upto(i as int) is None,
        decreases ntx - i,
    {
        let entries: &TraceCounts = &response.counters[i];
        let m = entries.len();
        let mut j: usize = 0;
        while j < m
            invariant
                ntx == response.counters@.len(),
                i < ntx,
                entries@ == response.counters@[i as int]@,
                m == entries@.len(),
                j <= m,
                schemas.four_byte_counts == Some(*schema),
                response.err_upto(i as int) is None,
                forall|k: int| 0 <= k < j ==> parse_ok(#[trigger] entries@[k].0@),
            decreases m - j,
        {
            match parse_signature_size(entries[j].0.as_str()) {
                Ok(_) => {},
                Err(e) => {
                    proof {
                        lemma_entries_err_at(entries@, j as int);
                        assert(response.err_upto(i as int + 1) == Some(e));
                        lemma_err_upto_some_persists(
                            *response,
                            i as int + 1,
                            response.tx_count(),
                        );
                    }
                    return Err(e);
                },
            }
            j += 1;
        }
        proof {
            lemma_entries_err_none_iff(entries@);
        }
        i += 1;
    }

    // Second pass: all keys are known to parse; emit the rows.
    let mut i: usize = 0;
    while i < ntx
        invariant
            ntx == response.counters@.len(),
            response.aligned(),
            response.tx_count() <= u32::MAX,
            i <= ntx,
            response.first_err() is None,
            schemas.four_byte_counts == Some(*schema),
            old(columns).n_rows + response.rows().len() <= u64::MAX,
            columns.n_rows == old(columns).n_rows + response.rows_upto(i as int).len(),
            columns.block_number@ == if schema.block_number {
                old(columns).block_number@ + block_number_col(response.rows_upto(i as int))
            } else {
                old(columns).block_number@
            },
            columns.transaction_index@ == if schema.transaction_index {
                old(columns).transaction_index@ + transaction_index_col(
                    response.rows_upto(i as int),
                )
            } else {
                old(columns).transaction_index@
            },
            columns.transaction_hash.deep_view() == if schema.transaction_hash {
                old(columns).transaction_hash.deep_view() + transaction_hash_col(
                    response.rows_upto(i as int),
                )
            } else {
                old(columns).transaction_hash.deep_view()
            },
            columns.signature.deep_view() == if schema.signature {
                old(columns).signature.deep_view() + signature_col(response.rows_upto(i as int))
            } else {
                old(columns).signature.deep_view()
            },
            columns.size@ == if schema.size {
                old(columns).size@ + size_col(response.rows_upto(i as int))
            } else {
                old(columns).size@
            },
            columns.count@ == if schema.count {
                old(columns).count@ + count_col(response.rows_upto(i as int))
            } else {
                old(columns).count@
            },
            columns.chain_id@ == if schema.chain_id {
                old(columns).chain_id@ + chain_id_col(response.rows_upto(i as int), chain_id)
            } else {
                old(columns).chain_id@
            },
        decreases ntx - i,
    {
        let entries: &TraceCounts = &response.counters[i];
        let m = entries.len();
        let mut j: usize = 0;
        while j < m
            invariant
                ntx == response.counters@.len(),
                response.aligned(),
                response.tx_count() <= u32::MAX,
                i < ntx,
                entries@ == response.counters@[i as int]@,
                m == entries@.len(),
                j <= m,
                response.first_err() is None,
                schemas.four_byte_counts == Some(*schema),
                old(columns).n_rows + response.rows().len() <= u64::MAX,
                columns.n_rows == old(columns).n_rows + response.rows_upto(i as int).len()
                    + response.tx_rows(i as int).take(j as int).len(),
                columns.block_number@ == if schema.block_number {
                    old(columns).block_number@ + block_number_col(
                        response.rows_upto(i as int) + response.tx_rows(i as int).take(j as int),
                    )
                } else {
                    old(columns).block_number@
                },
                columns.transaction_index@ == if schema.transaction_index {
                    old(columns).transaction_index@ + transaction_index_col(
                        response.rows_upto(i as int) + response.tx_rows(i as int).take(j as int),
                    )
                } else {
                    old(columns).transaction_index@
                },
                columns.transaction_hash.deep_view() == if schema.transaction_hash {
                    old(columns).transaction_hash.deep_view() + transaction_hash_col(
                        response.rows_upto(i as int) + response.tx_rows(i as int).take(j as int),
                    )
                } else {
                    old(columns).transaction_hash.deep_view()
                },
                columns.signature.deep_view() == if schema.signature {
                    old(columns).signature.deep_view() + signature_col(
                        response.rows_upto(i as int) + response.tx_rows(i as int).take(j as int),
                    )
                } else {
                    old(columns).signature.deep_view()
                },
                columns.size@ == if schema.size {
                    old(columns).size@ + size_col(
                        response.rows_upto(i as int) + response.tx_rows(i as int).take(j as int),
                    )
                } else {
                    old(columns).size@
                },
                columns.count@ == if schema.count {
                    old(columns).count@ + count_col(
                        response.rows_upto(i as int) + response.tx_rows(i as int).take(j as int),
                    )
                } else {
                    old(columns).count@
                },
                columns.chain_id@ == if schema.chain_id {
                    old(columns).chain_id@ + chain_id_col(
                        response.rows_upto(i as int) + response.tx_rows(i as int).take(j as int),
                        chain_id,
                    )
                } else {
                    old(columns).chain_id@
                },
            decreases m - j,
        {
            proof {
                lemma_err_upto_none(*response, i as int + 1, response.tx_count());
                lemma_entries_err_none_iff(entries@);
                assert(parse_ok(entries@[j as int].0@));
            }
            let parsed = match parse_signature_size(entries[j].0.as_str()) {
                Ok(p) => p,
                Err(_) => {
                    return vstd::pervasive::unreached();
                },
            };
            let (sig_bytes, size) = parsed;
            let count = entries[j].1;
            let tx_hash: Option<Vec<u8>> = clone_opt_bytes(&response.transaction_hashes[i]);
            let ghost rows_before = response.rows_upto(i as int) + response.tx_rows(
                i as int,
            ).take(j as int);
            let ghost this_row = response.row(i as int, j as int);
            let ghost cols0 = *columns;
            proof {
                lemma_rows_upto_len_le(*response, i as int + 1, ntx as int);
                assert(response.rows_upto(i as int + 1) == response.rows_upto(i as int)
                    + response.tx_rows(i as int));
                assert(response.tx_rows(i as int).take(j as int).len() == j);
                assert(columns.n_rows < u64::MAX);
            }
            columns.append_row(
                schema,
                response.block_number,
                Some(i as u32),
                tx_hash,
                sig_bytes,
                size,
                count,
                chain_id,
            );
            proof {
                assert(response.tx_rows(i as int).take(j as int + 1) =~= response.tx_rows(
                    i as int,
                ).take(j as int).push(this_row));
                assert(response.rows_upto(i as int) + response.tx_rows(i as int).take(
                    j as int + 1,
                ) =~= rows_before.push(this_row));
                lemma_cols_push(rows_before, this_row, chain_id);
                assert(this_row.block_number == response.block_number);
                assert(this_row.transaction_hash == tx_hash.deep_view());
                assert(this_row.signature == sig_bytes@);
                assert(this_row.size == size);
                assert(this_row.count == count);
                if schema.block_number {
                    assert((cols0.block_number@).push(response.block_number)
                        =~= old(columns).block_number@ + block_number_col(rows_before).push(
                        this_row.block_number,
                    ));
                }
                if schema.transaction_index {
                    assert((cols0.transaction_index@).push(Some(i as u32)) =~= old(
                        columns,
                    ).transaction_index@ + transaction_index_col(rows_before).push(
                        this_row.transaction_index,
                    ));
                }
                if schema.transaction_hash {
                    assert(columns.transaction_hash.deep_view()
                        =~= cols0.transaction_hash.deep_view().push(tx_hash.deep_view()));
                    assert(cols0.transaction_hash.deep_view().push(tx_hash.deep_view()) =~= old(
                        columns,
                    ).transaction_hash.deep_view() + transaction_hash_col(rows_before).push(
                        this_row.transaction_hash,
                    ));
                }
                if schema.signature {
                    assert(sig_bytes.deep_view() =~= sig_bytes@);
                    assert(columns.signature.deep_view() =~= cols0.signature.deep_view().push(
                        sig_bytes.deep_view(),
                    ));
                    assert(cols0.signature.deep_view().push(sig_bytes@) =~= old(
                        columns,
                    ).signature.deep_view() + signature_col(rows_before).push(this_row.signature));
                }
                if schema.size {
                    assert((cols0.size@).push(size) =~= old(columns).size@ + size_col(
                        rows_before,
                    ).push(this_row.size));
                }
                if schema.count {
                    assert((cols0.count@).push(count) =~= old(columns).count@ + count_col(
                        rows_before,
                    ).push(this_row.count));
                }
                if schema.chain_id {
                    assert((cols0.chain_id@).push(chain_id) =~= old(columns).chain_id@
                        + chain_id_col(rows_before, chain_id).push(chain_id));
                }
            }
            j += 1;
        }
        proof {
            assert(response.tx_rows(i as int).take(m as int) =~= response.tx_rows(i as int));
            assert(response.rows_upto(i as int + 1) == response.rows_upto(i as int)
                + response.tx_rows(i as int));
        }
        i += 1;
    }
    proof {
        assert(response.rows_upto(ntx as int) == response.rows());
    }
    Ok(())
}

// ---------------------------------------------------------------------------
// Extraction drivers: the decisions made around the one fetch call
// ---------------------------------------------------------------------------

/// Decides a by-block extraction request before its fetch: fails when the
/// registry holds no schema, and otherwise reports whether the fetch must
/// also resolve transaction hashes.
pub fn prepare_block_request(schemas: &Schemas) -> (r: Result<bool, CollectError>)
    ensures
        r is Ok <==> schemas.four_byte_counts is Some,
        schemas.four_byte_counts is None ==> r == Err::<bool, CollectError>(
            CollectError::SchemaNotProvided,
        ),
        r matches Ok(include_txs) ==> include_txs
            == schemas.four_byte_counts->Some_0.transaction_hash,
{
    match schemas.get() {
        None => Err(CollectError::SchemaNotProvided),
        Some(schema) => {
            let include_txs = schema.has_column("transaction_hash");
            proof {
                reveal_strlit("transaction_hash");
                reveal_strlit("block_number");
                reveal_strlit("transaction_index");
                // the three literals have pairwise different lengths, so the
                // membership chain settles on the transaction-hash flag
                assert("transaction_hash"@.len() == 16);
                assert("block_number"@.len() == 12);
                assert("transaction_index"@.len() == 17);
            }
            Ok(include_txs)
        },
    }
}

/// Decides a by-transaction extraction request before its fetch: fails when
/// the registry holds no schema, and otherwise reports whether the fetch
/// must also resolve the owning block number.
pub fn prepare_transaction_request(schemas: &Schemas) -> (r: Result<bool, CollectError>)
    ensures
        r is Ok <==> schemas.four_byte_counts is Some,
        schemas.four_byte_counts is None ==> r == Err::<bool, CollectError>(
            CollectError::SchemaNotProvided,
        ),
        r matches Ok(include_block_number) ==> include_block_number
            == schemas.four_byte_counts->Some_0.block_number,
{
    match schemas.get() {
        None => Err(CollectError::SchemaNotProvided),
        Some(schema) => Ok(schema.has_column("block_number")),
    }
}

} // verus!
