//! The nearest-neighbour index as a state machine: which request is answered, which is refused,
//! and what the index itself is asked to do.
use crate::codec::farmhash64;
use crate::text::{decimal, decimal_of};
use vstd::prelude::*;

verus! {

/// What goes wrong in the vector store.
#[derive(Debug, Clone, PartialEq, Eq)]
pub enum VectorDbError {
    /// A record's embedding has another length than the store's embeddings.
    DimensionMismatch { expected: usize, got: usize },
    /// A query has another length than the store's embeddings.
    QueryDimensionMismatch { expected: usize, got: usize },
    /// There is no index yet.
    NotInitialized,
    /// No stored record has the given point in the index.
    NoRecord { point_id: usize },
    /// A stored row's metadata cannot be read, for the given reason.
    BadMetadata { reason: String },
    /// A column of a stored row cannot be read, for the given reason.
    BadColumn { column: usize, blob: bool, reason: String },
}

/// What goes wrong in the vector store, with the reasons by their views.
pub enum DbErrorView {
    DimensionMismatch { expected: usize, got: usize },
    QueryDimensionMismatch { expected: usize, got: usize },
    NotInitialized,
    NoRecord { point_id: usize },
    BadMetadata { reason: Seq<char> },
    BadColumn { column: usize, blob: bool, reason: Seq<char> },
}

impl View for VectorDbError {
    type V = DbErrorView;

    open spec fn view(&self) -> DbErrorView {
        match self {
            VectorDbError::DimensionMismatch { expected, got } => DbErrorView::DimensionMismatch {
                expected: *expected,
                got: *got,
            },
            VectorDbError::QueryDimensionMismatch {
                expected,
                got,
            } => DbErrorView::QueryDimensionMismatch { expected: *expected, got: *got },
            VectorDbError::NotInitialized => DbErrorView::NotInitialized,
            VectorDbError::NoRecord { point_id } => DbErrorView::NoRecord { point_id: *point_id },
            VectorDbError::BadMetadata { reason } => DbErrorView::BadMetadata { reason: reason@ },
            VectorDbError::BadColumn { column, blob, reason } => DbErrorView::BadColumn {
                column: *column,
                blob: *blob,
                reason: reason@,
            },
        }
    }
}

/// The message of an error.
pub open spec fn db_error_text(e: DbErrorView) -> Seq<char> {
    match e {
        DbErrorView::DimensionMismatch { expected, got } => "Dimension mismatch: expected "@
            + decimal_of(expected as nat) + ", got "@ + decimal_of(got as nat),
        DbErrorView::QueryDimensionMismatch {
            expected,
            got,
        } => "Query dimension mismatch: expected "@ + decimal_of(expected as nat) + ", got "@
            + decimal_of(got as nat),
        DbErrorView::NotInitialized => "HNSW index not initialized"@,
        DbErrorView::NoRecord { point_id } => "No record found for point_id "@ + decimal_of(
            point_id as nat,
        ),
        DbErrorView::BadMetadata { reason } => "Failed to parse metadata: "@ + reason,
        DbErrorView::BadColumn { column, blob, reason } => (if blob {
            "Conversion error from type Blob at index: "@
        } else {
            "Conversion error from type Text at index: "@
        }) + decimal_of(column as nat) + ", "@ + reason,
    }
}

impl VectorDbError {
    /// The message of the error.
    pub fn message(&self) -> (res: String)
        ensures
            res@ == db_error_text(self@),
    {
        match self {
            VectorDbError::DimensionMismatch { expected, got } => {
                let start = "Dimension mismatch: expected ".to_owned();
                mismatch(start, *expected, *got)
            },
            VectorDbError::QueryDimensionMismatch { expected, got } => {
                let start = "Query dimension mismatch: expected ".to_owned();
                mismatch(start, *expected, *got)
            },
            VectorDbError::NotInitialized => "HNSW index not initialized".to_owned(),
            VectorDbError::NoRecord { point_id } => {
                let start = "No record found for point_id ".to_owned();
                start.concat(decimal(*point_id as u64).as_str())
            },
            VectorDbError::BadMetadata { reason } => "Failed to parse metadata: ".to_owned().concat(
                reason.as_str(),
            ),
            VectorDbError::BadColumn { column, blob, reason } => {
                let start = if *blob {
                    "Conversion error from type Blob at index: ".to_owned()
                } else {
                    "Conversion error from type Text at index: ".to_owned()
                };
                start.concat(decimal(*column as u64).as_str()).concat(", ").concat(reason.as_str())
            },
        }
    }
}

fn mismatch(start: String, expected: usize, got: usize) -> (res: String)
    ensures
        res@ == start@ + decimal_of(expected as nat) + ", got "@ + decimal_of(got as nat),
{
    let expected_text = decimal(expected as u64);
    let got_text = decimal(got as u64);
    start.concat(expected_text.as_str()).concat(", got ").concat(got_text.as_str())
}

/// The point in the index for a hash: the hash cut down to the size of the index.
pub open spec fn hash_point(hash: u64, max_elements: usize) -> usize {
    (hash % (max_elements as u64)) as usize
}

/// The point in the index at which content of a record type lies: that of the hash of
/// `record_type:content`.
pub open spec fn point_of(content: Seq<char>, record_type: Seq<char>, max_elements: usize) -> usize {
    hash_point(farmhash64(vstd::utf8::encode_utf8(record_type + ":"@ + content)), max_elements)
}

/// The point in the index for a hash.
pub fn hash_to_point_id(hash: u64, max_elements: usize) -> (res: usize)
    requires
        max_elements > 0,
    ensures
        res == hash_point(hash, max_elements),
        res == hash as int % max_elements as int,
{
    let point: u64 = hash % (max_elements as u64);
    assert(point < max_elements);
    point as usize
}

/// The point in the index at which content of a record type lies.
pub fn content_to_point_id(content: &str, record_type: &str, max_elements: usize) -> (res: usize)
    requires
        max_elements > 0,
    ensures
        res == point_of(content@, record_type@, max_elements),
        res < max_elements,
{
    let combined = record_type.to_owned().concat(":").concat(content);
    let hash: u64 = farmhash::hash64(combined.as_str().as_bytes());
    hash_to_point_id(hash, max_elements)
}

/// A stored embedding that goes back into the index: its content, its record type and the
/// embedding itself.
#[derive(Debug)]
pub struct StoredEmbedding {
    pub content: String,
    pub record_type: String,
    pub embedding: Vec<u32>,
}

/// An embedding and its point in the index.
#[derive(Debug)]
pub struct IndexPoint {
    pub point_id: usize,
    pub embedding: Vec<u32>,
}

/// A request to the index.
#[derive(Debug)]
pub enum HnswMessage {
    Insert { embedding: Vec<u32>, point_id: usize },
    Search { query: Vec<u32>, k: usize },
    Initialize { dimension: usize, max_elements: usize },
    LoadFromDb { embeddings: Vec<StoredEmbedding> },
}

/// What the index is asked to do.
#[derive(Debug)]
pub enum HnswAction {
    /// Become a new, empty index with these parameters.
    Create { m: usize, max_elements: usize, ef_construction: usize, ef: usize },
    /// Insert the points, in order.
    Insert { points: Vec<IndexPoint> },
    /// Find the `k` nearest neighbours of the query, with the given search width.
    Search { query: Vec<u32>, k: usize, ef: usize },
}

/// The search width of the index.
pub const EF_SEARCH: usize = 200;

/// The state of the index's owner.
#[derive(Debug)]
pub struct HnswActor {
    pub initialized: bool,
    pub dimension: usize,
    pub max_elements: usize,
    pub ef_construction: usize,
    pub m: usize,
}

/// The points that go into an index of the given dimension and size when stored embeddings are
/// loaded: those of the right length, in order.
pub open spec fn loaded_points(
    embeddings: Seq<StoredEmbedding>,
    dimension: usize,
    max_elements: usize,
) -> Seq<(usize, Seq<u32>)>
    decreases embeddings.len(),
{
    if embeddings.len() == 0 {
        Seq::empty()
    } else {
        let before = loaded_points(embeddings.drop_last(), dimension, max_elements);
        let e = embeddings.last();
        if e.embedding@.len() == dimension {
            before.push((point_of(e.content@, e.record_type@, max_elements), e.embedding@))
        } else {
            before
        }
    }
}

/// Points by their views.
pub open spec fn point_views(points: Seq<IndexPoint>) -> Seq<(usize, Seq<u32>)> {
    Seq::new(points.len(), |i: int| (points[i].point_id, points[i].embedding@))
}

impl HnswActor {
    /// An owner without an index yet.
    pub fn new(dimension: usize, max_elements: usize) -> (res: Self)
        ensures
            res == (HnswActor {
                initialized: false,
                dimension,
                max_elements,
                ef_construction: 200,
                m: 16,
            }),
    {
        HnswActor { initialized: false, dimension, max_elements, ef_construction: 200, m: 16 }
    }

    /// Starts a new, empty index.
    pub fn handle_initialize(&mut self, dimension: usize, max_elements: usize) -> (res: HnswAction)
        ensures
            *final(self) == (HnswActor {
                initialized: true,
                dimension,
                max_elements,
                ef_construction: old(self).ef_construction,
                m: old(self).m,
            }),
            res == (HnswAction::Create {
                m: old(self).m,
                max_elements,
                ef_construction: old(self).ef_construction,
                ef: EF_SEARCH,
            }),
    {
        self.dimension = dimension;
        self.max_elements = max_elements;
        self.initialized = true;
        HnswAction::Create {
            m: self.m,
            max_elements,
            ef_construction: self.ef_construction,
            ef: EF_SEARCH,
        }
    }

    /// Inserts an embedding at a point. It must have the index's dimension.
    pub fn handle_insert(&self, embedding: Vec<u32>, point_id: usize) -> (res: Result<
        HnswAction,
        VectorDbError,
    >)
        ensures
            !self.initialized ==> res == Err::<HnswAction, _>(VectorDbError::NotInitialized),
            self.initialized && embedding@.len() != self.dimension ==> res == Err::<HnswAction, _>(
                VectorDbError::DimensionMismatch {
                    expected: self.dimension,
                    got: embedding@.len() as usize,
                },
            ),
            self.initialized && embedding@.len() == self.dimension ==> (res matches Ok(
                HnswAction::Insert { points },
            ) && point_views(points@) == seq![(point_id, embedding@)]),
    {
        if self.initialized {
            if embedding.len() != self.dimension {
                return Err(
                    VectorDbError::DimensionMismatch {
                        expected: self.dimension,
                        got: embedding.len(),
                    },
                );
            }
            let ghost e = embedding@;
            let mut points: Vec<IndexPoint> = Vec::new();
            points.push(IndexPoint { point_id, embedding });
            assert(point_views(points@) =~= seq![(point_id, e)]);
            Ok(HnswAction::Insert { points })
        } else {
            Err(VectorDbError::NotInitialized)
        }
    }

    /// Searches the neighbours of a query. It must have the index's dimension.
    pub fn handle_search(&self, query: Vec<u32>, k: usize) -> (res: Result<
        HnswAction,
        VectorDbError,
    >)
        ensures
            res == (if !self.initialized {
                Err(VectorDbError::NotInitialized)
            } else if query@.len() != self.dimension {
                Err(
                    VectorDbError::QueryDimensionMismatch {
                        expected: self.dimension,
                        got: query@.len() as usize,
                    },
                )
            } else {
                Ok(HnswAction::Search { query, k, ef: EF_SEARCH })
            }),
    {
        if self.initialized {
            if query.len() != self.dimension {
                return Err(
                    VectorDbError::QueryDimensionMismatch {
                        expected: self.dimension,
                        got: query.len(),
                    },
                );
            }
            Ok(HnswAction::Search { query, k, ef: EF_SEARCH })
        } else {
            Err(VectorDbError::NotInitialized)
        }
    }

    /// Puts stored embeddings back into the index, each at the point at which it was first
    /// inserted. An embedding of another dimension is passed over.
    pub fn handle_load_from_db(&self, embeddings: Vec<StoredEmbedding>) -> (res: Result<
        HnswAction,
        VectorDbError,
    >)
        requires
            self.max_elements > 0,
        ensures
            !self.initialized ==> res == Err::<HnswAction, _>(VectorDbError::NotInitialized),
            self.initialized ==> (res matches Ok(HnswAction::Insert { points }) && point_views(
                points@,
            ) == loaded_points(embeddings@, self.dimension, self.max_elements)),
    {
        if !self.initialized {
            return Err(VectorDbError::NotInitialized);
        }
        let mut points: Vec<IndexPoint> = Vec::new();
        let mut i: usize = 0;
        assert(embeddings@.take(0) =~= Seq::empty());
        assert(point_views(points@) =~= Seq::empty());
        while i < embeddings.len()
            invariant
                i <= embeddings@.len(),
                self.max_elements > 0,
                point_views(points@) == loaded_points(
                    embeddings@.take(i as int),
                    self.dimension,
                    self.max_elements,
                ),
            decreases embeddings@.len() - i,
        {
            let ghost before = point_views(points@);
            assert(embeddings@.take(i + 1).drop_last() =~= embeddings@.take(i as int));
            let e = &embeddings[i];
            if e.embedding.len() == self.dimension {
                let point_id: usize = content_to_point_id(
                    e.content.as_str(),
                    e.record_type.as_str(),
                    self.max_elements,
                );
                let embedding = e.embedding.clone();
                assert(embedding@ =~= e.embedding@);
                points.push(IndexPoint { point_id, embedding });
                assert(point_views(points@) =~= before.push((point_id, e.embedding@)));
            }
            i += 1;
        }
        assert(embeddings@.take(embeddings@.len() as int) =~= embeddings@);
        Ok(HnswAction::Insert { points })
    }

    /// Answers one request.
    pub fn handle(&mut self, message: HnswMessage) -> (res: Result<HnswAction, VectorDbError>)
        requires
            message is LoadFromDb ==> old(self).max_elements > 0,
        ensures
            match message {
                HnswMessage::Initialize { dimension, max_elements } => {
                    &&& *final(self) == (HnswActor {
                        initialized: true,
                        dimension,
                        max_elements,
                        ..*old(self)
                    })
                    &&& res == Ok::<_, VectorDbError>(
                        HnswAction::Create {
                            m: old(self).m,
                            max_elements,
                            ef_construction: old(self).ef_construction,
                            ef: EF_SEARCH,
                        },
                    )
                },
                _ => *final(self) == *old(self),
            },
            !(message is Initialize) && !old(self).initialized ==> res == Err::<HnswAction, _>(
                VectorDbError::NotInitialized,
            ),
            old(self).initialized ==> match message {
                HnswMessage::Initialize { dimension, max_elements } => true,
                HnswMessage::Insert { embedding, point_id } => if embedding@.len()
                    != old(self).dimension {
                    res == Err::<HnswAction, _>(
                        VectorDbError::DimensionMismatch {
                            expected: old(self).dimension,
                            got: embedding@.len() as usize,
                        },
                    )
                } else {
                    res matches Ok(HnswAction::Insert { points }) && point_views(points@) == seq![
                        (point_id, embedding@),
                    ]
                },
                HnswMessage::Search { query, k } => if query@.len() != old(self).dimension {
                    res == Err::<HnswAction, _>(
                        VectorDbError::QueryDimensionMismatch {
                            expected: old(self).dimension,
                            got: query@.len() as usize,
                        },
                    )
                } else {
                    res == Ok::<_, VectorDbError>(HnswAction::Search { query, k, ef: EF_SEARCH })
                },
                HnswMessage::LoadFromDb { embeddings } => res matches Ok(
                    HnswAction::Insert { points },
                ) && point_views(points@) == loaded_points(
                    embeddings@,
                    old(self).dimension,
                    old(self).max_elements,
                ),
            },
    {
        match message {
            HnswMessage::Initialize { dimension, max_elements } => Ok(
                self.handle_initialize(dimension, max_elements),
            ),
            HnswMessage::Insert { embedding, point_id } => self.handle_insert(embedding, point_id),
            HnswMessage::Search { query, k } => self.handle_search(query, k),
            HnswMessage::LoadFromDb { embeddings } => self.handle_load_from_db(embeddings),
        }
    }
}

} // verus!
