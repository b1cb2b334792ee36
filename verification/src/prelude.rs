//! The items that an application of queries and mutations needs, in one
//! place.
pub use crate::captured::Captured;
pub use crate::mutation::{
    use_mutation, Mutation, MutationCapability, MutationData, MutationReader, MutationStateData,
    MutationsStorage, UseMutation,
};
pub use crate::query::{
    use_query, GetQuery, QueriesStorage, Query, QueryCapability, QueryData, QueryReader,
    QueryStateData, UseQuery,
};
pub use crate::time::{Clock, Moment, Span};
