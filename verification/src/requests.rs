//! The queries other than the one for a dataset's observations.

pub mod dataset_list_call;
