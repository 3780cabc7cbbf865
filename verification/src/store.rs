//! The prompt store interface: reading and writing prompts and partials.
//!
//! Storage backends live outside this library — a directory store walks
//! the file system — so the interface only fixes the shapes exchanged; the
//! computational parts a backend needs are under `dir`.

use vstd::prelude::*;
use crate::error::Result;
use crate::types::{
    ListPartialsOptions, ListPromptsOptions, LoadPartialOptions, LoadPromptOptions,
    PaginatedPartials, PaginatedPrompts, PartialData, PromptData,
};

verus! {

/// A store for reading prompts and partials.
pub trait PromptStore {
    /// Returns a paginated list of all prompts in the store.
    fn list(&self, options: Option<ListPromptsOptions>) -> Result<PaginatedPrompts>;

    /// Returns a paginated list of all partials in the store.
    fn list_partials(&self, options: Option<ListPartialsOptions>) -> Result<PaginatedPartials>;

    /// Loads a prompt by name.
    fn load(&self, name: &str, options: Option<LoadPromptOptions>) -> Result<PromptData>;

    /// Loads a partial by name.
    fn load_partial(&self, name: &str, options: Option<LoadPartialOptions>) -> Result<PartialData>;
}

/// Options for deleting a prompt or partial.
#[derive(Debug, Clone, PartialEq)]
pub struct DeletePromptOrPartialOptions {
    /// Specific variant to delete.
    pub variant: Option<String>,
}

/// A writable prompt store that supports saving and deleting.
pub trait PromptStoreWritable: PromptStore {
    /// Saves a prompt to the store.
    fn save(&self, prompt: PromptData) -> Result<()>;

    /// Deletes a prompt from the store.
    fn delete(&self, name: &str, options: Option<DeletePromptOrPartialOptions>) -> Result<()>;

    /// Saves a partial to the store.
    fn save_partial(&self, partial: PartialData) -> Result<()>;

    /// Deletes a partial from the store.
    fn delete_partial(&self, name: &str, options: Option<DeletePromptOrPartialOptions>) -> Result<
        (),
    >;
}

} // verus!
