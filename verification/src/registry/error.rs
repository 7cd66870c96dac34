//! Why an operation on a registry failed.

use crate::registry::identity::{hyphenated, RenderId};
use vstd::prelude::*;
use vstd::string::StringExecFns;

verus! {

#[derive(Debug)]
pub enum RegistryError {
    /// No factory has the name.
    FactoryNotFound(String),
    /// No loaded render has the identity.
    RenderNotFound(RenderId),
    RenderNotLoaded,
    RenderNotUnload,
    /// The factory constructed no render from the configuration.
    FileIoError,
}

impl RegistryError {
    /// The error in words.
    pub open spec fn spec_message(&self) -> Seq<char> {
        match self {
            RegistryError::FactoryNotFound(name) => "Factory \""@ + name@ + "\" was not found"@,
            RegistryError::RenderNotFound(id) => "Render \""@ + hyphenated(id.value)
                + "\" was not found"@,
            RegistryError::RenderNotLoaded => "Render was not loaded"@,
            RegistryError::RenderNotUnload => "Render was not unloaded"@,
            RegistryError::FileIoError => "File IO error"@,
        }
    }

    /// The error in words.
    pub fn message(&self) -> (message: String)
        ensures
            message@ == self.spec_message(),
    {
        match self {
            RegistryError::FactoryNotFound(name) => String::from_str("Factory \"").concat(
                name.as_str(),
            ).concat("\" was not found"),
            RegistryError::RenderNotFound(id) => String::from_str("Render \"").concat(
                id.text().as_str(),
            ).concat("\" was not found"),
            RegistryError::RenderNotLoaded => String::from_str("Render was not loaded"),
            RegistryError::RenderNotUnload => String::from_str("Render was not unloaded"),
            RegistryError::FileIoError => String::from_str("File IO error"),
        }
    }
}

} // verus!
