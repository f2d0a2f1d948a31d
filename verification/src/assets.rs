//! The table of texture-image assets known to a render.
//!
//! The verified core needs only the registered names: an image-texture
//! material is valid exactly when its asset name is registered here.  The
//! pixel data behind each name stays with the unverified front end, which
//! builds this table from the names of the images it loaded.

use crate::text::str_eq;
use vstd::prelude::*;

verus! {

/// A failed asset lookup, carrying the name that was not registered.
#[derive(Debug, PartialEq)]
pub enum AssetValidationError {
    MissingAsset { asset_name: String },
}

impl AssetValidationError {
    /// The missing name the error reports.
    pub fn asset_name(&self) -> (r: &String)
        ensures
            match self {
                AssetValidationError::MissingAsset { asset_name } => r@ == asset_name@,
            },
    {
        match self {
            AssetValidationError::MissingAsset { asset_name } => asset_name,
        }
    }

    /// The error rendered as a line of text.
    pub fn message(&self) -> String {
        let AssetValidationError::MissingAsset { asset_name } = self;
        let mut message = String::new();
        message.append("asset with name <");
        message.append(asset_name.as_str());
        message.append("> has not been loaded");
        message
    }
}

/// The names of the loaded assets.
pub struct Assets {
    names: Vec<String>,
}

impl View for Assets {
    type V = Seq<Seq<char>>;

    closed spec fn view(&self) -> Seq<Seq<char>> {
        Seq::new(self.names@.len(), |i: int| self.names@[i]@)
    }
}

/// Whether `name` is one of the registered names.
pub open spec fn spec_has_asset(assets: Assets, name: Seq<char>) -> bool {
    exists|i: int| 0 <= i < assets@.len() && assets@[i] == name
}

impl Assets {
    /// Builds the table from the names of the loaded images.
    pub fn new(names: Vec<String>) -> (r: Assets)
        ensures
            r@.len() == names@.len(),
            forall|i: int| 0 <= i < names@.len() ==> r@[i] == names@[i]@,
    {
        Assets { names }
    }

    /// Whether `name` is registered.
    pub fn has_asset(&self, name: &str) -> (r: bool)
        ensures
            r == spec_has_asset(*self, name@),
    {
        let n = self.names.len();
        let mut i: usize = 0;
        while i < n
            invariant
                i <= n,
                n == self.names@.len(),
                self@.len() == n,
                forall|j: int| 0 <= j < i ==> self@[j] != name@,
            decreases n - i,
        {
            if str_eq(self.names[i].as_str(), name) {
                assert(self@[i as int] == name@);
                return true;
            }
            i = i + 1;
        }
        false
    }

    /// Checks one name, reporting the name itself when it is missing.
    pub fn validate(&self, asset_name: &str) -> (r: Result<(), AssetValidationError>)
        ensures
            r.is_ok() <==> spec_has_asset(*self, asset_name@),
            match r {
                Ok(()) => true,
                Err(AssetValidationError::MissingAsset { asset_name: missing }) => missing@
                    == asset_name@,
            },
    {
        if self.has_asset(asset_name) {
            Ok(())
        } else {
            Err(AssetValidationError::MissingAsset { asset_name: asset_name.to_owned() })
        }
    }
}

} // verus!
