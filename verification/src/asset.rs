//! The asset index model: a flat or "virtual" layout mapping logical
//! asset paths to content hashes and sizes.
use vstd::prelude::*;

verus! {

/// An asset index. When `is_virtual` holds, objects are materialized
/// under a per-version directory mirroring their logical paths; else
/// they live in the flat content-addressed store.
pub struct AssetIndex {
    pub is_virtual: bool,
    pub objects: Vec<AssetObject>,
}

/// One object of an asset index.
pub struct AssetObject {
    pub logical_path: String,
    pub hash: String,
    pub size: u64,
}

/// The mathematical content of an asset object.
pub ghost struct AssetObjectView {
    pub logical_path: Seq<char>,
    pub hash: Seq<char>,
    pub size: u64,
}

impl View for AssetObject {
    type V = AssetObjectView;

    open spec fn view(&self) -> AssetObjectView {
        AssetObjectView {
            logical_path: self.logical_path@,
            hash: self.hash@,
            size: self.size,
        }
    }
}

impl DeepView for AssetObject {
    type V = AssetObjectView;

    open spec fn deep_view(&self) -> AssetObjectView {
        self.view()
    }
}

} // verus!
