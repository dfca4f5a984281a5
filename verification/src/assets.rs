//! The resources that come with the service, and where they are unpacked.
use crate::path::{
    join_path, law_joined_on_unix, law_parent_on_unix, parent, path_joined, path_parent, System,
};
use crate::text::opt_text;
use vstd::prelude::*;

verus! {

#[derive(Clone, Copy, Debug)]
pub struct EmbeddedAsset {
    pub path: &'static str,
    pub data: &'static [u8],
    pub unix_mode: Option<u32>,
}

/// A resource is written to `path`, after the directory `parent` was made with those above it.
#[derive(Debug)]
pub struct AssetTarget {
    pub path: String,
    pub parent: Option<String>,
    pub unix_mode: Option<u32>,
}

/// What has to be done so that all resources are in place.
#[derive(Debug)]
pub struct AssetPlan {
    /// The directory above all resources; it is made with those above it.
    pub root: String,
    /// Where the resources go, one for one.
    pub targets: Vec<AssetTarget>,
}

/// The directory above all resources: that above the compilers.
pub open spec fn asset_root_of(system: System, tiecc_dir: Seq<char>) -> Seq<char> {
    match path_parent(system, tiecc_dir) {
        Some(p) => p,
        None => "./.tiec"@,
    }
}

pub fn asset_root(system: System, tiecc_dir: &str) -> (r: String)
    ensures
        r@ == asset_root_of(system, tiecc_dir@),
{
    match parent(system, tiecc_dir) {
        Some(p) => p,
        None => "./.tiec".to_owned(),
    }
}

impl AssetTarget {
    pub open spec fn is_for(
        &self,
        system: System,
        root: Seq<char>,
        asset: EmbeddedAsset,
    ) -> bool {
        &&& self.path@ == path_joined(system, root, asset.path@)
        &&& opt_text(self.parent) == path_parent(system, self.path@)
        &&& self.unix_mode == asset.unix_mode
    }
}

/// The resources are unpacked where the compilers or the libraries are missing.
pub fn unpack_assets(
    system: System,
    tiecc_dir: &str,
    tiecc_exists: bool,
    stdlib_exists: bool,
    assets: &[EmbeddedAsset],
) -> (r: Option<AssetPlan>)
    ensures
        r is None <==> tiecc_exists && stdlib_exists,
        r matches Some(plan) ==> {
            &&& plan.root@ == asset_root_of(system, tiecc_dir@)
            &&& plan.targets@.len() == assets@.len()
            &&& forall|i: int|
                0 <= i < assets@.len() ==> (#[trigger] plan.targets@[i]).is_for(
                    system,
                    plan.root@,
                    assets@[i],
                )
        },
{
    if tiecc_exists && stdlib_exists {
        return None;
    }
    let root = asset_root(system, tiecc_dir);
    let mut targets: Vec<AssetTarget> = Vec::new();
    let mut i: usize = 0;
    while i < assets.len()
        invariant
            i <= assets@.len(),
            targets@.len() == i,
            forall|k: int| 0 <= k < i ==> (#[trigger] targets@[k]).is_for(
                system,
                root@,
                assets@[k],
            ),
        decreases assets@.len() - i,
    {
        let path = join_path(system, root.as_str(), assets[i].path);
        let above = parent(system, path.as_str());
        targets.push(AssetTarget { path, parent: above, unix_mode: assets[i].unix_mode });
        i += 1;
    }
    Some(AssetPlan { root, targets })
}

/// The Android library among the libraries, and where it is kept for projects.
pub fn android_library(system: System, tiecc_dir: &str, stdlib_dir: &str) -> (r: (String, String))
    ensures
        r.0@ == path_joined(system, stdlib_dir@, "android"@),
        r.1@ == path_joined(system, asset_root_of(system, tiecc_dir@), "安卓基本库"@),
{
    let root = asset_root(system, tiecc_dir);
    (join_path(system, stdlib_dir, "android"), join_path(system, root.as_str(), "安卓基本库"))
}

/// The Android library is copied where it is not in place yet and can be had.
pub fn copies_android_library(kept_exists: bool, source_exists: bool) -> (r: bool)
    ensures
        r == (!kept_exists && source_exists),
{
    !kept_exists && source_exists
}

/// On Unix the resources lie beside the compilers: in the directory that holds the directory of the
/// compilers, whatever that is called.
pub proof fn law_asset_root(up: Seq<char>, base: Seq<char>, name: Seq<char>)
    requires
        up.len() > 0,
        base.len() > 0,
        !base.contains('/'),
        base != seq!['.'],
        name.len() > 0,
        !name.contains('/'),
        name != seq!['.'],
    ensures
        asset_root_of(System::Unix, (up.push('/') + base).push('/') + name) == up.push('/') + base,
{
    law_parent_on_unix(up, base, name);
}

/// On Unix a resource goes to the place below the root that its path says, with its mode.
pub proof fn law_resource_place(t: AssetTarget, root: Seq<char>, asset: EmbeddedAsset)
    requires
        t.is_for(System::Unix, root, asset),
        root.len() > 0,
        root.last() != '/',
        asset.path@.len() > 0,
        asset.path@[0] != '/',
    ensures
        t.path@ == root + seq!['/'] + asset.path@,
        t.unix_mode == asset.unix_mode,
{
    law_joined_on_unix(root, asset.path@);
}

} // verus!
