//! The addon, its lifecycle flag and the patch that brings remote
//! metadata to it.

use crate::folder::{folder_name, folder_name_of};
use crate::text::{opt_text, texts};
use vstd::prelude::*;

verus! {

/// The lifecycle flag of an addon. It is shown to the user and decides
/// nothing in this library.
#[derive(Debug, Clone, PartialEq, Eq)]
pub enum AddonState {
    /// Nothing is going on; an optional note says what happened last.
    Idle(Option<String>),
    Updatable,
    Downloading,
    Unpacking,
}

/// What an `AddonState` stands for.
pub enum StateModel {
    Idle(Option<Seq<char>>),
    Updatable,
    Downloading,
    Unpacking,
}

impl View for AddonState {
    type V = StateModel;

    open spec fn view(&self) -> StateModel {
        match *self {
            AddonState::Idle(note) => StateModel::Idle(opt_text(note)),
            AddonState::Updatable => StateModel::Updatable,
            AddonState::Downloading => StateModel::Downloading,
            AddonState::Unpacking => StateModel::Unpacking,
        }
    }
}

/// Remote metadata for one addon. It is applied to the addon whose id it
/// carries and then dropped.
#[derive(Clone, Debug)]
pub struct AddonDetails {
    pub id: String,
    pub version: String,
    pub filename: String,
}

/// What an `AddonDetails` stands for.
pub struct DetailsModel {
    pub id: Seq<char>,
    pub version: Seq<char>,
    pub filename: Seq<char>,
}

impl View for AddonDetails {
    type V = DetailsModel;

    open spec fn view(&self) -> DetailsModel {
        DetailsModel { id: self.id@, version: self.version@, filename: self.filename@ }
    }
}

/// One installed addon.
///
/// `id` is the name of the folder the addon lives in. Other addons name
/// it by this id in their `dependencies`, and two addons are equal when
/// their ids are. `version` is absent on an addon that is only ever
/// shipped as part of another one. The remote fields are absent until
/// metadata has been applied.
#[derive(Debug, Clone)]
pub struct Addon {
    pub id: String,
    pub title: String,
    pub version: Option<String>,
    pub remote_version: Option<String>,
    pub remote_filename: Option<String>,
    pub remote_url: Option<String>,
    pub path: String,
    pub dependencies: Vec<String>,
    pub state: AddonState,
    pub wowi_id: Option<String>,
}

/// What an `Addon` stands for.
pub struct AddonModel {
    pub id: Seq<char>,
    pub title: Seq<char>,
    pub version: Option<Seq<char>>,
    pub remote_version: Option<Seq<char>>,
    pub remote_filename: Option<Seq<char>>,
    pub remote_url: Option<Seq<char>>,
    pub path: Seq<char>,
    pub dependencies: Seq<Seq<char>>,
    pub state: StateModel,
    pub wowi_id: Option<Seq<char>>,
}

impl AddonModel {
    /// The addon carries a version of its own, so it is released by itself.
    pub open spec fn is_parent(self) -> bool {
        self.version is Some
    }

    /// A remote version is known and is not the local one. An addon
    /// without a local version is updatable as soon as a remote one is
    /// known.
    pub open spec fn is_updatable(self) -> bool {
        self.remote_version is Some && self.version != self.remote_version
    }

    /// The addon after the patch: the remote version and file name are
    /// those of the patch, and the state is `Updatable` if the addon now
    /// is; everything else is as before.
    pub open spec fn patched(self, patch: DetailsModel) -> AddonModel {
        let merged = AddonModel {
            remote_version: Some(patch.version),
            remote_filename: Some(patch.filename),
            ..self
        };
        if merged.is_updatable() {
            AddonModel { state: StateModel::Updatable, ..merged }
        } else {
            merged
        }
    }
}

impl View for Addon {
    type V = AddonModel;

    open spec fn view(&self) -> AddonModel {
        AddonModel {
            id: self.id@,
            title: self.title@,
            version: opt_text(self.version),
            remote_version: opt_text(self.remote_version),
            remote_filename: opt_text(self.remote_filename),
            remote_url: opt_text(self.remote_url),
            path: self.path@,
            dependencies: texts(self.dependencies@),
            state: self.state@,
            wowi_id: opt_text(self.wowi_id),
        }
    }
}

impl Addon {
    /// A new addon installed at `path`, whose last component becomes the
    /// id. Nothing is known of the remote side yet and the addon is idle.
    ///
    /// The path must have a last component; `try_new` takes any path.
    pub fn new(
        title: String,
        version: Option<String>,
        path: String,
        wowi_id: Option<String>,
        dependencies: Vec<String>,
    ) -> (r: Addon)
        requires
            folder_name(path@) is Some,
        ensures
            r@ == (AddonModel {
                id: folder_name(path@)->0,
                title: title@,
                version: opt_text(version),
                remote_version: None,
                remote_filename: None,
                remote_url: None,
                path: path@,
                dependencies: texts(dependencies@),
                state: StateModel::Idle(None),
                wowi_id: opt_text(wowi_id),
            }),
    {
        let id = folder_name_of(path.as_str()).unwrap();
        Addon {
            id,
            title,
            version,
            remote_version: None,
            remote_filename: None,
            remote_url: None,
            path,
            dependencies,
            state: AddonState::Idle(None),
            wowi_id,
        }
    }

    /// As `new`, for any path: `None` where the path has no last
    /// component to take the id from.
    pub fn try_new(
        title: String,
        version: Option<String>,
        path: String,
        wowi_id: Option<String>,
        dependencies: Vec<String>,
    ) -> (r: Option<Addon>)
        ensures
            r is Some <==> folder_name(path@) is Some,
            r matches Some(a) ==> a@ == (AddonModel {
                id: folder_name(path@)->0,
                title: title@,
                version: opt_text(version),
                remote_version: None,
                remote_filename: None,
                remote_url: None,
                path: path@,
                dependencies: texts(dependencies@),
                state: StateModel::Idle(None),
                wowi_id: opt_text(wowi_id),
            }),
    {
        if folder_name_of(path.as_str()).is_some() {
            Some(Addon::new(title, version, path, wowi_id, dependencies))
        } else {
            None
        }
    }

    /// Merges remote metadata into the addon. The caller has matched the
    /// patch to the addon; the patch's id is not looked at.
    ///
    /// The remote version and file name are overwritten. If the addon is
    /// updatable afterwards, its state becomes `Updatable`; otherwise the
    /// state stays what it was, also where that was `Updatable`.
    pub fn apply_details(&mut self, patch: &AddonDetails)
        ensures
            final(self)@ == old(self)@.patched(patch@),
    {
        self.remote_version = Some(patch.version.clone());
        self.remote_filename = Some(patch.filename.clone());
        if self.is_updatable() {
            self.state = AddonState::Updatable;
        }
    }

    /// Whether the addon is released by itself: it carries a version.
    ///
    /// Removing a parent removes its dependencies with it, but never
    /// another parent.
    pub fn is_parent(&self) -> (r: bool)
        ensures
            r == self@.is_parent(),
    {
        self.version.is_some()
    }

    /// Whether a remote version is known that differs from the local one.
    pub fn is_updatable(&self) -> (r: bool)
        ensures
            r == self@.is_updatable(),
    {
        match &self.remote_version {
            Some(remote) => match &self.version {
                Some(local) => !(*local == *remote),
                None => true,
            },
            None => false,
        }
    }
}

/// Applying a patch a second time changes nothing: the remote version,
/// the remote file name, the state and every other field are what the
/// first application left.
pub proof fn lemma_patch_idempotent(addon: AddonModel, patch: DetailsModel)
    ensures
        addon.patched(patch).patched(patch) == addon.patched(patch),
{
}

/// A patched addon carries the patch's version and file name, and it is
/// never demoted: its state is `Updatable` if it is updatable now, and
/// otherwise the state it had.
pub proof fn lemma_patch_sets_remote_fields(addon: AddonModel, patch: DetailsModel)
    ensures
        addon.patched(patch).remote_version == Some(patch.version),
        addon.patched(patch).remote_filename == Some(patch.filename),
        addon.patched(patch).is_updatable() <==> addon.version != Some(patch.version),
        addon.patched(patch).state == if addon.version != Some(patch.version) {
            StateModel::Updatable
        } else {
            addon.state
        },
{
}

} // verus!
