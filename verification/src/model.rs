//! Data model of the build stream and of the sync run.
//!
//! `Builds` mirrors the stream index (`builds.json`), `BuildMeta` one
//! build's metadata (`meta.json`), and `SyncState` the persisted marker
//! naming the last synchronized build. `RetainedBuild` is a build that
//! declares a rojig artifact, reduced to what the sync needs.
//!
//! Each executable type has a ghost model over `Seq<char>` views; the
//! planner's and the state machine's specifications speak of the models.

use vstd::prelude::*;

verus! {

/// A rojig artifact descriptor from a build's metadata.
pub struct UncompressedImage {
    pub path: String,
    pub size: u64,
    pub sha256: String,
}

/// A compressed artifact descriptor (the qemu image); parsed but never
/// synchronized.
pub struct CompressedImage {
    pub path: String,
    pub size: u64,
    pub sha256: String,
    pub uncompressed_sha256: String,
}

/// The `images` section of a build's metadata.
pub struct BuildMetaImages {
    pub qemu: Option<CompressedImage>,
    pub rojig: Option<UncompressedImage>,
}

/// One build's metadata, fetched from `<id>/<arch>/meta.json`.
pub struct BuildMeta {
    pub buildid: String,
    pub images: BuildMetaImages,
}

/// One entry of the stream index.
pub struct Build {
    pub id: String,
    pub arches: Vec<String>,
}

/// The stream index, fetched from `builds.json`. The builds are assumed
/// to be ordered newest-first; the history window and the choice of the
/// latest retained build rest on that order, which is not checked here.
pub struct Builds {
    pub schema_version: String,
    pub builds: Vec<Build>,
}

/// The persisted marker: the id of the last build synchronized into the
/// target location.
pub struct SyncState {
    pub build: String,
}

/// A retained build: one whose metadata declares a rojig artifact.
pub struct RetainedBuild {
    pub buildid: String,
    pub rojig: UncompressedImage,
}

/// Ghost model of a rojig artifact descriptor.
#[verifier::ext_equal]
pub ghost struct RojigModel {
    pub path: Seq<char>,
    pub size: u64,
    pub sha256: Seq<char>,
}

/// Ghost model of a retained build.
#[verifier::ext_equal]
pub ghost struct RetainedModel {
    pub buildid: Seq<char>,
    pub rojig: RojigModel,
}

/// Ghost model of a build's metadata, reduced to what the sync reads.
#[verifier::ext_equal]
pub ghost struct MetaModel {
    pub buildid: Seq<char>,
    pub rojig: Option<RojigModel>,
}

impl View for UncompressedImage {
    type V = RojigModel;

    open spec fn view(&self) -> RojigModel {
        RojigModel { path: self.path@, size: self.size, sha256: self.sha256@ }
    }
}

impl DeepView for UncompressedImage {
    type V = RojigModel;

    open spec fn deep_view(&self) -> RojigModel {
        self.view()
    }
}

impl View for RetainedBuild {
    type V = RetainedModel;

    open spec fn view(&self) -> RetainedModel {
        RetainedModel { buildid: self.buildid@, rojig: self.rojig@ }
    }
}

impl DeepView for RetainedBuild {
    type V = RetainedModel;

    open spec fn deep_view(&self) -> RetainedModel {
        self.view()
    }
}

impl View for BuildMeta {
    type V = MetaModel;

    open spec fn view(&self) -> MetaModel {
        MetaModel {
            buildid: self.buildid@,
            rojig: match self.images.rojig {
                Option::Some(img) => Option::Some(img@),
                Option::None => Option::None,
            },
        }
    }
}

impl DeepView for BuildMeta {
    type V = MetaModel;

    open spec fn deep_view(&self) -> MetaModel {
        self.view()
    }
}

/// The ordered build ids of a stream index.
pub open spec fn ids_of(index: Builds) -> Seq<Seq<char>> {
    index.builds@.map_values(|b: Build| b.id@)
}

/// The persisted marker reduced to the build id it names.
pub open spec fn marker_model(m: Option<SyncState>) -> Option<Seq<char>> {
    match m {
        Option::Some(s) => Option::Some(s.build@),
        Option::None => Option::None,
    }
}

} // verus!
