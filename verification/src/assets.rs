//! The bookkeeping of a shader build server: what kind of shader a source
//! file holds, what its output is called, and whether, by the record of an
//! earlier run, it has to be built again.

use vstd::prelude::*;
use vstd::string::{StrSliceExecFns, StringExecFns};

verus! {

#[derive(Clone, Copy, Debug, PartialEq, Eq, Structural)]
pub enum ShaderType {
    VertexShader,
    FragmentShader,
    UnsupportedShader,
}

#[derive(Clone, Copy, Debug, PartialEq, Eq, Structural)]
pub enum BuildStatus {
    AssetBuilt,
    AssetNotBuilt,
    Unknown,
}

#[derive(Clone, Copy, Debug, PartialEq, Eq, Structural)]
pub enum CacheStatus {
    OutOfDate,
    UpToDate,
    Unknown,
}

#[derive(Clone, Copy, Debug, PartialEq, Eq, Structural)]
pub enum AssetType {
    Shader,
    FrameGraph,
}

/// A source file and what is known of its output.
#[derive(Clone, Debug, PartialEq, Eq)]
pub struct Asset {
    pub asset_name: String,
    pub output_name: String,
    pub build_status: BuildStatus,
    pub cache_status: CacheStatus,
    pub asset_type: AssetType,
    /// When the source was last modified, in seconds since the epoch.
    pub modified: i64,
}

/// What an earlier run recorded of a source file.
#[derive(Clone, Debug, PartialEq, Eq)]
pub struct CacheEntry {
    pub id: i64,
    pub name: String,
    pub modified: i64,
}

impl BuildStatus {
    pub open spec fn spec_label(self) -> Seq<char> {
        match self {
            BuildStatus::AssetBuilt => "Built"@,
            BuildStatus::AssetNotBuilt => "Not Built"@,
            BuildStatus::Unknown => "Unknown build status...CacheEntry"@,
        }
    }

    /// The words that stand for this status in a listing.
    pub fn label(&self) -> (text: String)
        ensures
            text@ == self.spec_label(),
    {
        match self {
            BuildStatus::AssetBuilt => String::from_str("Built"),
            BuildStatus::AssetNotBuilt => String::from_str("Not Built"),
            BuildStatus::Unknown => String::from_str("Unknown build status...CacheEntry"),
        }
    }
}

impl CacheStatus {
    pub open spec fn spec_label(self) -> Seq<char> {
        match self {
            CacheStatus::OutOfDate => "Was out of date"@,
            CacheStatus::UpToDate => "Up to date"@,
            CacheStatus::Unknown => "Unknown cache status..."@,
        }
    }

    /// The words that stand for this status in a listing.
    pub fn label(&self) -> (text: String)
        ensures
            text@ == self.spec_label(),
    {
        match self {
            CacheStatus::OutOfDate => String::from_str("Was out of date"),
            CacheStatus::UpToDate => String::from_str("Up to date"),
            CacheStatus::Unknown => String::from_str("Unknown cache status..."),
        }
    }
}

/// The kind of shader that a file with the given extension holds.
pub open spec fn shader_type_of(extension: Seq<char>) -> ShaderType {
    if extension == "vert"@ {
        ShaderType::VertexShader
    } else if extension == "frag"@ {
        ShaderType::FragmentShader
    } else {
        ShaderType::UnsupportedShader
    }
}

/// Tells the kind of shader from the extension of a file name: `vert` for a
/// vertex shader, `frag` for a fragment shader; nothing else is supported.
pub fn shader_type(extension: &String) -> (kind: ShaderType)
    ensures
        kind == shader_type_of(extension@),
{
    if *extension == String::from_str("vert") {
        ShaderType::VertexShader
    } else if *extension == String::from_str("frag") {
        ShaderType::FragmentShader
    } else {
        ShaderType::UnsupportedShader
    }
}

/// How many characters stand before the first dot of a file name: all of
/// them, if it holds no dot.
pub open spec fn stem_len(file_name: Seq<char>) -> nat
    decreases file_name.len(),
{
    if file_name.len() == 0 || file_name.first() == '.' {
        0
    } else {
        1 + stem_len(file_name.drop_first())
    }
}

/// The part of a file name before its first dot.
pub open spec fn stem_of(file_name: Seq<char>) -> Seq<char> {
    file_name.take(stem_len(file_name) as int)
}

/// The stem ends where the first dot stands, or with the name.
pub proof fn lemma_stem_len(file_name: Seq<char>, end: int)
    requires
        0 <= end <= file_name.len(),
        forall|i: int| 0 <= i < end ==> file_name[i] != '.',
        end < file_name.len() ==> file_name[end] == '.',
    ensures
        stem_len(file_name) == end,
    decreases end,
{
    if end > 0 {
        let rest = file_name.drop_first();
        assert forall|i: int| 0 <= i < end - 1 implies rest[i] != '.' by {
            assert(rest[i] == file_name[i + 1]);
        }
        if end - 1 < rest.len() {
            assert(rest[end - 1] == file_name[end]);
        }
        lemma_stem_len(rest, end - 1);
    }
}

/// The part of a file name before its first dot.
pub fn file_stem(file_name: &str) -> (stem: &str)
    ensures
        stem@ == stem_of(file_name@),
{
    let length = file_name.unicode_len();
    let mut end: usize = 0;
    while end < length
        invariant
            end <= length,
            length == file_name@.len(),
            forall|i: int| 0 <= i < end ==> file_name@[i] != '.',
        ensures
            end < length ==> file_name@[end as int] == '.',
        decreases length - end,
    {
        if file_name.get_char(end) == '.' {
            break ;
        }
        end += 1;
    }
    proof {
        lemma_stem_len(file_name@, end as int);
    }
    let stem = file_name.substring_char(0, end);
    assert(stem@ =~= file_name@.take(end as int));
    stem
}

/// The name of the compiled output of a shader: the stem of the source
/// name, an underscore, the extension, and `.spv`.
pub fn output_name(file_name: &str, extension: &str) -> (name: String)
    ensures
        name@ == stem_of(file_name@) + "_"@ + extension@ + ".spv"@,
{
    String::from_str(file_stem(file_name)).concat("_").concat(extension).concat(".spv")
}

/// The first record of the given name.
pub open spec fn cached_entry(cached: Seq<CacheEntry>, name: Seq<char>) -> Option<CacheEntry>
    decreases cached.len(),
{
    if cached.len() == 0 {
        None
    } else if cached.first().name@ == name {
        Some(cached.first())
    } else {
        cached_entry(cached.drop_first(), name)
    }
}

impl Asset {
    pub fn update_status(&mut self, status: BuildStatus)
        ensures
            *final(self) == (Asset { build_status: status, ..*old(self) }),
    {
        self.build_status = status;
    }

    /// Whether the asset has to be built: all but those that are built.
    pub open spec fn spec_needs_build(&self) -> bool {
        self.build_status != BuildStatus::AssetBuilt
    }

    #[verifier::when_used_as_spec(spec_needs_build)]
    pub fn needs_build(&self) -> (b: bool)
        ensures
            b == self.spec_needs_build(),
    {
        match self.build_status {
            BuildStatus::AssetBuilt => false,
            _ => true,
        }
    }

    /// Whether the record has to be brought up to date once the asset has
    /// been built: where the asset was found out of date.
    pub open spec fn spec_needs_cache_update(&self) -> bool {
        self.cache_status == CacheStatus::OutOfDate
    }

    #[verifier::when_used_as_spec(spec_needs_cache_update)]
    pub fn needs_cache_update(&self) -> (b: bool)
        ensures
            b == self.spec_needs_cache_update(),
    {
        match self.cache_status {
            CacheStatus::OutOfDate => true,
            _ => false,
        }
    }

    /// This asset after it has been held against the record of an earlier
    /// run. Without a record it counts as up to date and not built. With an
    /// older record it is out of date and not built; with one of the same
    /// time it is up to date; a newer record changes nothing.
    pub open spec fn checked(self, cached: Seq<CacheEntry>) -> Asset {
        match cached_entry(cached, self.asset_name@) {
            None => Asset {
                cache_status: CacheStatus::UpToDate,
                build_status: BuildStatus::AssetNotBuilt,
                ..self
            },
            Some(entry) => if self.modified > entry.modified {
                Asset {
                    cache_status: CacheStatus::OutOfDate,
                    build_status: BuildStatus::AssetNotBuilt,
                    ..self
                }
            } else if self.modified == entry.modified {
                Asset { cache_status: CacheStatus::UpToDate, ..self }
            } else {
                self
            },
        }
    }
}

/// The assets after each has been held against the record.
pub open spec fn checked_all(assets: Seq<Asset>, cached: Seq<CacheEntry>) -> Seq<Asset> {
    Seq::new(assets.len(), |i: int| assets[i].checked(cached))
}

/// The indices of the assets of which there is no record, in ascending
/// order.
pub open spec fn unrecorded(assets: Seq<Asset>, cached: Seq<CacheEntry>) -> Seq<usize>
    decreases assets.len(),
{
    if assets.len() == 0 {
        Seq::empty()
    } else {
        let before = unrecorded(assets.drop_last(), cached);
        if cached_entry(cached, assets.last().asset_name@) is None {
            before.push((assets.len() - 1) as usize)
        } else {
            before
        }
    }
}

/// Finds the first record of the given name.
pub fn find_cached(cached_assets: &Vec<CacheEntry>, name: &String) -> (found: Option<usize>)
    ensures
        match found {
            Some(i) => i < cached_assets.len() && cached_entry(cached_assets@, name@) == Some(
                cached_assets@[i as int],
            ),
            None => cached_entry(cached_assets@, name@) is None,
        },
{
    let mut i: usize = 0;
    assert(cached_assets@.skip(0) =~= cached_assets@);
    while i < cached_assets.len()
        invariant
            i <= cached_assets.len(),
            cached_entry(cached_assets@, name@) == cached_entry(
                cached_assets@.skip(i as int),
                name@,
            ),
        decreases cached_assets.len() - i,
    {
        proof {
            let rest = cached_assets@.skip(i as int);
            assert(rest.first() == cached_assets@[i as int]);
            assert(rest.drop_first() == cached_assets@.skip(i + 1));
        }
        if cached_assets[i].name == *name {
            return Some(i);
        }
        i += 1;
    }
    None
}

/// Holds each asset against the record of an earlier run and sets its
/// status accordingly. Returns the indices of the assets that the record
/// lacks, which are to be added to it.
pub fn check_against_cache(
    local_assets: &mut Vec<Asset>,
    cached_assets: &Vec<CacheEntry>,
) -> (missing: Vec<usize>)
    ensures
        final(local_assets)@ == checked_all(old(local_assets)@, cached_assets@),
        missing@ == unrecorded(old(local_assets)@, cached_assets@),
{
    let mut missing: Vec<usize> = Vec::new();
    let mut i: usize = 0;
    while i < local_assets.len()
        invariant
            i <= local_assets.len(),
            local_assets.len() == old(local_assets).len(),
            forall|j: int|
                0 <= j < i ==> local_assets@[j] == old(local_assets)@[j].checked(cached_assets@),
            forall|j: int|
                i <= j < local_assets.len() ==> local_assets@[j] == old(local_assets)@[j],
            missing@ == unrecorded(old(local_assets)@.take(i as int), cached_assets@),
        decreases local_assets.len() - i,
    {
        proof {
            let longer = old(local_assets)@.take(i + 1);
            assert(longer.drop_last() == old(local_assets)@.take(i as int));
            assert(longer.last() == old(local_assets)@[i as int]);
        }
        let cache_entry = find_cached(cached_assets, &local_assets[i].asset_name);
        let asset = &mut local_assets[i];
        match cache_entry {
            None => {
                asset.cache_status = CacheStatus::UpToDate;
                asset.build_status = BuildStatus::AssetNotBuilt;
                missing.push(i);
            },
            Some(found) => {
                let recorded: i64 = cached_assets[found].modified;
                if asset.modified > recorded {
                    asset.cache_status = CacheStatus::OutOfDate;
                    asset.build_status = BuildStatus::AssetNotBuilt;
                } else if asset.modified == recorded {
                    asset.cache_status = CacheStatus::UpToDate;
                }
            },
        }
        i += 1;
    }
    proof {
        assert(old(local_assets)@.take(i as int) == old(local_assets)@);
        assert(local_assets@ =~= checked_all(old(local_assets)@, cached_assets@));
    }
    missing
}

/// The number of change notices that one saved file gives rise to.
pub const NUM_EVENTS_MODIFIED: usize = 3;

/// Takes in what the file watcher had to say since the last call. A notice
/// is put by. Silence after exactly `NUM_EVENTS_MODIFIED` notices means that
/// a file has been saved: the notices are dropped and the path of the last
/// one is returned, to be built. Any other silence changes nothing.
pub fn collect_event(collected: &mut Vec<String>, event: Option<String>) -> (touched: Option<
    String,
>)
    ensures
        match event {
            Some(path) => touched is None && final(collected)@ == old(collected)@.push(path),
            None => if old(collected)@.len() == NUM_EVENTS_MODIFIED {
                touched == Some(old(collected)@.last()) && final(collected)@.len() == 0
            } else {
                touched is None && final(collected)@ == old(collected)@
            },
        },
{
    match event {
        Some(path) => {
            collected.push(path);
            None
        },
        None => {
            if collected.len() == NUM_EVENTS_MODIFIED {
                let touched = collected.pop();
                collected.clear();
                touched
            } else {
                None
            }
        },
    }
}

/// The number of change notices that the renderer waits for before it takes
/// a compiled shader as written.
pub const NUM_EVENTS_COMPILED: usize = 2;

/// Where the renderer looks for compiled shaders.
pub open spec fn shader_bin_path() -> Seq<char> {
    "copper/shaders/bin/"@
}

/// The change notices that the renderer has received for compiled shaders
/// and not yet acted on, each as the name of the file concerned.
pub struct AssetEvents {
    event_collecter: Vec<String>,
    ready_to_process_asset_events: bool,
}

impl AssetEvents {
    /// The file names of the notices that are waiting, oldest first.
    pub closed spec fn collected(&self) -> Seq<String> {
        self.event_collecter@
    }

    /// Whether a changed shader is waiting to be taken up.
    pub closed spec fn ready(&self) -> bool {
        self.ready_to_process_asset_events
    }

    /// A changed shader waits only where there is a notice of it.
    pub open spec fn wf(&self) -> bool {
        self.ready() ==> self.collected().len() > 0
    }

    pub fn new() -> (events: AssetEvents)
        ensures
            events.wf(),
            events.collected().len() == 0,
            !events.ready(),
    {
        AssetEvents { event_collecter: Vec::new(), ready_to_process_asset_events: false }
    }

    /// Whether a changed shader is waiting to be taken up.
    pub fn is_ready(&self) -> (b: bool)
        ensures
            b == self.ready(),
    {
        self.ready_to_process_asset_events
    }

    /// Takes in what the file watcher had to say since the last call. A
    /// notice is put by. Silence after exactly `NUM_EVENTS_COMPILED` notices
    /// means that a shader has been written.
    pub fn receive_asset_event(&mut self, event: Option<String>)
        requires
            old(self).wf(),
        ensures
            final(self).wf(),
            match event {
                Some(name) => {
                    &&& final(self).collected() == old(self).collected().push(name)
                    &&& final(self).ready() == old(self).ready()
                },
                None => {
                    &&& final(self).collected() == old(self).collected()
                    &&& final(self).ready() == (old(self).ready() || old(self).collected().len()
                        == NUM_EVENTS_COMPILED)
                },
            },
    {
        match event {
            Some(name) => {
                self.event_collecter.push(name);
            },
            None => {
                if self.event_collecter.len() == NUM_EVENTS_COMPILED {
                    self.ready_to_process_asset_events = true;
                }
            },
        }
    }

    /// Takes up the changed shader, if one is waiting: drops the notices
    /// and returns the path of the shader that the last of them named.
    pub fn process_asset_event(&mut self) -> (key: Option<String>)
        requires
            old(self).wf(),
        ensures
            final(self).wf(),
            !final(self).ready(),
            match key {
                Some(path) => {
                    &&& old(self).ready()
                    &&& path@ == shader_bin_path() + old(self).collected().last()@
                    &&& final(self).collected().len() == 0
                },
                None => !old(self).ready() && final(self).collected() == old(self).collected(),
            },
    {
        if self.ready_to_process_asset_events {
            let asset_name = self.event_collecter.pop();
            self.event_collecter.clear();
            self.ready_to_process_asset_events = false;
            match asset_name {
                Some(name) => Some(String::from_str("copper/shaders/bin/").concat(name.as_str())),
                None => None,
            }
        } else {
            None
        }
    }
}

} // verus!
