//! What the interface asks for: the engine of the chosen model, downloads, and the
//! state that is shown.
use crate::engine::EngineKind;
use crate::models;
use crate::models::{is_downloaded, ModelSpec, ModelView, Registry};
use crate::platform::{below1, Os, Place, PlaceView, Root};
use crate::text;
use vstd::prelude::*;

verus! {

/// The file that holds the settings.
pub fn settings_path() -> (p: Place)
    ensures
        p@ == (PlaceView { root: Root::Data, parts: seq!["settings.json"@] }),
{
    below1(Root::Data, "settings.json")
}

/// The directory that holds the models.
pub fn models_root() -> (p: Place)
    ensures
        p@ == (PlaceView { root: Root::Data, parts: seq!["models"@] }),
{
    below1(Root::Data, "models")
}

/// The file that holds the models that the user has added.
pub fn custom_path() -> (p: Place)
    ensures
        p@ == (PlaceView { root: Root::Data, parts: seq!["custom_models.json"@] }),
{
    below1(Root::Data, "custom_models.json")
}

// ---------------------------------------------------------------------------
// The engine of the chosen model
// ---------------------------------------------------------------------------

/// What is to be done next for the engine of the chosen model.
#[derive(Debug, Clone, Copy, PartialEq, Eq, Structural)]
pub enum EngineStage {
    /// Look for the chosen model.
    FindModel,
    /// Stop the engine that runs, if any.
    StopOld,
    /// See whether the files of the model are there.
    CheckFiles,
    /// See whether the runtime is there.
    CheckRuntime,
    /// Install the runtime.
    Install,
    /// Make an engine of this kind the current one.
    Create,
    /// Start the current engine.
    Start,
    /// Nothing.
    Finished,
}

/// What has happened.
#[derive(Debug, Clone, Copy, PartialEq, Eq, Structural)]
pub enum EngineEvent {
    /// There is a chosen model, for this engine; or there is none.
    Model(Option<EngineKind>),
    Stopped,
    /// Whether the files of the model are there.
    Files(bool),
    /// Whether the runtime is there.
    Runtime(bool),
    /// The installation has ended, in whatever way.
    InstallEnded,
    Created,
    /// The start has ended, in whatever way.
    StartEnded,
}

/// What is told to the interface: that the state has changed, and that the
/// installation of a runtime has ended.
#[derive(Debug, Clone, Copy, PartialEq, Eq, Structural)]
pub struct EngineNotice {
    pub changed: bool,
    pub install_done: bool,
}

/// The change to the engine of the chosen model.
#[derive(Debug, Clone, Copy, PartialEq, Eq, Structural)]
pub struct EngineChange {
    pub stage: EngineStage,
    pub kind: EngineKind,
}

/// Nothing to tell.
pub open spec fn no_notice() -> EngineNotice {
    EngineNotice { changed: false, install_done: false }
}

/// The state has changed.
pub open spec fn changed() -> EngineNotice {
    EngineNotice { changed: true, install_done: false }
}

/// The change at another stage.
pub open spec fn stage_at(s: EngineChange, stage: EngineStage) -> EngineChange {
    EngineChange { stage, ..s }
}

/// What follows, at each stage, from each event that can happen there. Only the
/// runtime of sherpa-onnx is installed, and an installation that fails does not
/// keep the engine from being started, which then tells what is missing. An event
/// that cannot happen at a stage changes nothing.
pub open spec fn engine_changed(s: EngineChange, e: EngineEvent) -> (EngineChange, EngineNotice) {
    match (s.stage, e) {
        (EngineStage::FindModel, EngineEvent::Model(None)) => (
            stage_at(s, EngineStage::Finished),
            no_notice(),
        ),
        (EngineStage::FindModel, EngineEvent::Model(Some(kind))) => (
            EngineChange { stage: EngineStage::StopOld, kind },
            no_notice(),
        ),
        (EngineStage::StopOld, EngineEvent::Stopped) => (
            stage_at(s, EngineStage::CheckFiles),
            no_notice(),
        ),
        (EngineStage::CheckFiles, EngineEvent::Files(false)) => (
            stage_at(s, EngineStage::Finished),
            changed(),
        ),
        (EngineStage::CheckFiles, EngineEvent::Files(true)) => (
            stage_at(
                s,
                if s.kind == EngineKind::SherpaOnnx {
                    EngineStage::CheckRuntime
                } else {
                    EngineStage::Create
                },
            ),
            no_notice(),
        ),
        (EngineStage::CheckRuntime, EngineEvent::Runtime(there)) => (
            stage_at(
                s,
                if there {
                    EngineStage::Create
                } else {
                    EngineStage::Install
                },
            ),
            no_notice(),
        ),
        (EngineStage::Install, EngineEvent::InstallEnded) => (
            stage_at(s, EngineStage::Create),
            EngineNotice { changed: false, install_done: true },
        ),
        (EngineStage::Create, EngineEvent::Created) => (
            stage_at(s, EngineStage::Start),
            changed(),
        ),
        (EngineStage::Start, EngineEvent::StartEnded) => (
            stage_at(s, EngineStage::Finished),
            changed(),
        ),
        _ => (s, no_notice()),
    }
}

impl EngineChange {
    /// A change of which nothing was done yet.
    pub fn new() -> (s: Self)
        ensures
            s.stage == EngineStage::FindModel,
    {
        EngineChange { stage: EngineStage::FindModel, kind: EngineKind::LlamaCpp }
    }

    fn go_to(&mut self, stage: EngineStage, changed: bool) -> (r: EngineNotice)
        ensures
            *final(self) == stage_at(*old(self), stage),
            r == (EngineNotice { changed, install_done: false }),
    {
        self.stage = stage;
        EngineNotice { changed, install_done: false }
    }

    /// Takes note of an event and tells what follows from it; `stage` tells what is
    /// to be done next.
    pub fn start_engine(&mut self, event: EngineEvent) -> (r: EngineNotice)
        ensures
            (*final(self), r) == engine_changed(*old(self), event),
    {
        match (self.stage, event) {
            (EngineStage::FindModel, EngineEvent::Model(None)) => self.go_to(
                EngineStage::Finished,
                false,
            ),
            (EngineStage::FindModel, EngineEvent::Model(Some(kind))) => {
                self.kind = kind;
                self.go_to(EngineStage::StopOld, false)
            },
            (EngineStage::StopOld, EngineEvent::Stopped) => self.go_to(
                EngineStage::CheckFiles,
                false,
            ),
            (EngineStage::CheckFiles, EngineEvent::Files(false)) => self.go_to(
                EngineStage::Finished,
                true,
            ),
            (EngineStage::CheckFiles, EngineEvent::Files(true)) => {
                if self.kind == EngineKind::SherpaOnnx {
                    self.go_to(EngineStage::CheckRuntime, false)
                } else {
                    self.go_to(EngineStage::Create, false)
                }
            },
            (EngineStage::CheckRuntime, EngineEvent::Runtime(there)) => {
                if there {
                    self.go_to(EngineStage::Create, false)
                } else {
                    self.go_to(EngineStage::Install, false)
                }
            },
            (EngineStage::Install, EngineEvent::InstallEnded) => {
                self.stage = EngineStage::Create;
                EngineNotice { changed: false, install_done: true }
            },
            (EngineStage::Create, EngineEvent::Created) => self.go_to(EngineStage::Start, true),
            (EngineStage::Start, EngineEvent::StartEnded) => self.go_to(
                EngineStage::Finished,
                true,
            ),
            _ => EngineNotice { changed: false, install_done: false },
        }
    }
}

/// The change after the events, one after the other.
pub open spec fn after(s: EngineChange, events: Seq<EngineEvent>) -> EngineChange
    decreases events.len(),
{
    if events.len() == 0 {
        s
    } else {
        engine_changed(after(s, events.drop_last()), events.last()).0
    }
}

/// An engine is started only after the one before it was stopped, and only where
/// the files of the model are there.
pub proof fn engines_start_in_order(s: EngineChange, events: Seq<EngineEvent>)
    requires
        s.stage == EngineStage::FindModel,
        after(s, events).stage == EngineStage::Start,
    ensures
        events.contains(EngineEvent::Stopped),
        events.contains(EngineEvent::Files(true)),
{
    lemma_order(s, events);
}

/// Whether the engine before was stopped, and the files were found, by the time a
/// stage is reached.
spec fn in_order(stage: EngineStage, events: Seq<EngineEvent>) -> bool {
    match stage {
        EngineStage::FindModel => true,
        EngineStage::StopOld => true,
        EngineStage::Finished => true,
        EngineStage::CheckFiles => events.contains(EngineEvent::Stopped),
        _ => events.contains(EngineEvent::Stopped) && events.contains(EngineEvent::Files(true)),
    }
}

proof fn lemma_order(s: EngineChange, events: Seq<EngineEvent>)
    requires
        s.stage == EngineStage::FindModel,
    ensures
        in_order(after(s, events).stage, events),
    decreases events.len(),
{
    if events.len() > 0 {
        let shorter = events.drop_last();
        lemma_order(s, shorter);
        let n = events.len() - 1;
        assert(events[n] == events.last());
        assert(forall|e: EngineEvent| shorter.contains(e) ==> events.contains(e)) by {
            assert forall|e: EngineEvent| shorter.contains(e) implies events.contains(e) by {
                let i = choose|i: int| 0 <= i < shorter.len() && shorter[i] == e;
                assert(events[i] == e);
            }
        }
    }
}

/// Only the runtime of sherpa-onnx is installed.
pub proof fn only_sherpa_is_installed(s: EngineChange, e: EngineEvent)
    requires
        s.stage == EngineStage::CheckFiles,
        s.kind != EngineKind::SherpaOnnx,
    ensures
        engine_changed(s, e).0.stage != EngineStage::CheckRuntime,
{
}

// ---------------------------------------------------------------------------
// Downloads
// ---------------------------------------------------------------------------

/// The models that are being downloaded.
#[derive(Debug, Clone)]
pub struct Downloads {
    pub active: Vec<String>,
}

impl View for Downloads {
    type V = Seq<Seq<char>>;

    open spec fn view(&self) -> Seq<Seq<char>> {
        text::texts(self.active@)
    }
}

impl Downloads {
    /// Whether no model is listed twice.
    pub open spec fn valid(&self) -> bool {
        self@.no_duplicates()
    }

    /// No downloads.
    pub fn new() -> (s: Self)
        ensures
            s@ == Seq::<Seq<char>>::empty(),
            s.valid(),
    {
        let s = Downloads { active: Vec::new() };
        assert(s@ == Seq::<Seq<char>>::empty());
        s
    }

    /// Whether the model `id` is being downloaded.
    pub fn contains(&self, id: &str) -> (b: bool)
        ensures
            b == self@.contains(id@),
    {
        let mut i: usize = 0;
        while i < self.active.len()
            invariant
                i <= self.active.len(),
                forall|j: int| 0 <= j < i ==> (#[trigger] self@[j]) != id@,
            decreases self.active.len() - i,
        {
            assert(self@[i as int] == self.active@[i as int]@);
            if text::same(self.active[i].as_str(), id) {
                return true;
            }
            i = i + 1;
        }
        false
    }

    /// Notes that the model `id` is being downloaded. Tells whether it was not
    /// before.
    pub fn insert(&mut self, id: &str) -> (fresh: bool)
        requires
            old(self).valid(),
        ensures
            final(self).valid(),
            fresh == !old(self)@.contains(id@),
            final(self)@ == if fresh {
                old(self)@.push(id@)
            } else {
                old(self)@
            },
    {
        if self.contains(id) {
            return false;
        }
        let ghost before = self@;
        self.active.push(id.to_string());
        assert(self@ == before.push(id@));
        true
    }

    /// Notes that the model `id` is not being downloaded any more.
    pub fn remove(&mut self, id: &str)
        requires
            old(self).valid(),
        ensures
            final(self).valid(),
            !final(self)@.contains(id@),
            final(self)@ == if old(self)@.contains(id@) {
                old(self)@.remove(old(self)@.index_of(id@))
            } else {
                old(self)@
            },
    {
        let ghost before = self@;
        let mut i: usize = 0;
        while i < self.active.len()
            invariant
                i <= self.active.len(),
                before == old(self)@,
                before.no_duplicates(),
                self@ == before,
                forall|j: int| 0 <= j < i ==> (#[trigger] self@[j]) != id@,
            decreases self.active.len() - i,
        {
            assert(self@[i as int] == self.active@[i as int]@);
            if text::same(self.active[i].as_str(), id) {
                let _ = self.active.remove(i);
                proof {
                    let now = self@;
                    assert(before.contains(id@));
                    assert(before[before.index_of(id@)] == id@);
                    assert(before.index_of(id@) == i);
                    assert(now == before.remove(i as int));
                    if now.contains(id@) {
                        let k = choose|k: int| 0 <= k < now.len() && now[k] == id@;
                        if k < i {
                            assert(before[k] == before[i as int]);
                        } else {
                            assert(before[k + 1] == before[i as int]);
                        }
                    }
                }
                return ;
            }
            i = i + 1;
        }
    }
}

/// Asks for the download of the model `id`, where `known` tells whether there is
/// such a model. Tells whether the download is to be started: not where it runs
/// already.
pub fn download_model(downloads: &mut Downloads, known: bool, id: &str) -> (r: Result<bool, String>)
    requires
        old(downloads).valid(),
    ensures
        final(downloads).valid(),
        !known ==> r is Err && r->Err_0@ == "modèle inconnu"@ && final(downloads)@ == old(
            downloads,
        )@,
        known ==> r == Ok::<bool, String>(!old(downloads)@.contains(id@)),
        known ==> final(downloads)@ == if old(downloads)@.contains(id@) {
            old(downloads)@
        } else {
            old(downloads)@.push(id@)
        },
{
    if !known {
        return Err("modèle inconnu".to_string());
    }
    Ok(downloads.insert(id))
}

/// Whether the engine is started once the model `id` was downloaded: where the
/// download has succeeded and the model is the chosen one.
pub fn starts_after_download(succeeded: bool, id: &str, chosen: &str) -> (b: bool)
    ensures
        b == (succeeded && chosen@ == id@),
{
    succeeded && text::same(chosen, id)
}

/// Asks for the removal of the files of the model `id`, where `known` tells whether
/// there is such a model. Tells whether the engine is stopped first: where the
/// model is the chosen one.
pub fn delete_model(known: bool, id: &str, chosen: &str) -> (r: Result<bool, String>)
    ensures
        !known ==> r is Err && r->Err_0@ == "modèle inconnu"@,
        known ==> r == Ok::<bool, String>(chosen@ == id@),
{
    if !known {
        return Err("modèle inconnu".to_string());
    }
    Ok(text::same(chosen, id))
}

/// The engine whose log is opened: that of the chosen model, or llama.cpp where
/// there is no such model.
pub fn logged_engine(registry: &Registry, chosen: &str) -> (r: EngineKind)
    ensures
        r == match models::first_with_id(models::all_models(registry@), chosen@) {
            Some(m) => m.engine,
            None => EngineKind::LlamaCpp,
        },
{
    match registry.find(chosen) {
        Some(m) => m.engine,
        None => EngineKind::LlamaCpp,
    }
}

// ---------------------------------------------------------------------------
// The state that is shown
// ---------------------------------------------------------------------------

/// A model as it is shown.
#[derive(Debug, Clone)]
pub struct ModelInfo {
    pub spec: ModelSpec,
    pub downloaded: bool,
    pub downloading: bool,
}

/// What a [`ModelInfo`] denotes.
#[verifier::ext_equal]
pub struct ModelInfoView {
    pub spec: ModelView,
    pub downloaded: bool,
    pub downloading: bool,
}

impl View for ModelInfo {
    type V = ModelInfoView;

    open spec fn view(&self) -> ModelInfoView {
        ModelInfoView {
            spec: self.spec@,
            downloaded: self.downloaded,
            downloading: self.downloading,
        }
    }
}

/// What a list of shown models denotes.
pub open spec fn info_views(v: Seq<ModelInfo>) -> Seq<ModelInfoView> {
    v.map_values(|m: ModelInfo| m@)
}

/// The models of `list` as they are shown: `sizes` gives the sizes of their files,
/// and `active` the models that are being downloaded.
pub open spec fn shown_models(
    list: Seq<ModelView>,
    sizes: Seq<Vec<Option<u64>>>,
    active: Seq<Seq<char>>,
) -> Seq<ModelInfoView> {
    Seq::new(
        list.len(),
        |i: int|
            ModelInfoView {
                spec: list[i],
                downloaded: models::all_present(sizes[i]@),
                downloading: active.contains(list[i].id),
            },
    )
}

/// The models of the catalogue as they are shown: `sizes` gives the sizes of the
/// files of each of them.
pub fn model_infos(registry: &Registry, sizes: &Vec<Vec<Option<u64>>>, downloads: &Downloads) -> (r:
    Vec<ModelInfo>)
    requires
        sizes.len() == models::all_models(registry@).len(),
        forall|i: int|
            0 <= i < sizes.len() ==> (#[trigger] sizes@[i]).len() == models::all_models(
                registry@,
            )[i].files.len(),
    ensures
        info_views(r@) == shown_models(models::all_models(registry@), sizes@, downloads@),
{
    let all = registry.catalog();
    let ghost list = models::all_models(registry@);
    let mut r: Vec<ModelInfo> = Vec::new();
    let mut i: usize = 0;
    assert(models::model_views(all@).len() == all@.len());
    while i < all.len()
        invariant
            i <= all.len(),
            list == models::model_views(all@),
            list.len() == all.len(),
            sizes.len() == list.len(),
            forall|k: int|
                0 <= k < sizes.len() ==> (#[trigger] sizes@[k]).len() == list[k].files.len(),
            info_views(r@) == shown_models(list, sizes@, downloads@).take(i as int),
        decreases all.len() - i,
    {
        let ghost before = r@;
        assert(list[i as int] == all@[i as int]@);
        let spec = all[i].copy();
        assert(sizes@[i as int].len() == list[i as int].files.len());
        assert(spec@.files.len() == spec.files@.len());
        let downloaded = is_downloaded(&spec, &sizes[i]);
        let downloading = downloads.contains(spec.id.as_str());
        r.push(ModelInfo { spec, downloaded, downloading });
        i = i + 1;
        proof {
            let shown = shown_models(list, sizes@, downloads@);
            assert(info_views(r@) == info_views(before).push(r@[i - 1]@));
            assert(shown.take(i as int) == shown.take(i - 1).push(shown[i - 1]));
        }
    }
    proof {
        let shown = shown_models(list, sizes@, downloads@);
        assert(shown.take(all.len() as int) == shown);
    }
    r
}

/// A runtime as it is shown.
#[derive(Debug, Clone)]
pub struct RuntimeInfo {
    pub kind: EngineKind,
    pub id: &'static str,
    pub label: &'static str,
    pub binary: &'static str,
    pub found: Option<String>,
    pub install_hint: &'static str,
}

/// The runtime of `kind` as it is shown; `found` is the path at which its server
/// program was found.
pub fn runtime_info(kind: EngineKind, os: Os, found: Option<String>) -> (r: RuntimeInfo)
    ensures
        r.kind == kind,
        r.id@ == kind.id_text(),
        r.label@ == kind.label_text(),
        r.binary@ == kind.binary_text(),
        r.found == found,
        r.install_hint@ == kind.hint_text(os),
{
    RuntimeInfo {
        kind,
        id: kind.id(),
        label: kind.label(),
        binary: kind.binary(),
        found,
        install_hint: kind.install_hint(os),
    }
}

/// An engine is brought up in this order: the model is looked up, the old engine is
/// stopped, the files are checked, the engine is created and started; a missing runtime of
/// sherpa-onnx is installed in between. The interface is told when the engine is there and
/// when its start has ended.
pub proof fn engines_are_brought_up(s: EngineChange, kind: EngineKind, there: bool)
    requires
        s.stage == EngineStage::FindModel,
    ensures
        ({
            let a = engine_changed(s, EngineEvent::Model(Some(kind))).0;
            let b = engine_changed(a, EngineEvent::Stopped).0;
            let c = engine_changed(b, EngineEvent::Files(true)).0;
            let d = engine_changed(c, EngineEvent::Runtime(there)).0;
            let created = engine_changed(stage_at(c, EngineStage::Create), EngineEvent::Created);
            let started = engine_changed(created.0, EngineEvent::StartEnded);
            let installed = engine_changed(
                stage_at(c, EngineStage::Install),
                EngineEvent::InstallEnded,
            );
            &&& a.stage == EngineStage::StopOld && a.kind == kind
            &&& b.stage == EngineStage::CheckFiles
            &&& kind != EngineKind::SherpaOnnx ==> c.stage == EngineStage::Create
            &&& kind == EngineKind::SherpaOnnx ==> c.stage == EngineStage::CheckRuntime && d.stage
                == if there {
                EngineStage::Create
            } else {
                EngineStage::Install
            }
            &&& installed.0.stage == EngineStage::Create && installed.1.install_done
            &&& created.0.stage == EngineStage::Start && created.1.changed
            &&& started.0.stage == EngineStage::Finished && started.1.changed
            &&& started.0.kind == kind
        }),
{
}

/// Nothing is brought up for a model that is not known, or whose files are not there; in
/// the second case the interface is told, the old engine being gone.
pub proof fn missing_models_start_nothing(s: EngineChange)
    ensures
        s.stage == EngineStage::FindModel ==> engine_changed(s, EngineEvent::Model(None)).0.stage
            == EngineStage::Finished && !engine_changed(s, EngineEvent::Model(None)).1.changed,
        s.stage == EngineStage::CheckFiles ==> engine_changed(s, EngineEvent::Files(false)).0.stage
            == EngineStage::Finished && engine_changed(s, EngineEvent::Files(false)).1.changed,
{
}

/// Each model is shown in its place, as there where all its files are, and as being
/// fetched where its download runs.
pub proof fn models_are_shown_as_they_are(
    list: Seq<ModelView>,
    sizes: Seq<Vec<Option<u64>>>,
    active: Seq<Seq<char>>,
    i: int,
)
    requires
        0 <= i < list.len(),
    ensures
        shown_models(list, sizes, active).len() == list.len(),
        shown_models(list, sizes, active)[i].spec == list[i],
        shown_models(list, sizes, active)[i].downloaded == models::all_present(sizes[i]@),
        shown_models(list, sizes, active)[i].downloading == active.contains(list[i].id),
{
}

}
