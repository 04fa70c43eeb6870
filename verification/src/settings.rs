//! What the user can set, and what a change of it brings about.
use crate::engine;
use crate::engine::EngineKind;
use crate::text;
use vstd::prelude::*;

verus! {

/// How the shortcut works.
#[derive(Debug, Clone, Copy, PartialEq, Eq, Structural)]
pub enum ShortcutMode {
    /// Press once to start, once more to stop.
    Toggle,
    /// Hold while dictating.
    Hold,
}

/// The settings.
#[derive(Debug, Clone)]
pub struct Settings {
    pub model_id: String,
    pub shortcut: String,
    pub mode: ShortcutMode,
    /// Type into the active text field; otherwise copy to the clipboard.
    pub auto_paste: bool,
    /// The paths of the server programs that the user gave, by the identifiers of
    /// the engines; the first path of an identifier counts.
    pub runtime_paths: Vec<(String, String)>,
}

/// What [`Settings`] denote.
#[verifier::ext_equal]
pub struct SettingsView {
    pub model_id: Seq<char>,
    pub shortcut: Seq<char>,
    pub mode: ShortcutMode,
    pub auto_paste: bool,
    pub runtime_paths: Seq<(Seq<char>, Seq<char>)>,
}

/// The texts of pairs of strings.
pub open spec fn pairs(v: Seq<(String, String)>) -> Seq<(Seq<char>, Seq<char>)> {
    v.map_values(|p: (String, String)| (p.0@, p.1@))
}

impl View for Settings {
    type V = SettingsView;

    open spec fn view(&self) -> SettingsView {
        SettingsView {
            model_id: self.model_id@,
            shortcut: self.shortcut@,
            mode: self.mode,
            auto_paste: self.auto_paste,
            runtime_paths: pairs(self.runtime_paths@),
        }
    }
}

/// The path that is given for `key`.
pub open spec fn path_of(paths: Seq<(Seq<char>, Seq<char>)>, key: Seq<char>) -> Option<Seq<char>>
    decreases paths.len(),
{
    if paths.len() == 0 {
        None
    } else if paths[0].0 == key {
        Some(paths[0].1)
    } else {
        path_of(paths.drop_first(), key)
    }
}

fn find_path(paths: &Vec<(String, String)>, key: &str) -> (r: Option<usize>)
    ensures
        match r {
            Some(i) => i < paths.len() && path_of(pairs(paths@), key@) == Some(paths@[i as int].1@),
            None => path_of(pairs(paths@), key@) is None,
        },
{
    let ghost all = pairs(paths@);
    let mut i: usize = 0;
    assert(all.skip(0) == all);
    while i < paths.len()
        invariant
            i <= paths.len(),
            all == pairs(paths@),
            path_of(all, key@) == path_of(all.skip(i as int), key@),
        decreases paths.len() - i,
    {
        assert(all.skip(i as int)[0] == (paths@[i as int].0@, paths@[i as int].1@));
        if text::same(paths[i].0.as_str(), key) {
            return Some(i);
        }
        assert(all.skip(i as int).drop_first() == all.skip(i + 1));
        i = i + 1;
    }
    None
}

/// Whether `a` and `b` give the same path for every key.
pub open spec fn same_paths(
    a: Seq<(Seq<char>, Seq<char>)>,
    b: Seq<(Seq<char>, Seq<char>)>,
) -> bool {
    forall|key: Seq<char>| path_of(a, key) == #[trigger] path_of(b, key)
}

/// A key with a path is one of the keys.
proof fn lemma_key_is_listed(paths: Seq<(Seq<char>, Seq<char>)>, key: Seq<char>)
    requires
        path_of(paths, key) is Some,
    ensures
        exists|i: int| 0 <= i < paths.len() && (#[trigger] paths[i]).0 == key,
    decreases paths.len(),
{
    if paths[0].0 != key {
        lemma_key_is_listed(paths.drop_first(), key);
        let i = choose|i: int|
            0 <= i < paths.drop_first().len() && (#[trigger] paths.drop_first()[i]).0 == key;
        assert(paths[i + 1].0 == key);
    }
}

fn keys_agree(a: &Vec<(String, String)>, b: &Vec<(String, String)>) -> (r: bool)
    ensures
        r == forall|i: int|
            0 <= i < a.len() ==> path_of(pairs(a@), (#[trigger] a@[i]).0@) == path_of(
                pairs(b@),
                a@[i].0@,
            ),
{
    let mut i: usize = 0;
    while i < a.len()
        invariant
            i <= a.len(),
            forall|k: int|
                0 <= k < i ==> path_of(pairs(a@), (#[trigger] a@[k]).0@) == path_of(
                    pairs(b@),
                    a@[k].0@,
                ),
        decreases a.len() - i,
    {
        let key = a[i].0.as_str();
        let agree = match (find_path(a, key), find_path(b, key)) {
            (Some(x), Some(y)) => text::same(a[x].1.as_str(), b[y].1.as_str()),
            (None, None) => true,
            _ => false,
        };
        if !agree {
            assert(path_of(pairs(a@), a@[i as int].0@) != path_of(pairs(b@), a@[i as int].0@));
            return false;
        }
        i = i + 1;
    }
    true
}

/// Whether `a` and `b` give the same path for every key.
pub fn paths_agree(a: &Vec<(String, String)>, b: &Vec<(String, String)>) -> (r: bool)
    ensures
        r == same_paths(pairs(a@), pairs(b@)),
{
    let r = keys_agree(a, b) && keys_agree(b, a);
    proof {
        let (x, y) = (pairs(a@), pairs(b@));
        if r {
            assert forall|key: Seq<char>| path_of(x, key) == #[trigger] path_of(y, key) by {
                if path_of(x, key) is Some {
                    lemma_key_is_listed(x, key);
                    let i = choose|i: int| 0 <= i < x.len() && (#[trigger] x[i]).0 == key;
                    assert(a@[i].0@ == key);
                } else if path_of(y, key) is Some {
                    lemma_key_is_listed(y, key);
                    let i = choose|i: int| 0 <= i < y.len() && (#[trigger] y[i]).0 == key;
                    assert(b@[i].0@ == key);
                }
            }
        } else if same_paths(x, y) {
            assert(forall|i: int|
                0 <= i < a.len() ==> path_of(x, (#[trigger] a@[i]).0@) == path_of(y, a@[i].0@));
            assert(forall|i: int|
                0 <= i < b.len() ==> path_of(y, (#[trigger] b@[i]).0@) == path_of(x, b@[i].0@));
        }
    }
    r
}

/// The settings of a user who has set nothing.
pub open spec fn default_settings() -> SettingsView {
    SettingsView {
        model_id: "qwen3-asr-1.7b"@,
        shortcut: "Ctrl+Alt+Space"@,
        mode: ShortcutMode::Toggle,
        auto_paste: true,
        runtime_paths: Seq::empty(),
    }
}

impl Default for Settings {
    fn default() -> (s: Self)
        ensures
            s@ == default_settings(),
    {
        let s = Settings {
            model_id: "qwen3-asr-1.7b".to_string(),
            shortcut: "Ctrl+Alt+Space".to_string(),
            mode: ShortcutMode::Toggle,
            auto_paste: true,
            runtime_paths: Vec::new(),
        };
        assert(pairs(s.runtime_paths@) == Seq::<(Seq<char>, Seq<char>)>::empty());
        s
    }
}

/// Settings as they are stored, where some may be missing.
#[derive(Debug, Clone)]
pub struct StoredSettings {
    pub model_id: Option<String>,
    pub shortcut: Option<String>,
    pub mode: Option<ShortcutMode>,
    pub auto_paste: Option<bool>,
    pub runtime_paths: Option<Vec<(String, String)>>,
}

/// What [`StoredSettings`] denote.
#[verifier::ext_equal]
pub struct StoredView {
    pub model_id: Option<Seq<char>>,
    pub shortcut: Option<Seq<char>>,
    pub mode: Option<ShortcutMode>,
    pub auto_paste: Option<bool>,
    pub runtime_paths: Option<Seq<(Seq<char>, Seq<char>)>>,
}

impl View for StoredSettings {
    type V = StoredView;

    open spec fn view(&self) -> StoredView {
        StoredView {
            model_id: engine::opt_text(self.model_id),
            shortcut: engine::opt_text(self.shortcut),
            mode: self.mode,
            auto_paste: self.auto_paste,
            runtime_paths: match self.runtime_paths {
                Some(v) => Some(pairs(v@)),
                None => None,
            },
        }
    }
}

/// `o`, or `d` where that is missing.
pub open spec fn or_default<A>(o: Option<A>, d: A) -> A {
    match o {
        Some(a) => a,
        None => d,
    }
}

/// The settings that were stored: the default where none could be read, and the
/// default of each setting that is missing.
pub open spec fn loaded(stored: Option<StoredView>) -> SettingsView {
    let d = default_settings();
    match stored {
        Some(t) => SettingsView {
            model_id: or_default(t.model_id, d.model_id),
            shortcut: or_default(t.shortcut, d.shortcut),
            mode: or_default(t.mode, d.mode),
            auto_paste: or_default(t.auto_paste, d.auto_paste),
            runtime_paths: or_default(t.runtime_paths, d.runtime_paths),
        },
        None => d,
    }
}

/// The settings as they are stored.
pub open spec fn saved(s: SettingsView) -> StoredView {
    StoredView {
        model_id: Some(s.model_id),
        shortcut: Some(s.shortcut),
        mode: Some(s.mode),
        auto_paste: Some(s.auto_paste),
        runtime_paths: Some(s.runtime_paths),
    }
}

/// Settings that were stored are read back as they were.
pub proof fn stored_settings_are_read_back(s: SettingsView)
    ensures
        loaded(Some(saved(s))) == s,
{
}

fn copy_paths(paths: &Vec<(String, String)>) -> (r: Vec<(String, String)>)
    ensures
        pairs(r@) == pairs(paths@),
{
    let mut r: Vec<(String, String)> = Vec::new();
    let ghost all = pairs(paths@);
    let mut i: usize = 0;
    assert(pairs(r@) == all.take(0));
    while i < paths.len()
        invariant
            i <= paths.len(),
            all == pairs(paths@),
            pairs(r@) == all.take(i as int),
        decreases paths.len() - i,
    {
        let ghost before = r@;
        r.push((paths[i].0.as_str().to_string(), paths[i].1.as_str().to_string()));
        i = i + 1;
        proof {
            let p = (paths@[i - 1].0@, paths@[i - 1].1@);
            assert(pairs(r@) == pairs(before).push(p));
            assert(all.take(i as int) == all.take(i - 1).push(p));
        }
    }
    assert(all.take(all.len() as int) == all);
    r
}

/// The path that `s` gives for the server program of `kind`, unless it is blank.
pub open spec fn override_for(s: SettingsView, kind: EngineKind) -> Option<Seq<char>> {
    match path_of(s.runtime_paths, kind.id_text()) {
        Some(p) if !text::is_blank(p) => Some(p),
        _ => None,
    }
}

impl Settings {
    /// The settings that were stored: the default where none could be read, and the
    /// default of each setting that is missing.
    pub fn load(stored: Option<StoredSettings>) -> (s: Self)
        ensures
            s@ == loaded(
                match stored {
                    Some(t) => Some(t@),
                    None => None,
                },
            ),
    {
        let mut s = Settings::default();
        if let Some(t) = stored {
            if let Some(x) = t.model_id {
                s.model_id = x;
            }
            if let Some(x) = t.shortcut {
                s.shortcut = x;
            }
            if let Some(x) = t.mode {
                s.mode = x;
            }
            if let Some(x) = t.auto_paste {
                s.auto_paste = x;
            }
            if let Some(x) = t.runtime_paths {
                s.runtime_paths = x;
            }
        }
        s
    }

    /// The settings as they are stored: each of them is there.
    pub fn save(&self) -> (t: StoredSettings)
        ensures
            t@ == saved(self@),
    {
        StoredSettings {
            model_id: Some(self.model_id.as_str().to_string()),
            shortcut: Some(self.shortcut.as_str().to_string()),
            mode: Some(self.mode),
            auto_paste: Some(self.auto_paste),
            runtime_paths: Some(copy_paths(&self.runtime_paths)),
        }
    }

    /// The path that the user gave for the server program of `kind`, unless it is
    /// blank.
    pub fn runtime_override(&self, kind: EngineKind) -> (r: Option<&str>)
        ensures
            match r {
                Some(p) => override_for(self@, kind) == Some(p@),
                None => override_for(self@, kind) is None,
            },
    {
        match find_path(&self.runtime_paths, kind.id()) {
            Some(i) => {
                let p = self.runtime_paths[i].1.as_str();
                if text::blank(p) {
                    None
                } else {
                    Some(p)
                }
            },
            None => None,
        }
    }
}

// ---------------------------------------------------------------------------
// Changing the settings
// ---------------------------------------------------------------------------

/// The message on a shortcut that cannot be read.
pub fn invalid_shortcut(shortcut: &str, error: &str) -> (r: String)
    ensures
        r@ == "Raccourci invalide « "@ + shortcut@ + " » : "@ + error@,
{
    let mut r = text::concat3("Raccourci invalide « ", shortcut, " » : ");
    r.append(error);
    r
}

/// The message on a shortcut that the system refuses.
pub fn refused_shortcut(shortcut: &str, error: &str) -> (r: String)
    ensures
        r@ == "Impossible d'enregistrer « "@ + shortcut@ + " » : "@ + error@,
{
    let mut r = text::concat3("Impossible d'enregistrer « ", shortcut, " » : ");
    r.append(error);
    r
}

/// What is to be done next for a change of the settings.
#[derive(Debug, Clone, Copy, PartialEq, Eq, Structural)]
pub enum SaveStage {
    /// Register the new shortcut in place of the old one.
    ApplyShortcut,
    /// Store the new settings.
    Store,
    /// Nothing: the new settings hold, and the engine is started anew where
    /// `restart` is set.
    Saved { restart: bool },
    /// Nothing: the old settings stay.
    Refused,
}

/// What follows from an outcome: whether an error of the shortcut is taken off the
/// display, whether the old shortcut is registered again, and the error that the
/// change ends with.
#[derive(Debug, Clone)]
#[verifier::ext_equal]
pub struct SaveStep<T = String> {
    pub clear_error: bool,
    pub reapply_old: bool,
    pub failure: Option<T>,
}

impl View for SaveStep {
    type V = SaveStep<Seq<char>>;

    open spec fn view(&self) -> SaveStep<Seq<char>> {
        SaveStep {
            clear_error: self.clear_error,
            reapply_old: self.reapply_old,
            failure: engine::opt_text(self.failure),
        }
    }
}

/// Whether the engine is started anew: another model, or other paths.
pub open spec fn needs_restart(old_set: SettingsView, new_set: SettingsView) -> bool {
    old_set.model_id != new_set.model_id || !same_paths(
        old_set.runtime_paths,
        new_set.runtime_paths,
    )
}

/// What a change of the settings begins with.
pub open spec fn first_stage(old_set: SettingsView, new_set: SettingsView) -> SaveStage {
    if old_set.shortcut != new_set.shortcut {
        SaveStage::ApplyShortcut
    } else {
        SaveStage::Store
    }
}

/// What follows when the step of `stage` has succeeded, or has failed with
/// `error`.
pub open spec fn save_outcome(
    old_set: SettingsView,
    new_set: SettingsView,
    stage: SaveStage,
    error: Option<Seq<char>>,
) -> (SaveStage, SaveStep<Seq<char>>) {
    match (stage, error) {
        (SaveStage::ApplyShortcut, None) => (
            SaveStage::Store,
            SaveStep { clear_error: true, reapply_old: false, failure: None },
        ),
        (SaveStage::ApplyShortcut, Some(e)) => (
            SaveStage::Refused,
            SaveStep { clear_error: false, reapply_old: true, failure: Some(e) },
        ),
        (SaveStage::Store, None) => (
            SaveStage::Saved { restart: needs_restart(old_set, new_set) },
            SaveStep { clear_error: false, reapply_old: false, failure: None },
        ),
        (SaveStage::Store, Some(e)) => (
            SaveStage::Refused,
            SaveStep { clear_error: false, reapply_old: false, failure: Some(e) },
        ),
        _ => (stage, SaveStep { clear_error: false, reapply_old: false, failure: None }),
    }
}

/// What a change of the settings begins with.
pub fn begin_save(old_set: &Settings, new_set: &Settings) -> (r: SaveStage)
    ensures
        r == first_stage(old_set@, new_set@),
{
    if text::same(old_set.shortcut.as_str(), new_set.shortcut.as_str()) {
        SaveStage::Store
    } else {
        SaveStage::ApplyShortcut
    }
}

/// What follows when the step of `stage` has succeeded, or has failed with
/// `error`.
pub fn go_on_saving(
    old_set: &Settings,
    new_set: &Settings,
    stage: SaveStage,
    error: Option<String>,
) -> (r: (SaveStage, SaveStep))
    ensures
        (r.0, r.1@) == save_outcome(old_set@, new_set@, stage, engine::opt_text(error)),
{
    match (stage, error) {
        (SaveStage::ApplyShortcut, None) => (
            SaveStage::Store,
            SaveStep { clear_error: true, reapply_old: false, failure: None },
        ),
        (SaveStage::ApplyShortcut, Some(e)) => (
            SaveStage::Refused,
            SaveStep { clear_error: false, reapply_old: true, failure: Some(e) },
        ),
        (SaveStage::Store, None) => {
            let restart = !text::same(old_set.model_id.as_str(), new_set.model_id.as_str())
                || !paths_agree(&old_set.runtime_paths, &new_set.runtime_paths);
            (
                SaveStage::Saved { restart },
                SaveStep { clear_error: false, reapply_old: false, failure: None },
            )
        },
        (SaveStage::Store, Some(e)) => (
            SaveStage::Refused,
            SaveStep { clear_error: false, reapply_old: false, failure: Some(e) },
        ),
        (s, _) => (s, SaveStep { clear_error: false, reapply_old: false, failure: None }),
    }
}

/// A refused change leaves an error, and a refused shortcut brings the old one
/// back.
pub proof fn refusals_are_reported(
    old_set: SettingsView,
    new_set: SettingsView,
    stage: SaveStage,
    error: Option<Seq<char>>,
)
    requires
        stage == SaveStage::ApplyShortcut || stage == SaveStage::Store,
    ensures
        ({
            let (after, step) = save_outcome(old_set, new_set, stage, error);
            &&& after == SaveStage::Refused <==> step.failure is Some
            &&& step.failure == error
            &&& step.reapply_old <==> stage == SaveStage::ApplyShortcut && error is Some
        }),
{
}

/// Settings that name the same model and the same paths do not restart the engine,
/// whatever else they change.
pub proof fn unchanged_models_keep_running(old_set: SettingsView, new_set: SettingsView)
    requires
        old_set.model_id == new_set.model_id,
        old_set.runtime_paths == new_set.runtime_paths,
    ensures
        !needs_restart(old_set, new_set),
{
}

/// A user who has set nothing overrides no path.
pub proof fn defaults_override_nothing(kind: EngineKind)
    ensures
        override_for(default_settings(), kind) is None,
{
}

/// The model of the default settings is one of the models that come with the
/// application, and it is the one that is recommended.
pub proof fn the_default_model_is_recommended()
    ensures
        exists|i: int|
            0 <= i < crate::catalog::builtin_views().len()
                && (#[trigger] crate::catalog::builtin_views()[i]).id
                == default_settings().model_id && crate::catalog::builtin_views()[i].recommended,
{
    let all = crate::catalog::builtin_views();
    assert(all[0].id == default_settings().model_id);
}

/// A path is the one that stands first under its key; there is none where no entry has
/// the key.
pub proof fn paths_are_found_by_their_key(
    before: Seq<(Seq<char>, Seq<char>)>,
    key: Seq<char>,
    value: Seq<char>,
    behind: Seq<(Seq<char>, Seq<char>)>,
)
    requires
        forall|i: int| 0 <= i < before.len() ==> (#[trigger] before[i]).0 != key,
    ensures
        path_of(before + seq![(key, value)] + behind, key) == Some(value),
        path_of(before, key) is None,
    decreases before.len(),
{
    let all = before + seq![(key, value)] + behind;
    if before.len() > 0 {
        let rest = before.drop_first();
        assert forall|i: int| 0 <= i < rest.len() implies (#[trigger] rest[i]).0 != key by {
            assert(before[i + 1] == rest[i]);
        }
        paths_are_found_by_their_key(rest, key, value, behind);
        assert(all.drop_first() == rest + seq![(key, value)] + behind);
        assert(all[0] == before[0]);
    } else {
        assert(all[0] == (key, value));
    }
}

/// What is stored is taken as it is, and what is not stored is as for a new user: the
/// recommended model, `Ctrl+Alt+Space`, which toggles, typing as it comes, and no paths.
pub proof fn stored_fields_are_taken(t: StoredView)
    ensures
        ({
            let s = loaded(Some(t));
            &&& t.model_id matches Some(x) ==> s.model_id == x
            &&& t.shortcut matches Some(x) ==> s.shortcut == x
            &&& t.mode matches Some(x) ==> s.mode == x
            &&& t.auto_paste matches Some(x) ==> s.auto_paste == x
            &&& t.runtime_paths matches Some(x) ==> s.runtime_paths == x
            &&& t.model_id is None ==> s.model_id == "qwen3-asr-1.7b"@
            &&& t.shortcut is None ==> s.shortcut == "Ctrl+Alt+Space"@
            &&& t.mode is None ==> s.mode == ShortcutMode::Toggle
            &&& t.auto_paste is None ==> s.auto_paste
            &&& t.runtime_paths is None ==> s.runtime_paths.len() == 0
        }),
        loaded(None) == loaded(
            Some(
                StoredView {
                    model_id: None,
                    shortcut: None,
                    mode: None,
                    auto_paste: None,
                    runtime_paths: None,
                },
            ),
        ),
{
}

/// A path that the user gave for an engine counts where it is not blank, as it is.
pub proof fn given_paths_count(s: SettingsView, kind: EngineKind, p: Seq<char>)
    ensures
        override_for(s, kind) == Some(p) <==> path_of(s.runtime_paths, kind.id_text()) == Some(p)
            && !text::is_blank(p),
{
}

/// The engine restarts where another model is chosen or the path of any key changes, and
/// only there.
pub proof fn other_models_and_paths_restart(
    old_set: SettingsView,
    new_set: SettingsView,
    key: Seq<char>,
)
    ensures
        old_set.model_id != new_set.model_id ==> needs_restart(old_set, new_set),
        path_of(old_set.runtime_paths, key) != path_of(new_set.runtime_paths, key) ==> needs_restart(
            old_set,
            new_set,
        ),
        needs_restart(old_set, new_set) ==> old_set.model_id != new_set.model_id || exists|k: Seq<
            char,
        >| #[trigger] path_of(old_set.runtime_paths, k) != path_of(new_set.runtime_paths, k),
{
}

/// A change is saved step by step: a new shortcut is applied first, and an old one is
/// left alone; then the settings are stored; then they are saved, with a restart where
/// one is needed.
pub proof fn changes_are_saved_step_by_step(old_set: SettingsView, new_set: SettingsView)
    ensures
        first_stage(old_set, new_set) == SaveStage::ApplyShortcut <==> old_set.shortcut
            != new_set.shortcut,
        first_stage(old_set, new_set) == SaveStage::Store <==> old_set.shortcut == new_set.shortcut,
        save_outcome(old_set, new_set, SaveStage::ApplyShortcut, None).0 == SaveStage::Store,
        save_outcome(old_set, new_set, SaveStage::ApplyShortcut, None).1.clear_error,
        save_outcome(old_set, new_set, SaveStage::Store, None).0 == (SaveStage::Saved {
            restart: needs_restart(old_set, new_set),
        }),
        !save_outcome(old_set, new_set, SaveStage::Store, None).1.clear_error,
{
}

}
