use vstd::prelude::*;

use crate::config::{
    ObsInstanceConfig, TargetGroup as PoolGroup, TargetSelector as PoolSelector,
};
use vstd::std_specs::convert::FromSpecImpl;

verus! {

/// An OBS instance as the property inspector stores it.
#[derive(Clone, Debug)]
pub struct InstanceConfig {
    pub id: String,
    pub name: String,
    pub host: String,
    pub port: u16,
    pub password: String,
    pub color: String,
    pub enabled: bool,
}

/// A group of instances as the property inspector stores it.
#[derive(Clone, Debug)]
pub struct TargetGroup {
    pub id: String,
    pub name: String,
    pub members: Vec<String>,
}

/// Which instances a key sends to, as the property inspector stores it.
#[derive(Clone, Debug)]
pub enum TargetSelector {
    All,
    Group { id: String },
    Instances { ids: Vec<String> },
}

/// Plugin-wide settings.
#[derive(Clone, Debug)]
pub struct GlobalSettings {
    pub instances: Vec<InstanceConfig>,
    pub groups: Vec<TargetGroup>,
    pub long_press_ms: u32,
    pub fg_color: String,
}

/// Which OBS canvas a scene key follows.
///
/// `Program` keeps existing keys: a short press sets the program scene, and the
/// strip lights when that scene is on program. `Preview` does the same for the
/// studio-mode preview. `Both` lights fully for program and amber for preview only.
#[derive(Clone, Copy, Debug, PartialEq, Eq, Structural)]
pub enum SceneOutput {
    Program,
    Preview,
    Both,
}

/// Settings shared by every action kind.
#[derive(Clone, Debug)]
pub struct CommonSettings {
    pub target: TargetSelector,
    pub shared_params: bool,
    pub scene_output: SceneOutput,
}

/// Long-press behaviour of a key.
#[derive(Clone, Debug)]
pub struct AdvancedSettings {
    pub long_press: bool,
    pub long_press_ms: u32,
}

/// Fields used by every action. The inspector shows only the ones that apply.
///
/// `step_db_bits` is the bit pattern of the dial step in decibels, an `f32`
/// that only the volume dial reads.
#[derive(Clone, Debug)]
pub struct ActionParams {
    pub scene_name: String,
    pub source_name: String,
    pub input_name: String,
    pub filter_name: String,
    pub collection_name: String,
    pub profile_name: String,
    pub format: String,
    pub file_path: String,
    pub hotkey_name: String,
    pub key_id: String,
    pub shift: bool,
    pub control: bool,
    pub alt: bool,
    pub command: bool,
    pub chapter_name: String,
    pub media_action: String,
    pub stat: String,
    pub step_db_bits: u32,
    pub request_type: String,
    pub request_data: String,
    pub batch_requests: String,
    pub halt_on_failure: bool,
}

/// Everything a key stores: shared parameters, and per-instance parameters
/// keyed by instance id (each id at most once, see `wf`).
#[derive(Clone, Debug)]
pub struct ActionSettings {
    pub common: CommonSettings,
    pub advanced: AdvancedSettings,
    pub shared: ActionParams,
    pub params: Vec<(String, ActionParams)>,
}

pub struct ActionParamsView {
    pub scene_name: Seq<char>,
    pub source_name: Seq<char>,
    pub input_name: Seq<char>,
    pub filter_name: Seq<char>,
    pub collection_name: Seq<char>,
    pub profile_name: Seq<char>,
    pub format: Seq<char>,
    pub file_path: Seq<char>,
    pub hotkey_name: Seq<char>,
    pub key_id: Seq<char>,
    pub shift: bool,
    pub control: bool,
    pub alt: bool,
    pub command: bool,
    pub chapter_name: Seq<char>,
    pub media_action: Seq<char>,
    pub stat: Seq<char>,
    pub step_db_bits: u32,
    pub request_type: Seq<char>,
    pub request_data: Seq<char>,
    pub batch_requests: Seq<char>,
    pub halt_on_failure: bool,
}

impl View for ActionParams {
    type V = ActionParamsView;

    open spec fn view(&self) -> ActionParamsView {
        ActionParamsView {
            scene_name: self.scene_name@,
            source_name: self.source_name@,
            input_name: self.input_name@,
            filter_name: self.filter_name@,
            collection_name: self.collection_name@,
            profile_name: self.profile_name@,
            format: self.format@,
            file_path: self.file_path@,
            hotkey_name: self.hotkey_name@,
            key_id: self.key_id@,
            shift: self.shift,
            control: self.control,
            alt: self.alt,
            command: self.command,
            chapter_name: self.chapter_name@,
            media_action: self.media_action@,
            stat: self.stat@,
            step_db_bits: self.step_db_bits,
            request_type: self.request_type@,
            request_data: self.request_data@,
            batch_requests: self.batch_requests@,
            halt_on_failure: self.halt_on_failure,
        }
    }
}

/// The bit pattern of `1.0f32`, the default dial step in decibels.
pub const ONE_DB_BITS: u32 = 0x3f80_0000u32;

pub open spec fn default_params() -> ActionParamsView {
    ActionParamsView {
        scene_name: Seq::empty(),
        source_name: Seq::empty(),
        input_name: Seq::empty(),
        filter_name: Seq::empty(),
        collection_name: Seq::empty(),
        profile_name: Seq::empty(),
        format: "png"@,
        file_path: Seq::empty(),
        hotkey_name: Seq::empty(),
        key_id: Seq::empty(),
        shift: false,
        control: false,
        alt: false,
        command: false,
        chapter_name: Seq::empty(),
        media_action: "toggle"@,
        stat: "fps"@,
        step_db_bits: ONE_DB_BITS,
        request_type: Seq::empty(),
        request_data: "{}"@,
        batch_requests: "[]"@,
        halt_on_failure: false,
    }
}

pub fn default_host() -> (s: String)
    ensures
        s@ == "127.0.0.1"@,
{
    String::from_str("127.0.0.1")
}

pub fn default_port() -> (p: u16)
    ensures
        p == 4455,
{
    4455
}

pub fn default_color() -> (s: String)
    ensures
        s@ == "#4c8dff"@,
{
    String::from_str("#4c8dff")
}

pub fn default_true() -> (b: bool)
    ensures
        b,
{
    true
}

pub fn default_long_press() -> (ms: u32)
    ensures
        ms == 500,
{
    500
}

pub fn default_fg() -> (s: String)
    ensures
        s@ == "#f4f7fb"@,
{
    String::from_str("#f4f7fb")
}

pub fn default_png() -> (s: String)
    ensures
        s@ == "png"@,
{
    String::from_str("png")
}

pub fn default_media() -> (s: String)
    ensures
        s@ == "toggle"@,
{
    String::from_str("toggle")
}

pub fn default_stat() -> (s: String)
    ensures
        s@ == "fps"@,
{
    String::from_str("fps")
}

pub fn default_step() -> (bits: u32)
    ensures
        bits == ONE_DB_BITS,
{
    ONE_DB_BITS
}

pub fn default_object() -> (s: String)
    ensures
        s@ == "{}"@,
{
    String::from_str("{}")
}

pub fn default_array() -> (s: String)
    ensures
        s@ == "[]"@,
{
    String::from_str("[]")
}

impl Default for GlobalSettings {
    fn default() -> (s: Self)
        ensures
            s.instances@.len() == 0,
            s.groups@.len() == 0,
            s.long_press_ms == 500,
            s.fg_color@ == "#f4f7fb"@,
    {
        GlobalSettings {
            instances: Vec::new(),
            groups: Vec::new(),
            long_press_ms: default_long_press(),
            fg_color: default_fg(),
        }
    }
}

impl Default for SceneOutput {
    fn default() -> (s: Self)
        ensures
            s == SceneOutput::Program,
    {
        SceneOutput::Program
    }
}

impl Default for TargetSelector {
    fn default() -> (s: Self)
        ensures
            s is All,
    {
        TargetSelector::All
    }
}

impl Default for CommonSettings {
    fn default() -> (s: Self)
        ensures
            s.target is All,
            s.shared_params,
            s.scene_output == SceneOutput::Program,
    {
        CommonSettings {
            target: TargetSelector::All,
            shared_params: true,
            scene_output: SceneOutput::Program,
        }
    }
}

impl Default for AdvancedSettings {
    fn default() -> (s: Self)
        ensures
            !s.long_press,
            s.long_press_ms == 0,
    {
        AdvancedSettings { long_press: false, long_press_ms: 0 }
    }
}

impl Default for ActionParams {
    fn default() -> (p: Self)
        ensures
            p@ == default_params(),
    {
        ActionParams {
            scene_name: String::new(),
            source_name: String::new(),
            input_name: String::new(),
            filter_name: String::new(),
            collection_name: String::new(),
            profile_name: String::new(),
            format: default_png(),
            file_path: String::new(),
            hotkey_name: String::new(),
            key_id: String::new(),
            shift: false,
            control: false,
            alt: false,
            command: false,
            chapter_name: String::new(),
            media_action: default_media(),
            stat: default_stat(),
            step_db_bits: default_step(),
            request_type: String::new(),
            request_data: default_object(),
            batch_requests: default_array(),
            halt_on_failure: false,
        }
    }
}

impl Default for ActionSettings {
    fn default() -> (s: Self)
        ensures
            s.common.target is All,
            s.common.shared_params,
            s.common.scene_output == SceneOutput::Program,
            !s.advanced.long_press,
            s.advanced.long_press_ms == 0,
            s.shared@ == default_params(),
            s.params@.len() == 0,
            s.wf(),
    {
        ActionSettings {
            common: CommonSettings::default(),
            advanced: AdvancedSettings::default(),
            shared: ActionParams::default(),
            params: Vec::new(),
        }
    }
}

/// The parameters an instance uses: the shared ones, unless the key keeps
/// per-instance parameters and has an entry for that instance.
pub open spec fn spec_params_for(settings: &ActionSettings, instance_id: Seq<char>) -> ActionParams {
    if settings.common.shared_params {
        settings.shared
    } else {
        match first_entry(settings.params@, instance_id) {
            Some(k) => settings.params@[k].1,
            None => settings.shared,
        }
    }
}

/// Index of the first entry keyed by `id`.
pub open spec fn first_entry(entries: Seq<(String, ActionParams)>, id: Seq<char>) -> Option<int> {
    if exists|k: int| 0 <= k < entries.len() && entries[k].0@ == id {
        Some(
            choose|k: int|
                0 <= k < entries.len() && entries[k].0@ == id && forall|j: int|
                    0 <= j < k ==> entries[j].0@ != id,
        )
    } else {
        None
    }
}

/// The entry of an instance's own parameters, if it has one.
pub open spec fn own_entry(entries: Seq<(String, ActionParams)>, id: Seq<char>) -> Option<ActionParams> {
    match first_entry(entries, id) {
        Some(k) => Some(entries[k].1),
        None => None,
    }
}

proof fn lemma_first_entry_at(entries: Seq<(String, ActionParams)>, id: Seq<char>, j: int)
    requires
        forall|a: int, b: int| 0 <= a < entries.len() && 0 <= b < entries.len() && a != b ==> #[trigger] entries[a].0@ != #[trigger] entries[b].0@,
        0 <= j < entries.len(),
        entries[j].0@ == id,
    ensures
        first_entry(entries, id) == Some(j),
{
    assert(forall|i: int| 0 <= i < j ==> entries[i].0@ != id);
    let k = choose|k: int|
        0 <= k < entries.len() && entries[k].0@ == id && forall|i: int| 0 <= i < k ==> entries[i].0@ != id;
    if k != j {
        assert(entries[k].0@ != entries[j].0@);
    }
}

impl ActionSettings {
    /// Each instance id has at most one entry of its own parameters.
    pub open spec fn wf(&self) -> bool {
        forall|a: int, b: int|
            0 <= a < self.params@.len() && 0 <= b < self.params@.len() && a != b ==> #[trigger] self.params@[a].0@
                != #[trigger] self.params@[b].0@
    }

    /// Keep `params` as the own parameters of instance `id`, replacing the
    /// ones it had; every other instance keeps its entry.
    pub fn set_params(&mut self, id: String, params: ActionParams)
        requires
            old(self).wf(),
        ensures
            final(self).wf(),
            final(self).common == old(self).common,
            final(self).advanced == old(self).advanced,
            final(self).shared == old(self).shared,
            own_entry(final(self).params@, id@) == Some(params),
            forall|k: Seq<char>| k != id@ ==> #[trigger] own_entry(final(self).params@, k) == own_entry(old(self).params@, k),
    {
        let ghost before = self.params@;
        let mut i: usize = 0;
        while i < self.params.len()
            invariant
                i <= self.params.len(),
                self.params@ == before,
                before == old(self).params@,
                old(self).wf(),
                self.common == old(self).common,
                self.advanced == old(self).advanced,
                self.shared == old(self).shared,
                forall|j: int| 0 <= j < i ==> before[j].0@ != id@,
            decreases self.params.len() - i,
        {
            if crate::config::same_text(&self.params[i].0, &id) {
                let ghost key = id@;
                self.params.set(i, (id, params));
                proof {
                    let after = self.params@;
                    assert(after == before.update(i as int, after[i as int]));
                    assert forall|a: int, b: int| 0 <= a < after.len() && 0 <= b < after.len() && a != b implies #[trigger] after[a].0@ != #[trigger] after[b].0@ by {
                        assert(after[a].0@ == before[a].0@);
                        assert(after[b].0@ == before[b].0@);
                    }
                    lemma_first_entry_at(after, key, i as int);
                    assert forall|k: Seq<char>| k != key implies #[trigger] own_entry(after, k) == own_entry(before, k) by {
                        if exists|j: int| 0 <= j < before.len() && before[j].0@ == k {
                            let j = choose|j: int| 0 <= j < before.len() && before[j].0@ == k;
                            lemma_first_entry_at(before, k, j);
                            assert(after[j].0@ == k);
                            lemma_first_entry_at(after, k, j);
                        } else {
                            assert forall|j: int| 0 <= j < after.len() implies after[j].0@ != k by {
                                assert(after[j].0@ == before[j].0@);
                            }
                        }
                    }
                }
                return;
            }
            i = i + 1;
        }
        let ghost key = id@;
        self.params.push((id, params));
        proof {
            let after = self.params@;
            assert(after == before.push(after[before.len() as int]));
            assert forall|a: int, b: int| 0 <= a < after.len() && 0 <= b < after.len() && a != b implies #[trigger] after[a].0@ != #[trigger] after[b].0@ by {
                if a < before.len() && b < before.len() {
                    assert(after[a] == before[a]);
                    assert(after[b] == before[b]);
                } else if a < before.len() {
                    assert(after[a] == before[a]);
                } else if b < before.len() {
                    assert(after[b] == before[b]);
                }
            }
            lemma_first_entry_at(after, key, before.len() as int);
            assert forall|k: Seq<char>| k != key implies #[trigger] own_entry(after, k) == own_entry(before, k) by {
                if exists|j: int| 0 <= j < before.len() && before[j].0@ == k {
                    let j = choose|j: int| 0 <= j < before.len() && before[j].0@ == k;
                    lemma_first_entry_at(before, k, j);
                    assert(after[j] == before[j]);
                    lemma_first_entry_at(after, k, j);
                } else {
                    assert forall|j: int| 0 <= j < after.len() implies after[j].0@ != k by {
                        if j < before.len() {
                            assert(after[j] == before[j]);
                        }
                    }
                }
            }
        }
    }
}

impl ActionSettings {
    /// The parameters to use for one instance.
    pub fn params_for(&self, instance_id: &String) -> (params: &ActionParams)
        ensures
            *params == spec_params_for(self, instance_id@),
    {
        if self.common.shared_params {
            return &self.shared;
        }
        let mut i: usize = 0;
        while i < self.params.len()
            invariant
                i <= self.params.len(),
                !self.common.shared_params,
                forall|j: int| 0 <= j < i ==> self.params@[j].0@ != instance_id@,
            decreases self.params.len() - i,
        {
            if crate::config::same_text(&self.params[i].0, instance_id) {
                proof {
                    let e = self.params@;
                    let id = instance_id@;
                    assert(0 <= i < e.len() && e[i as int].0@ == id);
                    let k = choose|k: int|
                        0 <= k < e.len() && e[k].0@ == id && forall|j: int|
                            0 <= j < k ==> e[j].0@ != id;
                    assert(k == i as int);
                    assert(first_entry(e, id) == Some(i as int));
                    assert(spec_params_for(self, id) == e[i as int].1);
                }
                return &self.params[i].1;
            }
            i = i + 1;
        }
        &self.shared
    }
}

impl From<InstanceConfig> for ObsInstanceConfig {
    fn from(value: InstanceConfig) -> (config: Self) {
        ObsInstanceConfig {
            id: value.id,
            name: value.name,
            host: value.host,
            port: value.port,
            password: value.password,
            color: value.color,
            enabled: value.enabled,
        }
    }
}

impl From<TargetGroup> for PoolGroup {
    fn from(value: TargetGroup) -> (group: Self) {
        PoolGroup { id: value.id, name: value.name, members: value.members }
    }
}

impl View for TargetSelector {
    type V = crate::config::TargetSelectorView;

    open spec fn view(&self) -> crate::config::TargetSelectorView {
        match self {
            TargetSelector::All => crate::config::TargetSelectorView::All,
            TargetSelector::Group { id } => crate::config::TargetSelectorView::Group { id: id@ },
            TargetSelector::Instances { ids } => crate::config::TargetSelectorView::Instances {
                ids: ids.deep_view(),
            },
        }
    }
}

impl TargetSelector {
    /// The same selection in the pool's terms.
    pub fn to_pool(&self) -> (selector: PoolSelector)
        ensures
            selector@ == self@,
    {
        match self {
            TargetSelector::All => PoolSelector::All,
            TargetSelector::Group { id } => PoolSelector::Group { id: id.clone() },
            TargetSelector::Instances { ids } => {
                let copy = crate::config::copy_texts(ids);
                assert(copy.deep_view() =~= ids.deep_view());
                PoolSelector::Instances { ids: copy }
            },
        }
    }
}

impl FromSpecImpl<InstanceConfig> for ObsInstanceConfig {
    open spec fn obeys_from_spec() -> bool {
        true
    }

    open spec fn from_spec(value: InstanceConfig) -> ObsInstanceConfig {
        ObsInstanceConfig {
            id: value.id,
            name: value.name,
            host: value.host,
            port: value.port,
            password: value.password,
            color: value.color,
            enabled: value.enabled,
        }
    }
}

impl FromSpecImpl<TargetGroup> for PoolGroup {
    open spec fn obeys_from_spec() -> bool {
        true
    }

    open spec fn from_spec(value: TargetGroup) -> PoolGroup {
        PoolGroup { id: value.id, name: value.name, members: value.members }
    }
}

} // verus!
