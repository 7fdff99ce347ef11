use vstd::prelude::*;

use crate::config::{resolve_targets, resolved, configs_view, groups_view, ObsInstanceConfig, TargetGroup as PoolGroup};
use crate::contracts::{spec_params_for, ActionParams, ActionParamsView, ActionSettings, AdvancedSettings, GlobalSettings};
use crate::ops::{event_affects, spec_event_affects, ObsEvent};
use crate::kind::{spec_has_toggle_state, is_one_shot, ActionKind};
use crate::render::{Segment, SegmentState};
use crate::pool::{config_at, lemma_config_at};
use crate::table::{lemma_pick_next_distinct, lemma_push_contains, lemma_take_next_contains, Table};
use crate::text::{is_blank, is_blank_text};
use crate::json::text_option_view;

verus! {

/// The text a key shows under its icon for its kind: the scene, source, input,
/// filter, collection, profile or chapter it names, unless that is blank.
pub open spec fn spec_title_for(kind: ActionKind, params: ActionParamsView) -> Option<Seq<char>> {
    let text = match kind {
        ActionKind::Scene => params.scene_name,
        ActionKind::Source => params.source_name,
        ActionKind::Mute | ActionKind::Volume | ActionKind::Media => params.input_name,
        ActionKind::Filter => params.filter_name,
        ActionKind::Collection => params.collection_name,
        ActionKind::Profile => params.profile_name,
        ActionKind::Chapter => params.chapter_name,
        _ => Seq::empty(),
    };
    if is_blank_text(text) {
        None
    } else {
        Some(text)
    }
}

/// The title a key shows for one instance's parameters.
pub fn title_for(kind: ActionKind, params: &ActionParams) -> (title: Option<String>)
    ensures
        text_option_view(title) == spec_title_for(kind, params@),
{
    let text = match kind {
        ActionKind::Scene => params.scene_name.clone(),
        ActionKind::Source => params.source_name.clone(),
        ActionKind::Mute | ActionKind::Volume | ActionKind::Media => params.input_name.clone(),
        ActionKind::Filter => params.filter_name.clone(),
        ActionKind::Collection => params.collection_name.clone(),
        ActionKind::Profile => params.profile_name.clone(),
        ActionKind::Chapter => params.chapter_name.clone(),
        _ => String::new(),
    };
    if is_blank(text.as_str()) {
        None
    } else {
        Some(text)
    }
}

/// The non-empty lines, each kept at its first occurrence.
pub open spec fn unique_lines(lines: Seq<Seq<char>>) -> Seq<Seq<char>>
    decreases lines.len(),
{
    if lines.len() == 0 {
        Seq::empty()
    } else {
        let before = unique_lines(lines.drop_last());
        let line = lines.last();
        if line.len() == 0 || before.contains(line) {
            before
        } else {
            before.push(line)
        }
    }
}

/// A title shows each non-empty line once: the kept lines are distinct and
/// non-empty, and they are exactly the non-empty lines given.
pub proof fn title_lines_are_distinct(lines: Seq<Seq<char>>)
    ensures
        unique_lines(lines).no_duplicates(),
        forall|i: int| 0 <= i < unique_lines(lines).len() ==> #[trigger] unique_lines(lines)[i].len() > 0,
        forall|l: Seq<char>| #[trigger] unique_lines(lines).contains(l) <==> (lines.contains(l) && l.len() > 0),
    decreases lines.len(),
{
    if lines.len() > 0 {
        let rest = lines.drop_last();
        title_lines_are_distinct(rest);
        let before = unique_lines(rest);
        let line = lines.last();
        assert forall|l: Seq<char>| lines.contains(l) <==> (rest.contains(l) || l == line) by {
            if lines.contains(l) && l != line {
                let j = choose|j: int| 0 <= j < lines.len() && lines[j] == l;
                assert(rest[j] == l);
            }
            if rest.contains(l) {
                let j = choose|j: int| 0 <= j < rest.len() && rest[j] == l;
                assert(lines[j] == l);
            }
            if l == line {
                assert(lines[lines.len() - 1] == l);
            }
        }
        if !(line.len() == 0 || before.contains(line)) {
            let after = before.push(line);
            assert forall|l: Seq<char>| after.contains(l) <==> (before.contains(l) || l == line) by {
                if after.contains(l) && l != line {
                    let j = choose|j: int| 0 <= j < after.len() && after[j] == l;
                    assert(before[j] == l);
                }
                if before.contains(l) {
                    let j = choose|j: int| 0 <= j < before.len() && before[j] == l;
                    assert(after[j] == l);
                }
                if l == line {
                    assert(after[before.len() as int] == l);
                }
            }
            assert forall|a: int, b: int| 0 <= a < after.len() && 0 <= b < after.len() && a != b implies after[a] != after[b] by {
                if a == before.len() {
                    assert(before.contains(after[b]));
                } else if b == before.len() {
                    assert(before.contains(after[a]));
                }
            }
        }
    }
}

/// Lines joined with newlines.
pub open spec fn joined(lines: Seq<Seq<char>>) -> Seq<char>
    decreases lines.len(),
{
    if lines.len() == 0 {
        Seq::empty()
    } else if lines.len() == 1 {
        lines[0]
    } else {
        joined(lines.drop_last()) + "\n"@ + lines.last()
    }
}

/// The distinct non-empty lines, in order of first occurrence, one per line.
pub fn unique_join(lines: &Vec<String>) -> (text: String)
    ensures
        text@ == joined(unique_lines(lines.deep_view())),
{
    let ghost lv = lines.deep_view();
    let mut unique: Vec<String> = Vec::new();
    let mut text = String::new();
    let mut i: usize = 0;
    proof {
        reveal_strlit("\n");
    }
    while i < lines.len()
        invariant
            i <= lines.len(),
            lv == lines.deep_view(),
            unique.deep_view() == unique_lines(lv.take(i as int)),
            text@ == joined(unique.deep_view()),
        decreases lines.len() - i,
    {
        let line = &lines[i];
        assert(lv.take(i + 1).drop_last() =~= lv.take(i as int));
        assert(lv.take(i + 1).last() == line@);
        if !line.as_str().is_empty() && !crate::config::list_contains(&unique, line) {
            let ghost before = unique.deep_view();
            if unique.len() > 0 {
                text.append("\n");
            }
            text.append(line.as_str());
            unique.push(line.clone());
            assert(unique.deep_view() =~= before.push(line@));
            assert(unique.deep_view().drop_last() =~= before);
        }
        i = i + 1;
    }
    assert(lv.take(lines.len() as int) =~= lv);
    text
}

/// How long a key must be held for a long press, if it has one: its own
/// delay, or else the plugin-wide delay of at least 100 ms.
pub open spec fn spec_long_press_delay(global_ms: u32, advanced: AdvancedSettings) -> Option<u32> {
    if !advanced.long_press {
        None
    } else if advanced.long_press_ms == 0 {
        Some(if global_ms < 100 { 100 } else { global_ms })
    } else {
        Some(advanced.long_press_ms)
    }
}

pub fn long_press_delay(global_ms: u32, advanced: &AdvancedSettings) -> (delay: Option<u32>)
    ensures
        delay == spec_long_press_delay(global_ms, *advanced),
{
    if !advanced.long_press {
        return None;
    }
    let global = if global_ms < 100 { 100 } else { global_ms };
    if advanced.long_press_ms == 0 {
        Some(global)
    } else {
        Some(advanced.long_press_ms)
    }
}

/// Releasing a key runs a single press unless its long press already fired.
pub fn release_runs_single(pending: bool, fired_long: bool) -> (single: bool)
    ensures
        single == !(pending && fired_long),
{
    !(pending && fired_long)
}

/// The mark a key shows after a press.
#[derive(Clone, Copy, Debug, PartialEq, Eq, Structural)]
pub enum Feedback {
    Confirmed,
    Alert,
}

/// Keys that fire one-shot commands confirm a press: an alert when any
/// instance failed, an OK mark otherwise.
pub fn feedback(kind: ActionKind, failed: bool) -> (mark: Option<Feedback>)
    ensures
        !is_one_shot(kind) ==> mark is None,
        is_one_shot(kind) && failed ==> mark == Some(Feedback::Alert),
        is_one_shot(kind) && !failed ==> mark == Some(Feedback::Confirmed),
{
    if !kind.confirms_press() {
        None
    } else if failed {
        Some(Feedback::Alert)
    } else {
        Some(Feedback::Confirmed)
    }
}

/// The targets of a key: its selector resolved against the pool's configuration.
pub fn targets_for(settings: &ActionSettings, configs: &Vec<ObsInstanceConfig>, groups: &Vec<PoolGroup>) -> (ids: Vec<String>)
    ensures
        ids.deep_view() == resolved(settings.common.target@, configs_view(configs@), groups_view(groups@)),
{
    resolve_targets(&settings.common.target.to_pool(), configs, groups)
}

/// A table with every target shown neutral.
pub fn neutral_segments(targets: &Vec<String>) -> (segments: Table<SegmentState>)
    ensures
        forall|k: Seq<char>| #[trigger] segments.map().contains_key(k) <==> targets.deep_view().contains(k),
        forall|k: Seq<char>| #[trigger] segments.map().contains_key(k) ==> segments.map()[k] == SegmentState::Neutral,
{
    let ghost tv = targets.deep_view();
    let mut segments: Table<SegmentState> = Table::new();
    let mut i: usize = 0;
    while i < targets.len()
        invariant
            i <= targets.len(),
            tv == targets.deep_view(),
            forall|k: Seq<char>| #[trigger] segments.map().contains_key(k) <==> tv.take(i as int).contains(k),
            forall|k: Seq<char>| #[trigger] segments.map().contains_key(k) ==> segments.map()[k] == SegmentState::Neutral,
        decreases targets.len() - i,
    {
        segments.insert(targets[i].clone(), SegmentState::Neutral);
        proof {
            lemma_take_next_contains(tv, i as int);
        }
        i = i + 1;
    }
    assert(tv.take(targets.len() as int) =~= tv);
    segments
}

/// One key on the Stream Deck: what it does, its settings, the last state of
/// each target, the title under its icon, and whether it sits in a multi action.
pub struct LiveKey {
    pub kind: ActionKind,
    pub settings: ActionSettings,
    pub segments: Table<SegmentState>,
    pub title: String,
    pub multi: bool,
}

/// The segment map after recording press results in order: a success shows
/// its state, a failure shows the instance as unavailable.
pub open spec fn after_results(
    segments: Map<Seq<char>, SegmentState>,
    results: Seq<(String, Result<SegmentState, String>)>,
) -> Map<Seq<char>, SegmentState>
    decreases results.len(),
{
    if results.len() == 0 {
        segments
    } else {
        let r = results.last();
        after_results(segments, results.drop_last()).insert(
            r.0@,
            match r.1 {
                Ok(state) => state,
                Err(_) => SegmentState::Unavailable,
            },
        )
    }
}

pub open spec fn any_failed(results: Seq<(String, Result<SegmentState, String>)>) -> bool {
    exists|i: int| 0 <= i < results.len() && #[trigger] results[i].1 is Err
}

/// Record the outcome of a press on each target; returns whether any failed.
pub fn record_results(segments: &mut Table<SegmentState>, results: Vec<(String, Result<SegmentState, String>)>) -> (failed: bool)
    ensures
        final(segments).map() == after_results(old(segments).map(), results@),
        failed == any_failed(results@),
{
    let ghost rv = results@;
    let ghost start = segments.map();
    let mut failed = false;
    let mut i: usize = 0;
    while i < results.len()
        invariant
            i <= results.len(),
            rv == results@,
            segments.map() == after_results(start, rv.take(i as int)),
            failed == any_failed(rv.take(i as int)),
        decreases results.len() - i,
    {
        let (id, outcome) = (&results[i].0, &results[i].1);
        let state = match outcome {
            Ok(state) => *state,
            Err(_) => {
                failed = true;
                SegmentState::Unavailable
            },
        };
        segments.insert(id.clone(), state);
        proof {
            let pre = rv.take(i as int);
            let post = rv.take(i + 1);
            assert(post.drop_last() =~= pre);
            assert(post.last() == rv[i as int]);
            if any_failed(post) && !(rv[i as int].1 is Err) {
                let j = choose|j: int| 0 <= j < post.len() && #[trigger] post[j].1 is Err;
                assert(pre[j] == post[j]);
            }
            if any_failed(pre) {
                let j = choose|j: int| 0 <= j < pre.len() && #[trigger] pre[j].1 is Err;
                assert(post[j] == pre[j]);
            }
            if rv[i as int].1 is Err {
                assert(post[i as int].1 is Err);
            }
        }
        i = i + 1;
    }
    assert(rv.take(results.len() as int) =~= rv);
    failed
}

/// The plugin's live state: registered keys, pending long presses, the global
/// settings, and the keys whose image must be drawn again.
pub struct Runtime<P> {
    keys: Table<LiveKey>,
    presses: Table<P>,
    global: GlobalSettings,
    dirty: Table<()>,
}

/// A key after one of its targets was marked unavailable: only that
/// target's segment changed.
pub open spec fn shows_unavailable(before: LiveKey, after: LiveKey, id: Seq<char>) -> bool {
    &&& after.kind == before.kind
    &&& after.settings == before.settings
    &&& after.title == before.title
    &&& after.multi == before.multi
    &&& after.segments.map() == before.segments.map().insert(id, SegmentState::Unavailable)
}

/// Whether a key targets an instance under the pool's configuration.
pub open spec fn key_targets(key: LiveKey, id: Seq<char>, configs: Seq<ObsInstanceConfig>, groups: Seq<PoolGroup>) -> bool {
    resolved(key.settings.common.target@, configs_view(configs), groups_view(groups)).contains(id)
}

/// The keys that target an instance.
pub open spec fn targeting(keys: Map<Seq<char>, LiveKey>, id: Seq<char>, configs: Seq<ObsInstanceConfig>, groups: Seq<PoolGroup>) -> Set<Seq<char>> {
    Set::new(|k: Seq<char>| keys.contains_key(k) && key_targets(keys[k], id, configs, groups))
}

/// The keys among `among` that target an instance.
pub open spec fn targeting_among(
    keys: Map<Seq<char>, LiveKey>,
    among: Seq<Seq<char>>,
    id: Seq<char>,
    configs: Seq<ObsInstanceConfig>,
    groups: Seq<PoolGroup>,
) -> Set<Seq<char>> {
    Set::new(|k: Seq<char>| among.contains(k) && keys.contains_key(k) && key_targets(keys[k], id, configs, groups))
}

/// What to do after an instance reported a new status: the keys to refresh
/// (all of them once it is connected), and the keys whose inspectors get the
/// new statuses (all of them).
pub struct StatusPlan {
    pub refresh: Vec<String>,
    pub inspectors: Vec<String>,
}

impl<P> Runtime<P> {
    pub closed spec fn key_map(self) -> Map<Seq<char>, LiveKey> {
        self.keys.map()
    }

    pub closed spec fn press_map(self) -> Map<Seq<char>, P> {
        self.presses.map()
    }

    pub closed spec fn dirty_set(self) -> Set<Seq<char>> {
        self.dirty.map().dom()
    }

    pub closed spec fn global_settings(self) -> GlobalSettings {
        self.global
    }

    pub fn new(global: GlobalSettings) -> (r: Self)
        ensures
            r.key_map() == Map::<Seq<char>, LiveKey>::empty(),
            r.press_map() == Map::<Seq<char>, P>::empty(),
            r.dirty_set() == Set::<Seq<char>>::empty(),
            r.global_settings() == global,
    {
        Runtime { keys: Table::new(), presses: Table::new(), global, dirty: Table::new() }
    }

    pub fn global(&self) -> (g: &GlobalSettings)
        ensures
            *g == self.global_settings(),
    {
        &self.global
    }

    pub fn set_global(&mut self, global: GlobalSettings)
        ensures
            final(self).global_settings() == global,
            final(self).key_map() == old(self).key_map(),
            final(self).press_map() == old(self).press_map(),
            final(self).dirty_set() == old(self).dirty_set(),
    {
        self.global = global;
    }

    pub fn key(&self, context: &str) -> (k: Option<&LiveKey>)
        ensures
            match k {
                Some(k) => self.key_map().contains_key(context@) && *k == self.key_map()[context@],
                None => !self.key_map().contains_key(context@),
            },
    {
        self.keys.get(context)
    }

    /// Every registered context.
    pub fn contexts(&self) -> (contexts: Vec<String>)
        ensures
            forall|k: Seq<char>| #[trigger] contexts.deep_view().contains(k) <==> self.key_map().contains_key(k),
            contexts.deep_view().no_duplicates(),
    {
        self.keys.keys()
    }

    /// The registered keys of one kind, such as the statistics keys that are
    /// refreshed on a timer.
    pub fn contexts_of_kind(&self, kind: ActionKind) -> (contexts: Vec<String>)
        ensures
            forall|k: Seq<char>| #[trigger] contexts.deep_view().contains(k) <==> (self.key_map().contains_key(k)
                && self.key_map()[k].kind == kind),
            contexts.deep_view().no_duplicates(),
    {
        let all = self.keys.keys();
        let ghost av = all.deep_view();
        let mut contexts: Vec<String> = Vec::new();
        let mut i: usize = 0;
        while i < all.len()
            invariant
                i <= all.len(),
                av == all.deep_view(),
                forall|k: Seq<char>| #[trigger] self.key_map().contains_key(k) <==> av.contains(k),
                av.no_duplicates(),
                contexts.deep_view().no_duplicates(),
                forall|c: Seq<char>| #[trigger] contexts.deep_view().contains(c) <==> (av.take(i as int).contains(c)
                    && self.key_map()[c].kind == kind),
            decreases all.len() - i,
        {
            let context = &all[i];
            let ghost c = context@;
            assert(av[i as int] == c);
            assert(av.contains(c));
            let pick = match self.keys.get(context.as_str()) {
                Some(key) => key.kind == kind,
                None => false,
            };
            let ghost before = contexts.deep_view();
            proof {
                lemma_take_next_contains(av, i as int);
                lemma_push_contains(before, c);
                lemma_pick_next_distinct(before, av, i as int);
            }
            if pick {
                contexts.push(context.clone());
                assert(contexts.deep_view() =~= before.push(c));
            }
            i = i + 1;
        }
        assert(av.take(all.len() as int) =~= av);
        contexts
    }

    /// Register a key, or replace its settings. The segments it already shows
    /// stay; its title is cleared until the next refresh.
    pub fn upsert_key(&mut self, context: String, kind: ActionKind, settings: ActionSettings, multi: bool)
        ensures
            final(self).key_map().dom() == old(self).key_map().dom().insert(context@),
            forall|k: Seq<char>| k != context@ && #[trigger] old(self).key_map().contains_key(k) ==> final(self).key_map()[k] == old(self).key_map()[k],
            ({
                let key = final(self).key_map()[context@];
                &&& key.kind == kind
                &&& key.settings == settings
                &&& key.title@.len() == 0
                &&& key.multi == multi
                &&& key.segments.map() == if old(self).key_map().contains_key(context@) {
                    old(self).key_map()[context@].segments.map()
                } else {
                    Map::empty()
                }
            }),
            final(self).press_map() == old(self).press_map(),
            final(self).dirty_set() == old(self).dirty_set(),
            final(self).global_settings() == old(self).global_settings(),
    {
        let previous = self.keys.remove(context.as_str());
        let segments = match previous {
            Some(key) => key.segments,
            None => Table::new(),
        };
        self.keys.insert(context, LiveKey { kind, settings, segments, title: String::new(), multi });
        proof {
            assert(self.key_map().dom() =~= old(self).key_map().dom().insert(context@));
        }
    }

    /// Forget a key; hands back its pending long press so that it can be cancelled.
    pub fn remove_key(&mut self, context: &str) -> (press: Option<P>)
        ensures
            final(self).key_map() == old(self).key_map().remove(context@),
            final(self).press_map() == old(self).press_map().remove(context@),
            match press {
                Some(p) => old(self).press_map().contains_key(context@) && p == old(self).press_map()[context@],
                None => !old(self).press_map().contains_key(context@),
            },
            final(self).dirty_set() == old(self).dirty_set(),
            final(self).global_settings() == old(self).global_settings(),
    {
        self.keys.remove(context);
        self.presses.remove(context)
    }

    /// Keep the handle of a long press that is waiting to fire.
    pub fn begin_press(&mut self, context: String, press: P)
        ensures
            final(self).press_map() == old(self).press_map().insert(context@, press),
            final(self).key_map() == old(self).key_map(),
            final(self).dirty_set() == old(self).dirty_set(),
            final(self).global_settings() == old(self).global_settings(),
    {
        self.presses.insert(context, press);
    }

    /// Take the handle of a pending long press when the key is released.
    pub fn end_press(&mut self, context: &str) -> (press: Option<P>)
        ensures
            final(self).press_map() == old(self).press_map().remove(context@),
            match press {
                Some(p) => old(self).press_map().contains_key(context@) && p == old(self).press_map()[context@],
                None => !old(self).press_map().contains_key(context@),
            },
            final(self).key_map() == old(self).key_map(),
            final(self).dirty_set() == old(self).dirty_set(),
            final(self).global_settings() == old(self).global_settings(),
    {
        self.presses.remove(context)
    }

    /// Record the results of a press on a key that is still registered;
    /// returns whether any target failed, or `None` when the key is gone.
    pub fn record_press(&mut self, context: &str, results: Vec<(String, Result<SegmentState, String>)>) -> (failed: Option<bool>)
        ensures
            !old(self).key_map().contains_key(context@) ==> failed is None && final(self).key_map() == old(self).key_map(),
            old(self).key_map().contains_key(context@) ==> {
                &&& failed == Some(any_failed(results@))
                &&& final(self).key_map().dom() == old(self).key_map().dom()
                &&& forall|k: Seq<char>| k != context@ && #[trigger] old(self).key_map().contains_key(k) ==> final(self).key_map()[k] == old(self).key_map()[k]
                &&& ({
                    let before = old(self).key_map()[context@];
                    let after = final(self).key_map()[context@];
                    &&& after.kind == before.kind
                    &&& after.settings == before.settings
                    &&& after.title == before.title
                    &&& after.multi == before.multi
                    &&& after.segments.map() == after_results(before.segments.map(), results@)
                })
            },
            final(self).press_map() == old(self).press_map(),
            final(self).dirty_set() == old(self).dirty_set(),
            final(self).global_settings() == old(self).global_settings(),
    {
        match self.keys.remove(context) {
            Some(mut key) => {
                let failed = record_results(&mut key.segments, results);
                self.keys.insert(context.to_owned(), key);
                proof {
                    assert(self.key_map().dom() =~= old(self).key_map().dom());
                }
                Some(failed)
            },
            None => None,
        }
    }

    /// Show new segments and a new title on a key that is still registered.
    pub fn show(&mut self, context: &str, segments: Table<SegmentState>, title: String) -> (shown: bool)
        ensures
            shown == old(self).key_map().contains_key(context@),
            !shown ==> final(self).key_map() == old(self).key_map(),
            shown ==> {
                &&& final(self).key_map().dom() == old(self).key_map().dom()
                &&& forall|k: Seq<char>| k != context@ && #[trigger] old(self).key_map().contains_key(k) ==> final(self).key_map()[k] == old(self).key_map()[k]
                &&& ({
                    let before = old(self).key_map()[context@];
                    let after = final(self).key_map()[context@];
                    &&& after.kind == before.kind
                    &&& after.settings == before.settings
                    &&& after.multi == before.multi
                    &&& after.title == title
                    &&& after.segments == segments
                })
            },
            final(self).press_map() == old(self).press_map(),
            final(self).dirty_set() == old(self).dirty_set(),
            final(self).global_settings() == old(self).global_settings(),
    {
        match self.keys.remove(context) {
            Some(mut key) => {
                key.segments = segments;
                key.title = title;
                self.keys.insert(context.to_owned(), key);
                proof {
                    assert(self.key_map().dom() =~= old(self).key_map().dom());
                }
                true
            },
            None => false,
        }
    }

    /// Show one target of a key as unavailable, where the key targets it.
    pub fn mark_unavailable(&mut self, context: &str, id: &String, targets: &Vec<String>) -> (marked: bool)
        ensures
            marked == (old(self).key_map().contains_key(context@) && targets.deep_view().contains(id@)),
            !marked ==> final(self).key_map() == old(self).key_map(),
            marked ==> {
                &&& final(self).key_map().dom() == old(self).key_map().dom()
                &&& forall|k: Seq<char>| k != context@ && #[trigger] old(self).key_map().contains_key(k) ==> final(self).key_map()[k] == old(self).key_map()[k]
                &&& shows_unavailable(old(self).key_map()[context@], final(self).key_map()[context@], id@)
            },
            final(self).press_map() == old(self).press_map(),
            final(self).dirty_set() == old(self).dirty_set(),
            final(self).global_settings() == old(self).global_settings(),
    {
        if !crate::config::list_contains(targets, id) {
            return false;
        }
        match self.keys.remove(context) {
            Some(mut key) => {
                key.segments.insert(id.clone(), SegmentState::Unavailable);
                self.keys.insert(context.to_owned(), key);
                proof {
                    assert(self.key_map().dom() =~= old(self).key_map().dom());
                }
                true
            },
            None => false,
        }
    }

    /// Remember that a key must be drawn again.
    pub fn mark_dirty(&mut self, context: String)
        ensures
            final(self).dirty_set() == old(self).dirty_set().insert(context@),
            final(self).key_map() == old(self).key_map(),
            final(self).press_map() == old(self).press_map(),
            final(self).global_settings() == old(self).global_settings(),
    {
        self.dirty.insert(context, ());
        proof {
            assert(self.dirty_set() =~= old(self).dirty_set().insert(context@));
        }
    }

    /// Take every key that must be drawn again, each once.
    pub fn take_dirty(&mut self) -> (contexts: Vec<String>)
        ensures
            forall|k: Seq<char>| #[trigger] contexts.deep_view().contains(k) <==> old(self).dirty_set().contains(k),
            contexts.deep_view().no_duplicates(),
            final(self).dirty_set() == Set::<Seq<char>>::empty(),
            final(self).key_map() == old(self).key_map(),
            final(self).press_map() == old(self).press_map(),
            final(self).global_settings() == old(self).global_settings(),
    {
        let contexts = self.dirty.keys();
        self.dirty = Table::new();
        proof {
            assert(self.dirty_set() =~= Set::<Seq<char>>::empty());
        }
        contexts
    }

    /// After instance `id` reported a new status: once it is connected every
    /// key is refreshed; otherwise every key that targets it shows it
    /// unavailable and is drawn again, and no other key changes. The
    /// inspectors of all keys get the new statuses.
    pub fn on_status(&mut self, id: &String, connected: bool, configs: &Vec<ObsInstanceConfig>, groups: &Vec<PoolGroup>) -> (plan: StatusPlan)
        ensures
            forall|k: Seq<char>| #[trigger] plan.inspectors.deep_view().contains(k) <==> old(self).key_map().contains_key(k),
            plan.inspectors.deep_view().no_duplicates(),
            connected ==> {
                &&& forall|k: Seq<char>| #[trigger] plan.refresh.deep_view().contains(k) <==> old(self).key_map().contains_key(k)
                &&& plan.refresh.deep_view().no_duplicates()
                &&& final(self).key_map() == old(self).key_map()
                &&& final(self).dirty_set() == old(self).dirty_set()
            },
            !connected ==> {
                &&& plan.refresh@.len() == 0
                &&& final(self).key_map().dom() == old(self).key_map().dom()
                &&& forall|k: Seq<char>| #[trigger] old(self).key_map().contains_key(k) ==> if key_targets(old(self).key_map()[k], id@, configs@, groups@) {
                    shows_unavailable(old(self).key_map()[k], final(self).key_map()[k], id@)
                } else {
                    final(self).key_map()[k] == old(self).key_map()[k]
                }
                &&& final(self).dirty_set() == old(self).dirty_set() + targeting(old(self).key_map(), id@, configs@, groups@)
            },
            final(self).press_map() == old(self).press_map(),
            final(self).global_settings() == old(self).global_settings(),
    {
        let contexts = self.contexts();
        if connected {
            let refresh = crate::config::copy_texts(&contexts);
            return StatusPlan { refresh, inspectors: contexts };
        }
        let ghost cv = contexts.deep_view();
        let ghost start = self.key_map();
        let ghost d0 = self.dirty_set();
        let mut i: usize = 0;
        while i < contexts.len()
            invariant
                i <= contexts.len(),
                cv == contexts.deep_view(),
                cv.no_duplicates(),
                forall|k: Seq<char>| #[trigger] start.contains_key(k) <==> cv.contains(k),
                start == old(self).key_map(),
                d0 == old(self).dirty_set(),
                self.key_map().dom() == start.dom(),
                forall|k: Seq<char>| #[trigger] start.contains_key(k) ==> if cv.take(i as int).contains(k) && key_targets(start[k], id@, configs@, groups@) {
                    shows_unavailable(start[k], self.key_map()[k], id@)
                } else {
                    self.key_map()[k] == start[k]
                },
                self.dirty_set() == d0 + targeting_among(start, cv.take(i as int), id@, configs@, groups@),
                self.press_map() == old(self).press_map(),
                self.global_settings() == old(self).global_settings(),
            decreases contexts.len() - i,
        {
            let context = &contexts[i];
            let ghost c = context@;
            assert(cv[i as int] == c);
            assert(cv.contains(c));
            proof {
                lemma_take_next_contains(cv, i as int);
                if cv.take(i as int).contains(c) {
                    let j = choose|j: int| 0 <= j < i && cv.take(i as int)[j] == c;
                    assert(cv[j] == cv[i as int]);
                }
            }
            let ghost mid = self.key_map();
            assert(start.contains_key(c));
            assert(!cv.take(i as int).contains(c));
            assert(mid[c] == start[c]);
            let targets = match self.keys.get(context.as_str()) {
                Some(key) => targets_for(&key.settings, configs, groups),
                None => Vec::new(),
            };
            assert(targets.deep_view().contains(id@) == key_targets(start[c], id@, configs@, groups@));
            let marked = self.mark_unavailable(context.as_str(), id, &targets);
            if marked {
                self.mark_dirty(context.clone());
            }
            proof {
                assert(self.dirty_set() =~= d0 + targeting_among(start, cv.take(i + 1), id@, configs@, groups@));
                assert forall|k: Seq<char>| #[trigger] start.contains_key(k) implies (if cv.take(i + 1).contains(k) && key_targets(start[k], id@, configs@, groups@) {
                    shows_unavailable(start[k], self.key_map()[k], id@)
                } else {
                    self.key_map()[k] == start[k]
                }) by {
                    if k != c {
                        assert(mid.contains_key(k));
                    }
                }
            }
            i = i + 1;
        }
        proof {
            assert(cv.take(contexts.len() as int) =~= cv);
            assert(targeting_among(start, cv, id@, configs@, groups@) =~= targeting(start, id@, configs@, groups@));
        }
        StatusPlan { refresh: Vec::new(), inspectors: contexts }
    }
}

/// How one target appears on the strip: the configured name and color of the
/// instance (its id and a default blue when it is not configured), and its
/// last state (unavailable when none is known).
pub open spec fn visual_segment(
    id: Seq<char>,
    configs: Seq<ObsInstanceConfig>,
    segments: Map<Seq<char>, SegmentState>,
) -> (Seq<char>, Seq<char>, SegmentState) {
    (
        match config_at(configs, id) {
            Some(k) => configs[k].name@,
            None => id,
        },
        match config_at(configs, id) {
            Some(k) => configs[k].color@,
            None => "#4c8dff"@,
        },
        if segments.contains_key(id) {
            segments[id]
        } else {
            SegmentState::Unavailable
        },
    )
}

/// A configured instance's segment is drawn in the color set on that
/// instance while it is on (or neutral).
pub proof fn strip_uses_instance_color(
    id: Seq<char>,
    configs: Seq<ObsInstanceConfig>,
    segments: Map<Seq<char>, SegmentState>,
    k: int,
)
    requires
        config_at(configs, id) == Some(k),
        segments.contains_key(id),
        segments[id] == SegmentState::Active || segments[id] == SegmentState::Neutral,
    ensures
        crate::render::spec_fill(visual_segment(id, configs, segments)) == configs[k].color@,
        visual_segment(id, configs, segments).0 == configs[k].name@,
{
}

fn first_config(configs: &Vec<ObsInstanceConfig>, id: &str) -> (i: Option<usize>)
    ensures
        match i {
            Some(i) => config_at(configs@, id@) == Some(i as int) && i < configs@.len(),
            None => config_at(configs@, id@) is None,
        },
{
    let mut i: usize = 0;
    while i < configs.len()
        invariant
            i <= configs.len(),
            forall|j: int| 0 <= j < i ==> configs@[j].id@ != id@,
        decreases configs.len() - i,
    {
        if crate::text::same_str(configs[i].id.as_str(), id) {
            proof {
                lemma_config_at(configs@, id@, i as int);
            }
            return Some(i);
        }
        i = i + 1;
    }
    None
}

/// The strip segments of a key, one per target in order.
pub fn visual_segments(
    targets: &Vec<String>,
    configs: &Vec<ObsInstanceConfig>,
    segments: &Table<SegmentState>,
) -> (visual: Vec<Segment>)
    ensures
        visual@.len() == targets@.len(),
        forall|i: int| 0 <= i < visual@.len() ==> #[trigger] visual@[i]@ == visual_segment(targets@[i]@, configs@, segments.map()),
{
    let mut visual: Vec<Segment> = Vec::new();
    let mut i: usize = 0;
    while i < targets.len()
        invariant
            i <= targets.len(),
            visual@.len() == i,
            forall|j: int| 0 <= j < i ==> #[trigger] visual@[j]@ == visual_segment(targets@[j]@, configs@, segments.map()),
        decreases targets.len() - i,
    {
        let id = &targets[i];
        let (label, color) = match first_config(configs, id.as_str()) {
            Some(k) => (configs[k].name.clone(), configs[k].color.clone()),
            None => (id.clone(), String::from_str("#4c8dff")),
        };
        let state = match segments.get(id.as_str()) {
            Some(s) => *s,
            None => SegmentState::Unavailable,
        };
        visual.push(Segment { label, color, state });
        i = i + 1;
    }
    visual
}

pub open spec fn all_active(states: Seq<(Seq<char>, Seq<char>, SegmentState)>) -> bool {
    states.len() > 0 && forall|i: int| 0 <= i < states.len() ==> #[trigger] states[i].2 == SegmentState::Active
}

pub open spec fn segments_view(visual: Seq<Segment>) -> Seq<(Seq<char>, Seq<char>, SegmentState)> {
    visual.map_values(|s: Segment| s@)
}

/// The state image of a toggle key: the first (active) image only when every
/// target is active.
pub open spec fn spec_toggle_state(kind: ActionKind, visual: Seq<(Seq<char>, Seq<char>, SegmentState)>) -> Option<u8> {
    if spec_has_toggle_state(kind) {
        Some(if all_active(visual) { 0u8 } else { 1u8 })
    } else {
        None
    }
}

pub fn toggle_state(kind: ActionKind, visual: &Vec<Segment>) -> (state: Option<u8>)
    ensures
        state == spec_toggle_state(kind, segments_view(visual@)),
{
    if !kind.has_toggle_state() {
        return None;
    }
    let ghost sv = segments_view(visual@);
    let mut active = visual.len() > 0;
    let mut i: usize = 0;
    while i < visual.len()
        invariant
            i <= visual.len(),
            sv == segments_view(visual@),
            active == (visual@.len() > 0 && forall|j: int| 0 <= j < i ==> #[trigger] sv[j].2 == SegmentState::Active),
        decreases visual.len() - i,
    {
        assert(sv[i as int] == visual@[i as int]@);
        let ghost was = active;
        if visual[i].state != SegmentState::Active {
            active = false;
        }
        proof {
            if was && visual@[i as int].state == SegmentState::Active {
                assert forall|j: int| 0 <= j < i + 1 implies #[trigger] sv[j].2 == SegmentState::Active by {
                    if j < i {
                    }
                }
            }
            if !active {
                if visual@[i as int].state != SegmentState::Active {
                    assert(!(sv[i as int].2 == SegmentState::Active));
                }
            }
        }
        i = i + 1;
    }
    Some(if active { 0 } else { 1 })
}

/// What drawing a key needs: its icon kind, the strip, the title to set (if
/// any), the state image of a toggle key, and the foreground color.
pub struct PaintPlan {
    pub kind: ActionKind,
    pub segments: Vec<Segment>,
    pub title: Option<String>,
    pub toggle_state: Option<u8>,
    pub foreground: String,
}

impl<P> Runtime<P> {
    /// How to draw a registered key against the pool's configuration. A key in
    /// a multi action, or with an empty title, keeps the title it has.
    pub fn paint_plan(&self, context: &str, configs: &Vec<ObsInstanceConfig>, groups: &Vec<PoolGroup>) -> (plan: Option<PaintPlan>)
        ensures
            !self.key_map().contains_key(context@) ==> plan is None,
            self.key_map().contains_key(context@) ==> (plan matches Some(p) && {
                let key = self.key_map()[context@];
                let targets = resolved(key.settings.common.target@, configs_view(configs@), groups_view(groups@));
                &&& p.kind == key.kind
                &&& p.segments@.len() == targets.len()
                &&& forall|i: int| 0 <= i < targets.len() ==> #[trigger] p.segments@[i]@ == visual_segment(targets[i], configs@, key.segments.map())
                &&& (p.title matches Some(t) ==> t@ == key.title@)
                &&& (p.title is Some <==> (!key.multi && key.title@.len() > 0))
                &&& p.toggle_state == spec_toggle_state(key.kind, segments_view(p.segments@))
                &&& p.foreground@ == self.global_settings().fg_color@
            }),
    {
        let key = match self.keys.get(context) {
            Some(key) => key,
            None => return None,
        };
        let targets = targets_for(&key.settings, configs, groups);
        let segments = visual_segments(&targets, configs, &key.segments);
        proof {
            assert forall|i: int| 0 <= i < targets@.len() implies targets@[i]@ == targets.deep_view()[i] by {}
        }
        let title = if !key.multi && !key.title.as_str().is_empty() {
            Some(key.title.clone())
        } else {
            None
        };
        let toggle = toggle_state(key.kind, &segments);
        Some(PaintPlan {
            kind: key.kind,
            segments,
            title,
            toggle_state: toggle,
            foreground: self.global.fg_color.clone(),
        })
    }
}

/// A name from a catalog and the targets that have it and lack it.
pub struct CatalogItem {
    pub name: String,
    pub present_on: Vec<String>,
    pub missing_on: Vec<String>,
}

/// Where each name was seen, after one more target listed `names`: the
/// target is appended once per occurrence.
pub open spec fn add_names(
    seen: Map<Seq<char>, Seq<Seq<char>>>,
    id: Seq<char>,
    names: Seq<Seq<char>>,
) -> Map<Seq<char>, Seq<Seq<char>>>
    decreases names.len(),
{
    if names.len() == 0 {
        seen
    } else {
        let before = add_names(seen, id, names.drop_last());
        let name = names.last();
        before.insert(
            name,
            (if before.contains_key(name) {
                before[name]
            } else {
                Seq::empty()
            }).push(id),
        )
    }
}

pub open spec fn seen_view(seen: Table<Vec<String>>) -> Map<Seq<char>, Seq<Seq<char>>> {
    seen.map().map_values(|v: Vec<String>| v.deep_view())
}

/// The order of the names after more were seen: a name seen for the first
/// time goes last, one seen before keeps its place.
pub open spec fn first_seen(order: Seq<Seq<char>>, names: Seq<Seq<char>>) -> Seq<Seq<char>>
    decreases names.len(),
{
    if names.len() == 0 {
        order
    } else {
        let before = first_seen(order, names.drop_last());
        if before.contains(names.last()) {
            before
        } else {
            before.push(names.last())
        }
    }
}

/// Note that target `id` lists these names.
pub fn add_listing(seen: &mut Table<Vec<String>>, id: &String, names: &Vec<String>)
    ensures
        seen_view(*final(seen)) == add_names(seen_view(*old(seen)), id@, names.deep_view()),
        final(seen).key_seq() == first_seen(old(seen).key_seq(), names.deep_view()),
{
    let ghost nv = names.deep_view();
    let ghost start = seen_view(*seen);
    let ghost start_order = seen.key_seq();
    let mut i: usize = 0;
    while i < names.len()
        invariant
            i <= names.len(),
            nv == names.deep_view(),
            seen_view(*seen) == add_names(start, id@, nv.take(i as int)),
            seen.key_seq() == first_seen(start_order, nv.take(i as int)),
        decreases names.len() - i,
    {
        let name = &names[i];
        let ghost before = seen_view(*seen);
        let ghost before_order = seen.key_seq();
        let mut present = match seen.get(name.as_str()) {
            Some(v) => crate::config::copy_texts(v),
            None => Vec::new(),
        };
        let ghost pv = present.deep_view();
        assert(pv == (if before.contains_key(name@) { before[name@] } else { Seq::<Seq<char>>::empty() }));
        present.push(id.clone());
        assert(present.deep_view() =~= pv.push(id@));
        let ghost known = before_order.contains(name@);
        seen.insert(name.clone(), present);
        proof {
            assert(nv.take(i + 1).drop_last() =~= nv.take(i as int));
            assert(nv.take(i + 1).last() == name@);
            assert(seen_view(*seen) =~= before.insert(name@, (if before.contains_key(name@) { before[name@] } else { Seq::empty() }).push(id@)));
            assert(known == before.contains_key(name@));
        }
        i = i + 1;
    }
    assert(nv.take(names.len() as int) =~= nv);
}

/// The targets that do not have a name.
pub open spec fn missing(targets: Seq<Seq<char>>, present: Seq<Seq<char>>) -> Seq<Seq<char>>
    decreases targets.len(),
{
    if targets.len() == 0 {
        Seq::empty()
    } else {
        let before = missing(targets.drop_last(), present);
        if present.contains(targets.last()) {
            before
        } else {
            before.push(targets.last())
        }
    }
}

/// One item per name seen, in the order first seen: where it is present and
/// which targets lack it.
pub fn catalog_items(targets: &Vec<String>, seen: &Table<Vec<String>>) -> (items: Vec<CatalogItem>)
    ensures
        items@.len() == seen.key_seq().len(),
        forall|i: int| 0 <= i < items@.len() ==> {
            let name = #[trigger] items@[i].name@;
            &&& name == seen.key_seq()[i]
            &&& items@[i].present_on.deep_view() == seen_view(*seen)[name]
            &&& items@[i].missing_on.deep_view() == missing(targets.deep_view(), seen_view(*seen)[name])
        },
{
    let names = seen.keys();
    let ghost tv = targets.deep_view();
    let mut items: Vec<CatalogItem> = Vec::new();
    let mut i: usize = 0;
    while i < names.len()
        invariant
            i <= names.len(),
            names.deep_view() == seen.key_seq(),
            tv == targets.deep_view(),
            forall|k: Seq<char>| #[trigger] seen.map().contains_key(k) <==> seen.key_seq().contains(k),
            items@.len() == i,
            forall|j: int| 0 <= j < i ==> {
                let name = #[trigger] items@[j].name@;
                &&& name == seen.key_seq()[j]
                &&& items@[j].present_on.deep_view() == seen_view(*seen)[name]
                &&& items@[j].missing_on.deep_view() == missing(tv, seen_view(*seen)[name])
            },
        decreases names.len() - i,
    {
        let name = &names[i];
        assert(names.deep_view()[i as int] == name@);
        assert(seen.key_seq().contains(name@));
        let present = match seen.get(name.as_str()) {
            Some(v) => crate::config::copy_texts(v),
            None => Vec::new(),
        };
        assert(present.deep_view() == seen_view(*seen)[name@]);
        let mut absent: Vec<String> = Vec::new();
        let mut t: usize = 0;
        while t < targets.len()
            invariant
                t <= targets.len(),
                tv == targets.deep_view(),
                absent.deep_view() == missing(tv.take(t as int), present.deep_view()),
            decreases targets.len() - t,
        {
            let ghost before = absent.deep_view();
            assert(tv.take(t + 1).drop_last() =~= tv.take(t as int));
            assert(tv.take(t + 1).last() == targets[t as int]@);
            if !crate::config::list_contains(&present, &targets[t]) {
                absent.push(targets[t].clone());
                assert(absent.deep_view() =~= before.push(targets[t as int]@));
            }
            t = t + 1;
        }
        assert(tv.take(targets.len() as int) =~= tv);
        items.push(CatalogItem { name: name.clone(), present_on: present, missing_on: absent });
        i = i + 1;
    }
    items
}

/// Each target either has a name or is flagged as missing it, never both.
pub proof fn catalog_flags_missing(targets: Seq<Seq<char>>, present: Seq<Seq<char>>, t: Seq<char>)
    requires
        targets.contains(t),
    ensures
        missing(targets, present).contains(t) <==> !present.contains(t),
    decreases targets.len(),
{
    let m = missing(targets, present);
    if targets.last() == t {
        if !present.contains(t) {
            assert(m[m.len() - 1] == t);
        } else {
            lemma_missing_excludes(targets, present, t);
        }
    } else {
        let prev = targets.drop_last();
        let j = choose|j: int| 0 <= j < targets.len() && targets[j] == t;
        assert(j < prev.len());
        assert(prev[j] == t);
        catalog_flags_missing(prev, present, t);
        let mp = missing(prev, present);
        if mp.contains(t) {
            let q = choose|q: int| 0 <= q < mp.len() && mp[q] == t;
            assert(m[q] == t);
        }
        if m.contains(t) {
            let q = choose|q: int| 0 <= q < m.len() && m[q] == t;
            if q < mp.len() {
                assert(mp[q] == t);
            }
        }
    }
}

proof fn lemma_missing_excludes(targets: Seq<Seq<char>>, present: Seq<Seq<char>>, t: Seq<char>)
    requires
        present.contains(t),
    ensures
        !missing(targets, present).contains(t),
    decreases targets.len(),
{
    if targets.len() > 0 {
        lemma_missing_excludes(targets.drop_last(), present, t);
        let m = missing(targets, present);
        let mp = missing(targets.drop_last(), present);
        if m.contains(t) {
            let q = choose|q: int| 0 <= q < m.len() && m[q] == t;
            if q < mp.len() {
                assert(mp[q] == t);
            }
        }
    }
}

/// What refreshing one target of a key found.
pub enum TargetReading {
    /// The instance is not connected, or has no client.
    Offline,
    /// The state read from the instance (or why it could not be read), and
    /// for a stats key the statistics line it could read.
    Read { state: Result<SegmentState, String>, stat_line: Option<String> },
}

/// The title line one target adds to a refresh: none when it is offline; for
/// a stats key the statistics line read from it; for other keys its
/// parameters' title.
pub open spec fn reading_line(
    kind: ActionKind,
    settings: ActionSettings,
    target: Seq<char>,
    reading: TargetReading,
) -> Option<Seq<char>> {
    match reading {
        TargetReading::Offline => None,
        TargetReading::Read { stat_line, .. } => if kind == ActionKind::Stats {
            text_option_view(stat_line)
        } else {
            spec_title_for(kind, spec_params_for(&settings, target)@)
        },
    }
}

/// The segments and the title lines a refresh shows, target by target: an
/// offline target is unavailable and adds no line; a target that was read
/// shows its state (unavailable if the read failed) and adds its statistics
/// line (stats keys) or its parameters' title (other keys), where there is one.
pub open spec fn refresh_lines(
    kind: ActionKind,
    settings: ActionSettings,
    targets: Seq<String>,
    readings: Seq<TargetReading>,
) -> Seq<Seq<char>>
    decreases targets.len(),
{
    if targets.len() == 0 || readings.len() != targets.len() {
        Seq::empty()
    } else {
        let before = refresh_lines(kind, settings, targets.drop_last(), readings.drop_last());
        match reading_line(kind, settings, targets.last()@, readings.last()) {
            Some(l) => before.push(l),
            None => before,
        }
    }
}

pub open spec fn reading_state(reading: TargetReading) -> SegmentState {
    match reading {
        TargetReading::Read { state: Ok(s), .. } => s,
        _ => SegmentState::Unavailable,
    }
}

/// The segment each target shows after a refresh; where a target is named
/// twice, the later reading stands.
pub open spec fn refresh_segments(targets: Seq<String>, readings: Seq<TargetReading>) -> Map<Seq<char>, SegmentState>
    decreases targets.len(),
{
    if targets.len() == 0 || readings.len() != targets.len() {
        Map::empty()
    } else {
        refresh_segments(targets.drop_last(), readings.drop_last()).insert(
            targets.last()@,
            reading_state(readings.last()),
        )
    }
}

fn line_of(kind: ActionKind, settings: &ActionSettings, target: &String, reading: &TargetReading) -> (line: Option<String>)
    ensures
        text_option_view(line) == reading_line(kind, *settings, target@, *reading),
{
    match reading {
        TargetReading::Offline => None,
        TargetReading::Read { stat_line, .. } => if kind == ActionKind::Stats {
            match stat_line {
                Some(l) => Some(l.clone()),
                None => None,
            }
        } else {
            title_for(kind, settings.params_for(target))
        },
    }
}

proof fn lemma_refresh_lines_step(
    kind: ActionKind,
    settings: ActionSettings,
    targets: Seq<String>,
    readings: Seq<TargetReading>,
    i: int,
)
    requires
        0 <= i < targets.len(),
        readings.len() == targets.len(),
    ensures
        refresh_lines(kind, settings, targets.take(i + 1), readings.take(i + 1)) == match reading_line(kind, settings, targets[i]@, readings[i]) {
            Some(l) => refresh_lines(kind, settings, targets.take(i), readings.take(i)).push(l),
            None => refresh_lines(kind, settings, targets.take(i), readings.take(i)),
        },
        refresh_segments(targets.take(i + 1), readings.take(i + 1)) == refresh_segments(targets.take(i), readings.take(i)).insert(
            targets[i]@,
            reading_state(readings[i]),
        ),
{
    assert(targets.take(i + 1).drop_last() =~= targets.take(i));
    assert(readings.take(i + 1).drop_last() =~= readings.take(i));
    assert(targets.take(i + 1).last() == targets[i]);
    assert(readings.take(i + 1).last() == readings[i]);
}


/// What a refresh shows on a key: one segment per target with the state read
/// for it, and the distinct title lines joined.
pub fn refresh_view(
    kind: ActionKind,
    settings: &ActionSettings,
    targets: &Vec<String>,
    readings: Vec<TargetReading>,
) -> (view: (Table<SegmentState>, String))
    requires
        readings@.len() == targets@.len(),
    ensures
        view.0.map() == refresh_segments(targets@, readings@),
        view.1@ == joined(unique_lines(refresh_lines(kind, *settings, targets@, readings@))),
{
    let ghost rv = readings@;
    let mut segments: Table<SegmentState> = Table::new();
    let mut lines: Vec<String> = Vec::new();
    let mut i: usize = 0;
    while i < targets.len()
        invariant
            i <= targets.len(),
            rv == readings@,
            rv.len() == targets@.len(),
            segments.map() == refresh_segments(targets@.take(i as int), rv.take(i as int)),
            lines.deep_view() == refresh_lines(kind, *settings, targets@.take(i as int), rv.take(i as int)),
        decreases targets.len() - i,
    {
        let id = &targets[i];
        let state = match &readings[i] {
            TargetReading::Read { state: Ok(s), .. } => *s,
            _ => SegmentState::Unavailable,
        };
        assert(state == reading_state(rv[i as int]));
        segments.insert(id.clone(), state);
        let line = line_of(kind, settings, id, &readings[i]);
        proof {
            lemma_refresh_lines_step(kind, *settings, targets@, rv, i as int);
        }
        match line {
            Some(l) => {
                lines.push(l);
            },
            None => {},
        }
        i = i + 1;
    }
    proof {
        assert(targets@.take(targets.len() as int) =~= targets@);
        assert(rv.take(targets.len() as int) =~= rv);
    }
    let title = unique_join(&lines);
    (segments, title)
}

/// What a message from the property inspector asks for.
pub enum InspectorRequest {
    /// Send the status of every instance.
    Ready,
    /// Reconnect the instance with this id, where the message names one.
    Reconnect(Option<String>),
    /// List the names of a catalog resource across the key's targets.
    Query(String),
    /// Anything else is ignored.
    Ignore,
}

/// Read a property inspector message: its `type` string, with an `id` for a
/// reconnect and a `resource` for a query.
pub fn inspector_request(message: &str) -> (request: InspectorRequest)
    ensures
        ({
            let kind = crate::json::string_member(message@, "type"@);
            &&& kind == Some("ready"@) ==> request is Ready
            &&& kind == Some("reconnect"@) ==> (request matches InspectorRequest::Reconnect(id)
                && text_option_view(id) == crate::json::string_member(message@, "id"@))
            &&& kind == Some("query"@) ==> (request matches InspectorRequest::Query(r)
                && r@ == match crate::json::string_member(message@, "resource"@) {
                    Some(s) => s,
                    None => Seq::empty(),
                })
            &&& kind != Some("ready"@) && kind != Some("reconnect"@) && kind != Some("query"@) ==> request is Ignore
        }),
{
    proof {
        reveal_strlit("type");
        reveal_strlit("id");
        reveal_strlit("resource");
        reveal_strlit("ready");
        reveal_strlit("reconnect");
        reveal_strlit("query");
        assert("ready"@.len() == 5);
        assert("reconnect"@.len() == 9);
        assert("query"@.len() == 5);
        assert("ready"@[0] != "query"@[0]);
    }
    let kind = match crate::json::read_string_member(message, "type") {
        Some(k) => k,
        None => String::new(),
    };
    let k = kind.as_str();
    if crate::text::same_str(k, "ready") {
        InspectorRequest::Ready
    } else if crate::text::same_str(k, "reconnect") {
        InspectorRequest::Reconnect(crate::json::read_string_member(message, "id"))
    } else if crate::text::same_str(k, "query") {
        let resource = match crate::json::read_string_member(message, "resource") {
            Some(r) => r,
            None => String::new(),
        };
        InspectorRequest::Query(resource)
    } else {
        InspectorRequest::Ignore
    }
}

impl<P> Runtime<P> {
    /// The keys an OBS event from instance `id` can change: keys whose kind
    /// shows what the event changes and that target that instance.
    pub fn affected_by(&self, event: ObsEvent, id: &String, configs: &Vec<ObsInstanceConfig>, groups: &Vec<PoolGroup>) -> (contexts: Vec<String>)
        ensures
            forall|c: Seq<char>| #[trigger] contexts.deep_view().contains(c) <==> {
                &&& self.key_map().contains_key(c)
                &&& spec_event_affects(self.key_map()[c].kind, self.key_map()[c].settings.common.scene_output, event)
                &&& resolved(self.key_map()[c].settings.common.target@, configs_view(configs@), groups_view(groups@)).contains(id@)
            },
            contexts.deep_view().no_duplicates(),
    {
        let all = self.keys.keys();
        let ghost av = all.deep_view();
        let mut contexts: Vec<String> = Vec::new();
        let mut i: usize = 0;
        while i < all.len()
            invariant
                i <= all.len(),
                av == all.deep_view(),
                forall|k: Seq<char>| #[trigger] self.key_map().contains_key(k) <==> av.contains(k),
                av.no_duplicates(),
                contexts.deep_view().no_duplicates(),
                forall|c: Seq<char>| #[trigger] contexts.deep_view().contains(c) <==> {
                    &&& av.take(i as int).contains(c)
                    &&& spec_event_affects(self.key_map()[c].kind, self.key_map()[c].settings.common.scene_output, event)
                    &&& resolved(self.key_map()[c].settings.common.target@, configs_view(configs@), groups_view(groups@)).contains(id@)
                },
            decreases all.len() - i,
        {
            let context = &all[i];
            let ghost c = context@;
            assert(av[i as int] == c);
            assert(av.contains(c));
            let pick = match self.keys.get(context.as_str()) {
                Some(key) => event_affects(key.kind, key.settings.common.scene_output, event) && {
                    let targets = targets_for(&key.settings, configs, groups);
                    crate::config::list_contains(&targets, id)
                },
                None => false,
            };
            let ghost before = contexts.deep_view();
            proof {
                lemma_take_next_contains(av, i as int);
                lemma_push_contains(before, c);
                lemma_pick_next_distinct(before, av, i as int);
            }
            if pick {
                contexts.push(context.clone());
                assert(contexts.deep_view() =~= before.push(c));
            }
            i = i + 1;
        }
        assert(av.take(all.len() as int) =~= av);
        contexts
    }
}

} // verus!
