use vstd::prelude::*;

verus! {

/// One OBS instance that the pool connects to.
pub struct ObsInstanceConfig {
    pub id: String,
    pub name: String,
    pub host: String,
    pub port: u16,
    pub password: String,
    pub color: String,
    pub enabled: bool,
}

/// A named set of instance ids that an action can target.
pub struct TargetGroup {
    pub id: String,
    pub name: String,
    pub members: Vec<String>,
}

/// Which instances an action is sent to.
pub enum TargetSelector {
    All,
    Group { id: String },
    Instances { ids: Vec<String> },
}

/// The address and credentials that identify one live socket.
pub struct Endpoint {
    pub host: String,
    pub port: u16,
    pub password: String,
}

pub struct ObsInstanceConfigView {
    pub id: Seq<char>,
    pub name: Seq<char>,
    pub host: Seq<char>,
    pub port: u16,
    pub password: Seq<char>,
    pub color: Seq<char>,
    pub enabled: bool,
}

pub struct TargetGroupView {
    pub id: Seq<char>,
    pub name: Seq<char>,
    pub members: Seq<Seq<char>>,
}

pub enum TargetSelectorView {
    All,
    Group { id: Seq<char> },
    Instances { ids: Seq<Seq<char>> },
}

impl View for ObsInstanceConfig {
    type V = ObsInstanceConfigView;

    open spec fn view(&self) -> ObsInstanceConfigView {
        ObsInstanceConfigView {
            id: self.id@,
            name: self.name@,
            host: self.host@,
            port: self.port,
            password: self.password@,
            color: self.color@,
            enabled: self.enabled,
        }
    }
}

impl View for TargetGroup {
    type V = TargetGroupView;

    open spec fn view(&self) -> TargetGroupView {
        TargetGroupView { id: self.id@, name: self.name@, members: self.members.deep_view() }
    }
}

impl View for TargetSelector {
    type V = TargetSelectorView;

    open spec fn view(&self) -> TargetSelectorView {
        match self {
            TargetSelector::All => TargetSelectorView::All,
            TargetSelector::Group { id } => TargetSelectorView::Group { id: id@ },
            TargetSelector::Instances { ids } => TargetSelectorView::Instances {
                ids: ids.deep_view(),
            },
        }
    }
}

impl View for Endpoint {
    type V = (Seq<char>, u16, Seq<char>);

    open spec fn view(&self) -> (Seq<char>, u16, Seq<char>) {
        (self.host@, self.port, self.password@)
    }
}

pub open spec fn configs_view(configs: Seq<ObsInstanceConfig>) -> Seq<ObsInstanceConfigView> {
    configs.map_values(|c: ObsInstanceConfig| c@)
}

pub open spec fn groups_view(groups: Seq<TargetGroup>) -> Seq<TargetGroupView> {
    groups.map_values(|g: TargetGroup| g@)
}

/// The ids of a sequence of configurations, in order.
pub open spec fn config_ids(configs: Seq<ObsInstanceConfigView>) -> Seq<Seq<char>> {
    configs.map_values(|c: ObsInstanceConfigView| c.id)
}

/// Members of the first group with the given id, if any.
pub open spec fn group_members(groups: Seq<TargetGroupView>, id: Seq<char>) -> Option<
    Seq<Seq<char>>,
>
    decreases groups.len(),
{
    if groups.len() == 0 {
        None
    } else if groups[0].id == id {
        Some(groups[0].members)
    } else {
        group_members(groups.drop_first(), id)
    }
}

/// Whether the selector picks one configured instance.
pub open spec fn picks(
    selector: TargetSelectorView,
    groups: Seq<TargetGroupView>,
    config: ObsInstanceConfigView,
) -> bool {
    match selector {
        TargetSelectorView::All => config.enabled,
        TargetSelectorView::Group { id } => match group_members(groups, id) {
            Some(members) => members.contains(config.id),
            None => false,
        },
        TargetSelectorView::Instances { ids } => ids.contains(config.id),
    }
}

/// The ids that a selector resolves to: every picked instance, in configuration order.
pub open spec fn resolved(
    selector: TargetSelectorView,
    configs: Seq<ObsInstanceConfigView>,
    groups: Seq<TargetGroupView>,
) -> Seq<Seq<char>>
    decreases configs.len(),
{
    if configs.len() == 0 {
        Seq::empty()
    } else {
        let before = resolved(selector, configs.drop_last(), groups);
        if picks(selector, groups, configs.last()) {
            before.push(configs.last().id)
        } else {
            before
        }
    }
}

/// Positions in `configs` of the resolved ids, in order.
pub open spec fn resolved_positions(
    selector: TargetSelectorView,
    configs: Seq<ObsInstanceConfigView>,
    groups: Seq<TargetGroupView>,
) -> Seq<int>
    decreases configs.len(),
{
    if configs.len() == 0 {
        Seq::empty()
    } else {
        let before = resolved_positions(selector, configs.drop_last(), groups);
        if picks(selector, groups, configs.last()) {
            before.push(configs.len() - 1)
        } else {
            before
        }
    }
}

/// `positions` locates each resolved id in `configs`: each comes from a picked
/// instance, positions strictly increase, and every picked instance is located.
pub open spec fn locates_resolved(
    selector: TargetSelectorView,
    configs: Seq<ObsInstanceConfigView>,
    groups: Seq<TargetGroupView>,
    positions: Seq<int>,
) -> bool {
    let r = resolved(selector, configs, groups);
    &&& positions.len() == r.len()
    &&& forall|k: int|
        0 <= k < positions.len() ==> 0 <= #[trigger] positions[k] < configs.len() && r[k]
            == configs[positions[k]].id && picks(selector, groups, configs[positions[k]])
    &&& forall|k: int, l: int| 0 <= k < l < positions.len() ==> positions[k] < positions[l]
    &&& forall|j: int|
        0 <= j < configs.len() && picks(selector, groups, configs[j]) ==> exists|k: int|
            0 <= k < positions.len() && #[trigger] positions[k] == j
}

proof fn lemma_resolved_positions(
    selector: TargetSelectorView,
    configs: Seq<ObsInstanceConfigView>,
    groups: Seq<TargetGroupView>,
)
    ensures
        locates_resolved(selector, configs, groups, resolved_positions(selector, configs, groups)),
    decreases configs.len(),
{
    if configs.len() > 0 {
        let prev = configs.drop_last();
        lemma_resolved_positions(selector, prev, groups);
        let p0 = resolved_positions(selector, prev, groups);
        let p = resolved_positions(selector, configs, groups);
        assert forall|j: int|
            0 <= j < configs.len() && picks(selector, groups, configs[j]) implies exists|k: int|
            0 <= k < p.len() && #[trigger] p[k] == j by {
            if j < configs.len() - 1 {
                assert(configs[j] == prev[j]);
                let k = choose|k: int| 0 <= k < p0.len() && #[trigger] p0[k] == j;
                assert(p[k] == j);
            } else {
                assert(p[p.len() - 1] == j);
            }
        }
    }
}

/// Resolving a selector lists exactly the picked instances, in configuration
/// order: each id comes from a distinct configured instance that the selector
/// picks, positions strictly increase, and no picked instance is left out.
pub proof fn targets_follow_configuration_order(
    selector: TargetSelectorView,
    configs: Seq<ObsInstanceConfigView>,
    groups: Seq<TargetGroupView>,
)
    ensures
        exists|positions: Seq<int>| #[trigger] locates_resolved(selector, configs, groups, positions),
{
    lemma_resolved_positions(selector, configs, groups);
}

/// With distinct configured ids, no instance is targeted twice.
pub proof fn resolved_targets_are_distinct(
    selector: TargetSelectorView,
    configs: Seq<ObsInstanceConfigView>,
    groups: Seq<TargetGroupView>,
)
    requires
        config_ids(configs).no_duplicates(),
    ensures
        resolved(selector, configs, groups).no_duplicates(),
{
    lemma_resolved_positions(selector, configs, groups);
    let r = resolved(selector, configs, groups);
    let p = resolved_positions(selector, configs, groups);
    assert forall|k: int, l: int| 0 <= k < r.len() && 0 <= l < r.len() && k != l implies r[k]
        != r[l] by {
        assert(0 <= p[k] < configs.len() && 0 <= p[l] < configs.len());
        assert(p[k] != p[l]);
        assert(config_ids(configs)[p[k]] == r[k]);
        assert(config_ids(configs)[p[l]] == r[l]);
    }
}

/// `All` never targets a disabled instance.
pub proof fn select_all_skips_disabled(
    configs: Seq<ObsInstanceConfigView>,
    groups: Seq<TargetGroupView>,
    id: Seq<char>,
)
    requires
        resolved(TargetSelectorView::All, configs, groups).contains(id),
    ensures
        exists|j: int| 0 <= j < configs.len() && configs[j].id == id && configs[j].enabled,
{
    lemma_resolved_positions(TargetSelectorView::All, configs, groups);
    let r = resolved(TargetSelectorView::All, configs, groups);
    let p = resolved_positions(TargetSelectorView::All, configs, groups);
    let k = choose|k: int| 0 <= k < r.len() && r[k] == id;
    assert(0 <= p[k] < configs.len());
    assert(configs[p[k]].id == id && configs[p[k]].enabled);
}

/// Selecting instances by id depends only on which ids are named, not on their
/// order or repetition.
pub proof fn instance_selection_ignores_order_and_repeats(
    ids1: Seq<Seq<char>>,
    ids2: Seq<Seq<char>>,
    configs: Seq<ObsInstanceConfigView>,
    groups: Seq<TargetGroupView>,
)
    requires
        ids1.to_set() == ids2.to_set(),
    ensures
        resolved(TargetSelectorView::Instances { ids: ids1 }, configs, groups) == resolved(
            TargetSelectorView::Instances { ids: ids2 },
            configs,
            groups,
        ),
    decreases configs.len(),
{
    if configs.len() > 0 {
        instance_selection_ignores_order_and_repeats(ids1, ids2, configs.drop_last(), groups);
        let id = configs.last().id;
        assert(ids1.contains(id) == ids1.to_set().contains(id));
        assert(ids2.contains(id) == ids2.to_set().contains(id));
    }
}

pub fn same_text(a: &String, b: &String) -> (same: bool)
    ensures
        same == (a@ == b@),
{
    *a == *b
}

/// A copy of a list of strings.
pub fn copy_texts(list: &Vec<String>) -> (copy: Vec<String>)
    ensures
        copy@ == list@,
{
    let mut copy: Vec<String> = Vec::new();
    let mut i: usize = 0;
    while i < list.len()
        invariant
            i <= list.len(),
            copy@ == list@.take(i as int),
        decreases list.len() - i,
    {
        copy.push(list[i].clone());
        assert(list@.take(i + 1) =~= list@.take(i as int).push(list@[i as int]));
        i = i + 1;
    }
    assert(list@.take(list.len() as int) =~= list@);
    copy
}

/// Whether `needle` occurs in `list`.
pub fn list_contains(list: &Vec<String>, needle: &String) -> (found: bool)
    ensures
        found == list.deep_view().contains(needle@),
{
    let ghost view = list.deep_view();
    let mut i: usize = 0;
    while i < list.len()
        invariant
            i <= list.len(),
            view == list.deep_view(),
            forall|j: int| 0 <= j < i ==> view[j] != needle@,
        decreases list.len() - i,
    {
        if same_text(&list[i], needle) {
            assert(view[i as int] == needle@);
            return true;
        }
        i = i + 1;
    }
    proof {
        if view.contains(needle@) {
            let k = choose|k: int| 0 <= k < view.len() && view[k] == needle@;
            assert(view[k] != needle@);
        }
    }
    false
}

proof fn lemma_group_members_index(groups: Seq<TargetGroupView>, id: Seq<char>, i: int)
    requires
        0 <= i < groups.len(),
        groups[i].id == id,
        forall|j: int| 0 <= j < i ==> groups[j].id != id,
    ensures
        group_members(groups, id) == Some(groups[i].members),
    decreases i,
{
    if i > 0 {
        let rest = groups.drop_first();
        assert forall|j: int| 0 <= j < i - 1 implies rest[j].id != id by {
            assert(rest[j] == groups[j + 1]);
        }
        lemma_group_members_index(rest, id, i - 1);
    }
}

proof fn lemma_group_members_absent(groups: Seq<TargetGroupView>, id: Seq<char>)
    requires
        forall|j: int| 0 <= j < groups.len() ==> groups[j].id != id,
    ensures
        group_members(groups, id) is None,
    decreases groups.len(),
{
    if groups.len() > 0 {
        let rest = groups.drop_first();
        assert forall|j: int| 0 <= j < rest.len() implies rest[j].id != id by {
            assert(rest[j] == groups[j + 1]);
        }
        lemma_group_members_absent(rest, id);
    }
}

/// The members of the first group with the given id.
fn find_group_members<'a>(groups: &'a Vec<TargetGroup>, id: &String) -> (members: Option<
    &'a Vec<String>,
>)
    ensures
        match members {
            Some(m) => group_members(groups_view(groups@), id@) == Some(m.deep_view()),
            None => group_members(groups_view(groups@), id@) is None,
        },
{
    let ghost gv = groups_view(groups@);
    let mut i: usize = 0;
    while i < groups.len()
        invariant
            i <= groups.len(),
            gv == groups_view(groups@),
            forall|j: int| 0 <= j < i ==> gv[j].id != id@,
        decreases groups.len() - i,
    {
        if same_text(&groups[i].id, id) {
            proof {
                lemma_group_members_index(gv, id@, i as int);
            }
            return Some(&groups[i].members);
        }
        i = i + 1;
    }
    proof {
        lemma_group_members_absent(gv, id@);
    }
    None
}

/// Resolve a selector against the configured instances and groups.
///
/// The result lists the picked instance ids in configuration order: `All` picks
/// every enabled instance, `Group` the configured members of the first group with
/// that id, `Instances` the configured instances named in the list.
pub fn resolve_targets(
    selector: &TargetSelector,
    configs: &Vec<ObsInstanceConfig>,
    groups: &Vec<TargetGroup>,
) -> (ids: Vec<String>)
    ensures
        ids.deep_view() == resolved(selector@, configs_view(configs@), groups_view(groups@)),
{
    let ghost cv = configs_view(configs@);
    let ghost gv = groups_view(groups@);
    let group: Option<&Vec<String>> = match selector {
        TargetSelector::Group { id } => find_group_members(groups, id),
        _ => None,
    };
    let mut ids: Vec<String> = Vec::new();
    let mut i: usize = 0;
    while i < configs.len()
        invariant
            i <= configs.len(),
            cv == configs_view(configs@),
            gv == groups_view(groups@),
            match selector@ {
                TargetSelectorView::Group { id } => match group {
                    Some(m) => group_members(gv, id) == Some(m.deep_view()),
                    None => group_members(gv, id) is None,
                },
                _ => true,
            },
            ids.deep_view() == resolved(selector@, cv.take(i as int), gv),
        decreases configs.len() - i,
    {
        let config = &configs[i];
        let pick = match selector {
            TargetSelector::All => config.enabled,
            TargetSelector::Group { .. } => match group {
                Some(members) => list_contains(members, &config.id),
                None => false,
            },
            TargetSelector::Instances { ids: wanted } => list_contains(wanted, &config.id),
        };
        assert(cv.take(i + 1).drop_last() =~= cv.take(i as int));
        assert(cv.take(i + 1).last() == config@);
        assert(pick == picks(selector@, gv, config@));
        if pick {
            ids.push(config.id.clone());
        }
        i = i + 1;
    }
    assert(cv.take(configs.len() as int) =~= cv);
    ids
}

impl ObsInstanceConfig {
    /// What a live socket depends on; a change here forces a new connection.
    pub fn endpoint_key(&self) -> (key: Endpoint)
        ensures
            key@ == (self.host@, self.port, self.password@),
    {
        Endpoint { host: self.host.clone(), port: self.port, password: self.password.clone() }
    }

    /// The password to authenticate with; an empty password means none.
    pub fn password_opt(&self) -> (password: Option<&str>)
        ensures
            match password {
                Some(p) => p@ == self.password@ && self.password@.len() > 0,
                None => self.password@.len() == 0,
            },
    {
        if self.password.as_str().is_empty() {
            None
        } else {
            Some(self.password.as_str())
        }
    }
}

impl Endpoint {
    pub fn same_as(&self, other: &Endpoint) -> (same: bool)
        ensures
            same == (self@ == other@),
    {
        same_text(&self.host, &other.host) && self.port == other.port && same_text(
            &self.password,
            &other.password,
        )
    }
}

} // verus!
