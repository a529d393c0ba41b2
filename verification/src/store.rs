//! The view model: what the panel shows of lights, groups and scenes.
//!
//! The store is replaced as a whole by each successful fetch and changed in
//! place by local interaction, before any answer from the bridge arrives.

use vstd::prelude::*;
use crate::color::{hsv_to_rgb, display_color, Rgb};
use crate::sorting::{
    bytes_lt, index_seq, key_of_name, key_seq, lemma_bytes_lt_asymmetric,
    lemma_stable_order_is_complete, lemma_stable_order_is_display_order, name_key, precedes,
    sort_order, stable_order,
};

verus! {

/// A light as the panel shows it.
#[derive(Debug, PartialEq, Eq)]
pub struct LightVm {
    pub id: String,
    pub name: String,
    pub on: Option<bool>,
    pub brightness: Option<u8>,
    pub color: Option<Rgb>,
}

/// A group as the panel shows it. Brightness and colour mirror those of the
/// group's first member light.
#[derive(Debug, PartialEq, Eq)]
pub struct GroupVm {
    pub id: String,
    pub name: String,
    pub on: Option<bool>,
    pub brightness: Option<u8>,
    pub color: Option<Rgb>,
    pub lights: Vec<String>,
}

/// A scene as the panel shows it, with the id of the group it acts on.
#[derive(Debug, PartialEq, Eq)]
pub struct SceneVm {
    pub id: String,
    pub name: String,
    pub group: String,
}

/// The mathematical value of a [`LightVm`].
pub struct LightView {
    pub id: Seq<char>,
    pub name: Seq<char>,
    pub on: Option<bool>,
    pub brightness: Option<u8>,
    pub color: Option<Rgb>,
}

/// The mathematical value of a [`GroupVm`].
pub struct GroupView {
    pub id: Seq<char>,
    pub name: Seq<char>,
    pub on: Option<bool>,
    pub brightness: Option<u8>,
    pub color: Option<Rgb>,
    pub lights: Seq<Seq<char>>,
}

/// The mathematical value of a [`SceneVm`].
pub struct SceneView {
    pub id: Seq<char>,
    pub name: Seq<char>,
    pub group: Seq<char>,
}

/// A list of texts as a sequence of character sequences.
pub open spec fn text_seq(texts: Seq<String>) -> Seq<Seq<char>> {
    texts.map_values(|t: String| t@)
}

impl View for LightVm {
    type V = LightView;

    open spec fn view(&self) -> LightView {
        LightView {
            id: self.id@,
            name: self.name@,
            on: self.on,
            brightness: self.brightness,
            color: self.color,
        }
    }
}

impl View for GroupVm {
    type V = GroupView;

    open spec fn view(&self) -> GroupView {
        GroupView {
            id: self.id@,
            name: self.name@,
            on: self.on,
            brightness: self.brightness,
            color: self.color,
            lights: text_seq(self.lights@),
        }
    }
}

impl View for SceneVm {
    type V = SceneView;

    open spec fn view(&self) -> SceneView {
        SceneView { id: self.id@, name: self.name@, group: self.group@ }
    }
}

/// The values of a list of lights.
pub open spec fn light_views(lights: Seq<LightVm>) -> Seq<LightView> {
    lights.map_values(|l: LightVm| l@)
}

/// The values of a list of groups.
pub open spec fn group_views(groups: Seq<GroupVm>) -> Seq<GroupView> {
    groups.map_values(|g: GroupVm| g@)
}

/// The values of a list of scenes.
pub open spec fn scene_views(scenes: Seq<SceneVm>) -> Seq<SceneView> {
    scenes.map_values(|s: SceneVm| s@)
}

/// The ids of the lights, in the order in which they are shown.
pub open spec fn light_ids(lights: Seq<LightView>) -> Seq<Seq<char>> {
    lights.map_values(|l: LightView| l.id)
}

/// The ids of the groups, in the order in which they are shown.
pub open spec fn group_ids(groups: Seq<GroupView>) -> Seq<Seq<char>> {
    groups.map_values(|g: GroupView| g.id)
}

/// The ids of the scenes, in the order in which they are shown.
pub open spec fn scene_ids(scenes: Seq<SceneView>) -> Seq<Seq<char>> {
    scenes.map_values(|s: SceneView| s.id)
}

/// Whether `p` is the first position at which `id` stands in `ids`. An id
/// names the first resource that carries it.
pub open spec fn is_first_index(ids: Seq<Seq<char>>, id: Seq<char>, p: int) -> bool {
    &&& 0 <= p < ids.len()
    &&& ids[p] == id
    &&& forall|j: int| 0 <= j < p ==> ids[j] != id
}

/// The first position at which `id` stands in `ids`, where it stands there
/// at all.
pub open spec fn first_index(ids: Seq<Seq<char>>, id: Seq<char>) -> int {
    choose|p: int| is_first_index(ids, id, p)
}

/// There is one first position only.
pub proof fn lemma_first_index_is_unique(ids: Seq<Seq<char>>, id: Seq<char>, p: int)
    requires
        is_first_index(ids, id, p),
    ensures
        first_index(ids, id) == p,
        ids.contains(id),
{
    let q = first_index(ids, id);
    assert(is_first_index(ids, id, q));
    if q < p {
        assert(ids[q] != id);
    }
    if p < q {
        assert(ids[p] != id);
    }
}

/// An id that occurs has a first position.
pub proof fn lemma_first_index_exists(ids: Seq<Seq<char>>, id: Seq<char>)
    requires
        ids.contains(id),
    ensures
        is_first_index(ids, id, first_index(ids, id)),
    decreases ids.len(),
{
    let k = choose|k: int| 0 <= k < ids.len() && ids[k] == id;
    if exists|j: int| 0 <= j < k && ids[j] == id {
        let j = choose|j: int| 0 <= j < k && ids[j] == id;
        let front = ids.take(k);
        assert(front[j] == id);
        lemma_first_index_exists(front, id);
        let p = first_index(front, id);
        assert(ids[p] == front[p]);
        assert forall|i: int| 0 <= i < p implies ids[i] != id by {
            assert(front[i] == ids[i]);
        }
        assert(is_first_index(ids, id, p));
    } else {
        assert(is_first_index(ids, id, k));
    }
}

/// The position of the first text of `ids` that equals `id`.
pub fn find_id(ids: &Vec<String>, id: &String) -> (found: Option<usize>)
    ensures
        match found {
            Some(p) => is_first_index(text_seq(ids@), id@, p as int),
            None => !text_seq(ids@).contains(id@),
        },
{
    let mut i: usize = 0;
    while i < ids.len()
        invariant
            i <= ids.len(),
            forall|j: int| 0 <= j < i ==> text_seq(ids@)[j] != id@,
        decreases ids.len() - i,
    {
        if ids[i] == *id {
            return Some(i);
        }
        i = i + 1;
    }
    None
}

/// The position of the light that `id` names.
pub fn find_light(lights: &Vec<LightVm>, id: &String) -> (found: Option<usize>)
    ensures
        match found {
            Some(p) => is_first_index(light_ids(light_views(lights@)), id@, p as int),
            None => !light_ids(light_views(lights@)).contains(id@),
        },
{
    let mut i: usize = 0;
    while i < lights.len()
        invariant
            i <= lights.len(),
            forall|j: int| 0 <= j < i ==> light_ids(light_views(lights@))[j] != id@,
        decreases lights.len() - i,
    {
        if lights[i].id == *id {
            return Some(i);
        }
        i = i + 1;
    }
    None
}

/// The position of the group that `id` names.
pub fn find_group(groups: &Vec<GroupVm>, id: &String) -> (found: Option<usize>)
    ensures
        match found {
            Some(p) => is_first_index(group_ids(group_views(groups@)), id@, p as int),
            None => !group_ids(group_views(groups@)).contains(id@),
        },
{
    let mut i: usize = 0;
    while i < groups.len()
        invariant
            i <= groups.len(),
            forall|j: int| 0 <= j < i ==> group_ids(group_views(groups@))[j] != id@,
        decreases groups.len() - i,
    {
        if groups[i].id == *id {
            return Some(i);
        }
        i = i + 1;
    }
    None
}

/// The position of the scene that `id` names.
pub fn find_scene(scenes: &Vec<SceneVm>, id: &String) -> (found: Option<usize>)
    ensures
        match found {
            Some(p) => is_first_index(scene_ids(scene_views(scenes@)), id@, p as int),
            None => !scene_ids(scene_views(scenes@)).contains(id@),
        },
{
    let mut i: usize = 0;
    while i < scenes.len()
        invariant
            i <= scenes.len(),
            forall|j: int| 0 <= j < i ==> scene_ids(scene_views(scenes@))[j] != id@,
        decreases scenes.len() - i,
    {
        if scenes[i].id == *id {
            return Some(i);
        }
        i = i + 1;
    }
    None
}

/// One change to what is shown of a light or a group.
#[derive(Clone, Copy, Debug)]
pub enum Change {
    On(bool),
    Brightness(u8),
    Color(Rgb),
}

/// A light after a change.
pub open spec fn change_light(light: LightView, change: Change) -> LightView {
    match change {
        Change::On(on) => LightView { on: Some(on), ..light },
        Change::Brightness(level) => LightView { brightness: Some(level), ..light },
        Change::Color(color) => LightView { color: Some(color), ..light },
    }
}

/// A group after a change to the group itself.
pub open spec fn change_group(group: GroupView, change: Change) -> GroupView {
    match change {
        Change::On(on) => GroupView { on: Some(on), ..group },
        Change::Brightness(level) => GroupView { brightness: Some(level), ..group },
        Change::Color(color) => GroupView { color: Some(color), ..group },
    }
}

/// Whether a group takes a change. A group whose brightness is unknown keeps
/// it unknown.
pub open spec fn group_accepts(group: GroupView, change: Change) -> bool {
    change is Brightness ==> group.brightness is Some
}

/// The lights after a change to the one light that `id` names.
pub open spec fn lights_with_change(lights: Seq<LightView>, id: Seq<char>, change: Change) -> Seq<
    LightView,
> {
    Seq::new(
        lights.len(),
        |k: int|
            if is_first_index(light_ids(lights), id, k) {
                change_light(lights[k], change)
            } else {
                lights[k]
            },
    )
}

/// The lights after a change to every light that one of `members` names.
pub open spec fn fan_out(lights: Seq<LightView>, members: Seq<Seq<char>>, change: Change) -> Seq<
    LightView,
> {
    Seq::new(
        lights.len(),
        |k: int|
            if members.contains(lights[k].id) && is_first_index(
                light_ids(lights),
                lights[k].id,
                k,
            ) {
                change_light(lights[k], change)
            } else {
                lights[k]
            },
    )
}

/// A change to a light that is not shown changes nothing.
pub proof fn lemma_change_of_absent_light(lights: Seq<LightView>, id: Seq<char>, change: Change)
    requires
        !light_ids(lights).contains(id),
    ensures
        lights_with_change(lights, id, change) == lights,
{
    assert forall|k: int| 0 <= k < lights.len() implies !is_first_index(light_ids(lights), id, k) by {
        if is_first_index(light_ids(lights), id, k) {
            assert(light_ids(lights)[k] == id);
        }
    }
    assert(lights_with_change(lights, id, change) =~= lights);
}

/// Applies a change to the light at position `p`.
fn change_light_at(lights: &mut Vec<LightVm>, p: usize, change: Change)
    requires
        p < old(lights).len(),
    ensures
        light_views(final(lights)@) == light_views(old(lights)@).update(
            p as int,
            change_light(old(lights)[p as int]@, change),
        ),
{
    match change {
        Change::On(on) => {
            lights[p].on = Some(on);
        },
        Change::Brightness(level) => {
            lights[p].brightness = Some(level);
        },
        Change::Color(color) => {
            lights[p].color = Some(color);
        },
    }
    assert(light_views(lights@) =~= light_views(old(lights)@).update(
        p as int,
        change_light(old(lights)[p as int]@, change),
    ));
}

/// Applies a change to the group at position `p`.
fn change_group_at(groups: &mut Vec<GroupVm>, p: usize, change: Change)
    requires
        p < old(groups).len(),
    ensures
        group_views(final(groups)@) == group_views(old(groups)@).update(
            p as int,
            change_group(old(groups)[p as int]@, change),
        ),
{
    match change {
        Change::On(on) => {
            groups[p].on = Some(on);
        },
        Change::Brightness(level) => {
            groups[p].brightness = Some(level);
        },
        Change::Color(color) => {
            groups[p].color = Some(color);
        },
    }
    assert(group_views(groups@) =~= group_views(old(groups)@).update(
        p as int,
        change_group(old(groups)[p as int]@, change),
    ));
}

/// Applies a change to the light that `id` names, and says whether there is
/// such a light.
pub fn change_light_by_id(lights: &mut Vec<LightVm>, id: &String, change: Change) -> (found: bool)
    ensures
        found == light_ids(light_views(old(lights)@)).contains(id@),
        light_views(final(lights)@) == lights_with_change(light_views(old(lights)@), id@, change),
{
    let ghost before = light_views(lights@);
    match find_light(lights, id) {
        Some(p) => {
            change_light_at(lights, p, change);
            proof {
                lemma_first_index_is_unique(light_ids(before), id@, p as int);
                assert forall|k: int| 0 <= k < before.len() implies #[trigger] light_views(
                    lights@,
                )[k] == lights_with_change(before, id@, change)[k] by {
                    if is_first_index(light_ids(before), id@, k) {
                        lemma_first_index_is_unique(light_ids(before), id@, k);
                    }
                }
                assert(light_views(lights@) =~= lights_with_change(before, id@, change));
            }
            true
        },
        None => {
            proof {
                assert forall|k: int| 0 <= k < before.len() implies !is_first_index(
                    light_ids(before),
                    id@,
                    k,
                ) by {
                    if is_first_index(light_ids(before), id@, k) {
                        assert(light_ids(before)[k] == id@);
                    }
                }
                assert(light_views(lights@) =~= lights_with_change(before, id@, change));
            }
            false
        },
    }
}

/// Applies a change to every light that one of `members` names.
pub fn change_member_lights(lights: &mut Vec<LightVm>, members: &Vec<String>, change: Change)
    ensures
        light_views(final(lights)@) == fan_out(
            light_views(old(lights)@),
            text_seq(members@),
            change,
        ),
{
    let ghost before = light_views(lights@);
    let ghost names = text_seq(members@);
    let mut i: usize = 0;
    assert(light_views(lights@) =~= fan_out(before, names.take(0), change));
    while i < members.len()
        invariant
            i <= members.len(),
            names == text_seq(members@),
            before.len() == lights.len(),
            light_views(lights@) == fan_out(before, names.take(i as int), change),
        decreases members.len() - i,
    {
        let ghost done = names.take(i as int);
        let ghost next = names.take(i + 1);
        let ghost current = light_views(lights@);
        let ghost member = names[i as int];
        proof {
            assert(next =~= done.push(member));
            assert(light_ids(current) =~= light_ids(before));
        }
        match find_light(lights, &members[i]) {
            Some(p) => {
                change_light_at(lights, p, change);
                proof {
                    assert(next[i as int] == member);
                    assert forall|k: int| 0 <= k < before.len() implies #[trigger] light_views(
                        lights@,
                    )[k] == fan_out(before, next, change)[k] by {
                        let first = is_first_index(light_ids(before), before[k].id, k);
                        if k == p {
                            assert(light_ids(before)[k] == member);
                            assert(next.contains(before[k].id));
                        } else {
                            if first && before[k].id == member {
                                lemma_first_index_is_unique(light_ids(before), member, k);
                                lemma_first_index_is_unique(light_ids(before), member, p as int);
                            }
                            if done.contains(before[k].id) {
                                let j = choose|j: int|
                                    0 <= j < done.len() && done[j] == before[k].id;
                                assert(next[j] == before[k].id);
                            }
                            if next.contains(before[k].id) && before[k].id != member {
                                let j = choose|j: int|
                                    0 <= j < next.len() && next[j] == before[k].id;
                                assert(done[j] == before[k].id);
                            }
                        }
                    }
                    assert(light_views(lights@) =~= fan_out(before, next, change));
                }
            },
            None => {
                proof {
                    assert forall|k: int| 0 <= k < before.len() implies #[trigger] light_views(
                        lights@,
                    )[k] == fan_out(before, next, change)[k] by {
                        assert(light_ids(before)[k] == before[k].id);
                        if done.contains(before[k].id) {
                            let j = choose|j: int| 0 <= j < done.len() && done[j] == before[k].id;
                            assert(next[j] == before[k].id);
                        }
                        if next.contains(before[k].id) {
                            let j = choose|j: int| 0 <= j < next.len() && next[j] == before[k].id;
                            if j < done.len() {
                                assert(done[j] == before[k].id);
                            }
                        }
                    }
                    assert(light_views(lights@) =~= fan_out(before, next, change));
                }
            },
        }
        i = i + 1;
    }
    assert(names.take(members.len() as int) =~= names);
}

/// A light as the bridge reports it.
#[derive(Debug, PartialEq, Eq)]
pub struct FetchedLight {
    pub id: String,
    pub name: String,
    pub on: Option<bool>,
    pub brightness: Option<u8>,
    pub hue: Option<u16>,
    pub saturation: Option<u8>,
}

/// A group as the bridge reports it. `any_on` is absent where the bridge
/// reports no state for the group.
#[derive(Debug, PartialEq, Eq)]
pub struct FetchedGroup {
    pub id: String,
    pub name: String,
    pub any_on: Option<bool>,
    pub lights: Vec<String>,
}

/// A scene as the bridge reports it.
#[derive(Debug, PartialEq, Eq)]
pub struct FetchedScene {
    pub id: String,
    pub name: String,
    pub group: Option<String>,
}

/// The mathematical value of a [`FetchedLight`].
pub struct FetchedLightView {
    pub id: Seq<char>,
    pub name: Seq<char>,
    pub on: Option<bool>,
    pub brightness: Option<u8>,
    pub hue: Option<u16>,
    pub saturation: Option<u8>,
}

/// The mathematical value of a [`FetchedGroup`].
pub struct FetchedGroupView {
    pub id: Seq<char>,
    pub name: Seq<char>,
    pub any_on: Option<bool>,
    pub lights: Seq<Seq<char>>,
}

/// The mathematical value of a [`FetchedScene`].
pub struct FetchedSceneView {
    pub id: Seq<char>,
    pub name: Seq<char>,
    pub group: Option<Seq<char>>,
}

impl View for FetchedLight {
    type V = FetchedLightView;

    open spec fn view(&self) -> FetchedLightView {
        FetchedLightView {
            id: self.id@,
            name: self.name@,
            on: self.on,
            brightness: self.brightness,
            hue: self.hue,
            saturation: self.saturation,
        }
    }
}

impl View for FetchedGroup {
    type V = FetchedGroupView;

    open spec fn view(&self) -> FetchedGroupView {
        FetchedGroupView {
            id: self.id@,
            name: self.name@,
            any_on: self.any_on,
            lights: text_seq(self.lights@),
        }
    }
}

impl View for FetchedScene {
    type V = FetchedSceneView;

    open spec fn view(&self) -> FetchedSceneView {
        FetchedSceneView {
            id: self.id@,
            name: self.name@,
            group: match self.group {
                Some(g) => Some(g@),
                None => None,
            },
        }
    }
}

/// The values of a list of reported lights.
pub open spec fn fetched_light_views(fetched: Seq<FetchedLight>) -> Seq<FetchedLightView> {
    fetched.map_values(|f: FetchedLight| f@)
}

/// The values of a list of reported groups.
pub open spec fn fetched_group_views(fetched: Seq<FetchedGroup>) -> Seq<FetchedGroupView> {
    fetched.map_values(|f: FetchedGroup| f@)
}

/// The values of a list of reported scenes.
pub open spec fn fetched_scene_views(fetched: Seq<FetchedScene>) -> Seq<FetchedSceneView> {
    fetched.map_values(|f: FetchedScene| f@)
}

/// The items picked in the given order.
pub open spec fn arranged<T>(items: Seq<T>, order: Seq<int>) -> Seq<T> {
    Seq::new(order.len(), |k: int| items[order[k]])
}

/// What the panel shows of a reported light.
pub open spec fn light_of(fetched: FetchedLightView) -> LightView {
    LightView {
        id: fetched.id,
        name: fetched.name,
        on: fetched.on,
        brightness: fetched.brightness,
        color: Some(display_color(fetched.hue, fetched.saturation, fetched.brightness)),
    }
}

/// The light that `id` names, if there is one.
pub open spec fn light_named(lights: Seq<LightView>, id: Seq<char>) -> Option<LightView> {
    if light_ids(lights).contains(id) {
        Some(lights[first_index(light_ids(lights), id)])
    } else {
        None
    }
}

/// The light that a group mirrors: the one that its first member id names.
pub open spec fn mirrored_light(lights: Seq<LightView>, members: Seq<Seq<char>>) -> Option<
    LightView,
> {
    if members.len() > 0 {
        light_named(lights, members[0])
    } else {
        None
    }
}

/// The on-state of the light that `id` names, where it is known.
pub open spec fn known_on(lights: Seq<LightView>, id: Seq<char>) -> Option<bool> {
    match light_named(lights, id) {
        Some(light) => light.on,
        None => None,
    }
}

/// The on-state of a group for which the bridge reports none: on if a member
/// light is known to be on, off if some are known and none of them is on,
/// and unknown if no member light has a known state.
pub open spec fn members_on(lights: Seq<LightView>, members: Seq<Seq<char>>) -> Option<bool> {
    if exists|j: int| 0 <= j < members.len() && known_on(lights, #[trigger] members[j]) == Some(true) {
        Some(true)
    } else if exists|j: int| 0 <= j < members.len() && known_on(lights, #[trigger] members[j]) is Some {
        Some(false)
    } else {
        None
    }
}

/// What the panel shows of a reported group, given the lights it shows.
pub open spec fn group_of(fetched: FetchedGroupView, lights: Seq<LightView>) -> GroupView {
    let mirrored = mirrored_light(lights, fetched.lights);
    GroupView {
        id: fetched.id,
        name: fetched.name,
        on: match fetched.any_on {
            Some(on) => Some(on),
            None => members_on(lights, fetched.lights),
        },
        brightness: match mirrored {
            Some(light) => light.brightness,
            None => None,
        },
        color: match mirrored {
            Some(light) => light.color,
            None => Some(Rgb { red: 0, green: 0, blue: 0 }),
        },
        lights: fetched.lights,
    }
}

/// What the panel shows of a reported scene. A scene without a group acts on
/// the group with the empty id.
pub open spec fn scene_of(fetched: FetchedSceneView) -> SceneView {
    SceneView {
        id: fetched.id,
        name: fetched.name,
        group: match fetched.group {
            Some(g) => g,
            None => Seq::empty(),
        },
    }
}

/// The keys by which reported lights are ordered.
pub open spec fn light_name_keys(fetched: Seq<FetchedLightView>) -> Seq<Seq<u8>> {
    fetched.map_values(|f: FetchedLightView| name_key(f.name))
}

/// The keys by which reported groups are ordered.
pub open spec fn group_name_keys(fetched: Seq<FetchedGroupView>) -> Seq<Seq<u8>> {
    fetched.map_values(|f: FetchedGroupView| name_key(f.name))
}

/// The keys by which reported scenes are ordered.
pub open spec fn scene_name_keys(fetched: Seq<FetchedSceneView>) -> Seq<Seq<u8>> {
    fetched.map_values(|f: FetchedSceneView| name_key(f.name))
}

/// The reported lights as the panel shows them, in display order.
pub open spec fn sorted_lights(fetched: Seq<FetchedLightView>) -> Seq<LightView> {
    arranged(
        fetched.map_values(|f: FetchedLightView| light_of(f)),
        stable_order(light_name_keys(fetched), fetched.len()),
    )
}

/// The reported groups as the panel shows them, in display order.
pub open spec fn sorted_groups(fetched: Seq<FetchedGroupView>, lights: Seq<LightView>) -> Seq<
    GroupView,
> {
    arranged(
        fetched.map_values(|f: FetchedGroupView| group_of(f, lights)),
        stable_order(group_name_keys(fetched), fetched.len()),
    )
}

/// The reported scenes as the panel shows them, in display order.
pub open spec fn sorted_scenes(fetched: Seq<FetchedSceneView>) -> Seq<SceneView> {
    arranged(
        fetched.map_values(|f: FetchedSceneView| scene_of(f)),
        stable_order(scene_name_keys(fetched), fetched.len()),
    )
}

/// A copy of a list of texts.
pub fn copy_texts(texts: &Vec<String>) -> (copy: Vec<String>)
    ensures
        text_seq(copy@) == text_seq(texts@),
{
    let mut copy: Vec<String> = Vec::new();
    let mut i: usize = 0;
    while i < texts.len()
        invariant
            i <= texts.len(),
            text_seq(copy@) == text_seq(texts@).take(i as int),
        decreases texts.len() - i,
    {
        let ghost before = text_seq(copy@);
        let text = texts[i].clone();
        copy.push(text);
        assert(text_seq(copy@) =~= before.push(text@));
        assert(text_seq(texts@).take(i + 1) =~= before.push(text_seq(texts@)[i as int]));
        i = i + 1;
    }
    assert(text_seq(texts@).take(texts.len() as int) =~= text_seq(texts@));
    copy
}

/// What the panel shows of a reported light.
pub fn light_from(fetched: &FetchedLight) -> (light: LightVm)
    ensures
        light@ == light_of(fetched@),
{
    LightVm {
        id: fetched.id.clone(),
        name: fetched.name.clone(),
        on: fetched.on,
        brightness: fetched.brightness,
        color: Some(hsv_to_rgb(fetched.hue, fetched.saturation, fetched.brightness)),
    }
}

/// What the panel shows of a reported scene.
pub fn scene_from(fetched: &FetchedScene) -> (scene: SceneVm)
    ensures
        scene@ == scene_of(fetched@),
{
    let group = match &fetched.group {
        Some(g) => g.clone(),
        None => String::new(),
    };
    SceneVm { id: fetched.id.clone(), name: fetched.name.clone(), group }
}

/// The on-state of a group for which the bridge reports none.
pub fn on_state_of_members(lights: &Vec<LightVm>, members: &Vec<String>) -> (on: Option<bool>)
    ensures
        on == members_on(light_views(lights@), text_seq(members@)),
{
    let ghost shown = light_views(lights@);
    let ghost names = text_seq(members@);
    let mut any_on: bool = false;
    let mut any_known: bool = false;
    let mut i: usize = 0;
    while i < members.len()
        invariant
            i <= members.len(),
            shown == light_views(lights@),
            names == text_seq(members@),
            any_on == (exists|j: int| 0 <= j < i && known_on(shown, #[trigger] names[j]) == Some(true)),
            any_known == (exists|j: int| 0 <= j < i && known_on(shown, #[trigger] names[j]) is Some),
        decreases members.len() - i,
    {
        let ghost state = known_on(shown, names[i as int]);
        let mut here: Option<bool> = None;
        match find_light(lights, &members[i]) {
            Some(p) => {
                proof {
                    lemma_first_index_is_unique(light_ids(shown), names[i as int], p as int);
                }
                here = lights[p].on;
            },
            None => {},
        }
        assert(here == state);
        match here {
            Some(true) => {
                any_on = true;
                any_known = true;
            },
            Some(false) => {
                any_known = true;
            },
            None => {},
        }
        i = i + 1;
    }
    if any_on {
        Some(true)
    } else if any_known {
        Some(false)
    } else {
        None
    }
}

/// What the panel shows of a reported group, given the lights it shows.
pub fn group_from(fetched: &FetchedGroup, lights: &Vec<LightVm>) -> (group: GroupVm)
    ensures
        group@ == group_of(fetched@, light_views(lights@)),
{
    let ghost shown = light_views(lights@);
    let mut brightness: Option<u8> = None;
    let mut color: Option<Rgb> = Some(Rgb::black());
    if fetched.lights.len() > 0 {
        match find_light(lights, &fetched.lights[0]) {
            Some(p) => {
                proof {
                    lemma_first_index_is_unique(
                        light_ids(shown),
                        text_seq(fetched.lights@)[0],
                        p as int,
                    );
                }
                brightness = lights[p].brightness;
                color = lights[p].color;
            },
            None => {},
        }
    }
    let on = match fetched.any_on {
        Some(on) => Some(on),
        None => on_state_of_members(lights, &fetched.lights),
    };
    GroupVm {
        id: fetched.id.clone(),
        name: fetched.name.clone(),
        on,
        brightness,
        color,
        lights: copy_texts(&fetched.lights),
    }
}

/// Everything the panel shows.
#[derive(Debug, PartialEq, Eq)]
pub struct ViewStore {
    pub lights: Vec<LightVm>,
    pub groups: Vec<GroupVm>,
    pub scenes: Vec<SceneVm>,
}

/// The mathematical value of a [`ViewStore`].
pub struct StoreView {
    pub lights: Seq<LightView>,
    pub groups: Seq<GroupView>,
    pub scenes: Seq<SceneView>,
}

impl View for ViewStore {
    type V = StoreView;

    open spec fn view(&self) -> StoreView {
        StoreView {
            lights: light_views(self.lights@),
            groups: group_views(self.groups@),
            scenes: scene_views(self.scenes@),
        }
    }
}

/// The store after a change to the light that `id` names.
pub open spec fn store_with_light_change(store: StoreView, id: Seq<char>, change: Change) -> StoreView {
    StoreView { lights: lights_with_change(store.lights, id, change), ..store }
}

/// The store after a change to the group that `id` names: the group takes
/// the change, and so does every light that one of its member ids names. A
/// group that does not take the change leaves the store as it is.
pub open spec fn store_with_group_change(store: StoreView, id: Seq<char>, change: Change) -> StoreView {
    let ids = group_ids(store.groups);
    let g = first_index(ids, id);
    if ids.contains(id) && group_accepts(store.groups[g], change) {
        StoreView {
            lights: fan_out(store.lights, store.groups[g].lights, change),
            groups: store.groups.update(g, change_group(store.groups[g], change)),
            scenes: store.scenes,
        }
    } else {
        store
    }
}

/// The group that the scene named by `id` acts on, if there is such a scene.
pub open spec fn scene_target(scenes: Seq<SceneView>, id: Seq<char>) -> Option<Seq<char>> {
    if scene_ids(scenes).contains(id) {
        Some(scenes[first_index(scene_ids(scenes), id)].group)
    } else {
        None
    }
}

/// A store that shows nothing.
pub open spec fn empty_store() -> StoreView {
    StoreView { lights: Seq::empty(), groups: Seq::empty(), scenes: Seq::empty() }
}

impl ViewStore {
    /// A store that shows nothing.
    pub fn new() -> (store: ViewStore)
        ensures
            store@ == empty_store(),
    {
        let store = ViewStore { lights: Vec::new(), groups: Vec::new(), scenes: Vec::new() };
        assert(store@.lights =~= Seq::empty());
        assert(store@.groups =~= Seq::empty());
        assert(store@.scenes =~= Seq::empty());
        store
    }

    /// Forgets everything shown.
    pub fn clear(&mut self)
        ensures
            final(self)@ == empty_store(),
    {
        self.lights = Vec::new();
        self.groups = Vec::new();
        self.scenes = Vec::new();
        assert(self@.lights =~= Seq::empty());
        assert(self@.groups =~= Seq::empty());
        assert(self@.scenes =~= Seq::empty());
    }

    /// Replaces the lights by the reported ones, in display order.
    pub fn replace_lights(&mut self, fetched: &Vec<FetchedLight>)
        ensures
            final(self)@ == (StoreView {
                lights: sorted_lights(fetched_light_views(fetched@)),
                ..old(self)@
            }),
    {
        let ghost reported = fetched_light_views(fetched@);
        let mut keys: Vec<Vec<u8>> = Vec::new();
        let mut i: usize = 0;
        while i < fetched.len()
            invariant
                i <= fetched.len(),
                reported == fetched_light_views(fetched@),
                key_seq(keys@) == light_name_keys(reported).take(i as int),
            decreases fetched.len() - i,
        {
            let ghost before = key_seq(keys@);
            let key = key_of_name(&fetched[i].name);
            keys.push(key);
            assert(key_seq(keys@) =~= before.push(key@));
            assert(light_name_keys(reported).take(i + 1) =~= before.push(
                light_name_keys(reported)[i as int],
            ));
            i = i + 1;
        }
        assert(light_name_keys(reported).take(fetched.len() as int) =~= light_name_keys(reported));
        let order = sort_order(&keys);
        let ghost target = sorted_lights(reported);
        let mut lights: Vec<LightVm> = Vec::new();
        let mut k: usize = 0;
        while k < order.len()
            invariant
                k <= order.len(),
                order.len() == fetched.len(),
                reported == fetched_light_views(fetched@),
                target == sorted_lights(reported),
                index_seq(order@) == stable_order(light_name_keys(reported), fetched.len() as nat),
                forall|j: int| 0 <= j < order.len() ==> 0 <= #[trigger] index_seq(order@)[j] < fetched.len(),
                light_views(lights@) == target.take(k as int),
            decreases order.len() - k,
        {
            let ghost before = light_views(lights@);
            assert(index_seq(order@)[k as int] == order[k as int]);
            let light = light_from(&fetched[order[k]]);
            lights.push(light);
            assert(light_views(lights@) =~= before.push(light@));
            assert(target.take(k + 1) =~= before.push(target[k as int]));
            k = k + 1;
        }
        assert(target.take(order.len() as int) =~= target);
        self.lights = lights;
    }

    /// Replaces the groups by the reported ones, in display order. Each group
    /// mirrors brightness and colour of its first member among the lights
    /// shown at this moment.
    pub fn replace_groups(&mut self, fetched: &Vec<FetchedGroup>)
        ensures
            final(self)@ == (StoreView {
                groups: sorted_groups(fetched_group_views(fetched@), old(self)@.lights),
                ..old(self)@
            }),
    {
        let ghost reported = fetched_group_views(fetched@);
        let ghost shown = light_views(self.lights@);
        let mut keys: Vec<Vec<u8>> = Vec::new();
        let mut i: usize = 0;
        while i < fetched.len()
            invariant
                i <= fetched.len(),
                reported == fetched_group_views(fetched@),
                key_seq(keys@) == group_name_keys(reported).take(i as int),
            decreases fetched.len() - i,
        {
            let ghost before = key_seq(keys@);
            let key = key_of_name(&fetched[i].name);
            keys.push(key);
            assert(key_seq(keys@) =~= before.push(key@));
            assert(group_name_keys(reported).take(i + 1) =~= before.push(
                group_name_keys(reported)[i as int],
            ));
            i = i + 1;
        }
        assert(group_name_keys(reported).take(fetched.len() as int) =~= group_name_keys(reported));
        let order = sort_order(&keys);
        let ghost target = sorted_groups(reported, shown);
        let mut groups: Vec<GroupVm> = Vec::new();
        let mut k: usize = 0;
        while k < order.len()
            invariant
                k <= order.len(),
                order.len() == fetched.len(),
                reported == fetched_group_views(fetched@),
                shown == light_views(self.lights@),
                target == sorted_groups(reported, shown),
                index_seq(order@) == stable_order(group_name_keys(reported), fetched.len() as nat),
                forall|j: int| 0 <= j < order.len() ==> 0 <= #[trigger] index_seq(order@)[j] < fetched.len(),
                group_views(groups@) == target.take(k as int),
            decreases order.len() - k,
        {
            let ghost before = group_views(groups@);
            assert(index_seq(order@)[k as int] == order[k as int]);
            let group = group_from(&fetched[order[k]], &self.lights);
            groups.push(group);
            assert(group_views(groups@) =~= before.push(group@));
            assert(target.take(k + 1) =~= before.push(target[k as int]));
            k = k + 1;
        }
        assert(target.take(order.len() as int) =~= target);
        self.groups = groups;
    }

    /// Replaces the scenes by the reported ones, in display order.
    pub fn replace_scenes(&mut self, fetched: &Vec<FetchedScene>)
        ensures
            final(self)@ == (StoreView {
                scenes: sorted_scenes(fetched_scene_views(fetched@)),
                ..old(self)@
            }),
    {
        let ghost reported = fetched_scene_views(fetched@);
        let mut keys: Vec<Vec<u8>> = Vec::new();
        let mut i: usize = 0;
        while i < fetched.len()
            invariant
                i <= fetched.len(),
                reported == fetched_scene_views(fetched@),
                key_seq(keys@) == scene_name_keys(reported).take(i as int),
            decreases fetched.len() - i,
        {
            let ghost before = key_seq(keys@);
            let key = key_of_name(&fetched[i].name);
            keys.push(key);
            assert(key_seq(keys@) =~= before.push(key@));
            assert(scene_name_keys(reported).take(i + 1) =~= before.push(
                scene_name_keys(reported)[i as int],
            ));
            i = i + 1;
        }
        assert(scene_name_keys(reported).take(fetched.len() as int) =~= scene_name_keys(reported));
        let order = sort_order(&keys);
        let ghost target = sorted_scenes(reported);
        let mut scenes: Vec<SceneVm> = Vec::new();
        let mut k: usize = 0;
        while k < order.len()
            invariant
                k <= order.len(),
                order.len() == fetched.len(),
                reported == fetched_scene_views(fetched@),
                target == sorted_scenes(reported),
                index_seq(order@) == stable_order(scene_name_keys(reported), fetched.len() as nat),
                forall|j: int| 0 <= j < order.len() ==> 0 <= #[trigger] index_seq(order@)[j] < fetched.len(),
                scene_views(scenes@) == target.take(k as int),
            decreases order.len() - k,
        {
            let ghost before = scene_views(scenes@);
            assert(index_seq(order@)[k as int] == order[k as int]);
            let scene = scene_from(&fetched[order[k]]);
            scenes.push(scene);
            assert(scene_views(scenes@) =~= before.push(scene@));
            assert(target.take(k + 1) =~= before.push(target[k as int]));
            k = k + 1;
        }
        assert(target.take(order.len() as int) =~= target);
        self.scenes = scenes;
    }

    /// Applies a change to the light that `id` names, and says whether there
    /// is such a light.
    pub fn change_light(&mut self, id: &String, change: Change) -> (found: bool)
        ensures
            found == light_ids(old(self)@.lights).contains(id@),
            final(self)@ == store_with_light_change(old(self)@, id@, change),
    {
        change_light_by_id(&mut self.lights, id, change)
    }

    /// Applies a change to the group that `id` names and to its member
    /// lights, and says whether there is such a group.
    pub fn change_group(&mut self, id: &String, change: Change) -> (found: bool)
        ensures
            found == group_ids(old(self)@.groups).contains(id@),
            final(self)@ == store_with_group_change(old(self)@, id@, change),
    {
        match find_group(&self.groups, id) {
            Some(g) => {
                proof {
                    lemma_first_index_is_unique(group_ids(self@.groups), id@, g as int);
                }
                let accepts = match change {
                    Change::Brightness(_) => self.groups[g].brightness.is_some(),
                    _ => true,
                };
                if accepts {
                    change_member_lights(&mut self.lights, &self.groups[g].lights, change);
                    change_group_at(&mut self.groups, g, change);
                }
                true
            },
            None => false,
        }
    }

    /// Sets the on-state of the light that `id` names.
    pub fn toggle_light(&mut self, id: &String, on: bool) -> (found: bool)
        ensures
            found == light_ids(old(self)@.lights).contains(id@),
            final(self)@ == store_with_light_change(old(self)@, id@, Change::On(on)),
    {
        self.change_light(id, Change::On(on))
    }

    /// Sets the on-state of the group that `id` names and of each of its
    /// member lights.
    pub fn toggle_group(&mut self, id: &String, on: bool) -> (found: bool)
        ensures
            found == group_ids(old(self)@.groups).contains(id@),
            final(self)@ == store_with_group_change(old(self)@, id@, Change::On(on)),
    {
        self.change_group(id, Change::On(on))
    }

    /// The id of the group that the scene named by `id` acts on.
    pub fn scene_group(&self, id: &String) -> (group: Option<String>)
        ensures
            match group {
                Some(g) => scene_target(self@.scenes, id@) == Some(g@),
                None => scene_target(self@.scenes, id@) is None,
            },
    {
        match find_scene(&self.scenes, id) {
            Some(p) => {
                proof {
                    lemma_first_index_is_unique(scene_ids(self@.scenes), id@, p as int);
                }
                Some(self.scenes[p].group.clone())
            },
            None => None,
        }
    }
}

/// Whether names stand in ascending order, ignoring case.
pub open spec fn names_ascend(names: Seq<Seq<char>>) -> bool {
    forall|i: int, j: int|
        0 <= i < j < names.len() ==> !bytes_lt(
            name_key(#[trigger] names[j]),
            name_key(#[trigger] names[i]),
        )
}

/// In display order no key is above one that follows it.
proof fn lemma_display_order_ascends(keys: Seq<Seq<u8>>, i: int, j: int)
    requires
        0 <= i < j < keys.len(),
    ensures
        stable_order(keys, keys.len()).len() == keys.len(),
        0 <= stable_order(keys, keys.len())[i] < keys.len(),
        0 <= stable_order(keys, keys.len())[j] < keys.len(),
        !bytes_lt(
            keys[stable_order(keys, keys.len())[j]],
            keys[stable_order(keys, keys.len())[i]],
        ),
{
    let order = stable_order(keys, keys.len());
    lemma_stable_order_is_display_order(keys, keys.len());
    assert(precedes(keys, order[i], order[j]));
    lemma_bytes_lt_asymmetric(keys[order[i]], keys[order[j]]);
}

/// The lights that a fetch brings are shown in ascending order of their
/// names, ignoring case, and each of them is shown.
pub proof fn lemma_sorted_lights_ascend(fetched: Seq<FetchedLightView>)
    ensures
        sorted_lights(fetched).len() == fetched.len(),
        names_ascend(sorted_lights(fetched).map_values(|l: LightView| l.name)),
        forall|k: int|
            0 <= k < fetched.len() ==> sorted_lights(fetched).contains(
                light_of(#[trigger] fetched[k]),
            ),
{
    let keys = light_name_keys(fetched);
    let order = stable_order(keys, fetched.len());
    let shown = sorted_lights(fetched);
    let names = shown.map_values(|l: LightView| l.name);
    lemma_stable_order_is_display_order(keys, fetched.len());
    assert forall|i: int, j: int| 0 <= i < j < names.len() implies !bytes_lt(
        name_key(#[trigger] names[j]),
        name_key(#[trigger] names[i]),
    ) by {
        lemma_display_order_ascends(keys, i, j);
    }
    assert forall|k: int| 0 <= k < fetched.len() implies shown.contains(
        light_of(#[trigger] fetched[k]),
    ) by {
        lemma_stable_order_is_complete(keys, fetched.len(), k);
        let p = choose|p: int| 0 <= p < order.len() && order[p] == k;
        assert(shown[p] == light_of(fetched[k]));
    }
}

/// The groups that a fetch brings are shown in ascending order of their
/// names, ignoring case, and each of them is shown.
pub proof fn lemma_sorted_groups_ascend(fetched: Seq<FetchedGroupView>, lights: Seq<LightView>)
    ensures
        sorted_groups(fetched, lights).len() == fetched.len(),
        names_ascend(sorted_groups(fetched, lights).map_values(|g: GroupView| g.name)),
        forall|k: int|
            0 <= k < fetched.len() ==> sorted_groups(fetched, lights).contains(
                group_of(#[trigger] fetched[k], lights),
            ),
{
    let keys = group_name_keys(fetched);
    let order = stable_order(keys, fetched.len());
    let shown = sorted_groups(fetched, lights);
    let names = shown.map_values(|g: GroupView| g.name);
    lemma_stable_order_is_display_order(keys, fetched.len());
    assert forall|i: int, j: int| 0 <= i < j < names.len() implies !bytes_lt(
        name_key(#[trigger] names[j]),
        name_key(#[trigger] names[i]),
    ) by {
        lemma_display_order_ascends(keys, i, j);
    }
    assert forall|k: int| 0 <= k < fetched.len() implies shown.contains(
        group_of(#[trigger] fetched[k], lights),
    ) by {
        lemma_stable_order_is_complete(keys, fetched.len(), k);
        let p = choose|p: int| 0 <= p < order.len() && order[p] == k;
        assert(shown[p] == group_of(fetched[k], lights));
    }
}

/// The scenes that a fetch brings are shown in ascending order of their
/// names, ignoring case, and each of them is shown.
pub proof fn lemma_sorted_scenes_ascend(fetched: Seq<FetchedSceneView>)
    ensures
        sorted_scenes(fetched).len() == fetched.len(),
        names_ascend(sorted_scenes(fetched).map_values(|s: SceneView| s.name)),
        forall|k: int|
            0 <= k < fetched.len() ==> sorted_scenes(fetched).contains(
                scene_of(#[trigger] fetched[k]),
            ),
{
    let keys = scene_name_keys(fetched);
    let order = stable_order(keys, fetched.len());
    let shown = sorted_scenes(fetched);
    let names = shown.map_values(|s: SceneView| s.name);
    lemma_stable_order_is_display_order(keys, fetched.len());
    assert forall|i: int, j: int| 0 <= i < j < names.len() implies !bytes_lt(
        name_key(#[trigger] names[j]),
        name_key(#[trigger] names[i]),
    ) by {
        lemma_display_order_ascends(keys, i, j);
    }
    assert forall|k: int| 0 <= k < fetched.len() implies shown.contains(
        scene_of(#[trigger] fetched[k]),
    ) by {
        lemma_stable_order_is_complete(keys, fetched.len(), k);
        let p = choose|p: int| 0 <= p < order.len() && order[p] == k;
        assert(shown[p] == scene_of(fetched[k]));
    }
}

/// A change to the member lights of a group leaves the ids of the lights as
/// they are.
pub proof fn lemma_fan_out_keeps_ids(lights: Seq<LightView>, members: Seq<Seq<char>>, change: Change)
    ensures
        light_ids(fan_out(lights, members, change)) == light_ids(lights),
{
    assert(light_ids(fan_out(lights, members, change)) =~= light_ids(lights));
}

/// A change to a light or to a group leaves the ids of lights and groups as
/// they are: what is shown stays shown.
pub proof fn lemma_change_keeps_ids(store: StoreView, id: Seq<char>, change: Change)
    ensures
        light_ids(store_with_light_change(store, id, change).lights) == light_ids(store.lights),
        group_ids(store_with_light_change(store, id, change).groups) == group_ids(store.groups),
        light_ids(store_with_group_change(store, id, change).lights) == light_ids(store.lights),
        group_ids(store_with_group_change(store, id, change).groups) == group_ids(store.groups),
{
    assert(light_ids(lights_with_change(store.lights, id, change)) =~= light_ids(store.lights));
    let ids = group_ids(store.groups);
    let g = first_index(ids, id);
    if ids.contains(id) && group_accepts(store.groups[g], change) {
        lemma_first_index_exists(ids, id);
        lemma_fan_out_keeps_ids(store.lights, store.groups[g].lights, change);
        assert(group_ids(store.groups.update(g, change_group(store.groups[g], change))) =~= ids);
    }
}

/// Toggling a group sets the on-state of the group and of every light that
/// one of its member ids names, in the same step.
pub proof fn lemma_toggle_group_reaches_members(
    store: StoreView,
    id: Seq<char>,
    on: bool,
    member: Seq<char>,
)
    requires
        group_ids(store.groups).contains(id),
        store.groups[first_index(group_ids(store.groups), id)].lights.contains(member),
        light_ids(store.lights).contains(member),
    ensures
        ({
            let after = store_with_group_change(store, id, Change::On(on));
            let g = first_index(group_ids(store.groups), id);
            &&& after.groups[g].on == Some(on)
            &&& known_on(after.lights, member) == Some(on)
        }),
{
    let after = store_with_group_change(store, id, Change::On(on));
    let g = first_index(group_ids(store.groups), id);
    let members = store.groups[g].lights;
    lemma_first_index_exists(group_ids(store.groups), id);
    lemma_first_index_exists(light_ids(store.lights), member);
    let p = first_index(light_ids(store.lights), member);
    lemma_fan_out_keeps_ids(store.lights, members, Change::On(on));
    assert(light_ids(store.lights)[p] == store.lights[p].id);
    assert(after.lights[p] == change_light(store.lights[p], Change::On(on)));
}

/// A group without member lights is shown with unknown brightness and in
/// black.
pub proof fn lemma_memberless_group_is_dark(fetched: FetchedGroupView, lights: Seq<LightView>)
    requires
        fetched.lights.len() == 0,
    ensures
        group_of(fetched, lights).brightness is None,
        group_of(fetched, lights).color == Some(Rgb { red: 0, green: 0, blue: 0 }),
{
}

/// Toggling a group without member lights, or editing its brightness while
/// that is unknown, changes no light, and leaves the group's brightness and
/// colour as they are.
pub proof fn lemma_memberless_group_stays_dark(store: StoreView, id: Seq<char>, change: Change)
    requires
        group_ids(store.groups).contains(id),
        store.groups[first_index(group_ids(store.groups), id)].lights.len() == 0,
        store.groups[first_index(group_ids(store.groups), id)].brightness is None,
        !(change is Color),
    ensures
        ({
            let after = store_with_group_change(store, id, change);
            let g = first_index(group_ids(store.groups), id);
            &&& after.lights == store.lights
            &&& after.groups[g].brightness is None
            &&& after.groups[g].color == store.groups[g].color
        }),
{
    let g = first_index(group_ids(store.groups), id);
    lemma_first_index_exists(group_ids(store.groups), id);
    assert(fan_out(store.lights, store.groups[g].lights, change) =~= store.lights);
}

} // verus!
