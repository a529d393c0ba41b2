//! The panel's state and its reaction to events.
//!
//! [`AppModel::update`] takes one event at a time. It changes the state at
//! once and hands back what is to be done outside: requests to the bridge,
//! settings to store, popups to open or close, and events to feed back in,
//! now or after a delay. Results of that outside work come back as events.

use vstd::prelude::*;
use crate::color::{display_color, hsv_to_rgb, HsvColor};
use crate::config::{bridge_of, get_bridge, optional_text, Bridge, BridgeAddress, BridgeView, Config, ConfigView};
use crate::debounce::{
    after_burst, after_fire, after_submit, burst_stamps, fire_all, fired_value, is_current,
    lemma_burst_in_order_sends_last_edit, AttributeClass, Debouncer, DebouncerView, EditKey,
    EditKeyView, EditValue, ResourceKind, ScheduledCommit, SETTLE_DELAY_MS,
};
use crate::store::{
    fetched_group_views, fetched_light_views, fetched_scene_views, group_ids, light_ids,
    empty_store, scene_target, sorted_groups, sorted_lights, sorted_scenes, store_with_group_change,
    lemma_change_keeps_ids, lemma_change_of_absent_light, store_with_light_change, text_seq,
    Change, FetchedGroup, FetchedGroupView, FetchedLight,
    FetchedLightView, FetchedScene, FetchedSceneView, StoreView, ViewStore,
};

verus! {

/// The time after which the panel looks again once a scene was activated, in
/// milliseconds. It outlasts the bridge's own transition.
pub const CONVERGENCE_DELAY_MS: u64 = 10000;

/// The popups of the panel.
#[derive(Clone, Copy, Debug, PartialEq, Eq, Hash, Structural)]
pub enum PopupKind {
    Main,
    ColorPicker,
    MoreMenu,
}

/// News of where the colour buttons are on screen.
#[derive(Clone, Copy, Debug, PartialEq, Eq, Structural)]
pub enum RectangleUpdate {
    /// Tracking has started.
    Init,
    /// The button with this number has a known place.
    Rectangle(u32),
}

/// A state change asked of the bridge.
#[derive(Clone, Copy, Debug, PartialEq, Eq, Structural)]
pub enum StateChange {
    On(bool),
    Brightness(u8),
    Color(HsvColor),
}

/// The events that the panel reacts to.
#[derive(Debug, PartialEq, Eq)]
pub enum Message {
    TogglePopup,
    PopupClosed(PopupKind),
    DiscoverBridge,
    BridgeDiscoveryFinished(Result<BridgeAddress, String>),
    PairBridge,
    PairBridgeFinished(Result<String, String>),
    LoadGroups,
    GroupsLoaded(Result<Vec<FetchedGroup>, String>),
    LoadScenes,
    ScenesLoaded(Result<Vec<FetchedScene>, String>),
    LoadLights,
    LightsLoaded(Result<Vec<FetchedLight>, String>),
    ToggleLight(String, bool),
    ToggleGroup(String, bool),
    ActivateScene(String),
    ResponsesModified(Result<Vec<String>, String>),
    ToggleLightsMenu,
    ToggleGroupsMenu,
    ToggleScenesMenu,
    SetLightBrightness(String, u8),
    SetGroupBrightness(String, u8),
    ToggleColorPicker(String, ResourceKind),
    TryToggleColorPicker,
    SetLightColor(HsvColor),
    SetGroupColor(HsvColor),
    RectanglesUpdated(RectangleUpdate),
    ApplyLightBrightness(String, u64),
    ApplyGroupBrightness(String, u64),
    ApplyLightColor(String, u64),
    ApplyGroupColor(String, u64),
    SceneActivated(Result<Vec<String>, String>),
    ToggleMoreMenu,
    UnpairBridge,
}

/// What is to be done outside the model.
#[derive(Debug, PartialEq, Eq)]
pub enum Effect {
    /// Look for a bridge; the answer is `BridgeDiscoveryFinished`.
    Discover,
    /// Register with the bridge at this address; the answer is
    /// `PairBridgeFinished`.
    Register(BridgeAddress),
    /// Fetch all lights; the answer is `LightsLoaded`.
    FetchLights(Bridge),
    /// Fetch all groups; the answer is `GroupsLoaded`.
    FetchGroups(Bridge),
    /// Fetch all scenes; the answer is `ScenesLoaded`.
    FetchScenes(Bridge),
    /// Push a state change for a light or a group; the answer is
    /// `ResponsesModified`.
    Push(Bridge, ResourceKind, String, StateChange),
    /// Push a scene, the third field, to a group, the second; the answer is
    /// `SceneActivated`.
    PushScene(Bridge, String, String),
    /// Feed an event back in at once.
    Emit(Message),
    /// Feed an event back in once that many milliseconds have passed.
    After(u64, Message),
    /// Store the address of the bridge.
    StoreBridgeIp(Option<BridgeAddress>),
    /// Store the user name.
    StoreUsername(Option<String>),
    /// Open a popup.
    OpenPopup(PopupKind),
    /// Close a popup.
    ClosePopup(PopupKind),
}

/// The mathematical value of a [`Message`].
pub enum MessageView {
    TogglePopup,
    PopupClosed(PopupKind),
    DiscoverBridge,
    BridgeDiscoveryFinished(Result<BridgeAddress, Seq<char>>),
    PairBridge,
    PairBridgeFinished(Result<Seq<char>, Seq<char>>),
    LoadGroups,
    GroupsLoaded(Result<Seq<FetchedGroupView>, Seq<char>>),
    LoadScenes,
    ScenesLoaded(Result<Seq<FetchedSceneView>, Seq<char>>),
    LoadLights,
    LightsLoaded(Result<Seq<FetchedLightView>, Seq<char>>),
    ToggleLight(Seq<char>, bool),
    ToggleGroup(Seq<char>, bool),
    ActivateScene(Seq<char>),
    ResponsesModified(Result<Seq<Seq<char>>, Seq<char>>),
    ToggleLightsMenu,
    ToggleGroupsMenu,
    ToggleScenesMenu,
    SetLightBrightness(Seq<char>, u8),
    SetGroupBrightness(Seq<char>, u8),
    ToggleColorPicker(Seq<char>, ResourceKind),
    TryToggleColorPicker,
    SetLightColor(HsvColor),
    SetGroupColor(HsvColor),
    RectanglesUpdated(RectangleUpdate),
    ApplyLightBrightness(Seq<char>, u64),
    ApplyGroupBrightness(Seq<char>, u64),
    ApplyLightColor(Seq<char>, u64),
    ApplyGroupColor(Seq<char>, u64),
    SceneActivated(Result<Seq<Seq<char>>, Seq<char>>),
    ToggleMoreMenu,
    UnpairBridge,
}

/// The mathematical value of an [`Effect`].
pub enum EffectView {
    Discover,
    Register(BridgeAddress),
    FetchLights(BridgeView),
    FetchGroups(BridgeView),
    FetchScenes(BridgeView),
    Push(BridgeView, ResourceKind, Seq<char>, StateChange),
    PushScene(BridgeView, Seq<char>, Seq<char>),
    Emit(MessageView),
    After(u64, MessageView),
    StoreBridgeIp(Option<BridgeAddress>),
    StoreUsername(Option<Seq<char>>),
    OpenPopup(PopupKind),
    ClosePopup(PopupKind),
}

/// The value of an address or an error text.
pub open spec fn address_result(r: Result<BridgeAddress, String>) -> Result<BridgeAddress, Seq<char>> {
    match r {
        Ok(a) => Ok(a),
        Err(e) => Err(e@),
    }
}

/// The value of a text or an error text.
pub open spec fn text_result(r: Result<String, String>) -> Result<Seq<char>, Seq<char>> {
    match r {
        Ok(t) => Ok(t@),
        Err(e) => Err(e@),
    }
}

/// The value of a list of texts or an error text.
pub open spec fn texts_result(r: Result<Vec<String>, String>) -> Result<Seq<Seq<char>>, Seq<char>> {
    match r {
        Ok(t) => Ok(text_seq(t@)),
        Err(e) => Err(e@),
    }
}

impl View for Message {
    type V = MessageView;

    open spec fn view(&self) -> MessageView {
        match self {
            Message::TogglePopup => MessageView::TogglePopup,
            Message::PopupClosed(k) => MessageView::PopupClosed(*k),
            Message::DiscoverBridge => MessageView::DiscoverBridge,
            Message::BridgeDiscoveryFinished(r) => MessageView::BridgeDiscoveryFinished(
                address_result(*r),
            ),
            Message::PairBridge => MessageView::PairBridge,
            Message::PairBridgeFinished(r) => MessageView::PairBridgeFinished(text_result(*r)),
            Message::LoadGroups => MessageView::LoadGroups,
            Message::GroupsLoaded(r) => MessageView::GroupsLoaded(
                match r {
                    Ok(g) => Ok(fetched_group_views(g@)),
                    Err(e) => Err(e@),
                },
            ),
            Message::LoadScenes => MessageView::LoadScenes,
            Message::ScenesLoaded(r) => MessageView::ScenesLoaded(
                match r {
                    Ok(s) => Ok(fetched_scene_views(s@)),
                    Err(e) => Err(e@),
                },
            ),
            Message::LoadLights => MessageView::LoadLights,
            Message::LightsLoaded(r) => MessageView::LightsLoaded(
                match r {
                    Ok(l) => Ok(fetched_light_views(l@)),
                    Err(e) => Err(e@),
                },
            ),
            Message::ToggleLight(id, on) => MessageView::ToggleLight(id@, *on),
            Message::ToggleGroup(id, on) => MessageView::ToggleGroup(id@, *on),
            Message::ActivateScene(id) => MessageView::ActivateScene(id@),
            Message::ResponsesModified(r) => MessageView::ResponsesModified(texts_result(*r)),
            Message::ToggleLightsMenu => MessageView::ToggleLightsMenu,
            Message::ToggleGroupsMenu => MessageView::ToggleGroupsMenu,
            Message::ToggleScenesMenu => MessageView::ToggleScenesMenu,
            Message::SetLightBrightness(id, level) => MessageView::SetLightBrightness(id@, *level),
            Message::SetGroupBrightness(id, level) => MessageView::SetGroupBrightness(id@, *level),
            Message::ToggleColorPicker(id, kind) => MessageView::ToggleColorPicker(id@, *kind),
            Message::TryToggleColorPicker => MessageView::TryToggleColorPicker,
            Message::SetLightColor(c) => MessageView::SetLightColor(*c),
            Message::SetGroupColor(c) => MessageView::SetGroupColor(*c),
            Message::RectanglesUpdated(u) => MessageView::RectanglesUpdated(*u),
            Message::ApplyLightBrightness(id, n) => MessageView::ApplyLightBrightness(id@, *n),
            Message::ApplyGroupBrightness(id, n) => MessageView::ApplyGroupBrightness(id@, *n),
            Message::ApplyLightColor(id, n) => MessageView::ApplyLightColor(id@, *n),
            Message::ApplyGroupColor(id, n) => MessageView::ApplyGroupColor(id@, *n),
            Message::SceneActivated(r) => MessageView::SceneActivated(texts_result(*r)),
            Message::ToggleMoreMenu => MessageView::ToggleMoreMenu,
            Message::UnpairBridge => MessageView::UnpairBridge,
        }
    }
}

impl View for Effect {
    type V = EffectView;

    open spec fn view(&self) -> EffectView {
        match self {
            Effect::Discover => EffectView::Discover,
            Effect::Register(a) => EffectView::Register(*a),
            Effect::FetchLights(b) => EffectView::FetchLights(b@),
            Effect::FetchGroups(b) => EffectView::FetchGroups(b@),
            Effect::FetchScenes(b) => EffectView::FetchScenes(b@),
            Effect::Push(b, kind, id, change) => EffectView::Push(b@, *kind, id@, *change),
            Effect::PushScene(b, group, scene) => EffectView::PushScene(b@, group@, scene@),
            Effect::Emit(m) => EffectView::Emit(m@),
            Effect::After(delay, m) => EffectView::After(*delay, m@),
            Effect::StoreBridgeIp(a) => EffectView::StoreBridgeIp(*a),
            Effect::StoreUsername(u) => EffectView::StoreUsername(optional_text(*u)),
            Effect::OpenPopup(k) => EffectView::OpenPopup(*k),
            Effect::ClosePopup(k) => EffectView::ClosePopup(*k),
        }
    }
}

/// The values of a list of effects.
pub open spec fn effect_views(effects: Seq<Effect>) -> Seq<EffectView> {
    effects.map_values(|e: Effect| e@)
}

/// The mathematical value of an [`AppModel`].
pub struct ModelView {
    pub config: ConfigView,
    pub is_scanning: bool,
    pub last_discovery: Option<Result<BridgeAddress, Seq<char>>>,
    pub store: StoreView,
    pub lights_menu_expanded: bool,
    pub groups_menu_expanded: bool,
    pub scenes_menu_expanded: bool,
    pub popup: bool,
    pub color_picker_popup: bool,
    pub more_menu_popup: bool,
    pub active_color_picker_item: Option<(Seq<char>, ResourceKind)>,
    pub last_active_color_picker_item: Option<Seq<char>>,
    pub color_button_located: bool,
    pub debouncer: DebouncerView,
}

/// What an event leads to: the next state, and what is to be done outside.
pub struct Step {
    pub model: ModelView,
    pub effects: Seq<EffectView>,
}

/// A step that changes nothing and asks for nothing.
pub open spec fn stay(m: ModelView) -> Step {
    Step { model: m, effects: Seq::empty() }
}

/// The event that lets the commit for `key` fire.
pub open spec fn commit_message(key: EditKeyView, counter: u64) -> MessageView {
    match (key.kind, key.attribute) {
        (ResourceKind::Light, AttributeClass::Brightness) => MessageView::ApplyLightBrightness(
            key.id,
            counter,
        ),
        (ResourceKind::Group, AttributeClass::Brightness) => MessageView::ApplyGroupBrightness(
            key.id,
            counter,
        ),
        (ResourceKind::Light, AttributeClass::Color) => MessageView::ApplyLightColor(
            key.id,
            counter,
        ),
        (ResourceKind::Group, AttributeClass::Color) => MessageView::ApplyGroupColor(
            key.id,
            counter,
        ),
    }
}

/// What the panel shows for an intended value. A colour is shown as the
/// display colour of its hue, saturation and value.
pub open spec fn shown_change(value: EditValue) -> Change {
    match value {
        EditValue::Brightness(level) => Change::Brightness(level),
        EditValue::Color(c) => Change::Color(
            display_color(Some(c.hue), Some(c.saturation), Some(c.value)),
        ),
    }
}

/// What is asked of the bridge for an intended value.
pub open spec fn sent_change(value: EditValue) -> StateChange {
    match value {
        EditValue::Brightness(level) => StateChange::Brightness(level),
        EditValue::Color(c) => StateChange::Color(c),
    }
}

/// Whether the store shows the resource.
pub open spec fn resource_exists(store: StoreView, kind: ResourceKind, id: Seq<char>) -> bool {
    match kind {
        ResourceKind::Light => light_ids(store.lights).contains(id),
        ResourceKind::Group => group_ids(store.groups).contains(id),
    }
}

/// The store after a change to a light or a group.
pub open spec fn store_with_change(
    store: StoreView,
    kind: ResourceKind,
    id: Seq<char>,
    change: Change,
) -> StoreView {
    match kind {
        ResourceKind::Light => store_with_light_change(store, id, change),
        ResourceKind::Group => store_with_group_change(store, id, change),
    }
}

/// The push of a state change, where a bridge is configured; nothing
/// otherwise.
pub open spec fn push_effects(
    config: ConfigView,
    kind: ResourceKind,
    id: Seq<char>,
    change: StateChange,
) -> Seq<EffectView> {
    match bridge_of(config) {
        Some(b) => seq![EffectView::Push(b, kind, id, change)],
        None => Seq::empty(),
    }
}

/// A toggle: the on-state is shown at once, for a group on its member lights
/// too, and the push goes out without delay.
pub open spec fn toggled(m: ModelView, kind: ResourceKind, id: Seq<char>, on: bool) -> Step {
    Step {
        model: ModelView { store: store_with_change(m.store, kind, id, Change::On(on)), ..m },
        effects: push_effects(m.config, kind, id, StateChange::On(on)),
    }
}

/// An edit of brightness or colour: where the store shows the resource, the
/// value is shown at once, the edit becomes the pending one for its key, and
/// its commit is scheduled. An edit of a resource that is not shown does
/// nothing.
pub open spec fn edited(m: ModelView, kind: ResourceKind, id: Seq<char>, value: EditValue) -> Step {
    if resource_exists(m.store, kind, id) {
        let key = EditKeyView { kind, attribute: value.class(), id };
        Step {
            model: ModelView {
                store: store_with_change(m.store, kind, id, shown_change(value)),
                debouncer: after_submit(m.debouncer, key, value),
                ..m
            },
            effects: seq![
                EffectView::After(
                    SETTLE_DELAY_MS,
                    commit_message(key, (m.debouncer.counter + 1) as u64),
                ),
            ],
        }
    } else {
        stay(m)
    }
}

/// An edit of colour through the colour picker: it goes to the resource that
/// owns the picker.
pub open spec fn color_edited(m: ModelView, kind: ResourceKind, color: HsvColor) -> Step {
    match m.active_color_picker_item {
        Some(item) => edited(m, kind, item.0, EditValue::Color(color)),
        None => stay(m),
    }
}

/// A commit fires: a current one takes its edit out and pushes its value, a
/// stale one does nothing.
pub open spec fn commit_fired(m: ModelView, key: EditKeyView, counter: u64) -> Step {
    Step {
        model: ModelView { debouncer: after_fire(m.debouncer, key, counter), ..m },
        effects: match fired_value(m.debouncer, key, counter) {
            Some(value) => push_effects(m.config, key.kind, key.id, sent_change(value)),
            None => Seq::empty(),
        },
    }
}

/// A scene is activated: one push to the group that the scene acts on.
pub open spec fn scene_requested(m: ModelView, id: Seq<char>) -> Step {
    Step {
        model: m,
        effects: match (scene_target(m.store.scenes, id), bridge_of(m.config)) {
            (Some(group), Some(b)) => seq![EffectView::PushScene(b, group, id)],
            _ => Seq::empty(),
        },
    }
}

/// The bridge has answered a scene push. After a success the answer is
/// reported, and groups and lights are fetched again once the convergence
/// delay has passed. After a failure nothing is done.
pub open spec fn scene_activated(m: ModelView, answer: Result<Seq<Seq<char>>, Seq<char>>) -> Step {
    Step {
        model: m,
        effects: match answer {
            Ok(receipts) => seq![
                EffectView::Emit(MessageView::ResponsesModified(Ok(receipts))),
                EffectView::After(CONVERGENCE_DELAY_MS, MessageView::LoadGroups),
                EffectView::After(CONVERGENCE_DELAY_MS, MessageView::LoadLights),
            ],
            Err(_) => Seq::empty(),
        },
    }
}

/// The three fetches that fill the panel.
pub open spec fn load_everything() -> Seq<EffectView> {
    seq![
        EffectView::Emit(MessageView::LoadLights),
        EffectView::Emit(MessageView::LoadGroups),
        EffectView::Emit(MessageView::LoadScenes),
    ]
}

/// The main popup is toggled. On opening, a paired panel loads its lists.
pub open spec fn popup_toggled(m: ModelView) -> Step {
    if m.popup {
        Step {
            model: ModelView { popup: false, ..m },
            effects: seq![EffectView::ClosePopup(PopupKind::Main)],
        }
    } else {
        Step {
            model: ModelView { popup: true, ..m },
            effects: seq![EffectView::OpenPopup(PopupKind::Main)] + (if m.config.username is Some {
                load_everything()
            } else {
                Seq::empty()
            }),
        }
    }
}

/// A popup was closed from outside. Only the main popup is tracked this way.
pub open spec fn popup_closed(m: ModelView, kind: PopupKind) -> Step {
    if kind == PopupKind::Main {
        stay(ModelView { popup: false, ..m })
    } else {
        stay(m)
    }
}

/// The search for a bridge starts.
pub open spec fn discovery_started(m: ModelView) -> Step {
    Step { model: ModelView { is_scanning: true, ..m }, effects: seq![EffectView::Discover] }
}

/// The search for a bridge has ended. An address that was found is kept and
/// stored.
pub open spec fn discovery_finished(m: ModelView, answer: Result<BridgeAddress, Seq<char>>) -> Step {
    match answer {
        Ok(address) => Step {
            model: ModelView {
                is_scanning: false,
                last_discovery: Some(Ok(address)),
                config: ConfigView { bridge_ip: Some(address), ..m.config },
                ..m
            },
            effects: seq![EffectView::StoreBridgeIp(Some(address))],
        },
        Err(error) => stay(
            ModelView { is_scanning: false, last_discovery: Some(Err(error)), ..m },
        ),
    }
}

/// Pairing is asked for: it takes a known address.
pub open spec fn pairing_requested(m: ModelView) -> Step {
    Step {
        model: m,
        effects: match m.config.bridge_ip {
            Some(address) => seq![EffectView::Register(address)],
            None => Seq::empty(),
        },
    }
}

/// Pairing has ended. A user name that was granted is kept and stored, and
/// the lights are loaded.
pub open spec fn pairing_finished(m: ModelView, answer: Result<Seq<char>, Seq<char>>) -> Step {
    match answer {
        Ok(username) => Step {
            model: ModelView { config: ConfigView { username: Some(username), ..m.config }, ..m },
            effects: seq![
                EffectView::StoreUsername(Some(username)),
                EffectView::Emit(MessageView::LoadLights),
            ],
        },
        Err(error) => stay(ModelView { last_discovery: Some(Err(error)), ..m }),
    }
}

/// The lists that can be fetched.
#[derive(Clone, Copy, Debug, PartialEq, Eq, Structural)]
pub enum Listing {
    Lights,
    Groups,
    Scenes,
}

/// A fetch is asked for: it goes out where a bridge is configured.
pub open spec fn load_requested(m: ModelView, listing: Listing) -> Step {
    Step {
        model: m,
        effects: match bridge_of(m.config) {
            Some(b) => seq![
                match listing {
                    Listing::Lights => EffectView::FetchLights(b),
                    Listing::Groups => EffectView::FetchGroups(b),
                    Listing::Scenes => EffectView::FetchScenes(b),
                },
            ],
            None => Seq::empty(),
        },
    }
}

/// The lights have arrived: they replace those shown. After a failed fetch
/// the list stays as it was.
pub open spec fn lights_loaded(m: ModelView, answer: Result<Seq<FetchedLightView>, Seq<char>>) -> Step {
    match answer {
        Ok(fetched) => stay(
            ModelView { store: StoreView { lights: sorted_lights(fetched), ..m.store }, ..m },
        ),
        Err(_) => stay(m),
    }
}

/// The groups have arrived: they replace those shown. After a failed fetch
/// the list stays as it was.
pub open spec fn groups_loaded(m: ModelView, answer: Result<Seq<FetchedGroupView>, Seq<char>>) -> Step {
    match answer {
        Ok(fetched) => stay(
            ModelView {
                store: StoreView { groups: sorted_groups(fetched, m.store.lights), ..m.store },
                ..m
            },
        ),
        Err(_) => stay(m),
    }
}

/// The scenes have arrived: they replace those shown. After a failed fetch
/// the list stays as it was.
pub open spec fn scenes_loaded(m: ModelView, answer: Result<Seq<FetchedSceneView>, Seq<char>>) -> Step {
    match answer {
        Ok(fetched) => stay(
            ModelView { store: StoreView { scenes: sorted_scenes(fetched), ..m.store }, ..m },
        ),
        Err(_) => stay(m),
    }
}

/// One of the three menus is toggled. A menu that opens closes the others.
pub open spec fn menu_toggled(m: ModelView, listing: Listing) -> Step {
    let open = match listing {
        Listing::Lights => !m.lights_menu_expanded,
        Listing::Groups => !m.groups_menu_expanded,
        Listing::Scenes => !m.scenes_menu_expanded,
    };
    stay(
        ModelView {
            lights_menu_expanded: if listing == Listing::Lights {
                open
            } else {
                m.lights_menu_expanded && !open
            },
            groups_menu_expanded: if listing == Listing::Groups {
                open
            } else {
                m.groups_menu_expanded && !open
            },
            scenes_menu_expanded: if listing == Listing::Scenes {
                open
            } else {
                m.scenes_menu_expanded && !open
            },
            ..m
        },
    )
}

/// The colour picker opens for the resource that owns it.
pub open spec fn picker_opened(m: ModelView) -> Step {
    Step {
        model: ModelView {
            color_picker_popup: true,
            last_active_color_picker_item: match m.active_color_picker_item {
                Some(item) => Some(item.0),
                None => None,
            },
            ..m
        },
        effects: seq![EffectView::OpenPopup(PopupKind::ColorPicker)],
    }
}

/// An attempt to toggle the colour picker. Until the place of its button is
/// known the attempt is repeated; then an open picker closes, and a closed
/// one opens.
pub open spec fn picker_attempted(m: ModelView) -> Step {
    if !m.color_button_located {
        Step { model: m, effects: seq![EffectView::Emit(MessageView::TryToggleColorPicker)] }
    } else if m.color_picker_popup {
        Step {
            model: ModelView { color_picker_popup: false, color_button_located: false, ..m },
            effects: seq![EffectView::ClosePopup(PopupKind::ColorPicker)],
        }
    } else {
        picker_opened(m)
    }
}

/// The colour button of a resource is pressed. The resource takes the
/// picker, or gives it up if it had it. An open picker closes. A closed one
/// opens at once for the resource that had it last; for another it opens
/// once the place of the button is known.
pub open spec fn picker_toggled(m: ModelView, id: Seq<char>, kind: ResourceKind) -> Step {
    let selected = ModelView {
        active_color_picker_item: if m.active_color_picker_item == Some((id, kind)) {
            None
        } else {
            Some((id, kind))
        },
        ..m
    };
    if m.color_picker_popup {
        Step {
            model: ModelView { color_picker_popup: false, ..selected },
            effects: seq![EffectView::ClosePopup(PopupKind::ColorPicker)],
        }
    } else if m.last_active_color_picker_item == Some(id) {
        picker_opened(selected)
    } else {
        stay(selected)
    }
}

/// News of the colour buttons: once a button has a place, the picker can be
/// tried.
pub open spec fn rectangles_updated(m: ModelView, update: RectangleUpdate) -> Step {
    match update {
        RectangleUpdate::Init => stay(m),
        RectangleUpdate::Rectangle(button) => Step {
            model: ModelView {
                color_button_located: m.color_button_located || button == 0,
                ..m
            },
            effects: seq![EffectView::Emit(MessageView::TryToggleColorPicker)],
        },
    }
}

/// The menu with the bridge's details is toggled.
pub open spec fn more_menu_toggled(m: ModelView) -> Step {
    if m.more_menu_popup {
        Step {
            model: ModelView { more_menu_popup: false, ..m },
            effects: seq![EffectView::ClosePopup(PopupKind::MoreMenu)],
        }
    } else {
        Step {
            model: ModelView { more_menu_popup: true, ..m },
            effects: seq![EffectView::OpenPopup(PopupKind::MoreMenu)],
        }
    }
}

/// The bridge is forgotten: both settings are cleared and stored, nothing is
/// shown any more, and the menu closes.
pub open spec fn unpaired(m: ModelView) -> Step {
    Step {
        model: ModelView {
            config: ConfigView { bridge_ip: None, username: None },
            store: empty_store(),
            more_menu_popup: false,
            ..m
        },
        effects: seq![EffectView::StoreBridgeIp(None), EffectView::StoreUsername(None)] + (
        if m.more_menu_popup {
            seq![EffectView::ClosePopup(PopupKind::MoreMenu)]
        } else {
            Seq::empty()
        }),
    }
}

/// What an event leads to.
pub open spec fn step(m: ModelView, message: MessageView) -> Step {
    match message {
        MessageView::TogglePopup => popup_toggled(m),
        MessageView::PopupClosed(kind) => popup_closed(m, kind),
        MessageView::DiscoverBridge => discovery_started(m),
        MessageView::BridgeDiscoveryFinished(answer) => discovery_finished(m, answer),
        MessageView::PairBridge => pairing_requested(m),
        MessageView::PairBridgeFinished(answer) => pairing_finished(m, answer),
        MessageView::LoadGroups => load_requested(m, Listing::Groups),
        MessageView::GroupsLoaded(answer) => groups_loaded(m, answer),
        MessageView::LoadScenes => load_requested(m, Listing::Scenes),
        MessageView::ScenesLoaded(answer) => scenes_loaded(m, answer),
        MessageView::LoadLights => load_requested(m, Listing::Lights),
        MessageView::LightsLoaded(answer) => lights_loaded(m, answer),
        MessageView::ToggleLight(id, on) => toggled(m, ResourceKind::Light, id, on),
        MessageView::ToggleGroup(id, on) => toggled(m, ResourceKind::Group, id, on),
        MessageView::ActivateScene(id) => scene_requested(m, id),
        MessageView::ResponsesModified(_) => stay(m),
        MessageView::ToggleLightsMenu => menu_toggled(m, Listing::Lights),
        MessageView::ToggleGroupsMenu => menu_toggled(m, Listing::Groups),
        MessageView::ToggleScenesMenu => menu_toggled(m, Listing::Scenes),
        MessageView::SetLightBrightness(id, level) => edited(
            m,
            ResourceKind::Light,
            id,
            EditValue::Brightness(level),
        ),
        MessageView::SetGroupBrightness(id, level) => edited(
            m,
            ResourceKind::Group,
            id,
            EditValue::Brightness(level),
        ),
        MessageView::ToggleColorPicker(id, kind) => picker_toggled(m, id, kind),
        MessageView::TryToggleColorPicker => picker_attempted(m),
        MessageView::SetLightColor(color) => color_edited(m, ResourceKind::Light, color),
        MessageView::SetGroupColor(color) => color_edited(m, ResourceKind::Group, color),
        MessageView::RectanglesUpdated(update) => rectangles_updated(m, update),
        MessageView::ApplyLightBrightness(id, counter) => commit_fired(
            m,
            EditKeyView {
                kind: ResourceKind::Light,
                attribute: AttributeClass::Brightness,
                id,
            },
            counter,
        ),
        MessageView::ApplyGroupBrightness(id, counter) => commit_fired(
            m,
            EditKeyView {
                kind: ResourceKind::Group,
                attribute: AttributeClass::Brightness,
                id,
            },
            counter,
        ),
        MessageView::ApplyLightColor(id, counter) => commit_fired(
            m,
            EditKeyView { kind: ResourceKind::Light, attribute: AttributeClass::Color, id },
            counter,
        ),
        MessageView::ApplyGroupColor(id, counter) => commit_fired(
            m,
            EditKeyView { kind: ResourceKind::Group, attribute: AttributeClass::Color, id },
            counter,
        ),
        MessageView::SceneActivated(answer) => scene_activated(m, answer),
        MessageView::ToggleMoreMenu => more_menu_toggled(m),
        MessageView::UnpairBridge => unpaired(m),
    }
}

/// Whether an event is an edit of brightness or colour, which takes a new
/// generation.
pub open spec fn takes_generation(message: MessageView) -> bool {
    message is SetLightBrightness || message is SetGroupBrightness || message is SetLightColor
        || message is SetGroupColor
}

/// The panel's state.
#[derive(Debug, PartialEq, Eq)]
pub struct AppModel {
    /// The settings that persist between runs.
    pub config: Config,
    /// Whether a search for bridges is under way.
    pub is_scanning: bool,
    /// How the last search or pairing ended.
    pub last_discovery: Option<Result<BridgeAddress, String>>,
    /// What is shown of lights, groups and scenes.
    pub store: ViewStore,
    pub lights_menu_expanded: bool,
    pub groups_menu_expanded: bool,
    pub scenes_menu_expanded: bool,
    /// Whether the main popup is open.
    pub popup: bool,
    /// Whether the colour picker is open.
    pub color_picker_popup: bool,
    /// Whether the menu with the bridge's details is open.
    pub more_menu_popup: bool,
    /// The resource that owns the colour picker.
    pub active_color_picker_item: Option<(String, ResourceKind)>,
    /// The id of the resource for which the colour picker opened last.
    pub last_active_color_picker_item: Option<String>,
    /// Whether the place of the tracked colour button is known.
    pub color_button_located: bool,
    /// The pending edits and the generation counter.
    pub debouncer: Debouncer,
}

/// The value of the owner of the colour picker.
pub open spec fn item_view(item: Option<(String, ResourceKind)>) -> Option<(Seq<char>, ResourceKind)> {
    match item {
        Some(i) => Some((i.0@, i.1)),
        None => None,
    }
}

/// The value of the outcome of a search.
pub open spec fn discovery_view(outcome: Option<Result<BridgeAddress, String>>) -> Option<
    Result<BridgeAddress, Seq<char>>,
> {
    match outcome {
        Some(r) => Some(address_result(r)),
        None => None,
    }
}

impl View for AppModel {
    type V = ModelView;

    open spec fn view(&self) -> ModelView {
        ModelView {
            config: self.config@,
            is_scanning: self.is_scanning,
            last_discovery: discovery_view(self.last_discovery),
            store: self.store@,
            lights_menu_expanded: self.lights_menu_expanded,
            groups_menu_expanded: self.groups_menu_expanded,
            scenes_menu_expanded: self.scenes_menu_expanded,
            popup: self.popup,
            color_picker_popup: self.color_picker_popup,
            more_menu_popup: self.more_menu_popup,
            active_color_picker_item: item_view(self.active_color_picker_item),
            last_active_color_picker_item: optional_text(self.last_active_color_picker_item),
            color_button_located: self.color_button_located,
            debouncer: self.debouncer@,
        }
    }
}

/// The state of a panel that has just started with the given settings.
pub open spec fn initial(config: ConfigView) -> ModelView {
    ModelView {
        config,
        is_scanning: false,
        last_discovery: None,
        store: empty_store(),
        lights_menu_expanded: false,
        groups_menu_expanded: false,
        scenes_menu_expanded: false,
        popup: false,
        color_picker_popup: false,
        more_menu_popup: false,
        active_color_picker_item: None,
        last_active_color_picker_item: None,
        color_button_located: false,
        debouncer: DebouncerView { pending: Map::empty(), counter: 0 },
    }
}

/// Whether a state and a list of effects are what a step says.
pub open spec fn is_step(model: ModelView, effects: Seq<Effect>, s: Step) -> bool {
    model == s.model && effect_views(effects) == s.effects
}

/// No effects.
fn no_effects() -> (effects: Vec<Effect>)
    ensures
        effect_views(effects@) == Seq::<EffectView>::empty(),
{
    let effects: Vec<Effect> = Vec::new();
    assert(effect_views(effects@) =~= Seq::<EffectView>::empty());
    effects
}

/// One effect.
fn one_effect(effect: Effect) -> (effects: Vec<Effect>)
    ensures
        effect_views(effects@) == seq![effect@],
{
    let mut effects: Vec<Effect> = Vec::new();
    effects.push(effect);
    assert(effect_views(effects@) =~= seq![effect@]);
    effects
}

/// One more effect at the end.
fn add_effect(effects: &mut Vec<Effect>, effect: Effect)
    ensures
        effect_views(final(effects)@) == effect_views(old(effects)@).push(effect@),
{
    effects.push(effect);
    assert(effect_views(effects@) =~= effect_views(old(effects)@).push(effect@));
}

/// The event that lets a commit fire.
pub fn commit_message_of(commit: ScheduledCommit) -> (message: Message)
    ensures
        message@ == commit_message(commit.key@, commit.counter),
{
    let counter = commit.counter;
    let key = commit.key;
    match (key.kind, key.attribute) {
        (ResourceKind::Light, AttributeClass::Brightness) => Message::ApplyLightBrightness(
            key.id,
            counter,
        ),
        (ResourceKind::Group, AttributeClass::Brightness) => Message::ApplyGroupBrightness(
            key.id,
            counter,
        ),
        (ResourceKind::Light, AttributeClass::Color) => Message::ApplyLightColor(key.id, counter),
        (ResourceKind::Group, AttributeClass::Color) => Message::ApplyGroupColor(key.id, counter),
    }
}

impl AppModel {
    /// The invariant of the state: that of its pending edits.
    pub open spec fn wf(&self) -> bool {
        self.debouncer.wf()
    }

    /// The state of a panel that starts with the given settings.
    pub fn new(config: Config) -> (model: AppModel)
        ensures
            model.wf(),
            model@ == initial(config@),
    {
        AppModel {
            config,
            is_scanning: false,
            last_discovery: None,
            store: ViewStore::new(),
            lights_menu_expanded: false,
            groups_menu_expanded: false,
            scenes_menu_expanded: false,
            popup: false,
            color_picker_popup: false,
            more_menu_popup: false,
            active_color_picker_item: None,
            last_active_color_picker_item: None,
            color_button_located: false,
            debouncer: Debouncer::new(),
        }
    }

    /// The push of a state change, where a bridge is configured.
    fn push(&self, kind: ResourceKind, id: String, change: StateChange) -> (effects: Vec<Effect>)
        ensures
            effect_views(effects@) == push_effects(self@.config, kind, id@, change),
    {
        match get_bridge(&self.config) {
            Some(bridge) => one_effect(Effect::Push(bridge, kind, id, change)),
            None => no_effects(),
        }
    }

    /// Sets the on-state of a light at once and pushes it to the bridge.
    pub fn toggle_light(&mut self, id: String, on: bool) -> (effects: Vec<Effect>)
        ensures
            is_step(final(self)@, effects@, toggled(old(self)@, ResourceKind::Light, id@, on)),
            final(self).debouncer == old(self).debouncer,
    {
        self.store.toggle_light(&id, on);
        self.push(ResourceKind::Light, id, StateChange::On(on))
    }

    /// Sets the on-state of a group and of its member lights at once and
    /// pushes it to the bridge.
    pub fn toggle_group(&mut self, id: String, on: bool) -> (effects: Vec<Effect>)
        ensures
            is_step(final(self)@, effects@, toggled(old(self)@, ResourceKind::Group, id@, on)),
            final(self).debouncer == old(self).debouncer,
    {
        self.store.toggle_group(&id, on);
        self.push(ResourceKind::Group, id, StateChange::On(on))
    }

    /// Takes an edit of brightness or colour. Where the store shows the
    /// resource, the value is shown at once, the edit becomes the pending one
    /// for its key, and the commit to schedule is handed back. An edit of a
    /// resource that is not shown does nothing.
    pub fn submit_edit(&mut self, kind: ResourceKind, id: String, value: EditValue) -> (commit:
        Option<ScheduledCommit>)
        requires
            old(self).wf(),
            old(self).debouncer.counter < u64::MAX,
        ensures
            final(self).wf(),
            final(self)@ == edited(old(self)@, kind, id@, value).model,
            match commit {
                Some(c) => {
                    &&& resource_exists(old(self)@.store, kind, id@)
                    &&& c.key@ == (EditKeyView { kind, attribute: value.class(), id: id@ })
                    &&& c.counter == old(self).debouncer.counter + 1
                    &&& c.delay_ms == SETTLE_DELAY_MS
                },
                None => !resource_exists(old(self)@.store, kind, id@),
            },
    {
        let change = match value {
            EditValue::Brightness(level) => Change::Brightness(level),
            EditValue::Color(c) => Change::Color(
                hsv_to_rgb(Some(c.hue), Some(c.saturation), Some(c.value)),
            ),
        };
        let found = match kind {
            ResourceKind::Light => {
                proof {
                    if !light_ids(self@.store.lights).contains(id@) {
                        lemma_change_of_absent_light(self@.store.lights, id@, change);
                    }
                }
                self.store.change_light(&id, change)
            },
            ResourceKind::Group => self.store.change_group(&id, change),
        };
        if found {
            Some(self.debouncer.submit(kind, id, value))
        } else {
            assert(self@.store == old(self)@.store);
            None
        }
    }

    /// Lets the commit for `key` fire. A current commit takes its edit out
    /// and pushes its value, where a bridge is configured; a stale one does
    /// nothing.
    pub fn on_commit_fire(&mut self, key: EditKey, counter: u64) -> (effects: Vec<Effect>)
        requires
            old(self).wf(),
        ensures
            final(self).wf(),
            is_step(final(self)@, effects@, commit_fired(old(self)@, key@, counter)),
    {
        match self.debouncer.fire(&key, counter) {
            Some(value) => {
                let change = match value {
                    EditValue::Brightness(level) => StateChange::Brightness(level),
                    EditValue::Color(c) => StateChange::Color(c),
                };
                self.push(key.kind, key.id, change)
            },
            None => no_effects(),
        }
    }

    /// Activates a scene: one push to the group that the scene acts on,
    /// where the scene is shown and a bridge is configured.
    pub fn activate_scene(&self, id: String) -> (effects: Vec<Effect>)
        ensures
            effect_views(effects@) == scene_requested(self@, id@).effects,
    {
        match self.store.scene_group(&id) {
            Some(group) => match get_bridge(&self.config) {
                Some(bridge) => one_effect(Effect::PushScene(bridge, group, id)),
                None => no_effects(),
            },
            None => no_effects(),
        }
    }
}

impl AppModel {
    /// Opens the colour picker for the resource that owns it.
    fn open_color_picker_popup(&mut self) -> (effects: Vec<Effect>)
        ensures
            is_step(final(self)@, effects@, picker_opened(old(self)@)),
            final(self).debouncer == old(self).debouncer,
    {
        self.color_picker_popup = true;
        self.last_active_color_picker_item = match &self.active_color_picker_item {
            Some(item) => Some(item.0.clone()),
            None => None,
        };
        one_effect(Effect::OpenPopup(PopupKind::ColorPicker))
    }

    /// Reacts to a press on the colour button of a resource.
    fn toggle_color_picker(&mut self, id: String, kind: ResourceKind) -> (effects: Vec<Effect>)
        ensures
            is_step(final(self)@, effects@, picker_toggled(old(self)@, id@, kind)),
            final(self).debouncer == old(self).debouncer,
    {
        let owns = match &self.active_color_picker_item {
            Some(item) => item.0 == id && item.1 == kind,
            None => false,
        };
        let was_last = match &self.last_active_color_picker_item {
            Some(last) => *last == id,
            None => false,
        };
        if owns {
            self.active_color_picker_item = None;
        } else {
            self.active_color_picker_item = Some((id, kind));
        }
        if self.color_picker_popup {
            self.color_picker_popup = false;
            one_effect(Effect::ClosePopup(PopupKind::ColorPicker))
        } else if was_last {
            self.open_color_picker_popup()
        } else {
            no_effects()
        }
    }

    /// Tries to toggle the colour picker.
    fn try_toggle_color_picker(&mut self) -> (effects: Vec<Effect>)
        ensures
            is_step(final(self)@, effects@, picker_attempted(old(self)@)),
            final(self).debouncer == old(self).debouncer,
    {
        if !self.color_button_located {
            one_effect(Effect::Emit(Message::TryToggleColorPicker))
        } else if self.color_picker_popup {
            self.color_picker_popup = false;
            self.color_button_located = false;
            one_effect(Effect::ClosePopup(PopupKind::ColorPicker))
        } else {
            self.open_color_picker_popup()
        }
    }

    /// Toggles the main popup.
    fn toggle_popup(&mut self) -> (effects: Vec<Effect>)
        ensures
            is_step(final(self)@, effects@, popup_toggled(old(self)@)),
            final(self).debouncer == old(self).debouncer,
    {
        if self.popup {
            self.popup = false;
            one_effect(Effect::ClosePopup(PopupKind::Main))
        } else {
            self.popup = true;
            let mut effects = one_effect(Effect::OpenPopup(PopupKind::Main));
            if self.config.get_username().is_some() {
                add_effect(&mut effects, Effect::Emit(Message::LoadLights));
                add_effect(&mut effects, Effect::Emit(Message::LoadGroups));
                add_effect(&mut effects, Effect::Emit(Message::LoadScenes));
                assert(effect_views(effects@) =~= seq![EffectView::OpenPopup(PopupKind::Main)]
                    + load_everything());
            } else {
                assert(effect_views(effects@) =~= seq![EffectView::OpenPopup(PopupKind::Main)]
                    + Seq::<EffectView>::empty());
            }
            effects
        }
    }

    /// Toggles one of the three menus.
    fn toggle_menu(&mut self, listing: Listing)
        ensures
            final(self)@ == menu_toggled(old(self)@, listing).model,
            final(self).debouncer == old(self).debouncer,
    {
        match listing {
            Listing::Lights => {
                self.lights_menu_expanded = !self.lights_menu_expanded;
                if self.lights_menu_expanded {
                    self.groups_menu_expanded = false;
                    self.scenes_menu_expanded = false;
                }
            },
            Listing::Groups => {
                self.groups_menu_expanded = !self.groups_menu_expanded;
                if self.groups_menu_expanded {
                    self.lights_menu_expanded = false;
                    self.scenes_menu_expanded = false;
                }
            },
            Listing::Scenes => {
                self.scenes_menu_expanded = !self.scenes_menu_expanded;
                if self.scenes_menu_expanded {
                    self.lights_menu_expanded = false;
                    self.groups_menu_expanded = false;
                }
            },
        }
    }

    /// Asks for a fetch, where a bridge is configured.
    fn load(&self, listing: Listing) -> (effects: Vec<Effect>)
        ensures
            effect_views(effects@) == load_requested(self@, listing).effects,
    {
        match get_bridge(&self.config) {
            Some(bridge) => one_effect(
                match listing {
                    Listing::Lights => Effect::FetchLights(bridge),
                    Listing::Groups => Effect::FetchGroups(bridge),
                    Listing::Scenes => Effect::FetchScenes(bridge),
                },
            ),
            None => no_effects(),
        }
    }

    /// Takes the answer to a scene push.
    fn scene_answered(&self, answer: Result<Vec<String>, String>) -> (effects: Vec<Effect>)
        ensures
            effect_views(effects@) == scene_activated(self@, texts_result(answer)).effects,
    {
        match answer {
            Ok(receipts) => {
                let ghost texts = text_seq(receipts@);
                let mut effects = one_effect(Effect::Emit(Message::ResponsesModified(Ok(receipts))));
                add_effect(&mut effects, Effect::After(CONVERGENCE_DELAY_MS, Message::LoadGroups));
                add_effect(&mut effects, Effect::After(CONVERGENCE_DELAY_MS, Message::LoadLights));
                assert(effect_views(effects@) =~= seq![
                    EffectView::Emit(MessageView::ResponsesModified(Ok(texts))),
                    EffectView::After(CONVERGENCE_DELAY_MS, MessageView::LoadGroups),
                    EffectView::After(CONVERGENCE_DELAY_MS, MessageView::LoadLights),
                ]);
                effects
            },
            Err(_) => no_effects(),
        }
    }

    /// Forgets the bridge.
    fn unpair(&mut self) -> (effects: Vec<Effect>)
        ensures
            is_step(final(self)@, effects@, unpaired(old(self)@)),
            final(self).debouncer == old(self).debouncer,
    {
        self.config.set_bridge_ip(None);
        self.config.set_username(None);
        self.store.clear();
        let mut effects = one_effect(Effect::StoreBridgeIp(None));
        add_effect(&mut effects, Effect::StoreUsername(None));
        if self.more_menu_popup {
            self.more_menu_popup = false;
            add_effect(&mut effects, Effect::ClosePopup(PopupKind::MoreMenu));
            assert(effect_views(effects@) =~= seq![
                EffectView::StoreBridgeIp(None),
                EffectView::StoreUsername(None),
            ] + seq![EffectView::ClosePopup(PopupKind::MoreMenu)]);
        } else {
            assert(effect_views(effects@) =~= seq![
                EffectView::StoreBridgeIp(None),
                EffectView::StoreUsername(None),
            ] + Seq::<EffectView>::empty());
        }
        effects
    }

    /// Takes an edit and schedules its commit.
    fn edit(&mut self, kind: ResourceKind, id: String, value: EditValue) -> (effects: Vec<Effect>)
        requires
            old(self).wf(),
            old(self).debouncer.counter < u64::MAX,
        ensures
            final(self).wf(),
            is_step(final(self)@, effects@, edited(old(self)@, kind, id@, value)),
    {
        match self.submit_edit(kind, id, value) {
            Some(commit) => {
                let delay = commit.delay_ms;
                one_effect(Effect::After(delay, commit_message_of(commit)))
            },
            None => no_effects(),
        }
    }

    /// Takes an edit of colour for the resource that owns the colour picker.
    fn edit_color(&mut self, kind: ResourceKind, color: HsvColor) -> (effects: Vec<Effect>)
        requires
            old(self).wf(),
            old(self).debouncer.counter < u64::MAX,
        ensures
            final(self).wf(),
            is_step(final(self)@, effects@, color_edited(old(self)@, kind, color)),
    {
        let owner = match &self.active_color_picker_item {
            Some(item) => Some(item.0.clone()),
            None => None,
        };
        match owner {
            Some(id) => self.edit(kind, id, EditValue::Color(color)),
            None => no_effects(),
        }
    }

    /// Takes note that a popup was closed from outside.
    fn close_popup(&mut self, kind: PopupKind) -> (effects: Vec<Effect>)
        ensures
            is_step(final(self)@, effects@, popup_closed(old(self)@, kind)),
            final(self).debouncer == old(self).debouncer,
    {
        if kind == PopupKind::Main {
            self.popup = false;
        }
        no_effects()
    }

    /// Starts the search for a bridge.
    fn discover(&mut self) -> (effects: Vec<Effect>)
        ensures
            is_step(final(self)@, effects@, discovery_started(old(self)@)),
            final(self).debouncer == old(self).debouncer,
    {
        self.is_scanning = true;
        one_effect(Effect::Discover)
    }

    /// Takes the outcome of the search for a bridge.
    fn discovered(&mut self, answer: Result<BridgeAddress, String>) -> (effects: Vec<Effect>)
        ensures
            is_step(final(self)@, effects@, discovery_finished(old(self)@, address_result(answer))),
            final(self).debouncer == old(self).debouncer,
    {
        self.is_scanning = false;
        match answer {
            Ok(address) => {
                self.last_discovery = Some(Ok(address));
                self.config.set_bridge_ip(Some(address));
                one_effect(Effect::StoreBridgeIp(Some(address)))
            },
            Err(error) => {
                self.last_discovery = Some(Err(error));
                no_effects()
            },
        }
    }

    /// Asks for pairing with the bridge at the known address.
    fn pair(&self) -> (effects: Vec<Effect>)
        ensures
            effect_views(effects@) == pairing_requested(self@).effects,
    {
        match self.config.get_bridge_ip() {
            Some(address) => one_effect(Effect::Register(*address)),
            None => no_effects(),
        }
    }

    /// Takes the outcome of pairing.
    fn paired(&mut self, answer: Result<String, String>) -> (effects: Vec<Effect>)
        ensures
            is_step(final(self)@, effects@, pairing_finished(old(self)@, text_result(answer))),
            final(self).debouncer == old(self).debouncer,
    {
        match answer {
            Ok(username) => {
                let stored = username.clone();
                self.config.set_username(Some(username));
                let mut effects = one_effect(Effect::StoreUsername(Some(stored)));
                add_effect(&mut effects, Effect::Emit(Message::LoadLights));
                assert(effect_views(effects@) =~= seq![
                    EffectView::StoreUsername(Some(stored@)),
                    EffectView::Emit(MessageView::LoadLights),
                ]);
                effects
            },
            Err(error) => {
                self.last_discovery = Some(Err(error));
                no_effects()
            },
        }
    }

    /// Takes the lights that a fetch brought.
    fn take_lights(&mut self, answer: Result<Vec<FetchedLight>, String>) -> (effects: Vec<Effect>)
        ensures
            is_step(
                final(self)@,
                effects@,
                lights_loaded(
                    old(self)@,
                    match answer {
                        Ok(l) => Ok(fetched_light_views(l@)),
                        Err(e) => Err(e@),
                    },
                ),
            ),
            final(self).debouncer == old(self).debouncer,
    {
        match answer {
            Ok(fetched) => {
                self.store.replace_lights(&fetched);
            },
            Err(_) => {},
        }
        no_effects()
    }

    /// Takes the groups that a fetch brought.
    fn take_groups(&mut self, answer: Result<Vec<FetchedGroup>, String>) -> (effects: Vec<Effect>)
        ensures
            is_step(
                final(self)@,
                effects@,
                groups_loaded(
                    old(self)@,
                    match answer {
                        Ok(g) => Ok(fetched_group_views(g@)),
                        Err(e) => Err(e@),
                    },
                ),
            ),
            final(self).debouncer == old(self).debouncer,
    {
        match answer {
            Ok(fetched) => {
                self.store.replace_groups(&fetched);
            },
            Err(_) => {},
        }
        no_effects()
    }

    /// Takes the scenes that a fetch brought.
    fn take_scenes(&mut self, answer: Result<Vec<FetchedScene>, String>) -> (effects: Vec<Effect>)
        ensures
            is_step(
                final(self)@,
                effects@,
                scenes_loaded(
                    old(self)@,
                    match answer {
                        Ok(s) => Ok(fetched_scene_views(s@)),
                        Err(e) => Err(e@),
                    },
                ),
            ),
            final(self).debouncer == old(self).debouncer,
    {
        match answer {
            Ok(fetched) => {
                self.store.replace_scenes(&fetched);
            },
            Err(_) => {},
        }
        no_effects()
    }

    /// Takes news of the colour buttons.
    fn locate(&mut self, update: RectangleUpdate) -> (effects: Vec<Effect>)
        ensures
            is_step(final(self)@, effects@, rectangles_updated(old(self)@, update)),
            final(self).debouncer == old(self).debouncer,
    {
        match update {
            RectangleUpdate::Init => no_effects(),
            RectangleUpdate::Rectangle(button) => {
                if button == 0 {
                    self.color_button_located = true;
                }
                one_effect(Effect::Emit(Message::TryToggleColorPicker))
            },
        }
    }

    /// Toggles the menu with the bridge's details.
    fn toggle_more_menu(&mut self) -> (effects: Vec<Effect>)
        ensures
            is_step(final(self)@, effects@, more_menu_toggled(old(self)@)),
            final(self).debouncer == old(self).debouncer,
    {
        if self.more_menu_popup {
            self.more_menu_popup = false;
            one_effect(Effect::ClosePopup(PopupKind::MoreMenu))
        } else {
            self.more_menu_popup = true;
            one_effect(Effect::OpenPopup(PopupKind::MoreMenu))
        }
    }

    /// Reacts to one event: changes the state at once, and hands back what
    /// is to be done outside.
    pub fn update(&mut self, message: Message) -> (effects: Vec<Effect>)
        requires
            old(self).wf(),
            takes_generation(message@) ==> old(self).debouncer.counter < u64::MAX,
        ensures
            final(self).wf(),
            is_step(final(self)@, effects@, step(old(self)@, message@)),
    {
        match message {
            Message::TogglePopup => self.toggle_popup(),
            Message::PopupClosed(kind) => self.close_popup(kind),
            Message::DiscoverBridge => self.discover(),
            Message::BridgeDiscoveryFinished(answer) => self.discovered(answer),
            Message::PairBridge => self.pair(),
            Message::PairBridgeFinished(answer) => self.paired(answer),
            Message::LoadGroups => self.load(Listing::Groups),
            Message::GroupsLoaded(answer) => self.take_groups(answer),
            Message::LoadScenes => self.load(Listing::Scenes),
            Message::ScenesLoaded(answer) => self.take_scenes(answer),
            Message::LoadLights => self.load(Listing::Lights),
            Message::LightsLoaded(answer) => self.take_lights(answer),
            Message::ToggleLight(id, on) => self.toggle_light(id, on),
            Message::ToggleGroup(id, on) => self.toggle_group(id, on),
            Message::ActivateScene(id) => self.activate_scene(id),
            Message::ResponsesModified(_) => no_effects(),
            Message::ToggleLightsMenu => {
                self.toggle_menu(Listing::Lights);
                no_effects()
            },
            Message::ToggleGroupsMenu => {
                self.toggle_menu(Listing::Groups);
                no_effects()
            },
            Message::ToggleScenesMenu => {
                self.toggle_menu(Listing::Scenes);
                no_effects()
            },
            Message::SetLightBrightness(id, level) => self.edit(
                ResourceKind::Light,
                id,
                EditValue::Brightness(level),
            ),
            Message::SetGroupBrightness(id, level) => self.edit(
                ResourceKind::Group,
                id,
                EditValue::Brightness(level),
            ),
            Message::ToggleColorPicker(id, kind) => self.toggle_color_picker(id, kind),
            Message::TryToggleColorPicker => self.try_toggle_color_picker(),
            Message::SetLightColor(color) => self.edit_color(ResourceKind::Light, color),
            Message::SetGroupColor(color) => self.edit_color(ResourceKind::Group, color),
            Message::RectanglesUpdated(update) => self.locate(update),
            Message::ApplyLightBrightness(id, counter) => self.on_commit_fire(
                EditKey {
                    kind: ResourceKind::Light,
                    attribute: AttributeClass::Brightness,
                    id,
                },
                counter,
            ),
            Message::ApplyGroupBrightness(id, counter) => self.on_commit_fire(
                EditKey {
                    kind: ResourceKind::Group,
                    attribute: AttributeClass::Brightness,
                    id,
                },
                counter,
            ),
            Message::ApplyLightColor(id, counter) => self.on_commit_fire(
                EditKey { kind: ResourceKind::Light, attribute: AttributeClass::Color, id },
                counter,
            ),
            Message::ApplyGroupColor(id, counter) => self.on_commit_fire(
                EditKey { kind: ResourceKind::Group, attribute: AttributeClass::Color, id },
                counter,
            ),
            Message::SceneActivated(answer) => self.scene_answered(answer),
            Message::ToggleMoreMenu => self.toggle_more_menu(),
            Message::UnpairBridge => self.unpair(),
        }
    }
}

/// Activating a scene that is shown, with a bridge configured, asks for one
/// push, to the group that the scene acts on, and changes nothing else.
pub proof fn lemma_scene_activation_pushes_once(
    m: ModelView,
    id: Seq<char>,
    group: Seq<char>,
    bridge: BridgeView,
)
    requires
        scene_target(m.store.scenes, id) == Some(group),
        bridge_of(m.config) == Some(bridge),
    ensures
        step(m, MessageView::ActivateScene(id)).model == m,
        step(m, MessageView::ActivateScene(id)).effects == seq![
            EffectView::PushScene(bridge, group, id),
        ],
{
}

/// Once a scene push has succeeded, two fetches are scheduled and no more:
/// one of the groups and one of the lights, neither before the convergence
/// delay has passed.
pub proof fn lemma_scene_success_schedules_refresh(m: ModelView, receipts: Seq<Seq<char>>)
    ensures
        step(m, MessageView::SceneActivated(Ok(receipts))).model == m,
        step(m, MessageView::SceneActivated(Ok(receipts))).effects == seq![
            EffectView::Emit(MessageView::ResponsesModified(Ok(receipts))),
            EffectView::After(CONVERGENCE_DELAY_MS, MessageView::LoadGroups),
            EffectView::After(CONVERGENCE_DELAY_MS, MessageView::LoadLights),
        ],
{
}

/// A failed push is never sent again and never undone: the answer changes
/// nothing and asks for nothing, whatever was pushed.
pub proof fn lemma_failed_push_is_left_alone(m: ModelView, error: Seq<char>)
    ensures
        step(m, MessageView::ResponsesModified(Err(error))) == stay(m),
        step(m, MessageView::SceneActivated(Err(error))) == stay(m),
{
}

/// A failed fetch leaves what is shown as it was.
pub proof fn lemma_failed_fetch_keeps_snapshot(m: ModelView, error: Seq<char>)
    ensures
        step(m, MessageView::LightsLoaded(Err(error))) == stay(m),
        step(m, MessageView::GroupsLoaded(Err(error))) == stay(m),
        step(m, MessageView::ScenesLoaded(Err(error))) == stay(m),
{
}

/// Without a bridge address or without a user name nothing is asked of the
/// bridge: no fetch and no push.
pub proof fn lemma_unconfigured_asks_nothing(m: ModelView, id: Seq<char>, on: bool, counter: u64)
    requires
        bridge_of(m.config) is None,
    ensures
        step(m, MessageView::LoadLights) == stay(m),
        step(m, MessageView::LoadGroups) == stay(m),
        step(m, MessageView::LoadScenes) == stay(m),
        step(m, MessageView::ActivateScene(id)) == stay(m),
        step(m, MessageView::ToggleLight(id, on)).effects == Seq::<EffectView>::empty(),
        step(m, MessageView::ToggleGroup(id, on)).effects == Seq::<EffectView>::empty(),
        step(m, MessageView::ApplyLightBrightness(id, counter)).effects == Seq::<
            EffectView,
        >::empty(),
        step(m, MessageView::ApplyGroupBrightness(id, counter)).effects == Seq::<
            EffectView,
        >::empty(),
        step(m, MessageView::ApplyLightColor(id, counter)).effects == Seq::<EffectView>::empty(),
        step(m, MessageView::ApplyGroupColor(id, counter)).effects == Seq::<EffectView>::empty(),
{
}

/// A commit that is not current is silent: it changes nothing and asks for
/// nothing.
pub proof fn lemma_stale_commit_is_silent(m: ModelView, key: EditKeyView, counter: u64)
    requires
        !is_current(m.debouncer, key, counter),
    ensures
        commit_fired(m, key, counter) == stay(m),
{
}

/// The generation counter never goes back, whatever the event: an edit that
/// is taken moves it on by one, and nothing else moves it.
pub proof fn lemma_counter_never_goes_back(m: ModelView, message: MessageView)
    ensures
        step(m, message).model.debouncer.counter == m.debouncer.counter || (takes_generation(
            message,
        ) && step(m, message).model.debouncer.counter == m.debouncer.counter + 1),
{
}

/// What a sequence of events leads to, taken one after the other: the last
/// state, and all effects in the order in which they were asked for.
pub open spec fn run(m: ModelView, messages: Seq<MessageView>) -> Step
    decreases messages.len(),
{
    if messages.len() == 0 {
        stay(m)
    } else {
        let earlier = run(m, messages.drop_last());
        let last = step(earlier.model, messages.last());
        Step { model: last.model, effects: earlier.effects + last.effects }
    }
}

/// The pushes of state changes among the effects, in order.
pub open spec fn pushes(effects: Seq<EffectView>) -> Seq<EffectView>
    decreases effects.len(),
{
    if effects.len() == 0 {
        Seq::empty()
    } else if effects.last() is Push {
        pushes(effects.drop_last()).push(effects.last())
    } else {
        pushes(effects.drop_last())
    }
}

/// The event by which an edit of the given value arrives. An edit of colour
/// names no resource: it goes to the one that owns the colour picker.
pub open spec fn edit_message(kind: ResourceKind, id: Seq<char>, value: EditValue) -> MessageView {
    match (kind, value) {
        (ResourceKind::Light, EditValue::Brightness(level)) => MessageView::SetLightBrightness(
            id,
            level,
        ),
        (ResourceKind::Group, EditValue::Brightness(level)) => MessageView::SetGroupBrightness(
            id,
            level,
        ),
        (ResourceKind::Light, EditValue::Color(color)) => MessageView::SetLightColor(color),
        (ResourceKind::Group, EditValue::Color(color)) => MessageView::SetGroupColor(color),
    }
}

/// A burst of edits to one resource.
pub open spec fn edit_messages(kind: ResourceKind, id: Seq<char>, values: Seq<EditValue>) -> Seq<
    MessageView,
> {
    Seq::new(values.len(), |i: int| edit_message(kind, id, values[i]))
}

/// The commits for one key, firing with the given stamps.
pub open spec fn commit_messages(key: EditKeyView, stamps: Seq<u64>) -> Seq<MessageView> {
    Seq::new(stamps.len(), |i: int| commit_message(key, stamps[i]))
}

/// Whether an edit of the given value reaches the resource `id`: an edit of
/// brightness always does, an edit of colour where the resource owns the
/// colour picker.
pub open spec fn edit_reaches(m: ModelView, id: Seq<char>, value: EditValue) -> bool {
    value is Color ==> m.active_color_picker_item is Some
        && m.active_color_picker_item->Some_0.0 == id
}

/// The pushes of two lists of effects, one after the other, are the pushes
/// of the first followed by those of the second.
pub proof fn lemma_pushes_of_both(first: Seq<EffectView>, second: Seq<EffectView>)
    ensures
        pushes(first + second) == pushes(first) + pushes(second),
    decreases second.len(),
{
    if second.len() == 0 {
        assert(first + second =~= first);
        assert(pushes(first) + pushes(second) =~= pushes(first));
    } else {
        assert((first + second).drop_last() =~= first + second.drop_last());
        assert((first + second).last() == second.last());
        lemma_pushes_of_both(first, second.drop_last());
        if second.last() is Push {
            assert(pushes(first + second) =~= pushes(first) + pushes(second));
        }
    }
}

/// Events taken in two parts lead where they lead when taken in one.
pub proof fn lemma_run_in_two_parts(m: ModelView, first: Seq<MessageView>, second: Seq<MessageView>)
    ensures
        run(m, first + second).model == run(run(m, first).model, second).model,
        run(m, first + second).effects == run(m, first).effects + run(
            run(m, first).model,
            second,
        ).effects,
    decreases second.len(),
{
    let middle = run(m, first);
    if second.len() == 0 {
        assert(first + second =~= first);
        assert(middle.effects + run(middle.model, second).effects =~= middle.effects);
    } else {
        assert((first + second).drop_last() =~= first + second.drop_last());
        assert((first + second).last() == second.last());
        lemma_run_in_two_parts(m, first, second.drop_last());
        let earlier = run(middle.model, second.drop_last());
        let last = step(earlier.model, second.last());
        assert(run(m, first + second).effects =~= middle.effects + (earlier.effects
            + last.effects));
    }
}

/// One edit to a resource that is shown asks for no push. It leaves the
/// settings, the owner of the colour picker and the resource shown, and
/// makes the edit the pending one for its key.
pub proof fn lemma_edit_is_kept_back(m: ModelView, kind: ResourceKind, id: Seq<char>, value: EditValue)
    requires
        resource_exists(m.store, kind, id),
        edit_reaches(m, id, value),
    ensures
        ({
            let after = step(m, edit_message(kind, id, value));
            &&& after.model.config == m.config
            &&& after.model.active_color_picker_item == m.active_color_picker_item
            &&& resource_exists(after.model.store, kind, id)
            &&& after.model.debouncer == after_submit(
                m.debouncer,
                EditKeyView { kind, attribute: value.class(), id },
                value,
            )
            &&& pushes(after.effects) == Seq::<EffectView>::empty()
        }),
{
    let after = step(m, edit_message(kind, id, value));
    assert(after == edited(m, kind, id, value));
    lemma_change_keeps_ids(m.store, id, shown_change(value));
    assert(after.effects.len() == 1);
    assert(after.effects.drop_last() =~= Seq::<EffectView>::empty());
    assert(pushes(after.effects.drop_last()) =~= Seq::<EffectView>::empty());
}

/// A burst of edits to one attribute of a resource that is shown asks for no
/// push. It leaves the settings as they are, and the pending edits are those
/// of the burst.
pub proof fn lemma_burst_is_kept_back(
    m: ModelView,
    kind: ResourceKind,
    id: Seq<char>,
    attribute: AttributeClass,
    values: Seq<EditValue>,
)
    requires
        resource_exists(m.store, kind, id),
        forall|i: int|
            0 <= i < values.len() ==> (#[trigger] values[i]).class() == attribute && edit_reaches(
                m,
                id,
                values[i],
            ),
    ensures
        ({
            let after = run(m, edit_messages(kind, id, values));
            &&& after.model.config == m.config
            &&& after.model.active_color_picker_item == m.active_color_picker_item
            &&& resource_exists(after.model.store, kind, id)
            &&& after.model.debouncer == after_burst(
                m.debouncer,
                EditKeyView { kind, attribute, id },
                values,
            )
            &&& pushes(after.effects) == Seq::<EffectView>::empty()
        }),
    decreases values.len(),
{
    if values.len() > 0 {
        let messages = edit_messages(kind, id, values);
        let front = values.drop_last();
        assert(messages.drop_last() =~= edit_messages(kind, id, front));
        assert forall|i: int| 0 <= i < front.len() implies (#[trigger] front[i]).class()
            == attribute && edit_reaches(m, id, front[i]) by {
            assert(front[i] == values[i]);
        }
        lemma_burst_is_kept_back(m, kind, id, attribute, front);
        let earlier = run(m, messages.drop_last());
        let value = values.last();
        assert(value == values[values.len() - 1]);
        assert(messages.last() == edit_message(kind, id, value));
        lemma_edit_is_kept_back(earlier.model, kind, id, value);
        let last = step(earlier.model, messages.last());
        lemma_pushes_of_both(earlier.effects, last.effects);
        assert(pushes(earlier.effects) + pushes(last.effects) =~= Seq::<EffectView>::empty());
    }
}

/// The push that sends a value for a resource.
pub open spec fn push_of(bridge: BridgeView, key: EditKeyView, value: EditValue) -> EffectView {
    EffectView::Push(bridge, key.kind, key.id, sent_change(value))
}

/// One commit pushes what the pending edits send, and nothing else.
pub proof fn lemma_commit_pushes_what_is_sent(
    m: ModelView,
    key: EditKeyView,
    stamp: u64,
    bridge: BridgeView,
)
    requires
        bridge_of(m.config) == Some(bridge),
    ensures
        ({
            let after = step(m, commit_message(key, stamp));
            &&& after.model.config == m.config
            &&& after.model.store == m.store
            &&& after.model.debouncer == after_fire(m.debouncer, key, stamp)
            &&& pushes(after.effects) == match fired_value(m.debouncer, key, stamp) {
                Some(value) => seq![push_of(bridge, key, value)],
                None => Seq::empty(),
            }
        }),
{
    let after = step(m, commit_message(key, stamp));
    assert(after == commit_fired(m, key, stamp));
    match fired_value(m.debouncer, key, stamp) {
        Some(value) => {
            assert(after.effects == seq![push_of(bridge, key, value)]);
            assert(after.effects.drop_last() =~= Seq::<EffectView>::empty());
            assert(pushes(after.effects.drop_last()) =~= Seq::<EffectView>::empty());
            assert(pushes(after.effects) =~= seq![push_of(bridge, key, value)]);
        },
        None => {},
    }
}

/// Commits firing one after the other push what the pending edits send, in
/// that order, and nothing else.
pub proof fn lemma_commits_push_what_is_sent(
    m: ModelView,
    key: EditKeyView,
    stamps: Seq<u64>,
    bridge: BridgeView,
)
    requires
        bridge_of(m.config) == Some(bridge),
    ensures
        ({
            let after = run(m, commit_messages(key, stamps));
            let outcome = fire_all(m.debouncer, key, stamps);
            &&& after.model.config == m.config
            &&& after.model.store == m.store
            &&& after.model.debouncer == outcome.state
            &&& pushes(after.effects) == outcome.sent.map_values(
                |v: EditValue| push_of(bridge, key, v),
            )
        }),
    decreases stamps.len(),
{
    let messages = commit_messages(key, stamps);
    let outcome = fire_all(m.debouncer, key, stamps);
    let sent = outcome.sent.map_values(|v: EditValue| push_of(bridge, key, v));
    if stamps.len() == 0 {
        assert(sent =~= Seq::<EffectView>::empty());
    } else {
        assert(messages.drop_last() =~= commit_messages(key, stamps.drop_last()));
        lemma_commits_push_what_is_sent(m, key, stamps.drop_last(), bridge);
        let earlier = run(m, messages.drop_last());
        let before = fire_all(m.debouncer, key, stamps.drop_last());
        assert(messages.last() == commit_message(key, stamps.last()));
        lemma_commit_pushes_what_is_sent(earlier.model, key, stamps.last(), bridge);
        let last = step(earlier.model, messages.last());
        lemma_pushes_of_both(earlier.effects, last.effects);
        match fired_value(before.state, key, stamps.last()) {
            Some(value) => {
                assert(sent =~= before.sent.map_values(|v: EditValue| push_of(bridge, key, v)).push(
                    push_of(bridge, key, value),
                ));
                assert(pushes(earlier.effects) + pushes(last.effects) =~= sent);
            },
            None => {
                assert(pushes(earlier.effects) + pushes(last.effects) =~= sent);
            },
        }
    }
}

/// Debouncing, from the first edit to the last commit: of a burst of edits
/// to one attribute of one resource that is shown, with a bridge configured
/// and every commit firing after the last edit, one push reaches the bridge
/// in all, and it carries the value of the last edit.
pub proof fn lemma_burst_reaches_bridge_once(
    m: ModelView,
    kind: ResourceKind,
    id: Seq<char>,
    attribute: AttributeClass,
    values: Seq<EditValue>,
    bridge: BridgeView,
)
    requires
        resource_exists(m.store, kind, id),
        bridge_of(m.config) == Some(bridge),
        values.len() >= 1,
        m.debouncer.counter + values.len() <= u64::MAX,
        forall|i: int|
            0 <= i < values.len() ==> (#[trigger] values[i]).class() == attribute && edit_reaches(
                m,
                id,
                values[i],
            ),
    ensures
        pushes(
            run(
                m,
                edit_messages(kind, id, values) + commit_messages(
                    EditKeyView { kind, attribute, id },
                    burst_stamps(m.debouncer.counter, values.len()),
                ),
            ).effects,
        ) == seq![EffectView::Push(bridge, kind, id, sent_change(values.last()))],
{
    let key = EditKeyView { kind, attribute, id };
    let stamps = burst_stamps(m.debouncer.counter, values.len());
    let edits = edit_messages(kind, id, values);
    let commits = commit_messages(key, stamps);
    lemma_run_in_two_parts(m, edits, commits);
    lemma_burst_is_kept_back(m, kind, id, attribute, values);
    let settled = run(m, edits);
    lemma_commits_push_what_is_sent(settled.model, key, stamps, bridge);
    lemma_burst_in_order_sends_last_edit(m.debouncer, key, values);
    let fired = run(settled.model, commits);
    lemma_pushes_of_both(settled.effects, fired.effects);
    assert(pushes(settled.effects) + pushes(fired.effects) =~= seq![
        EffectView::Push(bridge, kind, id, sent_change(values.last())),
    ]);
}

} // verus!
