use cosmic_hue::color::{hsv_to_rgb, HsvColor};
use cosmic_hue::config::{Bridge, BridgeAddress, Config};
use cosmic_hue::debounce::{AttributeClass, EditKey, EditValue, ResourceKind, ScheduledCommit};
use cosmic_hue::model::{
    commit_message_of, AppModel, Effect, Message, PopupKind, RectangleUpdate, StateChange,
    CONVERGENCE_DELAY_MS,
};
use cosmic_hue::store::{FetchedGroup, FetchedLight, FetchedScene};

fn text(t: &str) -> String {
    t.to_string()
}

fn address() -> BridgeAddress {
    BridgeAddress::V4([10, 0, 0, 2])
}

fn bridge() -> Bridge {
    Bridge { address: address(), username: text("panel") }
}

fn paired() -> AppModel {
    AppModel::new(Config { bridge_ip: Some(address()), username: Some(text("panel")) })
}

fn unpaired() -> AppModel {
    AppModel::new(Config { bridge_ip: None, username: None })
}

fn light(id: &str, name: &str) -> FetchedLight {
    FetchedLight {
        id: text(id),
        name: text(name),
        on: Some(false),
        brightness: Some(100),
        hue: Some(0),
        saturation: Some(254),
    }
}

fn group(id: &str, name: &str, lights: &[&str]) -> FetchedGroup {
    FetchedGroup {
        id: text(id),
        name: text(name),
        any_on: Some(false),
        lights: lights.iter().map(|l| text(l)).collect(),
    }
}

fn furnished(mut model: AppModel) -> AppModel {
    let none: Vec<Effect> = Vec::new();
    assert_eq!(
        model.update(Message::LightsLoaded(Ok(vec![light("1", "Desk"), light("2", "Bed")]))),
        none
    );
    assert_eq!(
        model.update(Message::GroupsLoaded(Ok(vec![
            group("g1", "Room", &["1", "2"]),
            group("g0", "Empty", &[]),
        ]))),
        none
    );
    assert_eq!(
        model.update(Message::ScenesLoaded(Ok(vec![FetchedScene {
            id: text("s1"),
            name: text("Relax"),
            group: Some(text("g1")),
        }]))),
        none
    );
    model
}

fn brightness_of(model: &AppModel, id: &str) -> Option<u8> {
    model.store.lights.iter().find(|l| l.id == id).unwrap().brightness
}

fn on_of(model: &AppModel, id: &str) -> Option<bool> {
    model.store.lights.iter().find(|l| l.id == id).unwrap().on
}

fn none() -> Vec<Effect> {
    Vec::new()
}

#[test]
fn convergence_delay_is_ten_seconds() {
    assert_eq!(CONVERGENCE_DELAY_MS, 10000);
}

#[test]
fn new_model_is_idle() {
    let model = unpaired();
    assert!(!model.is_scanning);
    assert_eq!(model.last_discovery, None);
    assert!(model.store.lights.is_empty());
    assert!(!model.popup && !model.color_picker_popup && !model.more_menu_popup);
    assert_eq!(model.active_color_picker_item, None);
    assert_eq!(model.debouncer.counter, 0);
}

#[test]
fn burst_of_edits_reaches_the_bridge_once() {
    let mut model = furnished(paired());
    let mut scheduled = Vec::new();
    for level in [10u8, 20, 30, 40] {
        let effects = model.update(Message::SetLightBrightness(text("1"), level));
        assert_eq!(brightness_of(&model, "1"), Some(level));
        assert_eq!(effects.len(), 1);
        scheduled.extend(effects);
    }
    let mut sent = Vec::new();
    for (n, effect) in scheduled.into_iter().enumerate() {
        match effect {
            Effect::After(delay, message) => {
                assert_eq!(delay, 300);
                assert_eq!(message, Message::ApplyLightBrightness(text("1"), n as u64 + 1));
                sent.extend(model.update(message));
            }
            other => panic!("unexpected effect {:?}", other),
        }
    }
    assert_eq!(
        sent,
        vec![Effect::Push(bridge(), ResourceKind::Light, text("1"), StateChange::Brightness(40))]
    );
    assert_eq!(model.debouncer.pending_count(), 0);
}

#[test]
fn commit_after_its_edit_was_sent_does_nothing() {
    let mut model = furnished(paired());
    model.update(Message::SetLightBrightness(text("1"), 10));
    assert_eq!(model.update(Message::ApplyLightBrightness(text("1"), 1)).len(), 1);
    assert_eq!(model.update(Message::ApplyLightBrightness(text("1"), 1)), none());
    assert_eq!(model.update(Message::ApplyLightBrightness(text("1"), 7)), none());
    assert_eq!(model.update(Message::ApplyGroupColor(text("1"), 1)), none());
    assert_eq!(model.debouncer.pending_count(), 0);
    assert_eq!(brightness_of(&model, "1"), Some(10));
}

#[test]
fn superseded_commit_does_nothing() {
    let mut model = furnished(paired());
    model.update(Message::SetLightBrightness(text("1"), 10));
    model.update(Message::SetLightBrightness(text("1"), 20));
    assert_eq!(model.update(Message::ApplyLightBrightness(text("1"), 1)), none());
    assert_eq!(model.debouncer.pending_count(), 1);
    assert_eq!(
        model.update(Message::ApplyLightBrightness(text("1"), 2)),
        vec![Effect::Push(bridge(), ResourceKind::Light, text("1"), StateChange::Brightness(20))]
    );
}

#[test]
fn edit_of_a_light_that_is_not_shown_does_nothing() {
    let mut model = furnished(paired());
    let before = furnished(paired());
    assert_eq!(model.update(Message::SetLightBrightness(text("77"), 10)), none());
    assert_eq!(model.update(Message::SetGroupBrightness(text("1"), 10)), none());
    assert_eq!(model, before);
    assert_eq!(model.submit_edit(ResourceKind::Light, text("77"), EditValue::Brightness(1)), None);
}

#[test]
fn submit_edit_hands_back_the_commit() {
    let mut model = furnished(paired());
    assert_eq!(
        model.submit_edit(ResourceKind::Light, text("2"), EditValue::Brightness(9)),
        Some(ScheduledCommit {
            key: EditKey {
                kind: ResourceKind::Light,
                attribute: AttributeClass::Brightness,
                id: text("2"),
            },
            counter: 1,
            delay_ms: 300,
        })
    );
    assert_eq!(brightness_of(&model, "2"), Some(9));
}

#[test]
fn group_brightness_is_shown_on_the_members_and_sent_once() {
    let mut model = furnished(paired());
    let first = model.update(Message::SetGroupBrightness(text("g1"), 50));
    let second = model.update(Message::SetGroupBrightness(text("g1"), 60));
    assert_eq!(first, vec![Effect::After(300, Message::ApplyGroupBrightness(text("g1"), 1))]);
    assert_eq!(second, vec![Effect::After(300, Message::ApplyGroupBrightness(text("g1"), 2))]);
    assert_eq!(brightness_of(&model, "1"), Some(60));
    assert_eq!(brightness_of(&model, "2"), Some(60));
    let shown = model.store.groups.iter().find(|g| g.id == "g1").unwrap().brightness;
    assert_eq!(shown, Some(60));
    assert_eq!(model.update(Message::ApplyGroupBrightness(text("g1"), 1)), none());
    assert_eq!(
        model.update(Message::ApplyGroupBrightness(text("g1"), 2)),
        vec![Effect::Push(bridge(), ResourceKind::Group, text("g1"), StateChange::Brightness(60))]
    );
}

#[test]
fn edits_of_a_group_without_members_do_not_fail() {
    let mut model = furnished(paired());
    let effects = model.update(Message::SetGroupBrightness(text("g0"), 50));
    assert_eq!(effects, vec![Effect::After(300, Message::ApplyGroupBrightness(text("g0"), 1))]);
    let shown = model.store.groups.iter().find(|g| g.id == "g0").unwrap();
    assert_eq!(shown.brightness, None);
    assert_eq!(shown.color, Some(hsv_to_rgb(None, None, None)));
    assert_eq!(model.update(Message::ToggleGroup(text("g0"), true)).len(), 1);
    model.update(Message::ToggleColorPicker(text("g0"), ResourceKind::Group));
    let colour = HsvColor { hue: 43690, saturation: 254, value: 254 };
    assert_eq!(model.update(Message::SetGroupColor(colour)).len(), 1);
    assert_eq!(brightness_of(&model, "1"), Some(100));
}

#[test]
fn colour_edit_goes_to_the_owner_of_the_picker() {
    let mut model = furnished(paired());
    let colour = HsvColor { hue: 21845, saturation: 254, value: 254 };
    assert_eq!(model.update(Message::SetLightColor(colour)), none());
    model.update(Message::ToggleColorPicker(text("2"), ResourceKind::Light));
    assert_eq!(
        model.update(Message::SetLightColor(colour)),
        vec![Effect::After(300, Message::ApplyLightColor(text("2"), 1))]
    );
    let shown = model.store.lights.iter().find(|l| l.id == "2").unwrap().color;
    assert_eq!(shown, Some(hsv_to_rgb(Some(21845), Some(254), Some(254))));
    assert_eq!(
        model.update(Message::ApplyLightColor(text("2"), 1)),
        vec![Effect::Push(bridge(), ResourceKind::Light, text("2"), StateChange::Color(colour))]
    );
}

#[test]
fn group_colour_is_shown_on_the_members() {
    let mut model = furnished(paired());
    let colour = HsvColor { hue: 43690, saturation: 254, value: 254 };
    model.update(Message::ToggleColorPicker(text("g1"), ResourceKind::Group));
    assert_eq!(
        model.update(Message::SetGroupColor(colour)),
        vec![Effect::After(300, Message::ApplyGroupColor(text("g1"), 1))]
    );
    let blue = Some(hsv_to_rgb(Some(43690), Some(254), Some(254)));
    assert!(model.store.lights.iter().all(|l| l.color == blue));
    assert_eq!(model.store.groups.iter().find(|g| g.id == "g1").unwrap().color, blue);
}

#[test]
fn toggling_a_group_sets_its_members_at_once() {
    let mut model = furnished(paired());
    let effects = model.update(Message::ToggleGroup(text("g1"), true));
    assert_eq!(on_of(&model, "1"), Some(true));
    assert_eq!(on_of(&model, "2"), Some(true));
    assert_eq!(
        effects,
        vec![Effect::Push(bridge(), ResourceKind::Group, text("g1"), StateChange::On(true))]
    );
}

#[test]
fn toggling_a_light_pushes_without_delay() {
    let mut model = furnished(paired());
    assert_eq!(
        model.toggle_light(text("2"), true),
        vec![Effect::Push(bridge(), ResourceKind::Light, text("2"), StateChange::On(true))]
    );
    assert_eq!(on_of(&model, "2"), Some(true));
    assert_eq!(on_of(&model, "1"), Some(false));
    assert_eq!(
        model.toggle_group(text("g9"), false),
        vec![Effect::Push(bridge(), ResourceKind::Group, text("g9"), StateChange::On(false))]
    );
}

#[test]
fn scene_activation_pushes_to_its_group() {
    let mut model = furnished(paired());
    assert_eq!(
        model.update(Message::ActivateScene(text("s1"))),
        vec![Effect::PushScene(bridge(), text("g1"), text("s1"))]
    );
    assert_eq!(model.update(Message::ActivateScene(text("s9"))), none());
    assert_eq!(model.activate_scene(text("s1")).len(), 1);
}

#[test]
fn activated_scene_schedules_two_fetches() {
    let mut model = furnished(paired());
    let receipts = vec![text("ok")];
    assert_eq!(
        model.update(Message::SceneActivated(Ok(receipts.clone()))),
        vec![
            Effect::Emit(Message::ResponsesModified(Ok(receipts))),
            Effect::After(10000, Message::LoadGroups),
            Effect::After(10000, Message::LoadLights),
        ]
    );
    assert_eq!(
        model.update(Message::LoadGroups),
        vec![Effect::FetchGroups(bridge())]
    );
    assert_eq!(
        model.update(Message::LoadLights),
        vec![Effect::FetchLights(bridge())]
    );
}

#[test]
fn failed_scene_push_schedules_nothing() {
    let mut model = furnished(paired());
    let before = furnished(paired());
    assert_eq!(model.update(Message::SceneActivated(Err(text("unreachable")))), none());
    assert_eq!(model, before);
}

#[test]
fn failed_push_is_not_rolled_back() {
    let mut model = furnished(paired());
    model.update(Message::SetLightBrightness(text("1"), 33));
    model.update(Message::ApplyLightBrightness(text("1"), 1));
    assert_eq!(model.update(Message::ResponsesModified(Err(text("rejected")))), none());
    assert_eq!(brightness_of(&model, "1"), Some(33));
    assert_eq!(model.update(Message::ResponsesModified(Ok(vec![text("ok")]))), none());
}

#[test]
fn failed_fetch_keeps_the_lists() {
    let mut model = furnished(paired());
    let before = furnished(paired());
    assert_eq!(model.update(Message::LightsLoaded(Err(text("timeout")))), none());
    assert_eq!(model.update(Message::GroupsLoaded(Err(text("timeout")))), none());
    assert_eq!(model.update(Message::ScenesLoaded(Err(text("timeout")))), none());
    assert_eq!(model, before);
}

#[test]
fn without_a_bridge_nothing_is_asked() {
    let mut model = furnished(unpaired());
    assert_eq!(model.update(Message::LoadLights), none());
    assert_eq!(model.update(Message::LoadGroups), none());
    assert_eq!(model.update(Message::LoadScenes), none());
    assert_eq!(model.update(Message::PairBridge), none());
    assert_eq!(model.update(Message::ActivateScene(text("s1"))), none());
    assert_eq!(model.update(Message::ToggleLight(text("1"), true)), none());
    assert_eq!(on_of(&model, "1"), Some(true));
    model.update(Message::SetLightBrightness(text("1"), 5));
    assert_eq!(model.update(Message::ApplyLightBrightness(text("1"), 1)), none());
    assert_eq!(model.debouncer.pending_count(), 0);
    let mut half = AppModel::new(Config { bridge_ip: Some(address()), username: None });
    assert_eq!(half.update(Message::LoadLights), none());
    assert_eq!(half.update(Message::PairBridge), vec![Effect::Register(address())]);
}

#[test]
fn discovery_keeps_and_stores_the_address() {
    let mut model = unpaired();
    assert_eq!(model.update(Message::DiscoverBridge), vec![Effect::Discover]);
    assert!(model.is_scanning);
    assert_eq!(
        model.update(Message::BridgeDiscoveryFinished(Ok(address()))),
        vec![Effect::StoreBridgeIp(Some(address()))]
    );
    assert!(!model.is_scanning);
    assert_eq!(model.last_discovery, Some(Ok(address())));
    assert_eq!(model.config.get_bridge_ip(), Some(&address()));
}

#[test]
fn failed_discovery_is_shown() {
    let mut model = unpaired();
    model.update(Message::DiscoverBridge);
    assert_eq!(model.update(Message::BridgeDiscoveryFinished(Err(text("none found")))), none());
    assert!(!model.is_scanning);
    assert_eq!(model.last_discovery, Some(Err(text("none found"))));
    assert_eq!(model.config.get_bridge_ip(), None);
}

#[test]
fn pairing_keeps_the_user_name_and_loads_lights() {
    let mut model = AppModel::new(Config { bridge_ip: Some(address()), username: None });
    assert_eq!(
        model.update(Message::PairBridgeFinished(Ok(text("panel")))),
        vec![
            Effect::StoreUsername(Some(text("panel"))),
            Effect::Emit(Message::LoadLights),
        ]
    );
    assert_eq!(model.config.get_username(), Some("panel"));
    assert_eq!(model.update(Message::PairBridgeFinished(Err(text("press the button")))), none());
    assert_eq!(model.last_discovery, Some(Err(text("press the button"))));
    assert_eq!(model.config.get_username(), Some("panel"));
}

#[test]
fn unpairing_forgets_everything() {
    let mut model = furnished(paired());
    model.update(Message::ToggleMoreMenu);
    assert_eq!(
        model.update(Message::UnpairBridge),
        vec![
            Effect::StoreBridgeIp(None),
            Effect::StoreUsername(None),
            Effect::ClosePopup(PopupKind::MoreMenu),
        ]
    );
    assert_eq!(model.config, Config { bridge_ip: None, username: None });
    assert!(model.store.lights.is_empty());
    assert!(model.store.groups.is_empty());
    assert!(model.store.scenes.is_empty());
    assert!(!model.more_menu_popup);
    assert_eq!(
        model.update(Message::UnpairBridge),
        vec![Effect::StoreBridgeIp(None), Effect::StoreUsername(None)]
    );
}

#[test]
fn opening_the_popup_loads_the_lists_of_a_paired_panel() {
    let mut model = paired();
    assert_eq!(
        model.update(Message::TogglePopup),
        vec![
            Effect::OpenPopup(PopupKind::Main),
            Effect::Emit(Message::LoadLights),
            Effect::Emit(Message::LoadGroups),
            Effect::Emit(Message::LoadScenes),
        ]
    );
    assert!(model.popup);
    assert_eq!(model.update(Message::TogglePopup), vec![Effect::ClosePopup(PopupKind::Main)]);
    assert!(!model.popup);
    let mut fresh = unpaired();
    assert_eq!(fresh.update(Message::TogglePopup), vec![Effect::OpenPopup(PopupKind::Main)]);
    assert_eq!(fresh.update(Message::PopupClosed(PopupKind::MoreMenu)), none());
    assert!(fresh.popup);
    assert_eq!(fresh.update(Message::PopupClosed(PopupKind::Main)), none());
    assert!(!fresh.popup);
}

#[test]
fn a_menu_that_opens_closes_the_others() {
    let mut model = unpaired();
    let menus = |m: &AppModel| {
        (m.lights_menu_expanded, m.groups_menu_expanded, m.scenes_menu_expanded)
    };
    assert_eq!(model.update(Message::ToggleLightsMenu), none());
    assert_eq!(menus(&model), (true, false, false));
    model.update(Message::ToggleGroupsMenu);
    assert_eq!(menus(&model), (false, true, false));
    model.update(Message::ToggleScenesMenu);
    assert_eq!(menus(&model), (false, false, true));
    model.update(Message::ToggleScenesMenu);
    assert_eq!(menus(&model), (false, false, false));
}

#[test]
fn one_resource_owns_the_colour_picker() {
    let mut model = furnished(paired());
    assert_eq!(model.update(Message::ToggleColorPicker(text("1"), ResourceKind::Light)), none());
    assert_eq!(model.active_color_picker_item, Some((text("1"), ResourceKind::Light)));
    assert_eq!(
        model.update(Message::TryToggleColorPicker),
        vec![Effect::Emit(Message::TryToggleColorPicker)]
    );
    assert_eq!(model.update(Message::RectanglesUpdated(RectangleUpdate::Init)), none());
    assert_eq!(
        model.update(Message::RectanglesUpdated(RectangleUpdate::Rectangle(3))),
        vec![Effect::Emit(Message::TryToggleColorPicker)]
    );
    assert!(!model.color_button_located);
    assert_eq!(
        model.update(Message::RectanglesUpdated(RectangleUpdate::Rectangle(0))),
        vec![Effect::Emit(Message::TryToggleColorPicker)]
    );
    assert!(model.color_button_located);
    assert_eq!(
        model.update(Message::TryToggleColorPicker),
        vec![Effect::OpenPopup(PopupKind::ColorPicker)]
    );
    assert!(model.color_picker_popup);
    assert_eq!(model.last_active_color_picker_item, Some(text("1")));
    // Another resource takes the picker: it closes first.
    assert_eq!(
        model.update(Message::ToggleColorPicker(text("g1"), ResourceKind::Group)),
        vec![Effect::ClosePopup(PopupKind::ColorPicker)]
    );
    assert_eq!(model.active_color_picker_item, Some((text("g1"), ResourceKind::Group)));
    assert!(!model.color_picker_popup);
    // The owner gives the picker up.
    assert_eq!(model.update(Message::ToggleColorPicker(text("g1"), ResourceKind::Group)), none());
    assert_eq!(model.active_color_picker_item, None);
    // The resource that had it last gets it back at once.
    assert_eq!(
        model.update(Message::ToggleColorPicker(text("1"), ResourceKind::Light)),
        vec![Effect::OpenPopup(PopupKind::ColorPicker)]
    );
    assert_eq!(
        model.update(Message::TryToggleColorPicker),
        vec![Effect::ClosePopup(PopupKind::ColorPicker)]
    );
    assert!(!model.color_button_located);
}

#[test]
fn more_menu_opens_and_closes() {
    let mut model = paired();
    assert_eq!(model.update(Message::ToggleMoreMenu), vec![Effect::OpenPopup(PopupKind::MoreMenu)]);
    assert!(model.more_menu_popup);
    assert_eq!(model.update(Message::ToggleMoreMenu), vec![Effect::ClosePopup(PopupKind::MoreMenu)]);
    assert!(!model.more_menu_popup);
}

#[test]
fn on_commit_fire_pushes_the_pending_value() {
    let mut model = furnished(paired());
    let commit = model
        .submit_edit(ResourceKind::Group, text("g1"), EditValue::Brightness(77))
        .unwrap();
    let key = commit.key.copy();
    assert_eq!(commit_message_of(commit), Message::ApplyGroupBrightness(text("g1"), 1));
    assert_eq!(
        model.on_commit_fire(key.copy(), 1),
        vec![Effect::Push(bridge(), ResourceKind::Group, text("g1"), StateChange::Brightness(77))]
    );
    assert_eq!(model.on_commit_fire(key, 1), none());
}

#[test]
fn commit_messages_name_kind_and_attribute() {
    let commit = |kind, attribute| ScheduledCommit {
        key: EditKey { kind, attribute, id: text("x") },
        counter: 5,
        delay_ms: 300,
    };
    assert_eq!(
        commit_message_of(commit(ResourceKind::Light, AttributeClass::Brightness)),
        Message::ApplyLightBrightness(text("x"), 5)
    );
    assert_eq!(
        commit_message_of(commit(ResourceKind::Light, AttributeClass::Color)),
        Message::ApplyLightColor(text("x"), 5)
    );
    assert_eq!(
        commit_message_of(commit(ResourceKind::Group, AttributeClass::Color)),
        Message::ApplyGroupColor(text("x"), 5)
    );
}
