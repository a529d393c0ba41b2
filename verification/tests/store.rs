use cosmic_hue::color::{hsv_to_rgb, Rgb};
use cosmic_hue::store::{
    change_light_by_id, change_member_lights, copy_texts, find_group, find_id, find_light,
    find_scene, group_from, light_from, on_state_of_members, scene_from, Change, FetchedGroup,
    FetchedLight, FetchedScene, GroupVm, LightVm, SceneVm, ViewStore,
};

fn text(t: &str) -> String {
    t.to_string()
}

fn fetched_light(id: &str, name: &str, on: Option<bool>) -> FetchedLight {
    FetchedLight {
        id: text(id),
        name: text(name),
        on,
        brightness: Some(100),
        hue: Some(0),
        saturation: Some(254),
    }
}

fn fetched_group(id: &str, name: &str, any_on: Option<bool>, lights: &[&str]) -> FetchedGroup {
    FetchedGroup {
        id: text(id),
        name: text(name),
        any_on,
        lights: lights.iter().map(|l| text(l)).collect(),
    }
}

fn light_names(store: &ViewStore) -> Vec<String> {
    store.lights.iter().map(|l| l.name.clone()).collect()
}

fn store_with_three_lights() -> ViewStore {
    let mut store = ViewStore::new();
    store.replace_lights(&vec![
        fetched_light("1", "Desk", Some(false)),
        fetched_light("2", "Bed", Some(false)),
        fetched_light("3", "Hall", None),
    ]);
    store
}

#[test]
fn new_store_shows_nothing() {
    let store = ViewStore::new();
    assert!(store.lights.is_empty());
    assert!(store.groups.is_empty());
    assert!(store.scenes.is_empty());
}

#[test]
fn lights_are_sorted_by_name_ignoring_case() {
    let mut store = ViewStore::new();
    store.replace_lights(&vec![
        fetched_light("1", "Zeta", Some(true)),
        fetched_light("2", "alpha", Some(true)),
        fetched_light("3", "Beta", Some(true)),
    ]);
    assert_eq!(light_names(&store), vec![text("alpha"), text("Beta"), text("Zeta")]);
}

#[test]
fn lights_with_equal_names_keep_their_order() {
    let mut store = ViewStore::new();
    store.replace_lights(&vec![
        fetched_light("1", "lamp", Some(true)),
        fetched_light("2", "Lamp", Some(true)),
        fetched_light("3", "LAMP", Some(true)),
        fetched_light("4", "Door", Some(true)),
    ]);
    let ids: Vec<String> = store.lights.iter().map(|l| l.id.clone()).collect();
    assert_eq!(ids, vec![text("4"), text("1"), text("2"), text("3")]);
}

#[test]
fn replacing_lights_drops_the_old_ones() {
    let mut store = store_with_three_lights();
    store.replace_lights(&vec![fetched_light("9", "Only", Some(true))]);
    assert_eq!(light_names(&store), vec![text("Only")]);
    store.replace_lights(&Vec::new());
    assert!(store.lights.is_empty());
}

#[test]
fn light_shows_what_the_bridge_reports() {
    let fetched = FetchedLight {
        id: text("7"),
        name: text("Lamp"),
        on: Some(true),
        brightness: Some(200),
        hue: Some(10000),
        saturation: Some(100),
    };
    assert_eq!(
        light_from(&fetched),
        LightVm {
            id: text("7"),
            name: text("Lamp"),
            on: Some(true),
            brightness: Some(200),
            color: Some(Rgb { red: 3329178000, green: 3218478000, blue: 2018478000 }),
        }
    );
}

#[test]
fn light_without_state_is_black() {
    let fetched = FetchedLight {
        id: text("7"),
        name: text("Lamp"),
        on: None,
        brightness: None,
        hue: None,
        saturation: None,
    };
    let light = light_from(&fetched);
    assert_eq!(light.on, None);
    assert_eq!(light.brightness, None);
    assert_eq!(light.color, Some(Rgb { red: 0, green: 0, blue: 0 }));
}

#[test]
fn scene_without_group_acts_on_the_empty_id() {
    let with = FetchedScene { id: text("s1"), name: text("Relax"), group: Some(text("g1")) };
    let without = FetchedScene { id: text("s2"), name: text("Party"), group: None };
    assert_eq!(
        scene_from(&with),
        SceneVm { id: text("s1"), name: text("Relax"), group: text("g1") }
    );
    assert_eq!(
        scene_from(&without),
        SceneVm { id: text("s2"), name: text("Party"), group: text("") }
    );
}

#[test]
fn scenes_are_sorted_by_name_ignoring_case() {
    let mut store = ViewStore::new();
    store.replace_scenes(&vec![
        FetchedScene { id: text("s1"), name: text("relax"), group: Some(text("g1")) },
        FetchedScene { id: text("s2"), name: text("Bright"), group: None },
        FetchedScene { id: text("s3"), name: text("Night"), group: Some(text("g2")) },
    ]);
    let names: Vec<String> = store.scenes.iter().map(|s| s.name.clone()).collect();
    assert_eq!(names, vec![text("Bright"), text("Night"), text("relax")]);
    assert_eq!(store.scene_group(&text("s3")), Some(text("g2")));
    assert_eq!(store.scene_group(&text("s2")), Some(text("")));
    assert_eq!(store.scene_group(&text("s9")), None);
}

#[test]
fn group_mirrors_its_first_member() {
    let mut store = ViewStore::new();
    store.replace_lights(&vec![
        FetchedLight {
            id: text("1"),
            name: text("Desk"),
            on: Some(true),
            brightness: Some(42),
            hue: Some(21845),
            saturation: Some(254),
        },
        fetched_light("2", "Bed", Some(false)),
    ]);
    store.replace_groups(&vec![fetched_group("g1", "Room", Some(true), &["1", "2"])]);
    assert_eq!(
        store.groups,
        vec![GroupVm {
            id: text("g1"),
            name: text("Room"),
            on: Some(true),
            brightness: Some(42),
            color: Some(hsv_to_rgb(Some(21845), Some(254), Some(42))),
            lights: vec![text("1"), text("2")],
        }]
    );
}

#[test]
fn group_without_members_is_dark() {
    let mut store = store_with_three_lights();
    store.replace_groups(&vec![fetched_group("g1", "Empty", Some(false), &[])]);
    assert_eq!(store.groups[0].brightness, None);
    assert_eq!(store.groups[0].color, Some(Rgb { red: 0, green: 0, blue: 0 }));
    assert_eq!(store.groups[0].lights, Vec::<String>::new());
}

#[test]
fn group_with_unknown_first_member_is_dark() {
    let mut store = store_with_three_lights();
    store.replace_groups(&vec![fetched_group("g1", "Ghost", Some(false), &["77", "1"])]);
    assert_eq!(store.groups[0].brightness, None);
    assert_eq!(store.groups[0].color, Some(Rgb { red: 0, green: 0, blue: 0 }));
}

#[test]
fn group_without_state_takes_it_from_its_members() {
    let lights = vec![
        light_from(&fetched_light("1", "Desk", Some(false))),
        light_from(&fetched_light("2", "Bed", Some(true))),
        light_from(&fetched_light("3", "Hall", None)),
    ];
    let on = |members: &[&str]| {
        on_state_of_members(&lights, &members.iter().map(|m| text(m)).collect())
    };
    assert_eq!(on(&["1", "2", "3"]), Some(true));
    assert_eq!(on(&["1", "3"]), Some(false));
    assert_eq!(on(&["3"]), None);
    assert_eq!(on(&["77"]), None);
    assert_eq!(on(&[]), None);
    let explicit = group_from(&fetched_group("g", "G", Some(false), &["2"]), &lights);
    assert_eq!(explicit.on, Some(false));
    let derived = group_from(&fetched_group("g", "G", None, &["2"]), &lights);
    assert_eq!(derived.on, Some(true));
}

#[test]
fn groups_are_sorted_by_name_ignoring_case() {
    let mut store = ViewStore::new();
    store.replace_groups(&vec![
        fetched_group("g1", "upstairs", Some(true), &[]),
        fetched_group("g2", "Kitchen", Some(true), &[]),
        fetched_group("g3", "attic", Some(true), &[]),
    ]);
    let names: Vec<String> = store.groups.iter().map(|g| g.name.clone()).collect();
    assert_eq!(names, vec![text("attic"), text("Kitchen"), text("upstairs")]);
}

#[test]
fn toggling_a_light_sets_its_state_only() {
    let mut store = store_with_three_lights();
    assert!(store.toggle_light(&text("1"), true));
    let states: Vec<(String, Option<bool>)> =
        store.lights.iter().map(|l| (l.id.clone(), l.on)).collect();
    assert_eq!(
        states,
        vec![(text("2"), Some(false)), (text("1"), Some(true)), (text("3"), None)]
    );
}

#[test]
fn toggling_an_unknown_light_changes_nothing() {
    let mut store = store_with_three_lights();
    let before = store_with_three_lights();
    assert!(!store.toggle_light(&text("77"), true));
    assert_eq!(store, before);
}

#[test]
fn toggling_a_group_sets_every_member_light() {
    let mut store = store_with_three_lights();
    store.replace_groups(&vec![
        fetched_group("g1", "Room", Some(false), &["1", "3", "77"]),
        fetched_group("g2", "Other", Some(false), &["2"]),
    ]);
    assert!(store.toggle_group(&text("g1"), true));
    let on_of = |id: &str| store.lights.iter().find(|l| l.id == id).unwrap().on;
    assert_eq!(on_of("1"), Some(true));
    assert_eq!(on_of("3"), Some(true));
    assert_eq!(on_of("2"), Some(false));
    let group_on = |id: &str| store.groups.iter().find(|g| g.id == id).unwrap().on;
    assert_eq!(group_on("g1"), Some(true));
    assert_eq!(group_on("g2"), Some(false));
}

#[test]
fn toggling_a_group_without_members_does_not_fail() {
    let mut store = store_with_three_lights();
    let lights_before = store_with_three_lights().lights;
    store.replace_groups(&vec![fetched_group("g1", "Empty", Some(false), &[])]);
    assert!(store.toggle_group(&text("g1"), true));
    assert_eq!(store.groups[0].on, Some(true));
    assert_eq!(store.groups[0].brightness, None);
    assert_eq!(store.groups[0].color, Some(Rgb { red: 0, green: 0, blue: 0 }));
    assert_eq!(store.lights, lights_before);
    assert!(!store.toggle_group(&text("g9"), true));
}

#[test]
fn group_brightness_reaches_the_members() {
    let mut store = store_with_three_lights();
    store.replace_groups(&vec![fetched_group("g1", "Room", Some(true), &["1", "2"])]);
    assert!(store.change_group(&text("g1"), Change::Brightness(7)));
    assert_eq!(store.groups[0].brightness, Some(7));
    let level_of = |id: &str| store.lights.iter().find(|l| l.id == id).unwrap().brightness;
    assert_eq!(level_of("1"), Some(7));
    assert_eq!(level_of("2"), Some(7));
    assert_eq!(level_of("3"), Some(100));
}

#[test]
fn group_with_unknown_brightness_keeps_it_unknown() {
    let mut store = store_with_three_lights();
    store.replace_groups(&vec![fetched_group("g1", "Ghost", Some(true), &["77", "1"])]);
    let lights_before = store_with_three_lights().lights;
    assert!(store.change_group(&text("g1"), Change::Brightness(7)));
    assert_eq!(store.groups[0].brightness, None);
    assert_eq!(store.lights, lights_before);
}

#[test]
fn group_colour_reaches_the_members() {
    let mut store = store_with_three_lights();
    store.replace_groups(&vec![fetched_group("g1", "Room", Some(true), &["3"])]);
    let blue = Rgb { red: 0, green: 0, blue: 5 };
    assert!(store.change_group(&text("g1"), Change::Color(blue)));
    assert_eq!(store.groups[0].color, Some(blue));
    let colour_of = |id: &str| store.lights.iter().find(|l| l.id == id).unwrap().color;
    assert_eq!(colour_of("3"), Some(blue));
    assert_ne!(colour_of("1"), Some(blue));
}

#[test]
fn an_id_names_the_first_resource_that_carries_it() {
    let mut lights = vec![
        light_from(&fetched_light("1", "First", Some(false))),
        light_from(&fetched_light("1", "Second", Some(false))),
        light_from(&fetched_light("2", "Third", Some(false))),
    ];
    assert_eq!(find_light(&lights, &text("1")), Some(0));
    assert_eq!(find_light(&lights, &text("2")), Some(2));
    assert_eq!(find_light(&lights, &text("3")), None);
    assert!(change_light_by_id(&mut lights, &text("1"), Change::On(true)));
    assert_eq!(lights[0].on, Some(true));
    assert_eq!(lights[1].on, Some(false));
    change_member_lights(&mut lights, &vec![text("1"), text("2"), text("1")], Change::Brightness(3));
    let levels: Vec<Option<u8>> = lights.iter().map(|l| l.brightness).collect();
    assert_eq!(levels, vec![Some(3), Some(100), Some(3)]);
}

#[test]
fn lookups_find_groups_scenes_and_texts() {
    let lights: Vec<LightVm> = Vec::new();
    let groups = vec![
        group_from(&fetched_group("g1", "A", None, &[]), &lights),
        group_from(&fetched_group("g2", "B", None, &[]), &lights),
    ];
    assert_eq!(find_group(&groups, &text("g2")), Some(1));
    assert_eq!(find_group(&groups, &text("g3")), None);
    let scenes = vec![scene_from(&FetchedScene { id: text("s1"), name: text("S"), group: None })];
    assert_eq!(find_scene(&scenes, &text("s1")), Some(0));
    assert_eq!(find_scene(&scenes, &text("")), None);
    let texts = vec![text("a"), text("b"), text("a")];
    assert_eq!(find_id(&texts, &text("a")), Some(0));
    assert_eq!(find_id(&texts, &text("b")), Some(1));
    assert_eq!(find_id(&texts, &text("c")), None);
    assert_eq!(copy_texts(&texts), texts);
}

#[test]
fn clearing_forgets_everything() {
    let mut store = store_with_three_lights();
    store.replace_groups(&vec![fetched_group("g1", "Room", Some(true), &["1"])]);
    store.replace_scenes(&vec![FetchedScene { id: text("s"), name: text("S"), group: None }]);
    store.clear();
    assert_eq!(store, ViewStore::new());
}
