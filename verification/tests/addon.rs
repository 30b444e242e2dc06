use addon_core::addon::{Addon, AddonDetails, AddonState};
use std::cmp::Ordering;

fn addon(id: &str, version: Option<&str>) -> Addon {
    Addon::new(
        format!("{} title", id),
        version.map(|v| v.to_string()),
        format!("/games/addons/{}", id),
        None,
        vec![],
    )
}

fn patch(id: &str, version: &str) -> AddonDetails {
    AddonDetails {
        id: id.to_string(),
        version: version.to_string(),
        filename: format!("{}-{}.zip", id, version),
    }
}

fn updatable(id: &str) -> Addon {
    let mut a = addon(id, Some("1.0"));
    a.apply_details(&patch(id, "2.0"));
    a
}

#[test]
fn new_takes_the_id_from_the_last_component() {
    let a = Addon::new(
        "Big Wigs".to_string(),
        Some("v12".to_string()),
        "/games/addons/BigWigs".to_string(),
        Some("5086".to_string()),
        vec!["BigWigs_Core".to_string(), "LittleWigs".to_string()],
    );
    assert_eq!(a.id, "BigWigs");
    assert_eq!(a.title, "Big Wigs");
    assert_eq!(a.version, Some("v12".to_string()));
    assert_eq!(a.remote_version, None);
    assert_eq!(a.remote_filename, None);
    assert_eq!(a.remote_url, None);
    assert_eq!(a.path, "/games/addons/BigWigs");
    assert_eq!(a.dependencies, vec!["BigWigs_Core".to_string(), "LittleWigs".to_string()]);
    assert_eq!(a.state, AddonState::Idle(None));
    assert_eq!(a.wowi_id, Some("5086".to_string()));
}

#[test]
fn new_ignores_a_trailing_separator() {
    let a = Addon::new("t".to_string(), None, "addons/Details/".to_string(), None, vec![]);
    assert_eq!(a.id, "Details");
    assert_eq!(a.path, "addons/Details/");
}

#[test]
fn new_of_a_bare_name() {
    let a = Addon::new("t".to_string(), None, "Recount".to_string(), None, vec![]);
    assert_eq!(a.id, "Recount");
}

#[test]
fn try_new_is_new_where_the_path_has_a_name() {
    let a = Addon::try_new(
        "t".to_string(),
        Some("1".to_string()),
        "/x/y/Skada".to_string(),
        None,
        vec!["Ace3".to_string()],
    )
    .unwrap();
    assert_eq!(a.id, "Skada");
    assert_eq!(a.version, Some("1".to_string()));
    assert_eq!(a.dependencies, vec!["Ace3".to_string()]);
    assert_eq!(a.state, AddonState::Idle(None));
    assert_eq!(a.remote_version, None);
}

#[test]
fn try_new_refuses_a_path_without_a_name() {
    assert!(Addon::try_new("t".to_string(), None, "".to_string(), None, vec![]).is_none());
    assert!(Addon::try_new("t".to_string(), None, "/".to_string(), None, vec![]).is_none());
    assert!(Addon::try_new("t".to_string(), None, "/x/..".to_string(), None, vec![]).is_none());
}

#[test]
fn is_parent_means_a_version() {
    assert!(addon("A", Some("1.0")).is_parent());
    assert!(addon("A", Some("")).is_parent());
    assert!(!addon("A", None).is_parent());
}

#[test]
fn not_updatable_without_a_remote_version() {
    assert!(!addon("A", Some("1.0")).is_updatable());
    assert!(!addon("A", None).is_updatable());
}

#[test]
fn updatable_iff_remote_differs_from_local() {
    let mut same = addon("A", Some("1.0"));
    same.remote_version = Some("1.0".to_string());
    assert!(!same.is_updatable());

    let mut newer = addon("A", Some("1.0"));
    newer.remote_version = Some("1.1".to_string());
    assert!(newer.is_updatable());

    let mut older = addon("A", Some("1.0"));
    older.remote_version = Some("0.9".to_string());
    assert!(older.is_updatable());

    let mut unversioned = addon("A", None);
    unversioned.remote_version = Some("1.0".to_string());
    assert!(unversioned.is_updatable());

    let mut empty = addon("A", Some(""));
    empty.remote_version = Some("".to_string());
    assert!(!empty.is_updatable());
}

#[test]
fn apply_details_overwrites_remote_fields_and_flags() {
    let mut a = addon("A", Some("1.0"));
    a.apply_details(&patch("A", "2.0"));
    assert_eq!(a.remote_version, Some("2.0".to_string()));
    assert_eq!(a.remote_filename, Some("A-2.0.zip".to_string()));
    assert_eq!(a.state, AddonState::Updatable);
    assert!(a.is_updatable());
    assert_eq!(a.version, Some("1.0".to_string()));
    assert_eq!(a.id, "A");
    assert_eq!(a.title, "A title");
    assert_eq!(a.remote_url, None);

    a.apply_details(&patch("A", "3.0"));
    assert_eq!(a.remote_version, Some("3.0".to_string()));
    assert_eq!(a.remote_filename, Some("A-3.0.zip".to_string()));
    assert_eq!(a.state, AddonState::Updatable);
}

#[test]
fn apply_details_leaves_the_state_where_versions_agree() {
    let mut a = addon("A", Some("1.0"));
    a.state = AddonState::Idle(Some("checked".to_string()));
    a.apply_details(&patch("A", "1.0"));
    assert_eq!(a.remote_version, Some("1.0".to_string()));
    assert_eq!(a.remote_filename, Some("A-1.0.zip".to_string()));
    assert_eq!(a.state, AddonState::Idle(Some("checked".to_string())));
    assert!(!a.is_updatable());

    let mut d = addon("D", Some("1.0"));
    d.state = AddonState::Downloading;
    d.apply_details(&patch("D", "1.0"));
    assert_eq!(d.state, AddonState::Downloading);
}

#[test]
fn apply_details_never_demotes() {
    let mut a = updatable("A");
    assert_eq!(a.state, AddonState::Updatable);
    a.apply_details(&patch("A", "1.0"));
    assert!(!a.is_updatable());
    assert_eq!(a.state, AddonState::Updatable);
}

#[test]
fn apply_details_does_not_look_at_the_id() {
    let mut a = addon("A", Some("1.0"));
    a.apply_details(&patch("SomethingElse", "2.0"));
    assert_eq!(a.id, "A");
    assert_eq!(a.remote_version, Some("2.0".to_string()));
    assert_eq!(a.state, AddonState::Updatable);
}

#[test]
fn apply_details_twice_is_once() {
    for (local, remote) in [(Some("1.0"), "2.0"), (Some("1.0"), "1.0"), (None, "1.0")] {
        let mut once = addon("A", local);
        once.state = AddonState::Unpacking;
        once.apply_details(&patch("A", remote));
        let mut twice = once.clone();
        twice.apply_details(&patch("A", remote));
        assert_eq!(twice.remote_version, once.remote_version);
        assert_eq!(twice.remote_filename, once.remote_filename);
        assert_eq!(twice.state, once.state);
        assert_eq!(twice.version, once.version);
    }
}

#[test]
fn equality_is_by_id_alone() {
    let a = addon("A", Some("1.0"));
    let mut b = updatable("A");
    b.title = "another".to_string();
    b.dependencies.push("X".to_string());
    assert!(a == b);
    assert!(a != addon("B", Some("1.0")));
    assert!(addon("a", None) != addon("A", None));
}

#[test]
fn cmp_puts_updatable_first_then_orders_by_id() {
    assert_eq!(updatable("Zeta").cmp(&addon("Alpha", Some("1"))), Ordering::Less);
    assert_eq!(addon("Alpha", Some("1")).cmp(&updatable("Zeta")), Ordering::Greater);
    assert_eq!(updatable("Beta").cmp(&updatable("Zeta")), Ordering::Less);
    assert_eq!(updatable("Zeta").cmp(&updatable("Beta")), Ordering::Greater);
    assert_eq!(addon("Alpha", None).cmp(&addon("Beta", None)), Ordering::Less);
    assert_eq!(addon("Alpha", None).cmp(&addon("Alpha", Some("2"))), Ordering::Equal);
    assert_eq!(addon("Alpha", None).cmp(&addon("Alph", None)), Ordering::Greater);
    assert_eq!(addon("Zeta", None).cmp(&addon("alpha", None)), Ordering::Less);
}

#[test]
fn partial_cmp_is_the_canonical_order() {
    let z = updatable("Zeta");
    let a = addon("Alpha", Some("1"));
    let b = updatable("Beta");
    assert_eq!(z.partial_cmp(&a), Some(Ordering::Less));
    assert_eq!(a.partial_cmp(&z), Some(Ordering::Greater));
    assert_eq!(b.partial_cmp(&z), Some(Ordering::Less));
    assert_eq!(a.partial_cmp(&a), Some(Ordering::Equal));
    assert!(z < a);
    assert!(b < z);
    assert!(a > b);
    assert!(a <= a);
}

#[test]
fn sorting_shows_what_needs_attention_first() {
    let mut addons = vec![updatable("Zeta"), addon("Alpha", Some("1.0")), updatable("Beta")];
    addons.sort_by(|a, b| a.cmp(b));
    let ids: Vec<&str> = addons.iter().map(|a| a.id.as_str()).collect();
    assert_eq!(ids, vec!["Beta", "Zeta", "Alpha"]);
}

#[test]
fn sorting_a_larger_collection() {
    let mut addons = vec![
        addon("m", None),
        updatable("x"),
        addon("B", Some("1")),
        updatable("C"),
        addon("a", None),
        updatable("b"),
    ];
    addons.sort_by(|a, b| a.partial_cmp(b).unwrap());
    let ids: Vec<&str> = addons.iter().map(|a| a.id.as_str()).collect();
    assert_eq!(ids, vec!["C", "b", "x", "B", "a", "m"]);
    for i in 0..addons.len() {
        for j in i + 1..addons.len() {
            assert!(addons[i].is_updatable() || !addons[j].is_updatable());
            if addons[i].is_updatable() == addons[j].is_updatable() {
                assert!(addons[i].id < addons[j].id);
            }
        }
    }
}
