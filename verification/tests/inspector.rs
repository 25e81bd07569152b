use hilen::inspector::{
    app_id, find_repr, resolved_app, AppRegistry, Discovery, ViewInspectorView, ViewRepr,
};

fn leaf(id: &str) -> ViewRepr {
    ViewRepr { id: id.to_string(), label: format!("{id} label"), subviews: vec![] }
}

#[test]
fn discovery_adds_then_updates() {
    let mut apps: AppRegistry<u16> = AppRegistry::new();
    assert_eq!(apps.app_discovered("a".to_string(), 1, false), Discovery::Added { connect: true });
    assert_eq!(apps.app_discovered("b".to_string(), 2, true), Discovery::Added { connect: false });
    assert_eq!(apps.app_discovered("a".to_string(), 3, true), Discovery::Updated);
    assert_eq!(apps.address_of(&"a".to_string()), Some(3));
    assert_eq!(apps.address_of(&"c".to_string()), None);
    assert_eq!(apps.client_ids(), vec!["a".to_string(), "b".to_string()]);
}

#[test]
fn removal_strips_the_service_type() {
    let mut apps: AppRegistry<u16> = AppRegistry::new();
    apps.app_discovered("app-1".to_string(), 1, false);
    apps.app_discovered("app-2".to_string(), 2, true);
    apps.app_removed("app-1._hilen._tcp.local.", "_hilen._tcp.local.");
    assert_eq!(apps.client_ids(), vec!["app-2".to_string()]);
    assert_eq!(apps.address_of(&"app-1".to_string()), None);
    assert_eq!(apps.address_of(&"app-2".to_string()), Some(2));
    apps.app_removed("app-2", "_hilen._tcp.local.");
    assert!(apps.client_ids().is_empty());
    assert_eq!(app_id("x._s", "_s"), "x");
    assert_eq!(app_id("x_s", "_s"), "x_s");
}

#[test]
fn find_repr_searches_depth_first() {
    let tree = ViewRepr {
        id: "root".to_string(),
        label: "root".to_string(),
        subviews: vec![
            ViewRepr { id: "a".to_string(), label: "first".to_string(), subviews: vec![leaf("b")] },
            ViewRepr { id: "b".to_string(), label: "second".to_string(), subviews: vec![] },
        ],
    };
    assert_eq!(find_repr(&tree, &"b".to_string()).unwrap().label, "b label");
    assert_eq!(find_repr(&tree, &"root".to_string()).unwrap().label, "root");
    assert!(find_repr(&tree, &"z".to_string()).is_none());
}

#[test]
fn inspector_shows_label_and_id() {
    let mut view = ViewInspectorView::new();
    view.set_view(&leaf("button"));
    assert_eq!(view.label_text, "Label: button label");
    assert_eq!(view.id_text, "button");
    assert_eq!(view.id_text_size, 10);
    assert_eq!(view.view_id, Some("button".to_string()));
}

#[test]
fn a_resolved_app_is_reached_over_ipv4_first() {
    let addrs = vec![(false, "fe80::1"), (true, "192.168.1.5"), (true, "10.0.0.2")];
    assert_eq!(resolved_app(Some("game"), "me", &addrs), Some(("game".to_string(), "192.168.1.5")));
    let v6 = vec![(false, "fe80::1"), (false, "fe80::2")];
    assert_eq!(resolved_app(Some("game"), "me", &v6), Some(("game".to_string(), "fe80::1")));
    assert_eq!(resolved_app(Some("me"), "me", &addrs), None);
    assert_eq!(resolved_app(None, "me", &addrs), None);
    assert_eq!(resolved_app::<&str>(Some("game"), "me", &vec![]), None);
}
