use hyperv_provisioner::config::{VMConnectionSettings, VMSettingsStore};

#[test]
fn unknown_machine_gets_defaults() {
    let store = VMSettingsStore::new();
    let s = store.get("nothing");
    assert_eq!(s.resolution_w, 1920);
    assert_eq!(s.resolution_h, 1080);
    assert_eq!(s.scale, 100);
    assert_eq!(s.username.as_deref(), Some("Administrator"));
    assert!(s.password.is_none());
    assert!(s.shared_drives.is_empty());
    assert!(!s.fullscreen);
}

#[test]
fn saved_settings_come_back_and_are_replaced() {
    let mut store = VMSettingsStore::new();
    let mut s = VMConnectionSettings::default();
    s.scale = 150;
    s.shared_drives = vec!["C:".to_string()];
    store.set("vm1".to_string(), s);
    let mut t = VMConnectionSettings::default();
    t.cpu_count = Some(8);
    store.set("vm2".to_string(), t);
    assert_eq!(store.get("vm1").scale, 150);
    assert_eq!(store.get("vm1").shared_drives, vec!["C:".to_string()]);
    let mut u = VMConnectionSettings::default();
    u.scale = 200;
    store.set("vm1".to_string(), u);
    assert_eq!(store.get("vm1").scale, 200);
    assert_eq!(store.get("vm2").cpu_count, Some(8));
    assert_eq!(store.entries().len(), 2);
}
