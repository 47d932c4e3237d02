use rust_virtio_gpu::waydroid::text::{ensure_line_content, patch_props_content};
use rust_virtio_gpu::waydroid::{mount_entry, WaydroidVenusConfig};

#[test]
fn init_env_contains_vulkan_and_vtest() {
    let config = WaydroidVenusConfig::default();
    let env = config.guest_env_lines();
    assert!(env.iter().any(|line| line == "export VN_DEBUG vtest"));
    assert!(env
        .iter()
        .any(|line| line.starts_with("export VTEST_SOCKET_NAME ")));
    assert!(env
        .iter()
        .any(|line| line.starts_with("export VK_DRIVER_FILES ")));
}

#[test]
fn default_setup_targets_waydroid_prop() {
    let config = WaydroidVenusConfig::default();
    assert_eq!(config.waydroid_props.len(), 1);
    assert!(config.waydroid_props[0].ends_with("waydroid.prop"));
}

#[test]
fn props_are_stable() {
    assert_eq!(WaydroidVenusConfig::prop_lines().len(), 3);
}

#[test]
fn default_paths_are_under_the_waydroid_root() {
    let config = WaydroidVenusConfig::default();
    assert_eq!(config.config_session, "/var/lib/waydroid/config_session");
    assert_eq!(config.waydroid_props, vec!["/var/lib/waydroid/waydroid.prop".to_string()]);
    assert_eq!(config.socket_host, "/tmp/.virgl_test");
    assert_eq!(config.server, "virgl_test_server");
    assert_eq!(
        config.vulkan_icd.as_deref(),
        Some("/vendor/etc/vulkan/icd.d/virtio_icd.x86_64.json")
    );
}

#[test]
fn guest_environment_names_socket_and_icd() {
    let mut config = WaydroidVenusConfig::default();
    config.vulkan_icd = None;
    let env = config.guest_env_lines();
    assert_eq!(
        env,
        vec![
            "export VN_DEBUG vtest".to_string(),
            "export VTEST_SOCKET_NAME /run/xdg/.virgl_test".to_string(),
            "export VK_DRIVER_FILES /vendor/etc/vulkan/icd.d/virtio_icd.x86_64.json".to_string(),
            "export LIBGL_ALWAYS_SOFTWARE 1".to_string(),
            "export GALLIUM_DRIVER virpipe".to_string(),
            "export LIBVA_DRIVER_NAME virtio_gpu".to_string(),
        ]
    );
}

#[test]
fn config_session_entry_binds_the_socket() {
    let config = WaydroidVenusConfig::default();
    assert_eq!(
        config.config_session_entry(),
        "lxc.mount.entry = /tmp/.virgl_test run/xdg/.virgl_test none bind,create=file,optional 0 0"
    );
}

#[test]
fn config_session_patch_is_idempotent_on_text() {
    let config = WaydroidVenusConfig::default();
    let patched = config
        .patch_config_session_content("lxc.arch = linux\n")
        .expect("entry is added");
    assert_eq!(
        patched,
        "lxc.arch = linux\nlxc.mount.entry = /tmp/.virgl_test run/xdg/.virgl_test none bind,create=file,optional 0 0\n"
    );
    assert_eq!(config.patch_config_session_content(&patched), None);
    assert_eq!(
        patched
            .lines()
            .filter(|line| line.starts_with("lxc.mount.entry = /tmp/.virgl_test "))
            .count(),
        1
    );
}

#[test]
fn ensure_line_separates_and_trims() {
    assert_eq!(ensure_line_content("", "a = b"), Some("a = b\n".to_string()));
    assert_eq!(ensure_line_content("x", "a = b"), Some("x\na = b\n".to_string()));
    assert_eq!(ensure_line_content("x\n  a = b \r\n", " a = b"), None);
    assert_eq!(ensure_line_content("x\ny", "y"), None);
}

#[test]
fn props_replace_the_first_setting_and_drop_the_others() {
    let content = "ro.a=1\nro.hardware.vulkan=swiftshader\nro.b=2\nro.hardware.vulkan=other";
    let patched = patch_props_content(content, &["ro.hardware.vulkan=virtio"]);
    assert_eq!(patched, "ro.a=1\nro.hardware.vulkan=virtio\nro.b=2\n");
}

#[test]
fn props_are_appended_when_missing() {
    let config = WaydroidVenusConfig::default();
    let patched = config.patch_props_content("ro.a=1\n");
    assert_eq!(
        patched,
        "ro.a=1\nro.hardware.vulkan=virtio\nro.hardware.egl=mesa\nro.hardware.gralloc=gbm\n"
    );
    assert_eq!(config.patch_props_content(&patched), patched);
    assert_eq!(
        config.patch_props_content(""),
        "ro.hardware.vulkan=virtio\nro.hardware.egl=mesa\nro.hardware.gralloc=gbm\n"
    );
}

#[test]
fn init_environ_gains_section_and_missing_lines() {
    let config = WaydroidVenusConfig::default();
    let (patched, changed) = config.patch_init_environ_content("import /init.rc\n");
    assert!(changed);
    assert!(patched.starts_with("import /init.rc\n\non init\n"));
    assert!(patched.contains("    export VN_DEBUG vtest\n"));
    assert!(patched.ends_with("    export LIBVA_DRIVER_NAME virtio_gpu\n"));
    let (again, changed_again) = config.patch_init_environ_content(&patched);
    assert!(!changed_again);
    assert_eq!(again, patched);
}

#[test]
fn relative_guest_socket_is_kept_as_written() {
    let mut config = WaydroidVenusConfig::default();
    config.socket_guest = "run/sock".to_string();
    assert_eq!(
        config.config_session_entry(),
        "lxc.mount.entry = /tmp/.virgl_test run/sock none bind,create=file,optional 0 0"
    );
}

#[test]
fn mount_entry_binds_host_to_guest_path() {
    assert_eq!(
        mount_entry("/tmp/sock", "run/g"),
        "lxc.mount.entry = /tmp/sock run/g none bind,create=file,optional 0 0"
    );
    assert_eq!(mount_entry("", ""), "lxc.mount.entry =   none bind,create=file,optional 0 0");
}
