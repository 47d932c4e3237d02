//! Configuration of a Waydroid container for Mesa's vtest Venus path: the
//! socket bind of the LXC session, the guest environment of `init.environ.rc`
//! and the Android properties that select the virtio Vulkan stack. The
//! files are read and written by the launcher; the edits are computed here.

pub mod text;

use crate::waydroid::text::{
    distinct_props, ensure_line_content, has_exact_line, has_trimmed_line, lemma_prop_key_at,
    lemma_props_set, lemma_with_line_has_line, lemma_with_line_once, exactly_one_trimmed_line, no_feed, patch_init_environ_content, patch_props_content,
    patched_init_environ, prop_key, trim, with_line, with_props,
};
use vstd::prelude::*;
use vstd::string::*;

verus! {

/// Host path of the vtest server socket.
pub const DEFAULT_VTEST_SOCKET: &'static str = "/tmp/.virgl_test";

/// Path of the vtest socket inside the container.
pub const DEFAULT_GUEST_SOCKET: &'static str = "/run/xdg/.virgl_test";

/// The Venus ICD manifest inside the Android image.
pub const DEFAULT_VENUS_ICD: &'static str = "/vendor/etc/vulkan/icd.d/virtio_icd.x86_64.json";

/// Waydroid's state directory on the host.
pub const DEFAULT_WAYDROID_ROOT: &'static str = "/var/lib/waydroid";

/// What the launcher needs: the vtest server and its sockets, the ICDs,
/// and the files it patches. Paths are kept as text.
#[derive(Debug, Clone)]
pub struct WaydroidVenusConfig {
    pub server: String,
    pub socket_host: String,
    pub socket_guest: String,
    pub render_node: Option<String>,
    pub host_vulkan_icd: Option<String>,
    pub vulkan_icd: Option<String>,
    pub config_session: String,
    pub init_environ_rc: Option<String>,
    pub waydroid_props: Vec<String>,
}

/// The text of `s`, if any.
pub open spec fn opt_view(s: Option<String>) -> Option<Seq<char>> {
    match s {
        Some(t) => Some(t@),
        None => None,
    }
}

/// Text that does not start at a root: it starts with neither `/` nor `\\`
/// (each of which is a root separator on some platform).
pub open spec fn root_free(p: Seq<char>) -> bool {
    !(p.len() > 0 && (p[0] == '/' || p[0] == '\\'))
}

/// An absolute path written plainly: one leading `/`, no doubled
/// separator, no `.` component, no backslash and no trailing separator, so
/// its components are exactly the text between the slashes.
pub open spec fn plain_absolute(p: Seq<char>) -> bool {
    &&& p.len() >= 2
    &&& p[0] == '/'
    &&& p.last() != '/'
    &&& forall|i: int| 0 <= i < p.len() ==> #[trigger] p[i] != '\\'
    &&& forall|i: int| 0 <= i < p.len() - 1 && #[trigger] p[i] == '/' ==> p[i + 1] != '/'
    &&& forall|i: int|
        0 <= i < p.len() - 1 && #[trigger] p[i] == '/' && p[i + 1] == '.' ==> i + 2 < p.len() && p[i + 2] != '/'
}

/// The paths whose text below the root is stated here: those that do not
/// start at a root and the plainly written absolute ones.
pub open spec fn below_root_known(p: Seq<char>) -> bool {
    root_free(p) || plain_absolute(p)
}

/// The text of a path below the root, for the paths of `below_root_known`:
/// a plainly written absolute path without its leading `/`, any other path
/// as it is.
pub open spec fn below_root(p: Seq<char>) -> Seq<char> {
    if plain_absolute(p) {
        p.drop_first()
    } else {
        p
    }
}

/// The LXC mount entry that binds `host` to `guest_below_root`, a path
/// relative to the container's root.
pub open spec fn session_entry(host: Seq<char>, guest_below_root: Seq<char>) -> Seq<char> {
    "lxc.mount.entry = "@ + host + " "@ + guest_below_root + " none bind,create=file,optional 0 0"@
}

/// What patching a session configuration with the line `entry` gives:
/// nothing when a trimmed line of it already is the entry, else the
/// configuration with the entry as a line of its own.
pub open spec fn session_patch(content: Seq<char>, entry: Seq<char>) -> Option<Seq<char>> {
    if has_trimmed_line(content, trim(entry)) {
        None
    } else {
        Some(with_line(content, entry))
    }
}

/// `std::path::Path::strip_prefix` with the prefix `/`, or the path itself
/// when that fails, shown as text. Stated: text that does not start at a
/// root comes back unchanged (its first component is no root, so
/// `strip_prefix` fails), and a plainly written absolute path loses its
/// leading `/`. Not stated: what comes back for any other path starting
/// with `/` or `\\`, which depends on the platform's separators and on how
/// the standard library splits and trims components.
#[verifier::external_body]
fn strip_root(path: &str) -> (r: String)
    ensures
        root_free(path@) ==> r@ == path@,
        plain_absolute(path@) ==> r@ == path@.drop_first(),
{
    let p = std::path::Path::new(path);
    p.strip_prefix("/").unwrap_or(p).display().to_string()
}

/// `a` followed by `b`.
fn joined(a: &str, b: &str) -> (r: String)
    ensures
        r@ == a@ + b@,
{
    let mut s = String::from_str(a);
    s.append(b);
    s
}

/// The LXC mount entry that binds `host` to `guest_below_root`, a path
/// relative to the container's root.
pub fn mount_entry(host: &str, guest_below_root: &str) -> (r: String)
    ensures
        r@ == session_entry(host@, guest_below_root@),
{
    let mut s = String::from_str("lxc.mount.entry = ");
    s.append(host);
    s.append(" ");
    s.append(guest_below_root);
    s.append(" none bind,create=file,optional 0 0");
    s
}

impl WaydroidVenusConfig {
    /// The line that binds the host socket into the container, for a guest
    /// socket path whose text below the root is stated (`below_root_known`).
    pub open spec fn spec_config_session_entry(&self) -> Seq<char> {
        session_entry(self.socket_host@, below_root(self.socket_guest@))
    }

    /// The ICD manifest the guest loads.
    pub open spec fn spec_icd(&self) -> Seq<char> {
        match self.vulkan_icd {
            Some(p) => p@,
            None => DEFAULT_VENUS_ICD@,
        }
    }

    /// The guest environment, as `init.environ.rc` export lines.
    pub open spec fn spec_guest_env_lines(&self) -> Seq<Seq<char>> {
        seq![
            "export VN_DEBUG vtest"@,
            "export VTEST_SOCKET_NAME "@ + self.socket_guest@,
            "export VK_DRIVER_FILES "@ + self.spec_icd(),
            "export LIBGL_ALWAYS_SOFTWARE 1"@,
            "export GALLIUM_DRIVER virpipe"@,
            "export LIBVA_DRIVER_NAME virtio_gpu"@,
        ]
    }

    /// The export lines the guest needs for Venus over vtest and for the
    /// virpipe GL and VA-API path.
    pub fn guest_env_lines(&self) -> (r: Vec<String>)
        ensures
            r@.map_values(|s: String| s@) == self.spec_guest_env_lines(),
    {
        let icd: &str = match &self.vulkan_icd {
            Some(p) => p.as_str(),
            None => DEFAULT_VENUS_ICD,
        };
        let mut r: Vec<String> = Vec::new();
        r.push(String::from_str("export VN_DEBUG vtest"));
        r.push(joined("export VTEST_SOCKET_NAME ", self.socket_guest.as_str()));
        r.push(joined("export VK_DRIVER_FILES ", icd));
        r.push(String::from_str("export LIBGL_ALWAYS_SOFTWARE 1"));
        r.push(String::from_str("export GALLIUM_DRIVER virpipe"));
        r.push(String::from_str("export LIBVA_DRIVER_NAME virtio_gpu"));
        assert(r@.map_values(|s: String| s@) =~= self.spec_guest_env_lines());
        r
    }

    /// The Android properties that select the virtio Vulkan, Mesa EGL and GBM gralloc.
    pub fn prop_lines() -> (r: [&'static str; 3])
        ensures
            r@.map_values(|p: &str| p@) == venus_props(),
    {
        let r = ["ro.hardware.vulkan=virtio", "ro.hardware.egl=mesa", "ro.hardware.gralloc=gbm"];
        assert(r@.map_values(|p: &str| p@) =~= venus_props());
        r
    }

    /// The LXC mount entry that binds the host socket into the container.
    /// The guest socket is written relative to the container's root, as
    /// `Path::strip_prefix` leaves it.
    pub fn config_session_entry(&self) -> (r: String)
        ensures
            below_root_known(self.socket_guest@) ==> r@ == self.spec_config_session_entry(),
            exists|g: Seq<char>| r@ == session_entry(self.socket_host@, g),
    {
        let guest = strip_root(self.socket_guest.as_str());
        mount_entry(self.socket_host.as_str(), guest.as_str())
    }

    /// The session configuration with the socket bind added, or `None` when
    /// a line of it already is the bind.
    pub fn patch_config_session_content(&self, content: &str) -> (r: Option<String>)
        ensures
            below_root_known(self.socket_guest@) ==> opt_view(r) == session_patch(
                content@,
                self.spec_config_session_entry(),
            ),
            exists|g: Seq<char>| opt_view(r) == session_patch(content@, session_entry(self.socket_host@, g)),
    {
        let entry = self.config_session_entry();
        let r = ensure_line_content(content, entry.as_str());
        proof {
            let g = choose|g: Seq<char>| entry@ == session_entry(self.socket_host@, g);
            assert(opt_view(r) == session_patch(content@, session_entry(self.socket_host@, g)));
        }
        r
    }

    /// The init script with the guest environment added, and whether it changed.
    pub fn patch_init_environ_content(&self, content: &str) -> (r: (String, bool))
        ensures
            r.0@ == patched_init_environ(content@, self.spec_guest_env_lines()),
            r.1 == (r.0@ != content@),
    {
        let env = self.guest_env_lines();
        patch_init_environ_content(content, env.as_slice())
    }

    /// The property file with the Venus properties set.
    pub fn patch_props_content(&self, content: &str) -> (r: String)
        ensures
            r@ == with_props(content@, venus_props()),
    {
        let props = Self::prop_lines();
        patch_props_content(content, props.as_slice())
    }
}

/// The socket bind is added once: after a patch of the session
/// configuration a line of it is the bind, so patching again changes
/// nothing. This holds for the bind of any guest path and needs an entry
/// without line feeds, that is, socket paths without them.
pub proof fn lemma_config_session_patch_idempotent(host: Seq<char>, guest_below_root: Seq<char>, content: Seq<char>)
    requires
        forall|i: int|
            0 <= i < session_entry(host, guest_below_root).len() ==> #[trigger] session_entry(
                host,
                guest_below_root,
            )[i] != '\n',
    ensures
        session_patch(content, session_entry(host, guest_below_root)) matches Some(patched) ==> session_patch(
            patched,
            session_entry(host, guest_below_root),
        ) is None,
{
    let e = session_entry(host, guest_below_root);
    lemma_with_line_has_line(content, e);
}

/// A successful patch of the session configuration leaves the socket bind
/// exactly once among its trimmed lines.
pub proof fn lemma_config_session_entry_once(host: Seq<char>, guest_below_root: Seq<char>, content: Seq<char>)
    requires
        forall|i: int|
            0 <= i < session_entry(host, guest_below_root).len() ==> #[trigger] session_entry(
                host,
                guest_below_root,
            )[i] != '\n',
    ensures
        session_patch(content, session_entry(host, guest_below_root)) matches Some(patched)
            ==> exactly_one_trimmed_line(patched, trim(session_entry(host, guest_below_root))),
{
    let e = session_entry(host, guest_below_root);
    if !has_trimmed_line(content, trim(e)) {
        lemma_with_line_once(content, e);
    }
}

/// With the default sockets the bind is
/// `lxc.mount.entry = /tmp/.virgl_test run/xdg/.virgl_test none bind,create=file,optional 0 0`.
pub proof fn lemma_default_config_session_entry(config: WaydroidVenusConfig)
    requires
        config.socket_host@ == DEFAULT_VTEST_SOCKET@,
        config.socket_guest@ == DEFAULT_GUEST_SOCKET@,
    ensures
        below_root_known(config.socket_guest@),
        config.spec_config_session_entry()
            == "lxc.mount.entry = /tmp/.virgl_test run/xdg/.virgl_test none bind,create=file,optional 0 0"@,
{
    reveal_strlit("/tmp/.virgl_test");
    reveal_strlit("/run/xdg/.virgl_test");
    reveal_strlit("lxc.mount.entry = ");
    reveal_strlit(" ");
    reveal_strlit(" none bind,create=file,optional 0 0");
    reveal_strlit("lxc.mount.entry = /tmp/.virgl_test run/xdg/.virgl_test none bind,create=file,optional 0 0");
    let g = DEFAULT_GUEST_SOCKET@;
    assert(plain_absolute(g));
    assert(config.spec_config_session_entry()
        =~= "lxc.mount.entry = /tmp/.virgl_test run/xdg/.virgl_test none bind,create=file,optional 0 0"@);
}

/// The Venus properties, as text.
pub open spec fn venus_props() -> Seq<Seq<char>> {
    seq!["ro.hardware.vulkan=virtio"@, "ro.hardware.egl=mesa"@, "ro.hardware.gralloc=gbm"@]
}

/// After the property file is patched, each Venus property is one of its lines.
pub proof fn lemma_venus_props_set(content: Seq<char>)
    ensures
        forall|j: int| 0 <= j < 3 ==> has_exact_line(with_props(content, venus_props()), #[trigger] venus_props()[j]),
{
    reveal_strlit("ro.hardware.vulkan=virtio");
    reveal_strlit("ro.hardware.egl=mesa");
    reveal_strlit("ro.hardware.gralloc=gbm");
    let ps = venus_props();
    lemma_prop_key_at(ps[0], 18);
    lemma_prop_key_at(ps[1], 15);
    lemma_prop_key_at(ps[2], 19);
    assert forall|j: int| 0 <= j < ps.len() implies no_feed(#[trigger] ps[j]) && ps[j].len() > 0 && ps[j].last()
        != '\r' by {
        assert(no_feed(ps[j]));
    }
    assert(prop_key(ps[0]).len() == 18 && prop_key(ps[1]).len() == 15 && prop_key(ps[2]).len() == 19);
    assert forall|j: int, k: int| 0 <= j < k < ps.len() implies prop_key(#[trigger] ps[j]) != prop_key(
        #[trigger] ps[k],
    ) by {
        assert(prop_key(ps[j]).len() != prop_key(ps[k]).len());
    }
    assert(distinct_props(ps));
    lemma_props_set(content, ps);
}

impl Default for WaydroidVenusConfig {
    /// The vtest server from `PATH`, the default sockets and Venus ICD, and
    /// the session configuration and property file of the Waydroid root.
    fn default() -> (c: Self)
        ensures
            c.server@ == "virgl_test_server"@,
            c.socket_host@ == DEFAULT_VTEST_SOCKET@,
            c.socket_guest@ == DEFAULT_GUEST_SOCKET@,
            c.render_node is None,
            c.host_vulkan_icd is None,
            opt_view(c.vulkan_icd) == Some(DEFAULT_VENUS_ICD@),
            c.config_session@ == DEFAULT_WAYDROID_ROOT@ + "/config_session"@,
            c.init_environ_rc is None,
            c.waydroid_props@.map_values(|p: String| p@) == seq![DEFAULT_WAYDROID_ROOT@ + "/waydroid.prop"@],
    {
        let mut props: Vec<String> = Vec::new();
        props.push(joined(DEFAULT_WAYDROID_ROOT, "/waydroid.prop"));
        let c = WaydroidVenusConfig {
            server: String::from_str("virgl_test_server"),
            socket_host: String::from_str(DEFAULT_VTEST_SOCKET),
            socket_guest: String::from_str(DEFAULT_GUEST_SOCKET),
            render_node: None,
            host_vulkan_icd: None,
            vulkan_icd: Some(String::from_str(DEFAULT_VENUS_ICD)),
            config_session: joined(DEFAULT_WAYDROID_ROOT, "/config_session"),
            init_environ_rc: None,
            waydroid_props: props,
        };
        assert(c.waydroid_props@.map_values(|p: String| p@) =~= seq![DEFAULT_WAYDROID_ROOT@ + "/waydroid.prop"@]);
        c
    }
}

} // verus!
