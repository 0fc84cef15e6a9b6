//! The VM configuration model and where each machine's files live.
//!
//! Each VM lives in its own directory under the app data directory:
//! `<app_data>/machines/<name>/` holds `vm.json` (the configuration) and
//! `disk.qcow2` (the virtual disk). A [`StorePath`] names such a location as the
//! app data directory plus the components below it; the caller turns it into a
//! platform path by joining the components in order.
use vstd::prelude::*;
use crate::text::{lemma_text_lt_total, lemma_text_lt_trans, str_lt, text_lt};

verus! {

/// A host→guest port forward over the user-mode NAT.
#[derive(Clone, Debug, PartialEq, Eq)]
pub struct PortForward {
    pub host_port: u16,
    pub guest_port: u16,
    /// "tcp" or "udp".
    pub protocol: String,
}

/// Persistent configuration for a single virtual machine.
#[derive(Clone, Debug, PartialEq, Eq)]
pub struct VmConfig {
    pub name: String,
    pub memory_mb: u32,
    pub cpus: u32,
    /// Absolute path to the qcow2 disk image.
    pub disk_path: String,
    pub disk_size_gb: u32,
    /// Absolute path to an install ISO, if one is attached.
    pub iso_path: Option<String>,
    /// QEMU VGA model: "std", "virtio" or "qxl".
    pub display_adapter: String,
    /// QEMU NIC model: "e1000", "virtio", "rtl8139" or "ne2k".
    pub nic_model: String,
    /// Host→guest port forwards over user-mode NAT.
    pub port_forwards: Vec<PortForward>,
    /// Networking mode: "nat", "isolated" or "none".
    pub net_mode: String,
    /// Stable MAC address, persisted so the guest keeps its DHCP lease.
    pub mac_address: Option<String>,
    /// Acceleration mode: "auto" (the platform's hypervisor) or "tcg".
    pub acceleration: String,
    /// Host folder shared into the guest as a virtual FAT disk.
    pub shared_folder: Option<String>,
    /// Whether the guest may write to the shared folder.
    pub shared_folder_writable: bool,
}

/// The protocol a port forward gets when its record names none.
pub fn default_protocol() -> (r: String)
    ensures
        r@ == "tcp"@,
{
    "tcp".to_owned()
}

/// The display adapter a configuration gets when its record names none.
pub fn default_display_adapter() -> (r: String)
    ensures
        r@ == "std"@,
{
    "std".to_owned()
}

/// The NIC model a configuration gets when its record names none.
pub fn default_nic_model() -> (r: String)
    ensures
        r@ == "e1000"@,
{
    "e1000".to_owned()
}

/// The networking mode a configuration gets when its record names none.
pub fn default_net_mode() -> (r: String)
    ensures
        r@ == "nat"@,
{
    "nat".to_owned()
}

/// The acceleration mode a configuration gets when its record names none.
pub fn default_acceleration() -> (r: String)
    ensures
        r@ == "auto"@,
{
    "auto".to_owned()
}

/// A location under the app data directory `root`: the path `root/parts[0]/parts[1]/...`.
pub struct StorePath<R> {
    pub root: R,
    pub parts: Vec<String>,
}

/// The texts of a sequence of strings.
pub open spec fn texts(v: Seq<String>) -> Seq<Seq<char>> {
    v.map_values(|s: String| s@)
}

/// Appends `s` to `v`.
pub fn push_text(v: &mut Vec<String>, s: String)
    ensures
        texts(final(v)@) == texts(old(v)@).push(s@),
{
    v.push(s);
    assert(texts(v@) =~= texts(old(v)@).push(s@));
}

impl<R> StorePath<R> {
    /// The components below the root, as text.
    pub open spec fn components(&self) -> Seq<Seq<char>> {
        texts(self.parts@)
    }

    /// This location with one more component `part` below it.
    pub fn join(self, part: &str) -> (r: StorePath<R>)
        ensures
            r.root == self.root,
            r.components() == self.components().push(part@),
    {
        let StorePath { root, parts } = self;
        let mut parts = parts;
        push_text(&mut parts, part.to_owned());
        StorePath { root, parts }
    }
}

/// The directory holding all machine subdirectories.
pub fn machines_dir<R>(app_data: R) -> (r: StorePath<R>)
    ensures
        r.root == app_data,
        r.components() == seq!["machines"@],
{
    let mut parts: Vec<String> = Vec::new();
    assert(texts(parts@) =~= Seq::<Seq<char>>::empty());
    push_text(&mut parts, "machines".to_owned());
    StorePath { root: app_data, parts }
}

/// The directory for a single named machine.
pub fn machine_dir<R>(app_data: R, name: &str) -> (r: StorePath<R>)
    ensures
        r.root == app_data,
        r.components() == seq!["machines"@, name@],
{
    machines_dir(app_data).join(name)
}

/// Where a machine's configuration file lives: `machines/<name>/vm.json`.
pub fn config_file<R>(app_data: R, name: &str) -> (r: StorePath<R>)
    ensures
        r.root == app_data,
        r.components() == seq!["machines"@, name@, "vm.json"@],
{
    machine_dir(app_data, name).join("vm.json")
}

/// Where a machine's disk image lives: `machines/<name>/disk.qcow2`.
pub fn disk_image<R>(app_data: R, name: &str) -> (r: StorePath<R>)
    ensures
        r.root == app_data,
        r.components() == seq!["machines"@, name@, "disk.qcow2"@],
{
    machine_dir(app_data, name).join("disk.qcow2")
}

/// Where QEMU's output from a machine's last launch goes: `machines/<name>/qemu.log`.
pub fn log_file<R>(app_data: R, name: &str) -> (r: StorePath<R>)
    ensures
        r.root == app_data,
        r.components() == seq!["machines"@, name@, "qemu.log"@],
{
    machine_dir(app_data, name).join("qemu.log")
}

/// What `str::to_lowercase` gives for a text: its Unicode lower-case mapping,
/// which depends on the text alone.
pub uninterp spec fn lowercased(s: Seq<char>) -> Seq<char>;

/// Lower-cases `s` with the standard library's `str::to_lowercase`; the
/// contract names the result and states nothing further of the mapping.
#[verifier::external_body]
fn to_lowercase(s: &str) -> (r: String)
    ensures
        r@ == lowercased(s@),
{
    s.to_lowercase()
}

/// The key VMs are listed by: the lower-cased name.
pub open spec fn name_key(c: VmConfig) -> Seq<char> {
    lowercased(c.name@)
}

/// In the list order, VM `i` of `vms` comes before VM `j`: its key is smaller,
/// or the keys are equal and it came first (the order is stable).
pub open spec fn listed_before(vms: Seq<VmConfig>, i: int, j: int) -> bool {
    ||| text_lt(name_key(vms[i]), name_key(vms[j]))
    ||| (name_key(vms[i]) == name_key(vms[j]) && i < j)
}

/// `p` lists each index below `n` once.
pub open spec fn is_permutation(p: Seq<int>, n: int) -> bool {
    &&& p.len() == n
    &&& p.no_duplicates()
    &&& forall|k: int| 0 <= k < n ==> 0 <= #[trigger] p[k] < n
}

/// `r` is `vms` sorted stably by lower-cased name.
pub open spec fn sorted_by_name(vms: Seq<VmConfig>, r: Seq<VmConfig>) -> bool {
    exists|p: Seq<int>|
        {
            &&& is_permutation(p, vms.len() as int)
            &&& forall|k: int| 0 <= k < r.len() ==> #[trigger] r[k] == vms[p[k]]
            &&& forall|a: int, b: int|
                0 <= a < b < r.len() ==> listed_before(vms, #[trigger] p[a], #[trigger] p[b])
        }
}

/// The VMs in list order: by name, ignoring case, keeping the given order among
/// names that compare equal.
pub fn sort_by_name(vms: Vec<VmConfig>) -> (r: Vec<VmConfig>)
    ensures
        r@.len() == vms@.len(),
        sorted_by_name(vms@, r@),
{
    let ghost orig = vms@;
    let n = vms.len();
    let mut rest = vms;
    let mut out: Vec<VmConfig> = Vec::new();
    let mut keys: Vec<String> = Vec::new();
    let ghost mut perm: Seq<int> = Seq::empty();
    let mut j: usize = 0;
    assert(orig.skip(0) =~= orig);
    while j < n
        invariant
            n == orig.len(),
            j <= n,
            rest@ == orig.skip(j as int),
            out@.len() == j,
            keys@.len() == j,
            perm.len() == j,
            perm.no_duplicates(),
            forall|k: int| 0 <= k < j ==> 0 <= #[trigger] perm[k] < j,
            forall|k: int| 0 <= k < j ==> #[trigger] out@[k] == orig[perm[k]],
            forall|k: int| 0 <= k < j ==> #[trigger] keys@[k]@ == name_key(orig[perm[k]]),
            forall|a: int, b: int|
                0 <= a < b < j ==> listed_before(orig, #[trigger] perm[a], #[trigger] perm[b]),
        decreases n - j,
    {
        assert(rest@.len() > 0);
        let cfg = rest.remove(0);
        assert(cfg == orig[j as int]);
        assert(rest@ =~= orig.skip(j + 1));
        let key = to_lowercase(cfg.name.as_str());
        let mut q: usize = 0;
        loop
            invariant
                q <= j,
                keys@.len() == j,
                forall|k: int| 0 <= k < q ==> !text_lt(key@, #[trigger] keys@[k]@),
            ensures
                q <= j,
                forall|k: int| 0 <= k < q ==> !text_lt(key@, #[trigger] keys@[k]@),
                q == j || text_lt(key@, keys@[q as int]@),
            decreases j - q,
        {
            if q == j {
                break;
            }
            if str_lt(key.as_str(), keys[q].as_str()) {
                break;
            }
            q = q + 1;
        }
        let ghost old_perm = perm;
        let ghost old_out = out@;
        let ghost old_keys = keys@;
        out.insert(q, cfg);
        keys.insert(q, key);
        proof {
            perm = old_perm.insert(q as int, j as int);
            let jj = j as int;
            let qq = q as int;
            assert forall|k: int| 0 <= k <= jj implies 0 <= #[trigger] perm[k] <= jj by {
                if k > qq {
                    assert(perm[k] == old_perm[k - 1]);
                }
            }
            assert forall|a: int, b: int| 0 <= a <= jj && 0 <= b <= jj && a != b
                implies perm[a] != perm[b] by {
                let a1 = if a < qq { a } else { a - 1 };
                let b1 = if b < qq { b } else { b - 1 };
                if a != qq && b != qq {
                    assert(perm[a] == old_perm[a1]);
                    assert(perm[b] == old_perm[b1]);
                } else if a == qq {
                    assert(perm[b] == old_perm[b1]);
                } else {
                    assert(perm[a] == old_perm[a1]);
                }
            }
            assert forall|k: int| 0 <= k <= jj implies #[trigger] out@[k] == orig[perm[k]] by {
                if k > qq {
                    assert(out@[k] == old_out[k - 1]);
                } else if k < qq {
                    assert(out@[k] == old_out[k]);
                }
            }
            assert forall|k: int| 0 <= k <= jj implies #[trigger] keys@[k]@ == name_key(
                orig[perm[k]],
            ) by {
                if k > qq {
                    assert(keys@[k] == old_keys[k - 1]);
                } else if k < qq {
                    assert(keys@[k] == old_keys[k]);
                }
            }
            assert forall|a: int, b: int| 0 <= a < b <= jj implies listed_before(
                orig,
                #[trigger] perm[a],
                #[trigger] perm[b],
            ) by {
                let kj = name_key(orig[jj]);
                if a != qq && b != qq {
                    let a1 = if a < qq { a } else { a - 1 };
                    let b1 = if b < qq { b } else { b - 1 };
                    assert(perm[a] == old_perm[a1]);
                    assert(perm[b] == old_perm[b1]);
                    assert(listed_before(orig, old_perm[a1], old_perm[b1]));
                } else if a == qq {
                    let x = old_perm[b - 1];
                    assert(perm[b] == x);
                    let kx = name_key(orig[x]);
                    let kq = name_key(orig[old_perm[qq]]);
                    assert(text_lt(kj, old_keys[qq]@));
                    assert(old_keys[qq]@ == kq);
                    if b - 1 > qq {
                        assert(listed_before(orig, old_perm[qq], old_perm[b - 1]));
                        if text_lt(kq, kx) {
                            lemma_text_lt_trans(kj, kq, kx);
                        }
                    }
                } else {
                    let x = old_perm[a];
                    assert(perm[a] == x);
                    let kx = name_key(orig[x]);
                    assert(!text_lt(kj, old_keys[a]@));
                    lemma_text_lt_total(kj, kx);
                }
            }
        }
        j = j + 1;
    }
    assert(is_permutation(perm, orig.len() as int));
    out
}

} // verus!
