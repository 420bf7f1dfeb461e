//! Launcher decisions: the metadata the launcher reads from an artifact, what
//! it runs, the layer manifest it records, and the small judgements it makes
//! about exit statuses, sizes, timeouts and signature-block downgrades.
use crate::error::Error;
use crate::layer::{Capability, LayerKind, SerializableLayer};
use crate::metadata::CryptoMeta;
use crate::text::{decimal, decimal_string, owned, parse_u64, parse_u64_spec, chars_of, push_str, str_eq};
use std::collections::BTreeMap;
use vstd::prelude::*;

verus! {

/// Health check settings as the launcher reads them.
#[derive(Debug, Clone)]
pub struct HealthCheckMeta {
    pub port: u16,
    pub endpoint: String,
    pub enabled: bool,
}

/// The health endpoint used when metadata names none.
pub fn default_health_endpoint() -> (r: String)
    ensures
        r@ == "/health"@,
{
    owned("/health")
}

/// A service supervised alongside the main entrypoint.
#[derive(Debug, Clone)]
pub struct Service {
    pub name: String,
    pub cmd: Vec<String>,
    pub env: BTreeMap<String, String>,
    /// Port that signals readiness (0: none).
    pub ready_port: u16,
    /// How long to wait for readiness, in seconds.
    pub ready_timeout: u64,
}

/// Lifecycle hooks of the main service.
#[derive(Debug, Clone)]
pub struct Hooks {
    pub pre: Vec<String>,
    pub post: Vec<String>,
}

impl Default for Hooks {
    fn default() -> (r: Self)
        ensures
            r.pre@.len() == 0,
            r.post@.len() == 0,
    {
        Hooks { pre: Vec::new(), post: Vec::new() }
    }
}

/// Application metadata read from an artifact at launch.
#[derive(Debug)]
pub struct Metadata {
    pub name: String,
    pub version: Option<String>,
    /// Runtime name, e.g. `python`, `node`, `go`.
    pub runtime: String,
    /// argv of the target process.
    pub entrypoint: Vec<String>,
    pub env: BTreeMap<String, String>,
    /// Working directory; `/app` when unset.
    pub cwd: Option<String>,
    /// 0 = none, 1 = namespace, 2 = full sandbox.
    pub isolation: u8,
    pub cpu_limit: Option<u32>,
    pub memory_limit_mb: Option<u32>,
    pub pid_limit: Option<u32>,
    pub seccomp: bool,
    pub landlock: bool,
    pub gui: bool,
    pub services: Vec<Service>,
    pub payload_format: String,
    pub health_check: Option<HealthCheckMeta>,
    pub update_url: Option<String>,
    pub hooks: Option<Hooks>,
    /// Layers of the artifact; empty for legacy binaries.
    pub layers: Vec<SerializableLayer>,
    /// Name of the layer holding the main entrypoint.
    pub entrypoint_layer: Option<String>,
    pub encryption: Option<CryptoMeta>,
}

/// The first layer named `name`.
pub open spec fn first_named(layers: Seq<SerializableLayer>, name: Seq<char>) -> Option<SerializableLayer>
    decreases layers.len(),
{
    if layers.len() == 0 {
        None
    } else if layers[0].spec_name() == name {
        Some(layers[0])
    } else {
        first_named(layers.drop_first(), name)
    }
}

/// The runtime layer the entrypoint layer names, if the first layer of that
/// name is a runtime layer.
pub open spec fn entry_runtime_layer(m: Metadata) -> Option<crate::layer::RuntimeLayer> {
    match m.entrypoint_layer {
        Some(n) => match first_named(m.layers@, n@) {
            Some(SerializableLayer::Runtime(rt)) => Some(rt),
            _ => None,
        },
        None => None,
    }
}

impl Metadata {
    /// Index of the first layer named `name`.
    fn find_layer(&self, name: &str) -> (r: Option<usize>)
        ensures
            first_named(self.layers@, name@) is None ==> r is None,
            first_named(self.layers@, name@) matches Some(l) ==> r matches Some(i) && i
                < self.layers@.len() && self.layers@[i as int] == l,
    {
        let n = self.layers.len();
        let mut i: usize = 0;
        assert(self.layers@.skip(0) =~= self.layers@);
        while i < n
            invariant
                n == self.layers@.len(),
                i <= n,
                first_named(self.layers@, name@) == first_named(self.layers@.skip(i as int), name@),
            decreases n - i,
        {
            assert(self.layers@.skip(i as int)[0] == self.layers@[i as int]);
            if str_eq(self.layers[i].name(), name) {
                return Some(i);
            }
            assert(self.layers@.skip(i as int).drop_first() =~= self.layers@.skip(i + 1));
            i = i + 1;
        }
        None
    }

    /// The runtime layer of the entrypoint, if there is one.
    fn entry_runtime(&self) -> (r: Option<&crate::layer::RuntimeLayer>)
        ensures
            entry_runtime_layer(*self) is None ==> r is None,
            entry_runtime_layer(*self) matches Some(rt) ==> r == Some(&rt),
    {
        match &self.entrypoint_layer {
            Some(n) => {
                assert(self.layers@.skip(0) =~= self.layers@);
                match self.find_layer(n.as_str()) {
                    Some(i) => match &self.layers[i] {
                        SerializableLayer::Runtime(rt) => Some(rt),
                        _ => None,
                    },
                    None => None,
                }
            },
            None => None,
        }
    }

    /// The argv template to run: the entrypoint layer's when it is a runtime
    /// layer, else the flat `entrypoint` of legacy binaries.
    pub fn effective_entrypoint(&self) -> (r: &[String])
        ensures
            r@ == match entry_runtime_layer(*self) {
                Some(rt) => rt.entrypoint@,
                None => self.entrypoint@,
            },
    {
        match self.entry_runtime() {
            Some(rt) => rt.entrypoint.as_slice(),
            None => self.entrypoint.as_slice(),
        }
    }

    /// The runtime name: the entrypoint layer's name when it is a runtime
    /// layer, else the flat `runtime` field.
    pub fn effective_runtime(&self) -> (r: &str)
        ensures
            r@ == match entry_runtime_layer(*self) {
                Some(rt) => rt.name@,
                None => self.runtime@,
            },
    {
        match self.entry_runtime() {
            Some(rt) => rt.name.as_str(),
            None => self.runtime.as_str(),
        }
    }

    /// The capabilities the entrypoint layer requests; none for legacy
    /// binaries.
    pub fn effective_capabilities(&self) -> (r: &[Capability])
        ensures
            r@ == match entry_runtime_layer(*self) {
                Some(rt) => rt.capabilities@,
                None => Seq::<Capability>::empty(),
            },
    {
        match self.entry_runtime() {
            Some(rt) => rt.capabilities.as_slice(),
            None => {
                let empty: &[Capability] = &[];
                assert(empty@ =~= Seq::<Capability>::empty());
                empty
            },
        }
    }
}

/// One layer of the manifest recorded after extraction.
#[derive(Debug, Clone, PartialEq, Eq)]
pub struct LayerManifestEntry {
    pub name: String,
    /// `runtime`, `model`, `tool` or `config`.
    pub kind: String,
    /// Where the layer lives inside the rootfs; `None` when merged at the root.
    pub rootfs_path: Option<String>,
}

/// The layers composing an extracted rootfs, for cache validation.
#[derive(Debug, Clone, PartialEq, Eq)]
pub struct LayerManifest {
    /// Manifest format version (1).
    pub version: u8,
    pub layers: Vec<LayerManifestEntry>,
}

/// How a layer kind is written in the manifest.
pub open spec fn kind_text(k: LayerKind) -> Seq<char> {
    match k {
        LayerKind::Runtime => "runtime"@,
        LayerKind::Model => "model"@,
        LayerKind::Tool => "tool"@,
        LayerKind::Config => "config"@,
        LayerKind::Custom => "custom"@,
    }
}

/// Where a layer's content lives in the rootfs.
pub open spec fn rootfs_path_of(l: SerializableLayer) -> Option<Seq<char>> {
    match l {
        SerializableLayer::Runtime(_) => Some("/app"@),
        SerializableLayer::Config(_) => Some("/app"@),
        _ => None,
    }
}

/// How a layer kind is written in the manifest.
pub fn layer_kind_str(kind: LayerKind) -> (r: String)
    ensures
        r@ == kind_text(kind),
{
    match kind {
        LayerKind::Runtime => owned("runtime"),
        LayerKind::Model => owned("model"),
        LayerKind::Tool => owned("tool"),
        LayerKind::Config => owned("config"),
        LayerKind::Custom => owned("custom"),
    }
}

/// Where a layer's content lives in the rootfs.
pub fn layer_to_rootfs_path(layer: &SerializableLayer) -> (r: Option<String>)
    ensures
        match r {
            Some(p) => rootfs_path_of(*layer) == Some(p@),
            None => rootfs_path_of(*layer) is None,
        },
{
    match layer {
        SerializableLayer::Runtime(_) => Some(owned("/app")),
        SerializableLayer::Config(_) => Some(owned("/app")),
        _ => None,
    }
}

/// Whether `e` records the layer `l`.
pub open spec fn records(e: LayerManifestEntry, l: SerializableLayer) -> bool {
    &&& e.name@ == l.spec_name()
    &&& e.kind@ == kind_text(l.spec_kind())
    &&& match e.rootfs_path {
        Some(p) => rootfs_path_of(l) == Some(p@),
        None => rootfs_path_of(l) is None,
    }
}

impl LayerManifest {
    /// The manifest of the layers of `meta`, in order.
    pub fn from_metadata(meta: &Metadata) -> (r: Self)
        ensures
            r.version == 1,
            r.layers@.len() == meta.layers@.len(),
            forall|i: int| 0 <= i < r.layers@.len() ==> records(#[trigger] r.layers@[i], meta.layers@[i]),
    {
        let n = meta.layers.len();
        let mut layers: Vec<LayerManifestEntry> = Vec::new();
        let mut i: usize = 0;
        while i < n
            invariant
                n == meta.layers@.len(),
                i <= n,
                layers@.len() == i,
                forall|j: int| 0 <= j < i ==> records(#[trigger] layers@[j], meta.layers@[j]),
            decreases n - i,
        {
            let l = &meta.layers[i];
            let e = LayerManifestEntry {
                name: owned(l.name()),
                kind: layer_kind_str(l.kind()),
                rootfs_path: layer_to_rootfs_path(l),
            };
            layers.push(e);
            i = i + 1;
        }
        LayerManifest { version: 1, layers }
    }
}

/// A byte count in binary units with one truncated decimal: `512 B`,
/// `1.5 KiB`, `1.0 MiB`.
pub open spec fn human_bytes_text(bytes: u64) -> Seq<char> {
    let b = bytes as int;
    let kib: int = 1024;
    let mib: int = 1048576;
    if b >= mib {
        decimal((b / mib) as nat) + "."@ + decimal(((b % mib) * 10 / mib) as nat) + " MiB"@
    } else if b >= kib {
        decimal((b / kib) as nat) + "."@ + decimal(((b % kib) * 10 / kib) as nat) + " KiB"@
    } else {
        decimal(bytes as nat) + " B"@
    }
}

/// Formats a byte count for progress messages.
pub fn human_bytes(bytes: u64) -> (r: String)
    ensures
        r@ == human_bytes_text(bytes),
{
    let kib: u64 = 1024;
    let mib: u64 = 1024 * 1024;
    if bytes >= mib {
        let whole = bytes / mib;
        let frac = (bytes % mib) * 10 / mib;
        let mut s = decimal_string(whole);
        push_str(&mut s, ".");
        let f = decimal_string(frac);
        push_str(&mut s, f.as_str());
        push_str(&mut s, " MiB");
        s
    } else if bytes >= kib {
        let whole = bytes / kib;
        let frac = (bytes % kib) * 10 / kib;
        let mut s = decimal_string(whole);
        push_str(&mut s, ".");
        let f = decimal_string(frac);
        push_str(&mut s, f.as_str());
        push_str(&mut s, " KiB");
        s
    } else {
        let mut s = decimal_string(bytes);
        push_str(&mut s, " B");
        s
    }
}

/// Whether a wait status reports a child killed by a signal (Linux
/// `WIFSIGNALED`): its low seven bits are between 1 and 126.
pub(crate) fn wifsignaled(status: i32) -> (r: bool)
    ensures
        r == (1 <= (status & 0x7f) <= 126),
{
    let low = status & 0x7f;
    1 <= low && low <= 126
}

/// The signal that killed a child (Linux `WTERMSIG`): the low seven bits
/// of its wait status.
pub(crate) fn wtermsig(status: i32) -> (r: i32)
    ensures
        r == status & 0x7f,
{
    status & 0x7f
}

/// Whether a wait status reports a child that exited (Linux `WIFEXITED`):
/// its low seven bits are zero.
pub(crate) fn wifexited(status: i32) -> (r: bool)
    ensures
        r == ((status & 0x7f) == 0),
{
    (status & 0x7f) == 0
}

/// The exit code of a child (Linux `WEXITSTATUS`): bits 8 to 15 of its
/// wait status.
pub(crate) fn wexitstatus(status: i32) -> (r: i32)
    ensures
        r == (status >> 8) & 0xff,
{
    (status >> 8) & 0xff
}

/// The shell-style exit code of a wait status: 128 plus the signal for a
/// signalled child, the exit code for an exited one, else 1.
pub open spec fn exit_code_of(status: i32) -> i32 {
    if 1 <= (status & 0x7f) <= 126 {
        (128 + (status & 0x7f)) as i32
    } else if (status & 0x7f) == 0 {
        (status >> 8) & 0xff
    } else {
        1
    }
}

/// Decodes a `waitpid` status into an exit code.
pub fn decode_exit_status(status: i32) -> (r: i32)
    ensures
        r == exit_code_of(status),
{
    if wifsignaled(status) {
        let sig = wtermsig(status);
        assert(0 <= status & 0x7f <= 127) by (bit_vector);
        128 + sig
    } else if wifexited(status) {
        wexitstatus(status)
    } else {
        1
    }
}

/// A timeout in milliseconds read from an environment variable's value:
/// the value as an integer, else the default.
pub open spec fn timeout_value(value: Option<Seq<char>>, default_ms: u64) -> u64 {
    match value {
        Some(v) => match parse_u64_spec(v) {
            Some(n) => n,
            None => default_ms,
        },
        None => default_ms,
    }
}

/// The timeout named by an environment variable's value (`None` when unset),
/// falling back to `default_ms` when unset or unparsable.
pub fn env_timeout_ms(value: Option<&str>, default_ms: u64) -> (r: u64)
    ensures
        r == timeout_value(
            match value {
                Some(v) => Some(v@),
                None => None,
            },
            default_ms,
        ),
{
    match value {
        Some(v) => {
            let c = chars_of(v);
            match parse_u64(c.as_slice()) {
                Some(n) => n,
                None => default_ms,
            }
        },
        None => default_ms,
    }
}

/// Length of an Ed25519 signature.
pub const SIG_LEN: u64 = 64;

/// Size of a signature block: a 4-byte length and the signature.
pub const SIG_BLOCK_SIZE: u64 = 68;

/// Size of a version 2 footer.
pub const V2_FOOTER_SIZE: u64 = 84;

/// Size of a version 3 footer (a version 2 footer with the 8-byte signature offset).
pub const V3_FOOTER_SIZE: u64 = 92;

/// What the downgrade check needs to look at next.
#[derive(Debug, Clone, Copy, PartialEq, Eq, Structural)]
pub enum SigBlockProbe {
    /// The file ends where a legitimate build ends: nothing to check.
    Clean,
    /// The gap after the metadata has the size of a signature block: read the
    /// 4-byte size field at this offset.
    ReadSizeAt(u64),
}

/// Where a leftover signature block would start, if the layout leaves room
/// for one: a signed binary rewritten to the unsigned format keeps a
/// signature block between the metadata and the footer, with or without the
/// 8-byte signature-offset prefix.
pub open spec fn probe_of(file_len: u64, meta_offset: u64, meta_size: u64) -> Result<SigBlockProbe, Error> {
    if meta_offset + meta_size > u64::MAX {
        Err(Error::MetadataRegionOverflow)
    } else {
        let meta_end = meta_offset + meta_size;
        if file_len == meta_end + SIG_BLOCK_SIZE + V3_FOOTER_SIZE || file_len == meta_end
            + SIG_BLOCK_SIZE + V2_FOOTER_SIZE {
            Ok(SigBlockProbe::ReadSizeAt(meta_end as u64))
        } else {
            Ok(SigBlockProbe::Clean)
        }
    }
}

/// Decides whether the layout after the metadata needs a look for a leftover
/// signature block.
pub fn sig_block_probe(file_len: u64, meta_offset: u64, meta_size: u64) -> (r: Result<SigBlockProbe, Error>)
    ensures
        r == probe_of(file_len, meta_offset, meta_size),
{
    let meta_end = match meta_offset.checked_add(meta_size) {
        Some(e) => e,
        None => {
            return Err(Error::MetadataRegionOverflow);
        },
    };
    let with_prefix = (meta_end as u128) + (SIG_BLOCK_SIZE as u128) + (V3_FOOTER_SIZE as u128);
    let stripped = (meta_end as u128) + (SIG_BLOCK_SIZE as u128) + (V2_FOOTER_SIZE as u128);
    if (file_len as u128) == with_prefix || (file_len as u128) == stripped {
        Ok(SigBlockProbe::ReadSizeAt(meta_end))
    } else {
        Ok(SigBlockProbe::Clean)
    }
}

/// Refuses a binary whose size field at the probed offset holds a
/// signature's length: a leftover signature block of a downgraded binary.
pub fn reject_downgraded_sig_block(size_field: [u8; 4]) -> (r: Result<(), Error>)
    ensures
        r is Err <==> vstd::bytes::spec_u32_from_le_bytes(size_field@) == SIG_LEN,
        r is Err ==> r == Err::<(), Error>(Error::DowngradedSignatureBlock),
{
    let v = vstd::bytes::u32_from_le_bytes(size_field.as_slice());
    if v as u64 == SIG_LEN {
        Err(Error::DowngradedSignatureBlock)
    } else {
        Ok(())
    }
}

} // verus!
