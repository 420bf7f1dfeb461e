//! Metadata structures of an artifact: its layers, embedded runtimes, build
//! caching, health checks and WASM support.
use crate::layer::{LayerKind, SerializableLayer};
use crate::text::{chars_of, decimal, decimal_string, owned, push_str, str_eq};
use std::collections::BTreeMap;
use vstd::prelude::*;

verus! {

/// Health check configuration.
#[derive(Debug, Clone)]
pub struct HealthCheck {
    pub port: u16,
    pub endpoint: String,
    pub enabled: bool,
}

impl Default for HealthCheck {
    fn default() -> (r: Self)
        ensures
            r.port == 0,
            r.endpoint@ == "/health"@,
            !r.enabled,
    {
        HealthCheck { port: 0, endpoint: owned("/health"), enabled: false }
    }
}

/// A WASI directory mapping.
#[derive(Debug, Clone)]
pub struct WasiFsMap {
    pub guest: String,
    pub host: String,
}

/// WASM execution settings.
#[derive(Debug, Clone)]
pub struct WasmConfig {
    pub enabled: bool,
    pub wasmtime_path: Option<String>,
    pub wasi: bool,
    pub component_model: bool,
    pub wasi_fs_map: Vec<WasiFsMap>,
}

impl Default for WasmConfig {
    fn default() -> (r: Self)
        ensures
            !r.enabled,
            r.wasmtime_path is None,
            !r.wasi,
            !r.component_model,
            r.wasi_fs_map@.len() == 0,
    {
        WasmConfig {
            enabled: false,
            wasmtime_path: None,
            wasi: false,
            component_model: false,
            wasi_fs_map: Vec::new(),
        }
    }
}

/// Build cache settings.
#[derive(Debug, Clone)]
pub struct BuildCacheConfig {
    pub enabled: bool,
    pub max_entries: usize,
    pub ttl_hours: Option<u64>,
}

impl Default for BuildCacheConfig {
    fn default() -> (r: Self)
        ensures
            r.enabled,
            r.max_entries == 50,
            r.ttl_hours == Some(24u64),
    {
        BuildCacheConfig { enabled: true, max_entries: 50, ttl_hours: Some(24) }
    }
}

/// An interpreter that can be embedded in an artifact.
#[derive(Debug, Clone, PartialEq, Eq, Hash)]
pub enum EmbeddedInterpreter {
    Python3,
    Node,
    Deno,
    Ruby,
    Php,
    Perl,
    Java,
    Go,
    Wasm,
    Electron,
    /// An interpreter at a custom path.
    Custom(String),
}

impl EmbeddedInterpreter {
    /// The interpreter's display name; a custom interpreter shows its path.
    pub open spec fn display(&self) -> Seq<char> {
        match self {
            EmbeddedInterpreter::Python3 => "python3"@,
            EmbeddedInterpreter::Node => "node"@,
            EmbeddedInterpreter::Deno => "deno"@,
            EmbeddedInterpreter::Ruby => "ruby"@,
            EmbeddedInterpreter::Php => "php"@,
            EmbeddedInterpreter::Perl => "perl"@,
            EmbeddedInterpreter::Java => "java"@,
            EmbeddedInterpreter::Go => "go"@,
            EmbeddedInterpreter::Wasm => "wasm"@,
            EmbeddedInterpreter::Electron => "electron"@,
            EmbeddedInterpreter::Custom(p) => p@,
        }
    }

    /// The interpreter's display name.
    pub fn to_string(&self) -> (s: String)
        ensures
            s@ == self.display(),
    {
        match self {
            EmbeddedInterpreter::Python3 => owned("python3"),
            EmbeddedInterpreter::Node => owned("node"),
            EmbeddedInterpreter::Deno => owned("deno"),
            EmbeddedInterpreter::Ruby => owned("ruby"),
            EmbeddedInterpreter::Php => owned("php"),
            EmbeddedInterpreter::Perl => owned("perl"),
            EmbeddedInterpreter::Java => owned("java"),
            EmbeddedInterpreter::Go => owned("go"),
            EmbeddedInterpreter::Wasm => owned("wasm"),
            EmbeddedInterpreter::Electron => owned("electron"),
            EmbeddedInterpreter::Custom(p) => owned(p.as_str()),
        }
    }
}

/// Embedded runtime settings.
#[derive(Debug, Clone)]
pub struct EmbeddedRuntimeConfig {
    pub interpreter: Option<EmbeddedInterpreter>,
    pub interpreter_path: Option<String>,
    pub runtime_cache: Option<String>,
    pub runtime_path: Option<String>,
}

impl Default for EmbeddedRuntimeConfig {
    fn default() -> (r: Self)
        ensures
            r.interpreter is None,
            r.interpreter_path is None,
            r.runtime_cache is None,
            r.runtime_path is None,
    {
        EmbeddedRuntimeConfig {
            interpreter: None,
            interpreter_path: None,
            runtime_cache: None,
            runtime_path: None,
        }
    }
}

/// What the filesystem says about the paths that `BunFeatures::validate`
/// checks.
#[derive(Debug, Clone, Copy)]
pub struct PathProbe {
    /// The custom interpreter path exists and is not a regular file.
    pub custom_interpreter_not_file: bool,
    /// The configured wasmtime binary exists.
    pub wasmtime_exists: bool,
}

/// Feature set of a Bun-style build.
#[derive(Debug, Clone)]
pub struct BunFeatures {
    pub embedded_runtime: EmbeddedRuntimeConfig,
    pub build_cache: BuildCacheConfig,
    pub health_check: HealthCheck,
    pub wasm: WasmConfig,
    pub cross_compile_targets: Vec<String>,
}

impl Default for BunFeatures {
    fn default() -> (r: Self)
        ensures
            r.embedded_runtime.interpreter is None,
            r.embedded_runtime.interpreter_path is None,
            r.embedded_runtime.runtime_cache is None,
            r.embedded_runtime.runtime_path is None,
            r.build_cache.enabled,
            r.build_cache.max_entries == 50,
            r.build_cache.ttl_hours == Some(24u64),
            r.health_check.port == 0,
            r.health_check.endpoint@ == "/health"@,
            !r.health_check.enabled,
            !r.wasm.enabled,
            r.wasm.wasmtime_path is None,
            !r.wasm.wasi,
            !r.wasm.component_model,
            r.wasm.wasi_fs_map@.len() == 0,
            r.cross_compile_targets@.len() == 0,
    {
        BunFeatures {
            embedded_runtime: EmbeddedRuntimeConfig::default(),
            build_cache: BuildCacheConfig::default(),
            health_check: HealthCheck::default(),
            wasm: WasmConfig::default(),
            cross_compile_targets: Vec::new(),
        }
    }
}

/// The path of a custom embedded interpreter, if one is selected.
pub open spec fn custom_path(f: BunFeatures) -> Option<Seq<char>> {
    match f.embedded_runtime.interpreter {
        Some(EmbeddedInterpreter::Custom(p)) => Some(p@),
        _ => None,
    }
}

/// Why a feature set is refused, if it is; the checks run in this order.
pub open spec fn validation_error(f: BunFeatures, probe: PathProbe) -> Option<Seq<char>> {
    if custom_path(f) is Some && custom_path(f)->0.len() == 0 {
        Some("Custom interpreter path cannot be empty"@)
    } else if custom_path(f) is Some && probe.custom_interpreter_not_file {
        Some("Custom interpreter path is not a file: "@ + custom_path(f)->0)
    } else if f.health_check.enabled && f.health_check.port == 0 {
        Some("Health check port cannot be 0 - specify a valid port (1-65535)"@)
    } else if f.health_check.enabled && f.health_check.endpoint@.len() == 0 {
        Some("Health check endpoint cannot be empty"@)
    } else if f.health_check.enabled && f.health_check.endpoint@[0] != '/' {
        Some("Health check endpoint must start with '/': "@ + f.health_check.endpoint@)
    } else if f.wasm.enabled && f.wasm.wasmtime_path is Some && !probe.wasmtime_exists {
        Some("wasmtime binary not found at: "@ + f.wasm.wasmtime_path->0@)
    } else if f.build_cache.enabled && f.build_cache.max_entries > 1000 {
        Some(
            "Build cache max_entries "@ + decimal(f.build_cache.max_entries as nat)
                + " is too high - use 1000 or less to prevent memory issues"@,
        )
    } else {
        None
    }
}

impl BunFeatures {
    /// Selects an embedded interpreter.
    pub fn with_embedded_runtime(self, interpreter: EmbeddedInterpreter) -> (r: Self)
        ensures
            r.embedded_runtime.interpreter == Some(interpreter),
            r.embedded_runtime.interpreter_path == self.embedded_runtime.interpreter_path,
            r.embedded_runtime.runtime_cache == self.embedded_runtime.runtime_cache,
            r.embedded_runtime.runtime_path == self.embedded_runtime.runtime_path,
            r.build_cache == self.build_cache,
            r.health_check == self.health_check,
            r.wasm == self.wasm,
            r.cross_compile_targets == self.cross_compile_targets,
    {
        let mut s = self;
        s.embedded_runtime.interpreter = Some(interpreter);
        s
    }

    /// Enables the health check on `port`, at `endpoint` when one is given.
    pub fn with_health_check(self, port: u16, endpoint: Option<String>) -> (r: Self)
        ensures
            r.health_check.enabled,
            r.health_check.port == port,
            r.health_check.endpoint == match endpoint {
                Some(ep) => ep,
                None => self.health_check.endpoint,
            },
            r.embedded_runtime == self.embedded_runtime,
            r.build_cache == self.build_cache,
            r.wasm == self.wasm,
            r.cross_compile_targets == self.cross_compile_targets,
    {
        let mut s = self;
        s.health_check.enabled = true;
        s.health_check.port = port;
        if let Some(ep) = endpoint {
            s.health_check.endpoint = ep;
        }
        s
    }

    /// Enables WASM support, with an optional wasmtime binary.
    pub fn with_wasm(self, wasmtime_path: Option<String>) -> (r: Self)
        ensures
            r.wasm.enabled,
            r.wasm.wasmtime_path == wasmtime_path,
            r.wasm.wasi == self.wasm.wasi,
            r.wasm.component_model == self.wasm.component_model,
            r.wasm.wasi_fs_map == self.wasm.wasi_fs_map,
            r.embedded_runtime == self.embedded_runtime,
            r.build_cache == self.build_cache,
            r.health_check == self.health_check,
            r.cross_compile_targets == self.cross_compile_targets,
    {
        let mut s = self;
        s.wasm.enabled = true;
        s.wasm.wasmtime_path = wasmtime_path;
        s
    }

    /// Sets the cross-compile targets.
    pub fn with_cross_compile(self, targets: Vec<String>) -> (r: Self)
        ensures
            r.cross_compile_targets == targets,
            r.embedded_runtime == self.embedded_runtime,
            r.build_cache == self.build_cache,
            r.health_check == self.health_check,
            r.wasm == self.wasm,
    {
        let mut s = self;
        s.cross_compile_targets = targets;
        s
    }

    /// Checks the feature set, given what the filesystem says of its paths.
    pub fn validate(&self, probe: &PathProbe) -> (r: Result<(), String>)
        ensures
            validation_error(*self, *probe) is None ==> r is Ok,
            validation_error(*self, *probe) matches Some(m) ==> r matches Err(e) && e@ == m,
    {
        if let Some(EmbeddedInterpreter::Custom(path)) = &self.embedded_runtime.interpreter {
            if path.as_str().is_empty() {
                return Err(owned("Custom interpreter path cannot be empty"));
            }
            if probe.custom_interpreter_not_file {
                let mut m = owned("Custom interpreter path is not a file: ");
                push_str(&mut m, path.as_str());
                return Err(m);
            }
        }
        if self.health_check.enabled {
            if self.health_check.port == 0 {
                return Err(owned("Health check port cannot be 0 - specify a valid port (1-65535)"));
            }
            let ep = chars_of(self.health_check.endpoint.as_str());
            if ep.len() == 0 {
                return Err(owned("Health check endpoint cannot be empty"));
            }
            if ep[0] != '/' {
                let mut m = owned("Health check endpoint must start with '/': ");
                push_str(&mut m, self.health_check.endpoint.as_str());
                return Err(m);
            }
        }
        if self.wasm.enabled {
            if let Some(path) = &self.wasm.wasmtime_path {
                if !probe.wasmtime_exists {
                    let mut m = owned("wasmtime binary not found at: ");
                    push_str(&mut m, path.as_str());
                    return Err(m);
                }
            }
        }
        if self.build_cache.enabled && self.build_cache.max_entries > 1000 {
            let mut m = owned("Build cache max_entries ");
            let n = decimal_string(self.build_cache.max_entries as u64);
            push_str(&mut m, n.as_str());
            push_str(&mut m, " is too high - use 1000 or less to prevent memory issues");
            return Err(m);
        }
        Ok(())
    }
}

/// Metadata for encrypted payloads.
#[derive(Debug, Clone)]
pub struct CryptoMeta {
    pub nonce_hex: String,
    pub tag_offset: usize,
    pub encryption_key_hex: String,
    pub encryption_salt_hex: String,
}

impl Default for CryptoMeta {
    fn default() -> (r: Self)
        ensures
            r.nonce_hex@.len() == 0,
            r.tag_offset == 0,
            r.encryption_key_hex@.len() == 0,
            r.encryption_salt_hex@.len() == 0,
    {
        CryptoMeta {
            nonce_hex: String::new(),
            tag_offset: 0,
            encryption_key_hex: String::new(),
            encryption_salt_hex: String::new(),
        }
    }
}

/// When a service is restarted.
#[derive(Debug, Clone, Copy, PartialEq, Eq, Structural)]
pub enum RestartPolicy {
    Never,
    OnFailure,
    Always,
}

impl Default for RestartPolicy {
    fn default() -> (r: Self)
        ensures
            r == RestartPolicy::Never,
    {
        RestartPolicy::Never
    }
}

/// A service run alongside the main entrypoint.
#[derive(Debug, Clone)]
pub struct Service {
    pub name: String,
    pub command: Vec<String>,
    pub env: BTreeMap<String, String>,
    pub health_check: Option<HealthCheck>,
    pub restart: RestartPolicy,
}

/// Metadata for a whole artifact.
#[derive(Debug)]
pub struct ArtifactMetadata {
    /// Application name.
    pub name: String,
    /// Version of the packager that created the artifact.
    pub erebus_version: String,
    /// Creation timestamp (RFC 3339).
    pub created: String,
    /// The layers the artifact is composed of.
    pub layers: Vec<SerializableLayer>,
    /// Name of the layer holding the main entrypoint.
    pub entrypoint_layer: Option<String>,
    /// Fallback runtime.
    pub runtime: String,
    /// Fallback entrypoint.
    pub entrypoint: Vec<String>,
    /// Environment variables.
    pub env: BTreeMap<String, String>,
    /// Working directory.
    pub cwd: Option<String>,
    /// Isolation level.
    pub isolation: u8,
    /// Seccomp sandbox enabled.
    pub seccomp: bool,
    /// Landlock filesystem sandbox enabled.
    pub landlock: bool,
    /// GUI application.
    pub gui: bool,
    /// Payload format (zstd-tar, squashfs).
    pub payload_format: String,
    pub health_check: Option<HealthCheck>,
    /// Update URL for self-updates.
    pub update_url: Option<String>,
    pub crypto: Option<CryptoMeta>,
    /// Services run alongside the main entrypoint.
    pub services: Vec<Service>,
    pub version: Option<String>,
    pub author: Option<String>,
    pub description: Option<String>,
    pub license: Option<String>,
    /// Application hash for cache invalidation.
    pub app_hash: Option<String>,
    /// Runtime dependencies hash.
    pub rt_deps_hash: Option<String>,
    pub cross_compile_targets: Vec<String>,
}

impl Default for ArtifactMetadata {
    fn default() -> (r: Self)
        ensures
            r.name@.len() == 0,
            r.erebus_version@.len() == 0,
            r.created@.len() == 0,
            r.layers@.len() == 0,
            r.entrypoint_layer is None,
            r.runtime@.len() == 0,
            r.entrypoint@.len() == 0,
            r.env@.len() == 0,
            r.cwd is None,
            r.isolation == 0,
            !r.seccomp,
            !r.landlock,
            !r.gui,
            r.payload_format@.len() == 0,
            r.health_check is None,
            r.update_url is None,
            r.crypto is None,
            r.services@.len() == 0,
            r.version is None,
            r.author is None,
            r.description is None,
            r.license is None,
            r.app_hash is None,
            r.rt_deps_hash is None,
            r.cross_compile_targets@.len() == 0,
    {
        ArtifactMetadata {
            name: String::new(),
            erebus_version: String::new(),
            created: String::new(),
            layers: Vec::new(),
            entrypoint_layer: None,
            runtime: String::new(),
            entrypoint: Vec::new(),
            env: BTreeMap::new(),
            cwd: None,
            isolation: 0,
            seccomp: false,
            landlock: false,
            gui: false,
            payload_format: String::new(),
            health_check: None,
            update_url: None,
            crypto: None,
            services: Vec::new(),
            version: None,
            author: None,
            description: None,
            license: None,
            app_hash: None,
            rt_deps_hash: None,
            cross_compile_targets: Vec::new(),
        }
    }
}

/// The layers of `layers` whose kind is `kind`, in order.
pub open spec fn of_kind(layers: Seq<SerializableLayer>, kind: LayerKind) -> Seq<SerializableLayer> {
    layers.filter(|l: SerializableLayer| l.spec_kind() == kind)
}

impl ArtifactMetadata {
    /// The first layer named by `entrypoint_layer`, if it names one.
    pub fn get_entrypoint_layer(&self) -> (r: Option<&SerializableLayer>)
        ensures
            r is None <==> (self.entrypoint_layer is None || forall|i: int|
                0 <= i < self.layers@.len() ==> #[trigger] self.layers@[i].spec_name()
                    != self.entrypoint_layer->0@),
            r matches Some(l) ==> exists|i: int|
                0 <= i < self.layers@.len() && self.layers@[i] == *l && l.spec_name()
                    == self.entrypoint_layer->0@ && forall|j: int|
                    0 <= j < i ==> #[trigger] self.layers@[j].spec_name()
                        != self.entrypoint_layer->0@,
    {
        match &self.entrypoint_layer {
            None => None,
            Some(name) => {
                let n = self.layers.len();
                let mut i: usize = 0;
                while i < n
                    invariant
                        n == self.layers@.len(),
                        i <= n,
                        self.entrypoint_layer is Some,
                        self.entrypoint_layer->0@ == name@,
                        forall|j: int| 0 <= j < i ==> #[trigger] self.layers@[j].spec_name() != name@,
                    decreases n - i,
                {
                    if str_eq(self.layers[i].name(), name.as_str()) {
                        assert(self.layers@[i as int].spec_name() == name@);
                        return Some(&self.layers[i]);
                    }
                    i = i + 1;
                }
                None
            },
        }
    }

    /// All layers of kind `kind`, in order.
    pub fn layers_of_kind(&self, kind: LayerKind) -> (r: Vec<&SerializableLayer>)
        ensures
            r@.len() == of_kind(self.layers@, kind).len(),
            forall|i: int| 0 <= i < r@.len() ==> *#[trigger] r@[i] == of_kind(self.layers@, kind)[i],
    {
        let n = self.layers.len();
        let mut out: Vec<&SerializableLayer> = Vec::new();
        let mut i: usize = 0;
        while i < n
            invariant
                n == self.layers@.len(),
                i <= n,
                out@.len() == of_kind(self.layers@.take(i as int), kind).len(),
                forall|j: int|
                    0 <= j < out@.len() ==> *#[trigger] out@[j] == of_kind(
                        self.layers@.take(i as int),
                        kind,
                    )[j],
            decreases n - i,
        {
            let l = &self.layers[i];
            proof {
                assert(self.layers@.take(i + 1).drop_last() =~= self.layers@.take(i as int));
                reveal(Seq::filter);
            }
            if l.kind() == kind {
                out.push(l);
            }
            i = i + 1;
        }
        assert(self.layers@.take(n as int) =~= self.layers@);
        out
    }

    /// The runtime layers, in order.
    pub fn runtime_layers(&self) -> (r: Vec<&SerializableLayer>)
        ensures
            r@.len() == of_kind(self.layers@, LayerKind::Runtime).len(),
            forall|i: int|
                0 <= i < r@.len() ==> *#[trigger] r@[i] == of_kind(self.layers@, LayerKind::Runtime)[i],
    {
        self.layers_of_kind(LayerKind::Runtime)
    }
}

} // verus!
