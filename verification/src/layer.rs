//! Layer and entrypoint abstractions: composable, content-addressed units of
//! an artifact (runtimes, models, tools, configuration), and the registry of
//! entrypoints that know how to launch them.
use crate::bytes::extend_bytes;
use crate::error::Error;
use crate::hashing::{sha256, sha256_digest};
use crate::text::{chars_of, join_path, replace_all, replaced, str_eq, string_from_chars};
use vstd::prelude::*;
use vstd::utf8::encode_utf8;

verus! {

/// A JSON value carried through a layer unchanged.
#[verifier::external_type_specification]
#[verifier::external_body]
pub struct ExJsonValue(serde_json::Value);

/// The kind of layer content.
#[derive(Debug, Clone, Copy, PartialEq, Eq, Structural)]
pub enum LayerKind {
    /// Language runtime (python, node, deno, java, ...).
    Runtime,
    /// AI model weights (GGUF, safetensors, ...).
    Model,
    /// Tool or plugin binary (WASM, native, ...).
    Tool,
    /// Configuration or data layer.
    Config,
    /// Custom or unknown layer type.
    Custom,
}

/// Capabilities a layer may request at runtime.
#[derive(Debug, Clone, Copy, PartialEq, Eq, Structural)]
pub enum Capability {
    ReadFile,
    WriteFile,
    Network,
    Exec,
    Syscall,
    Env,
}

/// Encryption metadata for a layer.
#[derive(Debug, Clone)]
pub struct LayerEncryption {
    /// Cipher, e.g. `aes-256-gcm`.
    pub algorithm: String,
    /// Key identifier for key management.
    pub key_id: Option<String>,
    pub nonce: Vec<u8>,
}

/// The UTF-8 bytes of a string.
pub open spec fn utf8(s: Seq<char>) -> Seq<u8> {
    encode_utf8(s)
}

/// The UTF-8 bytes of a list of strings, one after the other.
pub open spec fn concat_utf8(v: Seq<String>) -> Seq<u8>
    decreases v.len(),
{
    if v.len() == 0 {
        Seq::empty()
    } else {
        concat_utf8(v.drop_last()) + utf8(v.last()@)
    }
}

/// Appends the UTF-8 bytes of `s`.
pub fn extend_utf8(out: &mut Vec<u8>, s: &str)
    ensures
        final(out)@ == old(out)@ + utf8(s@),
{
    extend_bytes(out, s.as_bytes());
}

/// Appends the UTF-8 bytes of every string of `v`, in order.
pub fn extend_utf8_all(out: &mut Vec<u8>, v: &Vec<String>)
    ensures
        final(out)@ == old(out)@ + concat_utf8(v@),
{
    let ghost start = out@;
    let n = v.len();
    let mut i: usize = 0;
    while i < n
        invariant
            n == v@.len(),
            i <= n,
            out@ == start + concat_utf8(v@.take(i as int)),
        decreases n - i,
    {
        extend_utf8(out, v[i].as_str());
        assert(v@.take(i + 1).drop_last() =~= v@.take(i as int));
        i = i + 1;
    }
    assert(v@.take(n as int) =~= v@);
}

/// A layer in the artifact graph, content-addressed by the SHA-256 of its payload.
pub trait Layer {
    /// Unique identifier of this layer (e.g. `python3`, `llama.cpp`).
    fn name(&self) -> (r: &str);

    /// The kind of this layer.
    fn kind(&self) -> (k: LayerKind);

    /// SHA-256 of the layer's payload.
    fn payload_sha256(&self) -> (h: [u8; 32]);

    /// Compression algorithm of the payload, if any.
    fn compression(&self) -> (r: Option<&str>)
        default_ensures
            r is None,
    {
        None
    }

    /// Encryption metadata, if the layer is encrypted.
    fn encryption(&self) -> (r: Option<&LayerEncryption>)
        default_ensures
            r is None,
    {
        None
    }

    /// Capabilities the layer requires.
    fn capabilities(&self) -> (r: Vec<Capability>)
        default_ensures
            r@ == Seq::<Capability>::empty(),
    {
        Vec::new()
    }
}

/// A language runtime layer (Python, Node, ...).
#[derive(Debug, Clone)]
pub struct RuntimeLayer {
    pub name: String,
    /// Bare interpreter name: `python3`, `node`, ...
    pub interpreter: String,
    /// Argument template; `{app}` stands for the application directory.
    pub entrypoint: Vec<String>,
    pub version: Option<String>,
    pub env: Vec<(String, String)>,
    pub capabilities: Vec<Capability>,
}

/// What a runtime layer's payload hash covers: name, interpreter, then each
/// entrypoint argument.
pub open spec fn runtime_payload(name: Seq<char>, interpreter: Seq<char>, entrypoint: Seq<String>) -> Seq<u8> {
    utf8(name) + utf8(interpreter) + concat_utf8(entrypoint)
}

impl Layer for RuntimeLayer {
    fn name(&self) -> (r: &str)
        ensures
            r@ == self.name@,
    {
        self.name.as_str()
    }

    fn kind(&self) -> (k: LayerKind)
        ensures
            k == LayerKind::Runtime,
    {
        LayerKind::Runtime
    }

    fn payload_sha256(&self) -> (h: [u8; 32])
        ensures
            h@ == sha256(runtime_payload(self.name@, self.interpreter@, self.entrypoint@)),
    {
        let mut buf: Vec<u8> = Vec::new();
        extend_utf8(&mut buf, self.name.as_str());
        extend_utf8(&mut buf, self.interpreter.as_str());
        extend_utf8_all(&mut buf, &self.entrypoint);
        assert(buf@ =~= runtime_payload(self.name@, self.interpreter@, self.entrypoint@));
        sha256_digest(buf.as_slice())
    }

    fn capabilities(&self) -> (r: Vec<Capability>)
        ensures
            r@ == self.capabilities@,
    {
        self.capabilities.clone()
    }
}

/// An AI model layer.
#[derive(Debug)]
pub struct ModelLayer {
    pub name: String,
    /// `gguf`, `safetensors`, `onnx`, ...
    pub format: String,
    /// Path within the layer directory.
    pub path: String,
    pub size: u64,
    pub metadata: Option<serde_json::Value>,
}

impl Layer for ModelLayer {
    fn name(&self) -> (r: &str)
        ensures
            r@ == self.name@,
    {
        self.name.as_str()
    }

    fn kind(&self) -> (k: LayerKind)
        ensures
            k == LayerKind::Model,
    {
        LayerKind::Model
    }

    fn payload_sha256(&self) -> (h: [u8; 32])
        ensures
            h@ == sha256(utf8(self.name@) + utf8(self.format@) + utf8(self.path@)),
    {
        let mut buf: Vec<u8> = Vec::new();
        extend_utf8(&mut buf, self.name.as_str());
        extend_utf8(&mut buf, self.format.as_str());
        extend_utf8(&mut buf, self.path.as_str());
        sha256_digest(buf.as_slice())
    }
}

/// A tool layer (WASM plugin, native binary tool).
#[derive(Debug)]
pub struct ToolLayer {
    pub name: String,
    /// The argv that runs the tool.
    pub command: Vec<String>,
    pub input_schema: Option<serde_json::Value>,
    pub output_schema: Option<serde_json::Value>,
}

impl Layer for ToolLayer {
    fn name(&self) -> (r: &str)
        ensures
            r@ == self.name@,
    {
        self.name.as_str()
    }

    fn kind(&self) -> (k: LayerKind)
        ensures
            k == LayerKind::Tool,
    {
        LayerKind::Tool
    }

    fn payload_sha256(&self) -> (h: [u8; 32])
        ensures
            h@ == sha256(utf8(self.name@) + concat_utf8(self.command@)),
    {
        let mut buf: Vec<u8> = Vec::new();
        extend_utf8(&mut buf, self.name.as_str());
        extend_utf8_all(&mut buf, &self.command);
        sha256_digest(buf.as_slice())
    }
}

/// A configuration layer (JSON, YAML, TOML data).
#[derive(Debug)]
pub struct ConfigLayer {
    pub name: String,
    /// `json`, `yaml` or `toml`.
    pub format: String,
    pub data: serde_json::Value,
}

/// Calls `serde_json::to_vec` on `data`, an empty buffer where it fails.
///
/// Trusted for nothing about the bytes: a JSON value is opaque here, so no
/// clause states what its serialization holds.
#[verifier::external_body]
fn json_to_vec(data: &serde_json::Value) -> (v: Vec<u8>) {
    serde_json::to_vec(data).unwrap_or_default()
}

impl Layer for ConfigLayer {
    fn name(&self) -> (r: &str)
        ensures
            r@ == self.name@,
    {
        self.name.as_str()
    }

    fn kind(&self) -> (k: LayerKind)
        ensures
            k == LayerKind::Config,
    {
        LayerKind::Config
    }

    fn payload_sha256(&self) -> (h: [u8; 32])
        ensures
            exists|data: Seq<u8>| h@ == sha256(utf8(self.name@) + data),
    {
        let mut buf: Vec<u8> = Vec::new();
        extend_utf8(&mut buf, self.name.as_str());
        let data = json_to_vec(&self.data);
        let ghost before = buf@;
        extend_bytes(&mut buf, data.as_slice());
        let h = sha256_digest(buf.as_slice());
        assert(h@ == sha256(utf8(self.name@) + data@));
        h
    }
}

/// A layer of any of the concrete kinds, as stored in artifact metadata.
#[derive(Debug)]
pub enum SerializableLayer {
    Runtime(RuntimeLayer),
    Model(ModelLayer),
    Tool(ToolLayer),
    Config(ConfigLayer),
}

impl SerializableLayer {
    /// The name of the layer inside.
    pub open spec fn spec_name(&self) -> Seq<char> {
        match self {
            SerializableLayer::Runtime(l) => l.name@,
            SerializableLayer::Model(l) => l.name@,
            SerializableLayer::Tool(l) => l.name@,
            SerializableLayer::Config(l) => l.name@,
        }
    }

    /// The kind of the layer inside.
    pub open spec fn spec_kind(&self) -> LayerKind {
        match self {
            SerializableLayer::Runtime(_) => LayerKind::Runtime,
            SerializableLayer::Model(_) => LayerKind::Model,
            SerializableLayer::Tool(_) => LayerKind::Tool,
            SerializableLayer::Config(_) => LayerKind::Config,
        }
    }

    /// The layer's name.
    pub fn name(&self) -> (r: &str)
        ensures
            r@ == self.spec_name(),
    {
        match self {
            SerializableLayer::Runtime(l) => l.name.as_str(),
            SerializableLayer::Model(l) => l.name.as_str(),
            SerializableLayer::Tool(l) => l.name.as_str(),
            SerializableLayer::Config(l) => l.name.as_str(),
        }
    }

    /// The layer's kind.
    pub fn kind(&self) -> (k: LayerKind)
        ensures
            k == self.spec_kind(),
    {
        match self {
            SerializableLayer::Runtime(_) => LayerKind::Runtime,
            SerializableLayer::Model(_) => LayerKind::Model,
            SerializableLayer::Tool(_) => LayerKind::Tool,
            SerializableLayer::Config(_) => LayerKind::Config,
        }
    }
}

/// The context an entrypoint runs in.
#[derive(Debug, Clone)]
pub struct ExecutionContext {
    /// Where the layers are extracted.
    pub rootfs: String,
    /// The layer's own directory within the rootfs.
    pub layer_dir: String,
    /// Environment variables for this execution.
    pub env: Vec<(String, String)>,
    /// Arguments passed to the entrypoint.
    pub args: Vec<String>,
    /// Working directory.
    pub cwd: String,
}

/// Knows how to launch a layer.
pub trait Entrypoint {
    /// The name of the layer this entrypoint launches.
    spec fn spec_layer_name(&self) -> Seq<char>;

    /// The name of the layer this entrypoint launches.
    fn layer_name(&self) -> (r: &str)
        ensures
            r@ == self.spec_layer_name(),
    ;

    /// Health check for long-running entrypoints; healthy unless overridden.
    fn health_check(&self, ctx: &ExecutionContext) -> (r: Result<bool, Error>)
        default_ensures
            r == Ok::<bool, Error>(true),
    {
        Ok(true)
    }
}

/// A registry of entrypoints keyed by layer name; registering a name again
/// replaces the earlier entrypoint.
pub struct EntrypointRegistry<E: Entrypoint> {
    entrypoints: Vec<E>,
}

/// Whether some entrypoint of `s` launches the layer named `k`.
pub open spec fn has_name<E: Entrypoint>(s: Seq<E>, k: Seq<char>) -> bool {
    exists|i: int| 0 <= i < s.len() && #[trigger] s[i].spec_layer_name() == k
}

/// Whether `after` is `before` with `e` registered: an entry of the same
/// name is replaced in place, otherwise `e` is appended.
pub open spec fn registered<E: Entrypoint>(before: Seq<E>, after: Seq<E>, e: E) -> bool {
    &&& has_name(before, e.spec_layer_name()) ==> after.len() == before.len()
    &&& !has_name(before, e.spec_layer_name()) ==> after == before.push(e)
    &&& forall|i: int|
        0 <= i < before.len() ==> #[trigger] after[i] == if before[i].spec_layer_name()
            == e.spec_layer_name() {
            e
        } else {
            before[i]
        }
}

/// Registering `e` makes its layer name resolve to `e` (replacing any earlier
/// entrypoint of that name), and leaves every other name resolving exactly
/// as before. Read with the contract of `get` (`None` exactly when no entry
/// has the name, else the entry that has it): after `register(e)`,
/// `get(name of e)` is `Some(e)`, and `get(m)` for any other `m` is `Some`
/// exactly when it was before, with the same entry.
pub proof fn lemma_register_get<E: Entrypoint>(before: Seq<E>, after: Seq<E>, e: E)
    requires
        registered(before, after, e),
    ensures
        has_name(after, e.spec_layer_name()),
        forall|i: int|
            0 <= i < after.len() && #[trigger] after[i].spec_layer_name() == e.spec_layer_name() ==> after[i]
                == e,
        forall|m: Seq<char>| m != e.spec_layer_name() ==> (has_name(after, m) <==> has_name(before, m)),
        forall|i: int|
            0 <= i < after.len() && #[trigger] after[i].spec_layer_name() != e.spec_layer_name() ==> i
                < before.len() && after[i] == before[i],
{
    let n = e.spec_layer_name();
    if has_name(before, n) {
        let j = choose|j: int| 0 <= j < before.len() && #[trigger] before[j].spec_layer_name() == n;
        assert(after[j] == e);
    } else {
        assert(after[before.len() as int] == e);
    }
    assert forall|m: Seq<char>| m != n implies (has_name(after, m) <==> has_name(before, m)) by {
        if has_name(before, m) {
            let j = choose|j: int| 0 <= j < before.len() && #[trigger] before[j].spec_layer_name() == m;
            assert(after[j] == before[j]);
        }
        if has_name(after, m) {
            let j = choose|j: int| 0 <= j < after.len() && #[trigger] after[j].spec_layer_name() == m;
            if j < before.len() {
                assert(before[j].spec_layer_name() != n);
                assert(after[j] == before[j]);
            }
        }
    }
}

impl<E: Entrypoint> EntrypointRegistry<E> {
    #[verifier::type_invariant]
    spec fn names_distinct(self) -> bool {
        forall|i: int, j: int|
            0 <= i < self.entrypoints@.len() && 0 <= j < self.entrypoints@.len() && i != j
                ==> #[trigger] self.entrypoints@[i].spec_layer_name()
                != #[trigger] self.entrypoints@[j].spec_layer_name()
    }

    /// The registered entrypoints, in registration order.
    pub closed spec fn view(&self) -> Seq<E> {
        self.entrypoints@
    }

    /// An empty registry.
    pub fn new() -> (r: Self)
        ensures
            r@ == Seq::<E>::empty(),
    {
        EntrypointRegistry { entrypoints: Vec::new() }
    }

    /// Index of the entrypoint named `name`, if any.
    fn position(&self, name: &str) -> (r: Option<usize>)
        ensures
            r matches Some(i) ==> i < self@.len() && self@[i as int].spec_layer_name() == name@,
            r is None ==> !has_name(self@, name@),
    {
        let n = self.entrypoints.len();
        let mut i: usize = 0;
        while i < n
            invariant
                n == self.entrypoints@.len(),
                i <= n,
                forall|j: int| 0 <= j < i ==> #[trigger] self.entrypoints@[j].spec_layer_name() != name@,
            decreases n - i,
        {
            if str_eq(self.entrypoints[i].layer_name(), name) {
                return Some(i);
            }
            i = i + 1;
        }
        None
    }

    /// Registers `entrypoint` under its layer's name, replacing an earlier
    /// entrypoint of the same name in place.
    pub fn register(&mut self, entrypoint: E)
        ensures
            registered(old(self)@, final(self)@, entrypoint),
    {
        proof {
            use_type_invariant(&*self);
        }
        let ghost old_entries = self.entrypoints@;
        let ghost e = entrypoint;
        let key = chars_of(entrypoint.layer_name());
        let name = string_from_chars(key.as_slice());
        match self.position(name.as_str()) {
            Some(i) => {
                let mut entries = Vec::new();
                std::mem::swap(&mut entries, &mut self.entrypoints);
                entries.set(i, entrypoint);
                assert(entries@ == old_entries.update(i as int, e));
                self.entrypoints = entries;
            },
            None => {
                let mut entries = Vec::new();
                std::mem::swap(&mut entries, &mut self.entrypoints);
                entries.push(entrypoint);
                assert(entries@ == old_entries.push(e));
                self.entrypoints = entries;
            },
        }
    }

    /// The entrypoint registered for the layer `name`.
    pub fn get(&self, name: &str) -> (r: Option<&E>)
        ensures
            r is None <==> !has_name(self@, name@),
            forall|i: int|
                0 <= i < self@.len() && #[trigger] self@[i].spec_layer_name() == name@ ==> r == Some(
                    &self@[i],
                ),
    {
        proof {
            use_type_invariant(self);
        }
        match self.position(name) {
            Some(i) => Some(&self.entrypoints[i]),
            None => None,
        }
    }

    /// The names of all registered layers, in registration order.
    pub fn names(&self) -> (r: Vec<String>)
        ensures
            r@.len() == self@.len(),
            forall|i: int| 0 <= i < r@.len() ==> #[trigger] r@[i]@ == self@[i].spec_layer_name(),
    {
        let n = self.entrypoints.len();
        let mut out: Vec<String> = Vec::new();
        let mut i: usize = 0;
        while i < n
            invariant
                n == self.entrypoints@.len(),
                i <= n,
                out@.len() == i,
                forall|j: int| 0 <= j < i ==> #[trigger] out@[j]@ == self.entrypoints@[j].spec_layer_name(),
            decreases n - i,
        {
            let c = chars_of(self.entrypoints[i].layer_name());
            out.push(string_from_chars(c.as_slice()));
            i = i + 1;
        }
        out
    }
}

/// Entrypoint of a runtime layer: runs the layer's interpreter.
#[derive(Debug, Clone)]
pub struct RuntimeEntrypoint {
    layer: RuntimeLayer,
}

/// The argv a runtime layer is launched with: the interpreter, each template
/// argument with `{app}` replaced by the application directory under the
/// rootfs, then the runtime arguments.
pub open spec fn runtime_argv(layer: RuntimeLayer, rootfs: Seq<char>, args: Seq<String>) -> Seq<Seq<char>> {
    let app = join_path(rootfs, seq!['a', 'p', 'p']);
    seq![layer.interpreter@] + Seq::new(
        layer.entrypoint@.len(),
        |i: int| replaced(layer.entrypoint@[i]@, seq!['{', 'a', 'p', 'p', '}'], app),
    ) + Seq::new(args.len(), |i: int| args[i]@)
}

impl RuntimeEntrypoint {
    /// An entrypoint for `layer`.
    pub fn new(layer: RuntimeLayer) -> (r: Self)
        ensures
            r.spec_layer() == layer,
    {
        RuntimeEntrypoint { layer }
    }

    /// The layer this entrypoint launches.
    pub closed spec fn spec_layer(&self) -> RuntimeLayer {
        self.layer
    }

    /// The layer this entrypoint launches.
    pub fn layer(&self) -> (r: &RuntimeLayer)
        ensures
            *r == self.spec_layer(),
    {
        &self.layer
    }

    /// The argv and environment of a launch in `ctx`: the context's
    /// environment followed by the layer's own.
    pub fn command(&self, ctx: &ExecutionContext) -> (r: (Vec<String>, Vec<(String, String)>))
        ensures
            r.0@.len() == runtime_argv(self.spec_layer(), ctx.rootfs@, ctx.args@).len(),
            forall|i: int|
                0 <= i < r.0@.len() ==> #[trigger] r.0@[i]@ == runtime_argv(
                    self.spec_layer(),
                    ctx.rootfs@,
                    ctx.args@,
                )[i],
            r.1@ == ctx.env@ + self.spec_layer().env@,
    {
        let ghost spec_argv = runtime_argv(self.layer, ctx.rootfs@, ctx.args@);
        let root = chars_of(ctx.rootfs.as_str());
        let mut app: Vec<char> = Vec::new();
        let mut k: usize = 0;
        while k < root.len()
            invariant
                k <= root@.len(),
                app@ == root@.take(k as int),
            decreases root@.len() - k,
        {
            app.push(root[k]);
            assert(root@.take(k + 1) =~= root@.take(k as int).push(root@[k as int]));
            k = k + 1;
        }
        assert(root@.take(root@.len() as int) =~= root@);
        if root.len() > 0 && root[root.len() - 1] != '/' {
            app.push('/');
        }
        app.push('a');
        app.push('p');
        app.push('p');
        assert(app@ =~= join_path(ctx.rootfs@, seq!['a', 'p', 'p']));
        let pat: Vec<char> = vec!['{', 'a', 'p', 'p', '}'];
        assert(pat@ =~= seq!['{', 'a', 'p', 'p', '}']);
        let mut argv: Vec<String> = Vec::new();
        argv.push(self.layer.interpreter.clone());
        let n = self.layer.entrypoint.len();
        let mut i: usize = 0;
        while i < n
            invariant
                n == self.layer.entrypoint@.len(),
                i <= n,
                argv@.len() == i + 1,
                spec_argv == runtime_argv(self.layer, ctx.rootfs@, ctx.args@),
                app@ == join_path(ctx.rootfs@, seq!['a', 'p', 'p']),
                pat@ == seq!['{', 'a', 'p', 'p', '}'],
                forall|j: int| 0 <= j < i + 1 ==> #[trigger] argv@[j]@ == spec_argv[j],
            decreases n - i,
        {
            let arg = chars_of(self.layer.entrypoint[i].as_str());
            let r = replace_all(arg.as_slice(), pat.as_slice(), app.as_slice());
            argv.push(string_from_chars(r.as_slice()));
            i = i + 1;
        }
        let m = ctx.args.len();
        let mut j: usize = 0;
        while j < m
            invariant
                m == ctx.args@.len(),
                n == self.layer.entrypoint@.len(),
                j <= m,
                argv@.len() == n + 1 + j,
                spec_argv == runtime_argv(self.layer, ctx.rootfs@, ctx.args@),
                forall|q: int| 0 <= q < n + 1 + j ==> #[trigger] argv@[q]@ == spec_argv[q],
            decreases m - j,
        {
            argv.push(ctx.args[j].clone());
            j = j + 1;
        }
        let mut env: Vec<(String, String)> = Vec::new();
        let mut q: usize = 0;
        while q < ctx.env.len()
            invariant
                q <= ctx.env@.len(),
                env@ == ctx.env@.take(q as int),
            decreases ctx.env@.len() - q,
        {
            let (a, b) = &ctx.env[q];
            env.push((a.clone(), b.clone()));
            assert(env@ =~= ctx.env@.take(q + 1));
            q = q + 1;
        }
        let mut q2: usize = 0;
        while q2 < self.layer.env.len()
            invariant
                q2 <= self.layer.env@.len(),
                env@ == ctx.env@ + self.layer.env@.take(q2 as int),
            decreases self.layer.env@.len() - q2,
        {
            let (a, b) = &self.layer.env[q2];
            env.push((a.clone(), b.clone()));
            assert(env@ =~= ctx.env@ + self.layer.env@.take(q2 + 1));
            q2 = q2 + 1;
        }
        assert(ctx.env@.take(ctx.env@.len() as int) =~= ctx.env@);
        assert(self.layer.env@.take(self.layer.env@.len() as int) =~= self.layer.env@);
        (argv, env)
    }
}

impl Entrypoint for RuntimeEntrypoint {
    open spec fn spec_layer_name(&self) -> Seq<char> {
        self.spec_layer().name@
    }

    fn layer_name(&self) -> (r: &str) {
        self.layer.name.as_str()
    }
}

} // verus!
