//! Containers: the configuration of a container, the command lines given to
//! the container runtime, and the reading of its answers.
use vstd::prelude::*;
use core::time::Duration;
use crate::secure_executor::{duration_from_secs, seconds};
use crate::text::{
    before_first, chars_of, concat2, decimal, decimal_text, digit_char, has_sub, owned, push_char,
    second_piece, string_from_chars, str_contains, text_eq, texts, trim, trimmed, append_str,
    before_first_exec, second_piece_exec, concat3, string_from_range,
};

verus! {

/// Transport protocol of a published port.
#[derive(Debug, Clone, Copy, PartialEq, Eq, Structural)]
pub enum PortProtocol {
    TCP,
    UDP,
}

/// A port of the host published to a port of the container.
#[derive(Debug, Clone, Copy, PartialEq, Eq, Structural)]
pub struct PortMapping {
    pub host_port: u16,
    pub container_port: u16,
    pub protocol: PortProtocol,
}

/// Access to a mounted volume.
#[derive(Debug, Clone, Copy, PartialEq, Eq, Structural)]
pub enum VolumeMode {
    ReadOnly,
    ReadWrite,
}

/// A path of the host mounted into the container.
#[derive(Debug, Clone)]
pub struct VolumeMapping {
    pub host_path: String,
    pub container_path: String,
    pub mode: VolumeMode,
}

/// When the runtime restarts a container.
#[derive(Debug, Clone, Copy, PartialEq, Eq, Structural)]
pub enum RestartPolicy {
    No,
    Always,
    OnFailure,
    UnlessStopped,
}

/// Resource limits. CPU shares are counted in thousandths of a core.
#[derive(Debug, Clone, Copy, PartialEq, Eq, Structural)]
pub struct ResourceLimits {
    pub memory_mb: Option<u64>,
    pub cpu_millicores: Option<u64>,
    pub disk_space_mb: Option<u64>,
}

/// Security options of a container.
#[derive(Debug, Clone)]
pub struct SecurityOptions {
    pub read_only_root: bool,
    pub no_new_privileges: bool,
    pub user_namespace: bool,
    pub capabilities_drop: Vec<String>,
    pub capabilities_add: Vec<String>,
}

/// The configuration of a container. The environment is a list of
/// variables and values, passed in that order.
#[derive(Debug, Clone)]
pub struct DockerConfig {
    pub image: String,
    pub tag: String,
    pub name: Option<String>,
    pub ports: Vec<PortMapping>,
    pub volumes: Vec<VolumeMapping>,
    pub environment: Vec<(String, String)>,
    pub working_directory: Option<String>,
    pub user: Option<String>,
    pub network: Option<String>,
    pub restart_policy: RestartPolicy,
    pub resources: ResourceLimits,
    pub security_options: SecurityOptions,
}

/// The state of a container.
#[derive(Debug, Clone, Copy, PartialEq, Eq, Structural)]
pub enum ContainerStatus {
    Running,
    Stopped,
    Paused,
    Restarting,
    Dead,
    Created,
}

/// What is known of a container.
#[derive(Debug, Clone)]
pub struct ContainerInfo {
    pub id: String,
    pub name: String,
    pub image: String,
    pub status: ContainerStatus,
    pub created: String,
    pub ports: Vec<PortMapping>,
    pub volumes: Vec<VolumeMapping>,
}

/// The outcome of a command run in a container.
#[derive(Debug)]
pub struct DockerCommandResult {
    pub container_id: String,
    pub command: String,
    pub exit_code: i32,
    pub stdout: String,
    pub stderr: String,
    pub duration: Duration,
}

impl DockerCommandResult {
    /// The command succeeded: it exited with code 0.
    pub fn success(&self) -> (r: bool)
        ensures
            r == (self.exit_code == 0),
    {
        self.exit_code == 0
    }
}

impl ResourceLimits {
    /// Half a gigabyte of memory and one core; no disk limit.
    pub fn default() -> (r: Self)
        ensures
            r.memory_mb == Some(512u64),
            r.cpu_millicores == Some(1000u64),
            r.disk_space_mb is None,
    {
        ResourceLimits { memory_mb: Some(512), cpu_millicores: Some(1000), disk_space_mb: None }
    }
}

impl SecurityOptions {
    /// No new privileges; every capability dropped but those needed to
    /// change ownership and identity.
    pub fn default() -> (r: Self)
        ensures
            !r.read_only_root,
            r.no_new_privileges,
            !r.user_namespace,
            texts(r.capabilities_drop@) == seq!["ALL"@],
            texts(r.capabilities_add@) == seq!["CHOWN"@, "SETUID"@, "SETGID"@],
    {
        let drop = vec![owned("ALL")];
        let add = vec![owned("CHOWN"), owned("SETUID"), owned("SETGID")];
        assert(texts(drop@) =~= seq!["ALL"@]);
        assert(texts(add@) =~= seq!["CHOWN"@, "SETUID"@, "SETGID"@]);
        SecurityOptions {
            read_only_root: false,
            no_new_privileges: true,
            user_namespace: false,
            capabilities_drop: drop,
            capabilities_add: add,
        }
    }
}

impl DockerConfig {
    /// An empty image at tag `latest`, working in `/workdir`, never
    /// restarted, with the default limits and security options.
    pub fn default() -> (r: Self)
        ensures
            r.image@ == Seq::<char>::empty(),
            r.tag@ == "latest"@,
            r.name is None,
            r.ports@.len() == 0,
            r.volumes@.len() == 0,
            r.environment@.len() == 0,
            r.working_directory matches Some(w) && w@ == "/workdir"@,
            r.user is None,
            r.network is None,
            r.restart_policy == RestartPolicy::No,
            r.resources.memory_mb == Some(512u64),
            r.resources.cpu_millicores == Some(1000u64),
            r.resources.disk_space_mb is None,
            r.security_options.no_new_privileges,
            !r.security_options.read_only_root,
            !r.security_options.user_namespace,
            texts(r.security_options.capabilities_drop@) == seq!["ALL"@],
            texts(r.security_options.capabilities_add@) == seq!["CHOWN"@, "SETUID"@, "SETGID"@],
    {
        DockerConfig {
            image: String::new(),
            tag: owned("latest"),
            name: None,
            ports: Vec::new(),
            volumes: Vec::new(),
            environment: Vec::new(),
            working_directory: Some(owned("/workdir")),
            user: None,
            network: None,
            restart_policy: RestartPolicy::No,
            resources: ResourceLimits::default(),
            security_options: SecurityOptions::default(),
        }
    }
}

// ---------------------------------------------------------------------
// Command lines
// ---------------------------------------------------------------------

/// `flag v` for each value `v`, in order.
pub open spec fn flag_each(flag: Seq<char>, vals: Seq<Seq<char>>) -> Seq<Seq<char>>
    decreases vals.len(),
{
    if vals.len() == 0 {
        Seq::empty()
    } else {
        flag_each(flag, vals.drop_last()) + seq![flag, vals.last()]
    }
}

/// `flag v` where there is a value.
pub open spec fn flag_opt(flag: Seq<char>, v: Option<String>) -> Seq<Seq<char>> {
    match v {
        Some(x) => seq![flag, x@],
        None => Seq::empty(),
    }
}

/// The text of a protocol.
pub open spec fn protocol_text(p: PortProtocol) -> Seq<char> {
    match p {
        PortProtocol::TCP => "tcp"@,
        PortProtocol::UDP => "udp"@,
    }
}

/// `host:container/protocol`.
pub open spec fn port_text(p: PortMapping) -> Seq<char> {
    decimal(p.host_port as nat) + ":"@ + decimal(p.container_port as nat) + "/"@ + protocol_text(p.protocol)
}

/// The text of a volume mode.
pub open spec fn mode_text(m: VolumeMode) -> Seq<char> {
    match m {
        VolumeMode::ReadOnly => "ro"@,
        VolumeMode::ReadWrite => "rw"@,
    }
}

/// `host:container:mode`.
pub open spec fn volume_text(v: VolumeMapping) -> Seq<char> {
    v.host_path@ + ":"@ + v.container_path@ + ":"@ + mode_text(v.mode)
}

/// `name=value`.
pub open spec fn env_text(e: (String, String)) -> Seq<char> {
    e.0@ + "="@ + e.1@
}

/// The text of a restart policy.
pub open spec fn restart_text(p: RestartPolicy) -> Seq<char> {
    match p {
        RestartPolicy::No => "no"@,
        RestartPolicy::Always => "always"@,
        RestartPolicy::OnFailure => "on-failure"@,
        RestartPolicy::UnlessStopped => "unless-stopped"@,
    }
}

/// The digits after the decimal point of `r` thousandths, trailing zeros
/// dropped; `r` is between 1 and 999.
pub open spec fn thousandths_text(r: nat) -> Seq<char> {
    let a = digit_char(r / 100);
    let b = digit_char((r / 10) % 10);
    let c = digit_char(r % 10);
    if r % 10 != 0 {
        seq![a, b, c]
    } else if (r / 10) % 10 != 0 {
        seq![a, b]
    } else {
        seq![a]
    }
}

/// A number of thousandths written as the shortest decimal number (as a
/// floating-point count of cores prints).
pub open spec fn millis_text(m: nat) -> Seq<char> {
    if m % 1000 == 0 {
        decimal(m / 1000)
    } else {
        decimal(m / 1000) + seq!['.'] + thousandths_text(m % 1000)
    }
}

/// The security part of a `run` command line.
pub open spec fn security_args(s: SecurityOptions) -> Seq<Seq<char>> {
    (if s.read_only_root { seq!["--read-only"@] } else { Seq::empty() })
    + (if s.no_new_privileges { seq!["--security-opt"@, "no-new-privileges"@] } else { Seq::empty() })
    + flag_each("--cap-drop"@, texts(s.capabilities_drop@))
    + flag_each("--cap-add"@, texts(s.capabilities_add@))
}

/// The resource part of a `run` command line.
pub open spec fn resource_args(r: ResourceLimits) -> Seq<Seq<char>> {
    (match r.memory_mb {
        Some(m) => seq!["-m"@, decimal(m as nat) + "m"@],
        None => Seq::empty(),
    }) + (match r.cpu_millicores {
        Some(c) => seq!["--cpus"@, millis_text(c as nat)],
        None => Seq::empty(),
    })
}

/// The command line that creates and starts a container named `name`
/// from `c`, detached.
pub open spec fn run_args_of(c: DockerConfig, name: Seq<char>) -> Seq<Seq<char>> {
    seq!["run"@, "-d"@, "--name"@, name]
    + security_args(c.security_options)
    + resource_args(c.resources)
    + flag_each("-p"@, c.ports@.map_values(|p: PortMapping| port_text(p)))
    + flag_each("-v"@, c.volumes@.map_values(|v: VolumeMapping| volume_text(v)))
    + flag_each("-e"@, c.environment@.map_values(|e: (String, String)| env_text(e)))
    + flag_opt("-w"@, c.working_directory)
    + flag_opt("-u"@, c.user)
    + flag_opt("--network"@, c.network)
    + seq!["--restart"@, restart_text(c.restart_policy)]
    + seq![c.image@ + ":"@ + c.tag@]
}

/// The texts of two vectors of strings, appended.
proof fn lemma_texts_add(a: Seq<String>, b: Seq<String>)
    ensures
        texts(a + b) == texts(a) + texts(b),
{
    assert(texts(a + b) =~= texts(a) + texts(b));
}

/// Appends the strings of `b` to `a`.
fn extend(a: &mut Vec<String>, b: Vec<String>)
    ensures
        texts(final(a)@) == texts(old(a)@) + texts(b@),
{
    let mut b = b;
    let ghost a0 = a@;
    let ghost b0 = b@;
    a.append(&mut b);
    proof {
        lemma_texts_add(a0, b0);
    }
}

/// `flag v` for each value of `vals`.
fn flag_each_exec(flag: &str, vals: &Vec<String>) -> (r: Vec<String>)
    ensures
        texts(r@) == flag_each(flag@, texts(vals@)),
{
    let mut r: Vec<String> = Vec::new();
    let mut i: usize = 0;
    while i < vals.len()
        invariant
            i <= vals@.len(),
            texts(r@) == flag_each(flag@, texts(vals@).take(i as int)),
        decreases vals.len() - i,
    {
        let ghost before = r@;
        r.push(owned(flag));
        r.push(vals[i].clone());
        let ghost t = texts(vals@).take(i + 1);
        assert(t.drop_last() =~= texts(vals@).take(i as int));
        assert(texts(r@) =~= texts(before) + seq![flag@, vals@[i as int]@]);
        i = i + 1;
    }
    assert(texts(vals@).take(vals@.len() as int) =~= texts(vals@));
    r
}

/// `flag v` where there is a value.
fn flag_opt_exec(flag: &str, v: &Option<String>) -> (r: Vec<String>)
    ensures
        texts(r@) == flag_opt(flag@, *v),
{
    match v {
        Some(x) => {
            let r = vec![owned(flag), x.clone()];
            assert(texts(r@) =~= seq![flag@, x@]);
            r
        },
        None => {
            let r: Vec<String> = Vec::new();
            assert(texts(r@) =~= Seq::<Seq<char>>::empty());
            r
        },
    }
}

/// The single string `s`.
fn one(s: String) -> (r: Vec<String>)
    ensures
        texts(r@) == seq![s@],
{
    let r = vec![s];
    assert(texts(r@) =~= seq![r@[0]@]);
    r
}

/// The strings `a` and `b`.
fn two(a: String, b: String) -> (r: Vec<String>)
    ensures
        texts(r@) == seq![a@, b@],
{
    let r = vec![a, b];
    assert(texts(r@) =~= seq![r@[0]@, r@[1]@]);
    r
}

/// The text of a port mapping.
fn port_text_exec(p: &PortMapping) -> (r: String)
    ensures
        r@ == port_text(*p),
{
    let mut r = decimal_text(p.host_port as u64);
    append_str(&mut r, ":");
    let c = decimal_text(p.container_port as u64);
    append_str(&mut r, c.as_str());
    append_str(&mut r, "/");
    match p.protocol {
        PortProtocol::TCP => append_str(&mut r, "tcp"),
        PortProtocol::UDP => append_str(&mut r, "udp"),
    }
    r
}

/// The text of a volume mapping.
fn volume_text_exec(v: &VolumeMapping) -> (r: String)
    ensures
        r@ == volume_text(*v),
{
    let mut r = v.host_path.clone();
    append_str(&mut r, ":");
    append_str(&mut r, v.container_path.as_str());
    append_str(&mut r, ":");
    match v.mode {
        VolumeMode::ReadOnly => append_str(&mut r, "ro"),
        VolumeMode::ReadWrite => append_str(&mut r, "rw"),
    }
    r
}

/// The text of an environment variable and its value.
fn env_text_exec(e: &(String, String)) -> (r: String)
    ensures
        r@ == env_text(*e),
{
    let mut r = e.0.clone();
    append_str(&mut r, "=");
    append_str(&mut r, e.1.as_str());
    r
}

/// The texts of the port mappings.
fn port_texts(ports: &Vec<PortMapping>) -> (r: Vec<String>)
    ensures
        texts(r@) == ports@.map_values(|p: PortMapping| port_text(p)),
{
    let mut r: Vec<String> = Vec::new();
    let mut i: usize = 0;
    while i < ports.len()
        invariant
            i <= ports@.len(),
            texts(r@) == ports@.take(i as int).map_values(|p: PortMapping| port_text(p)),
        decreases ports.len() - i,
    {
        let ghost before = r@;
        r.push(port_text_exec(&ports[i]));
        assert(texts(r@) =~= ports@.take(i + 1).map_values(|p: PortMapping| port_text(p))) by {
            assert(texts(r@) =~= texts(before).push(port_text(ports@[i as int])));
        }
        i = i + 1;
    }
    assert(ports@.take(ports@.len() as int) =~= ports@);
    r
}

/// The texts of the volume mappings.
fn volume_texts(vols: &Vec<VolumeMapping>) -> (r: Vec<String>)
    ensures
        texts(r@) == vols@.map_values(|v: VolumeMapping| volume_text(v)),
{
    let mut r: Vec<String> = Vec::new();
    let mut i: usize = 0;
    while i < vols.len()
        invariant
            i <= vols@.len(),
            texts(r@) == vols@.take(i as int).map_values(|v: VolumeMapping| volume_text(v)),
        decreases vols.len() - i,
    {
        let ghost before = r@;
        r.push(volume_text_exec(&vols[i]));
        assert(texts(r@) =~= vols@.take(i + 1).map_values(|v: VolumeMapping| volume_text(v))) by {
            assert(texts(r@) =~= texts(before).push(volume_text(vols@[i as int])));
        }
        i = i + 1;
    }
    assert(vols@.take(vols@.len() as int) =~= vols@);
    r
}

/// The texts of the environment variables.
fn env_texts(env: &Vec<(String, String)>) -> (r: Vec<String>)
    ensures
        texts(r@) == env@.map_values(|e: (String, String)| env_text(e)),
{
    let mut r: Vec<String> = Vec::new();
    let mut i: usize = 0;
    while i < env.len()
        invariant
            i <= env@.len(),
            texts(r@) == env@.take(i as int).map_values(|e: (String, String)| env_text(e)),
        decreases env.len() - i,
    {
        let ghost before = r@;
        r.push(env_text_exec(&env[i]));
        assert(texts(r@) =~= env@.take(i + 1).map_values(|e: (String, String)| env_text(e))) by {
            assert(texts(r@) =~= texts(before).push(env_text(env@[i as int])));
        }
        i = i + 1;
    }
    assert(env@.take(env@.len() as int) =~= env@);
    r
}

/// The decimal digit of `d < 10`.
fn digit(d: u64) -> (c: char)
    requires
        d < 10,
    ensures
        c == digit_char(d as nat),
{
    if d == 0 { '0' } else if d == 1 { '1' } else if d == 2 { '2' } else if d == 3 { '3' }
    else if d == 4 { '4' } else if d == 5 { '5' } else if d == 6 { '6' } else if d == 7 { '7' }
    else if d == 8 { '8' } else { '9' }
}

/// A number of thousandths as the shortest decimal number.
fn millis_text_exec(m: u64) -> (r: String)
    ensures
        r@ == millis_text(m as nat),
{
    let mut r = decimal_text(m / 1000);
    let f = m % 1000;
    if f != 0 {
        let ghost before = r@;
        push_char(&mut r, '.');
        let a = digit(f / 100);
        let b = digit((f / 10) % 10);
        let c = digit(f % 10);
        push_char(&mut r, a);
        if f % 10 != 0 {
            push_char(&mut r, b);
            push_char(&mut r, c);
            assert(r@ =~= before + seq!['.'] + seq![a, b, c]);
        } else if (f / 10) % 10 != 0 {
            push_char(&mut r, b);
            assert(r@ =~= before + seq!['.'] + seq![a, b]);
        } else {
            assert(r@ =~= before + seq!['.'] + seq![a]);
        }
    }
    r
}

/// The security part of a `run` command line.
fn security_args_exec(s: &SecurityOptions) -> (r: Vec<String>)
    ensures
        texts(r@) == security_args(*s),
{
    let mut r: Vec<String> = Vec::new();
    if s.read_only_root {
        r.push(owned("--read-only"));
    }
    assert(texts(r@) =~= (if s.read_only_root { seq!["--read-only"@] } else { Seq::<Seq<char>>::empty() }));
    if s.no_new_privileges {
        extend(&mut r, two(owned("--security-opt"), owned("no-new-privileges")));
    } else {
        let e: Vec<String> = Vec::new();
        assert(texts(e@) =~= Seq::<Seq<char>>::empty());
        extend(&mut r, e);
    }
    extend(&mut r, flag_each_exec("--cap-drop", &s.capabilities_drop));
    extend(&mut r, flag_each_exec("--cap-add", &s.capabilities_add));
    r
}

/// The resource part of a `run` command line.
fn resource_args_exec(l: &ResourceLimits) -> (r: Vec<String>)
    ensures
        texts(r@) == resource_args(*l),
{
    let mut r: Vec<String> = match l.memory_mb {
        Some(m) => {
            let mut t = decimal_text(m);
            append_str(&mut t, "m");
            two(owned("-m"), t)
        },
        None => {
            let e: Vec<String> = Vec::new();
            assert(texts(e@) =~= Seq::<Seq<char>>::empty());
            e
        },
    };
    match l.cpu_millicores {
        Some(c) => extend(&mut r, two(owned("--cpus"), millis_text_exec(c))),
        None => {
            let e: Vec<String> = Vec::new();
            assert(texts(e@) =~= Seq::<Seq<char>>::empty());
            extend(&mut r, e);
        },
    }
    r
}

/// The text of a restart policy.
fn restart_text_exec(p: RestartPolicy) -> (r: &'static str)
    ensures
        r@ == restart_text(p),
{
    match p {
        RestartPolicy::No => "no",
        RestartPolicy::Always => "always",
        RestartPolicy::OnFailure => "on-failure",
        RestartPolicy::UnlessStopped => "unless-stopped",
    }
}

/// The command line that creates and starts the container `name` from
/// `config`.
pub fn run_args(config: &DockerConfig, name: &str) -> (r: Vec<String>)
    ensures
        texts(r@) == run_args_of(*config, name@),
{
    let mut r: Vec<String> = Vec::new();
    r.push(owned("run"));
    r.push(owned("-d"));
    r.push(owned("--name"));
    r.push(owned(name));
    assert(texts(r@) =~= seq!["run"@, "-d"@, "--name"@, name@]);
    extend(&mut r, security_args_exec(&config.security_options));
    extend(&mut r, resource_args_exec(&config.resources));
    let pt = port_texts(&config.ports);
    extend(&mut r, flag_each_exec("-p", &pt));
    let vt = volume_texts(&config.volumes);
    extend(&mut r, flag_each_exec("-v", &vt));
    let et = env_texts(&config.environment);
    extend(&mut r, flag_each_exec("-e", &et));
    extend(&mut r, flag_opt_exec("-w", &config.working_directory));
    extend(&mut r, flag_opt_exec("-u", &config.user));
    extend(&mut r, flag_opt_exec("--network", &config.network));
    extend(&mut r, two(owned("--restart"), owned(restart_text_exec(config.restart_policy))));
    let mut image = config.image.clone();
    append_str(&mut image, ":");
    append_str(&mut image, config.tag.as_str());
    extend(&mut r, one(image));
    r
}

// ---------------------------------------------------------------------
// Names, commands and answers
// ---------------------------------------------------------------------

/// `c` is a lowercase hexadecimal digit.
pub open spec fn is_lower_hex(c: char) -> bool {
    ('0' <= c && c <= '9') || ('a' <= c && c <= 'f')
}

/// `uuid::Uuid::new_v4().to_string()`: a random version-4 identifier in its
/// hyphenated form, 36 characters of which the first eight are lowercase
/// hexadecimal digits. Which identifier comes is left open.
#[verifier::external_body]
pub(crate) fn new_uuid_text() -> (r: String)
    ensures
        r@.len() == 36,
        forall|i: int| 0 <= i < 8 ==> is_lower_hex(#[trigger] r@[i]),
{
    uuid::Uuid::new_v4().to_string()
}

/// The name given to a container that was configured without one, from the
/// text of a fresh identifier: `omni-` and its first eight characters.
pub open spec fn generated_name(uuid_text: Seq<char>) -> Seq<char> {
    "omni-"@ + uuid_text.take(8)
}

/// The configured name, or the one made from `uuid_text`.
pub fn name_or_generated(name: &Option<String>, uuid_text: &str) -> (r: String)
    requires
        uuid_text@.len() >= 8,
    ensures
        r@ == match name {
            Some(n) => n@,
            None => generated_name(uuid_text@),
        },
{
    match name {
        Some(n) => n.clone(),
        None => {
            let v = chars_of(uuid_text);
            let mut r = owned("omni-");
            let mut i: usize = 0;
            while i < 8
                invariant
                    i <= 8,
                    v@ == uuid_text@,
                    v@.len() >= 8,
                    r@ == "omni-"@ + v@.take(i as int),
                decreases 8 - i,
            {
                push_char(&mut r, v[i]);
                assert(v@.take(i + 1) =~= v@.take(i as int).push(v@[i as int]));
                i = i + 1;
            }
            r
        },
    }
}

/// The name of the container to create: the configured one, or `omni-`
/// followed by eight lowercase hexadecimal digits drawn at random.
pub fn container_name(config: &DockerConfig) -> (r: String)
    ensures
        config.name matches Some(n) ==> r@ == n@,
        config.name is None ==> exists|u: Seq<char>|
            #![trigger generated_name(u)]
            u.len() == 36 && (forall|i: int| 0 <= i < 8 ==> is_lower_hex(#[trigger] u[i]))
                && r@ == generated_name(u),
{
    match &config.name {
        Some(n) => n.clone(),
        None => {
            let u = new_uuid_text();
            let r = name_or_generated(&None, u.as_str());
            assert(r@ == generated_name(u@));
            r
        },
    }
}

/// What creating a container gave: the trimmed identifier that the runtime
/// printed, or its complaint.
pub open spec fn creation_outcome(success: bool, stdout: Seq<char>, stderr: Seq<char>) -> Result<Seq<char>, Seq<char>> {
    if success {
        Ok(trim(stdout))
    } else {
        Err("Container creation failed: "@ + stderr)
    }
}

/// What creating a container gave, from the runtime's exit status and output.
pub fn creation_result(success: bool, stdout: &str, stderr: &str) -> (r: Result<String, String>)
    ensures
        match r {
            Ok(id) => creation_outcome(success, stdout@, stderr@) == Ok::<Seq<char>, Seq<char>>(id@),
            Err(e) => creation_outcome(success, stdout@, stderr@) == Err::<Seq<char>, Seq<char>>(e@),
        },
{
    if success {
        let v = chars_of(stdout);
        let t = trimmed(&v);
        Ok(string_from_chars(&t))
    } else {
        Err(concat2("Container creation failed: ", stderr))
    }
}

/// The command line that runs `command` in a shell inside a container, as
/// `user` where one is given.
pub open spec fn exec_args_of(container_id: Seq<char>, command: Seq<char>, user: Option<Seq<char>>) -> Seq<Seq<char>> {
    seq!["exec"@] + (match user {
        Some(u) => seq!["-u"@, u],
        None => Seq::empty(),
    }) + seq![container_id, "sh"@, "-c"@, command]
}

/// The command line that runs `command` inside a container.
pub fn exec_args(container_id: &str, command: &str, user: Option<&str>) -> (r: Vec<String>)
    ensures
        texts(r@) == exec_args_of(
            container_id@,
            command@,
            match user { Some(u) => Some(u@), None => None },
        ),
{
    let mut r: Vec<String> = Vec::new();
    r.push(owned("exec"));
    match user {
        Some(u) => {
            r.push(owned("-u"));
            r.push(owned(u));
        },
        None => {},
    }
    r.push(owned(container_id));
    r.push(owned("sh"));
    r.push(owned("-c"));
    r.push(owned(command));
    assert(texts(r@) =~= exec_args_of(
        container_id@,
        command@,
        match user { Some(u) => Some(u@), None => None },
    ));
    r
}

/// The shell command that installs `package` with a package manager, for
/// the managers that containers offer.
pub open spec fn install_command_of(manager: Seq<char>, package: Seq<char>) -> Option<Seq<char>> {
    if manager == "apt"@ {
        Some("apt update && apt install -y "@ + package)
    } else if manager == "dnf"@ {
        Some("dnf install -y "@ + package)
    } else if manager == "pacman"@ {
        Some("pacman -S --noconfirm "@ + package)
    } else if manager == "zypper"@ {
        Some("zypper install -y "@ + package)
    } else if manager == "emerge"@ {
        Some("emerge "@ + package)
    } else if manager == "apk"@ {
        Some("apk add "@ + package)
    } else {
        None
    }
}

/// The shell command that installs `package` in a container with
/// `manager`, or the complaint that the manager is not supported.
pub fn install_command(manager: &str, package: &str) -> (r: Result<String, String>)
    ensures
        match r {
            Ok(c) => install_command_of(manager@, package@) == Some(c@),
            Err(e) => install_command_of(manager@, package@) is None
                && e@ == "Unsupported package manager: "@ + manager@,
        },
{
    if text_eq(manager, "apt") {
        Ok(concat2("apt update && apt install -y ", package))
    } else if text_eq(manager, "dnf") {
        Ok(concat2("dnf install -y ", package))
    } else if text_eq(manager, "pacman") {
        Ok(concat2("pacman -S --noconfirm ", package))
    } else if text_eq(manager, "zypper") {
        Ok(concat2("zypper install -y ", package))
    } else if text_eq(manager, "emerge") {
        Ok(concat2("emerge ", package))
    } else if text_eq(manager, "apk") {
        Ok(concat2("apk add ", package))
    } else {
        Err(concat2("Unsupported package manager: ", manager))
    }
}

/// The command line that removes a container, by force where asked.
pub fn remove_args(container_id: &str, force: bool) -> (r: Vec<String>)
    ensures
        texts(r@) == seq!["rm"@] + (if force { seq!["-f"@] } else { Seq::empty() }) + seq![container_id@],
{
    let mut r: Vec<String> = Vec::new();
    r.push(owned("rm"));
    if force {
        r.push(owned("-f"));
    }
    r.push(owned(container_id));
    assert(texts(r@) =~= seq!["rm"@] + (if force { seq!["-f"@] } else { Seq::empty() }) + seq![container_id@]);
    r
}

/// The command line that lists containers as JSON, stopped ones too where
/// `all` holds.
pub fn list_args(all: bool) -> (r: Vec<String>)
    ensures
        texts(r@) == seq!["ps"@, "--format"@, "json"@] + (if all { seq!["-a"@] } else { Seq::empty() }),
{
    let mut r: Vec<String> = Vec::new();
    r.push(owned("ps"));
    r.push(owned("--format"));
    r.push(owned("json"));
    if all {
        r.push(owned("-a"));
    }
    assert(texts(r@) =~= seq!["ps"@, "--format"@, "json"@] + (if all { seq!["-a"@] } else { Seq::empty() }));
    r
}

/// `image:tag`.
pub fn image_ref(image: &str, tag: &str) -> (r: String)
    ensures
        r@ == image@ + ":"@ + tag@,
{
    concat3(image, ":", tag)
}

/// The state of a container as the status column of a listing tells it.
pub open spec fn status_of_listing(status: Seq<char>) -> ContainerStatus {
    if has_sub(status, "Up"@) {
        ContainerStatus::Running
    } else if has_sub(status, "Exited"@) {
        ContainerStatus::Stopped
    } else {
        ContainerStatus::Created
    }
}

/// The state of a container from the status column of a listing.
pub fn listing_status(status: &str) -> (r: ContainerStatus)
    ensures
        r == status_of_listing(status@),
{
    if str_contains(status, "Up") {
        ContainerStatus::Running
    } else if str_contains(status, "Exited") {
        ContainerStatus::Stopped
    } else {
        ContainerStatus::Created
    }
}

/// The state of a container from the flags of an inspection; a flag that is
/// missing counts as unset.
pub open spec fn status_of_state(running: bool, paused: Option<bool>, restarting: Option<bool>, dead: Option<bool>) -> ContainerStatus {
    if running {
        ContainerStatus::Running
    } else if paused == Some(true) {
        ContainerStatus::Paused
    } else if restarting == Some(true) {
        ContainerStatus::Restarting
    } else if dead == Some(true) {
        ContainerStatus::Dead
    } else {
        ContainerStatus::Stopped
    }
}

/// The state of a container from the flags of an inspection.
pub fn state_status(running: bool, paused: Option<bool>, restarting: Option<bool>, dead: Option<bool>) -> (r: ContainerStatus)
    ensures
        r == status_of_state(running, paused, restarting, dead),
{
    if running {
        ContainerStatus::Running
    } else if paused == Some(true) {
        ContainerStatus::Paused
    } else if restarting == Some(true) {
        ContainerStatus::Restarting
    } else if dead == Some(true) {
        ContainerStatus::Dead
    } else {
        ContainerStatus::Stopped
    }
}

/// `s` without its leading slashes.
pub open spec fn strip_slashes(s: Seq<char>) -> Seq<char>
    decreases s.len(),
{
    if s.len() > 0 && s[0] == '/' {
        strip_slashes(s.drop_first())
    } else {
        s
    }
}

/// A container name as inspection reports it, without its leading slashes.
pub fn inspected_name(name: &str) -> (r: String)
    ensures
        r@ == strip_slashes(name@),
{
    let v = chars_of(name);
    let mut i: usize = 0;
    assert(v@.skip(0) =~= v@);
    while i < v.len() && v[i] == '/'
        invariant
            i <= v@.len(),
            strip_slashes(v@) == strip_slashes(v@.skip(i as int)),
        decreases v.len() - i,
    {
        assert(v@.skip(i + 1) =~= v@.skip(i as int).drop_first());
        i = i + 1;
    }
    let r = string_from_range(&v, i, v.len());
    assert(v@.skip(i as int) =~= v@.subrange(i as int, v@.len() as int));
    r
}

/// The client of a container runtime: `docker`, or `podman` in its place.
pub struct DockerClient {
    docker_command: String,
}

impl DockerClient {
    /// The command of the runtime.
    pub closed spec fn command(&self) -> Seq<char> {
        self.docker_command@
    }

    /// Picks the runtime: Docker where it is there, else Podman; with
    /// neither, the complaint that none is available.
    pub fn from_available(docker: bool, podman: bool) -> (r: Result<Self, String>)
        ensures
            match r {
                Ok(c) => c.command() == if docker { "docker"@ } else { "podman"@ },
                Err(e) => !docker && !podman && e@ == "Neither Docker nor Podman is available"@,
            },
            r is Ok <==> docker || podman,
    {
        if docker {
            Ok(DockerClient { docker_command: owned("docker") })
        } else if podman {
            Ok(DockerClient { docker_command: owned("podman") })
        } else {
            Err(owned("Neither Docker nor Podman is available"))
        }
    }

    /// The command of the runtime.
    pub fn runtime(&self) -> (r: &str)
        ensures
            r@ == self.command(),
    {
        self.docker_command.as_str()
    }
}

/// The base image for each package manager that containers offer.
pub open spec fn base_image_of(manager: Seq<char>) -> Option<Seq<char>> {
    if manager == "apt"@ {
        Some("ubuntu:22.04"@)
    } else if manager == "dnf"@ {
        Some("fedora:39"@)
    } else if manager == "pacman"@ {
        Some("archlinux:latest"@)
    } else if manager == "zypper"@ {
        Some("opensuse/leap:15.5"@)
    } else if manager == "emerge"@ {
        Some("gentoo/stage3"@)
    } else if manager == "apk"@ {
        Some("alpine:latest"@)
    } else {
        None
    }
}

/// An image reference split at its first colon into image and tag, the
/// tag being `latest` where there is no colon.
pub fn split_image(img: &str) -> (r: (String, String))
    ensures
        r.0@ == before_first(img@, ":"@),
        r.1@ == match second_piece(img@, ":"@) {
            Some(t) => t,
            None => "latest"@,
        },
{
    let iv = chars_of(img);
    let colon = chars_of(":");
    let head = before_first_exec(&iv, &colon);
    let tag = match second_piece_exec(&iv, &colon) {
        Some(t) => string_from_chars(&t),
        None => owned("latest"),
    };
    (string_from_chars(&head), tag)
}

/// Runs package managers in throwaway containers.
pub struct DockerPackageManager {
    pub client: DockerClient,
}

impl DockerPackageManager {
    /// A manager that drives `client`.
    pub fn new(client: DockerClient) -> (r: Self)
        ensures
            r.client == client,
    {
        DockerPackageManager { client }
    }

    /// The base image for `manager`.
    pub fn base_image(&self, manager: &str) -> (r: Option<&'static str>)
        ensures
            match r {
                Some(i) => base_image_of(manager@) == Some(i@),
                None => base_image_of(manager@) is None,
            },
    {
        if text_eq(manager, "apt") {
            Some("ubuntu:22.04")
        } else if text_eq(manager, "dnf") {
            Some("fedora:39")
        } else if text_eq(manager, "pacman") {
            Some("archlinux:latest")
        } else if text_eq(manager, "zypper") {
            Some("opensuse/leap:15.5")
        } else if text_eq(manager, "emerge") {
            Some("gentoo/stage3")
        } else if text_eq(manager, "apk") {
            Some("alpine:latest")
        } else {
            None
        }
    }

    /// The configuration of the throwaway container that installs
    /// `package` with `manager`: the manager's base image split at its first
    /// colon (tag `latest` where it has none), named
    /// `omni-<manager>-<package>`, otherwise the defaults.
    pub fn isolated_config(&self, manager: &str, package: &str) -> (r: Result<DockerConfig, String>)
        ensures
            match r {
                Ok(c) => {
                    &&& base_image_of(manager@) is Some
                    &&& c.image@ == before_first(base_image_of(manager@)->0, ":"@)
                    &&& c.tag@ == match second_piece(base_image_of(manager@)->0, ":"@) {
                        Some(t) => t,
                        None => "latest"@,
                    }
                    &&& c.name is Some
                    &&& c.name->0@ == "omni-"@ + manager@ + "-"@ + package@
                    &&& !c.security_options.read_only_root
                    &&& c.security_options.no_new_privileges
                    &&& c.working_directory is Some
                    &&& c.working_directory->0@ == "/workdir"@
                    &&& c.restart_policy == RestartPolicy::No
                    &&& c.ports@.len() == 0 && c.volumes@.len() == 0 && c.environment@.len() == 0
                    &&& c.user is None && c.network is None
                    &&& c.resources == ResourceLimits::default_value()
                    &&& texts(c.security_options.capabilities_drop@) == seq!["ALL"@]
                    &&& texts(c.security_options.capabilities_add@) == seq!["CHOWN"@, "SETUID"@, "SETGID"@]
                },
                Err(e) => base_image_of(manager@) is None
                    && e@ == "Unsupported package manager: "@ + manager@,
            },
    {
        match self.base_image(manager) {
            None => Err(concat2("Unsupported package manager: ", manager)),
            Some(img) => {
                let (head, tag) = split_image(img);
                let mut name = concat3("omni-", manager, "-");
                append_str(&mut name, package);
                let mut c = DockerConfig::default();
                c.image = head;
                c.tag = tag;
                c.name = Some(name);
                c.security_options.read_only_root = false;
                Ok(c)
            },
        }
    }

    /// The result recorded for a manager with which installing `package`
    /// could not even be tried: exit code 1 and the error as its output.
    pub fn failed_result(package: &str, error: &str) -> (r: DockerCommandResult)
        ensures
            r.container_id@ == "failed"@,
            r.command@ == "install "@ + package@,
            r.exit_code == 1,
            r.stdout@ == Seq::<char>::empty(),
            r.stderr@ == error@,
            r.duration == duration_from_secs(0),
            !r.success_spec(),
    {
        DockerCommandResult {
            container_id: owned("failed"),
            command: concat2("install ", package),
            exit_code: 1,
            stdout: String::new(),
            stderr: owned(error),
            duration: seconds(0),
        }
    }
}

impl DockerCommandResult {
    /// The command succeeded.
    pub open spec fn success_spec(&self) -> bool {
        self.exit_code == 0
    }
}

impl ResourceLimits {
    /// The default limits as a value.
    pub open spec fn default_value() -> Self {
        ResourceLimits { memory_mb: Some(512u64), cpu_millicores: Some(1000u64), disk_space_mb: None }
    }
}

} // verus!
