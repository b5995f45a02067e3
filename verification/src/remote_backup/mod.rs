//! Remote backups: their providers, their metrics and how those read.

use crate::config::{BackupConfig, RemoteBackupProviderConfig};
use crate::duration::Duration;
use crate::text::{decimal, digit, digit_char, push_decimal};
use vstd::prelude::*;

pub mod kopia;
pub mod process;
pub mod restic;

use kopia::KopiaRemoteBackupProvider;
use restic::ResticRemoteBackupProvider;




verus! {

/// The newest snapshot of a server in the remote repository.
pub struct RemoteSnapshotSummary {
    pub short_id: Option<String>,
    pub time: Option<String>,
}

/// What a remote backup of one server needs.
pub struct RemoteBackupContext {
    pub server_id: String,
    pub server_name: String,
    pub server_dir: String,
}

/// What a remote restore of one server needs.
pub struct RemoteRestoreContext {
    pub server_id: String,
    pub snapshot: String,
    pub include_path: String,
    pub target: String,
}

/// Resources that one remote backup used.
pub struct RemoteBackupMetrics {
    pub duration: Duration,
    pub user_cpu: Option<Duration>,
    pub system_cpu: Option<Duration>,
    pub peak_memory_kib: Option<u64>,
    pub bytes_added: Option<u64>,
}

/// `1h 2m 3s`, `2m 3s`, `3s`, or `250ms` for spans under a second.
pub open spec fn metrics_duration_text(d: Duration) -> Seq<char> {
    let secs = d.secs as nat;
    let hours = secs / 3600;
    let minutes = (secs % 3600) / 60;
    let seconds = secs % 60;
    if hours > 0 {
        decimal(hours) + "h "@ + decimal(minutes) + "m "@ + decimal(seconds) + "s"@
    } else if minutes > 0 {
        decimal(minutes) + "m "@ + decimal(seconds) + "s"@
    } else if d.millis() < 1000 {
        decimal(d.millis()) + "ms"@
    } else {
        decimal(seconds) + "s"@
    }
}

pub fn format_duration(duration: Duration) -> (s: String)
    requires
        duration.wf(),
    ensures
        s@ == metrics_duration_text(duration),
{
    let secs = duration.as_secs();
    let hours = secs / 3600;
    let minutes = (secs % 3600) / 60;
    let seconds = secs % 60;
    let millis = duration.as_millis();
    let mut s = String::new();
    if hours > 0 {
        push_decimal(&mut s, hours);
        s.append("h ");
        push_decimal(&mut s, minutes);
        s.append("m ");
        push_decimal(&mut s, seconds);
        s.append("s");
    } else if minutes > 0 {
        push_decimal(&mut s, minutes);
        s.append("m ");
        push_decimal(&mut s, seconds);
        s.append("s");
    } else if millis < 1000 {
        push_decimal(&mut s, millis as u64);
        s.append("ms");
    } else {
        push_decimal(&mut s, seconds);
        s.append("s");
    }
    assert(s@ =~= metrics_duration_text(duration));
    s
}

/// `2^e`.
pub open spec fn pow2(e: nat) -> nat
    decreases e,
{
    if e == 0 {
        1
    } else {
        2 * pow2((e - 1) as nat)
    }
}

/// The shift that brings `n` below `2^53`, counted from `e`.
pub open spec fn shift_below_2_53(n: nat, e: nat) -> nat
    decreases 64 - e,
{
    if e >= 64 || n < 0x20_0000_0000_0000 * pow2(e) {
        e
    } else {
        shift_below_2_53(n, e + 1)
    }
}

/// `n` rounded to the nearest number with 53 significant bits, ties to even:
/// the value that `n as f64` holds.
pub open spec fn f64_value(n: nat) -> nat {
    let e = shift_below_2_53(n, 0);
    let d = pow2(e);
    let m = n / d;
    let r = n % d;
    if e == 0 {
        n
    } else if r > d / 2 || (r == d / 2 && m % 2 == 1) {
        (m + 1) * d
    } else {
        m * d
    }
}

/// The unit `format_bytes` picks: how many times the value divides by 1024.
pub open spec fn byte_unit(bytes: nat) -> nat {
    if bytes < 0x400 {
        0
    } else if bytes < 0x10_0000 {
        1
    } else if bytes < 0x4000_0000 {
        2
    } else if bytes < 0x100_0000_0000 {
        3
    } else {
        4
    }
}

pub open spec fn unit_text(k: nat) -> Seq<char> {
    if k == 0 {
        "B"@
    } else if k == 1 {
        "KiB"@
    } else if k == 2 {
        "MiB"@
    } else if k == 3 {
        "GiB"@
    } else {
        "TiB"@
    }
}

pub open spec fn unit_size(k: nat) -> nat {
    if k == 0 {
        1
    } else if k == 1 {
        0x400
    } else if k == 2 {
        0x10_0000
    } else if k == 3 {
        0x4000_0000
    } else {
        0x100_0000_0000
    }
}

/// `x / d` in tenths, rounded to the nearest tenth, ties to even.
pub open spec fn tenths(x: nat, d: nat) -> nat {
    let q = x * 10 / d;
    let r = x * 10 % d;
    if 2 * r > d || (2 * r == d && q % 2 == 1) {
        q + 1
    } else {
        q
    }
}

/// A byte count in the largest binary unit that keeps it at or above one,
/// with one decimal: what `format!("{:.1} {unit}")` writes for the `f64` value.
pub open spec fn bytes_text(bytes: nat) -> Seq<char> {
    let k = byte_unit(bytes);
    if k == 0 {
        decimal(bytes) + " B"@
    } else {
        let t = tenths(f64_value(bytes), unit_size(k));
        decimal(t / 10) + seq!['.', digit_char((t % 10) as int), ' '] + unit_text(k)
    }
}

proof fn lemma_pow2_values()
    ensures
        pow2(0) == 1,
        pow2(1) == 2,
        pow2(2) == 4,
        pow2(3) == 8,
        pow2(4) == 16,
        pow2(5) == 32,
        pow2(6) == 64,
        pow2(7) == 128,
        pow2(8) == 256,
        pow2(9) == 512,
        pow2(10) == 1024,
        pow2(11) == 2048,
{
    reveal_with_fuel(pow2, 12);
}

/// The value of `n as f64`, exactly, for a `u64` `n`.
fn f64_value_of(n: u64) -> (v: u128)
    ensures
        v == f64_value(n as nat),
        v <= 0x1_0000_0000_0000_0000,
{
    proof {
        lemma_pow2_values();
    }
    let mut e: u64 = 0;
    let mut d: u128 = 1;
    while e < 64 && n as u128 >= 0x20_0000_0000_0000 * d
        invariant
            e <= 11,
            d == pow2(e as nat),
            d <= 2048,
            forall|k: nat| k < e ==> n >= 0x20_0000_0000_0000 * #[trigger] pow2(k),
            shift_below_2_53(n as nat, 0) == shift_below_2_53(n as nat, e as nat),
            pow2(0) == 1,
            pow2(1) == 2,
            pow2(2) == 4,
            pow2(3) == 8,
            pow2(4) == 16,
            pow2(5) == 32,
            pow2(6) == 64,
            pow2(7) == 128,
            pow2(8) == 256,
            pow2(9) == 512,
            pow2(10) == 1024,
            pow2(11) == 2048,
        decreases 64 - e,
    {
        assert(e < 11) by {
            if e >= 11 {
                assert(d == 2048);
                assert(n < 0x10000_0000_0000_0000);
            }
        }
        e = e + 1;
        d = d * 2;
    }
    assert(shift_below_2_53(n as nat, e as nat) == e);
    let m = n as u128 / d;
    let r = n as u128 % d;
    if e == 0 {
        n as u128
    } else if r > d / 2 || (r == d / 2 && m % 2 == 1) {
        assert(m < 0x20_0000_0000_0000) by (nonlinear_arith)
            requires
                m == n as int / d as int,
                (n as int) < 0x20_0000_0000_0000 * d,
                d > 0,
        ;
        assert((m + 1) * d <= 0x1_0000_0000_0000_0000) by (nonlinear_arith)
            requires
                m + 1 <= 0x20_0000_0000_0000,
                d <= 2048,
        ;
        (m + 1) * d
    } else {
        assert(m * d <= n) by (nonlinear_arith)
            requires
                m == n as int / d as int,
                d > 0,
        ;
        m * d
    }
}

/// A byte count in a human-readable binary unit.
pub fn format_bytes(bytes: u64) -> (s: String)
    ensures
        s@ == bytes_text(bytes as nat),
{
    let mut s = String::new();
    if bytes < 0x400 {
        push_decimal(&mut s, bytes);
        s.append(" B");
        assert(s@ =~= bytes_text(bytes as nat));
        return s;
    }
    let (size, unit): (u128, &str) = if bytes < 0x10_0000 {
        (0x400, "KiB")
    } else if bytes < 0x4000_0000 {
        (0x10_0000, "MiB")
    } else if bytes < 0x100_0000_0000 {
        (0x4000_0000, "GiB")
    } else {
        (0x100_0000_0000, "TiB")
    };
    let x = f64_value_of(bytes);
    let q = x * 10 / size;
    let r = x * 10 % size;
    let t = if 2 * r > size || (2 * r == size && q % 2 == 1) {
        q + 1
    } else {
        q
    };
    assert(q <= 0x10_0000_0000_0000_0000) by (nonlinear_arith)
        requires
            q == (x * 10) as int / size as int,
            x <= 0x1_0000_0000_0000_0000,
            size >= 0x400,
    ;
    push_decimal(&mut s, (t / 10) as u64);
    s.push('.');
    s.push(digit((t % 10) as u64));
    s.push(' ');
    s.append(unit);
    assert(s@ =~= bytes_text(bytes as nat));
    s
}

/// A memory size given in KiB, in a human-readable binary unit.
pub fn format_memory_kib(kib: u64) -> (s: String)
    ensures
        s@ == bytes_text(if kib * 1024 <= u64::MAX { (kib * 1024) as nat } else { u64::MAX as nat }),
{
    let bytes = if kib <= u64::MAX / 1024 {
        kib * 1024
    } else {
        u64::MAX
    };
    format_bytes(bytes)
}


/// A measured value, or `unknown`.
pub open spec fn or_unknown(t: Option<Seq<char>>) -> Seq<char> {
    match t {
        Some(t) => t,
        None => "unknown"@,
    }
}

pub open spec fn opt_duration_text(d: Option<Duration>) -> Option<Seq<char>> {
    match d {
        Some(d) => Some(metrics_duration_text(d)),
        None => None,
    }
}

pub open spec fn opt_bytes_text(b: Option<u64>) -> Option<Seq<char>> {
    match b {
        Some(b) => Some(bytes_text(b as nat)),
        None => None,
    }
}

pub open spec fn opt_kib_text(k: Option<u64>) -> Option<Seq<char>> {
    match k {
        Some(k) => Some(
            bytes_text(
                if k * 1024 <= u64::MAX {
                    (k * 1024) as nat
                } else {
                    u64::MAX as nat
                },
            ),
        ),
        None => None,
    }
}

/// The one-line report of a remote backup; `cpu_percent` is the CPU
/// utilization already written with one decimal, when it is known.
pub open spec fn metrics_text(m: RemoteBackupMetrics, cpu_percent: Option<Seq<char>>) -> Seq<char> {
    let cpu = match cpu_percent {
        Some(p) => p + "%"@,
        None => "unknown"@,
    };
    "duration: "@ + metrics_duration_text(m.duration) + "; CPU: "@ + cpu + " (user "@ + or_unknown(
        opt_duration_text(m.user_cpu),
    ) + ", system "@ + or_unknown(opt_duration_text(m.system_cpu)) + "); peak memory: "@
        + or_unknown(opt_kib_text(m.peak_memory_kib)) + "; added to repository: "@ + or_unknown(
        opt_bytes_text(m.bytes_added),
    )
}

fn push_opt_duration(s: &mut String, d: Option<Duration>)
    requires
        d matches Some(d) ==> d.wf(),
    ensures
        final(s)@ == old(s)@ + or_unknown(opt_duration_text(d)),
{
    match d {
        Some(d) => {
            let t = format_duration(d);
            s.append(t.as_str());
        },
        None => s.append("unknown"),
    }
}

/// The one-line report of a remote backup.
pub fn format_remote_backup_metrics(metrics: &RemoteBackupMetrics, cpu_percent: Option<&str>) -> (s: String)
    requires
        metrics.duration.wf(),
        metrics.user_cpu matches Some(d) ==> d.wf(),
        metrics.system_cpu matches Some(d) ==> d.wf(),
    ensures
        s@ == metrics_text(*metrics, match cpu_percent { Some(p) => Some(p@), None => None }),
{
    let mut s = String::from_str("duration: ");
    let d = format_duration(metrics.duration);
    s.append(d.as_str());
    s.append("; CPU: ");
    match cpu_percent {
        Some(p) => {
            s.append(p);
            s.append("%");
        },
        None => s.append("unknown"),
    }
    s.append(" (user ");
    push_opt_duration(&mut s, metrics.user_cpu);
    s.append(", system ");
    push_opt_duration(&mut s, metrics.system_cpu);
    s.append("); peak memory: ");
    match metrics.peak_memory_kib {
        Some(k) => {
            let t = format_memory_kib(k);
            s.append(t.as_str());
        },
        None => s.append("unknown"),
    }
    s.append("; added to repository: ");
    match metrics.bytes_added {
        Some(b) => {
            let t = format_bytes(b);
            s.append(t.as_str());
        },
        None => s.append("unknown"),
    }
    assert(s@ =~= metrics_text(*metrics, match cpu_percent { Some(p) => Some(p@), None => None }));
    s
}

/// The configured remote backup tool, with its env file.
pub enum RemoteProvider {
    Restic(ResticRemoteBackupProvider),
    Kopia(KopiaRemoteBackupProvider),
}

/// The remote backup tool of a configuration: restic unless kopia is chosen.
pub fn remote_backup_provider(backup: &BackupConfig) -> (r: RemoteProvider)
    ensures
        backup.provider == Some(RemoteBackupProviderConfig::Kopia) ==> (r matches RemoteProvider::Kopia(k)
            && k.env_file == backup.kopia_env_file),
        backup.provider != Some(RemoteBackupProviderConfig::Kopia) ==> (r matches RemoteProvider::Restic(p)
            && p.env_file == backup.restic_env_file),
{
    match backup.provider {
        Some(RemoteBackupProviderConfig::Kopia) => RemoteProvider::Kopia(
            KopiaRemoteBackupProvider::new(crate::config::clone_opt_string(&backup.kopia_env_file)),
        ),
        _ => RemoteProvider::Restic(
            ResticRemoteBackupProvider::new(crate::config::clone_opt_string(&backup.restic_env_file)),
        ),
    }
}


/// A remote backup tool: its name and the arguments of its commands.
pub trait RemoteBackupProvider {
    spec fn tool_name(&self) -> Seq<char>;

    /// The arguments that back up the server of `context`, tagged with its ID and name.
    spec fn backup_command(&self, context: RemoteBackupContext) -> Seq<Seq<char>>;

    /// The arguments that list the snapshots of a server, the newest `latest`
    /// of them when `latest` is not zero.
    spec fn snapshots_command(&self, server_id: Seq<char>, latest: u64) -> Seq<Seq<char>>;

    /// The arguments of the retention cleanup.
    spec fn cleanup_command(&self, dry_run: bool) -> Seq<Seq<char>>;

    fn name(&self) -> (n: &'static str)
        ensures
            n@ == self.tool_name(),
    ;

    fn backup_args(&self, context: &RemoteBackupContext) -> (r: Vec<String>)
        ensures
            crate::text::views(r@) == self.backup_command(*context),
    ;

    fn snapshots_args(&self, server_id: &str, latest: u64) -> (r: Vec<String>)
        ensures
            crate::text::views(r@) == self.snapshots_command(server_id@, latest),
    ;

    fn cleanup_args(&self, dry_run: bool) -> (r: Vec<String>)
        ensures
            crate::text::views(r@) == self.cleanup_command(dry_run),
    ;
}

impl RemoteBackupProvider for ResticRemoteBackupProvider {
    open spec fn tool_name(&self) -> Seq<char> {
        "restic"@
    }

    open spec fn backup_command(&self, context: RemoteBackupContext) -> Seq<Seq<char>> {
        seq![
            "backup"@,
            context.server_dir@,
            "--tag"@,
            "clserver"@,
            "--tag"@,
            "server-id:"@ + context.server_id@,
            "--tag"@,
            "server-name:"@ + context.server_name@,
        ]
    }

    open spec fn snapshots_command(&self, server_id: Seq<char>, latest: u64) -> Seq<Seq<char>> {
        seq!["snapshots"@, "--tag"@, "clserver"@, "--tag"@, "server-id:"@ + server_id] + if latest > 0 {
            seq!["--latest"@, decimal(latest as nat)]
        } else {
            seq![]
        }
    }

    open spec fn cleanup_command(&self, dry_run: bool) -> Seq<Seq<char>> {
        seq![
            "forget"@,
            "--keep-daily"@,
            "56"@,
            if dry_run {
                "--dry-run"@
            } else {
                "--prune"@
            },
        ]
    }

    fn name(&self) -> (n: &'static str) {
        "restic"
    }

    fn backup_args(&self, context: &RemoteBackupContext) -> (r: Vec<String>) {
        restic::backup_args(
            context.server_dir.as_str(),
            context.server_id.as_str(),
            context.server_name.as_str(),
        )
    }

    fn snapshots_args(&self, server_id: &str, latest: u64) -> (r: Vec<String>) {
        restic::print_snapshots_args(server_id, latest)
    }

    fn cleanup_args(&self, dry_run: bool) -> (r: Vec<String>) {
        restic::cleanup_args(dry_run)
    }
}

impl RemoteBackupProvider for KopiaRemoteBackupProvider {
    open spec fn tool_name(&self) -> Seq<char> {
        "kopia"@
    }

    open spec fn backup_command(&self, context: RemoteBackupContext) -> Seq<Seq<char>> {
        seq![
            "snapshot"@,
            "create"@,
            context.server_dir@,
            "--tags"@,
            "clserver:true"@,
            "--tags"@,
            "server-id:"@ + context.server_id@,
            "--tags"@,
            "server-name:"@ + context.server_name@,
        ]
    }

    open spec fn snapshots_command(&self, server_id: Seq<char>, latest: u64) -> Seq<Seq<char>> {
        seq!["snapshot"@, "list"@, "--tags"@, "server-id:"@ + server_id] + if latest > 0 {
            seq!["--max-results"@, decimal(latest as nat)]
        } else {
            seq![]
        }
    }

    open spec fn cleanup_command(&self, dry_run: bool) -> Seq<Seq<char>> {
        seq!["maintenance"@, "run"@] + if dry_run {
            seq!["--full"@, "--dry-run"@]
        } else {
            seq![]
        }
    }

    fn name(&self) -> (n: &'static str) {
        "kopia"
    }

    fn backup_args(&self, context: &RemoteBackupContext) -> (r: Vec<String>) {
        kopia::backup_args(
            context.server_dir.as_str(),
            context.server_id.as_str(),
            context.server_name.as_str(),
        )
    }

    fn snapshots_args(&self, server_id: &str, latest: u64) -> (r: Vec<String>) {
        kopia::list_snapshots_args(server_id, latest)
    }

    fn cleanup_args(&self, dry_run: bool) -> (r: Vec<String>) {
        kopia::cleanup_args(dry_run)
    }
}

impl RemoteBackupProvider for RemoteProvider {
    open spec fn tool_name(&self) -> Seq<char> {
        match self {
            RemoteProvider::Restic(p) => p.tool_name(),
            RemoteProvider::Kopia(p) => p.tool_name(),
        }
    }

    open spec fn backup_command(&self, context: RemoteBackupContext) -> Seq<Seq<char>> {
        match self {
            RemoteProvider::Restic(p) => p.backup_command(context),
            RemoteProvider::Kopia(p) => p.backup_command(context),
        }
    }

    open spec fn snapshots_command(&self, server_id: Seq<char>, latest: u64) -> Seq<Seq<char>> {
        match self {
            RemoteProvider::Restic(p) => p.snapshots_command(server_id, latest),
            RemoteProvider::Kopia(p) => p.snapshots_command(server_id, latest),
        }
    }

    open spec fn cleanup_command(&self, dry_run: bool) -> Seq<Seq<char>> {
        match self {
            RemoteProvider::Restic(p) => p.cleanup_command(dry_run),
            RemoteProvider::Kopia(p) => p.cleanup_command(dry_run),
        }
    }

    fn name(&self) -> (n: &'static str) {
        match self {
            RemoteProvider::Restic(p) => p.name(),
            RemoteProvider::Kopia(p) => p.name(),
        }
    }

    fn backup_args(&self, context: &RemoteBackupContext) -> (r: Vec<String>) {
        match self {
            RemoteProvider::Restic(p) => p.backup_args(context),
            RemoteProvider::Kopia(p) => p.backup_args(context),
        }
    }

    fn snapshots_args(&self, server_id: &str, latest: u64) -> (r: Vec<String>) {
        match self {
            RemoteProvider::Restic(p) => p.snapshots_args(server_id, latest),
            RemoteProvider::Kopia(p) => p.snapshots_args(server_id, latest),
        }
    }

    fn cleanup_args(&self, dry_run: bool) -> (r: Vec<String>) {
        match self {
            RemoteProvider::Restic(p) => p.cleanup_args(dry_run),
            RemoteProvider::Kopia(p) => p.cleanup_args(dry_run),
        }
    }
}

} // verus!
