//! The snapshot record, assembled from what each lookup returned, with a
//! default in place of every lookup that came back empty.
use vstd::prelude::*;
use crate::bytes::{bytes_text, pretty_bytes};
use crate::number::{decimal, push_decimal};
use crate::text::{push_str, string_of};
use crate::uptime::{get_uptime, uptime_text};

verus! {

/// A snapshot of the user's host, every field filled.
pub struct UserData {
    /// The user's login name.
    pub username: String,
    pub hostname: String,
    /// CPU model, logical CPU count and frequency limit.
    pub cpu_info: String,
    /// The current working directory.
    pub cwd: String,
    /// The user's home directory.
    pub hmd: String,
    /// The user's login shell, without its directory.
    pub shell: String,
    pub desk_env: String,
    /// The distribution's pretty name and the machine's architecture.
    pub distro: String,
    /// Time elapsed since boot.
    pub uptime: String,
    /// The default editor, as `EDITOR` names it.
    pub editor: String,
    pub kernel_version: String,
    pub total_memory: String,
    pub used_memory: String,
    /// Resolution of the connected monitors.
    pub monitor_res: String,
}

/// What each lookup returned, before defaults are applied.
pub struct Probes {
    /// User name, home directory and shell name, if the account was found.
    pub account: Option<(String, String, String)>,
    pub cwd: String,
    pub hostname: Option<String>,
    pub distro: Option<String>,
    pub kernel_release: String,
    pub machine: String,
    pub cpu_model: Option<String>,
    pub logical_cpus: u64,
    pub cpu_max_freq: Option<String>,
    pub editor: Option<String>,
    pub desktop: String,
    pub uptime_centiseconds: usize,
    /// Total memory in bytes.
    pub total_ram: u64,
    /// Free memory in bytes.
    pub free_ram: u64,
    pub resolution: Option<String>,
}

/// The text of a lookup's result, or `default` when it came back empty.
pub open spec fn or_default(v: Option<String>, default: Seq<char>) -> Seq<char> {
    match v {
        Some(s) => s@,
        None => default,
    }
}

/// The CPU line: `<model> - <count>x <frequency>`.
pub open spec fn cpu_line(p: Probes) -> Seq<char> {
    or_default(p.cpu_model, "Unknown"@) + " - "@ + decimal(p.logical_cpus as nat) + "x "@ + or_default(
        p.cpu_max_freq,
        "Unknown Freq."@,
    )
}

/// The distribution line: `<name> (<architecture>)`.
pub open spec fn distro_line(p: Probes) -> Seq<char> {
    or_default(p.distro, "Linux"@) + " ("@ + p.machine@ + ")"@
}

fn text_or(v: Option<String>, default: &str) -> (r: String)
    ensures
        r@ == or_default(v, default@),
{
    match v {
        Some(s) => s,
        None => {
            let mut out: Vec<char> = Vec::new();
            push_str(&mut out, default);
            string_of(&out)
        },
    }
}

/// Builds the record from the lookups' results: an absent account gives
/// `Unknown` for user, home and shell; an absent host name, CPU model,
/// editor or resolution gives `Unknown`; an absent distribution `Linux`;
/// an absent frequency `Unknown Freq.`. Memory is shown as bytes, the used
/// part being total minus free.
pub fn assemble_user_data(probes: Probes) -> (r: UserData)
    ensures
        r.username@ == (match probes.account {
            Some(a) => a.0@,
            None => "Unknown"@,
        }),
        r.hmd@ == (match probes.account {
            Some(a) => a.1@,
            None => "Unknown"@,
        }),
        r.shell@ == (match probes.account {
            Some(a) => a.2@,
            None => "Unknown"@,
        }),
        r.hostname@ == or_default(probes.hostname, "Unknown"@),
        r.cpu_info@ == cpu_line(probes),
        r.cwd@ == probes.cwd@,
        r.desk_env@ == probes.desktop@,
        r.distro@ == distro_line(probes),
        r.uptime@ == uptime_text(probes.uptime_centiseconds as nat),
        r.editor@ == or_default(probes.editor, "Unknown"@),
        r.kernel_version@ == probes.kernel_release@,
        r.total_memory@ == bytes_text(probes.total_ram as int),
        r.used_memory@ == bytes_text(probes.total_ram - probes.free_ram),
        r.monitor_res@ == or_default(probes.resolution, "Unknown"@),
{
    let ghost p = probes;
    let Probes {
        account,
        cwd,
        hostname,
        distro,
        kernel_release,
        machine,
        cpu_model,
        logical_cpus,
        cpu_max_freq,
        editor,
        desktop,
        uptime_centiseconds,
        total_ram,
        free_ram,
        resolution,
    } = probes;
    let (username, hmd, shell) = match account {
        Some(a) => a,
        None => (text_or(None, "Unknown"), text_or(None, "Unknown"), text_or(None, "Unknown")),
    };
    let mut cpu: Vec<char> = Vec::new();
    let model = text_or(cpu_model, "Unknown");
    push_str(&mut cpu, model.as_str());
    push_str(&mut cpu, " - ");
    push_decimal(&mut cpu, logical_cpus as u128);
    push_str(&mut cpu, "x ");
    let freq = text_or(cpu_max_freq, "Unknown Freq.");
    push_str(&mut cpu, freq.as_str());
    assert(cpu@ =~= cpu_line(p));
    let mut dist: Vec<char> = Vec::new();
    let name = text_or(distro, "Linux");
    push_str(&mut dist, name.as_str());
    push_str(&mut dist, " (");
    push_str(&mut dist, machine.as_str());
    push_str(&mut dist, ")");
    assert(dist@ =~= distro_line(p));
    UserData {
        username,
        hostname: text_or(hostname, "Unknown"),
        cpu_info: string_of(&cpu),
        cwd,
        hmd,
        shell,
        desk_env: desktop,
        distro: string_of(&dist),
        uptime: get_uptime(uptime_centiseconds),
        editor: text_or(editor, "Unknown"),
        kernel_version: kernel_release,
        total_memory: pretty_bytes(total_ram as i128),
        used_memory: pretty_bytes(total_ram as i128 - free_ram as i128),
        monitor_res: text_or(resolution, "Unknown"),
    }
}

} // verus!
