use pulga::cpus::logical_cpus_from;
use pulga::desktop::{classify_desktop, default_editor, desktop_from_session};
use pulga::procfs::{cpu_max_freq_from_text, cpu_model_from_cpuinfo, distro_from_os_release, hostname_from_buffer};
use pulga::text::base_name_of;
use pulga::user_data::{assemble_user_data, Probes, UserData};

#[test]
fn distro_pretty_name_quotes_stripped() {
    let text = "NAME=\"Test\"\nPRETTY_NAME=\"Test Linux\"\nID=test\n";
    assert_eq!(distro_from_os_release(text), "Test Linux");
}

#[test]
fn distro_without_key_is_linux() {
    assert_eq!(distro_from_os_release("NAME=Foo\nID=foo\n"), "Linux");
    assert_eq!(distro_from_os_release(""), "Linux");
}

#[test]
fn distro_short_and_crlf_lines() {
    let text = "A=1\r\nPRETTY_NAME=\"Crlf OS 2\"\r\n";
    assert_eq!(distro_from_os_release(text), "Crlf OS 2");
    assert_eq!(distro_from_os_release("PRETTY_NAME"), "");
    assert_eq!(distro_from_os_release("PRETTY_NAME=Plain"), "lain");
}

#[test]
fn distro_first_match_wins() {
    let text = "PRETTY_NAME=\"One\"\nPRETTY_NAME=\"Two\"";
    assert_eq!(distro_from_os_release(text), "One");
}

#[test]
fn cpu_model_cut_at_frequency() {
    let text = "processor\t: 0\nvendor_id\t: GenuineIntel\nmodel name\t: Intel(R) Core(TM) i5-4570 CPU @3.20GHz\nflags\t: fpu\n";
    assert_eq!(cpu_model_from_cpuinfo(text), Some("Intel(R) Core(TM) i5-4570 CPU".to_string()));
}

#[test]
fn cpu_model_without_frequency() {
    let text = "model name\t: AMD Ryzen 7 3700X 8-Core Processor\n";
    assert_eq!(cpu_model_from_cpuinfo(text), Some("AMD Ryzen 7 3700X 8-Core Processor".to_string()));
}

#[test]
fn cpu_model_absent() {
    assert_eq!(cpu_model_from_cpuinfo("processor\t: 0\nHardware\t: BCM2835\n"), None);
    assert_eq!(cpu_model_from_cpuinfo("model name"), None);
    assert_eq!(cpu_model_from_cpuinfo(""), None);
}

#[test]
fn cpu_freq_in_ghz() {
    assert_eq!(cpu_max_freq_from_text("3200000\n"), Some("3.20 GHz".to_string()));
    assert_eq!(cpu_max_freq_from_text(" +1000000 "), Some("1.00 GHz".to_string()));
    assert_eq!(cpu_max_freq_from_text("4785000"), Some("4.78 GHz".to_string()));
    assert_eq!(cpu_max_freq_from_text("4786000"), Some("4.79 GHz".to_string()));
    assert_eq!(cpu_max_freq_from_text("0"), Some("0.00 GHz".to_string()));
    assert_eq!(cpu_max_freq_from_text("\u{3000}2600000\u{a0}\r\n"), Some("2.60 GHz".to_string()));
}

#[test]
fn cpu_freq_unparsable() {
    assert_eq!(cpu_max_freq_from_text("fast"), None);
    assert_eq!(cpu_max_freq_from_text(""), None);
    assert_eq!(cpu_max_freq_from_text("+"), None);
    assert_eq!(cpu_max_freq_from_text("-5"), None);
    assert_eq!(cpu_max_freq_from_text("18446744073709551616"), None);
}

#[test]
fn hostname_cut_at_nul() {
    assert_eq!(hostname_from_buffer(b"myhost\0\0\0".to_vec()), Some("myhost".to_string()));
    assert_eq!(hostname_from_buffer(b"whole".to_vec()), Some("whole".to_string()));
    assert_eq!(hostname_from_buffer(vec![0, 65]), Some(String::new()));
}

#[test]
fn hostname_invalid_utf8() {
    assert_eq!(hostname_from_buffer(vec![0xff, 0xfe, 0]), None);
    assert_eq!(hostname_from_buffer("h\u{e9}te\0".as_bytes().to_vec()), Some("h\u{e9}te".to_string()));
}

#[test]
fn desktop_examples() {
    assert_eq!(desktop_from_session(Some("/usr/share/xsessions/i3")), "i3");
    assert_eq!(desktop_from_session(None), "Unknown");
    assert_eq!(desktop_from_session(Some("foobar")), "foobar");
}

#[test]
fn desktop_lowercases_before_matching() {
    assert_eq!(desktop_from_session(Some("FOOBAR")), "foobar");
    assert_eq!(desktop_from_session(Some("/x/Plasmawayland")), "KDE");
    assert_eq!(desktop_from_session(Some("GNOME-Classic")), "Gnome");
}

#[test]
fn desktop_table_order() {
    assert_eq!(classify_desktop("ubuntu-gnome"), "Gnome");
    assert_eq!(classify_desktop("lxde"), "LXDE");
    assert_eq!(classify_desktop("openbox"), "OpenBox");
    assert_eq!(classify_desktop("ubuntu"), "Ubuntu");
    assert_eq!(classify_desktop("mate"), "MATE");
    assert_eq!(classify_desktop(""), "");
}

#[test]
fn editor_base_name() {
    assert_eq!(default_editor(Some("/usr/bin/vim")), Some("vim".to_string()));
    assert_eq!(default_editor(Some("nano")), Some("nano".to_string()));
    assert_eq!(default_editor(None), None);
}

#[test]
fn base_name_segments() {
    assert_eq!(base_name_of("/usr/bin/zsh"), "zsh");
    assert_eq!(base_name_of("zsh"), "zsh");
    assert_eq!(base_name_of("/usr/bin/"), "");
    assert_eq!(base_name_of(""), "");
}

#[test]
fn logical_cpus_from_mask_or_fallback() {
    assert_eq!(logical_cpus_from(Some(&vec![true, false, true, true]), 16), 3);
    assert_eq!(logical_cpus_from(Some(&vec![]), 16), 0);
    assert_eq!(logical_cpus_from(None, 8), 8);
    assert_eq!(logical_cpus_from(None, -1), 1);
    assert_eq!(logical_cpus_from(None, 0), 1);
}

fn empty_probes() -> Probes {
    Probes {
        account: None,
        cwd: "/tmp".to_string(),
        hostname: None,
        distro: None,
        kernel_release: "6.1.0".to_string(),
        machine: "x86_64".to_string(),
        cpu_model: None,
        logical_cpus: 4,
        cpu_max_freq: None,
        editor: None,
        desktop: "Unknown".to_string(),
        uptime_centiseconds: 0,
        total_ram: 0,
        free_ram: 0,
        resolution: None,
    }
}

#[test]
fn assemble_with_defaults() {
    let d: UserData = assemble_user_data(empty_probes());
    assert_eq!(d.username, "Unknown");
    assert_eq!(d.hmd, "Unknown");
    assert_eq!(d.shell, "Unknown");
    assert_eq!(d.hostname, "Unknown");
    assert_eq!(d.cpu_info, "Unknown - 4x Unknown Freq.");
    assert_eq!(d.distro, "Linux (x86_64)");
    assert_eq!(d.editor, "Unknown");
    assert_eq!(d.monitor_res, "Unknown");
    assert_eq!(d.uptime, "");
    assert_eq!(d.total_memory, "0 B");
    assert_eq!(d.used_memory, "0 B");
    assert_eq!(d.kernel_version, "6.1.0");
    assert_eq!(d.cwd, "/tmp");
    assert_eq!(d.desk_env, "Unknown");
}

#[test]
fn assemble_with_values() {
    let mut p = empty_probes();
    p.account = Some(("ana".to_string(), "/home/ana".to_string(), "zsh".to_string()));
    p.hostname = Some("box".to_string());
    p.distro = Some("Arch Linux".to_string());
    p.cpu_model = Some("Intel(R) Core(TM) i5-4570 CPU".to_string());
    p.cpu_max_freq = Some("3.60 GHz".to_string());
    p.editor = Some("vim".to_string());
    p.desktop = "i3".to_string();
    p.uptime_centiseconds = 366000;
    p.total_ram = 8 * 1073741824;
    p.free_ram = 2 * 1073741824;
    p.resolution = Some("1920x1080".to_string());
    let d = assemble_user_data(p);
    assert_eq!(d.username, "ana");
    assert_eq!(d.hmd, "/home/ana");
    assert_eq!(d.shell, "zsh");
    assert_eq!(d.hostname, "box");
    assert_eq!(d.cpu_info, "Intel(R) Core(TM) i5-4570 CPU - 4x 3.60 GHz");
    assert_eq!(d.distro, "Arch Linux (x86_64)");
    assert_eq!(d.editor, "vim");
    assert_eq!(d.desk_env, "i3");
    assert_eq!(d.uptime, "1 hour 1 minute");
    assert_eq!(d.total_memory, "8.00 GB");
    assert_eq!(d.used_memory, "6.00 GB");
    assert_eq!(d.monitor_res, "1920x1080");
}

#[test]
fn assemble_used_memory_may_be_negative() {
    let mut p = empty_probes();
    p.total_ram = 1024;
    p.free_ram = 3072;
    let d = assemble_user_data(p);
    assert_eq!(d.used_memory, "-2.00 kB");
}
