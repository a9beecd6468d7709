use hyperv_provisioner::system::{
    check_hyper_v, get_gpu_list, get_os_info, is_admin_sync, is_true_text, probe_reports_true,
    test_gpu_partitioning_sync, validate_system, GpuInfo,
};
use hyperv_provisioner::text::parse_unsigned;
use hyperv_provisioner::vm::{
    parse_vm_list,
    check_config_resources, check_vm_resources, get_default_vhd_path, get_host_drives,
    get_network_switches, validate_vm_config, VMConfig,
};

fn ok(s: &str) -> Result<String, String> {
    Ok(s.to_string())
}

fn err(s: &str) -> Result<String, String> {
    Err(s.to_string())
}

fn gpu(name: &str, supports: bool) -> GpuInfo {
    GpuInfo { name: name.to_string(), driver_version: "1".to_string(), supports_partitioning: supports }
}

#[test]
fn admin_answer_is_read_case_insensitively() {
    assert!(is_admin_sync(&ok(" True \r\n")));
    assert!(!is_admin_sync(&ok("False")));
    assert!(!is_admin_sync(&err("denied")));
    assert!(is_true_text(&"true".to_string()));
    assert!(!is_true_text(&"TRUE".to_string()));
    assert!(probe_reports_true(&ok("TRUE")));
}

#[test]
fn hyper_v_is_enabled_when_any_probe_says_so() {
    assert!(check_hyper_v(&vec![ok("false"), ok("True"), err("x")]));
    assert!(!check_hyper_v(&vec![ok("false"), err("x"), ok("no")]));
    assert!(!check_hyper_v(&vec![]));
}

#[test]
fn os_info_falls_back_to_unknown() {
    let (v, e) = get_os_info(&ok("10.0.22631"), &err("x"));
    assert_eq!(v, "10.0.22631");
    assert_eq!(e, "Unknown");
}

#[test]
fn gpu_lines_are_parsed() {
    let g = get_gpu_list(&ok("NVIDIA RTX 4070|31.0.15|True\r\nbroken line\nMicrosoft Basic|10.0|False\n"));
    assert_eq!(g.len(), 2);
    assert_eq!(g[0].name, "NVIDIA RTX 4070");
    assert_eq!(g[0].driver_version, "31.0.15");
    assert!(g[0].supports_partitioning);
    assert_eq!(g[1].name, "Microsoft Basic");
    assert!(!g[1].supports_partitioning);
    assert!(get_gpu_list(&err("x")).is_empty());
}

#[test]
fn system_issues_in_order() {
    let issues = validate_system("Windows 11 Home", false, &vec![]);
    assert_eq!(
        issues,
        vec![
            "Windows edition must be Pro, Enterprise, or Education".to_string(),
            "Hyper-V is not enabled. Please enable it in Windows Features.".to_string(),
            "No GPU detected".to_string(),
        ]
    );
    let issues = validate_system("Windows 11 Pro", true, &vec![gpu("Basic", false)]);
    assert_eq!(
        issues,
        vec!["No GPU with partitioning support detected (NVIDIA/AMD/Intel required)".to_string()]
    );
    assert!(validate_system("Windows 11 Education", true, &vec![gpu("a", false), gpu("b", true)]).is_empty());
}

#[test]
fn partitioning_report_is_assembled() {
    let r = test_gpu_partitioning_sync(&ok("GPU: A\n  - X: 1"), &err("boom"), &ok("VM 'a'\n   \n  - State: Running"));
    assert_eq!(
        r,
        "=== Kiểm tra GPU Partitioning ===\nGPU: A\n  - X: 1\n\n=== Kiểm tra Hyper-V GPU ===\nERROR: boom\n\n=== Kiểm tra VMs với GPU ===\nVM 'a'\n  - State: Running"
    );
    let r = test_gpu_partitioning_sync(&err("e"), &ok(""), &ok(""));
    assert_eq!(
        r,
        "=== Kiểm tra GPU Partitioning ===\nERROR: Không thể chạy lệnh: e\n\n=== Kiểm tra Hyper-V GPU ===\n\n=== Kiểm tra VMs với GPU ==="
    );
}

fn config(name: &str, memory_gb: u32, disk: u32) -> VMConfig {
    VMConfig {
        name: name.to_string(),
        disk_size_gb: disk,
        memory_gb,
        cpu_cores: 2,
        iso_path: "D:\\a.iso".to_string(),
        tpm_enabled: false,
        secure_boot: false,
        network_switch: String::new(),
        gpu_name: String::new(),
        vhd_path: "D:\\vhd".to_string(),
        gpu_allocation_percent: 50,
        username: String::new(),
        password: String::new(),
        auto_logon: false,
    }
}

#[test]
fn resource_checks_in_order() {
    assert_eq!(check_vm_resources("", 1, 1, "v", false, "i", false).unwrap_err(), "VM Name cannot be empty");
    assert_eq!(check_vm_resources("a", 2047, 1, "v", false, "i", false).unwrap_err(), "Minimum memory is 2GB");
    assert_eq!(check_vm_resources("a", 2048, 19, "v", false, "i", false).unwrap_err(), "Minimum disk size is 20GB");
    assert_eq!(check_vm_resources("a", 2048, 20, "v", false, "i", false).unwrap_err(), "VHD Path does not exist: v");
    assert_eq!(check_vm_resources("a", 2048, 20, "v", true, "i", false).unwrap_err(), "ISO Path does not exist: i");
    assert!(check_vm_resources("a", 2048, 20, "v", true, "i", true).is_ok());
    assert_eq!(check_config_resources(&config("a", 1, 40), true, true).unwrap_err(), "Minimum memory is 2GB");
    assert!(check_config_resources(&config("a", 2, 40), true, true).is_ok());
    assert!(check_config_resources(&config("a", u32::MAX, 40), true, true).is_ok());
}

#[test]
fn config_needs_a_name() {
    assert_eq!(validate_vm_config(&config("", 4, 40)).unwrap_err(), "VM Name is required");
    assert!(validate_vm_config(&config("x", 4, 40)).is_ok());
}

#[test]
fn switches_drives_and_vhd_path() {
    let s = get_network_switches(&ok(" Default Switch | Internal \nnope\nExt|External")).ok().unwrap();
    assert_eq!(s.len(), 2);
    assert_eq!(s[0].name, "Default Switch");
    assert_eq!(s[0].switch_type, "Internal");
    assert_eq!(s[1].name, "Ext");
    assert_eq!(get_network_switches(&err("no hyper-v")).err().unwrap(), "no hyper-v");
    assert_eq!(get_host_drives(&ok("C:\r\n\n D: \n")).ok().unwrap(), vec!["C:".to_string(), "D:".to_string()]);
    assert_eq!(get_default_vhd_path(&ok("  ")).unwrap(), "C:\\Users\\Public\\Documents\\Hyper-V\\Virtual Hard Disks\\");
    assert_eq!(get_default_vhd_path(&ok(" E:\\VMs \n")).unwrap(), "E:\\VMs");
}

#[test]
fn vm_list_lines_are_parsed() {
    let out = "win11|Running|12|4294967296|01:02:03|true|4|Default Switch\r\nshort|line\nlab|Off| 3|x|00:00:00| false |2|None";
    let vms = parse_vm_list(out);
    assert_eq!(vms.len(), 2);
    assert_eq!(vms[0].name, "win11");
    assert_eq!(vms[0].state, "Running");
    assert_eq!(vms[0].cpu_usage, 12);
    assert_eq!(vms[0].memory_assigned_mb, 4096);
    assert_eq!(vms[0].uptime, "01:02:03");
    assert!(vms[0].has_gpu);
    assert_eq!(vms[0].cpu_cores, 4);
    assert_eq!(vms[0].network_switch, "Default Switch");
    assert_eq!(vms[1].cpu_usage, 0);
    assert_eq!(vms[1].memory_assigned_mb, 0);
    assert!(!vms[1].has_gpu);
    assert_eq!(vms[1].network_switch, "None");
    assert!(parse_vm_list("").is_empty());
}

#[test]
fn unsigned_parsing_follows_from_str() {
    let p = |s: &str, max: u64| parse_unsigned(&s.chars().collect(), max);
    assert_eq!(p("42", 100), Some(42));
    assert_eq!(p("+7", 100), Some(7));
    assert_eq!(p("+", 100), None);
    assert_eq!(p("", 100), None);
    assert_eq!(p("-1", 100), None);
    assert_eq!(p("101", 100), None);
    assert_eq!(p("4294967295", u32::MAX as u64), Some(4294967295));
    assert_eq!(p("4294967296", u32::MAX as u64), None);
    assert_eq!(p("18446744073709551615", u64::MAX), Some(u64::MAX));
    assert_eq!(p("18446744073709551616", u64::MAX), None);
    assert_eq!(p("0012", 100), Some(12));
}
