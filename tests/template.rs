use hyperv_provisioner::template::{
    first_existing, patch_for_headless, provision_command, render_provision_files, render_script,
    render_unattend, template_dir_candidates, template_dir_missing, update_command,
    update_script_candidates,
};
use hyperv_provisioner::text::{
    contains_str, decimal_string, lines_of, replace_str, signed_decimal_string, split_chars,
    trim_str,
};
use hyperv_provisioner::vm::{VMConfig, VMUpdateConfig};

fn config(name: &str, memory_gb: u32, cpu_cores: u32) -> VMConfig {
    VMConfig {
        name: name.to_string(),
        disk_size_gb: 64,
        memory_gb,
        cpu_cores,
        iso_path: "D:\\iso\\win11.iso".to_string(),
        tpm_enabled: true,
        secure_boot: true,
        network_switch: "Default Switch".to_string(),
        gpu_name: "AUTO".to_string(),
        vhd_path: "D:\\vhd\\".to_string(),
        gpu_allocation_percent: 50,
        username: "GPUVM".to_string(),
        password: "pw".to_string(),
        auto_logon: true,
    }
}

#[test]
fn render_scenario_vm_test() {
    let t = "$params = @{ VMName = \"__VM_NAME__\"; MemoryAmount = __MEMORY_GB__GB; CPUCores = __CPU_COUNT__ }";
    let rendered = render_script(t, &config("vm-test", 4, 2));
    assert_eq!(
        rendered,
        "$params = @{ VMName = \"vm-test\"; MemoryAmount = 4GB; CPUCores = 2 }"
    );
    let script = patch_for_headless(&rendered);
    assert!(script.ends_with("\nWrite-Host 'PROVISION_SUCCESS'"));
    assert_eq!(script.matches("Write-Host 'PROVISION_SUCCESS'").count(), 1);
    assert!(!script.contains("__"));
}

#[test]
fn render_fills_every_placeholder() {
    let t = "__VM_NAME__|__ISO_PATH__|__VHD_PATH__|__DISK_SIZE_GB__|__MEMORY_GB__|__CPU_COUNT__|__GPU_NAME__|__SWITCH_NAME__|__USERNAME__|__PASSWORD__|__AUTO_LOGON__|__GPU_ALLOCATION_PERCENT__";
    let r = render_script(t, &config("box", 8, 4));
    assert_eq!(
        r,
        "box|D:\\iso\\win11.iso|D:\\vhd\\|64|8|4|AUTO|Default Switch|GPUVM|pw|true|50"
    );
}

#[test]
fn unknown_tokens_stay_verbatim() {
    let r = render_script("a__VM_NAME__b __UNKNOWN__ _VM_NAME__", &config("x", 1, 1));
    assert_eq!(r, "axb __UNKNOWN__ _VM_NAME__");
}

#[test]
fn template_without_placeholders_is_unchanged() {
    let t = "Write-Host 'hello'";
    assert_eq!(render_script(t, &config("x", 1, 1)), t);
}

#[test]
fn headless_patch_neutralises_prompts() {
    let s = patch_for_headless(
        "$x = Read-host \"name\"\nif ($n -match \"^[a-zA-Z0-9]+$\") {}\nif ($params.VMName.Length -gt 15) {}",
    );
    assert_eq!(
        s,
        "$x = # Read-host \"name\"\nif ($n -match \".\") {}\nif ($params.VMName.Length -gt 100) {}\nWrite-Host 'PROVISION_SUCCESS'"
    );
}

#[test]
fn unattend_gets_the_account() {
    let r = render_unattend("<u>__USERNAME__</u><p>__PASSWORD__</p>", "admin", "s3cret");
    assert_eq!(r, "<u>admin</u><p>s3cret</p>");
}

#[test]
fn provision_files_report_missing_templates() {
    let c = config("vm", 4, 2);
    let e = render_provision_files(&None, &Some("x".to_string()), &c).err().unwrap();
    assert_eq!(e, "autounattend.template.xml not found in dependency directory");
    let e = render_provision_files(&Some("x".to_string()), &None, &c).err().unwrap();
    assert_eq!(e, "CopyFilesToVM.template.ps1 not found in dependency directory");
    let f = render_provision_files(
        &Some("__USERNAME__".to_string()),
        &Some("__VM_NAME__".to_string()),
        &c,
    )
    .ok()
    .unwrap();
    assert_eq!(f.unattend_xml, "GPUVM");
    assert_eq!(f.script, "vm\nWrite-Host 'PROVISION_SUCCESS'");
}

#[test]
fn first_existing_candidate_is_taken() {
    assert_eq!(first_existing(&vec![false, true, true, false]), Some(1));
    assert_eq!(first_existing(&vec![false, false]), None);
    assert_eq!(first_existing(&vec![]), None);
}

#[test]
fn candidate_lists_and_missing_directory_message() {
    let c = template_dir_candidates();
    assert_eq!(c[2], "easy-gpu-pv");
    assert_eq!(
        template_dir_missing(&c),
        "Could not find 'easy-gpu-pv' dependency directory. Checked: [\"src-tauri/src/commands/easy-gpu-pv\", \"src/commands/easy-gpu-pv\", \"easy-gpu-pv\", \"../src-tauri/src/commands/easy-gpu-pv\"]"
    );
    assert_eq!(update_script_candidates()[2], "easy-gpu-pv/Update-VMConfig.ps1");
}

#[test]
fn commands_are_quoted() {
    assert_eq!(provision_command("C:\\t\\CopyFilesToVM.ps1"), "& \"C:\\t\\CopyFilesToVM.ps1\"");
    let u = VMUpdateConfig {
        name: "vm".to_string(),
        gpu_name: "AUTO".to_string(),
        gpu_allocation_percent: 25,
        cpu_count: 6,
        memory_mb: 8192,
        network_switch: "sw".to_string(),
    };
    assert_eq!(
        update_command("C:\\u.ps1", &u),
        "& \"C:\\u.ps1\" -VMName \"vm\" -GPUName \"AUTO\" -GPUResourceAllocationPercentage 25 -ProcessorCount 6 -MemoryMB 8192 -NetworkSwitch \"sw\""
    );
}

#[test]
fn replace_is_left_to_right_without_overlap() {
    assert_eq!(replace_str("aaaa", "aa", "b"), "bb");
    assert_eq!(replace_str("aaa", "aa", "b"), "ba");
    assert_eq!(replace_str("abc", "", "x"), "abc");
    assert_eq!(replace_str("", "a", "x"), "");
}

#[test]
fn text_helpers() {
    assert!(contains_str("hello world", "o w"));
    assert!(!contains_str("hello", "hello!"));
    assert!(contains_str("x", ""));
    assert_eq!(decimal_string(0), "0");
    assert_eq!(decimal_string(18446744073709551615), "18446744073709551615");
    assert_eq!(signed_decimal_string(i64::MIN), "-9223372036854775808");
    assert_eq!(trim_str(" \t a b \r\n"), "a b");
    assert_eq!(trim_str("\u{3000}x\u{a0}"), "x");
    assert_eq!(trim_str("   "), "");
}

#[test]
fn replacement_with_a_disjoint_value_leaves_no_token() {
    let r = replace_str("__X__X__X__", "__X__", "y");
    assert_eq!(r, "yXy");
    assert!(!contains_str(&r, "__X__"));
    let r = replace_str("___X____X__", "__X__", "v");
    assert_eq!(r, "_vv");
}

#[test]
fn lines_and_split_follow_std() {
    let as_strings = |v: Vec<Vec<char>>| v.into_iter().map(|l| l.into_iter().collect::<String>()).collect::<Vec<_>>();
    for s in ["", "\n", "a\n", "a\r\nb", "a\n\nb\n", "\r\n\r\n"] {
        let want: Vec<String> = s.lines().map(|l| l.to_string()).collect();
        assert_eq!(as_strings(lines_of(s)), want, "lines of {:?}", s);
    }
    let v: Vec<char> = "a|b||c|".chars().collect();
    assert_eq!(as_strings(split_chars(&v, '|')), vec!["a", "b", "", "c", ""]);
}
