//! Script templates: locating the template tree, substituting placeholders,
//! and patching the provisioning script so that it runs unattended.

use crate::text::{contains_seq, decimal, decimal_string, lemma_replace_absent, replace_seq, replace_str};
use crate::vm::{VMConfig, VMUpdateConfig};
use vstd::prelude::*;
use vstd::string::*;

verus! {

/// `true` or `false`, as the script expects a flag.
pub open spec fn bool_text(b: bool) -> Seq<char> {
    if b {
        "true"@
    } else {
        "false"@
    }
}

/// The provisioning script template with every placeholder replaced by the
/// request's value, placeholder by placeholder in a fixed order.
pub open spec fn render_script_text(t: Seq<char>, c: VMConfig) -> Seq<char> {
    let s = replace_seq(t, "__VM_NAME__"@, c.name@);
    let s = replace_seq(s, "__ISO_PATH__"@, c.iso_path@);
    let s = replace_seq(s, "__VHD_PATH__"@, c.vhd_path@);
    let s = replace_seq(s, "__DISK_SIZE_GB__"@, decimal(c.disk_size_gb as nat));
    let s = replace_seq(s, "__MEMORY_GB__"@, decimal(c.memory_gb as nat));
    let s = replace_seq(s, "__CPU_COUNT__"@, decimal(c.cpu_cores as nat));
    let s = replace_seq(s, "__GPU_NAME__"@, c.gpu_name@);
    let s = replace_seq(s, "__SWITCH_NAME__"@, c.network_switch@);
    let s = replace_seq(s, "__USERNAME__"@, c.username@);
    let s = replace_seq(s, "__PASSWORD__"@, c.password@);
    let s = replace_seq(s, "__AUTO_LOGON__"@, bool_text(c.auto_logon));
    replace_seq(s, "__GPU_ALLOCATION_PERCENT__"@, decimal(c.gpu_allocation_percent as nat))
}

/// The line appended to the provisioning script so that success is reported.
pub open spec fn success_marker_line() -> Seq<char> {
    "\nWrite-Host 'PROVISION_SUCCESS'"@
}

/// The script with its interactive prompts and strict name checks neutralised,
/// followed by the success marker line.
pub open spec fn headless_text(s: Seq<char>) -> Seq<char> {
    let s = replace_seq(s, "Read-host"@, "# Read-host"@);
    let s = replace_seq(s, "^[a-zA-Z0-9]+$"@, "."@);
    let s = replace_seq(s, "$params.VMName.Length -gt 15"@, "$params.VMName.Length -gt 100"@);
    s + success_marker_line()
}

/// The unattended-install answer file with the account placeholders replaced.
pub open spec fn render_unattend_text(t: Seq<char>, username: Seq<char>, password: Seq<char>) -> Seq<
    char,
> {
    replace_seq(replace_seq(t, "__USERNAME__"@, username), "__PASSWORD__"@, password)
}

/// The placeholders of the provisioning script template, in substitution order.
pub open spec fn script_placeholders() -> Seq<Seq<char>> {
    seq![
        "__VM_NAME__"@,
        "__ISO_PATH__"@,
        "__VHD_PATH__"@,
        "__DISK_SIZE_GB__"@,
        "__MEMORY_GB__"@,
        "__CPU_COUNT__"@,
        "__GPU_NAME__"@,
        "__SWITCH_NAME__"@,
        "__USERNAME__"@,
        "__PASSWORD__"@,
        "__AUTO_LOGON__"@,
        "__GPU_ALLOCATION_PERCENT__"@,
    ]
}

/// A template that holds none of the placeholders renders to itself, whatever
/// the request: rendering only ever touches placeholder tokens.
pub proof fn lemma_render_without_placeholders(t: Seq<char>, c: VMConfig)
    requires
        forall|k: int| 0 <= k < 12 ==> !contains_seq(t, #[trigger] script_placeholders()[k]),
    ensures
        render_script_text(t, c) == t,
{
    let p = script_placeholders();
    assert(!contains_seq(t, p[0]));
    lemma_replace_absent(t, "__VM_NAME__"@, c.name@);
    assert(!contains_seq(t, p[1]));
    lemma_replace_absent(t, "__ISO_PATH__"@, c.iso_path@);
    assert(!contains_seq(t, p[2]));
    lemma_replace_absent(t, "__VHD_PATH__"@, c.vhd_path@);
    assert(!contains_seq(t, p[3]));
    lemma_replace_absent(t, "__DISK_SIZE_GB__"@, decimal(c.disk_size_gb as nat));
    assert(!contains_seq(t, p[4]));
    lemma_replace_absent(t, "__MEMORY_GB__"@, decimal(c.memory_gb as nat));
    assert(!contains_seq(t, p[5]));
    lemma_replace_absent(t, "__CPU_COUNT__"@, decimal(c.cpu_cores as nat));
    assert(!contains_seq(t, p[6]));
    lemma_replace_absent(t, "__GPU_NAME__"@, c.gpu_name@);
    assert(!contains_seq(t, p[7]));
    lemma_replace_absent(t, "__SWITCH_NAME__"@, c.network_switch@);
    assert(!contains_seq(t, p[8]));
    lemma_replace_absent(t, "__USERNAME__"@, c.username@);
    assert(!contains_seq(t, p[9]));
    lemma_replace_absent(t, "__PASSWORD__"@, c.password@);
    assert(!contains_seq(t, p[10]));
    lemma_replace_absent(t, "__AUTO_LOGON__"@, bool_text(c.auto_logon));
    assert(!contains_seq(t, p[11]));
    lemma_replace_absent(t, "__GPU_ALLOCATION_PERCENT__"@, decimal(c.gpu_allocation_percent as nat));
}

fn bool_string(b: bool) -> (r: String)
    ensures
        r@ == bool_text(b),
{
    if b {
        String::from_str("true")
    } else {
        String::from_str("false")
    }
}

/// Substitutes the request's values for the placeholders of the provisioning
/// script template; no escaping is done.
pub fn render_script(template: &str, config: &VMConfig) -> (r: String)
    ensures
        r@ == render_script_text(template@, *config),
{
    let s = replace_str(template, "__VM_NAME__", config.name.as_str());
    let s = replace_str(s.as_str(), "__ISO_PATH__", config.iso_path.as_str());
    let s = replace_str(s.as_str(), "__VHD_PATH__", config.vhd_path.as_str());
    let d = decimal_string(config.disk_size_gb as u64);
    let s = replace_str(s.as_str(), "__DISK_SIZE_GB__", d.as_str());
    let d = decimal_string(config.memory_gb as u64);
    let s = replace_str(s.as_str(), "__MEMORY_GB__", d.as_str());
    let d = decimal_string(config.cpu_cores as u64);
    let s = replace_str(s.as_str(), "__CPU_COUNT__", d.as_str());
    let s = replace_str(s.as_str(), "__GPU_NAME__", config.gpu_name.as_str());
    let s = replace_str(s.as_str(), "__SWITCH_NAME__", config.network_switch.as_str());
    let s = replace_str(s.as_str(), "__USERNAME__", config.username.as_str());
    let s = replace_str(s.as_str(), "__PASSWORD__", config.password.as_str());
    let b = bool_string(config.auto_logon);
    let s = replace_str(s.as_str(), "__AUTO_LOGON__", b.as_str());
    let d = decimal_string(config.gpu_allocation_percent as u64);
    replace_str(s.as_str(), "__GPU_ALLOCATION_PERCENT__", d.as_str())
}

/// Neutralises the interactive prompts and strict name checks of the rendered
/// script and appends the success marker line.
pub fn patch_for_headless(script: &str) -> (r: String)
    ensures
        r@ == headless_text(script@),
{
    let s = replace_str(script, "Read-host", "# Read-host");
    let s = replace_str(s.as_str(), "^[a-zA-Z0-9]+$", ".");
    let mut s = replace_str(
        s.as_str(),
        "$params.VMName.Length -gt 15",
        "$params.VMName.Length -gt 100",
    );
    s.append("\nWrite-Host 'PROVISION_SUCCESS'");
    s
}

/// Substitutes the account for the placeholders of the answer file template.
pub fn render_unattend(template: &str, username: &str, password: &str) -> (r: String)
    ensures
        r@ == render_unattend_text(template@, username@, password@),
{
    let s = replace_str(template, "__USERNAME__", username);
    replace_str(s.as_str(), "__PASSWORD__", password)
}

/// The two files written into the staging directory of a job.
pub struct ProvisionFiles {
    /// The unattended-install answer file.
    pub unattend_xml: String,
    /// The provisioning script, ready to run unattended.
    pub script: String,
}

/// Renders the files of a job from the staged templates; a template that is
/// absent from the staging directory is an error.
pub fn render_provision_files(
    xml_template: &Option<String>,
    script_template: &Option<String>,
    config: &VMConfig,
) -> (r: Result<ProvisionFiles, String>)
    ensures
        r is Ok <==> xml_template is Some && script_template is Some,
        xml_template is None ==> (r matches Err(e) && e@
            == "autounattend.template.xml not found in dependency directory"@),
        xml_template is Some && script_template is None ==> (r matches Err(e) && e@
            == "CopyFilesToVM.template.ps1 not found in dependency directory"@),
        r matches Ok(f) ==> f.unattend_xml@ == render_unattend_text(
            xml_template->Some_0@,
            config.username@,
            config.password@,
        ) && f.script@ == headless_text(render_script_text(script_template->Some_0@, *config)),
{
    let xml = match xml_template {
        Some(t) => render_unattend(t.as_str(), config.username.as_str(), config.password.as_str()),
        None => {
            return Err(
                String::from_str("autounattend.template.xml not found in dependency directory"),
            );
        },
    };
    match script_template {
        Some(t) => {
            let rendered = render_script(t.as_str(), config);
            let script = patch_for_headless(rendered.as_str());
            Ok(ProvisionFiles { unattend_xml: xml, script })
        },
        None => Err(String::from_str("CopyFilesToVM.template.ps1 not found in dependency directory")),
    }
}

/// The index of the first candidate that exists, if any.
pub open spec fn first_true(flags: Seq<bool>) -> Option<int> {
    if exists|i: int| 0 <= i < flags.len() && flags[i] {
        Some(choose|i: int| 0 <= i < flags.len() && flags[i] && forall|j: int| 0 <= j < i ==> !flags[j])
    } else {
        None
    }
}

/// Picks the first candidate location that exists, in order.
pub fn first_existing(exists: &Vec<bool>) -> (r: Option<usize>)
    ensures
        r matches Some(i) ==> i < exists@.len() && exists@[i as int] && forall|j: int|
            0 <= j < i ==> !exists@[j],
        r is None <==> forall|j: int| 0 <= j < exists@.len() ==> !exists@[j],
{
    let mut i: usize = 0;
    while i < exists.len()
        invariant
            i <= exists@.len(),
            forall|j: int| 0 <= j < i ==> !exists@[j],
        decreases exists.len() - i,
    {
        if exists[i] {
            return Some(i);
        }
        i = i + 1;
    }
    None
}

/// The relative locations searched, in order, for the template tree.
pub fn template_dir_candidates() -> (r: Vec<String>)
    ensures
        r@.len() == 4,
        r@[0]@ == "src-tauri/src/commands/easy-gpu-pv"@,
        r@[1]@ == "src/commands/easy-gpu-pv"@,
        r@[2]@ == "easy-gpu-pv"@,
        r@[3]@ == "../src-tauri/src/commands/easy-gpu-pv"@,
{
    let mut v: Vec<String> = Vec::new();
    v.push(String::from_str("src-tauri/src/commands/easy-gpu-pv"));
    v.push(String::from_str("src/commands/easy-gpu-pv"));
    v.push(String::from_str("easy-gpu-pv"));
    v.push(String::from_str("../src-tauri/src/commands/easy-gpu-pv"));
    v
}

/// The relative locations searched, in order, for the configuration-update script.
pub fn update_script_candidates() -> (r: Vec<String>)
    ensures
        r@.len() == 4,
        r@[0]@ == "src-tauri/src/commands/easy-gpu-pv/Update-VMConfig.ps1"@,
        r@[1]@ == "src/commands/easy-gpu-pv/Update-VMConfig.ps1"@,
        r@[2]@ == "easy-gpu-pv/Update-VMConfig.ps1"@,
        r@[3]@ == "../src-tauri/src/commands/easy-gpu-pv/Update-VMConfig.ps1"@,
{
    let mut v: Vec<String> = Vec::new();
    v.push(String::from_str("src-tauri/src/commands/easy-gpu-pv/Update-VMConfig.ps1"));
    v.push(String::from_str("src/commands/easy-gpu-pv/Update-VMConfig.ps1"));
    v.push(String::from_str("easy-gpu-pv/Update-VMConfig.ps1"));
    v.push(String::from_str("../src-tauri/src/commands/easy-gpu-pv/Update-VMConfig.ps1"));
    v
}

/// The candidates as a bracketed, comma-separated list of quoted paths.
pub open spec fn quoted_list(items: Seq<Seq<char>>) -> Seq<char> {
    "["@ + quoted_items(items) + "]"@
}

/// The quoted paths separated by `, `.
pub open spec fn quoted_items(items: Seq<Seq<char>>) -> Seq<char>
    decreases items.len(),
{
    if items.len() == 0 {
        Seq::empty()
    } else if items.len() == 1 {
        "\""@ + items[0] + "\""@
    } else {
        quoted_items(items.drop_last()) + ", \""@ + items.last() + "\""@
    }
}

/// The error reported when no candidate template directory exists, naming them all.
pub fn template_dir_missing(candidates: &Vec<String>) -> (r: String)
    ensures
        r@ == "Could not find 'easy-gpu-pv' dependency directory. Checked: "@ + quoted_list(
            candidates@.map_values(|c: String| c@),
        ),
{
    let mut items = String::new();
    let mut i: usize = 0;
    proof {
        assert(candidates@.subrange(0, 0).map_values(|c: String| c@) =~= Seq::<Seq<char>>::empty());
    }
    while i < candidates.len()
        invariant
            i <= candidates@.len(),
            items@ == quoted_items(candidates@.subrange(0, i as int).map_values(|c: String| c@)),
        decreases candidates.len() - i,
    {
        let ghost prev = candidates@.subrange(0, i as int).map_values(|c: String| c@);
        let ghost next = candidates@.subrange(0, i + 1).map_values(|c: String| c@);
        proof {
            assert(next.drop_last() =~= prev);
        }
        if i > 0 {
            items.append(", \"");
        } else {
            items.append("\"");
        }
        items.append(candidates[i].as_str());
        items.append("\"");
        proof {
            if i == 0 {
                assert(prev =~= Seq::<Seq<char>>::empty());
                assert(items@ =~= "\""@ + next[0] + "\""@);
            } else {
                assert(items@ =~= quoted_items(prev) + ", \""@ + next.last() + "\""@);
            }
        }
        i = i + 1;
    }
    proof {
        assert(candidates@.subrange(0, i as int) =~= candidates@);
    }
    let mut r = String::from_str("Could not find 'easy-gpu-pv' dependency directory. Checked: [");
    r.append(items.as_str());
    r.append("]");
    proof {
        reveal_strlit("Could not find 'easy-gpu-pv' dependency directory. Checked: [");
        reveal_strlit("Could not find 'easy-gpu-pv' dependency directory. Checked: ");
        reveal_strlit("[");
        assert(r@ =~= "Could not find 'easy-gpu-pv' dependency directory. Checked: "@ + quoted_list(
            candidates@.map_values(|c: String| c@),
        ));
    }
    r
}

/// The command that runs the rendered provisioning script at `script_path`.
pub fn provision_command(script_path: &str) -> (r: String)
    ensures
        r@ == "& \""@ + script_path@ + "\""@,
{
    let mut s = String::from_str("& \"");
    s.append(script_path);
    s.append("\"");
    s
}

/// The command that runs the configuration-update script at `script_path`
/// with the request's values as its parameters.
pub fn update_command(script_path: &str, c: &VMUpdateConfig) -> (r: String)
    ensures
        r@ == "& \""@ + script_path@ + "\" -VMName \""@ + c.name@ + "\" -GPUName \""@ + c.gpu_name@
            + "\" -GPUResourceAllocationPercentage "@ + decimal(c.gpu_allocation_percent as nat)
            + " -ProcessorCount "@ + decimal(c.cpu_count as nat) + " -MemoryMB "@ + decimal(
            c.memory_mb as nat,
        ) + " -NetworkSwitch \""@ + c.network_switch@ + "\""@,
{
    let mut s = String::from_str("& \"");
    s.append(script_path);
    s.append("\" -VMName \"");
    s.append(c.name.as_str());
    s.append("\" -GPUName \"");
    s.append(c.gpu_name.as_str());
    s.append("\" -GPUResourceAllocationPercentage ");
    let d = decimal_string(c.gpu_allocation_percent as u64);
    s.append(d.as_str());
    s.append(" -ProcessorCount ");
    let d = decimal_string(c.cpu_count as u64);
    s.append(d.as_str());
    s.append(" -MemoryMB ");
    let d = decimal_string(c.memory_mb);
    s.append(d.as_str());
    s.append(" -NetworkSwitch \"");
    s.append(c.network_switch.as_str());
    s.append("\"");
    s
}

} // verus!
