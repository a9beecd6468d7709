//! Virtual machine descriptions and the checks made before provisioning.

use crate::text::{
    lines_of, lines_seq, parse_unsigned, parsed_unsigned, split_chars, split_seq, string_of,
    trim_chars, trim_seq, trim_str,
};
use vstd::prelude::*;
use vstd::string::*;

verus! {

/// A request to provision a new virtual machine.
pub struct VMConfig {
    pub name: String,
    pub disk_size_gb: u32,
    pub memory_gb: u32,
    pub cpu_cores: u32,
    pub iso_path: String,
    pub tpm_enabled: bool,
    pub secure_boot: bool,
    pub network_switch: String,
    pub gpu_name: String,
    pub vhd_path: String,
    pub gpu_allocation_percent: u32,
    pub username: String,
    pub password: String,
    pub auto_logon: bool,
}

/// A machine as listed by the hypervisor.
pub struct VMInfo {
    pub name: String,
    pub state: String,
    pub cpu_usage: u32,
    pub memory_assigned_mb: u64,
    pub uptime: String,
    pub has_gpu: bool,
    pub cpu_cores: u32,
    pub network_switch: String,
}

/// A virtual network switch of the host.
pub struct NetworkSwitch {
    pub name: String,
    pub switch_type: String,
}

/// A request to change the hardware of an existing machine.
pub struct VMUpdateConfig {
    pub name: String,
    pub gpu_name: String,
    pub gpu_allocation_percent: u32,
    pub cpu_count: u32,
    pub memory_mb: u64,
    pub network_switch: String,
}

/// The smallest memory a machine may be given, in megabytes.
pub const MIN_MEMORY_MB: u32 = 2048;

/// The smallest disk a machine may be given, in gigabytes.
pub const MIN_DISK_GB: u32 = 20;

/// The error `check_vm_resources` reports for the given inputs, if any, in
/// the order the checks are made.
pub open spec fn resource_error(
    name: Seq<char>,
    memory_mb: u32,
    disk_size_gb: u32,
    vhd_path: Seq<char>,
    vhd_exists: bool,
    iso_path: Seq<char>,
    iso_exists: bool,
) -> Option<Seq<char>> {
    if name.len() == 0 {
        Some("VM Name cannot be empty"@)
    } else if memory_mb < MIN_MEMORY_MB {
        Some("Minimum memory is 2GB"@)
    } else if disk_size_gb < MIN_DISK_GB {
        Some("Minimum disk size is 20GB"@)
    } else if !vhd_exists {
        Some("VHD Path does not exist: "@ + vhd_path)
    } else if !iso_exists {
        Some("ISO Path does not exist: "@ + iso_path)
    } else {
        None
    }
}

/// Checks the resources of a machine before it is created; whether the two
/// paths exist is looked up by the caller.
pub fn check_vm_resources(
    name: &str,
    memory_mb: u32,
    disk_size_gb: u32,
    vhd_path: &str,
    vhd_exists: bool,
    iso_path: &str,
    iso_exists: bool,
) -> (r: Result<(), String>)
    ensures
        r is Ok <==> resource_error(
            name@,
            memory_mb,
            disk_size_gb,
            vhd_path@,
            vhd_exists,
            iso_path@,
            iso_exists,
        ) is None,
        r matches Err(e) ==> Some(e@) == resource_error(
            name@,
            memory_mb,
            disk_size_gb,
            vhd_path@,
            vhd_exists,
            iso_path@,
            iso_exists,
        ),
{
    if name.unicode_len() == 0 {
        return Err(String::from_str("VM Name cannot be empty"));
    }
    if memory_mb < MIN_MEMORY_MB {
        return Err(String::from_str("Minimum memory is 2GB"));
    }
    if disk_size_gb < MIN_DISK_GB {
        return Err(String::from_str("Minimum disk size is 20GB"));
    }
    if !vhd_exists {
        let mut e = String::from_str("VHD Path does not exist: ");
        e.append(vhd_path);
        return Err(e);
    }
    if !iso_exists {
        let mut e = String::from_str("ISO Path does not exist: ");
        e.append(iso_path);
        return Err(e);
    }
    Ok(())
}

/// The memory of a request in megabytes, saturating at the largest `u32`.
pub open spec fn memory_mb_of(memory_gb: u32) -> u32 {
    if memory_gb as int * 1024 > u32::MAX as int {
        u32::MAX
    } else {
        (memory_gb as int * 1024) as u32
    }
}

/// Checks a provisioning request before anything is staged.
pub fn check_config_resources(config: &VMConfig, vhd_exists: bool, iso_exists: bool) -> (r: Result<
    (),
    String,
>)
    ensures
        r is Ok <==> resource_error(
            config.name@,
            memory_mb_of(config.memory_gb),
            config.disk_size_gb,
            config.vhd_path@,
            vhd_exists,
            config.iso_path@,
            iso_exists,
        ) is None,
        r matches Err(e) ==> Some(e@) == resource_error(
            config.name@,
            memory_mb_of(config.memory_gb),
            config.disk_size_gb,
            config.vhd_path@,
            vhd_exists,
            config.iso_path@,
            iso_exists,
        ),
{
    let memory_mb: u32 = if config.memory_gb > u32::MAX / 1024 {
        u32::MAX
    } else {
        config.memory_gb * 1024
    };
    check_vm_resources(
        config.name.as_str(),
        memory_mb,
        config.disk_size_gb,
        config.vhd_path.as_str(),
        vhd_exists,
        config.iso_path.as_str(),
        iso_exists,
    )
}

/// Validates a request as submitted: a machine needs a name.
pub fn validate_vm_config(config: &VMConfig) -> (r: Result<(), String>)
    ensures
        r is Ok <==> config.name@.len() > 0,
        r matches Err(e) ==> e@ == "VM Name is required"@,
{
    if config.name.as_str().unicode_len() == 0 {
        Err(String::from_str("VM Name is required"))
    } else {
        Ok(())
    }
}

/// The switch described by one `name|type` line, if it has at least two
/// fields, each trimmed.
pub open spec fn switch_of_line(l: Seq<char>) -> Option<(Seq<char>, Seq<char>)> {
    let parts = split_seq(l, '|');
    if parts.len() >= 2 {
        Some((trim_seq(parts[0]), trim_seq(parts[1])))
    } else {
        None
    }
}

/// The switches described by the lines, in order, skipping malformed lines.
pub open spec fn switches_of_lines(ls: Seq<Seq<char>>) -> Seq<(Seq<char>, Seq<char>)>
    decreases ls.len(),
{
    if ls.len() == 0 {
        Seq::empty()
    } else {
        let init = switches_of_lines(ls.drop_last());
        match switch_of_line(ls.last()) {
            Some(w) => init.push(w),
            None => init,
        }
    }
}

/// The name and type of a switch.
pub open spec fn switch_view(w: NetworkSwitch) -> (Seq<char>, Seq<char>) {
    (w.name@, w.switch_type@)
}

/// The host's virtual switches, from the answer of the switch query; a failed
/// query is passed on.
pub fn get_network_switches(out: &Result<String, String>) -> (r: Result<Vec<NetworkSwitch>, String>)
    ensures
        out matches Err(e) ==> (r matches Err(e2) && e2 == e),
        out matches Ok(s) ==> (r matches Ok(v) && v@.map_values(|w: NetworkSwitch| switch_view(w))
            == switches_of_lines(lines_seq(s@))),
{
    let s = match out {
        Ok(s) => s,
        Err(e) => {
            return Err(e.clone());
        },
    };
    let mut found: Vec<NetworkSwitch> = Vec::new();
    let lines = lines_of(s.as_str());
    let ghost ls = lines@.map_values(|p: Vec<char>| p@);
    let mut i: usize = 0;
    proof {
        assert(ls.subrange(0, 0) =~= Seq::<Seq<char>>::empty());
        assert(found@.map_values(|w: NetworkSwitch| switch_view(w)) =~= Seq::<(Seq<char>, Seq<char>)>::empty());
    }
    while i < lines.len()
        invariant
            i <= lines@.len(),
            ls == lines@.map_values(|p: Vec<char>| p@),
            found@.map_values(|w: NetworkSwitch| switch_view(w)) == switches_of_lines(ls.subrange(0, i as int)),
        decreases lines.len() - i,
    {
        let parts = split_chars(&lines[i], '|');
        let ghost ps = parts@.map_values(|p: Vec<char>| p@);
        proof {
            assert(ls.subrange(0, i + 1).drop_last() =~= ls.subrange(0, i as int));
            assert(ls.subrange(0, i + 1).last() == lines@[i as int]@);
        }
        if parts.len() >= 2 {
            let name = string_of(&trim_chars(&parts[0]));
            let kind = string_of(&trim_chars(&parts[1]));
            let ghost before = found@.map_values(|w: NetworkSwitch| switch_view(w));
            found.push(NetworkSwitch { name, switch_type: kind });
            proof {
                assert(ps[0] == parts@[0]@ && ps[1] == parts@[1]@);
                assert(found@.map_values(|w: NetworkSwitch| switch_view(w)) =~= before.push((trim_seq(ps[0]), trim_seq(ps[1]))));
            }
        }
        i = i + 1;
    }
    proof {
        assert(ls.subrange(0, i as int) =~= ls);
    }
    Ok(found)
}

/// The trimmed lines that are not empty, in order.
pub open spec fn drives_of_lines(ls: Seq<Seq<char>>) -> Seq<Seq<char>>
    decreases ls.len(),
{
    if ls.len() == 0 {
        Seq::empty()
    } else if trim_seq(ls.last()).len() > 0 {
        drives_of_lines(ls.drop_last()).push(trim_seq(ls.last()))
    } else {
        drives_of_lines(ls.drop_last())
    }
}

/// The host's fixed drives, one per non-blank line of the drive query's
/// answer, trimmed; a failed query is passed on.
pub fn get_host_drives(out: &Result<String, String>) -> (r: Result<Vec<String>, String>)
    ensures
        out matches Err(e) ==> (r matches Err(e2) && e2 == e),
        out matches Ok(s) ==> (r matches Ok(v) && v@.map_values(|d: String| d@) == drives_of_lines(
            lines_seq(s@),
        )),
{
    let s = match out {
        Ok(s) => s,
        Err(e) => {
            return Err(e.clone());
        },
    };
    let mut drives: Vec<String> = Vec::new();
    let lines = lines_of(s.as_str());
    let ghost ls = lines@.map_values(|p: Vec<char>| p@);
    let mut i: usize = 0;
    proof {
        assert(ls.subrange(0, 0) =~= Seq::<Seq<char>>::empty());
        assert(drives@.map_values(|d: String| d@) =~= Seq::<Seq<char>>::empty());
    }
    while i < lines.len()
        invariant
            i <= lines@.len(),
            ls == lines@.map_values(|p: Vec<char>| p@),
            drives@.map_values(|d: String| d@) == drives_of_lines(ls.subrange(0, i as int)),
        decreases lines.len() - i,
    {
        proof {
            assert(ls.subrange(0, i + 1).drop_last() =~= ls.subrange(0, i as int));
            assert(ls.subrange(0, i + 1).last() == lines@[i as int]@);
        }
        let t = trim_chars(&lines[i]);
        if t.len() > 0 {
            let ghost before = drives@.map_values(|d: String| d@);
            drives.push(string_of(&t));
            proof {
                assert(drives@.map_values(|d: String| d@) =~= before.push(t@));
            }
        }
        i = i + 1;
    }
    proof {
        assert(ls.subrange(0, i as int) =~= ls);
    }
    Ok(drives)
}

/// The hypervisor's default folder for virtual disks, when the host leaves it unset.
pub open spec fn fallback_vhd_path() -> Seq<char> {
    "C:\\Users\\Public\\Documents\\Hyper-V\\Virtual Hard Disks\\"@
}

/// The default folder for virtual disks: the trimmed answer of the host
/// query, or the hypervisor's usual folder when the answer is blank; a failed
/// query is passed on.
pub fn get_default_vhd_path(out: &Result<String, String>) -> (r: Result<String, String>)
    ensures
        out matches Err(e) ==> (r matches Err(e2) && e2 == e),
        out matches Ok(s) ==> (r matches Ok(p) && p@ == if trim_seq(s@).len() == 0 {
            fallback_vhd_path()
        } else {
            trim_seq(s@)
        }),
{
    match out {
        Ok(s) => {
            let p = trim_str(s.as_str());
            if p.as_str().unicode_len() == 0 {
                Ok(String::from_str("C:\\Users\\Public\\Documents\\Hyper-V\\Virtual Hard Disks\\"))
            } else {
                Ok(p)
            }
        },
        Err(e) => Err(e.clone()),
    }
}

/// The abstract value of a listed machine, field by field.
pub type VMInfoView = (Seq<char>, Seq<char>, u32, u64, Seq<char>, bool, u32, Seq<char>);

/// The fields of a listed machine.
pub open spec fn vm_info_view(v: VMInfo) -> VMInfoView {
    (v.name@, v.state@, v.cpu_usage, v.memory_assigned_mb, v.uptime@, v.has_gpu, v.cpu_cores, v.network_switch@)
}

/// A field read as an unsigned number no larger than `max`, or 0 when it is not one.
pub open spec fn number_or_zero(s: Seq<char>, max: nat) -> nat {
    match parsed_unsigned(s, max) {
        Some(v) => v,
        None => 0,
    }
}

/// The machine described by one `name|state|cpu|memory bytes|uptime|gpu|cores|switch`
/// line, if it has at least eight fields.
pub open spec fn vm_of_line(l: Seq<char>) -> Option<VMInfoView> {
    let p = split_seq(l, '|');
    if p.len() >= 8 {
        Some(
            (
                trim_seq(p[0]),
                trim_seq(p[1]),
                number_or_zero(p[2], u32::MAX as nat) as u32,
                (number_or_zero(p[3], u64::MAX as nat) / 1024 / 1024) as u64,
                trim_seq(p[4]),
                trim_seq(p[5]) == "true"@,
                number_or_zero(p[6], u32::MAX as nat) as u32,
                trim_seq(p[7]),
            ),
        )
    } else {
        None
    }
}

/// The machines described by the lines, in order, skipping malformed lines.
pub open spec fn vms_of_lines(ls: Seq<Seq<char>>) -> Seq<VMInfoView>
    decreases ls.len(),
{
    if ls.len() == 0 {
        Seq::empty()
    } else {
        let init = vms_of_lines(ls.drop_last());
        match vm_of_line(ls.last()) {
            Some(v) => init.push(v),
            None => init,
        }
    }
}

fn number_or_zero_exec(s: &Vec<char>, max: u64) -> (r: u64)
    ensures
        r as nat == number_or_zero(s@, max as nat),
{
    match parse_unsigned(s, max) {
        Some(v) => v,
        None => 0,
    }
}

fn vm_of_parts(parts: &Vec<Vec<char>>) -> (r: VMInfo)
    requires
        parts@.len() >= 8,
    ensures
        ({
            let p = parts@.map_values(|q: Vec<char>| q@);
            vm_info_view(r) == (
                trim_seq(p[0]),
                trim_seq(p[1]),
                number_or_zero(p[2], u32::MAX as nat) as u32,
                (number_or_zero(p[3], u64::MAX as nat) / 1024 / 1024) as u64,
                trim_seq(p[4]),
                trim_seq(p[5]) == "true"@,
                number_or_zero(p[6], u32::MAX as nat) as u32,
                trim_seq(p[7]),
            )
        }),
{
    let cpu_usage = number_or_zero_exec(&parts[2], u32::MAX as u64) as u32;
    let memory = number_or_zero_exec(&parts[3], u64::MAX);
    let cpu_cores = number_or_zero_exec(&parts[6], u32::MAX as u64) as u32;
    let gpu_flag = string_of(&trim_chars(&parts[5]));
    let has_gpu = gpu_flag == String::from_str("true");
    VMInfo {
        name: string_of(&trim_chars(&parts[0])),
        state: string_of(&trim_chars(&parts[1])),
        cpu_usage,
        memory_assigned_mb: memory / 1024 / 1024,
        uptime: string_of(&trim_chars(&parts[4])),
        has_gpu,
        cpu_cores,
        network_switch: string_of(&trim_chars(&parts[7])),
    }
}

/// The machines listed in the answer of the machine query, one per
/// well-formed line; a field that is not a number reads as 0.
pub fn parse_vm_list(output: &str) -> (r: Vec<VMInfo>)
    ensures
        r@.map_values(|v: VMInfo| vm_info_view(v)) == vms_of_lines(lines_seq(output@)),
{
    let mut vms: Vec<VMInfo> = Vec::new();
    let lines = lines_of(output);
    let ghost ls = lines@.map_values(|p: Vec<char>| p@);
    let mut i: usize = 0;
    proof {
        assert(ls.subrange(0, 0) =~= Seq::<Seq<char>>::empty());
        assert(vms@.map_values(|v: VMInfo| vm_info_view(v)) =~= Seq::<VMInfoView>::empty());
    }
    while i < lines.len()
        invariant
            i <= lines@.len(),
            ls == lines@.map_values(|p: Vec<char>| p@),
            vms@.map_values(|v: VMInfo| vm_info_view(v)) == vms_of_lines(ls.subrange(0, i as int)),
        decreases lines.len() - i,
    {
        let parts = split_chars(&lines[i], '|');
        proof {
            assert(ls.subrange(0, i + 1).drop_last() =~= ls.subrange(0, i as int));
            assert(ls.subrange(0, i + 1).last() == lines@[i as int]@);
        }
        if parts.len() >= 8 {
            let v = vm_of_parts(&parts);
            let ghost before = vms@.map_values(|v: VMInfo| vm_info_view(v));
            vms.push(v);
            proof {
                assert(vms@.map_values(|v: VMInfo| vm_info_view(v)) =~= before.push(vm_info_view(v)));
            }
        }
        i = i + 1;
    }
    proof {
        assert(ls.subrange(0, i as int) =~= ls);
    }
    vms
}

} // verus!
