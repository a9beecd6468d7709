//! Host readiness: reading the answers of the host's inventory queries and
//! deciding what stands in the way of GPU partitioning.

use crate::text::{
    contains_seq, contains_str, lines_of, lines_seq, lower_of, lowercase, split_chars, split_seq,
    string_of, trim_seq, trim_str,
};
use vstd::prelude::*;
use vstd::string::*;

verus! {

/// A display adapter of the host.
pub struct GpuInfo {
    pub name: String,
    pub driver_version: String,
    pub supports_partitioning: bool,
}

/// The abstract value of an adapter: name, driver version, partitioning support.
pub type GpuView = (Seq<char>, Seq<char>, bool);

impl View for GpuInfo {
    type V = GpuView;

    open spec fn view(&self) -> GpuView {
        (self.name@, self.driver_version@, self.supports_partitioning)
    }
}

/// A lower-cased answer reads `true`.
pub open spec fn reads_true(lowered: Seq<char>) -> bool {
    lowered == "true"@
}

/// A query answered, and its answer reads `true` in any letter case.
pub open spec fn answered_true(out: Result<String, String>) -> bool {
    out matches Ok(s) && reads_true(lower_of(s@))
}

/// Whether an already lower-cased answer reads `true`.
pub fn is_true_text(lowered: &String) -> (r: bool)
    ensures
        r == reads_true(lowered@),
{
    let t = String::from_str("true");
    *lowered == t
}

/// Whether a query answered and its answer reads `true` in any letter case.
pub fn probe_reports_true(out: &Result<String, String>) -> (r: bool)
    ensures
        r == answered_true(*out),
{
    match out {
        Ok(s) => {
            let l = lowercase(s.as_str());
            is_true_text(&l)
        },
        Err(_) => false,
    }
}

/// Whether the privilege query says the process runs elevated: its trimmed
/// answer reads `true` in any letter case; a failed query says no.
pub fn is_admin_sync(out: &Result<String, String>) -> (r: bool)
    ensures
        r == (out matches Ok(s) && reads_true(lower_of(trim_seq(s@)))),
{
    match out {
        Ok(s) => {
            let t = trim_str(s.as_str());
            let l = lowercase(t.as_str());
            is_true_text(&l)
        },
        Err(_) => false,
    }
}

/// Whether the hypervisor is enabled: any of the probes (service running,
/// compute service present, registry key present), in order, answered `true`.
pub fn check_hyper_v(probes: &Vec<Result<String, String>>) -> (r: bool)
    ensures
        r == exists|i: int| 0 <= i < probes@.len() && answered_true(#[trigger] probes@[i]),
{
    let mut i: usize = 0;
    while i < probes.len()
        invariant
            i <= probes@.len(),
            forall|j: int| 0 <= j < i ==> !answered_true(#[trigger] probes@[j]),
        decreases probes.len() - i,
    {
        if probe_reports_true(&probes[i]) {
            return true;
        }
        i = i + 1;
    }
    false
}

/// The answer of a query, or `Unknown` when it failed.
pub open spec fn answer_or_unknown(out: Result<String, String>) -> Seq<char> {
    match out {
        Ok(s) => s@,
        Err(_) => "Unknown"@,
    }
}

fn answer_or_unknown_string(out: &Result<String, String>) -> (r: String)
    ensures
        r@ == answer_or_unknown(*out),
{
    match out {
        Ok(s) => s.clone(),
        Err(_) => String::from_str("Unknown"),
    }
}

/// The operating system's version and edition from the answers of their
/// queries; a failed query gives `Unknown`.
pub fn get_os_info(version: &Result<String, String>, edition: &Result<String, String>) -> (r: (
    String,
    String,
))
    ensures
        r.0@ == answer_or_unknown(*version),
        r.1@ == answer_or_unknown(*edition),
{
    (answer_or_unknown_string(version), answer_or_unknown_string(edition))
}

/// The adapter described by one `name|driver|supported` line, if the line has
/// at least three fields.
pub open spec fn gpu_of_line(l: Seq<char>) -> Option<GpuView> {
    let parts = split_seq(l, '|');
    if parts.len() >= 3 {
        Some((parts[0], parts[1], reads_true(lower_of(parts[2]))))
    } else {
        None
    }
}

/// The adapters described by the lines, in order, skipping malformed lines.
pub open spec fn gpus_of_lines(ls: Seq<Seq<char>>) -> Seq<GpuView>
    decreases ls.len(),
{
    if ls.len() == 0 {
        Seq::empty()
    } else {
        let init = gpus_of_lines(ls.drop_last());
        match gpu_of_line(ls.last()) {
            Some(g) => init.push(g),
            None => init,
        }
    }
}

/// The adapters listed in the answer of the adapter query; none when it failed.
pub fn get_gpu_list(out: &Result<String, String>) -> (r: Vec<GpuInfo>)
    ensures
        out is Err ==> r@.len() == 0,
        out matches Ok(s) ==> r@.map_values(|g: GpuInfo| g@) == gpus_of_lines(lines_seq(s@)),
{
    let mut gpus: Vec<GpuInfo> = Vec::new();
    match out {
        Ok(s) => {
            let lines = lines_of(s.as_str());
            let ghost ls = lines@.map_values(|p: Vec<char>| p@);
            let mut i: usize = 0;
            proof {
                assert(ls.subrange(0, 0) =~= Seq::<Seq<char>>::empty());
                assert(gpus@.map_values(|g: GpuInfo| g@) =~= Seq::<GpuView>::empty());
            }
            while i < lines.len()
                invariant
                    i <= lines@.len(),
                    ls == lines@.map_values(|p: Vec<char>| p@),
                    gpus@.map_values(|g: GpuInfo| g@) == gpus_of_lines(ls.subrange(0, i as int)),
                decreases lines.len() - i,
            {
                let parts = split_chars(&lines[i], '|');
                let ghost ps = parts@.map_values(|p: Vec<char>| p@);
                proof {
                    assert(ls.subrange(0, i + 1).drop_last() =~= ls.subrange(0, i as int));
                    assert(ls.subrange(0, i + 1).last() == lines@[i as int]@);
                }
                if parts.len() >= 3 {
                    let name = string_of(&parts[0]);
                    let driver = string_of(&parts[1]);
                    let flag = string_of(&parts[2]);
                    let lowered = lowercase(flag.as_str());
                    let supports = is_true_text(&lowered);
                    let ghost before = gpus@.map_values(|g: GpuInfo| g@);
                    gpus.push(GpuInfo { name, driver_version: driver, supports_partitioning: supports });
                    proof {
                        assert(ps[0] == parts@[0]@ && ps[1] == parts@[1]@ && ps[2] == parts@[2]@);
                        assert(gpus@.map_values(|g: GpuInfo| g@) =~= before.push((ps[0], ps[1], reads_true(lower_of(ps[2])))));
                    }
                }
                i = i + 1;
            }
            proof {
                assert(ls.subrange(0, i as int) =~= ls);
            }
            gpus
        },
        Err(_) => gpus,
    }
}

/// The edition is one that can host virtual machines with GPU partitioning.
pub open spec fn edition_supported(edition: Seq<char>) -> bool {
    contains_seq(edition, "Pro"@) || contains_seq(edition, "Enterprise"@) || contains_seq(
        edition,
        "Education"@,
    )
}

/// The problems that stand in the way of GPU partitioning, in a fixed order.
pub open spec fn system_issues(edition: Seq<char>, hyper_v_enabled: bool, gpus: Seq<GpuInfo>) -> Seq<
    Seq<char>,
> {
    let a: Seq<Seq<char>> = if !edition_supported(edition) {
        seq!["Windows edition must be Pro, Enterprise, or Education"@]
    } else {
        Seq::empty()
    };
    let b = if !hyper_v_enabled {
        a.push("Hyper-V is not enabled. Please enable it in Windows Features."@)
    } else {
        a
    };
    if gpus.len() == 0 {
        b.push("No GPU detected"@)
    } else if !exists|i: int| 0 <= i < gpus.len() && (#[trigger] gpus[i]).supports_partitioning {
        b.push("No GPU with partitioning support detected (NVIDIA/AMD/Intel required)"@)
    } else {
        b
    }
}

/// Lists what stands in the way of GPU partitioning on this host.
pub fn validate_system(os_edition: &str, hyper_v_enabled: bool, gpu_list: &Vec<GpuInfo>) -> (r: Vec<
    String,
>)
    ensures
        r@.map_values(|s: String| s@) == system_issues(os_edition@, hyper_v_enabled, gpu_list@),
{
    let mut issues: Vec<String> = Vec::new();
    let supported = contains_str(os_edition, "Pro") || contains_str(os_edition, "Enterprise")
        || contains_str(os_edition, "Education");
    if !supported {
        issues.push(String::from_str("Windows edition must be Pro, Enterprise, or Education"));
    }
    if !hyper_v_enabled {
        issues.push(
            String::from_str("Hyper-V is not enabled. Please enable it in Windows Features."),
        );
    }
    if gpu_list.len() == 0 {
        issues.push(String::from_str("No GPU detected"));
    } else {
        let mut any = false;
        let mut i: usize = 0;
        while i < gpu_list.len()
            invariant
                i <= gpu_list@.len(),
                any == exists|j: int| 0 <= j < i && (#[trigger] gpu_list@[j]).supports_partitioning,
            decreases gpu_list.len() - i,
        {
            if gpu_list[i].supports_partitioning {
                any = true;
            }
            i = i + 1;
        }
        if !any {
            issues.push(
                String::from_str(
                    "No GPU with partitioning support detected (NVIDIA/AMD/Intel required)",
                ),
            );
        }
    }
    proof {
        let e = os_edition@;
        let a: Seq<Seq<char>> = if !edition_supported(e) {
            seq!["Windows edition must be Pro, Enterprise, or Education"@]
        } else {
            Seq::empty()
        };
        let b = if !hyper_v_enabled {
            a.push("Hyper-V is not enabled. Please enable it in Windows Features."@)
        } else {
            a
        };
        assert(issues@.map_values(|s: String| s@) =~= system_issues(e, hyper_v_enabled, gpu_list@));
    }
    issues
}

/// The lines a probe contributes to the partitioning report: the lines of its
/// answer, or one line with its error after `err_prefix`.
pub open spec fn probe_section(out: Result<String, String>, err_prefix: Seq<char>) -> Seq<Seq<char>> {
    match out {
        Ok(s) => lines_seq(s@),
        Err(e) => seq![err_prefix + e@],
    }
}

/// The lines that hold something besides white space.
pub open spec fn non_blank(ls: Seq<Seq<char>>) -> Seq<Seq<char>>
    decreases ls.len(),
{
    if ls.len() == 0 {
        Seq::empty()
    } else if trim_seq(ls.last()).len() > 0 {
        non_blank(ls.drop_last()).push(ls.last())
    } else {
        non_blank(ls.drop_last())
    }
}

/// The lines joined by line feeds.
pub open spec fn join_lines(ls: Seq<Seq<char>>) -> Seq<char>
    decreases ls.len(),
{
    if ls.len() == 0 {
        Seq::empty()
    } else if ls.len() == 1 {
        ls[0]
    } else {
        join_lines(ls.drop_last()) + "\n"@ + ls.last()
    }
}

/// The lines of the GPU partitioning report: the partitionable adapters, the
/// hypervisor's view of them, and the machines that have a GPU partition.
pub open spec fn partitioning_report_lines(
    gpus: Result<String, String>,
    host: Result<String, String>,
    vms: Result<String, String>,
) -> Seq<Seq<char>> {
    seq!["=== Kiểm tra GPU Partitioning ==="@] + probe_section(
        gpus,
        "ERROR: Không thể chạy lệnh: "@,
    ) + seq![""@, "=== Kiểm tra Hyper-V GPU ==="@] + probe_section(host, "ERROR: "@) + seq![
        ""@,
        "=== Kiểm tra VMs với GPU ==="@,
    ] + non_blank(probe_section(vms, "ERROR: "@))
}

fn push_line(out: &mut Vec<String>, line: &str)
    ensures
        final(out)@.map_values(|s: String| s@) == old(out)@.map_values(|s: String| s@).push(line@),
{
    out.push(String::from_str(line));
    proof {
        assert(final(out)@.map_values(|s: String| s@) =~= old(out)@.map_values(|s: String| s@).push(
            line@,
        ));
    }
}

fn push_section(out: &mut Vec<String>, probe: &Result<String, String>, err_prefix: &str, skip_blank: bool)
    ensures
        final(out)@.map_values(|s: String| s@) == old(out)@.map_values(|s: String| s@) + if skip_blank {
            non_blank(probe_section(*probe, err_prefix@))
        } else {
            probe_section(*probe, err_prefix@)
        },
{
    let ghost start = out@.map_values(|s: String| s@);
    let lines: Vec<Vec<char>> = match probe {
        Ok(s) => lines_of(s.as_str()),
        Err(e) => {
            let mut l = String::from_str(err_prefix);
            l.append(e.as_str());
            let mut v: Vec<Vec<char>> = Vec::new();
            v.push(crate::text::chars_of(l.as_str()));
            proof {
                assert(v@.map_values(|p: Vec<char>| p@) =~= seq![err_prefix@ + e@]);
            }
            v
        },
    };
    let ghost ls = lines@.map_values(|p: Vec<char>| p@);
    let ghost want = if skip_blank {
        non_blank(ls)
    } else {
        ls
    };
    let mut i: usize = 0;
    proof {
        assert(ls.subrange(0, 0) =~= Seq::<Seq<char>>::empty());
        assert(start + Seq::<Seq<char>>::empty() =~= start);
    }
    while i < lines.len()
        invariant
            i <= lines@.len(),
            ls == lines@.map_values(|p: Vec<char>| p@),
            out@.map_values(|s: String| s@) == start + if skip_blank {
                non_blank(ls.subrange(0, i as int))
            } else {
                ls.subrange(0, i as int)
            },
        decreases lines.len() - i,
    {
        let ghost before = out@.map_values(|s: String| s@);
        let ghost pre = ls.subrange(0, i as int);
        let ghost next = ls.subrange(0, i + 1);
        proof {
            assert(next.drop_last() =~= pre);
            assert(next.last() == lines@[i as int]@);
        }
        let keep = if skip_blank {
            let t = crate::text::trim_chars(&lines[i]);
            t.len() > 0
        } else {
            true
        };
        if keep {
            let l = string_of(&lines[i]);
            out.push(l);
            proof {
                assert(out@.map_values(|s: String| s@) =~= before.push(lines@[i as int]@));
                assert(pre.push(lines@[i as int]@) =~= next);
            }
        }
        proof {
            if skip_blank {
                assert(out@.map_values(|s: String| s@) =~= start + non_blank(next));
            } else {
                assert(out@.map_values(|s: String| s@) =~= start + next);
            }
        }
        i = i + 1;
    }
    proof {
        assert(ls.subrange(0, i as int) =~= ls);
    }
}

/// Joins lines with line feeds.
pub fn join_with_newlines(lines: &Vec<String>) -> (r: String)
    ensures
        r@ == join_lines(lines@.map_values(|s: String| s@)),
{
    let mut r = String::new();
    let mut i: usize = 0;
    proof {
        assert(lines@.subrange(0, 0).map_values(|s: String| s@) =~= Seq::<Seq<char>>::empty());
    }
    while i < lines.len()
        invariant
            i <= lines@.len(),
            r@ == join_lines(lines@.subrange(0, i as int).map_values(|s: String| s@)),
        decreases lines.len() - i,
    {
        let ghost pre = lines@.subrange(0, i as int).map_values(|s: String| s@);
        let ghost next = lines@.subrange(0, i + 1).map_values(|s: String| s@);
        proof {
            assert(next.drop_last() =~= pre);
        }
        if i > 0 {
            r.append("\n");
        } else {
            proof {
                assert(r@ =~= Seq::<char>::empty());
            }
        }
        r.append(lines[i].as_str());
        proof {
            if i == 0 {
                assert(r@ =~= next[0]);
            }
        }
        i = i + 1;
    }
    proof {
        assert(lines@.subrange(0, i as int) =~= lines@);
    }
    r
}

/// Assembles the GPU partitioning report from the answers of its three probes.
pub fn test_gpu_partitioning_sync(
    gpus: &Result<String, String>,
    host: &Result<String, String>,
    vms: &Result<String, String>,
) -> (r: String)
    ensures
        r@ == join_lines(partitioning_report_lines(*gpus, *host, *vms)),
{
    let mut out: Vec<String> = Vec::new();
    push_line(&mut out, "=== Kiểm tra GPU Partitioning ===");
    push_section(&mut out, gpus, "ERROR: Không thể chạy lệnh: ", false);
    push_line(&mut out, "");
    push_line(&mut out, "=== Kiểm tra Hyper-V GPU ===");
    push_section(&mut out, host, "ERROR: ", false);
    push_line(&mut out, "");
    push_line(&mut out, "=== Kiểm tra VMs với GPU ===");
    push_section(&mut out, vms, "ERROR: ", true);
    proof {
        assert(out@.map_values(|s: String| s@) =~= partitioning_report_lines(*gpus, *host, *vms));
    }
    join_with_newlines(&out)
}

} // verus!
