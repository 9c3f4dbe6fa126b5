//! The cpuset report for the command line.
use vstd::prelude::*;
use crate::text::{lit, trim, trim_str, string_of};

verus! {

/// What was read from one cpuset directory: the contents of `cpuset.cpus`
/// and `cpuset.mems`, each absent when the file is.
#[derive(Debug, Clone)]
pub struct CpusetFiles {
    pub cpus: Option<String>,
    pub mems: Option<String>,
}

/// A file's value: its trimmed contents, or `<empty>` when it is absent.
pub open spec fn shown(o: Option<String>) -> Seq<char> {
    match o {
        Some(s) => trim(s@),
        None => "<empty>"@,
    }
}

/// The section for one cpuset directory.
pub open spec fn section(label: Seq<char>, path: Seq<char>, d: Option<CpusetFiles>) -> Seq<char> {
    match d {
        Some(f) => label + ":\n  path: "@ + path + "\n  cpus: "@ + shown(f.cpus) + "\n  mems: "@
            + shown(f.mems) + "\n"@,
        None => label + ":\n  <cpuset "@ + path + " not present>\n"@,
    }
}

/// The report: a header naming the VM, then the VM cpuset
/// (`/sys/fs/cgroup/vfio_vm`) and the host cpuset
/// (`/sys/fs/cgroup/vfio_host`), each `None` when its directory is
/// missing.
pub open spec fn status_text(vm: Seq<char>, vm_dir: Option<CpusetFiles>, host_dir: Option<CpusetFiles>) -> Seq<char> {
    "VM: "@ + vm + "\n=== cpuset status ===\n"@ + section("vm"@, "/sys/fs/cgroup/vfio_vm"@, vm_dir)
        + section("host"@, "/sys/fs/cgroup/vfio_host"@, host_dir)
}

fn shown_exec(o: &Option<String>) -> (r: String)
    ensures
        r@ == shown(*o),
{
    match o {
        Some(s) => string_of(trim_str(s.as_str()).as_slice()),
        None => lit("<empty>"),
    }
}

fn append_section(out: &mut String, label: &str, path: &str, d: &Option<CpusetFiles>)
    ensures
        final(out)@ == old(out)@ + section(label@, path@, *d),
{
    match d {
        Some(f) => {
            out.append(label);
            out.append(":\n  path: ");
            out.append(path);
            out.append("\n  cpus: ");
            out.append(shown_exec(&f.cpus).as_str());
            out.append("\n  mems: ");
            out.append(shown_exec(&f.mems).as_str());
            out.append("\n");
        },
        None => {
            out.append(label);
            out.append(":\n  <cpuset ");
            out.append(path);
            out.append(" not present>\n");
        },
    }
}

/// The cpuset report for `vm`.
pub fn cpuset_status(vm: &str, vm_dir: &Option<CpusetFiles>, host_dir: &Option<CpusetFiles>) -> (r: String)
    ensures
        r@ == status_text(vm@, *vm_dir, *host_dir),
{
    let mut out = lit("VM: ");
    out.append(vm);
    out.append("\n=== cpuset status ===\n");
    append_section(&mut out, "vm", "/sys/fs/cgroup/vfio_vm", vm_dir);
    append_section(&mut out, "host", "/sys/fs/cgroup/vfio_host", host_dir);
    out
}

} // verus!
