//! The library's error type.
use vstd::prelude::*;

verus! {

/// Errors reported by the orchestration logic.
///
/// Each variant carries its detail text; `message` renders the full text
/// the way the daemon and CLI print it.
#[derive(Debug, Clone)]
pub enum ChalybsError {
    Config(String),
    Cgroup(String),
    Qemu(String),
    Vfio(String),
    Irq(String),
    Affinity(String),
    Peripheral(String),
    State(String),
    Io(String),
    Serde(String),
    Toml(String),
    Other(String),
}

pub type Result<T> = core::result::Result<T, ChalybsError>;

impl ChalybsError {
    /// The detail text carried by the error.
    pub open spec fn detail(&self) -> Seq<char> {
        match self {
            ChalybsError::Config(s) => s@,
            ChalybsError::Cgroup(s) => s@,
            ChalybsError::Qemu(s) => s@,
            ChalybsError::Vfio(s) => s@,
            ChalybsError::Irq(s) => s@,
            ChalybsError::Affinity(s) => s@,
            ChalybsError::Peripheral(s) => s@,
            ChalybsError::State(s) => s@,
            ChalybsError::Io(s) => s@,
            ChalybsError::Serde(s) => s@,
            ChalybsError::Toml(s) => s@,
            ChalybsError::Other(s) => s@,
        }
    }

    /// The prefix that names the error's kind.
    pub open spec fn prefix(&self) -> Seq<char> {
        match self {
            ChalybsError::Config(_) => "configuration error: "@,
            ChalybsError::Cgroup(_) => "cgroup/cpuset error: "@,
            ChalybsError::Qemu(_) => "QEMU error: "@,
            ChalybsError::Vfio(_) => "VFIO error: "@,
            ChalybsError::Irq(_) => "IRQ error: "@,
            ChalybsError::Affinity(_) => "Affinity error: "@,
            ChalybsError::Peripheral(_) => "Peripheral error: "@,
            ChalybsError::State(_) => "State transition error: "@,
            ChalybsError::Io(_) => "IO error: "@,
            ChalybsError::Serde(_) => "Serde error: "@,
            ChalybsError::Toml(_) => "Toml error: "@,
            ChalybsError::Other(_) => "Other: "@,
        }
    }

    /// The full rendered text: kind prefix followed by the detail.
    pub fn message(&self) -> (r: String)
        ensures
            r@ == self.prefix() + self.detail(),
    {
        let (p, d): (&str, &String) = match self {
            ChalybsError::Config(s) => ("configuration error: ", s),
            ChalybsError::Cgroup(s) => ("cgroup/cpuset error: ", s),
            ChalybsError::Qemu(s) => ("QEMU error: ", s),
            ChalybsError::Vfio(s) => ("VFIO error: ", s),
            ChalybsError::Irq(s) => ("IRQ error: ", s),
            ChalybsError::Affinity(s) => ("Affinity error: ", s),
            ChalybsError::Peripheral(s) => ("Peripheral error: ", s),
            ChalybsError::State(s) => ("State transition error: ", s),
            ChalybsError::Io(s) => ("IO error: ", s),
            ChalybsError::Serde(s) => ("Serde error: ", s),
            ChalybsError::Toml(s) => ("Toml error: ", s),
            ChalybsError::Other(s) => ("Other: ", s),
        };
        let mut r = String::from_str(p);
        r.append(d.as_str());
        r
    }

    /// A state-transition error with the given text.
    pub fn state(msg: String) -> (r: Self)
        ensures
            r == ChalybsError::State(msg),
    {
        ChalybsError::State(msg)
    }
}

} // verus!
