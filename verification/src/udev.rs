//! Udev rule bookkeeping for Linux hosts. Whether the rules file is
//! present decides whether the service must warn that probes will not be
//! accessible without privileges. The filesystem checks themselves are
//! the caller's; the rule file locations and the verdict are fixed here.

use vstd::prelude::*;

verus! {

/// The directories in which the probe access rules file may legitimately
/// live, in the order they are probed.
pub fn udev_rule_paths() -> (r: Vec<&'static str>)
    ensures
        r@.len() == 3,
        r@[0]@ == "/etc/udev/rules.d/99-zuolan-daplink.rules"@,
        r@[1]@ == "/lib/udev/rules.d/99-zuolan-daplink.rules"@,
        r@[2]@ == "/usr/lib/udev/rules.d/99-zuolan-daplink.rules"@,
{
    let mut v: Vec<&'static str> = Vec::new();
    v.push("/etc/udev/rules.d/99-zuolan-daplink.rules");
    v.push("/lib/udev/rules.d/99-zuolan-daplink.rules");
    v.push("/usr/lib/udev/rules.d/99-zuolan-daplink.rules");
    v
}

/// Whether the rules count as installed, given which of the candidate
/// paths exist: any one of them suffices.
pub fn check_udev_rules_installed(path_exists: &Vec<bool>) -> (r: bool)
    ensures
        r == exists|i: int| 0 <= i < path_exists@.len() && path_exists@[i],
{
    let mut i: usize = 0;
    while i < path_exists.len()
        invariant
            i <= path_exists@.len(),
            forall|j: int| 0 <= j < i ==> !path_exists@[j],
        decreases path_exists@.len() - i,
    {
        if path_exists[i] {
            return true;
        }
        i = i + 1;
    }
    false
}

/// What to tell the user when the rules cannot be installed automatically.
pub fn get_manual_install_instructions() -> (r: &'static str)
    ensures
        r@ == "Copy 99-zuolan-daplink.rules into /etc/udev/rules.d/, run 'udevadm control --reload-rules' and 'udevadm trigger' as root, then replug the probe."@,
{
    "Copy 99-zuolan-daplink.rules into /etc/udev/rules.d/, run 'udevadm control --reload-rules' and 'udevadm trigger' as root, then replug the probe."
}

} // verus!
