//! Low-level facts and accesses of the APU: its presence on the bus, the GPU's
//! debug directory, and the register aperture in PCI configuration space.
use vstd::prelude::*;

use crate::text;

verus! {

/// Function of the APU that exposes the register aperture.
pub const CFG_BDF: &'static str = "0000:00:00.0";
/// Offset of the aperture's register selector.
pub const SMN_INDEX: u64 = 0xB8;
/// Offset of the aperture's data.
pub const SMN_DATA: u64 = 0xBC;

/// The identity nodes of a device on the bus; empty where unreadable.
#[derive(Debug)]
pub struct PciIds {
    pub device: String,
    pub vendor: String,
}

/// The device is the APU, in either case of the hexadecimal digits.
pub open spec fn is_ariel(d: PciIds) -> bool {
    &&& text::upper(text::trimmed(d.device@)) == text::upper("0x13fe"@)
    &&& text::upper(text::trimmed(d.vendor@)) == text::upper("0x1002"@)
}

/// Whether the APU is on the bus.
pub fn ariel_apu_present(devices: &Vec<PciIds>) -> (r: bool)
    ensures
        r == exists|i: int| 0 <= i < devices@.len() && is_ariel(#[trigger] devices@[i]),
{
    let dev = text::uppercase("0x13fe");
    let ven = text::uppercase("0x1002");
    let mut i: usize = 0;
    while i < devices.len()
        invariant
            i <= devices@.len(),
            dev@ == text::upper("0x13fe"@),
            ven@ == text::upper("0x1002"@),
            forall|j: int| 0 <= j < i ==> !is_ariel(#[trigger] devices@[j]),
        decreases devices@.len() - i,
    {
        let d = &devices[i];
        if text::same(text::uppercase(text::trim(d.device.as_str())).as_str(), dev.as_str())
            && text::same(text::uppercase(text::trim(d.vendor.as_str())).as_str(), ven.as_str()) {
            assert(is_ariel(devices@[i as int]));
            return true;
        }
        i += 1;
    }
    false
}

/// The running kernel's release, from the text of its node.
pub fn running_kernel(node: Option<&str>) -> (r: String)
    ensures
        r@ == (match node {
            Some(t) => text::trimmed(t@),
            None => "unknown"@,
        }),
{
    match node {
        Some(t) => text::trim(t).to_owned(),
        None => "unknown".to_owned(),
    }
}

/// Which of the GPU's nodes a debug directory has.
#[derive(Clone, Copy, Debug, PartialEq, Eq, Structural)]
pub struct DebugDir {
    pub pm_info: bool,
    pub gpu_recover: bool,
    pub fence_info: bool,
}

impl DebugDir {
    /// The directory belongs to the GPU.
    pub open spec fn is_gpu(&self) -> bool {
        self.pm_info || self.gpu_recover || self.fence_info
    }
}

/// Position of the GPU's debug directory: the first with one of its nodes.
pub fn amdgpu_dbg_dir(dirs: &Vec<DebugDir>) -> (r: Option<usize>)
    ensures
        match r {
            Some(i) => i < dirs@.len() && dirs@[i as int].is_gpu() && forall|j: int|
                0 <= j < i ==> !(#[trigger] dirs@[j]).is_gpu(),
            None => forall|j: int| 0 <= j < dirs@.len() ==> !(#[trigger] dirs@[j]).is_gpu(),
        },
{
    let mut i: usize = 0;
    while i < dirs.len()
        invariant
            i <= dirs@.len(),
            forall|j: int| 0 <= j < i ==> !(#[trigger] dirs@[j]).is_gpu(),
        decreases dirs@.len() - i,
    {
        let d: DebugDir = dirs[i];
        if d.pm_info || d.gpu_recover || d.fence_info {
            return Some(i);
        }
        i += 1;
    }
    None
}

/// Why an access is refused or failed.
#[derive(Clone, Copy, Debug, PartialEq, Eq, Structural)]
pub enum HalError {
    NotRoot { euid: u32 },
    /// A transfer of fewer than four bytes.
    ShortWrite { off: u64, n: usize },
    ShortRead { off: u64, n: usize },
}

impl HalError {
    /// The message shown to the operator.
    pub open spec fn text(&self) -> Seq<char> {
        match self {
            HalError::NotRoot { euid } => "must run as root (euid 0); current euid "@ + text::dec(
                *euid as nat,
            ),
            HalError::ShortWrite { off, n } => "short PCI-config write at 0x"@ + text::hex(
                *off as nat,
            ) + " ("@ + text::dec(*n as nat) + "/4 bytes)"@,
            HalError::ShortRead { off, n } => "short PCI-config read at 0x"@ + text::hex(
                *off as nat,
            ) + " ("@ + text::dec(*n as nat) + "/4 bytes)"@,
        }
    }

    /// The message shown to the operator.
    pub fn message(&self) -> (r: String)
        ensures
            r@ == self.text(),
    {
        match self {
            HalError::NotRoot { euid } => text::join2(
                "must run as root (euid 0); current euid ",
                text::decimal(*euid as u64).as_str(),
            ),
            HalError::ShortWrite { off, n } => {
                let mut r = text::join3(
                    "short PCI-config write at 0x",
                    text::hexadecimal(*off).as_str(),
                    " (",
                );
                r.append(text::decimal(*n as u64).as_str());
                r.append("/4 bytes)");
                r
            },
            HalError::ShortRead { off, n } => {
                let mut r = text::join3(
                    "short PCI-config read at 0x",
                    text::hexadecimal(*off).as_str(),
                    " (",
                );
                r.append(text::decimal(*n as u64).as_str());
                r.append("/4 bytes)");
                r
            },
        }
    }
}

/// Refuses any user but root.
pub fn require_root(euid: u32) -> (r: Result<(), HalError>)
    ensures
        r == (if euid == 0 {
            Ok(())
        } else {
            Err(HalError::NotRoot { euid })
        }),
{
    if euid != 0 {
        Err(HalError::NotRoot { euid })
    } else {
        Ok(())
    }
}

/// One access to PCI configuration space.
#[derive(Clone, Copy, Debug, PartialEq, Eq, Structural)]
pub enum ConfigAccess {
    Write { off: u64, value: u32 },
    Read { off: u64 },
}

/// The register aperture: a selector and a data word.
#[derive(Clone, Copy, Debug)]
pub struct SmnAperture;

impl SmnAperture {
    /// The accesses that write a register: the selector, then the data.
    pub fn wreg(reg: u32, v: u32) -> (r: [ConfigAccess; 2])
        ensures
            r@ == seq![
                ConfigAccess::Write { off: 0xB8, value: reg },
                ConfigAccess::Write { off: 0xBC, value: v },
            ],
    {
        let r: [ConfigAccess; 2] = [
            ConfigAccess::Write { off: SMN_INDEX, value: reg },
            ConfigAccess::Write { off: SMN_DATA, value: v },
        ];
        assert(r@ =~= seq![
            ConfigAccess::Write { off: 0xB8, value: reg },
            ConfigAccess::Write { off: 0xBC, value: v },
        ]);
        r
    }

    /// The accesses that read a register: the selector, then the data.
    pub fn rreg(reg: u32) -> (r: [ConfigAccess; 2])
        ensures
            r@ == seq![
                ConfigAccess::Write { off: 0xB8, value: reg },
                ConfigAccess::Read { off: 0xBC },
            ],
    {
        let r: [ConfigAccess; 2] = [
            ConfigAccess::Write { off: SMN_INDEX, value: reg },
            ConfigAccess::Read { off: SMN_DATA },
        ];
        assert(r@ =~= seq![
            ConfigAccess::Write { off: 0xB8, value: reg },
            ConfigAccess::Read { off: 0xBC },
        ]);
        r
    }

    /// Judges a transfer by the bytes it moved. A short one is never passed
    /// over: a stale register would be acted on.
    pub fn transferred(access: ConfigAccess, n: usize) -> (r: Result<(), HalError>)
        ensures
            n == 4 ==> r is Ok,
            n != 4 ==> r == Err::<(), HalError>(
                match access {
                    ConfigAccess::Write { off, value } => HalError::ShortWrite { off, n },
                    ConfigAccess::Read { off } => HalError::ShortRead { off, n },
                },
            ),
    {
        if n == 4 {
            return Ok(());
        }
        match access {
            ConfigAccess::Write { off, .. } => Err(HalError::ShortWrite { off, n }),
            ConfigAccess::Read { off } => Err(HalError::ShortRead { off, n }),
        }
    }
}

// ---------------------------------------------------------------------------
// Laws

/// Any one of its nodes shows the GPU's directory, and without one it is not.
pub proof fn any_node_shows_the_gpu(d: DebugDir)
    ensures
        d.pm_info ==> d.is_gpu(),
        d.gpu_recover ==> d.is_gpu(),
        d.fence_info ==> d.is_gpu(),
        d.is_gpu() ==> d.pm_info || d.gpu_recover || d.fence_info,
{
}

/// Blanks around the identity of a device do not matter to its being the APU.
pub proof fn identity_is_trimmed(a: PciIds, b: PciIds)
    requires
        text::trimmed(a.device@) == text::trimmed(b.device@),
        text::trimmed(a.vendor@) == text::trimmed(b.vendor@),
    ensures
        is_ariel(a) == is_ariel(b),
{
}

/// A device is the APU where its nodes hold the two ids, in either case of their
/// letters, and no other device is.
pub proof fn apu_is_told_by_its_ids(d: PciIds)
    ensures
        text::trimmed(d.device@) == "0x13fe"@ && text::trimmed(d.vendor@) == "0x1002"@ ==> is_ariel(d),
        is_ariel(d) ==> text::upper(text::trimmed(d.device@)) == "0X13FE"@ && text::upper(
            text::trimmed(d.vendor@),
        ) == "0X1002"@,
{
    reveal_strlit("0x13fe");
    reveal_strlit("0X13FE");
    reveal_strlit("0x1002");
    reveal_strlit("0X1002");
    assert(text::upper("0x13fe"@) =~= "0X13FE"@);
    assert(text::upper("0x1002"@) =~= "0X1002"@);
}

} // verus!
