//! The BC-250 kernel-patch series: what each patch does and what proves, at
//! run time, that it is live.
//!
//! The series is applied in order to the pinned kernel source. Patches that
//! ship beside it without being applied are listed apart.
use vstd::prelude::*;

verus! {

/// How to prove that a patch is live on the booted kernel.
#[derive(Clone, Copy, Debug)]
pub enum Tell {
    /// A node of this name in the GPU's debug directory.
    Debugfs(&'static str),
    /// A parameter of this name of the GPU module.
    ModParam(&'static str),
    /// The clock table offers at least this many MHz.
    SclkMax(u32),
    /// At least this many compute units are active.
    CuCount(u32),
    /// No trace of its own: inferred from the others.
    Bundled,
}

/// One patch.
#[derive(Clone, Copy, Debug)]
pub struct Patch {
    /// Ordinal.
    pub id: &'static str,
    /// Name of the patch file.
    pub file: &'static str,
    /// One-line purpose.
    pub title: &'static str,
    /// What it does and why it matters.
    pub desc: &'static str,
    /// Kernel sources that it touches.
    pub touches: &'static str,
    pub tell: Tell,
}

pub const FILE_01: &'static str = "01-declare-20-smu-message-enums.patch";
pub const TITLE_01: &'static str = "Declare 20 new SMU_MSG_* enum values";
pub const DESC_01: &'static str = "Adds 20 new SMU_MSG_* names (QueryGfxclk, ForceGfxFreq, StartTelemetryReporting, the CAC weight operations, and friends) to the common SMU type header so the rest of the series can reference them. Header-only — no behavior change by itself; every other cyan_skillfish patch builds on these names.";
pub const TOUCHES_01: &'static str = "smu_types.h";

pub const FILE_02: &'static str = "02-map-23-pmfw-messages-raise-sclk-max.patch";
pub const TITLE_02: &'static str = "Map 23 msgids (11->34); raise CYAN_SKILLFISH_SCLK_MAX 2000->2500";
pub const DESC_02: &'static str = "Grows the cyan_skillfish message map from 11 to 34 entries, wiring the new enums to their real PMFW msgids — clock force/query, telemetry start/stop, CAC weights, cclk soft limits. Also raises CYAN_SKILLFISH_SCLK_MAX from 2000 to 2500 MHz so the driver accepts overclocked GFX targets instead of rejecting them as out of range.";
pub const TOUCHES_02: &'static str = "cyan_skillfish_ppt.c";

pub const FILE_03: &'static str = "03-gfx-clock-force-and-dpm-levels.patch";
pub const TITLE_03: &'static str = "set_soft_freq_limited_range + set_performance_level (ForceGfxFreq)";
pub const DESC_03: &'static str = "Implements the two standard clock-control hooks the stock driver leaves empty, backed by ForceGfxFreq (0x39) / UnForceGfxFreq (0x3A): min == max locks the GFX clock at that frequency, anything else releases it back to PMFW DPM. This is what makes power_dpm_force_performance_level and pp_dpm_sclk writes actually do something on the BC-250.";
pub const TOUCHES_03: &'static str = "cyan_skillfish_ppt.c";

pub const FILE_04: &'static str = "04-start-pmfw-telemetry-reporting.patch";
pub const TITLE_04: &'static str = "StartTelemetryReporting(0x1B) so SmuMetrics_t populates";
pub const DESC_04: &'static str = "Sends StartTelemetryReporting (0x1B) with a 1 ms sample interval at SMU init — the stock driver never starts it, so the SmuMetrics_t Current/Average fields (including temperature) stay stale zeros. Best-effort: a failure is logged and non-fatal.";
pub const TOUCHES_04: &'static str = "cyan_skillfish_ppt.c";

pub const FILE_05: &'static str = "05-raceless-direct-gfxclk-query.patch";
pub const TITLE_05: &'static str = "GFXCLK sensor reads direct QueryGfxclk (metrics path races)";
pub const DESC_05: &'static str = "The stock GFXCLK sensor reads through the SmuMetrics_t table (TransferTableSmu2Dram), which has empirically raced amdgpu's own SMU traffic during compute and returned garbage. This routes the read to a direct QueryGfxclk mailbox message, serialized under msg_ctl.lock, so live clock readings are trustworthy.";
pub const TOUCHES_05: &'static str = "cyan_skillfish_ppt.c";

pub const FILE_06: &'static str = "06-read-cac-weight-baselines.patch";
pub const TITLE_06: &'static str = "CAC weight read helper; logs GFX[0]/L3[0] baselines";
pub const DESC_06: &'static str = "Adds a readback helper for the PMFW CAC (power-accounting) weight tables via GfxCacWeightOperation (0x2F) / L3CacWeightOperation (0x30) and logs the slot-0 baselines once at SMU init (GFX[0]=0x17 Sony default, L3[0]=0x00). Smoke-tests the CAC msgid path; the dependency of the read-only CAC debugfs nodes in patch 07.";
pub const TOUCHES_06: &'static str = "cyan_skillfish_ppt.c";

pub const FILE_07: &'static str = "07-cac-weight-and-sendraw-debugfs.patch";
pub const TITLE_07: &'static str = "Read-only *_cac_weight debugfs + smu_send_raw foundation";
pub const DESC_07: &'static str = "Adds two read-only debugfs nodes that dump the full CAC weight tables (64 GFX / 80 L3 slots, one per line) and hooks the send-raw debugfs creation into amdgpu's SMU init. Writes are deliberately not implemented — the PMFW write encoding is unverified on 88.6.0; encodings get validated through smu_send_raw first.";
pub const TOUCHES_07: &'static str = "cyan_skillfish_ppt.c, amdgpu_smu.c";

pub const FILE_08: &'static str = "08-smu-cmn-send-raw-debugfs-definitions.patch";
pub const TITLE_08: &'static str = "smu_cmn_send_raw definitions + amdgpu_smu_send_raw node";
pub const DESC_08: &'static str = "Supplies smu_cmn_send_raw_smc_msg and the amdgpu_smu_send_raw debugfs node that patch 07 declares but does not define (the series fails to link without it). Raw sends take smu->msg_ctl.lock, so they serialize with amdgpu's own polling and cannot wedge the mailbox — the race-free foundation aputune's GPU actuation rides on.";
pub const TOUCHES_08: &'static str = "smu_cmn.h, amdgpu_smu.c";

pub const FILE_09: &'static str = "09-cpu-cclk-soft-limits-debugfs.patch";
pub const TITLE_09: &'static str = "cclk_soft_min/max debugfs via SetSoftMin/MaxCclk";
pub const DESC_09: &'static str = "Adds cclk_soft_min/max debugfs nodes that send SetSoftMinCclk (0x35) / SetSoftMaxCclk (0x36) with the written MHz value, giving root a CPU clock floor/ceiling knob. Bounded to 0..5000 MHz; reads return the last-written value (PMFW has no query counterpart).";
pub const TOUCHES_09: &'static str = "cyan_skillfish_ppt.c";

pub const FILE_10: &'static str = "10-print-full-32bit-cac-value.patch";
pub const TITLE_10: &'static str = "CAC print widened 0x%04x -> 0x%08x";
pub const DESC_10: &'static str = "Widens the CAC debugfs print from 16 to 32 bits. PMFW returns meaningful state in the high bits (e.g. GFX slot 23 reads 0x000701xx) that the old 0xffff mask silently discarded.";
pub const TOUCHES_10: &'static str = "cyan_skillfish_ppt.c";

pub const FILE_11: &'static str = "11-full-telemetry-dump-debugfs.patch";
pub const TITLE_11: &'static str = "cyan_skillfish_telemetry node (clocks/WGP/pstates/voltages)";
pub const DESC_11: &'static str = "Adds a read-only cyan_skillfish_telemetry debugfs node: one read fans out over the Query* msgids (GfxClk, GfxVid, VddcrSocClock, DF and core pstates, enabled SMU features, PMFW version) as a one-shot chip-state snapshot for diagnostics. Every read is a fresh mailbox query under msg_ctl.lock, race-free even during compute.";
pub const TOUCHES_11: &'static str = "cyan_skillfish_ppt.c";

pub const FILE_13: &'static str = "13-gfxoff-disable-gfx1013.patch";
pub const TITLE_13: &'static str = "GFXOFF disabled for gfx1013 (Cyan Skillfish) — Layer 1 stability";
pub const DESC_13: &'static str = "Disables GFXOFF power-saving state for IP 10.1.3 (BC-250/gfx1013). The GPU cannot reliably wake from GFXOFF, and since the BC-250's internal PCIe fabric lacks completion timeout, any MMIO read to a sleeping GPU hangs the CPU indefinitely. Runs early in hw_init, before any GFXOFF transition is attempted. First of the three-layer v3 protection system.";
pub const TOUCHES_13: &'static str = "gfx_v10_0.c";

pub const FILE_14: &'static str = "14-gmc-kiq-bypass-dead-gpu.patch";
pub const TITLE_14: &'static str = "KIQ bypass + dead-GPU detection in gmc_v10_0.c — Layer 2a";
pub const DESC_14: &'static str = "Five sub-patches hardening the gfx10.x TLB flush: (a) gfx10.1.x jumps to direct MMIO via goto use_mmio, skipping the KIQ ring; (b) pre-spinlock 0xFFFFFFFF health check bails early if GPU is unreachable; (c) semaphore acquire loop detects dead GPU; (d) ACK-wait loop detects dead GPU and releases semaphore; (e) disables KIQ-based PASID flush in hw_init for gfx10.1.x. Generation-specific counterpart to patch 15.";
pub const TOUCHES_14: &'static str = "gmc_v10_0.c";

pub const FILE_15: &'static str = "15-amdgpu-gmc-kiq-bypass.patch";
pub const TITLE_15: &'static str = "KIQ bypass + dead-GPU detection in amdgpu_gmc.c — Layer 2b";
pub const DESC_15: &'static str = "Two sub-patches hardening the centralized GMC: (a) in flush_gpu_tlb_pasid, gfx10.1.x bypasses the KIQ ring and calls the ASIC-specific flush directly via MMIO; (b) in fw_reg_write_reg_wait, gfx10.1.x short-circuits the entire KIQ path with a direct MMIO write + polling loop, including pre-write health check and dead-GPU detection. Together with patch 14, eliminates the BC-250 KIQ hang.";
pub const TOUCHES_15: &'static str = "amdgpu_gmc.c";

pub const FILE_16: &'static str = "16-cu-unlock-cc-spi-safe-no-rlc.patch";
pub const TITLE_16: &'static str = "BC-250 40 CU unlock — CC+SPI only, NO RLC_PG (safe for ROCm/HSA)";
pub const DESC_16: &'static str = "Re-enables all 40 CUs using CC_GC_SHADER_ARRAY_CONFIG=0 and SPI_PG_ENABLE_STATIC_WGP_MASK=0x1f per shader array. RLC_PG_ALWAYS_ON_WGP_MASK is deliberately NOT written: doing so while RLC firmware is running hangs the RLC on uninitialized WGP handshake registers, causing a system hang on first rocBLAS/HSA launch. BC-250 already has global PG off, making the RLC write redundant. Safe for both Vulkan/RADV and ROCm/HSA. Controlled via amdgpu.bc250_cc_write_mode=3. Supersedes the excluded patch 12, which also writes RLC_PG and is Vulkan-only.";
pub const TOUCHES_16: &'static str = "gfx_v10_0.c";

pub const FILE_17: &'static str = "17-bc250-gfx1013-fault-probe.patch";
pub const TITLE_17: &'static str = "gfx1013 instruction-fetch fault probe (diagnostic, report-only)";
pub const DESC_17: &'static str = "Diagnostic for the open multi-phase compute defect: the second heavy GPU phase dies on an SQC (inst) GPUVM fault whose address is the right one with bit 47 wrongly set (0x7f.. read back as 0xff..). Logs the raw interrupt vector and the bit-47-cleared candidate for gfx1013 so the candidate can be checked against the faulting process's GPU VA map. Changes no control flow and fixes nothing — it exists to identify the root cause. Set amdgpu.bc250_fault_probe=0 to silence it.";
pub const TOUCHES_17: &'static str = "gmc_v10_0.c";

pub const FILE_18: &'static str = "18-ttm-guard-null-pages-on-unpopulate.patch";
pub const TITLE_18: &'static str = "Guard NULL ttm->pages[] on unpopulate — survive compute faults";
pub const DESC_18: &'static str = "amdgpu_ttm_tt_unpopulate walks ttm->pages[] and writes pages[i]->mapping without a NULL check, so a buffer left partially populated by an aborted GPU command panics the kernel on cleanup (CR2=0x18). On the BC-250 that turned every compute fault into a dead blade. Containment, not a fix: the faulting process still dies, but the machine survives long enough to read what patch 17 logged. Upstream bug, not distro-specific. By Gabriel Duarte Guerra.";
pub const TOUCHES_18: &'static str = "amdgpu_ttm.c";

pub const FILE_19: &'static str = "19-bc250-kfd-skip-sdma0.patch";
pub const TITLE_19: &'static str = "BC-250 SDMA0 skip — restrict user queues to SDMA1";
pub const DESC_19: &'static str = "SDMA0 loses its completion interrupt at every boot (Fence fallback timer expired on ring sdma0 seen twice). User queues landing on engine 0 spin forever (SDMA=1) or corrupt H2D copies (SDMA=0). This patch clears the even-numbered SDMA queue bits so user queues only use engine 1, leaving engine 0 to the kernel ring. Controlled by amdgpu.bc250_skip_sdma0=1.";
pub const TOUCHES_19: &'static str = "kfd_device_queue_manager.c";

pub const FILE_20: &'static str = "20-amdgpu-ttm-populate-null-guard.patch";
pub const TITLE_20: &'static str = "READ_ONCE NULL guard on the TTM *populate* path";
pub const DESC_20: &'static str = "Completes patch 18 on the other half of the TTM lifecycle: amdgpu_ttm_tt_populate dereferences ttm->pages[i]->mapping without a NULL check. A BO whose page array has holes (partial population after an aborted GPU command) dies with a kernel panic instead of an error. Guard each entry with READ_ONCE + return -ENOMEM. This is the exact form deployed in the build2 tree on blade 15 (snap-8fe794e8).";
pub const TOUCHES_20: &'static str = "amdgpu_ttm.c";

pub const FILE_22: &'static str = "22-amdgpu-ttm-fno-lto.patch";
pub const TITLE_22: &'static str = "Disable ThinLTO for amdgpu_ttm.o (defeats NULL guard elision)";
pub const DESC_22: &'static str = "ThinLTO can prove ttm->pages[i] is never NULL across the call graph and elide the NULL guards from patches 18 and 20, bringing back the CR2=0x18 kernel panic. Build amdgpu_ttm.o with -fno-lto so the guards survive. Note: the deployed build2 tree does not carry this flag — listed here because the guards need it to survive a ThinLTO build.";
pub const TOUCHES_22: &'static str = "Makefile";

pub const FILE_23: &'static str = "23-gb-addr-config-num-se.patch";
pub const TITLE_23: &'static str = "Fix GB_ADDR_CONFIG NUM_SHADER_ENGINES 0→2 (BC-250 community)";
pub const DESC_23: &'static str = "The stock mmGB_ADDR_CONFIG=0x00000044 sets NUM_SHADER_ENGINES=0. The BC-250 community reports 0x00100044 (bit 20→NUM_SE=2) as required for ROCm. GB_ADDR_CONFIG controls pipe interleave and shader-engine address swizzle; a wrong SE count causes distinct GPU addresses to collide — the measured aliasing signature. Credit: BC-250 community, documented by GabriWar.";
pub const TOUCHES_23: &'static str = "gfx_v10_0.c";

pub const FILE_24: &'static str = "24-gmc-v10-flush-all-vmids.patch";
pub const TITLE_24: &'static str = "Flush all mapped VMIDs on BC-250 — direct MMIO path, no KIQ";
pub const DESC_24: &'static str = "The PASID-to-VMID query in gmc_v10_0_flush_gpu_tlb_pasid() races KFD teardown and the INVALIDATE_TLBS packet wedges KIQ on this board. Instead, invalidate every currently mapped process VMID through the direct register path on every TLB invalidation, and keep the BC-250 off the KIQ branch in gmc_v10_0_flush_gpu_tlb(). Deployed form on snap-a0af1eeb and snap-8fe794e8: logs \"BC-250: %d VMID(s) flushed\". By Gabriel Duarte Guerra.";
pub const TOUCHES_24: &'static str = "gmc_v10_0.c";

pub const FILE_25: &'static str = "25-bc250-flush-tlb-by-runlist.patch";
pub const TITLE_25: &'static str = "Flush the compute TLB by rebuilding the runlist (fixes aliasing)";
pub const DESC_25: &'static str = "The compute TLB on gfx1013 is never invalidated: the PASID scan finds zero VMIDs (20/20) because mmATC_VMID*_PASID_MAPPING is never written under HWS, and forced MMIO flushes wedge the GPU. Rebuilding the runlist on unmap makes the firmware invalidate for real: 36 counterbalanced runs go from 13/18 dirty to 0/18 dirty (Fisher p=3.7e-06), verified active via ftrace execute_queues_cpsch counts. This is the patch that made PyTorch work on the BC-250 — deployed as snap-8fe794e8 on blade 15 with amdgpu.bc250_flush_by_runlist=1. By Gabriel Duarte Guerra.";
pub const TOUCHES_25: &'static str = "kfd_device_queue_manager.c, kfd_chardev.c, kfd_device_queue_manager.h";

pub const FILE_28: &'static str = "28-bc250-8core-telemetry.patch";
pub const TITLE_28: &'static str = "8-core hybrid SMU metrics layout (fixes GPU clock reporting)";
pub const DESC_28: &'static str = "After the 8-core CPU unlock the firmware redistributes the per-core arrays inside the fixed 116-byte metrics table and GfxclkFrequency loses its slot (offset 0x44 is now C0Residency[6]) — pp_dpm_sclk, OD_SCLK, gpu_metrics and hwmon all report garbage. Auto-detects the 8-core topology (or amdgpu.cs_eight_core_map=1 to force) and reinterprets the table with the empirically mapped hybrid layout, querying gfxclk direct from the SMU (QueryGfxclk, serialized under msg_ctl.lock) with a table fallback. Safe on 6-core blades: auto-detect keeps the stock layout. Ported from GabriWar's 0001-bc250-8core-telemetry (core-count helper by FilippoR).";
pub const TOUCHES_28: &'static str = "cyan_skillfish_ppt.c, smu11_driver_if_cyan_skillfish.h";

pub const FILE_12: &'static str = "12-unlock-all-40-compute-units.patch";
pub const TITLE_12: &'static str = "Vulkan-only 40-CU unlock (Studebaker)";
pub const DESC_12: &'static str = "The original 40-CU unlock that also writes RLC_PG_ALWAYS_ON_WGP_MASK. Safe for Vulkan/RADV; hangs ROCm/HSA on the first KFD queue, which is why patch 16 (no RLC write) is the applied one. Kept on disk for Vulkan-only setups. Note: its tell is shared with patch 16, so the TUI cannot tell the two apart on a live kernel.";
pub const TOUCHES_12: &'static str = "gfx_v10_0.c";

pub const FILE_21: &'static str = "21-amdgpu-gmc-flush-pasid-kiq.patch";
pub const TITLE_21: &'static str = "KIQ PASID-flush disable (neoney, verified by GabriWar)";
pub const DESC_21: &'static str = "Sets flush_pasid_uses_kiq = false for gfx1013 so PASID TLB flushes go through direct MMIO instead of the KIQ INVALIDATE_TLBS packet that wedges this board. Superseded in the applied series by patch 14(e), which implements the same change — kept on disk for attribution and as a standalone reference.";
pub const TOUCHES_21: &'static str = "gmc_v10_0.c";

pub const FILE_26: &'static str = "26-bc250-sdma-firmware-override.patch";
pub const TITLE_26: &'static str = "SDMA firmware override (navi10/navi12 blob instead of cyan)";
pub const DESC_26: &'static str = "The cyan_skillfish2 SDMA firmware never drives the user queues (GabriWar docs/28+29: 0 bytes copied, signal never drops; any other SDMA 5.0 blob copies 4 MiB in 0.04 s with correct data). This is the exit strategy for patch 19: validate with HSA_ENABLE_SDMA=1 round trips, then retire bc250_skip_sdma0. Gated by amdgpu.bc250_sdma_fw=<base>; empty = stock cyan blob.";
pub const TOUCHES_26: &'static str = "amdgpu_sdma.c";

pub const FILE_27: &'static str = "27-bc250-early-sdma-trap.patch";
pub const TITLE_27: &'static str = "Write SDMA TRAP_ENABLE during gfx_resume";
pub const DESC_27: &'static str = "TRAP_ENABLE is normally written only after amdgpu_device_ip_init() returns in full, so early SDMA0 fence waits always hit the 500 ms fallback timer — the two 'Fence fallback timer expired on ring sdma0' boot lines. Writing the bit in gfx_resume removes them; a readback log proves the write landed (GabriWar docs/28). Ship together with patch 26.";
pub const TOUCHES_27: &'static str = "sdma_v5_0.c";

/// Member `i` of the series, in apply order.
pub open spec fn series_entry(i: int) -> Patch {
    if i == 0 {
        Patch { id: "01", file: FILE_01, title: TITLE_01, desc: DESC_01, touches: TOUCHES_01, tell: Tell::Bundled }
    } else if i == 1 {
        Patch { id: "02", file: FILE_02, title: TITLE_02, desc: DESC_02, touches: TOUCHES_02, tell: Tell::SclkMax(2500) }
    } else if i == 2 {
        Patch { id: "03", file: FILE_03, title: TITLE_03, desc: DESC_03, touches: TOUCHES_03, tell: Tell::Bundled }
    } else if i == 3 {
        Patch { id: "04", file: FILE_04, title: TITLE_04, desc: DESC_04, touches: TOUCHES_04, tell: Tell::Bundled }
    } else if i == 4 {
        Patch { id: "05", file: FILE_05, title: TITLE_05, desc: DESC_05, touches: TOUCHES_05, tell: Tell::Bundled }
    } else if i == 5 {
        Patch { id: "06", file: FILE_06, title: TITLE_06, desc: DESC_06, touches: TOUCHES_06, tell: Tell::Bundled }
    } else if i == 6 {
        Patch { id: "07", file: FILE_07, title: TITLE_07, desc: DESC_07, touches: TOUCHES_07, tell: Tell::Debugfs("cyan_skillfish_gfx_cac_weight") }
    } else if i == 7 {
        Patch { id: "08", file: FILE_08, title: TITLE_08, desc: DESC_08, touches: TOUCHES_08, tell: Tell::Debugfs("amdgpu_smu_send_raw") }
    } else if i == 8 {
        Patch { id: "09", file: FILE_09, title: TITLE_09, desc: DESC_09, touches: TOUCHES_09, tell: Tell::Debugfs("cyan_skillfish_cclk_soft_min") }
    } else if i == 9 {
        Patch { id: "10", file: FILE_10, title: TITLE_10, desc: DESC_10, touches: TOUCHES_10, tell: Tell::Bundled }
    } else if i == 10 {
        Patch { id: "11", file: FILE_11, title: TITLE_11, desc: DESC_11, touches: TOUCHES_11, tell: Tell::Debugfs("cyan_skillfish_telemetry") }
    } else if i == 11 {
        Patch { id: "13", file: FILE_13, title: TITLE_13, desc: DESC_13, touches: TOUCHES_13, tell: Tell::Bundled }
    } else if i == 12 {
        Patch { id: "14", file: FILE_14, title: TITLE_14, desc: DESC_14, touches: TOUCHES_14, tell: Tell::Bundled }
    } else if i == 13 {
        Patch { id: "15", file: FILE_15, title: TITLE_15, desc: DESC_15, touches: TOUCHES_15, tell: Tell::Bundled }
    } else if i == 14 {
        Patch { id: "16", file: FILE_16, title: TITLE_16, desc: DESC_16, touches: TOUCHES_16, tell: Tell::ModParam("bc250_cc_write_mode") }
    } else if i == 15 {
        Patch { id: "17", file: FILE_17, title: TITLE_17, desc: DESC_17, touches: TOUCHES_17, tell: Tell::ModParam("bc250_fault_probe") }
    } else if i == 16 {
        Patch { id: "18", file: FILE_18, title: TITLE_18, desc: DESC_18, touches: TOUCHES_18, tell: Tell::Bundled }
    } else if i == 17 {
        Patch { id: "19", file: FILE_19, title: TITLE_19, desc: DESC_19, touches: TOUCHES_19, tell: Tell::ModParam("bc250_skip_sdma0") }
    } else if i == 18 {
        Patch { id: "20", file: FILE_20, title: TITLE_20, desc: DESC_20, touches: TOUCHES_20, tell: Tell::Bundled }
    } else if i == 19 {
        Patch { id: "22", file: FILE_22, title: TITLE_22, desc: DESC_22, touches: TOUCHES_22, tell: Tell::Bundled }
    } else if i == 20 {
        Patch { id: "23", file: FILE_23, title: TITLE_23, desc: DESC_23, touches: TOUCHES_23, tell: Tell::Bundled }
    } else if i == 21 {
        Patch { id: "24", file: FILE_24, title: TITLE_24, desc: DESC_24, touches: TOUCHES_24, tell: Tell::Bundled }
    } else if i == 22 {
        Patch { id: "25", file: FILE_25, title: TITLE_25, desc: DESC_25, touches: TOUCHES_25, tell: Tell::ModParam("bc250_flush_by_runlist") }
    } else {
        Patch { id: "28", file: FILE_28, title: TITLE_28, desc: DESC_28, touches: TOUCHES_28, tell: Tell::ModParam("cs_eight_core_map") }
    }
}

/// Member `i` of the patches that ship without being applied.
pub open spec fn shelf_entry(i: int) -> Patch {
    if i == 0 {
        Patch { id: "12", file: FILE_12, title: TITLE_12, desc: DESC_12, touches: TOUCHES_12, tell: Tell::ModParam("bc250_cc_write_mode") }
    } else if i == 1 {
        Patch { id: "21", file: FILE_21, title: TITLE_21, desc: DESC_21, touches: TOUCHES_21, tell: Tell::Bundled }
    } else if i == 2 {
        Patch { id: "26", file: FILE_26, title: TITLE_26, desc: DESC_26, touches: TOUCHES_26, tell: Tell::ModParam("bc250_sdma_fw") }
    } else {
        Patch { id: "27", file: FILE_27, title: TITLE_27, desc: DESC_27, touches: TOUCHES_27, tell: Tell::ModParam("bc250_early_sdma_trap") }
    }
}

/// The applied series, in order.
pub fn series() -> (r: Vec<Patch>)
    ensures
        r@ == Seq::new(24, |i: int| series_entry(i)),
{
    let mut r: Vec<Patch> = Vec::new();
    r.push(Patch { id: "01", file: FILE_01, title: TITLE_01, desc: DESC_01, touches: TOUCHES_01, tell: Tell::Bundled });
    r.push(Patch { id: "02", file: FILE_02, title: TITLE_02, desc: DESC_02, touches: TOUCHES_02, tell: Tell::SclkMax(2500) });
    r.push(Patch { id: "03", file: FILE_03, title: TITLE_03, desc: DESC_03, touches: TOUCHES_03, tell: Tell::Bundled });
    r.push(Patch { id: "04", file: FILE_04, title: TITLE_04, desc: DESC_04, touches: TOUCHES_04, tell: Tell::Bundled });
    r.push(Patch { id: "05", file: FILE_05, title: TITLE_05, desc: DESC_05, touches: TOUCHES_05, tell: Tell::Bundled });
    r.push(Patch { id: "06", file: FILE_06, title: TITLE_06, desc: DESC_06, touches: TOUCHES_06, tell: Tell::Bundled });
    r.push(Patch { id: "07", file: FILE_07, title: TITLE_07, desc: DESC_07, touches: TOUCHES_07, tell: Tell::Debugfs("cyan_skillfish_gfx_cac_weight") });
    r.push(Patch { id: "08", file: FILE_08, title: TITLE_08, desc: DESC_08, touches: TOUCHES_08, tell: Tell::Debugfs("amdgpu_smu_send_raw") });
    r.push(Patch { id: "09", file: FILE_09, title: TITLE_09, desc: DESC_09, touches: TOUCHES_09, tell: Tell::Debugfs("cyan_skillfish_cclk_soft_min") });
    r.push(Patch { id: "10", file: FILE_10, title: TITLE_10, desc: DESC_10, touches: TOUCHES_10, tell: Tell::Bundled });
    r.push(Patch { id: "11", file: FILE_11, title: TITLE_11, desc: DESC_11, touches: TOUCHES_11, tell: Tell::Debugfs("cyan_skillfish_telemetry") });
    r.push(Patch { id: "13", file: FILE_13, title: TITLE_13, desc: DESC_13, touches: TOUCHES_13, tell: Tell::Bundled });
    r.push(Patch { id: "14", file: FILE_14, title: TITLE_14, desc: DESC_14, touches: TOUCHES_14, tell: Tell::Bundled });
    r.push(Patch { id: "15", file: FILE_15, title: TITLE_15, desc: DESC_15, touches: TOUCHES_15, tell: Tell::Bundled });
    r.push(Patch { id: "16", file: FILE_16, title: TITLE_16, desc: DESC_16, touches: TOUCHES_16, tell: Tell::ModParam("bc250_cc_write_mode") });
    r.push(Patch { id: "17", file: FILE_17, title: TITLE_17, desc: DESC_17, touches: TOUCHES_17, tell: Tell::ModParam("bc250_fault_probe") });
    r.push(Patch { id: "18", file: FILE_18, title: TITLE_18, desc: DESC_18, touches: TOUCHES_18, tell: Tell::Bundled });
    r.push(Patch { id: "19", file: FILE_19, title: TITLE_19, desc: DESC_19, touches: TOUCHES_19, tell: Tell::ModParam("bc250_skip_sdma0") });
    r.push(Patch { id: "20", file: FILE_20, title: TITLE_20, desc: DESC_20, touches: TOUCHES_20, tell: Tell::Bundled });
    r.push(Patch { id: "22", file: FILE_22, title: TITLE_22, desc: DESC_22, touches: TOUCHES_22, tell: Tell::Bundled });
    r.push(Patch { id: "23", file: FILE_23, title: TITLE_23, desc: DESC_23, touches: TOUCHES_23, tell: Tell::Bundled });
    r.push(Patch { id: "24", file: FILE_24, title: TITLE_24, desc: DESC_24, touches: TOUCHES_24, tell: Tell::Bundled });
    r.push(Patch { id: "25", file: FILE_25, title: TITLE_25, desc: DESC_25, touches: TOUCHES_25, tell: Tell::ModParam("bc250_flush_by_runlist") });
    r.push(Patch { id: "28", file: FILE_28, title: TITLE_28, desc: DESC_28, touches: TOUCHES_28, tell: Tell::ModParam("cs_eight_core_map") });
    assert(r@ =~= Seq::new(24, |i: int| series_entry(i)));
    r
}

/// The patches that ship without being applied.
pub fn on_disk() -> (r: Vec<Patch>)
    ensures
        r@ == Seq::new(4, |i: int| shelf_entry(i)),
{
    let mut r: Vec<Patch> = Vec::new();
    r.push(Patch { id: "12", file: FILE_12, title: TITLE_12, desc: DESC_12, touches: TOUCHES_12, tell: Tell::ModParam("bc250_cc_write_mode") });
    r.push(Patch { id: "21", file: FILE_21, title: TITLE_21, desc: DESC_21, touches: TOUCHES_21, tell: Tell::Bundled });
    r.push(Patch { id: "26", file: FILE_26, title: TITLE_26, desc: DESC_26, touches: TOUCHES_26, tell: Tell::ModParam("bc250_sdma_fw") });
    r.push(Patch { id: "27", file: FILE_27, title: TITLE_27, desc: DESC_27, touches: TOUCHES_27, tell: Tell::ModParam("bc250_early_sdma_trap") });
    assert(r@ =~= Seq::new(4, |i: int| shelf_entry(i)));
    r
}

/// Number of patches in the applied series.
pub fn count() -> (r: usize)
    ensures
        r == 24,
{
    24
}

/// A member whose absence is expected on some kernels: the diagnostic probe.
pub open spec fn is_optional(id: Seq<char>) -> bool {
    id == "17"@
}

/// Whether a member's absence is expected on some kernels.
pub fn optional(id: &str) -> (r: bool)
    ensures
        r == is_optional(id@),
{
    crate::text::same(id, "17")
}

// ---------------------------------------------------------------------------
// Laws

/// Two characters as a number.
pub open spec fn ordinal(id: Seq<char>) -> int {
    10 * (id[0] as int - 48) + (id[1] as int - 48)
}

/// The members of the series stand in the order of their ordinals, each once, and
/// the name of a member's file begins with its ordinal.
#[verifier::rlimit(60)]
pub proof fn series_is_in_order(i: int)
    requires
        0 <= i < 24,
    ensures
        series_entry(i).id@.len() == 2,
        i < 23 ==> ordinal(series_entry(i).id@) < ordinal(series_entry(i + 1).id@),
        series_entry(i).file@.len() > 2,
        series_entry(i).file@[0] == series_entry(i).id@[0],
        series_entry(i).file@[1] == series_entry(i).id@[1],
        1 <= ordinal(series_entry(i).id@) <= 28,
{
    reveal_strlit("01");
    reveal_strlit("01-declare-20-smu-message-enums.patch");
    reveal_strlit("02");
    reveal_strlit("02-map-23-pmfw-messages-raise-sclk-max.patch");
    reveal_strlit("03");
    reveal_strlit("03-gfx-clock-force-and-dpm-levels.patch");
    reveal_strlit("04");
    reveal_strlit("04-start-pmfw-telemetry-reporting.patch");
    reveal_strlit("05");
    reveal_strlit("05-raceless-direct-gfxclk-query.patch");
    reveal_strlit("06");
    reveal_strlit("06-read-cac-weight-baselines.patch");
    reveal_strlit("07");
    reveal_strlit("07-cac-weight-and-sendraw-debugfs.patch");
    reveal_strlit("08");
    reveal_strlit("08-smu-cmn-send-raw-debugfs-definitions.patch");
    reveal_strlit("09");
    reveal_strlit("09-cpu-cclk-soft-limits-debugfs.patch");
    reveal_strlit("10");
    reveal_strlit("10-print-full-32bit-cac-value.patch");
    reveal_strlit("11");
    reveal_strlit("11-full-telemetry-dump-debugfs.patch");
    reveal_strlit("13");
    reveal_strlit("13-gfxoff-disable-gfx1013.patch");
    reveal_strlit("14");
    reveal_strlit("14-gmc-kiq-bypass-dead-gpu.patch");
    reveal_strlit("15");
    reveal_strlit("15-amdgpu-gmc-kiq-bypass.patch");
    reveal_strlit("16");
    reveal_strlit("16-cu-unlock-cc-spi-safe-no-rlc.patch");
    reveal_strlit("17");
    reveal_strlit("17-bc250-gfx1013-fault-probe.patch");
    reveal_strlit("18");
    reveal_strlit("18-ttm-guard-null-pages-on-unpopulate.patch");
    reveal_strlit("19");
    reveal_strlit("19-bc250-kfd-skip-sdma0.patch");
    reveal_strlit("20");
    reveal_strlit("20-amdgpu-ttm-populate-null-guard.patch");
    reveal_strlit("22");
    reveal_strlit("22-amdgpu-ttm-fno-lto.patch");
    reveal_strlit("23");
    reveal_strlit("23-gb-addr-config-num-se.patch");
    reveal_strlit("24");
    reveal_strlit("24-gmc-v10-flush-all-vmids.patch");
    reveal_strlit("25");
    reveal_strlit("25-bc250-flush-tlb-by-runlist.patch");
    reveal_strlit("28");
    reveal_strlit("28-bc250-8core-telemetry.patch");
}

/// A patch on the shelf is no member of the series.
pub proof fn shelf_is_apart(k: int)
    requires
        0 <= k < 4,
    ensures
        shelf_entry(k).id@.len() == 2,
        shelf_entry(k).file@[0] == shelf_entry(k).id@[0],
        shelf_entry(k).file@[1] == shelf_entry(k).id@[1],
        ({
            let n = ordinal(shelf_entry(k).id@);
            n == 12 || n == 21 || n == 26 || n == 27
        }),
{
    reveal_strlit("12");
    reveal_strlit("12-unlock-all-40-compute-units.patch");
    reveal_strlit("21");
    reveal_strlit("21-amdgpu-gmc-flush-pasid-kiq.patch");
    reveal_strlit("26");
    reveal_strlit("26-bc250-sdma-firmware-override.patch");
    reveal_strlit("27");
    reveal_strlit("27-bc250-early-sdma-trap.patch");
}

/// The diagnostic probe alone is optional.
pub proof fn probe_alone_is_optional(id: Seq<char>)
    ensures
        is_optional(id) <==> id.len() == 2 && id[0] == '1' && id[1] == '7',
{
    reveal_strlit("17");
    if id.len() == 2 && id[0] == '1' && id[1] == '7' {
        assert(id =~= "17"@);
    }
}

} // verus!
