//! The EHCI controller's decisions: what the PCI configuration and the
//! capability registers say, which register values to write, what a port's
//! status word means, how a control transfer's qTDs have ended, and the
//! per-port records that enumeration keeps.
use vstd::prelude::*;
use vstd::string::StringExecFns;
use crate::bytes::{high_byte, le32, le_hi, le_lo, low_byte, u32_from_le};
use crate::ehci_control::ControlRequest;
use crate::ehci_regs::{
    HCCPARAMS_64BIT, USBCMD, USBSTS, CMD_RUN_STOP, CMD_HCRESET, CMD_FRAME_LIST_SIZE_1024, CMD_PERIODIC_SCHEDULE_ENABLE, CMD_ASYNC_SCHEDULE_ENABLE, STS_USB_INTERRUPT, STS_USB_ERROR_INTERRUPT, STS_PORT_CHANGE_DETECT, STS_FRAME_LIST_ROLLOVER, STS_HOST_SYSTEM_ERROR, STS_INTERRUPT_ON_ASYNC_ADVANCE, STS_HC_HALTED, STS_PERIODIC_SCHEDULE_STATUS, STS_ASYNC_SCHEDULE_STATUS, INTR_USB_INTERRUPT_ENABLE, INTR_USB_ERROR_INTERRUPT_ENABLE, INTR_PORT_CHANGE_ENABLE, INTR_HOST_SYSTEM_ERROR_ENABLE, INTR_ASYNC_ADVANCE_ENABLE, PORT_CONNECT, PORT_CONNECT_CHANGE, PORT_ENABLE, PORT_OVER_CURRENT_ACTIVE, PORT_SUSPEND, PORT_RESET, PORT_LINE_STATUS, PORT_LINE_STATUS_K, PORT_POWER, PORT_OWNER, PORT_INDICATOR, PORT_TEST_CONTROL, PORTSC_CHANGE_BITS, PORTSC_WRITE_MASK, TD_ACTIVE, TD_HALTED, TD_BUFERR, TD_BABBLE, TD_XACTERR, TD_MISSED, TD_TOTAL_BYTES_SHIFT, TD_TOTAL_BYTES_MASK, HcCapParams, op_base, USBINTR, CTRLDSSEGMENT, PERIODICLISTBASE, ASYNCLISTADDR, CONFIGFLAG, CF_FLAG,
};
use crate::text::{decimal, hex_lower, push_decimal, push_hex_lower, text_bytes};
use vstd::utf8::encode_utf8;

verus! {

/// How many qTDs one control transfer uses at most.
pub const CONTROL_TD_COUNT: usize = 3;

/// The maximum packet size of endpoint 0 before the device says otherwise.
pub const DEFAULT_CONTROL_MPS: u16 = 64;

/// How many times a control transfer's qTDs are polled before it times out.
pub const CONTROL_TRANSFER_TIMEOUT_POLLS: usize = 1000;

/// The longest configuration descriptor read from a device.
pub const MAX_CONFIG_DESCRIPTOR_LEN: usize = 512;

/// The USBSTS bits the driver acknowledges.
pub const STATUS_CLEAR_BITS: u32 = STS_USB_INTERRUPT | STS_USB_ERROR_INTERRUPT
    | STS_PORT_CHANGE_DETECT | STS_FRAME_LIST_ROLLOVER | STS_HOST_SYSTEM_ERROR
    | STS_INTERRUPT_ON_ASYNC_ADVANCE;

/// The qTD token bits that report a failed transaction.
pub const TD_ERROR_BITS: u32 = TD_HALTED | TD_BUFERR | TD_BABBLE | TD_XACTERR | TD_MISSED;

// ---- USB-level types ----
/// The state of a root hub port.
#[derive(Clone, Copy, Debug, PartialEq, Eq, Structural)]
pub struct PortStatus {
    pub connected: bool,
    pub enabled: bool,
    pub suspended: bool,
    pub over_current: bool,
    pub reset: bool,
    pub power: bool,
    pub low_speed: bool,
    pub high_speed: bool,
    pub test_mode: bool,
    pub indicator: bool,
}

/// Why a USB transfer failed.
#[derive(Clone, Copy, Debug, PartialEq, Eq, Structural)]
pub enum UsbError {
    Stall,
    Babble,
    DataError,
    IoError,
    Timeout,
    NoDevice,
    Unsupported,
}

/// A USB setup packet.
#[derive(Clone, Copy, Debug, PartialEq, Eq, Structural)]
pub struct SetupPacket {
    pub request_type: u8,
    pub request: u8,
    pub value: u16,
    pub index: u16,
    pub length: u16,
}

/// `yes` or `no`.
pub fn bool_word(value: bool) -> (r: &'static str)
    ensures
        r@ == (if value {
            "yes"@
        } else {
            "no"@
        }),
{
    if value {
        "yes"
    } else {
        "no"
    }
}

// ---- PCI configuration ----
/// The little-endian word at `offset` of the configuration space, if it
/// lies inside.
pub open spec fn config_dword(config: Seq<u8>, offset: int) -> Option<u32> {
    if offset + 4 <= config.len() {
        Some(le32(config[offset], config[offset + 1], config[offset + 2], config[offset + 3]))
    } else {
        None
    }
}

pub fn read_config_dword(config: &[u8], offset: usize) -> (r: Option<u32>)
    ensures
        r == config_dword(config@, offset as int),
{
    if offset > usize::MAX - 4 || config.len() < offset + 4 {
        assert(config@.len() == config.len());
        return None;
    }
    Some(u32_from_le(config[offset], config[offset + 1], config[offset + 2], config[offset + 3]))
}

/// Why BAR0 names no usable register window.
#[derive(Clone, Copy, Debug, PartialEq, Eq, Structural)]
pub enum BarError {
    /// The configuration space ends before BAR0.
    NoBar0,
    /// BAR0 is zero.
    Zero,
    /// BAR0 is an I/O port BAR.
    IoSpace,
    /// A 64-bit BAR0 has no upper half in the configuration space.
    NoBar1,
}

impl BarError {
    /// The message the driver reports.
    pub fn message(&self) -> (r: &'static str)
        ensures
            r@ == bar_error_text(*self),
    {
        match self {
            BarError::NoBar0 => "PCI config space is too short to contain BAR0",
            BarError::Zero => "BAR0 is zero",
            BarError::IoSpace => "BAR0 is I/O space; EHCI requires MMIO",
            BarError::NoBar1 => "PCI config space is too short to contain BAR1 for a 64-bit BAR",
        }
    }
}

pub open spec fn bar_error_text(e: BarError) -> Seq<char> {
    match e {
        BarError::NoBar0 => "PCI config space is too short to contain BAR0"@,
        BarError::Zero => "BAR0 is zero"@,
        BarError::IoSpace => "BAR0 is I/O space; EHCI requires MMIO"@,
        BarError::NoBar1 => "PCI config space is too short to contain BAR1 for a 64-bit BAR"@,
    }
}

/// The register window's base from BAR0 (offset 0x10) and, for a 64-bit
/// memory BAR, BAR1 as its upper half.
pub open spec fn mmio_bar(config: Seq<u8>) -> Result<u64, BarError> {
    match config_dword(config, 0x10) {
        None => Err(BarError::NoBar0),
        Some(bar0) => if bar0 == 0 {
            Err(BarError::Zero)
        } else if bar0 & 1 != 0 {
            Err(BarError::IoSpace)
        } else if bar0 & 6 == 4 {
            match config_dword(config, 0x14) {
                None => Err(BarError::NoBar1),
                Some(bar1) => Ok(((bar0 & 0xFFFF_FFF0) as int + bar1 as int * 0x1_0000_0000) as u64),
            }
        } else {
            Ok((bar0 & 0xFFFF_FFF0) as u64)
        },
    }
}

pub fn parse_mmio_bar(config: &[u8]) -> (r: Result<u64, BarError>)
    ensures
        match mmio_bar(config@) {
            Ok(v) => r == Ok::<u64, BarError>(v),
            Err(e) => r == Err::<u64, BarError>(e),
        },
{
    let bar0 = match read_config_dword(config, 0x10) {
        Some(b) => b,
        None => return Err(BarError::NoBar0),
    };
    if bar0 == 0 {
        return Err(BarError::Zero);
    }
    if bar0 & 1 != 0 {
        return Err(BarError::IoSpace);
    }
    let low = (bar0 & 0xFFFF_FFF0) as u64;
    if bar0 & 6 == 4 {
        let bar1 = match read_config_dword(config, 0x14) {
            Some(b) => b,
            None => return Err(BarError::NoBar1),
        };
        let base = low | ((bar1 as u64) << 32u64);
        assert(base == low + bar1 as int * 0x1_0000_0000) by (bit_vector)
            requires
                base == low | ((bar1 as u64) << 32u64),
                low < 0x1_0000_0000,
        ;
        return Ok(base);
    }
    Ok(low)
}

// ---- DMA segments ----
pub fn low32(value: u64) -> (r: u32)
    ensures
        r == value % 0x1_0000_0000,
{
    let r = (value & 0xFFFF_FFFF) as u32;
    assert(r == value % 0x1_0000_0000) by (bit_vector)
        requires
            r == (value & 0xFFFF_FFFF) as u32,
    ;
    r
}

/// The upper 32 bits of a physical address: the 4 GiB segment it lies in.
pub fn dma_segment(value: u64) -> (r: u32)
    ensures
        r == value / 0x1_0000_0000,
{
    let r = (value >> 32u64) as u32;
    assert(r == value / 0x1_0000_0000) by (bit_vector)
        requires
            r == (value >> 32u64) as u32,
    ;
    r
}

/// Why the controller's data structures cannot all be reached.
#[derive(Clone, Copy, Debug, PartialEq, Eq, Structural)]
pub enum DmaSegmentError {
    /// A 32-bit-only controller got a buffer above 4 GiB.
    Above4G(u64),
    /// Two buffers lie in different 4 GiB segments.
    Mixed(u32, u32),
}

/// The segment every address shares, checked in order: the first address
/// above 4 GiB on a 32-bit-only controller, or the first whose segment
/// differs from the first address's, is refused; no addresses give 0.
pub open spec fn shared_segment(has_64bit: bool, addrs: Seq<u64>, i: int, seg: Option<u32>) -> Result<
    u32,
    DmaSegmentError,
>
    decreases addrs.len() - i,
{
    if i < 0 || i >= addrs.len() {
        match seg {
            Some(s) => Ok(s),
            None => Ok(0),
        }
    } else {
        let cur = (addrs[i] / 0x1_0000_0000) as u32;
        if !has_64bit && cur != 0 {
            Err(DmaSegmentError::Above4G(addrs[i]))
        } else if seg matches Some(s) && s != cur {
            Err(DmaSegmentError::Mixed(seg->0, cur))
        } else {
            shared_segment(has_64bit, addrs, i + 1, Some(cur))
        }
    }
}

pub fn ensure_dma_segment(has_64bit: bool, phys_addrs: &[u64]) -> (r: Result<u32, DmaSegmentError>)
    ensures
        r == shared_segment(has_64bit, phys_addrs@, 0, None),
{
    let mut segment: Option<u32> = None;
    let mut i: usize = 0;
    while i < phys_addrs.len()
        invariant
            i <= phys_addrs@.len(),
            shared_segment(has_64bit, phys_addrs@, 0, None) == shared_segment(
                has_64bit,
                phys_addrs@,
                i as int,
                segment,
            ),
        decreases phys_addrs@.len() - i,
    {
        let phys_addr = phys_addrs[i];
        let current = dma_segment(phys_addr);
        if !has_64bit && current != 0 {
            return Err(DmaSegmentError::Above4G(phys_addr));
        }
        match segment {
            Some(existing) => {
                if existing != current {
                    return Err(DmaSegmentError::Mixed(existing, current));
                }
            },
            None => {},
        }
        segment = Some(current);
        i = i + 1;
    }
    match segment {
        Some(s) => Ok(s),
        None => Ok(0),
    }
}

/// The low word of a buffer's address, where the buffer lies in the
/// controller's segment (and below 4 GiB for a 32-bit-only controller).
pub fn ensure_dma_segment_matches(has_64bit: bool, controller_segment: u32, phys: u64) -> (r:
    Result<u32, UsbError>)
    ensures
        r == if !has_64bit && phys / 0x1_0000_0000 != 0 {
            Err::<u32, UsbError>(UsbError::IoError)
        } else if phys / 0x1_0000_0000 != controller_segment {
            Err(UsbError::IoError)
        } else {
            Ok((phys % 0x1_0000_0000) as u32)
        },
{
    let segment = dma_segment(phys);
    if !has_64bit && segment != 0 {
        return Err(UsbError::IoError);
    }
    if segment != controller_segment {
        return Err(UsbError::IoError);
    }
    Ok(low32(phys))
}

// ---- Register values ----
/// The interrupt threshold field of USBCMD.
pub fn interrupt_threshold(microframes: u8) -> (r: u32)
    ensures
        r == microframes as u32 * 0x1_0000,
{
    let m = microframes as u32;
    let r = (m & 0xFF) << 16u32;
    assert(r == m * 0x1_0000) by (bit_vector)
        requires
            r == (m & 0xFF) << 16u32,
            m < 256,
    ;
    r
}

/// USBCMD while running: run, 1024-entry frame list, both schedules on,
/// interrupts every 8 microframes.
pub open spec fn run_command() -> u32 {
    CMD_RUN_STOP | CMD_FRAME_LIST_SIZE_1024 | CMD_PERIODIC_SCHEDULE_ENABLE
        | CMD_ASYNC_SCHEDULE_ENABLE | 0x8_0000u32
}

pub fn start_command() -> (r: u32)
    ensures
        r == run_command(),
{
    CMD_RUN_STOP | CMD_FRAME_LIST_SIZE_1024 | CMD_PERIODIC_SCHEDULE_ENABLE
        | CMD_ASYNC_SCHEDULE_ENABLE | interrupt_threshold(8)
}

/// The interrupts the driver enables.
pub fn interrupt_enable_mask() -> (r: u32)
    ensures
        r == INTR_USB_INTERRUPT_ENABLE | INTR_USB_ERROR_INTERRUPT_ENABLE | INTR_PORT_CHANGE_ENABLE
            | INTR_HOST_SYSTEM_ERROR_ENABLE | INTR_ASYNC_ADVANCE_ENABLE,
{
    INTR_USB_INTERRUPT_ENABLE | INTR_USB_ERROR_INTERRUPT_ENABLE | INTR_PORT_CHANGE_ENABLE
        | INTR_HOST_SYSTEM_ERROR_ENABLE | INTR_ASYNC_ADVANCE_ENABLE
}

/// The USBSTS bits to write back to acknowledge them, if any.
pub fn status_to_clear(status: u32) -> (r: Option<u32>)
    ensures
        r == if status & STATUS_CLEAR_BITS != 0 {
            Some(status & STATUS_CLEAR_BITS)
        } else {
            None::<u32>
        },
{
    let clear = status & STATUS_CLEAR_BITS;
    if clear != 0 {
        Some(clear)
    } else {
        None
    }
}

/// Whether the controller must be started again: it is halted, a schedule
/// is off, or USBCMD lacks run or a schedule enable.
pub fn needs_restart(status: u32, command: u32) -> (r: bool)
    ensures
        r == (status & STS_HC_HALTED != 0 || status & STS_ASYNC_SCHEDULE_STATUS == 0 || status
            & STS_PERIODIC_SCHEDULE_STATUS == 0 || command & (CMD_RUN_STOP
            | CMD_ASYNC_SCHEDULE_ENABLE | CMD_PERIODIC_SCHEDULE_ENABLE) != (CMD_RUN_STOP
            | CMD_ASYNC_SCHEDULE_ENABLE | CMD_PERIODIC_SCHEDULE_ENABLE)),
{
    let required = CMD_RUN_STOP | CMD_ASYNC_SCHEDULE_ENABLE | CMD_PERIODIC_SCHEDULE_ENABLE;
    status & STS_HC_HALTED != 0 || status & STS_ASYNC_SCHEDULE_STATUS == 0 || status
        & STS_PERIODIC_SCHEDULE_STATUS == 0 || command & required != required
}

/// The steps of bringing the controller up, each waiting on a register.
#[derive(Clone, Copy, Debug, PartialEq, Eq, Structural)]
pub enum StartWait {
    /// USBCMD.HCRESET has cleared.
    ResetDone,
    /// USBSTS.HCHalted has cleared.
    Running,
    /// The periodic schedule reports on.
    PeriodicOn,
    /// The asynchronous schedule reports on.
    AsyncOn,
    /// USBSTS.HCHalted has set (stopping).
    Halted,
}

/// Whether the register value a step polls shows it done (USBCMD for
/// `ResetDone`, USBSTS otherwise).
pub fn wait_done(step: StartWait, value: u32) -> (r: bool)
    ensures
        r == match step {
            StartWait::ResetDone => value & CMD_HCRESET == 0,
            StartWait::Running => value & STS_HC_HALTED == 0,
            StartWait::PeriodicOn => value & STS_PERIODIC_SCHEDULE_STATUS != 0,
            StartWait::AsyncOn => value & STS_ASYNC_SCHEDULE_STATUS != 0,
            StartWait::Halted => value & STS_HC_HALTED != 0,
        },
{
    match step {
        StartWait::ResetDone => value & CMD_HCRESET == 0,
        StartWait::Running => value & STS_HC_HALTED == 0,
        StartWait::PeriodicOn => value & STS_PERIODIC_SCHEDULE_STATUS != 0,
        StartWait::AsyncOn => value & STS_ASYNC_SCHEDULE_STATUS != 0,
        StartWait::Halted => value & STS_HC_HALTED != 0,
    }
}

/// The step after one has completed, in the order the controller is
/// brought up; none after the asynchronous schedule (or after halting).
pub fn next_wait(step: StartWait) -> (r: Option<StartWait>)
    ensures
        r == match step {
            StartWait::ResetDone => Some(StartWait::Running),
            StartWait::Running => Some(StartWait::PeriodicOn),
            StartWait::PeriodicOn => Some(StartWait::AsyncOn),
            StartWait::AsyncOn => None::<StartWait>,
            StartWait::Halted => None::<StartWait>,
        },
{
    match step {
        StartWait::ResetDone => Some(StartWait::Running),
        StartWait::Running => Some(StartWait::PeriodicOn),
        StartWait::PeriodicOn => Some(StartWait::AsyncOn),
        StartWait::AsyncOn => None,
        StartWait::Halted => None,
    }
}

/// A step of bringing the controller up.
#[derive(Clone, Copy, Debug, PartialEq, Eq, Structural)]
pub enum StartStep {
    /// Write a value to the operational register at an offset.
    Write(usize, u32),
    /// Wait until the register a step polls shows it done.
    Wait(StartWait),
    /// Acknowledge the pending interrupt status bits.
    ClearStatus,
    /// Write the empty control queue head of the asynchronous schedule.
    ArmAsyncQh,
    /// Power every port and clear its change bits.
    PortSetup,
}

/// The interrupts the driver enables, as one mask.
pub open spec fn enabled_interrupts() -> u32 {
    INTR_USB_INTERRUPT_ENABLE | INTR_USB_ERROR_INTERRUPT_ENABLE | INTR_PORT_CHANGE_ENABLE
        | INTR_HOST_SYSTEM_ERROR_ENABLE | INTR_ASYNC_ADVANCE_ENABLE
}

/// How the controller is brought up, given USBCMD as found, the DMA
/// segment and the addresses of the frame list and the asynchronous queue
/// head: a running controller is stopped and waited on first; then reset
/// and wait; acknowledge the status; segment, frame list, queue head and
/// its address, interrupts and the run command; wait for running and both
/// schedules; route the ports here; power and clear every port.
pub open spec fn start_plan_spec(command: u32, dma_segment: u32, frame_list: u64, async_qh: u64) -> Seq<
    StartStep,
> {
    let stop = if command & CMD_RUN_STOP != 0 {
        seq![StartStep::Write(USBCMD, command & !CMD_RUN_STOP), StartStep::Wait(StartWait::Halted)]
    } else {
        Seq::<StartStep>::empty()
    };
    stop + seq![
        StartStep::Write(USBCMD, CMD_HCRESET),
        StartStep::Wait(StartWait::ResetDone),
        StartStep::ClearStatus,
        StartStep::Write(CTRLDSSEGMENT, dma_segment),
        StartStep::Write(PERIODICLISTBASE, (frame_list % 0x1_0000_0000) as u32),
        StartStep::ArmAsyncQh,
        StartStep::Write(ASYNCLISTADDR, (async_qh % 0x1_0000_0000) as u32),
        StartStep::Write(USBINTR, enabled_interrupts()),
        StartStep::Write(USBCMD, run_command()),
        StartStep::Wait(StartWait::Running),
        StartStep::Wait(StartWait::PeriodicOn),
        StartStep::Wait(StartWait::AsyncOn),
        StartStep::Write(CONFIGFLAG, CF_FLAG),
        StartStep::PortSetup,
    ]
}

/// The steps that bring the controller up, in order.
pub fn start_plan(command: u32, dma_segment: u32, frame_list: u64, async_qh: u64) -> (r: Vec<StartStep>)
    ensures
        r@ == start_plan_spec(command, dma_segment, frame_list, async_qh),
{
    let mut plan: Vec<StartStep> = Vec::new();
    if command & CMD_RUN_STOP != 0 {
        plan.push(StartStep::Write(USBCMD, command & !CMD_RUN_STOP));
        plan.push(StartStep::Wait(StartWait::Halted));
    }
    let ghost stop = plan@;
    plan.push(StartStep::Write(USBCMD, CMD_HCRESET));
    plan.push(StartStep::Wait(StartWait::ResetDone));
    plan.push(StartStep::ClearStatus);
    plan.push(StartStep::Write(CTRLDSSEGMENT, dma_segment));
    plan.push(StartStep::Write(PERIODICLISTBASE, low32(frame_list)));
    plan.push(StartStep::ArmAsyncQh);
    plan.push(StartStep::Write(ASYNCLISTADDR, low32(async_qh)));
    plan.push(StartStep::Write(USBINTR, interrupt_enable_mask()));
    plan.push(StartStep::Write(USBCMD, start_command()));
    plan.push(StartStep::Wait(StartWait::Running));
    plan.push(StartStep::Wait(StartWait::PeriodicOn));
    plan.push(StartStep::Wait(StartWait::AsyncOn));
    plan.push(StartStep::Write(CONFIGFLAG, CF_FLAG));
    plan.push(StartStep::PortSetup);
    assert(plan@ =~= start_plan_spec(command, dma_segment, frame_list, async_qh));
    plan
}

/// What the step waits for, for a timeout message.
pub fn wait_label(step: StartWait) -> (r: &'static str)
    ensures
        r@ == match step {
            StartWait::ResetDone => "controller reset completion"@,
            StartWait::Running => "host controller run state"@,
            StartWait::PeriodicOn => "periodic schedule activation"@,
            StartWait::AsyncOn => "async schedule activation"@,
            StartWait::Halted => "controller halt"@,
        },
{
    match step {
        StartWait::ResetDone => "controller reset completion",
        StartWait::Running => "host controller run state",
        StartWait::PeriodicOn => "periodic schedule activation",
        StartWait::AsyncOn => "async schedule activation",
        StartWait::Halted => "controller halt",
    }
}

/// What the capability registers say of the controller.
#[derive(Clone, Copy, Debug, PartialEq, Eq, Structural)]
pub struct ControllerLayout {
    pub op_base: usize,
    pub n_ports: u8,
    pub has_64bit: bool,
}

/// The operational registers' offset, the port count and 64-bit
/// addressing; `None` where the controller reports no ports.
pub fn controller_layout(caplength: u8, hcsparams: u32, hccparams: u32) -> (r: Option<
    ControllerLayout,
>)
    ensures
        hcsparams & 0xF == 0 ==> r is None,
        hcsparams & 0xF != 0 ==> r == Some(
            ControllerLayout {
                op_base: caplength as usize,
                n_ports: (hcsparams & 0xF) as u8,
                has_64bit: hccparams & HCCPARAMS_64BIT != 0,
            },
        ),
{
    let caps = HcCapParams::from_hcsparams(hcsparams);
    if caps.n_ports == 0 {
        return None;
    }
    Some(
        ControllerLayout {
            op_base: op_base(caplength),
            n_ports: caps.n_ports,
            has_64bit: hccparams & HCCPARAMS_64BIT != 0,
        },
    )
}

// ---- Ports ----
/// What a PORTSC word says of its port.
pub open spec fn port_status_of(portsc: u32) -> PortStatus {
    PortStatus {
        connected: portsc & PORT_CONNECT != 0,
        enabled: portsc & PORT_ENABLE != 0,
        suspended: portsc & PORT_SUSPEND != 0,
        over_current: portsc & PORT_OVER_CURRENT_ACTIVE != 0,
        reset: portsc & PORT_RESET != 0,
        power: portsc & PORT_POWER != 0,
        low_speed: portsc & PORT_LINE_STATUS == PORT_LINE_STATUS_K,
        high_speed: portsc & PORT_ENABLE != 0,
        test_mode: portsc & PORT_TEST_CONTROL != 0,
        indicator: portsc & PORT_INDICATOR != 0,
    }
}

proof fn lemma_portsc_masks(portsc: u32)
    by (bit_vector)
    ensures
        (portsc & PORT_CONNECT != 0) == (portsc % 2 == 1),
        (portsc & PORT_ENABLE != 0) == ((portsc / 4) % 2 == 1),
        (portsc & PORT_OVER_CURRENT_ACTIVE != 0) == ((portsc / 16) % 2 == 1),
        (portsc & PORT_SUSPEND != 0) == ((portsc / 128) % 2 == 1),
        (portsc & PORT_RESET != 0) == ((portsc / 256) % 2 == 1),
        (portsc & PORT_POWER != 0) == ((portsc / 4096) % 2 == 1),
        (portsc & PORT_LINE_STATUS == PORT_LINE_STATUS_K) == ((portsc / 1024) % 4 == 1),
        (portsc & PORT_TEST_CONTROL != 0) == ((portsc / 65536) % 16 != 0),
        (portsc & PORT_INDICATOR != 0) == ((portsc / 16384) % 4 != 0),
{
}

/// Each flag of a decoded port is its own PORTSC bit: connected is bit 0,
/// enabled (and high speed) bit 2, over-current bit 4, suspended bit 7,
/// reset bit 8, power bit 12; low speed is the line status (bits 10..12)
/// reading K (01); test mode is any of bits 16..20, the indicator any of
/// bits 14..16.
pub proof fn lemma_port_status_bits(portsc: u32)
    ensures
        ({
            let p = port_status_of(portsc);
            &&& p.connected == (portsc % 2 == 1)
            &&& p.enabled == ((portsc / 4) % 2 == 1)
            &&& p.high_speed == ((portsc / 4) % 2 == 1)
            &&& p.over_current == ((portsc / 16) % 2 == 1)
            &&& p.suspended == ((portsc / 128) % 2 == 1)
            &&& p.reset == ((portsc / 256) % 2 == 1)
            &&& p.power == ((portsc / 4096) % 2 == 1)
            &&& p.low_speed == ((portsc / 1024) % 4 == 1)
            &&& p.test_mode == ((portsc / 65536) % 16 != 0)
            &&& p.indicator == ((portsc / 16384) % 4 != 0)
        }),
{
    lemma_portsc_masks(portsc);
}

pub fn decode_port_status(portsc: u32) -> (r: PortStatus)
    ensures
        r == port_status_of(portsc),
{
    let line_status = portsc & PORT_LINE_STATUS;
    PortStatus {
        connected: portsc & PORT_CONNECT != 0,
        enabled: portsc & PORT_ENABLE != 0,
        suspended: portsc & PORT_SUSPEND != 0,
        over_current: portsc & PORT_OVER_CURRENT_ACTIVE != 0,
        reset: portsc & PORT_RESET != 0,
        power: portsc & PORT_POWER != 0,
        low_speed: line_status == PORT_LINE_STATUS_K,
        high_speed: portsc & PORT_ENABLE != 0,
        test_mode: portsc & PORT_TEST_CONTROL != 0,
        indicator: portsc & PORT_INDICATOR != 0,
    }
}

/// The PORTSC value to write: the current writable bits, less `clear_bits`,
/// plus the writable `set_bits`, plus the change bits of `clear_changes`
/// (which writing 1 clears).
pub open spec fn port_write_word(current: u32, set_bits: u32, clear_bits: u32, clear_changes: u32) -> u32 {
    (((current & PORTSC_WRITE_MASK) & !clear_bits) | (set_bits & PORTSC_WRITE_MASK)) | (
    clear_changes & PORTSC_CHANGE_BITS)
}

pub fn port_write_value(current: u32, set_bits: u32, clear_bits: u32, clear_changes: u32) -> (r:
    u32)
    ensures
        r == port_write_word(current, set_bits, clear_bits, clear_changes),
        r & !(PORTSC_WRITE_MASK | PORTSC_CHANGE_BITS) == 0,
{
    let mut value = current & PORTSC_WRITE_MASK;
    value = value & !clear_bits;
    value = value | (set_bits & PORTSC_WRITE_MASK);
    value = value | (clear_changes & PORTSC_CHANGE_BITS);
    proof {
        let w = PORTSC_WRITE_MASK;
        let c = PORTSC_CHANGE_BITS;
        assert(value & !(w | c) == 0) by (bit_vector)
            requires
                value == (((current & w) & !clear_bits) | (set_bits & w)) | (clear_changes & c),
        ;
    }
    value
}

/// The write that acknowledges a port's pending change bits, if any.
pub fn clear_changes_write(current: u32) -> (r: Option<u32>)
    ensures
        r == if current & PORTSC_CHANGE_BITS != 0 {
            Some(port_write_word(current, 0, 0, current & PORTSC_CHANGE_BITS))
        } else {
            None::<u32>
        },
{
    let clear = current & PORTSC_CHANGE_BITS;
    if clear != 0 {
        Some(port_write_value(current, 0, 0, clear))
    } else {
        None
    }
}

/// How a port reset stands after a poll of PORTSC: handed to a companion
/// or disconnected (failed), enabled (done), or still settling.
pub fn reset_poll(status: u32) -> (r: Option<bool>)
    ensures
        r == if status & PORT_OWNER != 0 || status & PORT_CONNECT == 0 {
            Some(false)
        } else if status & PORT_ENABLE != 0 {
            Some(true)
        } else {
            None::<bool>
        },
{
    if status & PORT_OWNER != 0 {
        return Some(false);
    }
    if status & PORT_CONNECT == 0 {
        return Some(false);
    }
    if status & PORT_ENABLE != 0 {
        return Some(true);
    }
    None
}

/// An enumerated device on a port.
#[derive(Clone, Debug)]
pub struct PortDevice {
    pub address: u8,
    pub max_packet_size0: u16,
    pub device_descriptor: Vec<u8>,
    pub config_descriptor: Vec<u8>,
    pub vendor_id: u16,
    pub product_id: u16,
    pub device_class: u8,
    pub device_subclass: u8,
    pub device_protocol: u8,
}

/// What the driver last saw of a port.
#[derive(Clone, Debug)]
pub struct PortRecord {
    pub last_portsc: u32,
    pub last_status: Option<PortStatus>,
    pub companion_owned: bool,
    pub last_error: Option<String>,
    pub device: Option<PortDevice>,
}

impl Default for PortRecord {
    fn default() -> (r: Self)
        ensures
            r.last_portsc == 0 && r.last_status is None && !r.companion_owned
                && r.last_error is None && r.device is None,
    {
        PortRecord {
            last_portsc: 0,
            last_status: None,
            companion_owned: false,
            last_error: None,
            device: None,
        }
    }
}

/// What a poll of a port calls for besides the record's update.
#[derive(Clone, Copy, Debug, PartialEq, Eq, Structural)]
pub struct PortObservation {
    /// Acknowledge the change bits.
    pub clear_changes: bool,
    /// A device or companion the port had is gone.
    pub disconnected: bool,
    /// Reset and enumerate the port.
    pub probe: bool,
}

/// Records a poll of a port's PORTSC and says what follows: a disconnected
/// port forgets its device, companion and error; a port a companion owns is
/// marked so; a connected port without a device is probed when it reports
/// a connect change or is enabled.
pub fn observe_port(record: &mut PortRecord, portsc: u32) -> (r: PortObservation)
    ensures
        final(record).last_portsc == portsc,
        final(record).last_status == Some(port_status_of(portsc)),
        r.clear_changes == (portsc & PORTSC_CHANGE_BITS != 0),
        portsc & PORT_CONNECT == 0 ==> {
            &&& final(record).device is None
            &&& !final(record).companion_owned
            &&& final(record).last_error is None
            &&& r.disconnected == (old(record).device is Some || old(record).companion_owned)
            &&& !r.probe
        },
        portsc & PORT_CONNECT != 0 && portsc & PORT_OWNER != 0 ==> {
            &&& final(record).companion_owned
            &&& final(record).device == old(record).device
            &&& final(record).last_error == old(record).last_error
            &&& !r.disconnected && !r.probe
        },
        portsc & PORT_CONNECT != 0 && portsc & PORT_OWNER == 0 ==> {
            &&& final(record).companion_owned == old(record).companion_owned
            &&& final(record).device == old(record).device
            &&& final(record).last_error == old(record).last_error
            &&& !r.disconnected
            &&& r.probe == (old(record).device is None && (portsc & PORT_CONNECT_CHANGE != 0
                || portsc & PORT_ENABLE != 0))
        },
{
    let status = decode_port_status(portsc);
    let had_device = record.device.is_some();
    let had_companion = record.companion_owned;
    record.last_portsc = portsc;
    record.last_status = Some(status);
    let clear_changes = portsc & PORTSC_CHANGE_BITS != 0;
    if !status.connected {
        record.device = None;
        record.companion_owned = false;
        record.last_error = None;
        return PortObservation { clear_changes, disconnected: had_device || had_companion, probe: false };
    }
    if portsc & PORT_OWNER != 0 {
        record.companion_owned = true;
        return PortObservation { clear_changes, disconnected: false, probe: false };
    }
    let probe = record.device.is_none() && ((portsc & PORT_CONNECT_CHANGE != 0) || (portsc
        & PORT_ENABLE != 0));
    PortObservation { clear_changes, disconnected: false, probe }
}

/// After a reset that left the port disabled: a port a companion took is
/// marked so and is no failure; otherwise the reset failed.
pub fn settle_failed_reset(record: &mut PortRecord, portsc: u32) -> (r: Result<(), String>)
    ensures
        portsc & PORT_OWNER != 0 ==> r is Ok && final(record).companion_owned
            && final(record).last_error is None && final(record).device == old(record).device,
        portsc & PORT_OWNER == 0 ==> (r matches Err(m) && m@
            == "port reset did not produce an enabled high-speed port"@) && final(record).device
            == old(record).device && final(record).companion_owned == old(record).companion_owned
            && final(record).last_error == old(record).last_error,
{
    if portsc & PORT_OWNER != 0 {
        record.companion_owned = true;
        record.last_error = None;
        return Ok(());
    }
    Err(String::from_str("port reset did not produce an enabled high-speed port"))
}

/// Marks a port as handed to its companion controller.
pub fn hand_to_companion(record: &mut PortRecord)
    ensures
        final(record).companion_owned,
        final(record).device is None,
        final(record).last_portsc == old(record).last_portsc,
        final(record).last_error == old(record).last_error,
{
    record.companion_owned = true;
    record.device = None;
}

// ---- Device addresses ----
/// The address tried after `a`: 1 to 127 in turn, then 1 again.
pub open spec fn address_after(a: int) -> int {
    if a >= 127 {
        1
    } else {
        a + 1
    }
}

/// Whether a port's device has an address.
pub open spec fn has_address(r: PortRecord, address: u8) -> bool {
    r.device matches Some(d) && d.address == address
}

/// Whether a device on some port has an address.
pub open spec fn address_used(ports: Seq<PortRecord>, address: u8) -> bool {
    exists|i: int| 0 <= i < ports.len() && has_address(#[trigger] ports[i], address)
}

pub fn address_in_use(ports: &Vec<PortRecord>, address: u8) -> (r: bool)
    ensures
        r == address_used(ports@, address),
{
    let mut i: usize = 0;
    while i < ports.len()
        invariant
            i <= ports@.len(),
            forall|j: int| 0 <= j < i ==> !has_address(#[trigger] ports@[j], address),
        decreases ports@.len() - i,
    {
        match &ports[i].device {
            Some(d) => {
                if d.address == address {
                    return true;
                }
            },
            None => {},
        }
        i = i + 1;
    }
    false
}

/// The port whose device has an address: the first such port.
pub fn address_port(ports: &Vec<PortRecord>, address: u8) -> (r: Option<usize>)
    ensures
        match r {
            Some(p) => p < ports@.len() && has_address(ports@[p as int], address) && forall|j: int|
                0 <= j < p ==> !has_address(#[trigger] ports@[j], address),
            None => !address_used(ports@, address),
        },
{
    let mut i: usize = 0;
    while i < ports.len()
        invariant
            i <= ports@.len(),
            forall|j: int| 0 <= j < i ==> !has_address(#[trigger] ports@[j], address),
        decreases ports@.len() - i,
    {
        match &ports[i].device {
            Some(d) => {
                if d.address == address {
                    return Some(i);
                }
            },
            None => {},
        }
        i = i + 1;
    }
    None
}

/// The `k`-th address tried from `a`.
pub open spec fn nth_address(a: int, k: nat) -> int
    decreases k,
{
    if k == 0 {
        a
    } else {
        address_after(nth_address(a, (k - 1) as nat))
    }
}

/// How many addresses from the `k`-th on are tried before a free one.
pub open spec fn free_turn(ports: Seq<PortRecord>, start: int, k: nat) -> Option<nat>
    decreases 127 - k,
{
    if k >= 127 {
        None
    } else if !address_used(ports, nth_address(start, k) as u8) {
        Some(k)
    } else {
        free_turn(ports, start, k + 1)
    }
}

/// Hands out a device address: the first of the next 127 in turn that no
/// device uses, moving the turn past it; an error when all are taken.
pub fn allocate_device_address(next_address: &mut u8, ports: &Vec<PortRecord>) -> (r: Result<
    u8,
    String,
>)
    requires
        1 <= *old(next_address) <= 127,
    ensures
        1 <= *final(next_address) <= 127,
        match free_turn(ports@, *old(next_address) as int, 0) {
            Some(k) => r == Ok::<u8, String>(nth_address(*old(next_address) as int, k) as u8)
                && *final(next_address) == address_after(nth_address(*old(next_address) as int, k)),
            None => r matches Err(m) && m@ == "no free USB device addresses remain"@,
        },
{
    let ghost start = *next_address as int;
    let mut tried: u8 = 0;
    while tried < 127
        invariant
            tried <= 127,
            start == *old(next_address) as int,
            1 <= *next_address <= 127,
            *next_address == nth_address(start, tried as nat),
            free_turn(ports@, start, 0) == free_turn(ports@, start, tried as nat),
        decreases 127 - tried,
    {
        let candidate = *next_address;
        *next_address = if *next_address >= 127 {
            1
        } else {
            *next_address + 1
        };
        if !address_in_use(ports, candidate) {
            assert(nth_address(start, tried as nat) as u8 == candidate);
            assert(free_turn(ports@, start, tried as nat) == Some(tried as nat));
            return Ok(candidate);
        }
        assert(nth_address(start, (tried + 1) as nat) == address_after(nth_address(start, tried as nat)));
        tried = tried + 1;
    }
    Err(String::from_str("no free USB device addresses remain"))
}

// ---- Control transfers ----
/// The setup packet's eight bytes in wire order.
pub open spec fn setup_bytes(s: SetupPacket) -> Seq<u8> {
    seq![
        s.request_type,
        s.request,
        le_lo(s.value),
        le_hi(s.value),
        le_lo(s.index),
        le_hi(s.index),
        le_lo(s.length),
        le_hi(s.length),
    ]
}

pub fn setup_packet_bytes(setup: &SetupPacket) -> (r: [u8; 8])
    ensures
        r@ == setup_bytes(*setup),
{
    let r = [
        setup.request_type,
        setup.request,
        low_byte(setup.value),
        high_byte(setup.value),
        low_byte(setup.index),
        high_byte(setup.index),
        low_byte(setup.length),
        high_byte(setup.length),
    ];
    assert(r@ =~= setup_bytes(*setup));
    r
}

/// Whether a control transfer can be started: the port exists, the data
/// buffer is as long as the setup packet says and fits one qTD, and the
/// packet size is not zero.
pub fn check_control_transfer(port: usize, port_count: usize, setup: &SetupPacket, data_len: usize, max_packet_size: u16) -> (r: Result<(), UsbError>)
    ensures
        r == if port >= port_count {
            Err(UsbError::NoDevice)
        } else if setup.length != data_len {
            Err(UsbError::IoError)
        } else if data_len > 0x7FFF {
            Err(UsbError::Unsupported)
        } else if max_packet_size == 0 {
            Err(UsbError::IoError)
        } else {
            Ok::<(), UsbError>(())
        },
{
    if port >= port_count {
        return Err(UsbError::NoDevice);
    }
    if setup.length as usize != data_len {
        return Err(UsbError::IoError);
    }
    if data_len > 0x7FFF {
        return Err(UsbError::Unsupported);
    }
    if max_packet_size == 0 {
        return Err(UsbError::IoError);
    }
    Ok(())
}

/// How a control transfer stands after a look at its qTD tokens.
#[derive(Clone, Copy, Debug, PartialEq, Eq, Structural)]
pub enum TransferPoll {
    /// A qTD reported an error: its token.
    Failed(u32),
    /// Every qTD has completed.
    Done,
    /// A qTD is still active.
    Pending,
}

/// The first token with an error bit, if any.
pub open spec fn first_error(tokens: Seq<u32>, i: int) -> Option<u32>
    decreases tokens.len() - i,
{
    if i < 0 || i >= tokens.len() {
        None
    } else if tokens[i] & TD_ERROR_BITS != 0 {
        Some(tokens[i])
    } else {
        first_error(tokens, i + 1)
    }
}

pub open spec fn transfer_state(tokens: Seq<u32>) -> TransferPoll {
    match first_error(tokens, 0) {
        Some(t) => TransferPoll::Failed(t),
        None => if exists|i: int| 0 <= i < tokens.len() && #[trigger] tokens[i] & TD_ACTIVE != 0 {
            TransferPoll::Pending
        } else {
            TransferPoll::Done
        },
    }
}

pub fn poll_transfer(tokens: &[u32]) -> (r: TransferPoll)
    ensures
        r == transfer_state(tokens@),
{
    let mut active = false;
    let mut i: usize = 0;
    while i < tokens.len()
        invariant
            i <= tokens@.len(),
            first_error(tokens@, 0) == first_error(tokens@, i as int),
            active == exists|j: int| 0 <= j < i && #[trigger] tokens@[j] & TD_ACTIVE != 0,
        decreases tokens@.len() - i,
    {
        let token = tokens[i];
        if token & TD_ERROR_BITS != 0 {
            return TransferPoll::Failed(token);
        }
        if token & TD_ACTIVE != 0 {
            active = true;
        }
        proof {
            if !active {
                assert forall|j: int| 0 <= j < i + 1 implies !(#[trigger] tokens@[j] & TD_ACTIVE
                    != 0) by {
                    if j < i {
                    }
                }
            }
        }
        i = i + 1;
    }
    if active {
        TransferPoll::Pending
    } else {
        TransferPoll::Done
    }
}

/// The bytes a completed data stage moved: the buffer's length less what
/// the qTD's total-bytes field says remained.
pub open spec fn transferred_len(data_len: usize, data_token: u32) -> int {
    let remaining = (data_token / 0x1_0000) % 0x8000;
    if data_len >= remaining {
        data_len - remaining
    } else {
        0
    }
}

pub fn transferred(data_len: usize, data_token: u32) -> (r: usize)
    ensures
        r == transferred_len(data_len, data_token),
{
    let remaining = (data_token & TD_TOTAL_BYTES_MASK) >> TD_TOTAL_BYTES_SHIFT;
    assert(remaining == (data_token / 0x1_0000) % 0x8000) by (bit_vector)
        requires
            remaining == (data_token & 0x7FFF_0000u32) >> 16u32,
    ;
    data_len.saturating_sub(remaining as usize)
}

/// The error a failed qTD token means.
pub fn map_td_error(token: u32) -> (r: UsbError)
    ensures
        r == if token & TD_BABBLE != 0 {
            UsbError::Babble
        } else if token & TD_HALTED != 0 {
            UsbError::Stall
        } else if token & (TD_BUFERR | TD_XACTERR | TD_MISSED) != 0 {
            UsbError::DataError
        } else {
            UsbError::IoError
        },
{
    if token & TD_BABBLE != 0 {
        UsbError::Babble
    } else if token & TD_HALTED != 0 {
        UsbError::Stall
    } else if token & (TD_BUFERR | TD_XACTERR | TD_MISSED) != 0 {
        UsbError::DataError
    } else {
        UsbError::IoError
    }
}

/// The error a port records for a failed transfer.
pub fn transfer_failure_text(token: u32) -> (r: String)
    ensures
        r@ == "transfer failure token=0x"@ + hex_lower(token as nat, 8),
{
    let mut s = String::from_str("transfer failure token=0x");
    push_hex_lower(&mut s, token as u64, 8);
    s
}

/// The descriptor requests enumeration sends.
pub open spec fn descriptor_request(value: u16, length: u16) -> SetupPacket {
    SetupPacket { request_type: 0x80, request: 0x06, value, index: 0, length }
}

/// GET_DESCRIPTOR of `length` bytes of the descriptor `value` names.
pub fn get_descriptor(value: u16, length: u16) -> (r: SetupPacket)
    ensures
        r == descriptor_request(value, length),
{
    SetupPacket { request_type: 0x80, request: 0x06, value, index: 0, length }
}

/// SET_ADDRESS.
pub fn set_address_request(address: u8) -> (r: SetupPacket)
    ensures
        r == (SetupPacket { request_type: 0x00, request: 0x05, value: address as u16, index: 0, length: 0 }),
{
    SetupPacket { request_type: 0x00, request: 0x05, value: address as u16, index: 0, length: 0 }
}

/// Endpoint 0's packet size from the first eight bytes of the device
/// descriptor: `bMaxPacketSize0`, at least 8.
pub fn max_packet_size0(header: &[u8; 8]) -> (r: u16)
    ensures
        r == if header@[7] >= 8 {
            header@[7] as u16
        } else {
            8u16
        },
{
    let b = header[7];
    if b >= 8 {
        b as u16
    } else {
        8
    }
}

/// How many configuration descriptor bytes to read: `wTotalLength`
/// clamped to the header's 9 bytes and `MAX_CONFIG_DESCRIPTOR_LEN`.
pub fn config_read_length(total_length: u16) -> (r: u16)
    ensures
        r == if total_length < 9 {
            9
        } else if total_length > MAX_CONFIG_DESCRIPTOR_LEN {
            MAX_CONFIG_DESCRIPTOR_LEN as u16
        } else {
            total_length
        },
{
    if total_length < 9 {
        9
    } else if total_length as usize > MAX_CONFIG_DESCRIPTOR_LEN {
        MAX_CONFIG_DESCRIPTOR_LEN as u16
    } else {
        total_length
    }
}

/// The setup packet of a parsed control request.
pub fn request_setup(request: &ControlRequest) -> (r: SetupPacket)
    ensures
        r == (SetupPacket {
            request_type: request.request_type,
            request: request.request,
            value: request.value,
            index: request.index,
            length: request.length,
        }),
{
    SetupPacket {
        request_type: request.request_type,
        request: request.request,
        value: request.value,
        index: request.index,
        length: request.length,
    }
}

/// The data buffer a control request's transfer uses: zeros of its length
/// for device-to-host, its payload for host-to-device.
pub fn control_buffer(request: &ControlRequest) -> (r: Vec<u8>)
    ensures
        request.request_type & 0x80 != 0 ==> r@ == Seq::new(request.length as nat, |i: int| 0u8),
        request.request_type & 0x80 == 0 ==> r@ == request.data@,
{
    if request.request_type & 0x80 != 0 {
        let mut v: Vec<u8> = Vec::new();
        let mut i: u16 = 0;
        while i < request.length
            invariant
                i <= request.length,
                v@ == Seq::new(i as nat, |k: int| 0u8),
            decreases request.length - i,
        {
            v.push(0);
            i = i + 1;
            assert(v@ =~= Seq::new(i as nat, |k: int| 0u8));
        }
        v
    } else {
        let mut v: Vec<u8> = Vec::new();
        crate::bytes::append_bytes(&mut v, request.data.as_slice());
        assert(v@ =~= request.data@);
        v
    }
}

/// What a `control` node holds after a transfer: the bytes read for
/// device-to-host, else `ok transferred=N` and a newline.
pub fn control_reply(request_type: u8, data: Vec<u8>, actual: usize) -> (r: Vec<u8>)
    requires
        request_type & 0x80 != 0 ==> actual <= data@.len(),
    ensures
        request_type & 0x80 != 0 ==> r@ == data@.subrange(0, actual as int),
        request_type & 0x80 == 0 ==> r@ == encode_utf8(
            "ok transferred="@ + decimal(actual as nat) + "\n"@,
        ),
{
    if request_type & 0x80 != 0 {
        crate::bytes::copy_range(data.as_slice(), 0, actual)
    } else {
        let mut s = String::from_str("ok transferred=");
        push_decimal(&mut s, actual as u64);
        s.append("\n");
        text_bytes(s)
    }
}

} // verus!
