//! EHCI (USB 2.0) register layout, queue heads and transfer descriptors
//! (EHCI 1.0 sections 2.2, 3.5 and 3.6).
use vstd::prelude::*;

verus! {

// ---- Capability registers ----
pub const CAPLENGTH: usize = 0x00;

pub const HCSPARAMS: usize = 0x04;

pub const HCCPARAMS: usize = 0x08;

pub const HCSP_PORT_ROUTE: usize = 0x0C;

pub const HCCPARAMS_64BIT: u32 = 1 << 0;

/// The offset of the operational registers: the capability length.
pub fn op_base(caplength: u8) -> (r: usize)
    ensures
        r == caplength,
{
    caplength as usize
}

// ---- Operational registers ----
pub const USBCMD: usize = 0x00;

pub const USBSTS: usize = 0x04;

pub const USBINTR: usize = 0x08;

pub const FRINDEX: usize = 0x0C;

pub const CTRLDSSEGMENT: usize = 0x10;

pub const PERIODICLISTBASE: usize = 0x14;

pub const ASYNCLISTADDR: usize = 0x18;

pub const CONFIGFLAG: usize = 0x40;

pub const PORTSC_BASE: usize = 0x44;

pub const CMD_RUN_STOP: u32 = 1 << 0;

pub const CMD_HCRESET: u32 = 1 << 1;

pub const CMD_FRAME_LIST_SIZE_MASK: u32 = 0x3 << 2;

pub const CMD_FRAME_LIST_SIZE_1024: u32 = 0x0 << 2;

pub const CMD_FRAME_LIST_SIZE_512: u32 = 0x1 << 2;

pub const CMD_FRAME_LIST_SIZE_256: u32 = 0x2 << 2;

pub const CMD_PERIODIC_SCHEDULE_ENABLE: u32 = 1 << 4;

pub const CMD_ASYNC_SCHEDULE_ENABLE: u32 = 1 << 5;

pub const CMD_INTERRUPT_ON_ASYNC_ADVANCE: u32 = 1 << 6;

pub const CMD_LIGHT_HOST_CONTROLLER_RESET: u32 = 1 << 7;

pub const CMD_ASYNC_SCHEDULE_PARK_MODE_COUNT: u32 = 0x3 << 8;

pub const CMD_ASYNC_SCHEDULE_PARK_MODE_ENABLE: u32 = 1 << 11;

pub const CMD_INTERRUPT_THRESHOLD_CONTROL: u32 = 0xFF << 16;

pub const STS_USB_INTERRUPT: u32 = 1 << 0;

pub const STS_USB_ERROR_INTERRUPT: u32 = 1 << 1;

pub const STS_PORT_CHANGE_DETECT: u32 = 1 << 2;

pub const STS_FRAME_LIST_ROLLOVER: u32 = 1 << 3;

pub const STS_HOST_SYSTEM_ERROR: u32 = 1 << 4;

pub const STS_INTERRUPT_ON_ASYNC_ADVANCE: u32 = 1 << 5;

pub const STS_HC_HALTED: u32 = 1 << 12;

pub const STS_RECLAMATION: u32 = 1 << 13;

pub const STS_PERIODIC_SCHEDULE_STATUS: u32 = 1 << 14;

pub const STS_ASYNC_SCHEDULE_STATUS: u32 = 1 << 15;

pub const INTR_USB_INTERRUPT_ENABLE: u32 = 1 << 0;

pub const INTR_USB_ERROR_INTERRUPT_ENABLE: u32 = 1 << 1;

pub const INTR_PORT_CHANGE_ENABLE: u32 = 1 << 2;

pub const INTR_FRAME_LIST_ROLLOVER_ENABLE: u32 = 1 << 3;

pub const INTR_HOST_SYSTEM_ERROR_ENABLE: u32 = 1 << 4;

pub const INTR_ASYNC_ADVANCE_ENABLE: u32 = 1 << 5;

pub const CF_FLAG: u32 = 1 << 0;

pub const PORT_CONNECT: u32 = 1 << 0;

pub const PORT_CONNECT_CHANGE: u32 = 1 << 1;

pub const PORT_ENABLE: u32 = 1 << 2;

pub const PORT_ENABLE_CHANGE: u32 = 1 << 3;

pub const PORT_OVER_CURRENT_ACTIVE: u32 = 1 << 4;

pub const PORT_OVER_CURRENT_CHANGE: u32 = 1 << 5;

pub const PORT_FORCE_PORT_RESUME: u32 = 1 << 6;

pub const PORT_SUSPEND: u32 = 1 << 7;

pub const PORT_RESET: u32 = 1 << 8;

pub const PORT_LINE_STATUS: u32 = 0x3 << 10;

pub const PORT_LINE_STATUS_K: u32 = 0x1 << 10;

pub const PORT_LINE_STATUS_J: u32 = 0x2 << 10;

pub const PORT_POWER: u32 = 1 << 12;

pub const PORT_OWNER: u32 = 1 << 13;

pub const PORT_INDICATOR: u32 = 0x3 << 14;

pub const PORT_TEST_CONTROL: u32 = 0xF << 16;

pub const PORT_WAKE_CONNECT: u32 = 1 << 20;

pub const PORT_WAKE_DISCONNECT: u32 = 1 << 21;

pub const PORT_WAKE_OVER_CURRENT: u32 = 1 << 22;

/// The write-1-to-clear change bits of PORTSC.
pub const PORTSC_CHANGE_BITS: u32 = PORT_CONNECT_CHANGE | PORT_ENABLE_CHANGE
    | PORT_OVER_CURRENT_CHANGE;

/// The PORTSC bits that software writes back as they are.
pub const PORTSC_WRITE_MASK: u32 = PORT_ENABLE | PORT_FORCE_PORT_RESUME | PORT_SUSPEND | PORT_RESET
    | PORT_POWER | PORT_OWNER | PORT_INDICATOR | PORT_TEST_CONTROL | PORT_WAKE_CONNECT
    | PORT_WAKE_DISCONNECT | PORT_WAKE_OVER_CURRENT;

/// The byte offset of a port's PORTSC register among the operational registers.
pub fn portsc_offset(port: usize) -> (r: usize)
    requires
        PORTSC_BASE + port * 4 <= usize::MAX,
    ensures
        r == PORTSC_BASE + port * 4,
{
    PORTSC_BASE + (port * 4)
}

/// The structural parameters that HCSPARAMS reports.
#[derive(Debug)]
pub struct HcCapParams {
    pub n_ports: u8,
    pub port_routing_rules: bool,
    pub n_cc: u8,
    pub n_pcc: u8,
    pub port_route: u32,
}

impl HcCapParams {
    /// Splits HCSPARAMS into its fields: N_PORTS in bits 0..4, the port
    /// routing rules flag in bit 7's neighbour bit 4, N_CC in bits 8..12 and
    /// N_PCC in bits 12..16.
    pub fn from_hcsparams(hcsparams: u32) -> (r: Self)
        ensures
            r.n_ports == hcsparams & 0xF,
            r.port_routing_rules == ((hcsparams >> 4u32) & 1 != 0),
            r.n_cc == (hcsparams >> 8u32) & 0xF,
            r.n_pcc == (hcsparams >> 12u32) & 0xF,
            r.port_route == 0,
    {
        proof {
            assert(hcsparams & 0xF < 256) by (bit_vector);
            assert((hcsparams >> 8u32) & 0xF < 256) by (bit_vector);
            assert((hcsparams >> 12u32) & 0xF < 256) by (bit_vector);
        }
        HcCapParams {
            n_ports: (hcsparams & 0xF) as u8,
            port_routing_rules: (hcsparams >> 4u32) & 1 != 0,
            n_cc: ((hcsparams >> 8u32) & 0xF) as u8,
            n_pcc: ((hcsparams >> 12u32) & 0xF) as u8,
            port_route: 0,
        }
    }
}

// ---- Queue heads ----
/// An EHCI queue head, word by word.
#[derive(Clone, Copy, Debug)]
pub struct QueueHead {
    pub horiz_link: u32,
    pub caps: [u32; 2],
    pub current_qtd: u32,
    pub overlay: [u32; 8],
}

pub const QH_TERMINATE: u32 = 1;

pub const QH_HEAD_MASK: u32 = 0xFFFF_FFE0;

pub const QH_LINK_TYPE_QH: u32 = 0x2;

pub const QH_ENDPOINT_DTC: u32 = 1 << 14;

pub const QH_ENDPOINT_HEAD: u32 = 1 << 15;

pub const QH_ENDPOINT_SPEED_HIGH: u32 = 0x2 << 12;

pub const QH_NAK_RELOAD_4: u32 = 0x4 << 28;

pub const QH_CAP_MULT_ONE: u32 = 0x1 << 30;

impl QueueHead {
    /// A queue head that links nowhere and whose overlay points at no qTD.
    pub fn new() -> (r: Self)
        ensures
            r.horiz_link == QH_TERMINATE,
            r.caps@ == seq![0u32, 0u32],
            r.current_qtd == 0,
            r.overlay@ == seq![TD_TERMINATE, TD_TERMINATE, 0u32, 0u32, 0u32, 0u32, 0u32, 0u32],
    {
        let r = QueueHead {
            horiz_link: QH_TERMINATE,
            caps: [0, 0],
            current_qtd: 0,
            overlay: [TD_TERMINATE, TD_TERMINATE, 0, 0, 0, 0, 0, 0],
        };
        assert(r.caps@ =~= seq![0u32, 0u32]);
        assert(r.overlay@ =~= seq![TD_TERMINATE, TD_TERMINATE, 0u32, 0u32, 0u32, 0u32, 0u32, 0u32]);
        r
    }
}

// ---- Transfer descriptors ----
/// An EHCI queue element transfer descriptor (qTD), word by word.
#[derive(Clone, Copy, Debug)]
pub struct TransferDescriptor {
    pub next_qtd: u32,
    pub alt_qtd: u32,
    pub token: u32,
    pub buffers: [u32; 5],
}

/// The bytes one qTD occupies (eight 32-bit words, 32-byte aligned).
pub const TD_SIZE: usize = 32;

pub const TD_TERMINATE: u32 = 1;

pub const TD_ACTIVE: u32 = 1 << 7;

pub const TD_HALTED: u32 = 1 << 6;

pub const TD_BUFERR: u32 = 1 << 5;

pub const TD_BABBLE: u32 = 1 << 4;

pub const TD_XACTERR: u32 = 1 << 3;

pub const TD_MISSED: u32 = 1 << 2;

pub const TD_C_PAGE_MASK: u32 = 0x7 << 12;

pub const TD_IOC: u32 = 1 << 15;

pub const TD_ERROR_COUNTER_3: u32 = 0x3 << 10;

pub const TD_TOTAL_BYTES_SHIFT: u32 = 16;

pub const TD_TOTAL_BYTES_MASK: u32 = 0x7FFF_0000;

pub const TD_PID_IN: u32 = 1 << 8;

pub const TD_PID_OUT: u32 = 0 << 8;

pub const TD_PID_SETUP: u32 = 2 << 8;

pub const TD_PID_MASK: u32 = 3 << 8;

/// The data toggle bit of a qTD token.
pub const TD_DATA_TOGGLE: u32 = 0x8000_0000;

/// A horizontal link pointer naming a queue head: the address's 32-byte
/// aligned low word with the QH type.
pub open spec fn qh_link_word(phys_addr: u64) -> u32 {
    ((phys_addr as u32) & QH_HEAD_MASK) | QH_LINK_TYPE_QH
}

pub fn qh_link_pointer(phys_addr: u64) -> (r: u32)
    ensures
        r == qh_link_word(phys_addr),
        r & 0x1F == QH_LINK_TYPE_QH,
        r & QH_HEAD_MASK == (phys_addr as u32) & QH_HEAD_MASK,
{
    let low = phys_addr as u32;
    let r = (low & QH_HEAD_MASK) | QH_LINK_TYPE_QH;
    assert(r & 0x1F == 2u32 && r & 0xFFFF_FFE0u32 == low & 0xFFFF_FFE0u32) by (bit_vector)
        requires
            r == (low & 0xFFFF_FFE0u32) | 2u32,
    ;
    r
}

/// The endpoint characteristics word of a high-speed control queue head:
/// device address in bits 0..7, endpoint in 8..12, high speed in 12..14,
/// data toggle control (bit 14), head of reclamation (bit 15), maximum
/// packet size in 16..27 and a NAK count reload of 4 in 28..32.
pub open spec fn qh_characteristics_word(
    device_address: u8,
    endpoint: u8,
    max_packet_size: u16,
    head_of_reclamation: bool,
) -> u32 {
    let base = ((device_address & 0x7F) as u32) | (((endpoint & 0x0F) as u32) << 8u32)
        | QH_ENDPOINT_SPEED_HIGH | QH_ENDPOINT_DTC | (((max_packet_size & 0x07FF) as u32)
        << 16u32) | QH_NAK_RELOAD_4;
    if head_of_reclamation {
        base | QH_ENDPOINT_HEAD
    } else {
        base
    }
}

pub fn qh_endpoint_characteristics(
    device_address: u8,
    endpoint: u8,
    max_packet_size: u16,
    head_of_reclamation: bool,
) -> (r: u32)
    ensures
        r == qh_characteristics_word(device_address, endpoint, max_packet_size, head_of_reclamation),
        r & 0x7F == device_address & 0x7F,
        (r >> 8u32) & 0xF == endpoint & 0xF,
        (r >> 16u32) & 0x7FF == max_packet_size & 0x7FF,
        (r >> 15u32) & 1 == (if head_of_reclamation { 1u32 } else { 0u32 }),
{
    let a: u32 = (device_address & 0x7F) as u32;
    let e: u32 = (endpoint & 0x0F) as u32;
    let m: u32 = (max_packet_size & 0x07FF) as u32;
    let mut value = a | (e << 8u32) | QH_ENDPOINT_SPEED_HIGH | QH_ENDPOINT_DTC | (m << 16u32)
        | QH_NAK_RELOAD_4;
    if head_of_reclamation {
        value = value | QH_ENDPOINT_HEAD;
    }
    proof {
        assert(QH_ENDPOINT_SPEED_HIGH == 0x2000u32) by (bit_vector);
        assert(QH_ENDPOINT_DTC == 0x4000u32) by (bit_vector);
        assert(QH_NAK_RELOAD_4 == 0x4000_0000u32) by (bit_vector);
        assert(QH_ENDPOINT_HEAD == 0x8000u32) by (bit_vector);
        assert(a == device_address & 0x7F && a < 0x80) by (bit_vector)
            requires
                a == (device_address & 0x7F) as u32,
        ;
        assert(e == endpoint & 0xF && e < 0x10) by (bit_vector)
            requires
                e == (endpoint & 0x0F) as u32,
        ;
        assert(m == max_packet_size & 0x7FF && m < 0x800) by (bit_vector)
            requires
                m == (max_packet_size & 0x07FF) as u32,
        ;
        let v0 = a | (e << 8u32) | 0x2000u32 | 0x4000u32 | (m << 16u32) | 0x4000_0000u32;
        assert({
            &&& v0 & 0x7F == a
            &&& (v0 >> 8u32) & 0xF == e
            &&& (v0 >> 16u32) & 0x7FF == m
            &&& (v0 >> 15u32) & 1 == 0
            &&& (v0 | 0x8000u32) & 0x7F == a
            &&& ((v0 | 0x8000u32) >> 8u32) & 0xF == e
            &&& ((v0 | 0x8000u32) >> 16u32) & 0x7FF == m
            &&& ((v0 | 0x8000u32) >> 15u32) & 1 == 1
        }) by (bit_vector)
            requires
                a < 0x80,
                e < 0x10,
                m < 0x800,
                v0 == a | (e << 8u32) | 0x2000u32 | 0x4000u32 | (m << 16u32) | 0x4000_0000u32,
        ;
    }
    value
}

/// The endpoint capabilities word: one transaction per microframe.
pub fn qh_endpoint_capabilities() -> (r: u32)
    ensures
        r == QH_CAP_MULT_ONE,
{
    QH_CAP_MULT_ONE
}

/// The five buffer page pointers of a qTD whose data starts at `phys_addr`:
/// the address itself, then the following 4 KiB pages (wrapping at 4 GiB).
pub open spec fn qtd_buffer_words(phys_addr: u64) -> Seq<u32> {
    let addr = phys_addr as u32;
    let page = addr & 0xFFFF_F000;
    seq![
        addr,
        ((page + 0x1000) % 0x1_0000_0000) as u32,
        ((page + 0x2000) % 0x1_0000_0000) as u32,
        ((page + 0x3000) % 0x1_0000_0000) as u32,
        ((page + 0x4000) % 0x1_0000_0000) as u32,
    ]
}

fn qtd_buffers(phys_addr: u64) -> (r: [u32; 5])
    ensures
        r@ == qtd_buffer_words(phys_addr),
{
    let addr = phys_addr as u32;
    let page_base = addr & 0xFFFF_F000;
    let mut buffers: [u32; 5] = [addr, 0, 0, 0, 0];
    let mut index: usize = 1;
    while index < 5
        invariant
            1 <= index <= 5,
            buffers@.len() == 5,
            buffers@[0] == addr,
            forall|k: int|
                1 <= k < index ==> buffers@[k] == ((page_base + 0x1000 * k) % 0x1_0000_0000) as u32,
        decreases 5 - index,
    {
        let step: u32 = (index as u32) * 0x1000;
        buffers[index] = page_base.wrapping_add(step);
        index = index + 1;
    }
    assert(buffers@ =~= qtd_buffer_words(phys_addr));
    buffers
}

/// The setup stage token: active, SETUP PID, three retries, 8 bytes.
pub open spec fn setup_token(toggle: bool) -> u32 {
    let t = TD_ACTIVE | TD_PID_SETUP | TD_ERROR_COUNTER_3 | (8u32 << TD_TOTAL_BYTES_SHIFT);
    if toggle {
        t | TD_DATA_TOGGLE
    } else {
        t
    }
}

/// A data stage token: active, IN or OUT PID, three retries and the
/// transfer length (15 bits).
pub open spec fn data_token(len: usize, dir_in: bool, toggle: bool) -> u32 {
    let pid = if dir_in {
        TD_PID_IN
    } else {
        TD_PID_OUT
    };
    let t = TD_ACTIVE | pid | TD_ERROR_COUNTER_3 | (((len as u32) & 0x7FFF) << TD_TOTAL_BYTES_SHIFT);
    if toggle {
        t | TD_DATA_TOGGLE
    } else {
        t
    }
}

/// The status stage token: the direction opposite to the data stage,
/// interrupt on completion, data toggle 1, no bytes.
pub open spec fn status_token(dir_in: bool) -> u32 {
    let pid = if dir_in {
        TD_PID_OUT
    } else {
        TD_PID_IN
    };
    TD_ACTIVE | pid | TD_ERROR_COUNTER_3 | TD_IOC | TD_DATA_TOGGLE
}

/// Whether a qTD holds exactly these words.
pub open spec fn is_td(td: TransferDescriptor, next: u32, alt: u32, token: u32, buffers: Seq<
    u32,
>) -> bool {
    &&& td.next_qtd == next
    &&& td.alt_qtd == alt
    &&& td.token == token
    &&& td.buffers@ == buffers
}

pub open spec fn zero_buffers() -> Seq<u32> {
    seq![0u32, 0u32, 0u32, 0u32, 0u32]
}

pub fn build_setup_td(phys_addr: u64, _setup_data: &[u8; 8], toggle: bool) -> (r:
    TransferDescriptor)
    ensures
        is_td(r, TD_TERMINATE, TD_TERMINATE, setup_token(toggle), qtd_buffer_words(phys_addr)),
{
    let base = TD_ACTIVE | TD_PID_SETUP | TD_ERROR_COUNTER_3 | (8u32 << TD_TOTAL_BYTES_SHIFT);
    let token = if toggle {
        base | TD_DATA_TOGGLE
    } else {
        base
    };
    TransferDescriptor {
        next_qtd: TD_TERMINATE,
        alt_qtd: TD_TERMINATE,
        token,
        buffers: qtd_buffers(phys_addr),
    }
}

pub fn build_data_td(phys_addr: u64, len: usize, dir_in: bool, toggle: bool) -> (r:
    TransferDescriptor)
    ensures
        is_td(r, TD_TERMINATE, TD_TERMINATE, data_token(len, dir_in, toggle), qtd_buffer_words(phys_addr)),
{
    let pid = if dir_in {
        TD_PID_IN
    } else {
        TD_PID_OUT
    };
    let base = TD_ACTIVE | pid | TD_ERROR_COUNTER_3 | (((len as u32) & 0x7FFF)
        << TD_TOTAL_BYTES_SHIFT);
    let token = if toggle {
        base | TD_DATA_TOGGLE
    } else {
        base
    };
    TransferDescriptor {
        next_qtd: TD_TERMINATE,
        alt_qtd: TD_TERMINATE,
        token,
        buffers: qtd_buffers(phys_addr),
    }
}

pub fn build_status_td(dir_in: bool) -> (r: TransferDescriptor)
    ensures
        is_td(r, TD_TERMINATE, TD_TERMINATE, status_token(dir_in), zero_buffers()),
{
    let pid = if dir_in {
        TD_PID_OUT
    } else {
        TD_PID_IN
    };
    let r = TransferDescriptor {
        next_qtd: TD_TERMINATE,
        alt_qtd: TD_TERMINATE,
        token: TD_ACTIVE | pid | TD_ERROR_COUNTER_3 | TD_IOC | TD_DATA_TOGGLE,
        buffers: [0, 0, 0, 0, 0],
    };
    assert(r.buffers@ =~= zero_buffers());
    r
}

/// The 32-byte aligned low word of the address of qTD `index` in a pool at
/// `pool_phys`, if that address fits in 64 bits.
pub open spec fn td_phys_spec(pool_phys: u64, index: int) -> Option<u32> {
    if pool_phys + index * TD_SIZE <= u64::MAX {
        Some((((pool_phys + index * TD_SIZE) as u64) as u32) & 0xFFFF_FFE0)
    } else {
        None
    }
}

fn td_phys(pool_phys: u64, index: usize) -> (r: Option<u32>)
    requires
        index <= 2,
    ensures
        r == td_phys_spec(pool_phys, index as int),
{
    let offset = index * TD_SIZE;
    let phys = pool_phys.checked_add(offset as u64)?;
    Some((phys as u32) & 0xFFFF_FFE0)
}

/// Whether a pool holds the qTD chain of a control transfer: setup, an
/// optional data stage, then status, each linked to the next.
pub open spec fn control_chain(
    pool: Seq<TransferDescriptor>,
    setup_phys: u64,
    data_phys: u64,
    data_len: usize,
    dir_in: bool,
    pool_phys: u64,
) -> bool {
    if data_len > 0 {
        &&& is_td(
            pool[0],
            td_phys_spec(pool_phys, 1)->0,
            TD_TERMINATE,
            setup_token(false),
            qtd_buffer_words(setup_phys),
        )
        &&& is_td(
            pool[1],
            td_phys_spec(pool_phys, 2)->0,
            td_phys_spec(pool_phys, 2)->0,
            data_token(data_len, dir_in, true),
            qtd_buffer_words(data_phys),
        )
        &&& is_td(pool[2], TD_TERMINATE, TD_TERMINATE, status_token(dir_in), zero_buffers())
    } else {
        &&& is_td(
            pool[0],
            td_phys_spec(pool_phys, 1)->0,
            TD_TERMINATE,
            setup_token(false),
            qtd_buffer_words(setup_phys),
        )
        &&& is_td(pool[1], TD_TERMINATE, TD_TERMINATE, status_token(dir_in), zero_buffers())
    }
}

/// The number of qTDs a control transfer uses.
pub open spec fn control_td_count(data_len: usize) -> int {
    if data_len > 0 {
        3
    } else {
        2
    }
}

/// Builds the qTD chain of a control transfer in `td_pool` and gives the
/// address of its first qTD; `None`, with the pool untouched, where the
/// pool is too small or the addresses overflow.
pub fn build_control_transfer(
    setup_phys: u64,
    setup_data: &[u8; 8],
    data_phys: u64,
    data_len: usize,
    dir_in: bool,
    td_pool: &mut [TransferDescriptor],
    td_pool_phys: u64,
) -> (r: Option<u32>)
    ensures
        match r {
            None => {
                &&& final(td_pool)@ == old(td_pool)@
                &&& (old(td_pool)@.len() < control_td_count(data_len) || td_phys_spec(
                    td_pool_phys,
                    control_td_count(data_len) - 1,
                ) is None)
            },
            Some(first) => {
                &&& old(td_pool)@.len() >= control_td_count(data_len)
                &&& td_phys_spec(td_pool_phys, control_td_count(data_len) - 1) is Some
                &&& first == td_phys_spec(td_pool_phys, 0)->0
                &&& final(td_pool)@.len() == old(td_pool)@.len()
                &&& control_chain(
                    final(td_pool)@,
                    setup_phys,
                    data_phys,
                    data_len,
                    dir_in,
                    td_pool_phys,
                )
                &&& forall|k: int|
                    control_td_count(data_len) <= k < old(td_pool)@.len() ==> final(td_pool)@[k]
                        == old(td_pool)@[k]
            },
        },
{
    if td_pool.len() < 2 {
        return None;
    }
    let td_count: usize = if data_len > 0 {
        3
    } else {
        2
    };
    if td_pool.len() < td_count {
        return None;
    }
    let setup_td_phys = match td_phys(td_pool_phys, 0) {
        Some(p) => p,
        None => return None,
    };
    let status_td_phys = match td_phys(td_pool_phys, td_count - 1) {
        Some(p) => p,
        None => return None,
    };
    let setup = build_setup_td(setup_phys, setup_data, false);
    if data_len > 0 {
        let data_td_phys = match td_phys(td_pool_phys, 1) {
            Some(p) => p,
            None => return None,
        };
        td_pool[0] = TransferDescriptor { next_qtd: data_td_phys, ..setup };
        let data = build_data_td(data_phys, data_len, dir_in, true);
        td_pool[1] = TransferDescriptor {
            next_qtd: status_td_phys,
            alt_qtd: status_td_phys,
            ..data
        };
        td_pool[2] = build_status_td(dir_in);
    } else {
        td_pool[0] = TransferDescriptor { next_qtd: status_td_phys, ..setup };
        td_pool[1] = build_status_td(dir_in);
    }
    Some(setup_td_phys)
}

} // verus!
