//! Output selection: picks the connector, encoder, CRTC and mode that the
//! hardware backend is bound to, from the device's enumerated resources.
use vstd::prelude::*;

verus! {

/// Connection state of a connector, as reported by the device.
#[derive(Clone, Copy, Debug, PartialEq, Eq, Structural)]
pub enum ConnectorState {
    Connected,
    Disconnected,
    Unknown,
}

/// A display mode descriptor (resolution and timing summary).
#[derive(Clone, Copy, Debug, PartialEq, Eq, Structural)]
pub struct Mode {
    pub clock: u32,
    pub hdisplay: u16,
    pub vdisplay: u16,
    pub vrefresh: u32,
}

/// What the device reports of one connector.
#[derive(Debug)]
pub struct ConnectorInfo {
    pub handle: u32,
    pub state: ConnectorState,
    /// Encoders that can drive this connector, in the device's order.
    pub encoders: Vec<u32>,
    /// Advertised modes, in the device's order.
    pub modes: Vec<Mode>,
}

/// What the device reports of one encoder.
#[derive(Debug)]
pub struct EncoderInfo {
    pub handle: u32,
    /// The CRTC this encoder is currently bound to, if any.
    pub current_crtc: Option<u32>,
    /// The CRTCs this encoder can be bound to: bit `k` stands for the
    /// device's `k`-th CRTC.
    pub possible_crtcs: u32,
}

/// The device's mode-setting resources, each in enumeration order.
#[derive(Debug)]
pub struct DeviceResources {
    pub connectors: Vec<ConnectorInfo>,
    pub encoders: Vec<EncoderInfo>,
    pub crtcs: Vec<u32>,
}

/// The fixed output that the hardware backend is bound to.
#[derive(Clone, Copy, Debug, PartialEq, Eq, Structural)]
pub struct OutputSelection {
    pub connector: u32,
    pub encoder: u32,
    pub crtc: u32,
    pub mode: Mode,
}

/// Why no output could be selected; every one of these is fatal at startup.
#[derive(Clone, Copy, Debug, PartialEq, Eq, Structural)]
pub enum SelectError {
    NoConnectedOutput,
    NoEncoder,
    NoCompatibleCrtc,
    NoMode,
}

/// `i` is the first connected connector of `cs`.
pub open spec fn is_first_connected(cs: Seq<ConnectorInfo>, i: int) -> bool {
    &&& 0 <= i < cs.len()
    &&& cs[i].state == ConnectorState::Connected
    &&& forall|j: int| 0 <= j < i ==> cs[j].state != ConnectorState::Connected
}

pub open spec fn any_connected(cs: Seq<ConnectorInfo>) -> bool {
    exists|j: int| 0 <= j < cs.len() && cs[j].state == ConnectorState::Connected
}

/// `i` is the first encoder record of `es` with the given handle.
pub open spec fn is_first_encoder(es: Seq<EncoderInfo>, handle: u32, i: int) -> bool {
    &&& 0 <= i < es.len()
    &&& es[i].handle == handle
    &&& forall|j: int| 0 <= j < i ==> es[j].handle != handle
}

pub open spec fn has_encoder(es: Seq<EncoderInfo>, handle: u32) -> bool {
    exists|j: int| 0 <= j < es.len() && es[j].handle == handle
}

/// The CRTC at index `k` of the device is in the set `mask`.
pub open spec fn in_crtc_mask(mask: u32, k: int) -> bool {
    0 <= k < 32 && (mask >> (k as u32)) & 1u32 == 1u32
}

/// `i` is the index of the first CRTC of `crtcs` that is in `mask`.
pub open spec fn is_first_compatible(crtcs: Seq<u32>, mask: u32, i: int) -> bool {
    &&& 0 <= i < crtcs.len()
    &&& in_crtc_mask(mask, i)
    &&& forall|j: int| 0 <= j < i ==> !#[trigger] in_crtc_mask(mask, j)
}

pub open spec fn any_compatible(crtcs: Seq<u32>, mask: u32) -> bool {
    exists|j: int| 0 <= j < crtcs.len() && #[trigger] in_crtc_mask(mask, j)
}

/// The CRTC an encoder is driven through: its current one, else the first
/// compatible CRTC of the device.
pub open spec fn crtc_choice(e: EncoderInfo, crtcs: Seq<u32>, c: u32) -> bool {
    match e.current_crtc {
        Some(cur) => c == cur,
        None => exists|i: int| #[trigger] is_first_compatible(crtcs, e.possible_crtcs, i) && crtcs[i] == c,
    }
}

/// Index of the first connector whose state is connected.
pub fn select_connector(connectors: &Vec<ConnectorInfo>) -> (r: Result<usize, SelectError>)
    ensures
        match r {
            Ok(i) => is_first_connected(connectors@, i as int),
            Err(e) => e == SelectError::NoConnectedOutput && !any_connected(connectors@),
        },
{
    let mut i: usize = 0;
    while i < connectors.len()
        invariant
            i <= connectors.len(),
            forall|j: int| 0 <= j < i ==> connectors@[j].state != ConnectorState::Connected,
        decreases connectors.len() - i,
    {
        if connectors[i].state == ConnectorState::Connected {
            return Ok(i);
        }
        i += 1;
    }
    Err(SelectError::NoConnectedOutput)
}

/// Index of the first encoder record with the given handle.
pub fn find_encoder(encoders: &Vec<EncoderInfo>, handle: u32) -> (r: Option<usize>)
    ensures
        match r {
            Some(i) => is_first_encoder(encoders@, handle, i as int),
            None => !has_encoder(encoders@, handle),
        },
{
    let mut i: usize = 0;
    while i < encoders.len()
        invariant
            i <= encoders.len(),
            forall|j: int| 0 <= j < i ==> encoders@[j].handle != handle,
        decreases encoders.len() - i,
    {
        if encoders[i].handle == handle {
            return Some(i);
        }
        i += 1;
    }
    None
}

/// Whether the CRTC at index `k` is in the set `mask`.
pub fn crtc_in_mask(mask: u32, k: usize) -> (r: bool)
    ensures
        r == in_crtc_mask(mask, k as int),
{
    k < 32 && (mask >> (k as u32)) & 1u32 == 1u32
}

/// The encoder's current CRTC if it has one, else the first CRTC of `crtcs`
/// that the encoder can be bound to.
pub fn select_crtc(encoder: &EncoderInfo, crtcs: &Vec<u32>) -> (r: Result<u32, SelectError>)
    ensures
        match r {
            Ok(c) => crtc_choice(*encoder, crtcs@, c),
            Err(e) => e == SelectError::NoCompatibleCrtc && encoder.current_crtc is None
                && !any_compatible(crtcs@, encoder.possible_crtcs),
        },
{
    match encoder.current_crtc {
        Some(cur) => {
            return Ok(cur);
        },
        None => {},
    }
    let mut i: usize = 0;
    while i < crtcs.len()
        invariant
            i <= crtcs.len(),
            encoder.current_crtc is None,
            forall|j: int| 0 <= j < i ==> !#[trigger] in_crtc_mask(encoder.possible_crtcs, j),
        decreases crtcs.len() - i,
    {
        if crtc_in_mask(encoder.possible_crtcs, i) {
            assert(is_first_compatible(crtcs@, encoder.possible_crtcs, i as int));
            return Ok(crtcs[i]);
        }
        i += 1;
    }
    Err(SelectError::NoCompatibleCrtc)
}

/// Selects the output: the first connected connector, its first listed
/// encoder, that encoder's CRTC (see `select_crtc`) and the connector's first
/// mode. The checks run in that order and the first that fails is reported.
pub fn select_output(res: &DeviceResources) -> (r: Result<OutputSelection, SelectError>)
    ensures
        ({
            let cs = res.connectors@;
            let es = res.encoders@;
            match r {
                Ok(sel) => exists|ci: int, ei: int|
                    #[trigger] is_first_connected(cs, ci) && cs[ci].encoders@.len() > 0
                        && #[trigger] is_first_encoder(es, cs[ci].encoders@[0], ei)
                        && cs[ci].modes@.len() > 0 && sel.connector == cs[ci].handle
                        && sel.encoder == cs[ci].encoders@[0]
                        && crtc_choice(es[ei], res.crtcs@, sel.crtc)
                        && sel.mode == cs[ci].modes@[0],
                Err(SelectError::NoConnectedOutput) => !any_connected(cs),
                Err(SelectError::NoEncoder) => exists|ci: int|
                    #[trigger] is_first_connected(cs, ci) && (cs[ci].encoders@.len() == 0
                        || !has_encoder(es, cs[ci].encoders@[0])),
                Err(SelectError::NoCompatibleCrtc) => exists|ci: int, ei: int|
                    #[trigger] is_first_connected(cs, ci) && cs[ci].encoders@.len() > 0
                        && #[trigger] is_first_encoder(es, cs[ci].encoders@[0], ei)
                        && es[ei].current_crtc is None
                        && !any_compatible(res.crtcs@, es[ei].possible_crtcs),
                Err(SelectError::NoMode) => exists|ci: int, ei: int|
                    #[trigger] is_first_connected(cs, ci) && cs[ci].encoders@.len() > 0
                        && #[trigger] is_first_encoder(es, cs[ci].encoders@[0], ei)
                        && (es[ei].current_crtc is Some
                        || any_compatible(res.crtcs@, es[ei].possible_crtcs))
                        && cs[ci].modes@.len() == 0,
            }
        }),
{
    let ci = select_connector(&res.connectors)?;
    let conn = &res.connectors[ci];
    if conn.encoders.len() == 0 {
        return Err(SelectError::NoEncoder);
    }
    let enc_handle = conn.encoders[0];
    let ei = match find_encoder(&res.encoders, enc_handle) {
        Some(ei) => ei,
        None => {
            return Err(SelectError::NoEncoder);
        },
    };
    let enc = &res.encoders[ei];
    let crtc = select_crtc(enc, &res.crtcs)?;
    if conn.modes.len() == 0 {
        return Err(SelectError::NoMode);
    }
    let sel = OutputSelection { connector: conn.handle, encoder: enc_handle, crtc, mode: conn.modes[0] };
    assert(is_first_connected(res.connectors@, ci as int) && is_first_encoder(res.encoders@, enc_handle, ei as int));
    Ok(sel)
}

} // verus!
