use raw_drm::output::{
    crtc_in_mask, select_connector, select_crtc, select_output, ConnectorInfo, ConnectorState, DeviceResources,
    EncoderInfo, Mode, OutputSelection, SelectError,
};

fn mode(w: u16, h: u16) -> Mode {
    Mode { clock: 148500, hdisplay: w, vdisplay: h, vrefresh: 60 }
}

fn connector(handle: u32, state: ConnectorState, encoders: Vec<u32>, modes: Vec<Mode>) -> ConnectorInfo {
    ConnectorInfo { handle, state, encoders, modes }
}

fn encoder(handle: u32, current_crtc: Option<u32>, possible_crtcs: u32) -> EncoderInfo {
    EncoderInfo { handle, current_crtc, possible_crtcs }
}

#[test]
fn second_connector_connected_is_chosen() {
    let res = DeviceResources {
        connectors: vec![
            connector(30, ConnectorState::Disconnected, vec![40], vec![mode(640, 480)]),
            connector(31, ConnectorState::Connected, vec![41, 40], vec![mode(1920, 1080), mode(1280, 720)]),
        ],
        encoders: vec![encoder(40, Some(50), 0b001), encoder(41, None, 0b110)],
        crtcs: vec![50, 51, 52],
    };
    assert_eq!(
        select_output(&res),
        Ok(OutputSelection { connector: 31, encoder: 41, crtc: 51, mode: mode(1920, 1080) })
    );
}

#[test]
fn first_of_several_connected_connectors() {
    let cs = vec![
        connector(1, ConnectorState::Unknown, vec![], vec![]),
        connector(2, ConnectorState::Connected, vec![], vec![]),
        connector(3, ConnectorState::Connected, vec![], vec![]),
    ];
    assert_eq!(select_connector(&cs), Ok(1));
}

#[test]
fn no_connected_output() {
    let res = DeviceResources {
        connectors: vec![
            connector(1, ConnectorState::Disconnected, vec![5], vec![mode(800, 600)]),
            connector(2, ConnectorState::Unknown, vec![5], vec![mode(800, 600)]),
        ],
        encoders: vec![encoder(5, Some(9), 0b1)],
        crtcs: vec![9],
    };
    assert_eq!(select_output(&res), Err(SelectError::NoConnectedOutput));
    let empty = DeviceResources { connectors: vec![], encoders: vec![], crtcs: vec![] };
    assert_eq!(select_output(&empty), Err(SelectError::NoConnectedOutput));
}

#[test]
fn current_crtc_is_preferred() {
    let e = encoder(7, Some(99), 0b011);
    assert_eq!(select_crtc(&e, &vec![10, 11, 99]), Ok(99));
}

#[test]
fn first_compatible_crtc_without_current() {
    let e = encoder(7, None, 0b110);
    assert_eq!(select_crtc(&e, &vec![10, 11, 12]), Ok(11));
}

#[test]
fn no_compatible_crtc() {
    let res = DeviceResources {
        connectors: vec![connector(1, ConnectorState::Connected, vec![5], vec![mode(800, 600)])],
        encoders: vec![encoder(5, None, 0b100)],
        crtcs: vec![9, 10],
    };
    assert_eq!(select_output(&res), Err(SelectError::NoCompatibleCrtc));
}

#[test]
fn no_encoder_listed_or_known() {
    let res = DeviceResources {
        connectors: vec![connector(1, ConnectorState::Connected, vec![], vec![mode(800, 600)])],
        encoders: vec![encoder(5, Some(9), 0b1)],
        crtcs: vec![9],
    };
    assert_eq!(select_output(&res), Err(SelectError::NoEncoder));
    let res = DeviceResources {
        connectors: vec![connector(1, ConnectorState::Connected, vec![6], vec![mode(800, 600)])],
        encoders: vec![encoder(5, Some(9), 0b1)],
        crtcs: vec![9],
    };
    assert_eq!(select_output(&res), Err(SelectError::NoEncoder));
}

#[test]
fn no_mode_advertised() {
    let res = DeviceResources {
        connectors: vec![connector(1, ConnectorState::Connected, vec![5], vec![])],
        encoders: vec![encoder(5, Some(9), 0b1)],
        crtcs: vec![9],
    };
    assert_eq!(select_output(&res), Err(SelectError::NoMode));
}

#[test]
fn crtc_mask_bits() {
    assert!(crtc_in_mask(0b101, 0));
    assert!(!crtc_in_mask(0b101, 1));
    assert!(crtc_in_mask(0b101, 2));
    assert!(crtc_in_mask(0x8000_0000, 31));
    assert!(!crtc_in_mask(u32::MAX, 32));
}
