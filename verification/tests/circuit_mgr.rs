use tetra_entities::cmce::components::circuit_mgr::{
    CircuitErr, CircuitMgr, CircuitMgrCmd, CircuitModeType, CmceCircuit, CommunicationType,
};
use tetra_entities::tdma::{Direction, TdmaTime};

fn circuit(ts: u8, call_id: u16, usage: u8, simplex_duplex: bool, created: TdmaTime) -> CmceCircuit {
    CmceCircuit {
        ts_created: created,
        direction: Direction::Both,
        ts,
        carrier_num: 1584,
        call_id,
        usage,
        circuit_mode: CircuitModeType::TchS,
        comm_type: CommunicationType::P2p,
        simplex_duplex,
        speech_service: Some(0),
        etee_encrypted: false,
    }
}

#[test]
fn duplex_circuit_survives_expiry_of_simplex_circuit() {
    let mut mgr = CircuitMgr::new();
    let created = TdmaTime { h: 0, m: 1, f: 1, t: 1 };
    mgr.dl.push(circuit(2, 10, 4, true, created));
    mgr.dl.push(circuit(3, 11, 5, false, created));

    // Seven hyperframes later: beyond the six-minute expiry of simplex circuits.
    let later = TdmaTime { h: 7, m: 1, f: 1, t: 1 };
    let tasks = mgr.tick_start(later);

    let closes: Vec<CmceCircuit> = tasks
        .unwrap_or_default()
        .into_iter()
        .filter_map(|cmd| match cmd {
            CircuitMgrCmd::SendClose(_, c) => Some(c),
            _ => None,
        })
        .collect();
    assert_eq!(closes.len(), 1);
    assert_eq!(closes[0].ts, 3);
    assert!(!closes[0].simplex_duplex);
    assert!(mgr.is_active_dir_slot(1584, 2, Direction::Dl));
    assert!(!mgr.is_active_dir_slot(1584, 3, Direction::Dl));
}

#[test]
fn young_simplex_circuit_is_kept_and_its_setup_repeated() {
    let mut mgr = CircuitMgr::new();
    let created = TdmaTime { h: 0, m: 1, f: 1, t: 1 };
    mgr.dl.push(circuit(2, 10, 4, false, created));
    // Same timeslot instant: age 0, inside the first frame.
    let tasks = mgr.tick_start(created).expect("a repeat is due");
    assert_eq!(tasks, vec![CircuitMgrCmd::SendDSetup(10, 4, 1584, 2)]);
    assert!(mgr.is_active_dir_slot(1584, 2, Direction::Dl));
    // Not the first timeslot of a frame: nothing to do.
    assert!(mgr.tick_start(TdmaTime { h: 0, m: 1, f: 2, t: 2 }).is_none());
    // Age 6 frames: neither in the first frame nor on the 5-multiframe late-entry grid.
    assert!(mgr.tick_start(TdmaTime { h: 0, m: 1, f: 7, t: 1 }).is_none());
    // Age 5 multiframes: on the late-entry grid.
    let tasks = mgr.tick_start(TdmaTime { h: 0, m: 6, f: 1, t: 1 }).expect("late entry");
    assert_eq!(tasks, vec![CircuitMgrCmd::SendDSetup(10, 4, 1584, 2)]);
}

#[test]
fn allocation_takes_first_free_slot_and_fresh_identifiers() {
    let mut mgr = CircuitMgr::new();
    let a = mgr.allocate_circuit(Direction::Both, CommunicationType::P2Mp, false).unwrap();
    assert_eq!((a.carrier_num, a.ts, a.call_id, a.usage), (0, 2, 4, 4));
    assert_eq!(a.circuit_mode, CircuitModeType::TchS);
    assert_eq!(a.speech_service, Some(0));
    let b = mgr.allocate_circuit(Direction::Both, CommunicationType::P2p, true).unwrap();
    assert_eq!((b.carrier_num, b.ts, b.call_id, b.usage), (0, 3, 5, 5));
    let c = mgr.allocate_circuit(Direction::Both, CommunicationType::P2p, true).unwrap();
    assert_eq!(c.ts, 4);
    assert_eq!(
        mgr.allocate_circuit(Direction::Both, CommunicationType::P2p, true),
        Err(CircuitErr::NoCircuitFree)
    );
    assert_eq!(mgr.is_active_slot(0, 2), (true, true));
    assert_eq!(mgr.is_active(3), (true, true));
    assert_eq!(mgr.get_usage_slot(0, 3), (Some(5), Some(5)));
    assert_eq!(mgr.get_usage(4), (Some(6), Some(6)));
    assert_eq!(mgr.get_usage(1), (None, None));
}

#[test]
fn uplink_only_circuit_shares_a_downlink_only_slot() {
    let mut mgr = CircuitMgr::new();
    let d = mgr.allocate_circuit(Direction::Dl, CommunicationType::P2Mp, false).unwrap();
    assert_eq!(d.ts, 2);
    assert_eq!(mgr.is_active_slot(0, 2), (true, false));
    let u = mgr.allocate_circuit(Direction::Ul, CommunicationType::P2p, false).unwrap();
    assert_eq!((u.carrier_num, u.ts), (0, 2));
    assert_eq!(mgr.is_active_slot(0, 2), (true, true));
    assert_eq!(mgr.get_usage_slot(0, 2), (Some(d.usage), Some(u.usage)));
    assert!(mgr.is_active_dir(2, Direction::Ul));
    assert!(!mgr.is_active_dir(2, Direction::Both));
    // A two-way circuit needs both directions free: slot 3.
    let b = mgr.allocate_circuit(Direction::Both, CommunicationType::P2p, false).unwrap();
    assert_eq!(b.ts, 3);
    // Closing the uplink side leaves the downlink circuit.
    assert_eq!(mgr.close_circuit_slot(Direction::Ul, 0, 2).map(|c| c.call_id), Ok(u.call_id));
    assert_eq!(mgr.is_active_slot(0, 2), (true, false));
    assert_eq!(mgr.close_circuit_slot(Direction::Ul, 0, 2), Err(CircuitErr::CircuitNotActive));
}

#[test]
fn blocks_queue_only_on_open_downlink_slots() {
    let mut mgr = CircuitMgr::new();
    assert_eq!(mgr.put_block(0, 2, vec![1]), Err(CircuitErr::CircuitNotActive));
    assert_eq!(mgr.take_block(0, 2), Err(CircuitErr::CircuitNotActive));
    let c = mgr.allocate_circuit(Direction::Both, CommunicationType::P2Mp, false).unwrap();
    assert_eq!(mgr.take_block(0, c.ts), Ok(None));
    mgr.put_block(0, c.ts, vec![1, 2]).unwrap();
    mgr.put_block(0, c.ts, vec![3]).unwrap();
    assert_eq!(mgr.take_block(0, c.ts), Ok(Some(vec![1, 2])));
    let closed = mgr.close_circuit(Direction::Both, c.ts).unwrap();
    assert_eq!(closed.call_id, c.call_id);
    assert_eq!(mgr.take_block(0, c.ts), Err(CircuitErr::CircuitNotActive));
    assert_eq!(mgr.close_circuit(Direction::Both, c.ts), Err(CircuitErr::CircuitNotActive));
    // Re-opening the slot starts with an empty queue.
    let again = mgr.allocate_circuit(Direction::Both, CommunicationType::P2Mp, false).unwrap();
    assert_eq!(again.ts, c.ts);
    assert_eq!(mgr.take_block(0, again.ts), Ok(None));
}

#[test]
fn identifiers_wrap() {
    let mut mgr = CircuitMgr::new();
    mgr.next_call_identifier = 0x3FF;
    mgr.next_usage_number = 31;
    assert_eq!(mgr.get_next_call_id(), 0x3FF);
    assert_eq!(mgr.get_next_call_id(), 1);
    assert_eq!(mgr.get_next_usage_number(), 31);
    assert_eq!(mgr.get_next_usage_number(), 4);
}
