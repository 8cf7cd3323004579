use vm_outputs::config::{
    Address, BridgeProto, BridgesProto, ConfigError, ConfigErrorKind, ContractsField,
    ContractsProto, L1Proto, L2Proto,
};

fn addr(n: u8) -> Option<Vec<u8>> {
    Some(vec![n; 20])
}

fn full_proto() -> ContractsProto {
    ContractsProto {
        l1: Some(L1Proto {
            governance_addr: addr(1),
            verifier_addr: addr(2),
            default_upgrade_addr: addr(3),
            diamond_proxy_addr: addr(4),
            validator_timelock_addr: addr(5),
            multicall3_addr: addr(6),
        }),
        l2: Some(L2Proto { testnet_paymaster_addr: addr(7) }),
        bridges: Some(BridgesProto {
            erc20: Some(BridgeProto { l1_address: addr(8), l2_address: addr(9) }),
            weth: Some(BridgeProto { l1_address: addr(10), l2_address: None }),
        }),
    }
}

#[test]
fn read_full_config() {
    let c = full_proto().read().unwrap();
    assert_eq!(c.governance_addr.bytes, vec![1u8; 20]);
    assert_eq!(c.verifier_addr.bytes, vec![2u8; 20]);
    assert_eq!(c.default_upgrade_addr.bytes, vec![3u8; 20]);
    assert_eq!(c.diamond_proxy_addr.bytes, vec![4u8; 20]);
    assert_eq!(c.validator_timelock_addr.bytes, vec![5u8; 20]);
    assert_eq!(c.l1_multicall3_addr.bytes, vec![6u8; 20]);
    assert_eq!(c.l2_testnet_paymaster_addr, Some(Address { bytes: vec![7u8; 20] }));
    assert_eq!(c.l1_erc20_bridge_proxy_addr.bytes, vec![8u8; 20]);
    assert_eq!(c.l2_erc20_bridge_addr.bytes, vec![9u8; 20]);
    assert_eq!(c.l1_weth_bridge_proxy_addr, Some(Address { bytes: vec![10u8; 20] }));
    assert_eq!(c.l2_weth_bridge_addr, None);
}

#[test]
fn missing_section_is_named() {
    let mut p = full_proto();
    p.l1 = None;
    assert_eq!(p.read(), Err(ConfigError { field: ContractsField::L1, kind: ConfigErrorKind::Missing }));
    let mut p = full_proto();
    p.bridges.as_mut().unwrap().weth = None;
    assert_eq!(
        p.read(),
        Err(ConfigError { field: ContractsField::WethBridge, kind: ConfigErrorKind::Missing })
    );
}

#[test]
fn missing_address_is_named() {
    let mut p = full_proto();
    p.l1.as_mut().unwrap().verifier_addr = None;
    p.l1.as_mut().unwrap().multicall3_addr = None;
    assert_eq!(
        p.read(),
        Err(ConfigError { field: ContractsField::VerifierAddr, kind: ConfigErrorKind::Missing })
    );
}

#[test]
fn malformed_address_is_named() {
    let mut p = full_proto();
    p.l2.as_mut().unwrap().testnet_paymaster_addr = Some(vec![1, 2, 3]);
    assert_eq!(
        p.read(),
        Err(ConfigError {
            field: ContractsField::L2TestnetPaymasterAddr,
            kind: ConfigErrorKind::InvalidAddress,
        })
    );
}

#[test]
fn build_then_read_round_trips() {
    let c = full_proto().read().unwrap();
    let p = ContractsProto::build(&c);
    assert_eq!(p, full_proto());
    assert_eq!(p.read(), Ok(c));
}

#[test]
fn address_needs_twenty_bytes() {
    assert!(Address::from_slice(&[0u8; 19]).is_none());
    assert_eq!(Address::from_slice(&[3u8; 20]).unwrap().to_bytes(), vec![3u8; 20]);
}
