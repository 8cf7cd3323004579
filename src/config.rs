use vstd::prelude::*;
use crate::bytes::copy_bytes;

verus! {

/// Number of bytes in an account address.
pub const ADDRESS_LEN: usize = 20;

/// A 20-byte account address.
#[derive(Clone, Debug, PartialEq, Eq)]
pub struct Address {
    pub bytes: Vec<u8>,
}

impl Address {
    pub open spec fn wf(self) -> bool {
        self.bytes@.len() == ADDRESS_LEN
    }

    /// Reads an address from exactly twenty bytes.
    pub fn from_slice(b: &[u8]) -> (r: Option<Address>)
        ensures
            r is Some <==> b@.len() == ADDRESS_LEN,
            r matches Some(a) ==> a.bytes@ == b@ && a.wf(),
    {
        if b.len() == ADDRESS_LEN {
            Some(Address { bytes: copy_bytes(b) })
        } else {
            None
        }
    }

    /// The address's bytes, for the wire form.
    pub fn to_bytes(&self) -> (r: Vec<u8>)
        ensures
            r@ == self.bytes@,
    {
        copy_bytes(self.bytes.as_slice())
    }
}

/// Wire form of the layer-one contract addresses; every field may be absent.
#[derive(Clone, Debug, PartialEq, Eq)]
pub struct L1Proto {
    pub governance_addr: Option<Vec<u8>>,
    pub verifier_addr: Option<Vec<u8>>,
    pub default_upgrade_addr: Option<Vec<u8>>,
    pub diamond_proxy_addr: Option<Vec<u8>>,
    pub validator_timelock_addr: Option<Vec<u8>>,
    pub multicall3_addr: Option<Vec<u8>>,
}

/// Wire form of the layer-two contract addresses.
#[derive(Clone, Debug, PartialEq, Eq)]
pub struct L2Proto {
    pub testnet_paymaster_addr: Option<Vec<u8>>,
}

/// Wire form of one bridge: its addresses on both layers.
#[derive(Clone, Debug, PartialEq, Eq)]
pub struct BridgeProto {
    pub l1_address: Option<Vec<u8>>,
    pub l2_address: Option<Vec<u8>>,
}

/// Wire form of the bridges.
#[derive(Clone, Debug, PartialEq, Eq)]
pub struct BridgesProto {
    pub erc20: Option<BridgeProto>,
    pub weth: Option<BridgeProto>,
}

/// Wire form of the contracts configuration.
#[derive(Clone, Debug, PartialEq, Eq)]
pub struct ContractsProto {
    pub l1: Option<L1Proto>,
    pub l2: Option<L2Proto>,
    pub bridges: Option<BridgesProto>,
}

/// The contract addresses the node is configured with.
#[derive(Clone, Debug, PartialEq, Eq)]
pub struct ContractsConfigReduced {
    pub governance_addr: Address,
    pub verifier_addr: Address,
    pub default_upgrade_addr: Address,
    pub diamond_proxy_addr: Address,
    pub validator_timelock_addr: Address,
    pub l1_erc20_bridge_proxy_addr: Address,
    pub l2_erc20_bridge_addr: Address,
    pub l1_weth_bridge_proxy_addr: Option<Address>,
    pub l2_weth_bridge_addr: Option<Address>,
    pub l2_testnet_paymaster_addr: Option<Address>,
    pub l1_multicall3_addr: Address,
}

/// The field of the contracts configuration that an error is about.
#[derive(Clone, Copy, Debug, PartialEq, Eq, Structural)]
pub enum ContractsField {
    L1,
    L2,
    Bridges,
    Erc20,
    WethBridge,
    GovernanceAddr,
    VerifierAddr,
    DefaultUpgradeAddr,
    DiamondProxyAddr,
    ValidatorTimelockAddr,
    L1Erc20BridgeProxyAddr,
    L2Erc20BridgeAddr,
    L1WethBridgeProxyAddr,
    L2WethBridgeAddr,
    L2TestnetPaymasterAddr,
    L1Multicall3Addr,
}

/// What is wrong with a field.
#[derive(Clone, Copy, Debug, PartialEq, Eq, Structural)]
pub enum ConfigErrorKind {
    /// A required field is absent.
    Missing,
    /// An address field does not hold exactly twenty bytes.
    InvalidAddress,
}

/// A configuration error, naming the field at fault.
#[derive(Clone, Copy, Debug, PartialEq, Eq, Structural)]
pub struct ConfigError {
    pub field: ContractsField,
    pub kind: ConfigErrorKind,
}

pub open spec fn missing(f: ContractsField) -> ConfigError {
    ConfigError { field: f, kind: ConfigErrorKind::Missing }
}

/// The error of a required address field, if any.
pub open spec fn required_error(o: Option<Vec<u8>>, f: ContractsField) -> Option<ConfigError> {
    match o {
        None => Some(missing(f)),
        Some(b) => if b@.len() == ADDRESS_LEN {
            None
        } else {
            Some(ConfigError { field: f, kind: ConfigErrorKind::InvalidAddress })
        },
    }
}

/// The error of an optional address field, if any.
pub open spec fn optional_error(o: Option<Vec<u8>>, f: ContractsField) -> Option<ConfigError> {
    match o {
        None => None,
        Some(b) => if b@.len() == ADDRESS_LEN {
            None
        } else {
            Some(ConfigError { field: f, kind: ConfigErrorKind::InvalidAddress })
        },
    }
}

/// The first error of a list of checks.
pub open spec fn first_error(s: Seq<Option<ConfigError>>) -> Option<ConfigError>
    decreases s.len(),
{
    if s.len() == 0 {
        None
    } else if s[0] is Some {
        s[0]
    } else {
        first_error(s.drop_first())
    }
}

/// The error that reading `p` reports, if any: the sections are checked
/// first, then the addresses, each in a fixed order.
pub open spec fn read_error(p: ContractsProto) -> Option<ConfigError> {
    if p.l1 is None {
        Some(missing(ContractsField::L1))
    } else if p.l2 is None {
        Some(missing(ContractsField::L2))
    } else if p.bridges is None {
        Some(missing(ContractsField::Bridges))
    } else if p.bridges->0.erc20 is None {
        Some(missing(ContractsField::Erc20))
    } else if p.bridges->0.weth is None {
        Some(missing(ContractsField::WethBridge))
    } else {
        let l1 = p.l1->0;
        let erc20 = p.bridges->0.erc20->0;
        let weth = p.bridges->0.weth->0;
        first_error(
            seq![
                required_error(l1.governance_addr, ContractsField::GovernanceAddr),
                required_error(l1.verifier_addr, ContractsField::VerifierAddr),
                required_error(l1.default_upgrade_addr, ContractsField::DefaultUpgradeAddr),
                required_error(l1.diamond_proxy_addr, ContractsField::DiamondProxyAddr),
                required_error(l1.validator_timelock_addr, ContractsField::ValidatorTimelockAddr),
                required_error(erc20.l1_address, ContractsField::L1Erc20BridgeProxyAddr),
                required_error(erc20.l2_address, ContractsField::L2Erc20BridgeAddr),
                optional_error(weth.l1_address, ContractsField::L1WethBridgeProxyAddr),
                optional_error(weth.l2_address, ContractsField::L2WethBridgeAddr),
                optional_error(p.l2->0.testnet_paymaster_addr, ContractsField::L2TestnetPaymasterAddr),
                required_error(l1.multicall3_addr, ContractsField::L1Multicall3Addr),
            ],
        )
    }
}

/// A wire field holds the bytes of an address.
pub open spec fn holds(o: Option<Vec<u8>>, a: Address) -> bool {
    o matches Some(b) && b@ == a.bytes@
}

/// An optional wire field holds an optional address.
pub open spec fn holds_opt(o: Option<Vec<u8>>, a: Option<Address>) -> bool {
    match (o, a) {
        (None, None) => true,
        (Some(b), Some(x)) => b@ == x.bytes@,
        _ => false,
    }
}

/// The sections of `p` are all present and its fields hold the addresses of `c`.
pub open spec fn proto_holds(p: ContractsProto, c: ContractsConfigReduced) -> bool {
    &&& p.l1 matches Some(l1)
    &&& p.l2 matches Some(l2)
    &&& p.bridges matches Some(br)
    &&& br.erc20 matches Some(erc20)
    &&& br.weth matches Some(weth)
    &&& holds(l1.governance_addr, c.governance_addr)
    &&& holds(l1.verifier_addr, c.verifier_addr)
    &&& holds(l1.default_upgrade_addr, c.default_upgrade_addr)
    &&& holds(l1.diamond_proxy_addr, c.diamond_proxy_addr)
    &&& holds(l1.validator_timelock_addr, c.validator_timelock_addr)
    &&& holds(l1.multicall3_addr, c.l1_multicall3_addr)
    &&& holds(erc20.l1_address, c.l1_erc20_bridge_proxy_addr)
    &&& holds(erc20.l2_address, c.l2_erc20_bridge_addr)
    &&& holds_opt(weth.l1_address, c.l1_weth_bridge_proxy_addr)
    &&& holds_opt(weth.l2_address, c.l2_weth_bridge_addr)
    &&& holds_opt(l2.testnet_paymaster_addr, c.l2_testnet_paymaster_addr)
}

impl ContractsConfigReduced {
    /// Every address of the configuration has twenty bytes.
    pub open spec fn wf(self) -> bool {
        &&& self.governance_addr.wf()
        &&& self.verifier_addr.wf()
        &&& self.default_upgrade_addr.wf()
        &&& self.diamond_proxy_addr.wf()
        &&& self.validator_timelock_addr.wf()
        &&& self.l1_erc20_bridge_proxy_addr.wf()
        &&& self.l2_erc20_bridge_addr.wf()
        &&& (self.l1_weth_bridge_proxy_addr matches Some(a) ==> a.wf())
        &&& (self.l2_weth_bridge_addr matches Some(a) ==> a.wf())
        &&& (self.l2_testnet_paymaster_addr matches Some(a) ==> a.wf())
        &&& self.l1_multicall3_addr.wf()
    }
}

fn required_address(o: &Option<Vec<u8>>, f: ContractsField) -> (r: Result<Address, ConfigError>)
    ensures
        r is Err <==> required_error(*o, f) is Some,
        r matches Err(e) ==> required_error(*o, f) == Some(e),
        r matches Ok(a) ==> holds(*o, a) && a.wf(),
{
    match o {
        None => Err(ConfigError { field: f, kind: ConfigErrorKind::Missing }),
        Some(b) => match Address::from_slice(b.as_slice()) {
            Some(a) => Ok(a),
            None => Err(ConfigError { field: f, kind: ConfigErrorKind::InvalidAddress }),
        },
    }
}

fn optional_address(o: &Option<Vec<u8>>, f: ContractsField) -> (r: Result<
    Option<Address>,
    ConfigError,
>)
    ensures
        r is Err <==> optional_error(*o, f) is Some,
        r matches Err(e) ==> optional_error(*o, f) == Some(e),
        r matches Ok(a) ==> holds_opt(*o, a) && (a matches Some(x) ==> x.wf()),
{
    match o {
        None => Ok(None),
        Some(b) => match Address::from_slice(b.as_slice()) {
            Some(a) => Ok(Some(a)),
            None => Err(ConfigError { field: f, kind: ConfigErrorKind::InvalidAddress }),
        },
    }
}

fn address_field(a: &Address) -> (r: Option<Vec<u8>>)
    ensures
        holds(r, *a),
{
    Some(a.to_bytes())
}

fn optional_field(a: &Option<Address>) -> (r: Option<Vec<u8>>)
    ensures
        holds_opt(r, *a),
{
    match a {
        Some(x) => Some(x.to_bytes()),
        None => None,
    }
}

/// Two configurations hold the same addresses.
pub open spec fn same_addresses(c: ContractsConfigReduced, d: ContractsConfigReduced) -> bool {
    &&& c.governance_addr.bytes@ == d.governance_addr.bytes@
    &&& c.verifier_addr.bytes@ == d.verifier_addr.bytes@
    &&& c.default_upgrade_addr.bytes@ == d.default_upgrade_addr.bytes@
    &&& c.diamond_proxy_addr.bytes@ == d.diamond_proxy_addr.bytes@
    &&& c.validator_timelock_addr.bytes@ == d.validator_timelock_addr.bytes@
    &&& c.l1_erc20_bridge_proxy_addr.bytes@ == d.l1_erc20_bridge_proxy_addr.bytes@
    &&& c.l2_erc20_bridge_addr.bytes@ == d.l2_erc20_bridge_addr.bytes@
    &&& c.l1_weth_bridge_proxy_addr is Some == d.l1_weth_bridge_proxy_addr is Some
    &&& (c.l1_weth_bridge_proxy_addr is Some ==> c.l1_weth_bridge_proxy_addr->0.bytes@
        == d.l1_weth_bridge_proxy_addr->0.bytes@)
    &&& c.l2_weth_bridge_addr is Some == d.l2_weth_bridge_addr is Some
    &&& (c.l2_weth_bridge_addr is Some ==> c.l2_weth_bridge_addr->0.bytes@
        == d.l2_weth_bridge_addr->0.bytes@)
    &&& c.l2_testnet_paymaster_addr is Some == d.l2_testnet_paymaster_addr is Some
    &&& (c.l2_testnet_paymaster_addr is Some ==> c.l2_testnet_paymaster_addr->0.bytes@
        == d.l2_testnet_paymaster_addr->0.bytes@)
    &&& c.l1_multicall3_addr.bytes@ == d.l1_multicall3_addr.bytes@
}

/// Reading back the wire form of a well-formed configuration succeeds and
/// yields a configuration with the same addresses.
pub proof fn lemma_read_build_round_trip(c: ContractsConfigReduced, p: ContractsProto)
    requires
        c.wf(),
        proto_holds(p, c),
    ensures
        read_error(p) is None,
        forall|d: ContractsConfigReduced| proto_holds(p, d) ==> same_addresses(c, d),
{
    reveal_with_fuel(first_error, 12);
}

impl ContractsProto {
    /// The wire form of a configuration: every section present, every
    /// address written as its bytes, absent optional addresses left absent.
    pub fn build(this: &ContractsConfigReduced) -> (r: ContractsProto)
        ensures
            proto_holds(r, *this),
    {
        ContractsProto {
            l1: Some(L1Proto {
                governance_addr: address_field(&this.governance_addr),
                verifier_addr: address_field(&this.verifier_addr),
                diamond_proxy_addr: address_field(&this.diamond_proxy_addr),
                validator_timelock_addr: address_field(&this.validator_timelock_addr),
                default_upgrade_addr: address_field(&this.default_upgrade_addr),
                multicall3_addr: address_field(&this.l1_multicall3_addr),
            }),
            l2: Some(L2Proto {
                testnet_paymaster_addr: optional_field(&this.l2_testnet_paymaster_addr),
            }),
            bridges: Some(BridgesProto {
                erc20: Some(BridgeProto {
                    l1_address: address_field(&this.l1_erc20_bridge_proxy_addr),
                    l2_address: address_field(&this.l2_erc20_bridge_addr),
                }),
                weth: Some(BridgeProto {
                    l1_address: optional_field(&this.l1_weth_bridge_proxy_addr),
                    l2_address: optional_field(&this.l2_weth_bridge_addr),
                }),
            }),
        }
    }

    /// Reads the configuration from its wire form. Fails with the first
    /// missing section or field, or malformed address, naming it.
    pub fn read(&self) -> (r: Result<ContractsConfigReduced, ConfigError>)
        ensures
            r is Ok <==> read_error(*self) is None,
            r matches Err(e) ==> read_error(*self) == Some(e),
            r matches Ok(c) ==> proto_holds(*self, c) && c.wf(),
    {
        let l1 = match &self.l1 {
            Some(x) => x,
            None => { return Err(ConfigError { field: ContractsField::L1, kind: ConfigErrorKind::Missing }); },
        };
        let l2 = match &self.l2 {
            Some(x) => x,
            None => { return Err(ConfigError { field: ContractsField::L2, kind: ConfigErrorKind::Missing }); },
        };
        let bridges = match &self.bridges {
            Some(x) => x,
            None => { return Err(ConfigError { field: ContractsField::Bridges, kind: ConfigErrorKind::Missing }); },
        };
        let erc20 = match &bridges.erc20 {
            Some(x) => x,
            None => { return Err(ConfigError { field: ContractsField::Erc20, kind: ConfigErrorKind::Missing }); },
        };
        let weth = match &bridges.weth {
            Some(x) => x,
            None => { return Err(ConfigError { field: ContractsField::WethBridge, kind: ConfigErrorKind::Missing }); },
        };
        let ghost checks = seq![
            required_error(l1.governance_addr, ContractsField::GovernanceAddr),
            required_error(l1.verifier_addr, ContractsField::VerifierAddr),
            required_error(l1.default_upgrade_addr, ContractsField::DefaultUpgradeAddr),
            required_error(l1.diamond_proxy_addr, ContractsField::DiamondProxyAddr),
            required_error(l1.validator_timelock_addr, ContractsField::ValidatorTimelockAddr),
            required_error(erc20.l1_address, ContractsField::L1Erc20BridgeProxyAddr),
            required_error(erc20.l2_address, ContractsField::L2Erc20BridgeAddr),
            optional_error(weth.l1_address, ContractsField::L1WethBridgeProxyAddr),
            optional_error(weth.l2_address, ContractsField::L2WethBridgeAddr),
            optional_error(l2.testnet_paymaster_addr, ContractsField::L2TestnetPaymasterAddr),
            required_error(l1.multicall3_addr, ContractsField::L1Multicall3Addr),
        ];
        assert(read_error(*self) == first_error(checks));
        proof {
            reveal_with_fuel(first_error, 12);
        }
        let governance_addr = required_address(&l1.governance_addr, ContractsField::GovernanceAddr)?;
        let verifier_addr = required_address(&l1.verifier_addr, ContractsField::VerifierAddr)?;
        let default_upgrade_addr = required_address(&l1.default_upgrade_addr, ContractsField::DefaultUpgradeAddr)?;
        let diamond_proxy_addr = required_address(&l1.diamond_proxy_addr, ContractsField::DiamondProxyAddr)?;
        let validator_timelock_addr = required_address(&l1.validator_timelock_addr, ContractsField::ValidatorTimelockAddr)?;
        let l1_erc20_bridge_proxy_addr = required_address(&erc20.l1_address, ContractsField::L1Erc20BridgeProxyAddr)?;
        let l2_erc20_bridge_addr = required_address(&erc20.l2_address, ContractsField::L2Erc20BridgeAddr)?;
        let l1_weth_bridge_proxy_addr = optional_address(&weth.l1_address, ContractsField::L1WethBridgeProxyAddr)?;
        let l2_weth_bridge_addr = optional_address(&weth.l2_address, ContractsField::L2WethBridgeAddr)?;
        let l2_testnet_paymaster_addr = optional_address(&l2.testnet_paymaster_addr, ContractsField::L2TestnetPaymasterAddr)?;
        let l1_multicall3_addr = required_address(&l1.multicall3_addr, ContractsField::L1Multicall3Addr)?;
        Ok(ContractsConfigReduced {
            governance_addr,
            verifier_addr,
            default_upgrade_addr,
            diamond_proxy_addr,
            validator_timelock_addr,
            l1_erc20_bridge_proxy_addr,
            l2_erc20_bridge_addr,
            l1_weth_bridge_proxy_addr,
            l2_weth_bridge_addr,
            l2_testnet_paymaster_addr,
            l1_multicall3_addr,
        })
    }
}

} // verus!
