use vstd::prelude::*;

verus! {

/// An account address: a public key of fixed width, an opaque index, or raw bytes.
#[derive(Debug, Clone, PartialEq, Eq, Hash)]
pub enum VaneMultiAddress {
    /// An account id (public key).
    Id([u8; 32]),
    /// An account index.
    Index,
    /// Arbitrary raw bytes.
    Raw(Vec<u8>),
    /// A 32-byte representation.
    Address32([u8; 32]),
    /// A 20-byte representation.
    Address20([u8; 20]),
}

/// The mathematical value of an address.
pub enum AddressModel {
    Id(Seq<u8>),
    Index,
    Raw(Seq<u8>),
    Address32(Seq<u8>),
    Address20(Seq<u8>),
}

impl View for VaneMultiAddress {
    type V = AddressModel;

    open spec fn view(&self) -> AddressModel {
        match self {
            VaneMultiAddress::Id(k) => AddressModel::Id(k@),
            VaneMultiAddress::Index => AddressModel::Index,
            VaneMultiAddress::Raw(r) => AddressModel::Raw(r@),
            VaneMultiAddress::Address32(k) => AddressModel::Address32(k@),
            VaneMultiAddress::Address20(k) => AddressModel::Address20(k@),
        }
    }
}

/// Lengths that an address model must have to stand for a value of `VaneMultiAddress`.
pub open spec fn address_wf(a: AddressModel) -> bool {
    match a {
        AddressModel::Id(k) => k.len() == 32,
        AddressModel::Index => true,
        AddressModel::Raw(r) => r.len() <= u64::MAX,
        AddressModel::Address32(k) => k.len() == 32,
        AddressModel::Address20(k) => k.len() == 20,
    }
}

pub fn copy_bytes(b: &[u8]) -> (r: Vec<u8>)
    ensures
        r@ == b@,
{
    let mut r: Vec<u8> = Vec::new();
    let mut i: usize = 0;
    while i < b.len()
        invariant
            i <= b@.len(),
            r@ == b@.subrange(0, i as int),
        decreases b@.len() - i,
    {
        r.push(b[i]);
        i = i + 1;
    }
    assert(r@ =~= b@);
    r
}

pub fn bytes_equal(a: &[u8], b: &[u8]) -> (r: bool)
    ensures
        r == (a@ == b@),
{
    if a.len() != b.len() {
        return false;
    }
    let mut i: usize = 0;
    while i < a.len()
        invariant
            a@.len() == b@.len(),
            i <= a@.len(),
            forall|j: int| 0 <= j < i ==> a@[j] == b@[j],
        decreases a@.len() - i,
    {
        if a[i] != b[i] {
            return false;
        }
        i = i + 1;
    }
    assert(a@ =~= b@);
    true
}

impl VaneMultiAddress {
    /// A copy of this address.
    pub fn duplicate(&self) -> (r: VaneMultiAddress)
        ensures
            r@ == self@,
    {
        match self {
            VaneMultiAddress::Id(k) => VaneMultiAddress::Id(*k),
            VaneMultiAddress::Index => VaneMultiAddress::Index,
            VaneMultiAddress::Raw(r) => VaneMultiAddress::Raw(copy_bytes(r.as_slice())),
            VaneMultiAddress::Address32(k) => VaneMultiAddress::Address32(*k),
            VaneMultiAddress::Address20(k) => VaneMultiAddress::Address20(*k),
        }
    }

    /// Structural equality of two addresses.
    pub fn same_as(&self, other: &VaneMultiAddress) -> (r: bool)
        ensures
            r == (self@ == other@),
    {
        match (self, other) {
            (VaneMultiAddress::Id(a), VaneMultiAddress::Id(b)) => bytes_equal(a.as_slice(), b.as_slice()),
            (VaneMultiAddress::Index, VaneMultiAddress::Index) => true,
            (VaneMultiAddress::Raw(a), VaneMultiAddress::Raw(b)) => bytes_equal(a.as_slice(), b.as_slice()),
            (VaneMultiAddress::Address32(a), VaneMultiAddress::Address32(b)) => bytes_equal(a.as_slice(), b.as_slice()),
            (VaneMultiAddress::Address20(a), VaneMultiAddress::Address20(b)) => bytes_equal(a.as_slice(), b.as_slice()),
            _ => false,
        }
    }
}


/// Supported networks.
#[derive(Debug, Clone, Copy, PartialEq, Eq, Structural)]
pub enum BlockchainNetwork {
    Polkadot,
    Kusama,
    Astar,
    Moonbeam,
    Ethereum,
    Optimism,
    Arbitrum,
    Solana,
}

/// Position of a transaction in the two-phase confirmation protocol.
#[derive(Debug, Clone, Copy, PartialEq, Eq, Structural)]
pub enum ConfirmationStatus {
    WaitingForReceiver,
    WaitingForSender,
    Ready,
    Accepted,
    RejectedMismatchAddress,
    RejectedSenderRevert,
}

/// Whether a transaction is still within its lifetime.
#[derive(Debug, Clone, Copy, PartialEq, Eq, Structural)]
pub enum LifetimeStatus {
    Valid,
    Invalid,
}

/// The transfer call of one network family.
#[derive(Debug, Clone, PartialEq, Eq)]
pub enum VaneCallData {
    SubstrateCallData { amount: u128 },
    SolanaCallData { amount: u128, extra_receivers: Vec<VaneMultiAddress> },
    EthereumCallData { amount: u128 },
}

/// The mathematical value of a call.
pub enum CallModel {
    Substrate { amount: u128 },
    Solana { amount: u128, extra_receivers: Seq<AddressModel> },
    Ethereum { amount: u128 },
}

pub open spec fn addresses_view(v: Seq<VaneMultiAddress>) -> Seq<AddressModel> {
    v.map_values(|a: VaneMultiAddress| a@)
}

impl View for VaneCallData {
    type V = CallModel;

    open spec fn view(&self) -> CallModel {
        match self {
            VaneCallData::SubstrateCallData { amount } => CallModel::Substrate { amount: *amount },
            VaneCallData::SolanaCallData { amount, extra_receivers } => CallModel::Solana {
                amount: *amount,
                extra_receivers: addresses_view(extra_receivers@),
            },
            VaneCallData::EthereumCallData { amount } => CallModel::Ethereum { amount: *amount },
        }
    }
}

pub open spec fn call_wf(c: CallModel) -> bool {
    match c {
        CallModel::Solana { extra_receivers, .. } => {
            &&& extra_receivers.len() <= u64::MAX
            &&& forall|i: int| 0 <= i < extra_receivers.len() ==> address_wf(#[trigger] extra_receivers[i])
        },
        _ => true,
    }
}

pub fn copy_addresses(v: &Vec<VaneMultiAddress>) -> (r: Vec<VaneMultiAddress>)
    ensures
        addresses_view(r@) == addresses_view(v@),
{
    let mut r: Vec<VaneMultiAddress> = Vec::new();
    let mut i: usize = 0;
    while i < v.len()
        invariant
            i <= v@.len(),
            r@.len() == i,
            forall|j: int| 0 <= j < i ==> (#[trigger] r@[j])@ == v@[j]@,
        decreases v@.len() - i,
    {
        r.push(v[i].duplicate());
        i = i + 1;
    }
    assert(addresses_view(r@) =~= addresses_view(v@));
    r
}

impl VaneCallData {
    /// The call for `network` that transfers `amount`; only the Substrate family
    /// has a call of amount alone.
    pub fn new(network: BlockchainNetwork, amount: u128) -> (r: Option<VaneCallData>)
        ensures
            (network == BlockchainNetwork::Polkadot) ==> r == Some(VaneCallData::SubstrateCallData { amount }),
            (network != BlockchainNetwork::Polkadot) ==> r is None,
    {
        match network {
            BlockchainNetwork::Polkadot => Some(VaneCallData::SubstrateCallData { amount }),
            _ => None,
        }
    }

    /// A copy of this call.
    pub fn duplicate(&self) -> (r: VaneCallData)
        ensures
            r@ == self@,
    {
        match self {
            VaneCallData::SubstrateCallData { amount } => VaneCallData::SubstrateCallData { amount: *amount },
            VaneCallData::SolanaCallData { amount, extra_receivers } => VaneCallData::SolanaCallData {
                amount: *amount,
                extra_receivers: copy_addresses(extra_receivers),
            },
            VaneCallData::EthereumCallData { amount } => VaneCallData::EthereumCallData { amount: *amount },
        }
    }
}


/// A submitted transaction awaiting confirmation by both parties.
#[derive(Debug, Clone, PartialEq, Eq)]
pub struct TxObject {
    pub tx_id: [u8; 32],
    pub call: VaneCallData,
    pub sender_address: VaneMultiAddress,
    pub receiver_address: VaneMultiAddress,
    pub multi_id: VaneMultiAddress,
    pub network: BlockchainNetwork,
    pub lifetime: Option<u8>,
    pub lifetime_status: LifetimeStatus,
}

pub struct TxObjectModel {
    pub tx_id: Seq<u8>,
    pub call: CallModel,
    pub sender: AddressModel,
    pub receiver: AddressModel,
    pub multi_id: AddressModel,
    pub network: BlockchainNetwork,
    pub lifetime: Option<u8>,
    pub lifetime_status: LifetimeStatus,
}

impl View for TxObject {
    type V = TxObjectModel;

    open spec fn view(&self) -> TxObjectModel {
        TxObjectModel {
            tx_id: self.tx_id@,
            call: self.call@,
            sender: self.sender_address@,
            receiver: self.receiver_address@,
            multi_id: self.multi_id@,
            network: self.network,
            lifetime: self.lifetime,
            lifetime_status: self.lifetime_status,
        }
    }
}

pub open spec fn tx_object_wf(t: TxObjectModel) -> bool {
    &&& t.tx_id.len() == 32
    &&& call_wf(t.call)
    &&& address_wf(t.sender)
    &&& address_wf(t.receiver)
    &&& address_wf(t.multi_id)
}

/// A transaction in its confirmation phase.
#[derive(Debug, Clone, PartialEq, Eq)]
pub struct TxConfirmationObject {
    pub confirmed_sender_address: Option<VaneMultiAddress>,
    pub confirmed_receiver_address: Option<VaneMultiAddress>,
    pub tx_id: [u8; 32],
    pub call: VaneCallData,
    pub confirmation_status: ConfirmationStatus,
    pub multi_id: VaneMultiAddress,
    pub network: BlockchainNetwork,
}

pub struct ConfirmationModel {
    pub confirmed_sender: Option<AddressModel>,
    pub confirmed_receiver: Option<AddressModel>,
    pub tx_id: Seq<u8>,
    pub call: CallModel,
    pub status: ConfirmationStatus,
    pub multi_id: AddressModel,
    pub network: BlockchainNetwork,
}

pub open spec fn option_address_view(o: Option<VaneMultiAddress>) -> Option<AddressModel> {
    match o {
        Some(a) => Some(a@),
        None => None,
    }
}

pub open spec fn option_address_wf(o: Option<AddressModel>) -> bool {
    match o {
        Some(a) => address_wf(a),
        None => true,
    }
}

impl View for TxConfirmationObject {
    type V = ConfirmationModel;

    open spec fn view(&self) -> ConfirmationModel {
        ConfirmationModel {
            confirmed_sender: option_address_view(self.confirmed_sender_address),
            confirmed_receiver: option_address_view(self.confirmed_receiver_address),
            tx_id: self.tx_id@,
            call: self.call@,
            status: self.confirmation_status,
            multi_id: self.multi_id@,
            network: self.network,
        }
    }
}

pub open spec fn confirmation_wf(c: ConfirmationModel) -> bool {
    &&& option_address_wf(c.confirmed_sender)
    &&& option_address_wf(c.confirmed_receiver)
    &&& c.tx_id.len() == 32
    &&& call_wf(c.call)
    &&& address_wf(c.multi_id)
}

/// A confirmed transaction handed on to simulation and execution.
#[derive(Debug, Clone, PartialEq, Eq)]
pub struct TxSimulationObject {
    pub sender_address: VaneMultiAddress,
    pub receiver_address: VaneMultiAddress,
    pub tx_id: [u8; 32],
    pub call: VaneCallData,
    pub confirmation_status: ConfirmationStatus,
    pub network: BlockchainNetwork,
}

pub struct SimulationModel {
    pub sender: AddressModel,
    pub receiver: AddressModel,
    pub tx_id: Seq<u8>,
    pub call: CallModel,
    pub status: ConfirmationStatus,
    pub network: BlockchainNetwork,
}

impl View for TxSimulationObject {
    type V = SimulationModel;

    open spec fn view(&self) -> SimulationModel {
        SimulationModel {
            sender: self.sender_address@,
            receiver: self.receiver_address@,
            tx_id: self.tx_id@,
            call: self.call@,
            status: self.confirmation_status,
            network: self.network,
        }
    }
}

pub open spec fn simulation_wf(s: SimulationModel) -> bool {
    &&& address_wf(s.sender)
    &&& address_wf(s.receiver)
    &&& s.tx_id.len() == 32
    &&& call_wf(s.call)
}

/// The confirmation record that a transaction starts its confirmation phase with.
pub open spec fn confirmation_of(t: TxObjectModel) -> ConfirmationModel {
    ConfirmationModel {
        confirmed_sender: None,
        confirmed_receiver: None,
        tx_id: t.tx_id,
        call: t.call,
        status: ConfirmationStatus::WaitingForReceiver,
        multi_id: t.multi_id,
        network: t.network,
    }
}

/// The simulation record of a confirmation whose both parties are known.
pub open spec fn simulation_of(c: ConfirmationModel) -> SimulationModel
    recommends
        c.confirmed_sender is Some,
        c.confirmed_receiver is Some,
{
    SimulationModel {
        sender: c.confirmed_sender->0,
        receiver: c.confirmed_receiver->0,
        tx_id: c.tx_id,
        call: c.call,
        status: c.status,
        network: c.network,
    }
}

impl TxObject {
    /// The commitment this transaction is stored under.
    pub fn get_multi_id(&self) -> (r: VaneMultiAddress)
        ensures
            r@ == self@.multi_id,
    {
        self.multi_id.duplicate()
    }

    /// The raw transaction identifier.
    pub fn tx_id_bytes(&self) -> (r: [u8; 32])
        ensures
            r@ == self@.tx_id,
    {
        self.tx_id
    }

    /// A copy of this transaction.
    pub fn duplicate(&self) -> (r: TxObject)
        ensures
            r@ == self@,
    {
        TxObject {
            tx_id: self.tx_id,
            call: self.call.duplicate(),
            sender_address: self.sender_address.duplicate(),
            receiver_address: self.receiver_address.duplicate(),
            multi_id: self.multi_id.duplicate(),
            network: self.network,
            lifetime: self.lifetime,
            lifetime_status: self.lifetime_status,
        }
    }
}

impl From<TxObject> for TxConfirmationObject {
    fn from(value: TxObject) -> (r: TxConfirmationObject) {
        TxConfirmationObject {
            tx_id: value.tx_id,
            call: value.call,
            confirmation_status: ConfirmationStatus::WaitingForReceiver,
            network: value.network,
            confirmed_sender_address: None,
            confirmed_receiver_address: None,
            multi_id: value.multi_id,
        }
    }
}

impl vstd::std_specs::convert::FromSpecImpl<TxObject> for TxConfirmationObject {
    open spec fn obeys_from_spec() -> bool {
        true
    }

    open spec fn from_spec(v: TxObject) -> TxConfirmationObject {
        TxConfirmationObject {
            tx_id: v.tx_id,
            call: v.call,
            confirmation_status: ConfirmationStatus::WaitingForReceiver,
            network: v.network,
            confirmed_sender_address: None,
            confirmed_receiver_address: None,
            multi_id: v.multi_id,
        }
    }
}

impl TxConfirmationObject {
    pub fn update_confirmation_status(&mut self, status: ConfirmationStatus)
        ensures
            final(self)@ == (ConfirmationModel { status, ..old(self)@ }),
    {
        self.confirmation_status = status;
    }

    pub fn set_confirmed_receiver(&mut self, confirmed_receiver: VaneMultiAddress)
        ensures
            final(self)@ == (ConfirmationModel { confirmed_receiver: Some(confirmed_receiver@), ..old(self)@ }),
    {
        self.confirmed_receiver_address = Some(confirmed_receiver);
    }

    pub fn set_confirmed_sender(&mut self, confirmed_sender: VaneMultiAddress)
        ensures
            final(self)@ == (ConfirmationModel { confirmed_sender: Some(confirmed_sender@), ..old(self)@ }),
    {
        self.confirmed_sender_address = Some(confirmed_sender);
    }

    pub fn get_confirmation_status(&self) -> (r: ConfirmationStatus)
        ensures
            r == self@.status,
    {
        self.confirmation_status
    }

    pub fn get_multi_id(&self) -> (r: VaneMultiAddress)
        ensures
            r@ == self@.multi_id,
    {
        self.multi_id.duplicate()
    }

    pub fn tx_id_bytes(&self) -> (r: [u8; 32])
        ensures
            r@ == self@.tx_id,
    {
        self.tx_id
    }

    pub fn get_network(&self) -> (r: BlockchainNetwork)
        ensures
            r == self@.network,
    {
        self.network
    }

    /// The receiver that confirmed, if one has.
    pub fn get_confirmed_receiver(&self) -> (r: Option<VaneMultiAddress>)
        ensures
            option_address_view(r) == self@.confirmed_receiver,
    {
        match &self.confirmed_receiver_address {
            Some(a) => Some(a.duplicate()),
            None => None,
        }
    }

    /// The sender that confirmed, if one has.
    pub fn get_confirmed_sender(&self) -> (r: Option<VaneMultiAddress>)
        ensures
            option_address_view(r) == self@.confirmed_sender,
    {
        match &self.confirmed_sender_address {
            Some(a) => Some(a.duplicate()),
            None => None,
        }
    }
}

impl TxSimulationObject {
    /// The simulation record of a confirmation whose both parties have confirmed.
    pub fn from_confirmation(value: TxConfirmationObject) -> (r: TxSimulationObject)
        requires
            value.confirmed_sender_address is Some,
            value.confirmed_receiver_address is Some,
        ensures
            r@ == simulation_of(value@),
    {
        match (value.confirmed_sender_address, value.confirmed_receiver_address) {
            (Some(sender_address), Some(receiver_address)) => TxSimulationObject {
                tx_id: value.tx_id,
                call: value.call,
                confirmation_status: value.confirmation_status,
                network: value.network,
                sender_address,
                receiver_address,
            },
            _ => {
                assert(false);
                TxSimulationObject {
                    tx_id: value.tx_id,
                    call: value.call,
                    confirmation_status: value.confirmation_status,
                    network: value.network,
                    sender_address: VaneMultiAddress::Index,
                    receiver_address: VaneMultiAddress::Index,
                }
            },
        }
    }

    pub fn tx_id_bytes(&self) -> (r: [u8; 32])
        ensures
            r@ == self@.tx_id,
    {
        self.tx_id
    }

    pub fn get_sender(&self) -> (r: VaneMultiAddress)
        ensures
            r@ == self@.sender,
    {
        self.sender_address.duplicate()
    }

    pub fn get_receiver(&self) -> (r: VaneMultiAddress)
        ensures
            r@ == self@.receiver,
    {
        self.receiver_address.duplicate()
    }

    pub fn get_confirmation_status(&self) -> (r: ConfirmationStatus)
        ensures
            r == self@.status,
    {
        self.confirmation_status
    }
}

} // verus!
