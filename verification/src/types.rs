//! Plain values shared by every component of the ledger.

use vstd::prelude::*;

verus! {

/// A 32-byte identifier of an invoice, bid, investment, escrow, audit entry
/// or backup.
pub type Id = [u8; 32];

/// Whether an address names an account or a contract.
#[derive(Clone, Copy, Debug, PartialEq, Eq, Hash, Structural)]
pub enum AddressKind {
    Account,
    Contract,
}

/// The identity of a party: a business, an investor, the platform, an admin.
/// The ledger only ever compares addresses.
#[derive(Clone, Copy, Debug, PartialEq, Eq, Hash)]
pub struct Address {
    pub kind: AddressKind,
    pub key: [u8; 32],
}

/// What every written address starts with: the tag of an address.
pub open spec fn address_tag() -> Seq<u8> {
    seq![0u8, 0u8, 0u8, 18u8]
}

/// What follows the tag in a written account: the kind of the address, and
/// the kind of the key.
pub open spec fn account_head() -> Seq<u8> {
    seq![0u8, 0u8, 0u8, 0u8, 0u8, 0u8, 0u8, 0u8]
}

/// What follows the tag in a written contract: the kind of the address.
pub open spec fn contract_head() -> Seq<u8> {
    seq![0u8, 0u8, 0u8, 1u8]
}

impl Address {
    /// The address as the host writes it: the tag, the head of its kind,
    /// and the thirty-two bytes of the key.
    pub open spec fn written(self) -> Seq<u8> {
        match self.kind {
            AddressKind::Account => address_tag() + account_head() + self.key@,
            AddressKind::Contract => address_tag() + contract_head() + self.key@,
        }
    }

    /// The address as the host writes it.
    pub fn write(&self) -> (bytes: Vec<u8>)
        ensures
            bytes@ == self.written(),
    {
        let mut bytes: Vec<u8> = Vec::new();
        bytes.push(0);
        bytes.push(0);
        bytes.push(0);
        bytes.push(18);
        bytes.push(0);
        bytes.push(0);
        bytes.push(0);
        match self.kind {
            AddressKind::Account => {
                bytes.push(0);
                bytes.push(0);
                bytes.push(0);
                bytes.push(0);
                bytes.push(0);
            },
            AddressKind::Contract => {
                bytes.push(1);
            },
        }
        let ghost head = bytes@;
        let mut i: usize = 0;
        while i < 32
            invariant
                i <= 32,
                bytes@ == head + self.key@.take(i as int),
            decreases 32 - i,
        {
            bytes.push(self.key[i]);
            proof {
                assert(self.key@.take(i + 1) =~= self.key@.take(i as int).push(self.key@[i as int]));
                assert(bytes@ =~= head + self.key@.take(i + 1));
            }
            i += 1;
        }
        proof {
            assert(self.key@.take(32) =~= self.key@);
            assert(bytes@ =~= self.written());
        }
        bytes
    }

    /// The address that the host writes as `bytes`, if there is one.
    pub fn read(bytes: &Vec<u8>) -> (address: Option<Address>)
        ensures
            match address {
                Some(address) => bytes@ == address.written(),
                None => forall|address: Address| bytes@ != #[trigger] address.written(),
            },
    {
        let length = bytes.len();
        if length != 40 && length != 44 {
            proof {
                assert forall|address: Address| bytes@ != #[trigger] address.written() by {
                    assert(address.written().len() == 40 || address.written().len() == 44);
                }
            }
            return None;
        }
        let tagged = bytes[0] == 0 && bytes[1] == 0 && bytes[2] == 0 && bytes[3] == 18 && bytes[4] == 0
            && bytes[5] == 0 && bytes[6] == 0;
        let kind = if length == 44 {
            AddressKind::Account
        } else {
            AddressKind::Contract
        };
        let headed = if length == 44 {
            bytes[7] == 0 && bytes[8] == 0 && bytes[9] == 0 && bytes[10] == 0 && bytes[11] == 0
        } else {
            bytes[7] == 1
        };
        if !tagged || !headed {
            proof {
                assert forall|address: Address| bytes@ != #[trigger] address.written() by {
                    let written = address.written();
                    if bytes@ == written {
                        assert(written.len() == 40 || written.len() == 44);
                        assert(written[0] == 0 && written[1] == 0 && written[2] == 0 && written[3] == 18);
                        assert(written[4] == 0 && written[5] == 0 && written[6] == 0);
                        if address.kind == AddressKind::Account {
                            assert(written.len() == 44);
                            assert(written[7] == 0 && written[8] == 0 && written[9] == 0 && written[10] == 0
                                && written[11] == 0);
                        } else {
                            assert(written.len() == 40);
                            assert(written[7] == 1);
                        }
                    }
                }
            }
            return None;
        }
        let start: usize = length - 32;
        let mut key = [0u8; 32];
        let mut i: usize = 0;
        while i < 32
            invariant
                i <= 32,
                start + 32 == bytes.len(),
                forall|j: int| 0 <= j < i ==> key[j] == bytes@[start + j],
            decreases 32 - i,
        {
            key[i] = bytes[start + i];
            i += 1;
        }
        let address = Address { kind, key };
        proof {
            assert(bytes@ =~= address.written());
        }
        Some(address)
    }

    /// The address of the account with the given public key.
    pub fn account(key: [u8; 32]) -> (address: Address)
        ensures
            address == (Address { kind: AddressKind::Account, key }),
    {
        Address { kind: AddressKind::Account, key }
    }

    /// The address of the contract with the given hash.
    pub fn contract(key: [u8; 32]) -> (address: Address)
        ensures
            address == (Address { kind: AddressKind::Contract, key }),
    {
        Address { kind: AddressKind::Contract, key }
    }
}

/// An address that was written is read back as it was, and two addresses
/// that are written alike are the same address.
pub proof fn lemma_written_once(first: Address, second: Address)
    requires
        first.written() == second.written(),
    ensures
        first == second,
{
    let a = first.written();
    let b = second.written();
    assert(a.len() == b.len());
    assert(a[7] == b[7]);
    if first.kind == AddressKind::Account {
        assert(a.len() == 44);
        assert(a[7] == 0);
        assert(second.kind == AddressKind::Account) by {
            if second.kind == AddressKind::Contract {
                assert(b.len() == 40);
            }
        }
        assert forall|i: int| 0 <= i < 32 implies first.key@[i] == second.key@[i] by {
            assert(a[12 + i] == first.key@[i]);
            assert(b[12 + i] == second.key@[i]);
        }
    } else {
        assert(a.len() == 40);
        assert(second.kind == AddressKind::Contract) by {
            if second.kind == AddressKind::Account {
                assert(b.len() == 44);
            }
        }
        assert forall|i: int| 0 <= i < 32 implies first.key@[i] == second.key@[i] by {
            assert(a[8 + i] == first.key@[i]);
            assert(b[8 + i] == second.key@[i]);
        }
    }
    assert(first.key@ =~= second.key@);
    assert(first.key =~= second.key);
}

/// What the host's clock and height oracle said when an operation began.
#[derive(Clone, Copy, Debug, PartialEq, Eq, Structural)]
pub struct LedgerInfo {
    /// Seconds since the epoch.
    pub timestamp: u64,
    /// Sequence number of the current ledger.
    pub sequence: u32,
}

/// A movement of funds that the host is asked to carry out.
#[derive(Clone, Copy, Debug, PartialEq, Eq)]
pub struct FundsMovement {
    pub from: Address,
    pub to: Address,
    pub amount: i128,
}

} // verus!
