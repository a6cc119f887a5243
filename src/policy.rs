//! The resource policy: prices and hard limits applied to every chain that
//! shares it, and the per-block tracker that charges against it.

use vstd::prelude::*;

verus! {

/// An error raised while executing an operation or a message.
#[derive(Clone, Copy, Debug, PartialEq, Eq, Structural)]
pub enum ExecutionError {
    /// A bytecode exceeds the policy's maximum bytecode size.
    BytecodeTooLarge,
    /// A blob exceeds the policy's maximum blob size.
    BlobTooLarge,
    /// The chain balance cannot pay for what was consumed.
    InsufficientBalance,
    /// The block would use more fuel than the policy allows.
    MaximumFuelExceeded,
    /// A fee or a credit does not fit in an amount.
    ArithmeticOverflow,
    /// The application trapped while running.
    UserApplicationTrap,
}

/// Prices (in the smallest unit of the native token) and hard limits.
#[derive(Clone, Copy, Debug, PartialEq, Eq, Structural)]
pub struct ResourceControlPolicy {
    /// The price of one unit of fuel.
    pub wasm_fuel_unit: u128,
    /// The price of reading a blob.
    pub blob_read: u128,
    /// The price of publishing a blob.
    pub blob_published: u128,
    /// The price of each byte of a blob that is read.
    pub blob_byte_read: u128,
    /// The price of each byte of a blob that is published.
    pub blob_byte_published: u128,
    /// The most fuel that one block may use.
    pub maximum_wasm_fuel_per_block: u64,
    /// The largest bytecode that may be published.
    pub maximum_bytecode_size: u64,
    /// The largest blob that may be published.
    pub maximum_blob_size: u64,
}

/// The largest amount.
pub open spec fn max_amount() -> int {
    u128::MAX as int
}

/// The fee for `fuel` units of fuel.
pub open spec fn fuel_cost(p: ResourceControlPolicy, fuel: int) -> int {
    fuel * p.wasm_fuel_unit
}

/// The fee for publishing one blob of `size` bytes.
pub open spec fn blob_publish_cost(p: ResourceControlPolicy, size: int) -> int {
    p.blob_published + p.blob_byte_published * size
}

/// The fee for reading one blob of `size` bytes.
pub open spec fn blob_read_cost(p: ResourceControlPolicy, size: int) -> int {
    p.blob_read + p.blob_byte_read * size
}

/// The fee for publishing a module: one blob for each of its two bytecodes.
pub open spec fn module_publish_cost(p: ResourceControlPolicy, contract: int, service: int) -> int {
    blob_publish_cost(p, contract) + blob_publish_cost(p, service)
}

/// What the size checks of publishing a module decide, before any fee.
/// Each bytecode is published as a blob of its own bytes.
pub open spec fn publish_size_check(p: ResourceControlPolicy, contract: int, service: int) -> Result<(), ExecutionError> {
    if contract > p.maximum_bytecode_size || service > p.maximum_bytecode_size {
        Err(ExecutionError::BytecodeTooLarge)
    } else if contract > p.maximum_blob_size || service > p.maximum_blob_size {
        Err(ExecutionError::BlobTooLarge)
    } else {
        Ok(())
    }
}

/// The fee for publishing a module of the given bytecode sizes, or why it is refused.
pub open spec fn publish_fee(p: ResourceControlPolicy, contract: int, service: int) -> Result<int, ExecutionError> {
    match publish_size_check(p, contract, service) {
        Err(e) => Err(e),
        Ok(_) => if module_publish_cost(p, contract, service) > max_amount() {
            Err(ExecutionError::ArithmeticOverflow)
        } else {
            Ok(module_publish_cost(p, contract, service))
        },
    }
}

/// Charging `fuel` units against a block that has used `used` units so far, paid
/// first from `grant` and then from `balance`. On success: the fuel used, the
/// balance and the unspent grant afterwards.
pub open spec fn fuel_charge(p: ResourceControlPolicy, used: int, balance: int, grant: int, fuel: int) -> Result<(int, int, int), ExecutionError> {
    if used + fuel > p.maximum_wasm_fuel_per_block {
        Err(ExecutionError::MaximumFuelExceeded)
    } else if fuel_cost(p, fuel) > max_amount() {
        Err(ExecutionError::ArithmeticOverflow)
    } else {
        let cost = fuel_cost(p, fuel);
        let from_grant = if cost <= grant { cost } else { grant };
        if cost - from_grant > balance {
            Err(ExecutionError::InsufficientBalance)
        } else {
            Ok((used + fuel, balance - (cost - from_grant), grant - from_grant))
        }
    }
}

/// Charging fuel never raises the balance, and charging no fuel leaves the
/// balance and the grant as they were.
pub proof fn lemma_fuel_charge_monotonic(p: ResourceControlPolicy, used: int, balance: int, grant: int, fuel: int)
    requires
        fuel >= 0,
        grant >= 0,
        p.wasm_fuel_unit >= 0,
    ensures
        fuel_charge(p, used, balance, grant, fuel) matches Ok((_, b, g)) ==> b <= balance && 0 <= g <= grant,
        fuel == 0 && fuel_charge(p, used, balance, grant, fuel) is Ok ==> fuel_charge(p, used, balance, grant, fuel)->Ok_0.1 == balance
            && fuel_charge(p, used, balance, grant, fuel)->Ok_0.2 == grant,
{
    assert(fuel * p.wasm_fuel_unit >= 0) by (nonlinear_arith)
        requires fuel >= 0, p.wasm_fuel_unit >= 0;
}

impl ResourceControlPolicy {
    /// The policy that charges nothing and limits nothing.
    pub open spec fn free_policy() -> Self {
        ResourceControlPolicy {
            wasm_fuel_unit: 0,
            blob_read: 0,
            blob_published: 0,
            blob_byte_read: 0,
            blob_byte_published: 0,
            maximum_wasm_fuel_per_block: u64::MAX,
            maximum_bytecode_size: u64::MAX,
            maximum_blob_size: u64::MAX,
        }
    }

    /// A policy that charges nothing and limits nothing.
    pub fn free() -> (r: Self)
        ensures
            r == Self::free_policy(),
    {
        ResourceControlPolicy {
            wasm_fuel_unit: 0,
            blob_read: 0,
            blob_published: 0,
            blob_byte_read: 0,
            blob_byte_published: 0,
            maximum_wasm_fuel_per_block: u64::MAX,
            maximum_bytecode_size: u64::MAX,
            maximum_blob_size: u64::MAX,
        }
    }

    /// Returns the fee for `fuel` units of fuel, or `None` where it does not fit in an amount.
    pub fn fuel_fee(&self, fuel: u64) -> (r: Option<u128>)
        ensures
            fuel_cost(*self, fuel as int) <= max_amount() ==> r == Some(fuel_cost(*self, fuel as int) as u128),
            fuel_cost(*self, fuel as int) > max_amount() ==> r is None,
    {
        (fuel as u128).checked_mul(self.wasm_fuel_unit)
    }

    /// Returns the fee for publishing one blob of `size` bytes, or `None` where it
    /// does not fit in an amount.
    pub fn blob_fee(&self, size: u64) -> (r: Option<u128>)
        ensures
            blob_publish_cost(*self, size as int) <= max_amount() ==> r == Some(blob_publish_cost(*self, size as int) as u128),
            blob_publish_cost(*self, size as int) > max_amount() ==> r is None,
    {
        match self.blob_byte_published.checked_mul(size as u128) {
            None => {
                assert(self.blob_byte_published * size >= 0) by (nonlinear_arith);
                None
            },
            Some(bytes) => self.blob_published.checked_add(bytes),
        }
    }

    /// Returns the fee for reading one blob of `size` bytes, or `None` where it
    /// does not fit in an amount.
    pub fn blob_read_fee(&self, size: u64) -> (r: Option<u128>)
        ensures
            blob_read_cost(*self, size as int) <= max_amount() ==> r == Some(blob_read_cost(*self, size as int) as u128),
            blob_read_cost(*self, size as int) > max_amount() ==> r is None,
    {
        match self.blob_byte_read.checked_mul(size as u128) {
            None => {
                assert(self.blob_byte_read * size >= 0) by (nonlinear_arith);
                None
            },
            Some(bytes) => self.blob_read.checked_add(bytes),
        }
    }

    /// Checks the sizes of a module's two bytecodes and returns the fee for
    /// publishing it. Both bytecodes pass or the module is refused as a whole.
    pub fn publish_fee(&self, contract_len: u64, service_len: u64) -> (r: Result<u128, ExecutionError>)
        ensures
            match publish_fee(*self, contract_len as int, service_len as int) {
                Ok(fee) => r == Ok::<u128, ExecutionError>(fee as u128),
                Err(e) => r == Err::<u128, ExecutionError>(e),
            },
    {
        if contract_len > self.maximum_bytecode_size || service_len > self.maximum_bytecode_size {
            return Err(ExecutionError::BytecodeTooLarge);
        }
        if contract_len > self.maximum_blob_size || service_len > self.maximum_blob_size {
            return Err(ExecutionError::BlobTooLarge);
        }
        let contract_fee = self.blob_fee(contract_len);
        let service_fee = self.blob_fee(service_len);
        proof {
            assert(self.blob_byte_published * contract_len >= 0) by (nonlinear_arith);
            assert(self.blob_byte_published * service_len >= 0) by (nonlinear_arith);
        }
        match (contract_fee, service_fee) {
            (Some(a), Some(b)) => match a.checked_add(b) {
                Some(total) => Ok(total),
                None => Err(ExecutionError::ArithmeticOverflow),
            },
            _ => Err(ExecutionError::ArithmeticOverflow),
        }
    }
}

impl Default for ResourceControlPolicy {
    /// The policy that charges nothing and limits nothing.
    fn default() -> (r: Self)
        ensures
            r == ResourceControlPolicy::free_policy(),
    {
        ResourceControlPolicy::free()
    }
}

/// What a block has consumed so far, and the balance that pays for it.
#[derive(Clone, Copy, Debug, PartialEq, Eq, Structural)]
pub struct ResourceTracker {
    /// Fuel used by the block so far.
    pub fuel: u64,
    /// The chain balance left.
    pub balance: u128,
}

impl ResourceTracker {
    /// Charges `fuel` units of fuel, paid first from `grant` and then from the
    /// balance, and returns the unspent grant. On failure nothing changes.
    pub fn charge_fuel(&mut self, policy: &ResourceControlPolicy, fuel: u64, grant: u128) -> (r: Result<u128, ExecutionError>)
        ensures
            match fuel_charge(*policy, old(self).fuel as int, old(self).balance as int, grant as int, fuel as int) {
                Ok((used, balance, unspent)) => r == Ok::<u128, ExecutionError>(unspent as u128)
                    && final(self).fuel == used && final(self).balance == balance,
                Err(e) => r == Err::<u128, ExecutionError>(e) && *final(self) == *old(self),
            },
    {
        if fuel > policy.maximum_wasm_fuel_per_block || self.fuel > policy.maximum_wasm_fuel_per_block - fuel {
            return Err(ExecutionError::MaximumFuelExceeded);
        }
        let cost = match policy.fuel_fee(fuel) {
            Some(c) => c,
            None => return Err(ExecutionError::ArithmeticOverflow),
        };
        let from_grant = if cost <= grant { cost } else { grant };
        let rest = cost - from_grant;
        if rest > self.balance {
            return Err(ExecutionError::InsufficientBalance);
        }
        self.fuel = self.fuel + fuel;
        self.balance = self.balance - rest;
        Ok(grant - from_grant)
    }
}

} // verus!
