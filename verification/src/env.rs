//! The environment that a contract runs in.

use vstd::prelude::*;

use crate::handlers::NoMethodError;

verus! {

/// A number of 256 bits, as four words, the least significant first.
#[derive(Debug, Copy, Clone, PartialEq, Eq)]
pub struct U256(pub [u64; 4]);

impl View for U256 {
    type V = Seq<u64>;

    open spec fn view(&self) -> Seq<u64> {
        self.0@
    }
}

/// The words of a number are those that it holds.
pub proof fn law_words(number: U256)
    ensures
        number@ == number.0@,
{
}

/// `bigint::U256::from` on a `u64`: the value is the least significant word, and the
/// other words are zero.
#[verifier::external_body]
fn u256_from(value: u64) -> (words: [u64; 4])
    ensures
        words@ == seq![value, 0u64, 0u64, 0u64],
{
    bigint::U256::from(value).0
}

impl U256 {
    /// The number `value`.
    pub fn from_word(value: u64) -> (number: U256)
        ensures
            number@ == seq![value, 0u64, 0u64, 0u64],
    {
        U256(u256_from(value))
    }
}

/// Who deploys a contract.
pub struct DeployData {
    pub deployer: U256,
}

/// The data to deploy with: the deployer is account zero.
pub fn deploy_data() -> (data: DeployData)
    ensures
        data.deployer@ == seq![0u64, 0u64, 0u64, 0u64],
{
    DeployData { deployer: U256::from_word(0) }
}

/// A contract somewhere on the chain.
pub trait RemoteContract {

}

/// A contract of which nothing is known.
pub struct Remote;

impl RemoteContract for Remote {

}

/// A contract whose code and methods can be reached.
pub trait ExternalContract {
    fn code(&self) -> &[u8];

    fn call(&self, method: &[u8], args: &[u8]) -> &[u8];
}

/// What a contract sees of the chain around it.
pub struct EthEnv(());

/// There is nothing by which one environment differs from another.
pub proof fn law_one_env(env: EthEnv, other: EthEnv)
    ensures
        env == other,
{
}

impl EthEnv {
    /// An environment to run a contract in without a chain.
    pub fn new() -> (env: EthEnv) {
        EthEnv(())
    }

    /// The contract at an address. There is one at every address.
    pub fn contract_at(&self, _addr: U256) -> (contract: Result<&Remote, NoMethodError>)
        ensures
            contract is Ok,
    {
        Ok(&Remote)
    }

    /// The contract that is running.
    pub fn current_contract(&self) -> (contract: Result<&Remote, NoMethodError>)
        ensures
            contract is Ok,
    {
        Ok(&Remote)
    }
}

} // verus!
