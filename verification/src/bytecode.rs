//! The bytecode heuristic that tells an ERC-20 deployment.

use vstd::prelude::*;
use crate::text::{chars_of, contains_chars, contains_text};

verus! {

/// Selector of `transfer(address,uint256)`.
pub const TRANSFER: &'static str = "a9059cbb";

/// Selector of `balanceOf(address)`.
pub const BALANCE_OF: &'static str = "70a08231";

/// Selector of `allowance(address,address)`.
pub const ALLOWANCE: &'static str = "dd62ed3e";

/// Selector of `approve(address,uint256)`.
pub const APPROVE: &'static str = "095ea7b3";

/// Selector of `transferFrom(address,address,uint256)`.
pub const TRANSFER_FROM: &'static str = "23b872dd";

/// The bytecode checks of the gateway.
pub struct BytecodeUtils;

impl BytecodeUtils {
    /// The five selectors that every ERC-20 contract answers, as hex text.
    pub open spec fn essentials() -> Seq<Seq<char>> {
        seq![TRANSFER@, BALANCE_OF@, ALLOWANCE@, APPROVE@, TRANSFER_FROM@]
    }

    /// `bytecode` holds every one of the five selectors somewhere in its text.
    pub open spec fn holds_essentials(bytecode: Seq<char>) -> bool {
        forall|i: int|
            0 <= i < Self::essentials().len() ==> contains_text(
                bytecode,
                #[trigger] Self::essentials()[i],
            )
    }

    /// The five selectors that every ERC-20 contract answers, as hex text:
    /// `transfer`, `balanceOf`, `allowance`, `approve`, `transferFrom`.
    pub fn erc20_essentials_id(&self) -> (ids: [&'static str; 5])
        ensures
            ids@.len() == 5,
            forall|i: int| 0 <= i < 5 ==> (#[trigger] ids@[i])@ == Self::essentials()[i],
    {
        [TRANSFER, BALANCE_OF, ALLOWANCE, APPROVE, TRANSFER_FROM]
    }

    /// Whether `bytecode`, the hex text of a transaction's input, looks like
    /// the deployment of an ERC-20 contract: it does where the text holds each
    /// of the five selectors, wherever in the text they stand.
    pub fn bytecode_is_deploy_erc20(bytecode: String) -> (is_deploy: bool)
        ensures
            is_deploy == Self::holds_essentials(bytecode@),
    {
        Self::text_is_deploy_erc20(bytecode.as_str())
    }

    /// Whether the text `bytecode` holds each of the five selectors.
    pub fn text_is_deploy_erc20(bytecode: &str) -> (is_deploy: bool)
        ensures
            is_deploy == Self::holds_essentials(bytecode@),
    {
        let essentials = BytecodeUtils.erc20_essentials_id();
        let hay = chars_of(bytecode);
        let mut i: usize = 0;
        while i < 5
            invariant
                i <= 5,
                hay@ == bytecode@,
                essentials@.len() == 5,
                forall|j: int| 0 <= j < 5 ==> (#[trigger] essentials@[j])@ == Self::essentials()[j],
                forall|j: int|
                    0 <= j < i ==> contains_text(bytecode@, #[trigger] Self::essentials()[j]),
            decreases 5 - i,
        {
            let needle = chars_of(essentials[i]);
            if !contains_chars(&hay, &needle) {
                assert(!contains_text(bytecode@, Self::essentials()[i as int]));
                return false;
            }
            i += 1;
        }
        true
    }
}

} // verus!
