//! Sizes, tags and well-known addresses of the protocol.

use vstd::prelude::*;

verus! {

/// Type tag of the holder registry.
pub const HOLDER_TAG: u32 = 1;

/// Type tag of a root ledger.
pub const ROOT_TAG: u32 = 2;

/// Type tag of a client account.
pub const CLIENT_TAG: u32 = 3;

/// Type tag of a token record.
pub const TOKEN_TAG: u32 = 4;

/// Version stored in the holder registry, which belongs to no operator.
pub const NO_VERSION: u32 = 0xFFFF_FFFF;

/// Bytes of the holder registry before its operator records.
pub const HOLDER_ACCOUNT_SIZE: usize = 56;

/// Bytes of one operator record.
pub const OPERATOR_RECORD_SIZE: usize = 72;

/// Bytes of a root ledger before its network records.
pub const ROOT_ACCOUNT_SIZE: usize = 392;

/// Bytes of one network record.
pub const NETWORK_RECORD_SIZE: usize = 136;

/// Bytes of a client account.
pub const CLIENT_ACCOUNT_SIZE: usize = 176;

/// Bytes of a token record.
pub const TOKEN_ACCOUNT_SIZE: usize = 216;

/// Bytes of a token account of the external token service.
pub const TOKEN_HOLDING_SIZE: usize = 165;

/// Bytes of the external address under which a token is listed.
pub const ADDRESS_STRING_LENGTH: usize = 24;

/// Bytes of a network's character mask.
pub const MASK_STRING_LENGTH: usize = 64;

/// Bytes of an operator's name.
pub const OPERATOR_NAME_STRING_LENGTH: usize = 32;

/// Seed of the address that signs for the program: the ASCII letters `hype`.
pub const HYPE_SEED: [u8; 4] = [104, 121, 112, 101];

/// Address of the system program, which owns every account that is not yet created.
pub const SYSTEM_PROGRAM_ID: [u8; 32] = [0, 0, 0, 0, 0, 0, 0, 0, 0, 0, 0, 0, 0, 0, 0, 0, 0, 0, 0, 0, 0, 0, 0, 0, 0, 0, 0, 0, 0, 0, 0, 0];

/// Address of the token program.
pub const TOKEN_PROGRAM_ID: [u8; 32] = [6, 221, 246, 225, 215, 101, 161, 147, 217, 203, 225, 70, 206, 235, 121, 172, 28, 180, 133, 237, 95, 91, 55, 145, 58, 140, 245, 133, 126, 255, 0, 169];

/// Address of the token program with extensions.
pub const TOKEN_2022_PROGRAM_ID: [u8; 32] = [6, 221, 246, 225, 238, 117, 143, 222, 24, 66, 93, 188, 228, 108, 205, 218, 182, 26, 252, 77, 131, 185, 13, 39, 254, 189, 249, 40, 216, 161, 139, 252];

/// Address of the program that derives and creates associated token accounts.
pub const ASSOCIATED_TOKEN_PROGRAM_ID: [u8; 32] = [140, 151, 37, 143, 78, 36, 137, 241, 187, 61, 16, 41, 20, 142, 13, 131, 11, 90, 19, 153, 218, 255, 16, 132, 4, 142, 123, 216, 219, 233, 248, 89];

/// Status of a token that no validator has looked at.
pub const NOT_CHECKED: u64 = 0;

/// Status of a token that its network's validator has confirmed.
pub const VERIFIED: u64 = 1;

/// Status of a token that its network's validator has rejected.
pub const NOT_VERIFIED: u64 = 2;

} // verus!
