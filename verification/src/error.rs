use vstd::prelude::*;

verus! {

/// Lowest failure code of the protocol; the variants of [`HypeError`] are numbered upwards from
/// it in declaration order.
pub const ERROR_CODE_BASE: u32 = 6000;

/// Coded failures of the protocol.
#[derive(Clone, Copy, Debug, PartialEq, Eq, Structural)]
pub enum HypeError {
    /// Invalid Accounts Number.
    InvalidAccountsNumber,
    /// Invalid Instruction.
    InvalidInstruction,
    /// Not Rent Exempt.
    NotRentExempt,
    /// Expected Amount Mismatch.
    ExpectedAmountMismatch,
    /// Initial Supply Must Be Non Zero.
    InitialSupplyMustBeNonZero,
    /// Invalid Account Owner.
    InvalidAccountOwner,
    /// Invalid Account Key.
    InvalidAccountKey,
    /// Insufficient Funds.
    InsufficientFunds,
    /// Invalid Token Mint.
    InvalidTokenMint,
    /// Arithmetic Overflow.
    ArithmeticOverflow,
    /// Invalid Hype Authority.
    InvalidHypeAuthority,
    /// Invalid Token Program ID.
    InvalidTokenProgramId,
    /// Invalid System Program ID.
    InvalidSystemProgramId,
    /// Admin Signature Required.
    AdminSignatureRequired,
    /// Invalid Root Account.
    InvalidRootAccount,
    /// Invalid Account Tag.
    InvalidAccountTag,
    /// Invalid Admin.
    InvalidAdmin,
    /// Invalid Token 2022 Program ID.
    InvalidToken2022ProgramId,
    /// Invalid Associated Token ID.
    InvalidAssociatedTokenId,
    /// Invalid Client Account.
    InvalidClientAccount,
    /// Invalid Token Account.
    InvalidTokenAccount,
    /// Invalid Base Currency Mint.
    InvalidBaseCrncyMint,
    /// Invalid Network ID.
    InvalidNetworkId,
    /// Invalid Associated Token Address.
    InvalidAssociatedTokenAddress,
    /// Invalid Token Supply.
    InvalidTokenSupply,
    /// Too Small Quantity.
    TooSmallQuantity,
    /// Max Trade Cost Exceeded.
    MaxTradeCostExceeded,
    /// Invalid Base Currency Program Address.
    InvalidBaseCrncyProgramAddress,
    /// Too Big Quantity.
    TooBigQuantity,
    /// Invalid total supply.
    InvalidTotalSupply,
    /// Invalid Mint Size.
    InvalidMintSize,
    /// Invalid TVL.
    InvalidTVL,
    /// Address has to be lower case.
    AddressHasToBeLowerCase,
    /// Invalid Holder Account.
    InvalidHolderAccount,
    /// Invalid Holder Admin.
    InvalidHolderAdmin,
    /// Invalid Data Length.
    InvalidDataLength,
    /// Invalid New Account PDA.
    InvalidNewAccountPDA,
    /// Invalid New Operator Account.
    InvalidNewOperatorAccount,
    /// Max Networks Count Exceeded.
    MaxNetworksCountExceeded,
    /// Invalid Address.
    InvalidAddress,
    /// Invalid Ref Address.
    InvalidRefAddress,
    /// Invalid Validator.
    InvalidValidator,
    /// Token already verified.
    TokenAlreadyVerified,
    /// Invalid Fee Wallet.
    InvalidFeeWallet,
    /// Invalid Supply.
    InvalidSupply,
}

/// What an operation reports when it is refused: a coded failure of the protocol, or one of the
/// host's generic failures.
#[derive(Clone, Copy, Debug, PartialEq, Eq, Structural)]
pub enum Failure {
    /// A coded failure of the protocol.
    Custom(HypeError),
    /// Fewer accounts were passed than the operation reads.
    NotEnoughAccountKeys,
    /// An account that must belong to this program belongs to another one.
    IncorrectProgramId,
    /// A derivation seed is longer than the host allows, or there are too many seeds.
    MaxSeedLengthExceeded,
    /// The seeds do not derive an address that a program can control.
    InvalidSeeds,
    /// The owner of a derived address is not allowed.
    IllegalOwner,
    /// An account would have to grow beyond what the ledger stores.
    InvalidRealloc,
}

impl HypeError {
    /// Position of the variant in the declaration, starting at zero.
    pub open spec fn ordinal(self) -> nat {
        match self {
            HypeError::InvalidAccountsNumber => 0,
            HypeError::InvalidInstruction => 1,
            HypeError::NotRentExempt => 2,
            HypeError::ExpectedAmountMismatch => 3,
            HypeError::InitialSupplyMustBeNonZero => 4,
            HypeError::InvalidAccountOwner => 5,
            HypeError::InvalidAccountKey => 6,
            HypeError::InsufficientFunds => 7,
            HypeError::InvalidTokenMint => 8,
            HypeError::ArithmeticOverflow => 9,
            HypeError::InvalidHypeAuthority => 10,
            HypeError::InvalidTokenProgramId => 11,
            HypeError::InvalidSystemProgramId => 12,
            HypeError::AdminSignatureRequired => 13,
            HypeError::InvalidRootAccount => 14,
            HypeError::InvalidAccountTag => 15,
            HypeError::InvalidAdmin => 16,
            HypeError::InvalidToken2022ProgramId => 17,
            HypeError::InvalidAssociatedTokenId => 18,
            HypeError::InvalidClientAccount => 19,
            HypeError::InvalidTokenAccount => 20,
            HypeError::InvalidBaseCrncyMint => 21,
            HypeError::InvalidNetworkId => 22,
            HypeError::InvalidAssociatedTokenAddress => 23,
            HypeError::InvalidTokenSupply => 24,
            HypeError::TooSmallQuantity => 25,
            HypeError::MaxTradeCostExceeded => 26,
            HypeError::InvalidBaseCrncyProgramAddress => 27,
            HypeError::TooBigQuantity => 28,
            HypeError::InvalidTotalSupply => 29,
            HypeError::InvalidMintSize => 30,
            HypeError::InvalidTVL => 31,
            HypeError::AddressHasToBeLowerCase => 32,
            HypeError::InvalidHolderAccount => 33,
            HypeError::InvalidHolderAdmin => 34,
            HypeError::InvalidDataLength => 35,
            HypeError::InvalidNewAccountPDA => 36,
            HypeError::InvalidNewOperatorAccount => 37,
            HypeError::MaxNetworksCountExceeded => 38,
            HypeError::InvalidAddress => 39,
            HypeError::InvalidRefAddress => 40,
            HypeError::InvalidValidator => 41,
            HypeError::TokenAlreadyVerified => 42,
            HypeError::InvalidFeeWallet => 43,
            HypeError::InvalidSupply => 44,
        }
    }

    /// The numeric code under which the host reports this failure.
    pub open spec fn spec_code(self) -> nat {
        ERROR_CODE_BASE as nat + self.ordinal()
    }

    /// The text that describes this failure.
    pub open spec fn spec_message(self) -> Seq<char> {
        match self {
            HypeError::InvalidAccountsNumber => "Invalid Accounts Number"@,
            HypeError::InvalidInstruction => "Invalid Instruction"@,
            HypeError::NotRentExempt => "Not Rent Exempt"@,
            HypeError::ExpectedAmountMismatch => "Expected Amount Mismatch"@,
            HypeError::InitialSupplyMustBeNonZero => "Initial Supply Must Be Non Zero"@,
            HypeError::InvalidAccountOwner => "Invalid Account Owner"@,
            HypeError::InvalidAccountKey => "Invalid Account Key"@,
            HypeError::InsufficientFunds => "Insufficient Funds"@,
            HypeError::InvalidTokenMint => "Invalid Token Mint"@,
            HypeError::ArithmeticOverflow => "Arithmetic Overflow"@,
            HypeError::InvalidHypeAuthority => "Invalid Hype Authority"@,
            HypeError::InvalidTokenProgramId => "Invalid Token Program ID"@,
            HypeError::InvalidSystemProgramId => "Invalid System Program ID"@,
            HypeError::AdminSignatureRequired => "Admin Signature Required"@,
            HypeError::InvalidRootAccount => "Invalid Root Account"@,
            HypeError::InvalidAccountTag => "Invalid Account Tag"@,
            HypeError::InvalidAdmin => "Invalid Admin"@,
            HypeError::InvalidToken2022ProgramId => "Invalid Token 2022 Program ID"@,
            HypeError::InvalidAssociatedTokenId => "Invalid Associated Token ID"@,
            HypeError::InvalidClientAccount => "Invalid Client Account"@,
            HypeError::InvalidTokenAccount => "Invalid Token Account"@,
            HypeError::InvalidBaseCrncyMint => "Invalid Base Currency Mint"@,
            HypeError::InvalidNetworkId => "Invalid Network ID"@,
            HypeError::InvalidAssociatedTokenAddress => "Invalid Associated Token Address"@,
            HypeError::InvalidTokenSupply => "Invalid Token Supply"@,
            HypeError::TooSmallQuantity => "Too Small Quantity"@,
            HypeError::MaxTradeCostExceeded => "Max Trade Cost Exceeded"@,
            HypeError::InvalidBaseCrncyProgramAddress => "Invalid Base Currency Program Address"@,
            HypeError::TooBigQuantity => "Too Big Quantity"@,
            HypeError::InvalidTotalSupply => "Invalid total supply"@,
            HypeError::InvalidMintSize => "Invalid Mint Size"@,
            HypeError::InvalidTVL => "Invalid TVL"@,
            HypeError::AddressHasToBeLowerCase => "Address has to be lower case"@,
            HypeError::InvalidHolderAccount => "Invalid Holder Account"@,
            HypeError::InvalidHolderAdmin => "Invalid Holder Admin"@,
            HypeError::InvalidDataLength => "Invalid Data Length"@,
            HypeError::InvalidNewAccountPDA => "Invalid New Account PDA"@,
            HypeError::InvalidNewOperatorAccount => "Invalid New Operator Account"@,
            HypeError::MaxNetworksCountExceeded => "Max Networks Count Exceeded"@,
            HypeError::InvalidAddress => "Invalid Address"@,
            HypeError::InvalidRefAddress => "Invalid Ref Address"@,
            HypeError::InvalidValidator => "Invalid Validator"@,
            HypeError::TokenAlreadyVerified => "Token already verified"@,
            HypeError::InvalidFeeWallet => "Invalid Fee Wallet"@,
            HypeError::InvalidSupply => "Invalid Supply"@,
        }
    }

    /// Returns the numeric code under which the host reports this failure.
    pub fn code(&self) -> (r: u32)
        ensures
            r == self.spec_code(),
            ERROR_CODE_BASE <= r < ERROR_CODE_BASE + 45,
    {
        let index: u32 = match self {
            HypeError::InvalidAccountsNumber => 0,
            HypeError::InvalidInstruction => 1,
            HypeError::NotRentExempt => 2,
            HypeError::ExpectedAmountMismatch => 3,
            HypeError::InitialSupplyMustBeNonZero => 4,
            HypeError::InvalidAccountOwner => 5,
            HypeError::InvalidAccountKey => 6,
            HypeError::InsufficientFunds => 7,
            HypeError::InvalidTokenMint => 8,
            HypeError::ArithmeticOverflow => 9,
            HypeError::InvalidHypeAuthority => 10,
            HypeError::InvalidTokenProgramId => 11,
            HypeError::InvalidSystemProgramId => 12,
            HypeError::AdminSignatureRequired => 13,
            HypeError::InvalidRootAccount => 14,
            HypeError::InvalidAccountTag => 15,
            HypeError::InvalidAdmin => 16,
            HypeError::InvalidToken2022ProgramId => 17,
            HypeError::InvalidAssociatedTokenId => 18,
            HypeError::InvalidClientAccount => 19,
            HypeError::InvalidTokenAccount => 20,
            HypeError::InvalidBaseCrncyMint => 21,
            HypeError::InvalidNetworkId => 22,
            HypeError::InvalidAssociatedTokenAddress => 23,
            HypeError::InvalidTokenSupply => 24,
            HypeError::TooSmallQuantity => 25,
            HypeError::MaxTradeCostExceeded => 26,
            HypeError::InvalidBaseCrncyProgramAddress => 27,
            HypeError::TooBigQuantity => 28,
            HypeError::InvalidTotalSupply => 29,
            HypeError::InvalidMintSize => 30,
            HypeError::InvalidTVL => 31,
            HypeError::AddressHasToBeLowerCase => 32,
            HypeError::InvalidHolderAccount => 33,
            HypeError::InvalidHolderAdmin => 34,
            HypeError::InvalidDataLength => 35,
            HypeError::InvalidNewAccountPDA => 36,
            HypeError::InvalidNewOperatorAccount => 37,
            HypeError::MaxNetworksCountExceeded => 38,
            HypeError::InvalidAddress => 39,
            HypeError::InvalidRefAddress => 40,
            HypeError::InvalidValidator => 41,
            HypeError::TokenAlreadyVerified => 42,
            HypeError::InvalidFeeWallet => 43,
            HypeError::InvalidSupply => 44,
        };
        ERROR_CODE_BASE + index
    }

    /// Returns the text that describes this failure.
    pub fn message(&self) -> (r: &'static str)
        ensures
            r@ == self.spec_message(),
    {
        match self {
            HypeError::InvalidAccountsNumber => "Invalid Accounts Number",
            HypeError::InvalidInstruction => "Invalid Instruction",
            HypeError::NotRentExempt => "Not Rent Exempt",
            HypeError::ExpectedAmountMismatch => "Expected Amount Mismatch",
            HypeError::InitialSupplyMustBeNonZero => "Initial Supply Must Be Non Zero",
            HypeError::InvalidAccountOwner => "Invalid Account Owner",
            HypeError::InvalidAccountKey => "Invalid Account Key",
            HypeError::InsufficientFunds => "Insufficient Funds",
            HypeError::InvalidTokenMint => "Invalid Token Mint",
            HypeError::ArithmeticOverflow => "Arithmetic Overflow",
            HypeError::InvalidHypeAuthority => "Invalid Hype Authority",
            HypeError::InvalidTokenProgramId => "Invalid Token Program ID",
            HypeError::InvalidSystemProgramId => "Invalid System Program ID",
            HypeError::AdminSignatureRequired => "Admin Signature Required",
            HypeError::InvalidRootAccount => "Invalid Root Account",
            HypeError::InvalidAccountTag => "Invalid Account Tag",
            HypeError::InvalidAdmin => "Invalid Admin",
            HypeError::InvalidToken2022ProgramId => "Invalid Token 2022 Program ID",
            HypeError::InvalidAssociatedTokenId => "Invalid Associated Token ID",
            HypeError::InvalidClientAccount => "Invalid Client Account",
            HypeError::InvalidTokenAccount => "Invalid Token Account",
            HypeError::InvalidBaseCrncyMint => "Invalid Base Currency Mint",
            HypeError::InvalidNetworkId => "Invalid Network ID",
            HypeError::InvalidAssociatedTokenAddress => "Invalid Associated Token Address",
            HypeError::InvalidTokenSupply => "Invalid Token Supply",
            HypeError::TooSmallQuantity => "Too Small Quantity",
            HypeError::MaxTradeCostExceeded => "Max Trade Cost Exceeded",
            HypeError::InvalidBaseCrncyProgramAddress => "Invalid Base Currency Program Address",
            HypeError::TooBigQuantity => "Too Big Quantity",
            HypeError::InvalidTotalSupply => "Invalid total supply",
            HypeError::InvalidMintSize => "Invalid Mint Size",
            HypeError::InvalidTVL => "Invalid TVL",
            HypeError::AddressHasToBeLowerCase => "Address has to be lower case",
            HypeError::InvalidHolderAccount => "Invalid Holder Account",
            HypeError::InvalidHolderAdmin => "Invalid Holder Admin",
            HypeError::InvalidDataLength => "Invalid Data Length",
            HypeError::InvalidNewAccountPDA => "Invalid New Account PDA",
            HypeError::InvalidNewOperatorAccount => "Invalid New Operator Account",
            HypeError::MaxNetworksCountExceeded => "Max Networks Count Exceeded",
            HypeError::InvalidAddress => "Invalid Address",
            HypeError::InvalidRefAddress => "Invalid Ref Address",
            HypeError::InvalidValidator => "Invalid Validator",
            HypeError::TokenAlreadyVerified => "Token already verified",
            HypeError::InvalidFeeWallet => "Invalid Fee Wallet",
            HypeError::InvalidSupply => "Invalid Supply",
        }
    }
}

} // verus!
