//! Contract call data in the Solidity ABI: a four-byte selector taken from
//! the Keccak-256 digest of the function's signature, then one 32-byte word
//! per static argument; and the words that come back.
use vstd::prelude::*;
use vstd::string::StringSliceAdditionalSpecFns;
use crate::address::EthAddress;
use crate::numtext::{append_bytes, append_text, decimal_bytes, decimal_text};

verus! {

/// The Keccak-256 digest of `data`, as alloy computes it.
pub uninterp spec fn keccak256_digest(data: Seq<u8>) -> Seq<u8>;

/// The Keccak-256 digest of `data`.
///
/// Calls `alloy::primitives::keccak256`; the contract claims only that the
/// result is the digest of the bytes handed in (a function of them alone),
/// named `keccak256_digest`.
#[verifier::external_body]
pub(crate) fn keccak256(data: &[u8]) -> (digest: [u8; 32])
    ensures
        digest@ == keccak256_digest(data@),
{
    alloy::primitives::keccak256(data).0
}

/// One static argument of a call.
#[derive(Clone, Copy, Debug, PartialEq, Eq)]
pub enum AbiArg {
    /// An `address`.
    Address(EthAddress),
    /// A `uint256` whose value fits in 64 bits.
    Uint(u64),
}

/// Byte `k` of `v` counted from the least significant end.
pub open spec fn byte_of(v: u64, k: int) -> u8 {
    ((v >> ((8 * k) as u64)) & 0xff) as u8
}

/// The 32-byte big-endian word of a 64-bit unsigned value.
pub open spec fn u64_word(v: u64) -> Seq<u8> {
    Seq::new(32, |i: int| if i < 24 { 0u8 } else { byte_of(v, 31 - i) })
}

/// The word of an address: twelve zero bytes, then the address.
pub open spec fn address_word(a: Seq<u8>) -> Seq<u8> {
    Seq::new(12, |i: int| 0u8) + a
}

/// The word of one argument.
pub open spec fn arg_word(arg: AbiArg) -> Seq<u8> {
    match arg {
        AbiArg::Address(a) => address_word(a.bytes@),
        AbiArg::Uint(v) => u64_word(v),
    }
}

/// The words of all arguments, in order.
pub open spec fn args_words(args: Seq<AbiArg>) -> Seq<u8>
    decreases args.len(),
{
    if args.len() == 0 {
        Seq::empty()
    } else {
        args_words(args.drop_last()) + arg_word(args.last())
    }
}

/// The selector of a function: the first four bytes of the digest of its
/// signature.
pub open spec fn selector_spec(signature: Seq<u8>) -> Seq<u8> {
    keccak256_digest(signature).take(4)
}

/// The call data of a function with static arguments.
pub open spec fn call_data(signature: Seq<u8>, args: Seq<AbiArg>) -> Seq<u8> {
    selector_spec(signature) + args_words(args)
}

/// Call data of `transfer(address,uint256)`.
pub open spec fn transfer_call_data(to: EthAddress, amount: u64) -> Seq<u8> {
    call_data("transfer(address,uint256)".spec_bytes(), seq![AbiArg::Address(to), AbiArg::Uint(amount)])
}

/// Call data of `balanceOf(address)`.
pub open spec fn balance_of_call_data(owner: EthAddress) -> Seq<u8> {
    call_data("balanceOf(address)".spec_bytes(), seq![AbiArg::Address(owner)])
}

/// The 32-byte big-endian word of `v`.
pub fn word_of_u64(v: u64) -> (w: Vec<u8>)
    ensures
        w@ == u64_word(v),
{
    let mut w: Vec<u8> = Vec::new();
    for i in 0..24usize
        invariant
            w@.len() == i,
            forall|j: int| 0 <= j < i ==> w@[j] == 0u8,
    {
        w.push(0u8);
    }
    for k in 0..8u64
        invariant
            w@.len() == 24 + k,
            forall|j: int| 0 <= j < 24 ==> w@[j] == 0u8,
            forall|j: int| 24 <= j < 24 + k ==> w@[j] == byte_of(v, 31 - j),
    {
        let b: u8 = ((v >> (8 * (7 - k))) & 0xff) as u8;
        assert(b == byte_of(v, 31 - (24 + k)));
        w.push(b);
    }
    assert(w@ =~= u64_word(v));
    w
}

/// The word of one argument.
pub fn word_of_arg(arg: &AbiArg) -> (w: Vec<u8>)
    ensures
        w@ == arg_word(*arg),
{
    match arg {
        AbiArg::Address(a) => {
            let mut w: Vec<u8> = Vec::new();
            for i in 0..12usize
                invariant
                    w@.len() == i,
                    forall|j: int| 0 <= j < i ==> w@[j] == 0u8,
            {
                w.push(0u8);
            }
            for i in 0..20usize
                invariant
                    w@.len() == 12 + i,
                    forall|j: int| 0 <= j < 12 ==> w@[j] == 0u8,
                    forall|j: int| 12 <= j < 12 + i ==> w@[j] == a.bytes@[j - 12],
            {
                w.push(a.bytes[i]);
            }
            assert(w@ =~= address_word(a.bytes@));
            w
        },
        AbiArg::Uint(v) => word_of_u64(*v),
    }
}

/// The selector that the first four bytes of a signature's digest make.
pub fn selector_from_digest(digest: &[u8; 32]) -> (sel: Vec<u8>)
    ensures
        sel@ == digest@.take(4),
{
    let mut sel: Vec<u8> = Vec::new();
    for i in 0..4usize
        invariant
            sel@ == digest@.take(i as int),
    {
        sel.push(digest[i]);
        assert(digest@.take(i + 1) =~= digest@.take(i as int).push(digest@[i as int]));
    }
    sel
}

/// The selector of the function with this signature.
pub fn function_selector(signature: &str) -> (sel: Vec<u8>)
    ensures
        sel@ == selector_spec(signature.spec_bytes()),
        sel@.len() == 4,
{
    let digest = keccak256(signature.as_bytes());
    selector_from_digest(&digest)
}

/// Call data from a selector already computed and the arguments.
pub fn call_data_with_selector(sel: &Vec<u8>, args: &Vec<AbiArg>) -> (out: Vec<u8>)
    ensures
        out@ == sel@ + args_words(args@),
{
    let mut out: Vec<u8> = Vec::new();
    for i in 0..sel.len()
        invariant
            out@ == sel@.take(i as int),
    {
        out.push(sel[i]);
        assert(sel@.take(i + 1) =~= sel@.take(i as int).push(sel@[i as int]));
    }
    assert(sel@.take(sel@.len() as int) =~= sel@);
    proof {
        assert(args@.take(0) =~= Seq::<AbiArg>::empty());
        assert(out@ =~= sel@ + args_words(args@.take(0)));
    }
    for k in 0..args.len()
        invariant
            out@ == sel@ + args_words(args@.take(k as int)),
    {
        let w = word_of_arg(&args[k]);
        for j in 0..w.len()
            invariant
                out@ == sel@ + args_words(args@.take(k as int)) + w@.take(j as int),
        {
            out.push(w[j]);
            assert(w@.take(j + 1) =~= w@.take(j as int).push(w@[j as int]));
        }
        proof {
            assert(w@.take(w@.len() as int) =~= w@);
            assert(args@.take(k + 1).drop_last() =~= args@.take(k as int));
            assert(args@.take(k + 1).last() == args@[k as int]);
            assert(out@ =~= sel@ + args_words(args@.take(k + 1)));
        }
    }
    assert(args@.take(args@.len() as int) =~= args@);
    out
}

/// Call data of the function with this signature and these arguments.
pub fn encode_call(signature: &str, args: &Vec<AbiArg>) -> (out: Vec<u8>)
    ensures
        out@ == call_data(signature.spec_bytes(), args@),
        out@.len() == 4 + 32 * args@.len(),
{
    proof {
        lemma_args_words_layout(args@);
    }
    let sel = function_selector(signature);
    call_data_with_selector(&sel, args)
}

/// Call data of `transfer(to, amount)`.
pub fn transfer_calldata(to: EthAddress, amount: u64) -> (out: Vec<u8>)
    ensures
        out@ == transfer_call_data(to, amount),
{
    let mut args: Vec<AbiArg> = Vec::new();
    args.push(AbiArg::Address(to));
    args.push(AbiArg::Uint(amount));
    assert(args@ =~= seq![AbiArg::Address(to), AbiArg::Uint(amount)]);
    encode_call("transfer(address,uint256)", &args)
}

/// Call data of `balanceOf(owner)`.
pub fn balance_of_calldata(owner: EthAddress) -> (out: Vec<u8>)
    ensures
        out@ == balance_of_call_data(owner),
{
    let mut args: Vec<AbiArg> = Vec::new();
    args.push(AbiArg::Address(owner));
    assert(args@ =~= seq![AbiArg::Address(owner)]);
    encode_call("balanceOf(address)", &args)
}

/// Why the words returned by a call could not be read as one `uint256`.
#[derive(Clone, Copy, Debug, PartialEq, Eq)]
pub enum AbiDecodeError {
    /// Fewer than 32 bytes came back.
    Overrun,
    /// More than 32 bytes came back, so writing the value again would not
    /// give the same bytes.
    ReserMismatch,
}

/// The single `uint256` that a call returned, as its 32 big-endian bytes:
/// exactly one word is accepted.
pub fn decode_uint256_return(data: &[u8]) -> (res: Result<[u8; 32], AbiDecodeError>)
    ensures
        data@.len() == 32 ==> (res matches Ok(w) && w@ == data@),
        data@.len() < 32 ==> res == Err::<[u8; 32], AbiDecodeError>(AbiDecodeError::Overrun),
        data@.len() > 32 ==> res == Err::<[u8; 32], AbiDecodeError>(AbiDecodeError::ReserMismatch),
{
    if data.len() < 32 {
        return Err(AbiDecodeError::Overrun);
    }
    if data.len() > 32 {
        return Err(AbiDecodeError::ReserMismatch);
    }
    let mut w: [u8; 32] = [0u8; 32];
    for i in 0..32usize
        invariant
            data@.len() == 32,
            w@.len() == 32,
            forall|j: int| 0 <= j < i ==> w@[j] == data@[j],
    {
        w[i] = data[i];
    }
    assert(w@ =~= data@);
    Ok(w)
}

/// A stress operation of the stress contract, each a function that takes
/// the number of iterations as its one `uint256` argument.
#[derive(Clone, Copy, Debug, PartialEq, Eq, Structural)]
pub enum StressOp {
    Add,
    Mulmod,
    Keccak,
    Ecrecover,
    Blake2f,
    Modexp,
}

/// The contract function of a stress operation.
pub open spec fn stress_function(op: StressOp) -> &'static str {
    match op {
        StressOp::Add => "stressAdd",
        StressOp::Mulmod => "stressMulmod",
        StressOp::Keccak => "stressKeccak",
        StressOp::Ecrecover => "stressEcrecover",
        StressOp::Blake2f => "stressBlake2f",
        StressOp::Modexp => "stressModexp",
    }
}

/// The signature of a stress operation's function.
pub open spec fn stress_signature(op: StressOp) -> &'static str {
    match op {
        StressOp::Add => "stressAdd(uint256)",
        StressOp::Mulmod => "stressMulmod(uint256)",
        StressOp::Keccak => "stressKeccak(uint256)",
        StressOp::Ecrecover => "stressEcrecover(uint256)",
        StressOp::Blake2f => "stressBlake2f(uint256)",
        StressOp::Modexp => "stressModexp(uint256)",
    }
}

/// Call data of a stress operation with `iters` iterations.
pub open spec fn stress_call_data(op: StressOp, iters: u64) -> Seq<u8> {
    call_data(stress_signature(op).spec_bytes(), seq![AbiArg::Uint(iters)])
}

/// The label of a stress run: the function, then the iterations in
/// parentheses, such as `stressAdd(10000)`.
pub open spec fn stress_label_text(op: StressOp, iters: u64) -> Seq<u8> {
    stress_function(op).spec_bytes() + "(".spec_bytes() + decimal_bytes(iters as nat) + ")".spec_bytes()
}

impl StressOp {
    /// The contract function of this operation.
    pub fn function(&self) -> (f: &'static str)
        ensures
            f == stress_function(*self),
    {
        match self {
            StressOp::Add => "stressAdd",
            StressOp::Mulmod => "stressMulmod",
            StressOp::Keccak => "stressKeccak",
            StressOp::Ecrecover => "stressEcrecover",
            StressOp::Blake2f => "stressBlake2f",
            StressOp::Modexp => "stressModexp",
        }
    }

    /// The signature of this operation's function.
    pub fn signature(&self) -> (s: &'static str)
        ensures
            s == stress_signature(*self),
    {
        match self {
            StressOp::Add => "stressAdd(uint256)",
            StressOp::Mulmod => "stressMulmod(uint256)",
            StressOp::Keccak => "stressKeccak(uint256)",
            StressOp::Ecrecover => "stressEcrecover(uint256)",
            StressOp::Blake2f => "stressBlake2f(uint256)",
            StressOp::Modexp => "stressModexp(uint256)",
        }
    }

    /// Call data that runs this operation `iters` times.
    pub fn calldata(&self, iters: u64) -> (out: Vec<u8>)
        ensures
            out@ == stress_call_data(*self, iters),
    {
        let mut args: Vec<AbiArg> = Vec::new();
        args.push(AbiArg::Uint(iters));
        assert(args@ =~= seq![AbiArg::Uint(iters)]);
        encode_call(self.signature(), &args)
    }

    /// The label of a run with `iters` iterations, as ASCII bytes.
    pub fn label(&self, iters: u64) -> (out: Vec<u8>)
        ensures
            out@ == stress_label_text(*self, iters),
    {
        let mut out: Vec<u8> = Vec::new();
        append_text(&mut out, self.function());
        append_text(&mut out, "(");
        let digits = decimal_text(iters);
        append_bytes(&mut out, digits.as_slice());
        append_text(&mut out, ")");
        assert(out@ =~= stress_label_text(*self, iters));
        out
    }
}

/// Call data is the selector followed by one word per argument: `32 * n`
/// bytes follow the selector and the `k`-th argument's word stands `32 * k`
/// bytes after it.
pub proof fn call_data_layout(signature: Seq<u8>, args: Seq<AbiArg>)
    ensures
        ({
            let c = call_data(signature, args);
            let s: int = selector_spec(signature).len() as int;
            &&& c.len() == s + 32 * args.len()
            &&& c.take(s) == selector_spec(signature)
            &&& forall|k: int| 0 <= k < args.len() ==>
                #[trigger] c.subrange(s + 32 * k, s + 32 * k + 32) == arg_word(args[k])
        }),
{
    lemma_args_words_layout(args);
    let c = call_data(signature, args);
    let s: int = selector_spec(signature).len() as int;
    assert(c.take(s) =~= selector_spec(signature));
    assert forall|k: int| 0 <= k < args.len() implies
        #[trigger] c.subrange(s + 32 * k, s + 32 * k + 32) == arg_word(args[k]) by {
        assert(c.subrange(s + 32 * k, s + 32 * k + 32) =~= args_words(args).subrange(32 * k, 32 * k + 32));
    }
}

proof fn lemma_args_words_layout(args: Seq<AbiArg>)
    ensures
        args_words(args).len() == 32 * args.len(),
        forall|k: int| 0 <= k < args.len() ==>
            #[trigger] args_words(args).subrange(32 * k, 32 * k + 32) == arg_word(args[k]),
    decreases args.len(),
{
    if args.len() > 0 {
        let init = args.drop_last();
        lemma_args_words_layout(init);
        let w = args_words(args);
        assert(arg_word(args.last()).len() == 32);
        assert forall|k: int| 0 <= k < args.len() implies
            #[trigger] w.subrange(32 * k, 32 * k + 32) == arg_word(args[k]) by {
            if k < args.len() - 1 {
                assert(w.subrange(32 * k, 32 * k + 32) =~= args_words(init).subrange(32 * k, 32 * k + 32));
                assert(init[k] == args[k]);
            } else {
                assert(w.subrange(32 * k, 32 * k + 32) =~= arg_word(args.last()));
            }
        }
    }
}

} // verus!
