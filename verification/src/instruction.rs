//! The protocol's own instruction set: one unambiguous discriminator per
//! instruction, each payload a fixed field list with length-prefixed strings.

use vstd::prelude::*;
use crate::bytes::{push_bytes, push_le32, read_bytes, read_le32, spec_le32, spec_u32_of_le,
    lemma_le32_roundtrip};
use crate::error::ProcessError;

verus! {

/// Payload of the instruction that registers a new tracked mint.
pub struct CreateMintInstruction {
    /// Decimal places of the new mint.
    pub decimals: u8,
    /// Display name of the new mint, as raw bytes.
    pub name: Vec<u8>,
    /// Ticker symbol of the new mint, as raw bytes.
    pub symbol: Vec<u8>,
    /// Metadata location of the new mint, as raw bytes.
    pub uri: Vec<u8>,
}

/// Payload of the instruction that registers a user's profile.
pub struct InitializeProfileInstruction {
    /// The profile's display name, as raw bytes.
    pub username: Vec<u8>,
}

/// Instructions of this protocol.
pub enum ProtocolInstruction {
    /// Initializes the protocol: the soulbound mint and the order tracker.
    InitializeProtocol,
    /// Creates a new tracked mint, with its validation account.
    CreateMint(CreateMintInstruction),
    /// Initializes a profile for a user and mints a soulbound credential.
    InitializeProfile(InitializeProfileInstruction),
}

/// The mathematical value of a `ProtocolInstruction`.
#[verifier::ext_equal]
pub ghost enum ProtocolInstructionView {
    /// Initializes the protocol.
    InitializeProtocol,
    /// Creates a new tracked mint.
    CreateMint { decimals: u8, name: Seq<u8>, symbol: Seq<u8>, uri: Seq<u8> },
    /// Initializes a profile.
    InitializeProfile { username: Seq<u8> },
}

impl View for ProtocolInstruction {
    type V = ProtocolInstructionView;

    open spec fn view(&self) -> ProtocolInstructionView {
        match self {
            ProtocolInstruction::InitializeProtocol => ProtocolInstructionView::InitializeProtocol,
            ProtocolInstruction::CreateMint(c) => ProtocolInstructionView::CreateMint {
                decimals: c.decimals,
                name: c.name@,
                symbol: c.symbol@,
                uri: c.uri@,
            },
            ProtocolInstruction::InitializeProfile(p) => ProtocolInstructionView::InitializeProfile {
                username: p.username@,
            },
        }
    }
}

/// Every length-prefixed string of the payload fits its length prefix.
pub open spec fn instruction_wf(i: ProtocolInstructionView) -> bool {
    match i {
        ProtocolInstructionView::InitializeProtocol => true,
        ProtocolInstructionView::CreateMint { name, symbol, uri, .. } => name.len() <= u32::MAX
            && symbol.len() <= u32::MAX && uri.len() <= u32::MAX,
        ProtocolInstructionView::InitializeProfile { username } => username.len() <= u32::MAX,
    }
}

/// A length-prefixed string: the little-endian byte length, then the bytes.
pub open spec fn spec_encode_string(s: Seq<u8>) -> Seq<u8> {
    spec_le32(s.len() as u32) + s
}

/// The packed form of an instruction: its discriminator, then its payload
/// fields in order.
pub open spec fn spec_pack_instruction(i: ProtocolInstructionView) -> Seq<u8> {
    match i {
        ProtocolInstructionView::InitializeProtocol => seq![0u8],
        ProtocolInstructionView::CreateMint { decimals, name, symbol, uri } => seq![1u8, decimals]
            + spec_encode_string(name) + spec_encode_string(symbol) + spec_encode_string(uri),
        ProtocolInstructionView::InitializeProfile { username } => seq![2u8] + spec_encode_string(
            username,
        ),
    }
}

/// The length-prefixed string starting at `at`, and the position after it.
pub open spec fn spec_read_string(data: Seq<u8>, at: int) -> Option<(Seq<u8>, int)> {
    if at + 4 > data.len() {
        None
    } else {
        let n = spec_u32_of_le(data.subrange(at, at + 4)) as int;
        if at + 4 + n > data.len() {
            None
        } else {
            Some((data.subrange(at + 4, at + 4 + n), at + 4 + n))
        }
    }
}

/// What a byte string decodes to: the unique instruction packed in it, or
/// nothing when no instruction packs to it.
pub open spec fn spec_unpack_instruction(data: Seq<u8>) -> Option<ProtocolInstructionView> {
    if data.len() == 0 {
        None
    } else if data[0] == 0 {
        if data.len() == 1 {
            Some(ProtocolInstructionView::InitializeProtocol)
        } else {
            None
        }
    } else if data[0] == 1 {
        if data.len() < 2 {
            None
        } else {
            match spec_read_string(data, 2) {
                None => None,
                Some((name, o1)) => match spec_read_string(data, o1) {
                    None => None,
                    Some((symbol, o2)) => match spec_read_string(data, o2) {
                        None => None,
                        Some((uri, o3)) => if o3 == data.len() {
                            Some(
                                ProtocolInstructionView::CreateMint {
                                    decimals: data[1],
                                    name,
                                    symbol,
                                    uri,
                                },
                            )
                        } else {
                            None
                        },
                    },
                },
            }
        }
    } else if data[0] == 2 {
        match spec_read_string(data, 1) {
            None => None,
            Some((username, o1)) => if o1 == data.len() {
                Some(ProtocolInstructionView::InitializeProfile { username })
            } else {
                None
            },
        }
    } else {
        None
    }
}

/// Append a length-prefixed string.
fn push_string(dst: &mut Vec<u8>, s: &Vec<u8>)
    requires
        s@.len() <= u32::MAX,
    ensures
        final(dst)@ == old(dst)@ + spec_encode_string(s@),
{
    push_le32(dst, s.len() as u32);
    push_bytes(dst, s);
    assert(dst@ =~= old(dst)@ + spec_encode_string(s@));
}

/// Parse the length-prefixed string at `at`.
fn read_string(data: &Vec<u8>, at: usize) -> (r: Option<(Vec<u8>, usize)>)
    requires
        at <= data@.len(),
    ensures
        r matches Some(found) ==> spec_read_string(data@, at as int) == Some(
            (found.0@, found.1 as int),
        ) && found.1 <= data@.len(),
        r is None ==> spec_read_string(data@, at as int) is None,
{
    let n = data.len();
    if n < 4 || at > n - 4 {
        return None;
    }
    let len32 = read_le32(data, at);
    proof {
        lemma_le32_roundtrip(len32);
    }
    let len = len32 as usize;
    if len > n - (at + 4) {
        return None;
    }
    let s = read_bytes(data, at + 4, len);
    Some((s, at + 4 + len))
}

impl ProtocolInstruction {
    /// Serialize the instruction: its discriminator, then its payload.
    pub fn pack(&self) -> (r: Vec<u8>)
        requires
            instruction_wf(self@),
        ensures
            r@ == spec_pack_instruction(self@),
    {
        let mut buf: Vec<u8> = Vec::new();
        match self {
            ProtocolInstruction::InitializeProtocol => {
                buf.push(0);
                assert(buf@ =~= spec_pack_instruction(self@));
            },
            ProtocolInstruction::CreateMint(c) => {
                buf.push(1);
                buf.push(c.decimals);
                push_string(&mut buf, &c.name);
                push_string(&mut buf, &c.symbol);
                push_string(&mut buf, &c.uri);
                assert(buf@ =~= spec_pack_instruction(self@));
            },
            ProtocolInstruction::InitializeProfile(p) => {
                buf.push(2);
                push_string(&mut buf, &p.username);
                assert(buf@ =~= spec_pack_instruction(self@));
            },
        }
        buf
    }

    /// Parse an instruction. Fails exactly when `input` is not the packed
    /// form of any instruction.
    pub fn unpack(input: &Vec<u8>) -> (r: Result<ProtocolInstruction, ProcessError>)
        ensures
            r matches Ok(i) ==> spec_unpack_instruction(input@) == Some(i@) && instruction_wf(i@),
            r matches Err(e) ==> spec_unpack_instruction(input@) is None && e
                == ProcessError::InvalidInstructionData,
    {
        let n = input.len();
        if n == 0 {
            return Err(ProcessError::InvalidInstructionData);
        }
        let discriminator = input[0];
        if discriminator == 0 {
            if n == 1 {
                Ok(ProtocolInstruction::InitializeProtocol)
            } else {
                Err(ProcessError::InvalidInstructionData)
            }
        } else if discriminator == 1 {
            if n < 2 {
                return Err(ProcessError::InvalidInstructionData);
            }
            let decimals = input[1];
            let (name, o1) = match read_string(input, 2) {
                Some(found) => found,
                None => {
                    return Err(ProcessError::InvalidInstructionData);
                },
            };
            let (symbol, o2) = match read_string(input, o1) {
                Some(found) => found,
                None => {
                    return Err(ProcessError::InvalidInstructionData);
                },
            };
            let (uri, o3) = match read_string(input, o2) {
                Some(found) => found,
                None => {
                    return Err(ProcessError::InvalidInstructionData);
                },
            };
            if o3 != n {
                return Err(ProcessError::InvalidInstructionData);
            }
            Ok(ProtocolInstruction::CreateMint(CreateMintInstruction { decimals, name, symbol, uri }))
        } else if discriminator == 2 {
            let (username, o1) = match read_string(input, 1) {
                Some(found) => found,
                None => {
                    return Err(ProcessError::InvalidInstructionData);
                },
            };
            if o1 != n {
                return Err(ProcessError::InvalidInstructionData);
            }
            Ok(ProtocolInstruction::InitializeProfile(InitializeProfileInstruction { username }))
        } else {
            Err(ProcessError::InvalidInstructionData)
        }
    }
}

/// Round trip: every well-formed instruction parses back from its own packed
/// form.
pub proof fn lemma_instruction_roundtrip(i: ProtocolInstructionView)
    requires
        instruction_wf(i),
    ensures
        spec_unpack_instruction(spec_pack_instruction(i)) == Some(i),
{
    let data = spec_pack_instruction(i);
    match i {
        ProtocolInstructionView::InitializeProtocol => {},
        ProtocolInstructionView::CreateMint { decimals, name, symbol, uri } => {
            lemma_le32_roundtrip(name.len() as u32);
            lemma_le32_roundtrip(symbol.len() as u32);
            lemma_le32_roundtrip(uri.len() as u32);
            let o1 = 6 + name.len() as int;
            let o2 = o1 + 4 + symbol.len() as int;
            let o3 = o2 + 4 + uri.len() as int;
            assert(data.subrange(2, 6) =~= spec_le32(name.len() as u32));
            assert(data.subrange(6, o1) =~= name);
            assert(spec_read_string(data, 2) == Some((name, o1)));
            assert(data.subrange(o1, o1 + 4) =~= spec_le32(symbol.len() as u32));
            assert(data.subrange(o1 + 4, o2) =~= symbol);
            assert(spec_read_string(data, o1) == Some((symbol, o2)));
            assert(data.subrange(o2, o2 + 4) =~= spec_le32(uri.len() as u32));
            assert(data.subrange(o2 + 4, o3) =~= uri);
            assert(spec_read_string(data, o2) == Some((uri, o3)));
            assert(spec_unpack_instruction(data) == Some(i));
        },
        ProtocolInstructionView::InitializeProfile { username } => {
            lemma_le32_roundtrip(username.len() as u32);
            let o1 = 5 + username.len() as int;
            assert(data.subrange(1, 5) =~= spec_le32(username.len() as u32));
            assert(data.subrange(5, o1) =~= username);
            assert(spec_read_string(data, 1) == Some((username, o1)));
            assert(spec_unpack_instruction(data) == Some(i));
        },
    }
}

/// Whatever parses, re-packs to the very bytes it was parsed from: parsing
/// is the inverse of packing, so no two instructions share a packed form.
pub proof fn lemma_instruction_unpack_exact(data: Seq<u8>)
    requires
        spec_unpack_instruction(data) is Some,
    ensures
        instruction_wf(spec_unpack_instruction(data).unwrap()),
        spec_pack_instruction(spec_unpack_instruction(data).unwrap()) == data,
{
    let i = spec_unpack_instruction(data).unwrap();
    match i {
        ProtocolInstructionView::InitializeProtocol => {
            assert(spec_pack_instruction(i) =~= data);
        },
        ProtocolInstructionView::CreateMint { decimals, name, symbol, uri } => {
            let (name0, o1) = spec_read_string(data, 2).unwrap();
            let (symbol0, o2) = spec_read_string(data, o1).unwrap();
            let (uri0, o3) = spec_read_string(data, o2).unwrap();
            assert(spec_le32(spec_u32_of_le(data.subrange(2, 6))) =~= data.subrange(2, 6)) by {
                lemma_le32_of_bytes_roundtrip(data.subrange(2, 6));
            }
            assert(spec_le32(spec_u32_of_le(data.subrange(o1, o1 + 4))) =~= data.subrange(
                o1,
                o1 + 4,
            )) by {
                lemma_le32_of_bytes_roundtrip(data.subrange(o1, o1 + 4));
            }
            assert(spec_le32(spec_u32_of_le(data.subrange(o2, o2 + 4))) =~= data.subrange(
                o2,
                o2 + 4,
            )) by {
                lemma_le32_of_bytes_roundtrip(data.subrange(o2, o2 + 4));
            }
            assert(spec_pack_instruction(i) =~= data);
        },
        ProtocolInstructionView::InitializeProfile { username } => {
            let (username0, o1) = spec_read_string(data, 1).unwrap();
            assert(spec_le32(spec_u32_of_le(data.subrange(1, 5))) =~= data.subrange(1, 5)) by {
                lemma_le32_of_bytes_roundtrip(data.subrange(1, 5));
            }
            assert(spec_pack_instruction(i) =~= data);
        },
    }
}

/// Encoding the value a four-byte sequence decodes to gives the sequence
/// back.
proof fn lemma_le32_of_bytes_roundtrip(s: Seq<u8>)
    requires
        s.len() == 4,
    ensures
        spec_le32(spec_u32_of_le(s)) == s,
{
    let b0 = s[0];
    let b1 = s[1];
    let b2 = s[2];
    let b3 = s[3];
    let v = spec_u32_of_le(s);
    assert({
        let v = (b0 as u32) | ((b1 as u32) << 8) | ((b2 as u32) << 16) | ((b3 as u32) << 24);
        ((v & 0xff) as u8) == b0 && (((v >> 8) & 0xff) as u8) == b1 && (((v >> 16) & 0xff) as u8)
            == b2 && (((v >> 24) & 0xff) as u8) == b3
    }) by (bit_vector);
    assert(spec_le32(v) =~= s);
}

} // verus!
