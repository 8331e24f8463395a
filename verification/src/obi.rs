//! The binary interchange format of the oracle network: requests go out as a
//! list of symbols and a multiplier, answers come back as a list of rates in
//! base64 notation.
//!
//! Integers are written big-endian at a fixed width. A list is written as its
//! length in 32 bits followed by its items; a string is written as the list
//! of its UTF-8 bytes.

use crate::error::{ContractError, ContractErrorView, StdError, StdErrorView};
use crate::text::{decimal, u64_to_string};
use vstd::prelude::*;
use vstd::string::*;
use vstd::utf8::*;

verus! {

/// 256 to the power of `width`: the number of values that `width` bytes can write.
pub open spec fn byte_range(width: nat) -> nat
    decreases width,
{
    if width == 0 {
        1
    } else {
        256 * byte_range((width - 1) as nat)
    }
}

/// The `width` low bytes of `n`, most significant first.
pub open spec fn be_bytes(n: nat, width: nat) -> Seq<u8>
    decreases width,
{
    if width == 0 {
        Seq::empty()
    } else {
        be_bytes(n / 256, (width - 1) as nat).push((n % 256) as u8)
    }
}

/// The number that the bytes of `b` write, most significant first.
pub open spec fn be_value(b: Seq<u8>) -> nat
    decreases b.len(),
{
    if b.len() == 0 {
        0
    } else {
        be_value(b.drop_last()) * 256 + b.last() as nat
    }
}

/// `width` bytes are written, whatever the number.
pub proof fn lemma_be_bytes_len(n: nat, width: nat)
    ensures
        be_bytes(n, width).len() == width,
    decreases width,
{
    if width > 0 {
        lemma_be_bytes_len(n / 256, (width - 1) as nat);
    }
}

/// What some bytes write is below the range of their number of bytes.
pub proof fn lemma_be_value_bound(b: Seq<u8>)
    ensures
        be_value(b) < byte_range(b.len()),
    decreases b.len(),
{
    if b.len() > 0 {
        lemma_be_value_bound(b.drop_last());
    }
}

/// Reading the bytes of a number that fits in them gives the number back.
pub proof fn lemma_be_value_of_bytes(n: nat, width: nat)
    requires
        n < byte_range(width),
    ensures
        be_value(be_bytes(n, width)) == n,
    decreases width,
{
    if width > 0 {
        lemma_be_value_of_bytes(n / 256, (width - 1) as nat);
        assert(be_bytes(n, width).drop_last() =~= be_bytes(n / 256, (width - 1) as nat));
    }
}

/// Writing the number that some bytes denote, at their width, gives the
/// bytes back.
pub proof fn lemma_be_bytes_of_value(b: Seq<u8>)
    ensures
        be_bytes(be_value(b), b.len()) == b,
    decreases b.len(),
{
    if b.len() > 0 {
        lemma_be_bytes_of_value(b.drop_last());
        assert(be_bytes(be_value(b), b.len()) =~= b);
    } else {
        assert(be_bytes(be_value(b), b.len()) =~= b);
    }
}

/// More bytes write more values.
pub proof fn lemma_byte_range_monotone(a: nat, b: nat)
    requires
        a <= b,
    ensures
        0 < byte_range(a) <= byte_range(b),
    decreases b,
{
    if a < b {
        lemma_byte_range_monotone(a, (b - 1) as nat);
    } else if a > 0 {
        lemma_byte_range_monotone((a - 1) as nat, (a - 1) as nat);
    }
}

/// Every 32-bit number fits in four bytes and every 64-bit number in eight.
pub proof fn lemma_byte_range_widths()
    ensures
        byte_range(4) == 0x1_0000_0000,
        byte_range(8) == 0x1_0000_0000_0000_0000,
{
    reveal_with_fuel(byte_range, 9);
}

/// Appends the `width` low bytes of `n` to `out`, most significant first.
fn write_be(out: &mut Vec<u8>, n: u64, width: u8)
    ensures
        final(out)@ == old(out)@ + be_bytes(n as nat, width as nat),
    decreases width,
{
    if width > 0 {
        write_be(out, n / 256, width - 1);
        out.push((n % 256) as u8);
    }
    assert(out@ =~= old(out)@ + be_bytes(n as nat, width as nat));
}

/// Reads the number that the `width` bytes from `at` on write.
fn read_be(bytes: &[u8], at: usize, width: usize) -> (n: u64)
    requires
        width <= 8,
        at + width <= bytes@.len(),
    ensures
        n == be_value(bytes@.subrange(at as int, at + width)),
{
    let len = bytes.len();
    let mut n: u64 = 0;
    let mut i: usize = 0;
    while i < width
        invariant
            i <= width <= 8,
            at + width <= bytes@.len() == len,
            n == be_value(bytes@.subrange(at as int, at + i)),
        decreases width - i,
    {
        proof {
            let shorter = bytes@.subrange(at as int, at + i);
            let longer = bytes@.subrange(at as int, at + i + 1);
            assert(longer.drop_last() =~= shorter);
            assert(be_value(longer) == n * 256 + bytes@[at + i] as nat);
            lemma_be_value_bound(longer);
            lemma_byte_range_monotone(longer.len(), 8);
            lemma_byte_range_widths();
        }
        n = n * 256 + bytes[at + i] as u64;
        i += 1;
    }
    n
}

/// The characters of each string of `v`.
pub open spec fn strings_view(v: Seq<String>) -> Seq<Seq<char>> {
    Seq::new(v.len(), |i: int| v[i]@)
}

/// The encoding of one string: the number of its UTF-8 bytes in 32 bits,
/// then the bytes.
pub open spec fn encode_string(s: Seq<char>) -> Seq<u8> {
    be_bytes(encode_utf8(s).len(), 4) + encode_utf8(s)
}

/// The encodings of the strings of `v`, one after the other.
pub open spec fn encode_strings(v: Seq<Seq<char>>) -> Seq<u8>
    decreases v.len(),
{
    if v.len() == 0 {
        Seq::empty()
    } else {
        encode_strings(v.drop_last()) + encode_string(v.last())
    }
}

/// Whether every length that the encoding of `symbols` writes fits in the 32
/// bits it is written in.
pub open spec fn encodable(symbols: Seq<Seq<char>>) -> bool {
    &&& symbols.len() <= u32::MAX
    &&& forall|i: int| 0 <= i < symbols.len() ==> (#[trigger] encode_utf8(symbols[i])).len()
        <= u32::MAX
}

/// The encoding of a request: the symbols as a list of strings, then the
/// multiplier in 64 bits.
pub open spec fn encode_input(symbols: Seq<Seq<char>>, multiplier: u64) -> Seq<u8> {
    be_bytes(symbols.len(), 4) + encode_strings(symbols) + be_bytes(multiplier as nat, 8)
}

/// The rates of `rates` in 64 bits each, one after the other.
pub open spec fn encode_rate_items(rates: Seq<u64>) -> Seq<u8>
    decreases rates.len(),
{
    if rates.len() == 0 {
        Seq::empty()
    } else {
        encode_rate_items(rates.drop_last()) + be_bytes(rates.last() as nat, 8)
    }
}

/// The encoding of an answer: the number of rates in 32 bits, then the rates.
pub open spec fn encode_rates(rates: Seq<u64>) -> Seq<u8> {
    be_bytes(rates.len(), 4) + encode_rate_items(rates)
}

/// The failure of a decoder that ran out of bytes.
pub open spec fn unexpected_length() -> StdErrorView {
    StdErrorView::ParseErr {
        target_type: "PriceDataOutput"@,
        msg: "Unexpected length of input"@,
    }
}

/// The failure of a decoder that was left with bytes.
pub open spec fn not_all_bytes_read() -> StdErrorView {
    StdErrorView::ParseErr { target_type: "PriceDataOutput"@, msg: "Not all bytes read"@ }
}

/// The rate that stands at place `i` of an encoded answer.
pub open spec fn rate_at(bytes: Seq<u8>, i: int) -> u64 {
    be_value(bytes.subrange(4 + 8 * i, 12 + 8 * i)) as u64
}

/// What the bytes of an answer decode to: the rates that the length prefix
/// announces, where the bytes hold exactly those, and else the failure.
pub open spec fn decode_rates(bytes: Seq<u8>) -> Result<Seq<u64>, StdErrorView> {
    if bytes.len() < 4 {
        Err(unexpected_length())
    } else {
        let count = be_value(bytes.subrange(0, 4));
        if bytes.len() < 4 + 8 * count {
            Err(unexpected_length())
        } else if bytes.len() > 4 + 8 * count {
            Err(not_all_bytes_read())
        } else {
            Ok(Seq::new(count, |i: int| rate_at(bytes, i)))
        }
    }
}

/// The encoded rates take eight bytes each.
pub proof fn lemma_encode_rate_items_len(rates: Seq<u64>)
    ensures
        encode_rate_items(rates).len() == 8 * rates.len(),
    decreases rates.len(),
{
    if rates.len() > 0 {
        lemma_encode_rate_items_len(rates.drop_last());
        lemma_be_bytes_len(rates.last() as nat, 8);
    }
}

/// The eight bytes at place `i` of the encoded rates are those of rate `i`.
pub proof fn lemma_encode_rate_items_at(rates: Seq<u64>, i: int)
    requires
        0 <= i < rates.len(),
    ensures
        encode_rate_items(rates).len() == 8 * rates.len(),
        encode_rate_items(rates).subrange(8 * i, 8 * i + 8) == be_bytes(rates[i] as nat, 8),
    decreases rates.len(),
{
    lemma_encode_rate_items_len(rates);
    lemma_encode_rate_items_len(rates.drop_last());
    lemma_be_bytes_len(rates.last() as nat, 8);
    if i == rates.len() - 1 {
        assert(encode_rate_items(rates).subrange(8 * i, 8 * i + 8) =~= be_bytes(
            rates[i] as nat,
            8,
        ));
    } else {
        lemma_encode_rate_items_at(rates.drop_last(), i);
        assert(encode_rate_items(rates).subrange(8 * i, 8 * i + 8) =~= encode_rate_items(
            rates.drop_last(),
        ).subrange(8 * i, 8 * i + 8));
    }
}

/// Decoding is the inverse of encoding: the encoding of any list of rates
/// whose length fits in 32 bits decodes to that list.
pub proof fn lemma_rates_round_trip(rates: Seq<u64>)
    requires
        rates.len() <= u32::MAX,
    ensures
        decode_rates(encode_rates(rates)) == Ok::<Seq<u64>, StdErrorView>(rates),
{
    let bytes = encode_rates(rates);
    lemma_byte_range_widths();
    lemma_be_bytes_len(rates.len(), 4);
    lemma_encode_rate_items_len(rates);
    lemma_be_value_of_bytes(rates.len(), 4);
    assert(bytes.subrange(0, 4) =~= be_bytes(rates.len(), 4));
    let decoded = Seq::new(rates.len(), |i: int| rate_at(bytes, i));
    assert forall|i: int| 0 <= i < rates.len() implies decoded[i] == rates[i] by {
        lemma_encode_rate_items_at(rates, i);
        assert(bytes.subrange(4 + 8 * i, 12 + 8 * i) =~= encode_rate_items(rates).subrange(
            8 * i,
            8 * i + 8,
        ));
        lemma_be_value_of_bytes(rates[i] as nat, 8);
    }
    assert(decoded =~= rates);
}

/// Decoding is strict: bytes that decode to a list of rates are the encoding
/// of that list, with nothing added.
pub proof fn lemma_decoded_rates_are_canonical(bytes: Seq<u8>, rates: Seq<u64>)
    requires
        decode_rates(bytes) == Ok::<Seq<u64>, StdErrorView>(rates),
    ensures
        rates.len() <= u32::MAX,
        encode_rates(rates) == bytes,
{
    let count = be_value(bytes.subrange(0, 4));
    lemma_byte_range_widths();
    lemma_be_value_bound(bytes.subrange(0, 4));
    lemma_be_bytes_of_value(bytes.subrange(0, 4));
    assert(rates.len() == count);
    lemma_rate_items_of_decoded(bytes, count);
    assert(rates =~= Seq::new(count, |i: int| rate_at(bytes, i)));
    assert(encode_rates(rates) =~= bytes);
}

/// The first `k` rates read from `bytes`, encoded again, are the bytes that
/// they were read from.
proof fn lemma_rate_items_of_decoded(bytes: Seq<u8>, k: nat)
    requires
        4 + 8 * k <= bytes.len(),
    ensures
        encode_rate_items(Seq::new(k, |i: int| rate_at(bytes, i))) == bytes.subrange(
            4,
            4 + 8 * k as int,
        ),
    decreases k,
{
    let rates = Seq::new(k, |i: int| rate_at(bytes, i));
    if k == 0 {
        assert(encode_rate_items(rates) =~= bytes.subrange(4, 4 + 8 * k as int));
    } else {
        let j = (k - 1) as nat;
        lemma_rate_items_of_decoded(bytes, j);
        assert(rates.drop_last() =~= Seq::new(j, |i: int| rate_at(bytes, i)));
        let item = bytes.subrange(4 + 8 * j as int, 12 + 8 * j as int);
        lemma_be_bytes_of_value(item);
        lemma_be_value_bound(item);
        lemma_byte_range_widths();
        assert(rates.last() == rate_at(bytes, j as int));
        assert(encode_rate_items(rates) =~= bytes.subrange(4, 4 + 8 * k as int));
    }
}

/// The input of the price oracle script: the symbols to quote and the factor
/// that the rates are scaled by.
#[derive(Debug, PartialEq, Eq)]
pub struct PriceDataInput {
    pub symbol: Vec<String>,
    pub multiplier: u64,
}

impl PriceDataInput {
    /// The characters of the symbols.
    pub open spec fn symbols(&self) -> Seq<Seq<char>> {
        strings_view(self.symbol@)
    }

    /// Encodes the request. It fails only where a length does not fit in the
    /// 32 bits it is written in.
    pub fn encode_obi(self) -> (res: Result<Vec<u8>, ContractError>)
        ensures
            match res {
                Ok(bytes) => encodable(self.symbols()) && bytes@ == encode_input(
                    self.symbols(),
                    self.multiplier,
                ),
                Err(e) => !encodable(self.symbols()) && e@ == ContractErrorView::IOError(
                    "Length does not fit in 32 bits"@,
                ),
            },
    {
        let count = self.symbol.len();
        if count > u32::MAX as usize {
            return Err(ContractError::IOError(String::from_str("Length does not fit in 32 bits")));
        }
        let mut out: Vec<u8> = Vec::new();
        write_be(&mut out, count as u64, 4);
        let ghost prefix = out@;
        let mut i: usize = 0;
        while i < count
            invariant
                i <= count == self.symbol@.len(),
                out@ == prefix + encode_strings(self.symbols().subrange(0, i as int)),
                forall|j: int|
                    0 <= j < i ==> (#[trigger] encode_utf8(self.symbols()[j])).len() <= u32::MAX,
            decreases count - i,
        {
            let bytes = self.symbol[i].as_str().as_bytes();
            let len = bytes.len();
            if len > u32::MAX as usize {
                assert(encode_utf8(self.symbols()[i as int]).len() > u32::MAX);
                return Err(
                    ContractError::IOError(String::from_str("Length does not fit in 32 bits")),
                );
            }
            write_be(&mut out, len as u64, 4);
            let ghost before = out@;
            out.extend_from_slice(bytes);
            proof {
                assert(out@ =~= before + bytes@);
                let shorter = self.symbols().subrange(0, i as int);
                let longer = self.symbols().subrange(0, i + 1);
                assert(longer.drop_last() =~= shorter);
                assert(longer.last() == self.symbol@[i as int]@);
                assert(out@ =~= prefix + encode_strings(longer));
            }
            i += 1;
        }
        assert(self.symbols().subrange(0, count as int) =~= self.symbols());
        write_be(&mut out, self.multiplier, 8);
        Ok(out)
    }
}

/// The output of the price oracle script: one rate for each symbol asked
/// for, in the order of the request.
#[derive(Debug, PartialEq, Eq)]
pub struct PriceDataOutput {
    pub rates: Vec<u64>,
}

/// Why a text is not base64 notation.
#[derive(Debug, Clone, Copy, PartialEq, Eq)]
pub enum Base64Error {
    /// The byte at the given offset is not a base64 symbol.
    InvalidByte(usize, u8),
    /// The number of symbols leaves six bits over.
    InvalidLength,
    /// The last symbol, at the given offset, holds bits that would be lost.
    InvalidLastSymbol(usize, u8),
}

impl Base64Error {
    /// The message that the failure shows to a reader.
    pub open spec fn message(self) -> Seq<char> {
        match self {
            Base64Error::InvalidByte(offset, byte) => "Invalid byte "@ + decimal(byte as nat)
                + ", offset "@ + decimal(offset as nat) + "."@,
            Base64Error::InvalidLength => "Encoded text cannot have a 6-bit remainder."@,
            Base64Error::InvalidLastSymbol(offset, byte) => "Invalid last symbol "@ + decimal(
                byte as nat,
            ) + ", offset "@ + decimal(offset as nat) + "."@,
        }
    }

    /// The message of this failure.
    pub fn to_string(&self) -> (text: String)
        ensures
            text@ == self.message(),
    {
        match *self {
            Base64Error::InvalidByte(offset, byte) => {
                let number = u64_to_string(byte as u64);
                let place = u64_to_string(offset as u64);
                String::from_str("Invalid byte ").concat(number.as_str()).concat(
                    ", offset ",
                ).concat(place.as_str()).concat(".")
            },
            Base64Error::InvalidLength => String::from_str(
                "Encoded text cannot have a 6-bit remainder.",
            ),
            Base64Error::InvalidLastSymbol(offset, byte) => {
                let number = u64_to_string(byte as u64);
                let place = u64_to_string(offset as u64);
                String::from_str("Invalid last symbol ").concat(number.as_str()).concat(
                    ", offset ",
                ).concat(place.as_str()).concat(".")
            },
        }
    }
}

/// The bytes that a text in standard base64 notation stands for, or why it
/// stands for none.
pub uninterp spec fn base64_decoded(text: Seq<char>) -> Result<Seq<u8>, Base64Error>;

/// Decodes standard base64 notation with `base64::decode`. The outcome is a
/// function of the text alone, which [`base64_decoded`] names: the decoded
/// bytes, or the failure that the decoder reports, variant by variant. The
/// decoder panics only where the length of the text plus seven overflows the
/// address space, which no text in memory reaches.
#[verifier::external_body]
fn b64decode(text: &str) -> (res: Result<Vec<u8>, Base64Error>)
    ensures
        match res {
            Ok(bytes) => base64_decoded(text@) == Ok::<Seq<u8>, Base64Error>(bytes@),
            Err(e) => base64_decoded(text@) == Err::<Seq<u8>, Base64Error>(e),
        },
{
    match base64::decode(text) {
        Ok(bytes) => Ok(bytes),
        Err(base64::DecodeError::InvalidByte(offset, byte)) => Err(
            Base64Error::InvalidByte(offset, byte),
        ),
        Err(base64::DecodeError::InvalidLength) => Err(Base64Error::InvalidLength),
        Err(base64::DecodeError::InvalidLastSymbol(offset, byte)) => Err(
            Base64Error::InvalidLastSymbol(offset, byte),
        ),
    }
}

/// What a base64 text decodes to, given what its base64 notation stands for.
pub open spec fn decode_obi_spec(decoded: Result<Seq<u8>, Base64Error>) -> Result<
    Seq<u64>,
    StdErrorView,
> {
    match decoded {
        Ok(bytes) => decode_rates(bytes),
        Err(e) => Err(StdErrorView::InvalidBase64 { msg: e.message() }),
    }
}

/// The mathematical value of the outcome of a decoder.
pub open spec fn decoded_view(res: Result<PriceDataOutput, StdError>) -> Result<
    Seq<u64>,
    StdErrorView,
> {
    match res {
        Ok(output) => Ok(output.rates@),
        Err(e) => Err(e@),
    }
}

impl PriceDataOutput {
    /// Decodes an answer from its bytes. Too few bytes for the announced
    /// number of rates and bytes left over are both failures.
    pub fn try_from_slice(bytes: &[u8]) -> (res: Result<PriceDataOutput, StdError>)
        ensures
            decoded_view(res) == decode_rates(bytes@),
    {
        let len = bytes.len();
        if len < 4 {
            return Err(
                StdError::ParseErr {
                    target_type: String::from_str("PriceDataOutput"),
                    msg: String::from_str("Unexpected length of input"),
                },
            );
        }
        let count = read_be(bytes, 0, 4);
        proof {
            lemma_be_value_bound(bytes@.subrange(0, 4));
            lemma_byte_range_widths();
        }
        let body: u64 = (len - 4) as u64;
        if body < 8 * count {
            return Err(
                StdError::ParseErr {
                    target_type: String::from_str("PriceDataOutput"),
                    msg: String::from_str("Unexpected length of input"),
                },
            );
        }
        if body > 8 * count {
            return Err(
                StdError::ParseErr {
                    target_type: String::from_str("PriceDataOutput"),
                    msg: String::from_str("Not all bytes read"),
                },
            );
        }
        let mut rates: Vec<u64> = Vec::new();
        let mut i: usize = 0;
        while i < count as usize
            invariant
                i <= count,
                len == bytes@.len() == 4 + 8 * count,
                rates@ == Seq::new(i as nat, |k: int| rate_at(bytes@, k)),
            decreases count - i,
        {
            let rate = read_be(bytes, 4 + 8 * i, 8);
            proof {
                lemma_be_value_bound(bytes@.subrange(4 + 8 * i, 12 + 8 * i));
                lemma_byte_range_widths();
            }
            rates.push(rate);
            i += 1;
            assert(rates@ =~= Seq::new(i as nat, |k: int| rate_at(bytes@, k)));
        }
        Ok(PriceDataOutput { rates })
    }

    /// Decodes an answer from its base64 notation.
    pub fn decode_obi(encoded: &str) -> (res: Result<PriceDataOutput, StdError>)
        ensures
            decoded_view(res) == decode_obi_spec(base64_decoded(encoded@)),
    {
        match b64decode(encoded) {
            Ok(bytes) => PriceDataOutput::try_from_slice(bytes.as_slice()),
            Err(e) => Err(StdError::InvalidBase64 { msg: e.to_string() }),
        }
    }
}

/// A text that is the base64 notation of the encoding of some rates decodes
/// to those rates, whenever their number fits in the 32-bit length prefix.
pub proof fn lemma_decode_obi_round_trip(text: Seq<char>, rates: Seq<u64>)
    requires
        rates.len() <= u32::MAX,
    ensures
        base64_decoded(text) == Ok::<Seq<u8>, Base64Error>(encode_rates(rates))
            ==> decode_obi_spec(base64_decoded(text)) == Ok::<Seq<u64>, StdErrorView>(rates),
{
    lemma_rates_round_trip(rates);
}

} // verus!
