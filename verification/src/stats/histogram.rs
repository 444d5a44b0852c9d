//! Histograms of latencies, and the text that they are stored as.
use vstd::prelude::*;
use vstd::slice::{slice_subrange, slice_to_vec};
use base64::Engine;
use hdrhistogram::serialization::Serializer;
use std::io::Read;

use crate::cql::wire::{be_bytes, be_nat, be_u64, u128_be_bytes};
use crate::cql::wire::{lemma_be_bytes, lemma_be_nat_bound, lemma_pow256};

verus! {

/// A wrapper for HDR histogram that allows us to serialize/deserialize it to/from
/// a base64 encoded string we can store in JSON report.
#[verifier::external_body]
pub struct SerializableHistogram(pub hdrhistogram::Histogram<u64>);

/// The values that a histogram has recorded, each with its count, in increasing order.
pub uninterp spec fn histogram_counts(histogram: SerializableHistogram) -> Seq<(u64, u64)>;

/// The lowest value that a histogram tells from zero, the highest that it takes, the number of
/// significant digits that it keeps, and whether it grows to take a higher value.
pub uninterp spec fn histogram_settings(histogram: SerializableHistogram) -> (u64, u64, u8, bool);

/// What a [`SerializableHistogram`] stands for.
pub struct HistogramView {
    /// The recorded values, each with its count, in increasing order.
    pub counts: Seq<(u64, u64)>,
    pub low: u64,
    pub high: u64,
    /// How many significant digits are kept.
    pub sigfig: u8,
    /// Whether it grows to take a higher value.
    pub auto_resize: bool,
}

impl View for SerializableHistogram {
    type V = HistogramView;

    open spec fn view(&self) -> HistogramView {
        HistogramView::of(histogram_counts(*self), histogram_settings(*self))
    }
}

impl HistogramView {
    /// The histogram with these counts and settings.
    pub open spec fn of(counts: Seq<(u64, u64)>, settings: (u64, u64, u8, bool)) -> HistogramView {
        HistogramView {
            counts,
            low: settings.0,
            high: settings.1,
            sigfig: settings.2,
            auto_resize: settings.3,
        }
    }

    /// The histogram that is read back after this one was stored: all of it is kept, but it does
    /// not grow any more.
    pub open spec fn stored(self) -> HistogramView {
        HistogramView { auto_resize: false, ..self }
    }
}

/// Every count is below 2^63.
pub open spec fn counts_fit(counts: Seq<(u64, u64)>) -> bool {
    forall|i: int| 0 <= i < counts.len() ==> (#[trigger] counts[i]).1 <= i64::MAX
}

/// What the bytes of a histogram begin with.
pub const V2_COOKIE: u64 = 0x1c84_9313;

/// What the bytes of a compressed histogram begin with.
pub const V2_COMPRESSED_COOKIE: u64 = 0x1c84_9314;

/// How many bytes come before the counts.
pub const HEADER_SIZE: usize = 40;

/// What is said of a number that is out of range.
pub const NUMBER_TOO_LARGE: &'static str =
    "The current system's pointer width cannot represent the encoded histogram";

/// The histogram that `hdrhistogram::serialization::Deserializer` reads from bytes, or the message
/// of the error that it reports.
pub uninterp spec fn histogram_of_bytes(bytes: Seq<u8>) -> Result<HistogramView, Seq<char>>;

/// The first bytes, as many as asked for, that `flate2::read::ZlibDecoder` reads from a stream at
/// once, if they can be read.
pub uninterp spec fn inflated(stream: Seq<u8>, size: u64) -> Option<Seq<u8>>;

/// The bytes that the standard engine of the `base64` crate reads from a text, or the message of
/// the error that it reports.
pub uninterp spec fn bytes_of_base64(text: Seq<char>) -> Result<Seq<u8>, Seq<char>>;

/// The character for six bits.
pub open spec fn base64_char(bits: nat) -> char {
    if bits < 26 {
        (('A' as nat) + bits) as char
    } else if bits < 52 {
        (('a' as nat) + bits - 26) as char
    } else if bits < 62 {
        (('0' as nat) + bits - 52) as char
    } else if bits == 62 {
        '+'
    } else {
        '/'
    }
}

/// Bytes in base64: four characters for every three bytes, and padding at the end.
pub open spec fn base64_text(bytes: Seq<u8>) -> Seq<char>
    decreases bytes.len(),
{
    if bytes.len() == 0 {
        Seq::empty()
    } else {
        let first = bytes[0] as nat;
        let second = if bytes.len() > 1 {
            bytes[1] as nat
        } else {
            0
        };
        let third = if bytes.len() > 2 {
            bytes[2] as nat
        } else {
            0
        };
        let group = seq![
            base64_char(first / 4),
            base64_char((first % 4) * 16 + second / 16),
            if bytes.len() > 1 {
                base64_char((second % 16) * 4 + third / 64)
            } else {
                '='
            },
            if bytes.len() > 2 {
                base64_char(third % 64)
            } else {
                '='
            },
        ];
        if bytes.len() > 3 {
            group + base64_text(bytes.skip(3))
        } else {
            group
        }
    }
}

/// What bytes begin with.
pub open spec fn cookie(bytes: Seq<u8>) -> nat {
    be_nat(bytes.subrange(0, 4))
}

/// The length that follows the cookie.
pub open spec fn length_field(bytes: Seq<u8>) -> nat {
    be_nat(bytes.subrange(4, 8))
}

/// The bytes are a compressed histogram.
pub open spec fn is_compressed(bytes: Seq<u8>) -> bool {
    bytes.len() >= 8 && cookie(bytes) == V2_COMPRESSED_COOKIE
}

/// The stream of a compressed histogram.
pub open spec fn compressed_stream(bytes: Seq<u8>) -> Seq<u8> {
    let end = 8 + length_field(bytes);
    bytes.subrange(
        8,
        if end < bytes.len() {
            end as int
        } else {
            bytes.len() as int
        },
    )
}

/// How many bytes a histogram without compression has, if it begins with a header.
pub open spec fn full_size(bytes: Seq<u8>) -> Option<u64> {
    if bytes.len() >= HEADER_SIZE && cookie(bytes) == V2_COOKIE {
        Some((HEADER_SIZE + length_field(bytes)) as u64)
    } else {
        None
    }
}

/// The bytes of a histogram without compression, where all of them can be had.
pub open spec fn whole(bytes: Seq<u8>) -> Option<Seq<u8>> {
    if is_compressed(bytes) {
        let stream = compressed_stream(bytes);
        match inflated(stream, HEADER_SIZE as u64) {
            None => None,
            Some(header) => match full_size(header) {
                None => None,
                Some(size) => if size <= isize::MAX {
                    inflated(stream, size)
                } else {
                    None
                },
            },
        }
    } else {
        match full_size(bytes) {
            Some(size) if size <= bytes.len() => Some(bytes.take(size as int)),
            _ => None,
        }
    }
}

/// Where the first number begins, from the `i`-th byte on, that is the lowest of 64 bits, which is
/// written as nine bytes without a zero bit. A number ends with its ninth byte, or with one whose
/// high bit is clear; `k` of its bytes come before, and `ones` tells whether none of them has a
/// zero bit.
pub open spec fn lowest_from(bytes: Seq<u8>, i: int, k: int, ones: bool) -> Option<int>
    decreases bytes.len() - i,
{
    if i >= bytes.len() {
        None
    } else {
        let all_ones = ones && bytes[i] == 0xff;
        if k == 8 && all_ones {
            Some(i - 8)
        } else if k < 8 && bytes[i] >= 0x80 {
            lowest_from(bytes, i + 1, k + 1, all_ones)
        } else {
            lowest_from(bytes, i + 1, 0, true)
        }
    }
}

/// Where the first number begins that is the lowest, whose negation is out of range.
pub open spec fn lowest_number(plain: Seq<u8>) -> Option<int> {
    lowest_from(plain, HEADER_SIZE as int, 0, true)
}

/// The histogram that ends before a place among its numbers.
pub open spec fn cut_at(plain: Seq<u8>, at: int) -> Seq<u8> {
    be_bytes(V2_COOKIE as nat, 4) + be_bytes((at - HEADER_SIZE) as nat, 4) + plain.subrange(8, at)
}

/// No number of the histogram is the lowest.
pub open spec fn readable(bytes: Seq<u8>) -> bool {
    whole(bytes) matches Some(plain) ==> lowest_number(plain) is None
}

/// The histogram that bytes stand for, or what is wrong with them. What is wrong before the first
/// number that is out of range is told first.
pub open spec fn histogram_read(bytes: Seq<u8>) -> Result<HistogramView, Seq<char>> {
    match whole(bytes) {
        Some(plain) => match lowest_number(plain) {
            Some(at) => match histogram_of_bytes(cut_at(plain, at)) {
                Ok(_) => Err(NUMBER_TOO_LARGE@),
                Err(e) => Err(e),
            },
            None => histogram_of_bytes(bytes),
        },
        None => histogram_of_bytes(bytes),
    }
}

/// Encodes bytes in base64.
///
/// Calls `encode` of `base64::engine::general_purpose::STANDARD`; claims that it returns
/// `base64_text`, and that `decode` reads the bytes back from it.
#[verifier::external_body]
fn encode_base64(bytes: &Vec<u8>) -> (r: String)
    ensures
        r@ == base64_text(bytes@),
        (bytes_of_base64(r@) == Ok::<Seq<u8>, Seq<char>>(bytes@)),
{
    base64::engine::general_purpose::STANDARD.encode(bytes)
}

/// Decodes bytes from base64.
///
/// Calls `decode` of `base64::engine::general_purpose::STANDARD` and takes the message from the
/// error that it reports; claims only that the result depends on nothing but the text.
#[verifier::external_body]
fn decode_base64(text: &str) -> (r: Result<Vec<u8>, String>)
    ensures
        match r {
            Ok(bytes) => bytes_of_base64(text@) == Ok::<Seq<u8>, Seq<char>>(bytes@),
            Err(e) => bytes_of_base64(text@) == Err::<Seq<u8>, Seq<char>>(e@),
        },
{
    match base64::engine::general_purpose::STANDARD.decode(text) {
        Ok(bytes) => Ok(bytes),
        Err(e) => Err(e.to_string()),
    }
}

/// Serializes a histogram.
///
/// Calls `serialize` of `hdrhistogram::serialization::V2DeflateSerializer`; claims that it fails
/// where a count is beyond 63 bits and nowhere else, and that it writes a compressed histogram
/// without a number that is out of range, from which the deserializer reads the same counts, bounds
/// and precision back. What is read back does not grow.
#[verifier::external_body]
fn histogram_to_bytes(histogram: &SerializableHistogram) -> (r: Option<Vec<u8>>)
    ensures
        r is Some <==> counts_fit(histogram_counts(*histogram)),
        (r matches Some(bytes) ==> is_compressed(bytes@) && readable(bytes@)
            && histogram_of_bytes(bytes@) == Ok::<HistogramView, Seq<char>>(
            HistogramView::of(
                histogram_counts(*histogram),
                histogram_settings(*histogram),
            ).stored(),
        )),
{
    let mut bytes: Vec<u8> = Vec::new();
    let mut serializer = hdrhistogram::serialization::V2DeflateSerializer::new();
    match serializer.serialize(&histogram.0, &mut bytes) {
        Ok(_) => Some(bytes),
        Err(_) => None,
    }
}

/// Deserializes a histogram.
///
/// Calls `deserialize` of `hdrhistogram::serialization::Deserializer` and takes the message from
/// the error that it reports; claims only that the histogram depends on nothing but the bytes. The
/// deserializer negates a number below zero, which overflows for the lowest one: bytes that hold
/// it are left out. It comes to the numbers only where all bytes of the histogram can be had.
#[verifier::external_body]
fn histogram_from_bytes(bytes: &Vec<u8>) -> (r: Result<SerializableHistogram, String>)
    requires
        readable(bytes@),
    ensures
        match r {
            Ok(histogram) => histogram_of_bytes(bytes@) == Ok::<HistogramView, Seq<char>>(
                HistogramView::of(histogram_counts(histogram), histogram_settings(histogram)),
            ),
            Err(e) => histogram_of_bytes(bytes@) == Err::<HistogramView, Seq<char>>(e@),
        },
{
    let mut reader: &[u8] = bytes;
    match hdrhistogram::serialization::Deserializer::new().deserialize(&mut reader) {
        Ok(histogram) => Ok(SerializableHistogram(histogram)),
        Err(e) => Err(e.to_string()),
    }
}

/// Reads the first bytes of a compressed stream.
///
/// Calls `read_exact` on `flate2::read::ZlibDecoder` for all the bytes at once; claims that there
/// are as many as asked for, if they can be read, and that they depend on nothing but the stream
/// and their number. A number of bytes that no vector can hold is left out.
#[verifier::external_body]
fn inflate(stream: &[u8], size: u64) -> (r: Option<Vec<u8>>)
    requires
        size <= isize::MAX,
    ensures
        match r {
            Some(bytes) => bytes@.len() == size && inflated(stream@, size) == Some(bytes@),
            None => inflated(stream@, size) == None::<Seq<u8>>,
        },
{
    let mut bytes: Vec<u8> = vec![0; size as usize];
    match flate2::read::ZlibDecoder::new(stream).read_exact(&mut bytes) {
        Ok(_) => Some(bytes),
        Err(_) => None,
    }
}

/// The histogram that a text stands for, or what is wrong with it, given what the text decodes to
/// and what the bytes decode to.
pub open spec fn stored_histogram(text: Seq<char>) -> Result<HistogramView, Seq<char>> {
    match bytes_of_base64(text) {
        Ok(bytes) => histogram_read(bytes),
        Err(e) => Err("Not a valid base64 value. "@ + e),
    }
}

/// Reports a text that is no base64, given the message of the error.
pub fn not_base64(e: &str) -> (r: String)
    ensures
        r@ == "Not a valid base64 value. "@ + e@,
{
    "Not a valid base64 value. ".to_owned().concat(e)
}

/// Reads a field of four bytes.
fn field_at(bytes: &[u8], at: usize) -> (r: u64)
    requires
        at + 4 <= bytes.len(),
    ensures
        r == be_nat(bytes@.subrange(at as int, at + 4)),
        r <= u32::MAX,
{
    proof {
        lemma_be_nat_bound(bytes@.subrange(at as int, at + 4));
        lemma_pow256();
    }
    be_u64(slice_subrange(bytes, at, at + 4))
}

/// Tells how many bytes a histogram without compression has, if it begins with a header.
pub fn read_header(bytes: &Vec<u8>) -> (r: Option<u64>)
    ensures
        r == full_size(bytes@),
        r matches Some(size) ==> size <= HEADER_SIZE + u32::MAX,
{
    let bytes = bytes.as_slice();
    if bytes.len() >= HEADER_SIZE && field_at(bytes, 0) == V2_COOKIE {
        Some(HEADER_SIZE as u64 + field_at(bytes, 4))
    } else {
        None
    }
}

/// Tells where the first number begins that is the lowest.
pub fn find_lowest_number(plain: &Vec<u8>) -> (r: Option<usize>)
    ensures
        match r {
            Some(at) => lowest_number(plain@) == Some(at as int) && HEADER_SIZE <= at
                < plain@.len(),
            None => lowest_number(plain@) is None,
        },
{
    let mut i: usize = HEADER_SIZE;
    let mut k: usize = 0;
    let mut ones = true;
    while i < plain.len()
        invariant
            HEADER_SIZE + k <= i,
            k <= 8,
            lowest_number(plain@) == lowest_from(plain@, i as int, k as int, ones),
        decreases plain.len() - i,
    {
        let all_ones = ones && plain[i] == 0xff;
        if k == 8 && all_ones {
            return Some(i - 8);
        } else if k < 8 && plain[i] >= 0x80 {
            k = k + 1;
            ones = all_ones;
        } else {
            k = 0;
            ones = true;
        }
        i += 1;
    }
    None
}

/// Cuts a histogram short, so that it ends before a place among its numbers.
pub fn cut_short(plain: &Vec<u8>, at: usize) -> (r: Vec<u8>)
    requires
        HEADER_SIZE <= at <= plain@.len(),
        at - HEADER_SIZE <= u32::MAX,
    ensures
        r@ == cut_at(plain@, at as int),
{
    let mut r = u128_be_bytes(V2_COOKIE as u128, 4);
    let mut length = u128_be_bytes((at - HEADER_SIZE) as u128, 4);
    r.append(&mut length);
    let ghost header = r@;
    let mut i: usize = 8;
    assert(header + plain@.subrange(8, 8) =~= header);
    while i < at
        invariant
            8 <= i <= at <= plain@.len(),
            r@ == header + plain@.subrange(8, i as int),
        decreases at - i,
    {
        r.push(plain[i]);
        assert(plain@.subrange(8, i + 1) =~= plain@.subrange(8, i as int).push(plain@[i as int]));
        i += 1;
    }
    r
}

/// What comes before the first lowest number holds none.
proof fn lemma_none_before(plain: Seq<u8>, cut: Seq<u8>, i: int, k: int, ones: bool)
    requires
        0 <= k <= 8,
        HEADER_SIZE <= i,
        cut.len() <= plain.len(),
        lowest_from(plain, i, k, ones) == Some(cut.len() as int),
        forall|j: int| HEADER_SIZE <= j < cut.len() ==> cut[j] == plain[j],
    ensures
        lowest_from(cut, i, k, ones) is None,
    decreases plain.len() - i,
{
    if i < cut.len() {
        let all_ones = ones && plain[i] == 0xff;
        if k < 8 && plain[i] >= 0x80 {
            lemma_none_before(plain, cut, i + 1, k + 1, all_ones);
        } else {
            lemma_none_before(plain, cut, i + 1, 0, true);
        }
    }
}

/// What is cut short before the first lowest number can be read.
proof fn lemma_cut_is_readable(plain: Seq<u8>, at: int)
    requires
        HEADER_SIZE <= at <= plain.len(),
        at - HEADER_SIZE <= u32::MAX,
        lowest_number(plain) == Some(at),
    ensures
        readable(cut_at(plain, at)),
{
    let cut = cut_at(plain, at);
    let length = (at - HEADER_SIZE) as nat;
    lemma_pow256();
    lemma_be_bytes(V2_COOKIE as nat, 4);
    lemma_be_bytes(length, 4);
    assert(cut.len() == at);
    assert(cut.subrange(0, 4) =~= be_bytes(V2_COOKIE as nat, 4));
    assert(cut.subrange(4, 8) =~= be_bytes(length, 4));
    assert(cut.take(at) =~= cut);
    assert forall|j: int| HEADER_SIZE <= j < cut.len() implies cut[j] == plain[j] by {
        assert(plain.subrange(8, at)[j - 8] == plain[j]);
    }
    lemma_none_before(plain, cut, HEADER_SIZE as int, 0, true);
}

/// Takes the compression off the bytes of a histogram, where all of them can be had.
fn uncompress(bytes: &Vec<u8>) -> (r: Option<Vec<u8>>)
    ensures
        match r {
            Some(plain) => whole(bytes@) == Some(plain@) && plain@.len() <= HEADER_SIZE
                + u32::MAX,
            None => whole(bytes@) is None,
        },
{
    if bytes.len() < 8 || field_at(bytes.as_slice(), 0) != V2_COMPRESSED_COOKIE {
        return match read_header(bytes) {
            Some(size) if size <= bytes.len() as u64 => {
                let plain = slice_to_vec(slice_subrange(bytes.as_slice(), 0, size as usize));
                assert(plain@ =~= bytes@.take(size as int));
                Some(plain)
            },
            _ => None,
        };
    }
    let length: u64 = field_at(bytes.as_slice(), 4);
    let end: usize = if length < (bytes.len() - 8) as u64 {
        8 + length as usize
    } else {
        bytes.len()
    };
    let stream = slice_subrange(bytes.as_slice(), 8, end);
    match inflate(stream, HEADER_SIZE as u64) {
        Some(header) => match read_header(&header) {
            Some(size) if size <= isize::MAX as u64 => inflate(stream, size),
            _ => None,
        },
        None => None,
    }
}

/// Cuts a histogram short before the first number that is out of range, if there is one.
fn without_lowest_number(bytes: &Vec<u8>) -> (r: Option<Vec<u8>>)
    ensures
        match r {
            Some(cut) => {
                &&& whole(bytes@) matches Some(plain)
                &&& lowest_number(plain) matches Some(at)
                &&& cut@ == cut_at(plain, at)
                &&& readable(cut@)
            },
            None => readable(bytes@),
        },
{
    match uncompress(bytes) {
        Some(plain) => match find_lowest_number(&plain) {
            Some(at) => {
                proof {
                    lemma_cut_is_readable(plain@, at as int);
                }
                Some(cut_short(&plain, at))
            },
            None => None,
        },
        None => None,
    }
}

impl SerializableHistogram {
    /// Writes the histogram as a text, unless it has too large a count.
    pub fn serialize(&self) -> (r: Option<String>)
        ensures
            r is Some <==> counts_fit(self@.counts),
            r matches Some(text) ==> {
                &&& stored_histogram(text@) == Ok::<HistogramView, Seq<char>>(self@.stored())
                &&& exists|bytes: Seq<u8>|
                    #![trigger base64_text(bytes)]
                    text@ == base64_text(bytes) && is_compressed(bytes) && histogram_read(bytes)
                        == Ok::<HistogramView, Seq<char>>(self@.stored())
            },
    {
        match histogram_to_bytes(self) {
            Some(bytes) => Some(encode_base64(&bytes)),
            None => None,
        }
    }

    /// Reads the histogram that a text stands for.
    pub fn deserialize(text: &str) -> (r: Result<SerializableHistogram, String>)
        ensures
            match r {
                Ok(histogram) => stored_histogram(text@) == Ok::<HistogramView, Seq<char>>(
                    histogram@,
                ),
                Err(e) => stored_histogram(text@) == Err::<HistogramView, Seq<char>>(e@),
            },
    {
        match decode_base64(text) {
            Err(e) => Err(not_base64(e.as_str())),
            Ok(bytes) => match without_lowest_number(&bytes) {
                None => histogram_from_bytes(&bytes),
                Some(cut) => match histogram_from_bytes(&cut) {
                    Ok(_) => Err(NUMBER_TOO_LARGE.to_owned()),
                    Err(e) => Err(e),
                },
            },
        }
    }
}

/// What is read from the text that a histogram was written to has the counts, the bounds and the
/// precision of the histogram, and does not grow.
pub proof fn stored_histograms_read_back(
    text: Seq<char>,
    written: SerializableHistogram,
    read: SerializableHistogram,
)
    requires
        stored_histogram(text) == Ok::<HistogramView, Seq<char>>(written@.stored()),
        stored_histogram(text) == Ok::<HistogramView, Seq<char>>(read@),
    ensures
        read@ == written@.stored(),
        read@.counts == written@.counts,
        read@.low == written@.low && read@.high == written@.high,
        read@.sigfig == written@.sigfig,
        !read@.auto_resize,
{
}

/// The bytes are one number: up to nine of them, all but the last with their high bit set, and the
/// last with it clear, unless it is the ninth.
pub open spec fn is_number(bytes: Seq<u8>) -> bool {
    &&& 1 <= bytes.len() <= 9
    &&& forall|k: int| 0 <= k < bytes.len() - 1 ==> (#[trigger] bytes[k]) >= 0x80
    &&& bytes.len() < 9 ==> bytes[bytes.len() - 1] < 0x80
}

/// The number is the lowest: nine bytes without a zero bit.
pub open spec fn is_lowest(bytes: Seq<u8>) -> bool {
    bytes.len() == 9 && forall|k: int| 0 <= k < 9 ==> (#[trigger] bytes[k]) == 0xff
}

/// The numbers one after the other.
pub open spec fn joined_numbers(numbers: Seq<Seq<u8>>) -> Seq<u8>
    decreases numbers.len(),
{
    if numbers.len() == 0 {
        Seq::empty()
    } else {
        joined_numbers(numbers.drop_last()) + numbers.last()
    }
}

/// The lowest number is found exactly where it stands: behind a header and other numbers, none of
/// which is the lowest, and whatever follows it. Where no number is the lowest, none is found.
pub proof fn lowest_number_is_found_where_it_stands(
    header: Seq<u8>,
    numbers: Seq<Seq<u8>>,
    lowest: Seq<u8>,
    rest: Seq<u8>,
)
    requires
        header.len() == 40,
        forall|k: int| 0 <= k < numbers.len() ==> is_number(#[trigger] numbers[k]),
        forall|k: int| 0 <= k < numbers.len() ==> !is_lowest(#[trigger] numbers[k]),
        is_lowest(lowest),
    ensures
        lowest_number(header + joined_numbers(numbers)) is None,
        lowest_number(header + joined_numbers(numbers) + lowest + rest) == Some(
            40 + joined_numbers(numbers).len() as int,
        ),
{
    let plain = header + joined_numbers(numbers);
    let all = plain + lowest + rest;
    lemma_numbers_are_skipped(header, numbers, Seq::empty());
    assert(plain + Seq::<u8>::empty() =~= plain);
    lemma_numbers_are_skipped(header, numbers, lowest + rest);
    assert(plain + (lowest + rest) =~= all);
    let at = plain.len() as int;
    assert forall|k: int| at <= k < at + 9 implies (#[trigger] all[k]) == 0xff by {
        assert(all[k] == lowest[k - at]);
    }
    lemma_ones(all, at, 0);
}

/// Numbers that are not the lowest are passed over.
proof fn lemma_numbers_are_skipped(header: Seq<u8>, numbers: Seq<Seq<u8>>, rest: Seq<u8>)
    requires
        header.len() == 40,
        forall|k: int| 0 <= k < numbers.len() ==> is_number(#[trigger] numbers[k]),
        forall|k: int| 0 <= k < numbers.len() ==> !is_lowest(#[trigger] numbers[k]),
    ensures
        ({
            let plain = header + joined_numbers(numbers);
            lowest_number(plain + rest) == lowest_from(plain + rest, plain.len() as int, 0, true)
        }),
    decreases numbers.len(),
{
    if numbers.len() > 0 {
        let head = numbers.drop_last();
        let last = numbers.last();
        assert forall|k: int| 0 <= k < head.len() implies is_number(#[trigger] head[k])
            && !is_lowest(head[k]) by {
            assert(head[k] == numbers[k]);
        }
        assert(is_number(numbers[numbers.len() - 1]) && !is_lowest(numbers[numbers.len() - 1]));
        lemma_numbers_are_skipped(header, head, last + rest);
        let before = header + joined_numbers(head);
        let plain = header + joined_numbers(numbers);
        assert(before + (last + rest) =~= plain + rest);
        let all = plain + rest;
        let start = before.len() as int;
        assert forall|k: int| 0 <= k < last.len() implies all[start + k] == #[trigger] last[k] by {}
        lemma_number_is_skipped(all, start, last, 0, true);
    } else {
        assert(header + joined_numbers(numbers) =~= header);
    }
}

/// A number that is not the lowest is passed over, byte by byte.
proof fn lemma_number_is_skipped(bytes: Seq<u8>, start: int, number: Seq<u8>, k: int, ones: bool)
    requires
        0 <= start,
        start + number.len() <= bytes.len(),
        forall|j: int| 0 <= j < number.len() ==> bytes[start + j] == #[trigger] number[j],
        is_number(number),
        !is_lowest(number),
        0 <= k < number.len(),
        ones == (forall|j: int| 0 <= j < k ==> (#[trigger] number[j]) == 0xff),
    ensures
        lowest_from(bytes, start + k, k, ones) == lowest_from(
            bytes,
            start + number.len(),
            0,
            true,
        ),
    decreases number.len() - k,
{
    let all_ones = ones && number[k] == 0xff;
    assert(bytes[start + k] == number[k]);
    if k + 1 < number.len() {
        assert(number[k] >= 0x80);
        assert(all_ones == (forall|j: int| 0 <= j < k + 1 ==> (#[trigger] number[j]) == 0xff)) by {
            if all_ones {
                assert forall|j: int| 0 <= j < k + 1 implies (#[trigger] number[j]) == 0xff by {}
            }
        }
        lemma_number_is_skipped(bytes, start, number, k + 1, all_ones);
    } else if k == 8 {
        if all_ones {
            assert forall|j: int| 0 <= j < 9 implies (#[trigger] number[j]) == 0xff by {}
            assert(is_lowest(number));
        }
    }
}

/// Nine bytes without a zero bit are found as the lowest number.
proof fn lemma_ones(bytes: Seq<u8>, start: int, k: int)
    requires
        0 <= start,
        start + 9 <= bytes.len(),
        forall|j: int| start <= j < start + 9 ==> (#[trigger] bytes[j]) == 0xff,
        0 <= k <= 8,
    ensures
        lowest_from(bytes, start + k, k, true) == Some(start),
    decreases 8 - k,
{
    assert(bytes[start + k] == 0xff);
    if k < 8 {
        lemma_ones(bytes, start, k + 1);
    }
}

/// A histogram that is cut short keeps the settings of its header and all numbers before the cut,
/// and tells how many bytes they take.
pub proof fn cutting_short_keeps_what_comes_before(plain: Seq<u8>, at: int)
    requires
        40 <= at <= plain.len(),
        at - 40 <= u32::MAX,
    ensures
        ({
            let cut = cut_at(plain, at);
            &&& cut.len() == at
            &&& be_nat(cut.subrange(0, 4)) == 0x1c84_9313
            &&& be_nat(cut.subrange(4, 8)) == at - 40
            &&& cut.subrange(8, at) == plain.subrange(8, at)
        }),
{
    let cut = cut_at(plain, at);
    let length = (at - HEADER_SIZE) as nat;
    lemma_pow256();
    lemma_be_bytes(V2_COOKIE as nat, 4);
    lemma_be_bytes(length, 4);
    assert(cut.subrange(0, 4) =~= be_bytes(V2_COOKIE as nat, 4));
    assert(cut.subrange(4, 8) =~= be_bytes(length, 4));
    assert(cut.subrange(8, at) =~= plain.subrange(8, at));
}

/// A stream of a compressed histogram is what follows its eight bytes of a header, as long as the
/// header tells; a histogram without compression is as long as its header tells.
pub proof fn headers_tell_how_long_a_histogram_is(length: nat, stream: Seq<u8>, rest: Seq<u8>)
    requires
        length <= u32::MAX,
        stream.len() == length,
    ensures
        ({
            let bytes = be_bytes(0x1c84_9314, 4) + be_bytes(length, 4) + stream + rest;
            is_compressed(bytes) && compressed_stream(bytes) == stream
        }),
        ({
            let plain = be_bytes(0x1c84_9313, 4) + be_bytes(length, 4) + stream;
            plain.len() >= 40 ==> !is_compressed(plain) && full_size(plain) == Some(
                (40 + length) as u64,
            )
        }),
{
    lemma_pow256();
    lemma_be_bytes(0x1c84_9314, 4);
    lemma_be_bytes(0x1c84_9313, 4);
    lemma_be_bytes(length, 4);
    let bytes = be_bytes(0x1c84_9314, 4) + be_bytes(length, 4) + stream + rest;
    assert(bytes.subrange(0, 4) =~= be_bytes(0x1c84_9314, 4));
    assert(bytes.subrange(4, 8) =~= be_bytes(length, 4));
    assert(compressed_stream(bytes) =~= stream);
    let plain = be_bytes(0x1c84_9313, 4) + be_bytes(length, 4) + stream;
    assert(plain.subrange(0, 4) =~= be_bytes(0x1c84_9313, 4));
    assert(plain.subrange(4, 8) =~= be_bytes(length, 4));
}

/// A histogram without compression is all of its bytes that the header tells of, whatever follows
/// them, and none where some are missing. A compressed one is what its stream holds: as many bytes
/// as the header at the front of the stream tells, where there can be as many.
pub proof fn histograms_end_where_their_header_tells(
    length: nat,
    body: Seq<u8>,
    rest: Seq<u8>,
    stream: Seq<u8>,
    header: Seq<u8>,
    missing: int,
)
    requires
        length <= u32::MAX,
        body.len() == 32 + length,
        stream.len() <= u32::MAX,
        inflated(stream, 40) == Some(header),
        header.len() == 40,
        header.subrange(0, 8) == be_bytes(0x1c84_9313, 4) + be_bytes(length, 4),
        0 < missing <= length,
    ensures
        ({
            let plain = be_bytes(0x1c84_9313, 4) + be_bytes(length, 4) + body;
            &&& whole(plain + rest) == Some(plain)
            &&& whole(plain.take(plain.len() - missing)) is None
        }),
        ({
            let bytes = be_bytes(0x1c84_9314, 4) + be_bytes(stream.len(), 4) + stream;
            whole(bytes + rest) == (if 40 + length <= isize::MAX {
                inflated(stream, (40 + length) as u64)
            } else {
                None
            })
        }),
{
    let front = be_bytes(0x1c84_9313, 4) + be_bytes(length, 4);
    let plain = front + body;
    let more = plain + rest;
    let less = plain.take(plain.len() - missing);
    lemma_pow256();
    lemma_be_bytes(0x1c84_9313, 4);
    lemma_be_bytes(length, 4);
    assert(more.subrange(0, 4) =~= be_bytes(0x1c84_9313, 4));
    assert(more.subrange(4, 8) =~= be_bytes(length, 4));
    assert(more.take((40 + length) as int) =~= plain);
    assert(less.subrange(0, 4) =~= be_bytes(0x1c84_9313, 4));
    assert(less.subrange(4, 8) =~= be_bytes(length, 4));
    headers_tell_how_long_a_histogram_is(stream.len(), stream, rest);
    assert(header.subrange(0, 4) =~= header.subrange(0, 8).subrange(0, 4));
    assert(header.subrange(4, 8) =~= header.subrange(0, 8).subrange(4, 8));
    assert(header.subrange(0, 4) =~= be_bytes(0x1c84_9313, 4));
    assert(header.subrange(4, 8) =~= be_bytes(length, 4));
    assert(full_size(header) == Some((40 + length) as u64));
}

/// Where no number of a histogram is the lowest, or not all of its bytes can be had, what is read
/// is what the bytes stand for. A histogram with the lowest number is refused, with what is wrong
/// in front of the number, if anything is.
pub proof fn the_lowest_number_is_refused(bytes: Seq<u8>, plain: Seq<u8>, at: int)
    requires
        whole(bytes) == Some(plain),
    ensures
        lowest_number(plain) is None ==> histogram_read(bytes) == histogram_of_bytes(bytes),
        lowest_number(plain) == Some(at) ==> match histogram_of_bytes(cut_at(plain, at)) {
            Ok(_) => histogram_read(bytes) == Err::<HistogramView, Seq<char>>(
                NUMBER_TOO_LARGE@,
            ),
            Err(e) => histogram_read(bytes) == Err::<HistogramView, Seq<char>>(e),
        },
{
}

/// Bytes of which not all of a histogram can be had stand for what they stand for, and a text that
/// is no base64 for an error that tells why.
pub proof fn incomplete_histograms_are_reported(text: Seq<char>, bytes: Seq<u8>, reason: Seq<char>)
    ensures
        whole(bytes) is None ==> histogram_read(bytes) == histogram_of_bytes(bytes),
        bytes_of_base64(text) == Ok::<Seq<u8>, Seq<char>>(bytes) ==> stored_histogram(text)
            == histogram_read(bytes),
        bytes_of_base64(text) == Err::<Seq<u8>, Seq<char>>(reason) ==> stored_histogram(text)
            == Err::<HistogramView, Seq<char>>("Not a valid base64 value. "@ + reason),
{
}

/// The digits of base64, in order.
#[verifier::opaque]
pub open spec fn base64_digits() -> Seq<char> {
    "ABCDEFGHIJKLMNOPQRSTUVWXYZabcdefghijklmnopqrstuvwxyz0123456789+/"@
}

/// Three bytes are written as the four digits of the number that they are, and what follows them is
/// written behind them. Two bytes at the end are written as if a zero followed them, and one as if
/// two did, with `=` for each digit that only the zeros are in.
#[verifier::spinoff_prover]
pub proof fn base64_writes_three_bytes_as_four_digits(a: u8, b: u8, c: u8, rest: Seq<u8>)
    ensures
        ({
            let digit = |n: int, place: int| base64_digits()[n / place % 64];
            let three = a * 0x1_0000 + b * 0x100 + c;
            let two = a * 0x1_0000 + b * 0x100;
            let one = a * 0x1_0000;
            &&& base64_text(Seq::empty()) == Seq::<char>::empty()
            &&& base64_text(seq![a, b, c] + rest) == seq![
                digit(three, 0x4_0000),
                digit(three, 0x1000),
                digit(three, 0x40),
                digit(three, 1),
            ] + base64_text(rest)
            &&& base64_text(seq![a, b]) == seq![
                digit(two, 0x4_0000),
                digit(two, 0x1000),
                digit(two, 0x40),
                '=',
            ]
            &&& base64_text(seq![a]) == seq![digit(one, 0x4_0000), digit(one, 0x1000), '=', '=']
        }),
{
    lemma_sextets(a as int, b as int, c as int);
    lemma_sextets(a as int, b as int, 0);
    lemma_sextets(a as int, 0, 0);
    lemma_base64_char(a as nat / 4);
    lemma_base64_char((a as nat % 4) * 16 + b as nat / 16);
    lemma_base64_char((b as nat % 16) * 4 + c as nat / 64);
    lemma_base64_char(c as nat % 64);
    lemma_base64_char((b as nat % 16) * 4);
    lemma_base64_char((a as nat % 4) * 16);
    let all = seq![a, b, c] + rest;
    assert(all.skip(3) =~= rest);
    assert(base64_text(Seq::<u8>::empty()) =~= Seq::<char>::empty());
    if rest.len() == 0 {
        assert(rest =~= Seq::<u8>::empty());
    }
    assert(base64_text(all) =~= seq![
        base64_char(a as nat / 4),
        base64_char((a as nat % 4) * 16 + b as nat / 16),
        base64_char((b as nat % 16) * 4 + c as nat / 64),
        base64_char(c as nat % 64),
    ] + base64_text(rest));
    assert(base64_text(seq![a, b]) =~= seq![
        base64_char(a as nat / 4),
        base64_char((a as nat % 4) * 16 + b as nat / 16),
        base64_char((b as nat % 16) * 4),
        '=',
    ]);
    assert(base64_text(seq![a]) =~= seq![
        base64_char(a as nat / 4),
        base64_char((a as nat % 4) * 16),
        '=',
        '=',
    ]);
}

/// The four times six bits of three bytes.
proof fn lemma_sextets(a: int, b: int, c: int)
    requires
        0 <= a < 256,
        0 <= b < 256,
        0 <= c < 256,
    ensures
        ({
            let n = a * 0x1_0000 + b * 0x100 + c;
            &&& n / 0x4_0000 % 64 == a / 4
            &&& n / 0x1000 % 64 == (a % 4) * 16 + b / 16
            &&& n / 0x40 % 64 == (b % 16) * 4 + c / 64
            &&& n / 1 % 64 == c % 64
        }),
{
    let n = a * 0x1_0000 + b * 0x100 + c;
    let (first, second) = (a / 4, (a % 4) * 16 + b / 16);
    let (third, fourth) = ((b % 16) * 4 + c / 64, c % 64);
    assert(n == 64 * (64 * (64 * first + second) + third) + fourth);
    lemma_last_digit(64 * (64 * first + second) + third, fourth, 64);
    lemma_last_digit(64 * first + second, 64 * third + fourth, 0x1000);
    lemma_last_digit(first, 0x1000 * second + 64 * third + fourth, 0x4_0000);
    lemma_last_digit(64 * first + second, third, 64);
    lemma_last_digit(first, second, 64);
    lemma_last_digit(0, first, 64);
}

/// What is in front of a digit, and the digit.
proof fn lemma_last_digit(front: int, digit: int, base: int)
    requires
        0 <= digit < base,
    ensures
        (base * front + digit) / base == front,
        (base * front + digit) % base == digit,
{
    vstd::arithmetic::mul::lemma_mul_is_commutative(base, front);
    vstd::arithmetic::div_mod::lemma_fundamental_div_mod_converse(
        base * front + digit,
        base,
        front,
        digit,
    );
}

/// The digit of each six bits.
proof fn lemma_base64_char(bits: nat)
    requires
        bits < 64,
    ensures
        base64_char(bits) == base64_digits()[bits as int],
{
    reveal(base64_digits);
    reveal_strlit("ABCDEFGHIJKLMNOPQRSTUVWXYZabcdefghijklmnopqrstuvwxyz0123456789+/");
}

} // verus!
