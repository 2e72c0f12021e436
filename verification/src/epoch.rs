//! Epoch accumulators: where the one of a block is kept, and how it is read.

use ssz::Decode;
use vstd::prelude::*;

use crate::constants::{EPOCH_SIZE, MERGE_BLOCK_NUMBER};
use crate::text::{decimal_text, hex_encode, trim_hex_prefix};

verus! {

/// Bytes of one record.
pub const RECORD_SIZE: usize = 64;

/// The most records that an epoch can have, one for each of its blocks.
pub const MAX_RECORDS: usize = 8192;

/// `ssz::DecodeError`, the reason why bytes are no encoding.
#[verifier::external_type_specification]
#[verifier::external_body]
pub struct ExDecodeError(ssz::DecodeError);

/// What an epoch accumulator says of one block.
#[derive(Clone, Copy, Debug, PartialEq, Eq)]
pub struct HeaderRecord {
    pub block_hash: [u8; 32],
    /// The total difficulty, the least significant byte first.
    pub total_difficulty: [u8; 32],
}

/// The records of an epoch's blocks, in the order of the blocks.
#[derive(Debug, PartialEq)]
pub struct EpochAccumulator {
    pub records: Vec<HeaderRecord>,
}

/// Where the epoch accumulator of a block comes from.
#[derive(Debug, PartialEq)]
pub enum EpochAccSource {
    /// The block came with or after the merge: it needs none.
    NotNeeded,
    /// It is kept in a file.
    File { path: String },
}

/// Why an epoch accumulator cannot be had.
#[derive(Debug, PartialEq)]
pub enum EpochAccError {
    /// The file cannot be read.
    NotFound { path: String },
    /// The file holds more records than an epoch has blocks.
    TooManyRecords { records: usize },
    /// The last record of the file is cut short.
    InvalidByteLength { len: usize, expected: usize },
}

/// The file that the epoch accumulator with this hash is kept in.
pub open spec fn epoch_acc_path(hash: Seq<u8>) -> Seq<char> {
    "./portal-accumulators/bridge_content/0x03"@ + crate::text::hex(hash) + ".portalcontent"@
}

impl HeaderRecord {
    /// The record as it is written in a file.
    pub open spec fn encoding(self) -> Seq<u8> {
        self.block_hash@ + self.total_difficulty@
    }
}

/// Records as they are written in a file, one behind the other.
pub open spec fn encoding(records: Seq<HeaderRecord>) -> Seq<u8>
    decreases records.len(),
{
    if records.len() == 0 {
        Seq::empty()
    } else {
        encoding(records.drop_last()) + records.last().encoding()
    }
}

/// What reading a file's bytes has to give: the accumulator that is written in them, unless they
/// are more records than an epoch has blocks or end within a record.
pub open spec fn reads_as(
    bytes: Seq<u8>,
    result: Result<EpochAccumulator, EpochAccError>,
) -> bool {
    let records = (bytes.len() / RECORD_SIZE as nat) as usize;
    let len = (bytes.len() % RECORD_SIZE as nat) as usize;
    if records > MAX_RECORDS {
        result == Err::<EpochAccumulator, EpochAccError>(EpochAccError::TooManyRecords { records })
    } else if len != 0 {
        result == Err::<EpochAccumulator, EpochAccError>(
            EpochAccError::InvalidByteLength { len, expected: RECORD_SIZE },
        )
    } else {
        result is Ok && encoding(result->Ok_0.records@) == bytes
    }
}

impl EpochAccError {
    /// What the error says.
    pub open spec fn text(self) -> Seq<char> {
        match self {
            EpochAccError::NotFound { path } => "Unable to find local epoch acc at path: \""@
                + path@ + "\""@,
            EpochAccError::TooManyRecords { records } => "BytesInvalid(\"VariableList of "@
                + crate::text::decimal(records as nat) + " items exceeds maximum of "@
                + crate::text::decimal(MAX_RECORDS as nat) + "\")"@,
            EpochAccError::InvalidByteLength { len, expected } => "InvalidByteLength { len: "@
                + crate::text::decimal(len as nat) + ", expected: "@ + crate::text::decimal(
                expected as nat,
            ) + " }"@,
        }
    }

    /// What the error says.
    pub fn message(&self) -> (message: String)
        ensures
            message@ == self.text(),
    {
        match self {
            EpochAccError::NotFound { path } => {
                let mut message = "Unable to find local epoch acc at path: \"".to_owned();
                message.append(path.as_str());
                message.append("\"");
                message
            }
            EpochAccError::TooManyRecords { records } => {
                let mut message = "BytesInvalid(\"VariableList of ".to_owned();
                message.append(decimal_text(*records as u64).as_str());
                message.append(" items exceeds maximum of ");
                message.append(decimal_text(MAX_RECORDS as u64).as_str());
                message.append("\")");
                message
            }
            EpochAccError::InvalidByteLength { len, expected } => {
                let mut message = "InvalidByteLength { len: ".to_owned();
                message.append(decimal_text(*len as u64).as_str());
                message.append(", expected: ");
                message.append(decimal_text(*expected as u64).as_str());
                message.append(" }");
                message
            }
        }
    }
}

/// Finds out where the epoch accumulator of a block comes from. A block before the merge needs
/// the one of its epoch, whose hash has to be among `historical_epochs`.
pub fn lookup_epoch_acc(block: u64, historical_epochs: &Vec<[u8; 32]>) -> (source: EpochAccSource)
    requires
        block < MERGE_BLOCK_NUMBER ==> block / EPOCH_SIZE < historical_epochs@.len(),
    ensures
        block >= MERGE_BLOCK_NUMBER <==> source is NotNeeded,
        source matches EpochAccSource::File { path } ==> path@ == epoch_acc_path(
            historical_epochs@[(block / EPOCH_SIZE) as int]@,
        ),
{
    if block >= MERGE_BLOCK_NUMBER {
        return EpochAccSource::NotNeeded;
    }
    let epoch_index = block / EPOCH_SIZE;
    let epoch_hash = historical_epochs[epoch_index as usize];
    let epoch_hash_pretty = hex_encode(&epoch_hash);
    let epoch_hash_pretty = trim_hex_prefix(epoch_hash_pretty.as_str());
    proof {
        crate::text::trimming_undoes_the_prefix(epoch_hash@);
    }
    let mut path = "./portal-accumulators/bridge_content/0x03".to_owned();
    path.append(epoch_hash_pretty);
    path.append(".portalcontent");
    EpochAccSource::File { path }
}

/// Calls `ssz::Decode::from_ssz_bytes` for a list of pairs of 32 bytes.
///
/// Fails exactly when the number of bytes is no multiple of a pair's 64. Otherwise the pairs are
/// the bytes cut into pieces of 64, the first half of a piece and the second.
#[verifier::external_body]
fn decode_pairs(bytes: &Vec<u8>) -> (result: Result<Vec<([u8; 32], [u8; 32])>, ssz::DecodeError>)
    ensures
        result is Ok <==> bytes@.len() % 64 == 0,
        result matches Ok(pairs) ==> pairs@.len() == bytes@.len() / 64,
        result matches Ok(pairs) ==> forall|i: int|
            0 <= i < pairs@.len() ==> (#[trigger] pairs@[i]).0@ == bytes@.subrange(
                64 * i,
                64 * i + 32,
            ) && pairs@[i].1@ == bytes@.subrange(64 * i + 32, 64 * i + 64),
{
    Vec::from_ssz_bytes(bytes)
}

impl EpochAccumulator {
    /// Reads an epoch accumulator from the bytes of its file.
    pub fn from_ssz_bytes(bytes: &Vec<u8>) -> (result: Result<EpochAccumulator, EpochAccError>)
        ensures
            reads_as(bytes@, result),
    {
        let count = bytes.len() / RECORD_SIZE;
        if count > MAX_RECORDS {
            return Err(EpochAccError::TooManyRecords { records: count });
        }
        let pairs = match decode_pairs(bytes) {
            Ok(pairs) => pairs,
            Err(_) => {
                return Err(
                    EpochAccError::InvalidByteLength {
                        len: bytes.len() % RECORD_SIZE,
                        expected: RECORD_SIZE,
                    },
                )
            }
        };
        let mut records: Vec<HeaderRecord> = Vec::new();
        while records.len() < pairs.len()
            invariant
                pairs@.len() == bytes@.len() / 64,
                forall|i: int|
                    0 <= i < pairs@.len() ==> (#[trigger] pairs@[i]).0@ == bytes@.subrange(
                        64 * i,
                        64 * i + 32,
                    ) && pairs@[i].1@ == bytes@.subrange(64 * i + 32, 64 * i + 64),
                records@.len() <= pairs@.len(),
                encoding(records@) == bytes@.take(64 * records@.len() as int),
            decreases pairs@.len() - records@.len(),
        {
            let ghost before = records@;
            let (block_hash, total_difficulty) = pairs[records.len()];
            records.push(HeaderRecord { block_hash, total_difficulty });
            assert(records@.drop_last() == before);
        }
        assert(bytes@.take(64 * records@.len() as int) == bytes@);
        Ok(EpochAccumulator { records })
    }
}

/// Makes an epoch accumulator of what reading its file gave: the bytes, or nothing where the
/// file could not be read.
pub fn load_epoch_acc(path: String, contents: Option<Vec<u8>>) -> (result: Result<
    EpochAccumulator,
    EpochAccError,
>)
    ensures
        match contents {
            Some(bytes) => reads_as(bytes@, result),
            None => result == Err::<EpochAccumulator, EpochAccError>(
                (EpochAccError::NotFound { path }),
            ),
        },
{
    match contents {
        Some(bytes) => EpochAccumulator::from_ssz_bytes(&bytes),
        None => Err(EpochAccError::NotFound { path }),
    }
}

/// Every record takes the same room.
pub proof fn encoding_len(records: Seq<HeaderRecord>)
    ensures
        encoding(records).len() == RECORD_SIZE * records.len(),
    decreases records.len(),
{
    if records.len() > 0 {
        encoding_len(records.drop_last());
    }
}

/// Bytes determine the records that are written in them.
pub proof fn encoding_is_injective(a: Seq<HeaderRecord>, b: Seq<HeaderRecord>)
    requires
        encoding(a) == encoding(b),
    ensures
        a == b,
    decreases a.len(),
{
    encoding_len(a);
    encoding_len(b);
    if a.len() > 0 {
        let (x, y) = (a.last(), b.last());
        let (s, t) = (encoding(a.drop_last()), encoding(b.drop_last()));
        encoding_len(a.drop_last());
        encoding_len(b.drop_last());
        assert(encoding(a) == s + x.encoding());
        assert(encoding(b) == t + y.encoding());
        assert(s == encoding(a).take(s.len() as int));
        assert(t == encoding(b).take(t.len() as int));
        encoding_is_injective(a.drop_last(), b.drop_last());
        assert(x.encoding() == encoding(a).skip(s.len() as int));
        assert(y.encoding() == encoding(b).skip(t.len() as int));
        assert(x.block_hash@ == x.encoding().take(32));
        assert(y.block_hash@ == y.encoding().take(32));
        assert(x.total_difficulty@ == x.encoding().skip(32));
        assert(y.total_difficulty@ == y.encoding().skip(32));
        assert(x.block_hash =~= y.block_hash);
        assert(x.total_difficulty =~= y.total_difficulty);
        assert(a == a.drop_last().push(x));
        assert(b == b.drop_last().push(y));
    } else {
        assert(a == b);
    }
}

/// Reading gives back what was written: the file of an accumulator with no more records than
/// an epoch has blocks reads as that accumulator.
pub proof fn reading_gives_back_what_was_written(
    records: Seq<HeaderRecord>,
    result: Result<EpochAccumulator, EpochAccError>,
)
    requires
        records.len() <= MAX_RECORDS,
        reads_as(encoding(records), result),
    ensures
        result is Ok,
        result->Ok_0.records@ == records,
{
    encoding_len(records);
    encoding_is_injective(result->Ok_0.records@, records);
}

/// The path of an accumulator's file needs no escaping: its characters are printable ASCII, none
/// of them a quote or a backslash. Between quotes it reads the same raw and escaped.
pub proof fn paths_need_no_escaping(hash: Seq<u8>, i: int)
    requires
        0 <= i < epoch_acc_path(hash).len(),
    ensures
        ' ' <= epoch_acc_path(hash)[i] <= '~',
        epoch_acc_path(hash)[i] != '"',
        epoch_acc_path(hash)[i] != '\\',
{
    reveal_strlit("./portal-accumulators/bridge_content/0x03");
    reveal_strlit(".portalcontent");
    let front = "./portal-accumulators/bridge_content/0x03"@.len();
    let digits = crate::text::hex(hash);
    if front <= i < front + digits.len() {
        let byte = hash[(i - front) / 2];
        assert(epoch_acc_path(hash)[i] == digits[i - front]);
        assert(0 <= byte / 16 < 16 && 0 <= byte % 16 < 16);
    }
}

/// Accumulators of different epochs are kept in different files.
pub proof fn epochs_have_files_of_their_own(a: Seq<u8>, b: Seq<u8>)
    requires
        epoch_acc_path(a) == epoch_acc_path(b),
    ensures
        a == b,
{
    let front = "./portal-accumulators/bridge_content/0x03"@;
    let back = ".portalcontent"@;
    let (x, y) = (crate::text::hex(a), crate::text::hex(b));
    assert(epoch_acc_path(a).len() == front.len() + x.len() + back.len());
    assert(epoch_acc_path(b).len() == front.len() + y.len() + back.len());
    assert(x == epoch_acc_path(a).subrange(front.len() as int, (front.len() + x.len()) as int));
    assert(y == epoch_acc_path(b).subrange(front.len() as int, (front.len() + y.len()) as int));
    crate::text::hex_is_injective(a, b);
}

/// The path of an accumulator's file is spelled by the hash: between the directory with the
/// content's prefix and the extension stand the usual hexadecimal digits of every byte.
pub proof fn paths_spell_the_hash(hash: Seq<u8>, i: int)
    requires
        0 <= i < hash.len(),
    ensures
        epoch_acc_path(hash).len() == 41 + 2 * hash.len() + 14,
        epoch_acc_path(hash).take(41) == "./portal-accumulators/bridge_content/0x03"@,
        epoch_acc_path(hash).skip((41 + 2 * hash.len()) as int) == ".portalcontent"@,
        epoch_acc_path(hash)[41 + 2 * i] == "0123456789abcdef"@[hash[i] as int / 16],
        epoch_acc_path(hash)[41 + 2 * i + 1] == "0123456789abcdef"@[hash[i] as int % 16],
{
    reveal_strlit("./portal-accumulators/bridge_content/0x03");
    reveal_strlit(".portalcontent");
    let path = epoch_acc_path(hash);
    crate::text::hex_reads_back(hash, i);
    assert(path.take(41) == "./portal-accumulators/bridge_content/0x03"@);
    assert(path.skip((41 + 2 * hash.len()) as int) == ".portalcontent"@);
    assert(path[41 + 2 * i] == crate::text::hex(hash)[2 * i]);
    assert(path[41 + 2 * i + 1] == crate::text::hex(hash)[2 * i + 1]);
}

/// A lookup finds the epoch that the block lies in: the accumulator of the epoch at position
/// `epoch` is that of the 8192 blocks from `8192 * epoch` on. From the merge on none is needed.
pub proof fn lookups_find_the_epoch(
    block: u64,
    historical_epochs: Vec<[u8; 32]>,
    source: EpochAccSource,
    epoch: int,
)
    requires
        call_ensures(lookup_epoch_acc, (block, &historical_epochs), source),
        8192 * epoch <= block < 8192 * (epoch + 1),
    ensures
        block >= 15_537_394 ==> source is NotNeeded,
        block < 15_537_394 ==> {
            &&& source is File
            &&& source->path@ == epoch_acc_path(historical_epochs@[epoch]@)
        },
{
    assert(block / EPOCH_SIZE == epoch);
}

/// A record lies at its place in the bytes: the hash in the first half, the difficulty in the
/// second.
pub proof fn records_lie_at_their_places(records: Seq<HeaderRecord>, i: int)
    requires
        0 <= i < records.len(),
    ensures
        encoding(records).len() == 64 * records.len(),
        encoding(records).subrange(64 * i, 64 * i + 32) == records[i].block_hash@,
        encoding(records).subrange(64 * i + 32, 64 * i + 64) == records[i].total_difficulty@,
    decreases records.len(),
{
    encoding_len(records);
    let front = encoding(records.drop_last());
    let last = records.last();
    encoding_len(records.drop_last());
    assert(encoding(records) == front + (last.block_hash@ + last.total_difficulty@));
    if i < records.len() - 1 {
        records_lie_at_their_places(records.drop_last(), i);
        assert(encoding(records).subrange(64 * i, 64 * i + 32) == front.subrange(
            64 * i,
            64 * i + 32,
        ));
        assert(encoding(records).subrange(64 * i + 32, 64 * i + 64) == front.subrange(
            64 * i + 32,
            64 * i + 64,
        ));
    } else {
        assert(encoding(records).subrange(64 * i, 64 * i + 32) == last.block_hash@);
        assert(encoding(records).subrange(64 * i + 32, 64 * i + 64) == last.total_difficulty@);
    }
}

/// What reading gives, by the bytes: every 64 bytes a record, the hash in front, up to 8192
/// records; an error that names the number of records where there are more, and else one that
/// names the bytes of a record that is cut short.
pub open spec fn reads_in_pieces(
    bytes: Seq<u8>,
    result: Result<EpochAccumulator, EpochAccError>,
) -> bool {
    let pieces = bytes.len() as int / 64;
    let rest = bytes.len() as int % 64;
    &&& result is Ok <==> pieces <= 8192 && rest == 0
    &&& result is Ok ==> {
        &&& result->Ok_0.records@.len() == pieces
        &&& forall|i: int|
            0 <= i < pieces ==> {
                &&& (#[trigger] result->Ok_0.records@[i]).block_hash@ == bytes.subrange(
                    64 * i,
                    64 * i + 32,
                )
                &&& result->Ok_0.records@[i].total_difficulty@ == bytes.subrange(
                    64 * i + 32,
                    64 * i + 64,
                )
            }
    }
    &&& pieces > 8192 ==> {
        &&& result->Err_0 is TooManyRecords
        &&& result->Err_0->records == pieces
    }
    &&& pieces <= 8192 && rest != 0 ==> {
        &&& result->Err_0 is InvalidByteLength
        &&& result->Err_0->len == rest
        &&& result->Err_0->expected == 64
    }
}

proof fn readings_go_by_pieces(bytes: Seq<u8>, result: Result<EpochAccumulator, EpochAccError>)
    requires
        bytes.len() <= usize::MAX,
        reads_as(bytes, result),
    ensures
        reads_in_pieces(bytes, result),
{
    if result is Ok {
        let records = result->Ok_0.records@;
        encoding_len(records);
        assert forall|i: int| 0 <= i < records.len() implies {
            &&& (#[trigger] records[i]).block_hash@ == bytes.subrange(64 * i, 64 * i + 32)
            &&& records[i].total_difficulty@ == bytes.subrange(64 * i + 32, 64 * i + 64)
        } by {
            records_lie_at_their_places(records, i);
        }
    }
}

/// `EpochAccumulator::from_ssz_bytes` reads piece by piece.
pub proof fn bytes_are_read_in_pieces(
    bytes: Vec<u8>,
    result: Result<EpochAccumulator, EpochAccError>,
)
    requires
        bytes@.len() <= usize::MAX,
        call_ensures(EpochAccumulator::from_ssz_bytes, (&bytes,), result),
    ensures
        reads_in_pieces(bytes@, result),
{
    readings_go_by_pieces(bytes@, result);
}

/// `load_epoch_acc` reads the bytes of a file piece by piece, and names the file that could not be
/// read.
pub proof fn files_are_read_in_pieces(
    path: String,
    contents: Option<Vec<u8>>,
    result: Result<EpochAccumulator, EpochAccError>,
)
    requires
        contents matches Some(bytes) ==> bytes@.len() <= usize::MAX,
        call_ensures(load_epoch_acc, (path, contents), result),
    ensures
        contents is Some ==> reads_in_pieces(contents->0@, result),
        contents is None ==> {
            &&& result is Err
            &&& result->Err_0 is NotFound
            &&& result->Err_0->path@ == path@
        },
{
    if contents is Some {
        readings_go_by_pieces(contents->0@, result);
    }
}

/// What an error says: the path between quotes, or the numbers as they are usually written.
pub proof fn messages_show_the_error(error: EpochAccError, message: String) -> (numbers: (
    Seq<char>,
    Seq<char>,
))
    requires
        call_ensures(EpochAccError::message, (&error,), message),
    ensures
        error is NotFound ==> message@ == "Unable to find local epoch acc at path: \""@ + error->path@
            + "\""@,
        error is TooManyRecords ==> {
            &&& crate::text::is_decimal(numbers.0, error->records as nat)
            &&& crate::text::is_decimal(numbers.1, 8192)
            &&& message@ == "BytesInvalid(\"VariableList of "@ + numbers.0
                + " items exceeds maximum of "@ + numbers.1 + "\")"@
        },
        error is InvalidByteLength ==> {
            &&& crate::text::is_decimal(numbers.0, error->len as nat)
            &&& crate::text::is_decimal(numbers.1, error->expected as nat)
            &&& message@ == "InvalidByteLength { len: "@ + numbers.0 + ", expected: "@ + numbers.1
                + " }"@
        },
{
    let (a, b): (nat, nat) = match error {
        EpochAccError::NotFound { path } => (0, 0),
        EpochAccError::TooManyRecords { records } => (records as nat, 8192),
        EpochAccError::InvalidByteLength { len, expected } => (len as nat, expected as nat),
    };
    crate::text::decimals_read_back(a);
    crate::text::decimals_read_back(b);
    (crate::text::decimal(a), crate::text::decimal(b))
}

} // verus!
