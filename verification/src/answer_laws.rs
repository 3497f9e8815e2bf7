//! What is reported of a created contract, told by the bytes of its answers.

use crate::abi::{
    decoding_error, encoded_text, repaired_text, small_word, text_bytes,
    text_of, text_offsets_fit, word_of, NAME_CALL, SYMBOL_CALL, TOKEN_URI_CALL,
};
use crate::contract::{
    contract_views, number_answer, number_lines, processed, processed_all, text_answer, text_lines,
    CreationView,
};
use crate::execution::{error_text, execution, ErrorView, Run};
use crate::handlers::blocks_line;
use crate::schema::Contract;
use crate::text::big_endian;
use crate::text_laws::law_big_endian_parts;
use vstd::arithmetic::power::pow;
use vstd::prelude::*;
use vstd::utf8::{decode_utf8, valid_utf8};

verus! {

/// The number in the 32 bytes of `data` at `at`.
pub open spec fn word_at(data: Seq<u8>, at: int) -> int {
    big_endian(data.subrange(at, at + 32)) as int
}

/// Whether a text of `len` bytes lies in `data`, with its length in front of it at `at`, as the
/// first word says. Both numbers are below 2^32.
pub open spec fn text_lies(data: Seq<u8>, at: int, len: int) -> bool {
    &&& 0 <= at < 0x100000000
    &&& 0 <= len < 0x100000000
    &&& at + 32 + len <= data.len()
    &&& data.len() >= 32
    &&& word_at(data, 0) == at
    &&& word_at(data, at) == len
}

/// The bytes of zeros make zero.
proof fn lemma_zeros(bytes: Seq<u8>)
    ensures
        big_endian(bytes) == 0 <==> forall|i: int|
            0 <= i < bytes.len() ==> #[trigger] bytes[i] == 0,
    decreases bytes.len(),
{
    if bytes.len() > 0 {
        let front = bytes.drop_last();
        lemma_zeros(front);
        if big_endian(bytes) == 0 {
            assert forall|i: int| 0 <= i < bytes.len() implies #[trigger] bytes[i] == 0 by {
                if i < front.len() {
                    assert(front[i] == bytes[i]);
                }
            }
        }
        if forall|i: int| 0 <= i < bytes.len() ==> #[trigger] bytes[i] == 0 {
            assert forall|i: int| 0 <= i < front.len() implies #[trigger] front[i] == 0 by {
                assert(front[i] == bytes[i]);
            }
            assert(bytes[bytes.len() - 1] == 0);
        }
    }
}

/// A word is small if its number is below 2^32.
proof fn lemma_small(data: Seq<u8>, at: int)
    requires
        0 <= at,
        at + 32 <= data.len(),
    ensures
        small_word(data, at) == (if word_at(data, at) < 0x100000000 {
            Some(word_at(data, at))
        } else {
            None
        }),
{
    let high = data.subrange(at, at + 28);
    let low = data.subrange(at + 28, at + 32);
    assert(data.subrange(at, at + 32) =~= high + low);
    law_big_endian_parts(high, low);
    lemma_zeros(high);
    assert(pow(256, 4) == 0x100000000) by {
        reveal_with_fuel(pow, 5);
    }
    let h = big_endian(high) as int;
    assert(h >= 1 ==> h * 0x100000000 >= 0x100000000);
    assert(big_endian(low) == low[0] * 0x1000000 + low[1] * 0x10000 + low[2] * 0x100 + low[3]) by {
        reveal_with_fuel(big_endian, 5);
        let three = low.drop_last();
        let two = three.drop_last();
        let one = two.drop_last();
        assert(one.drop_last().len() == 0);
        assert(big_endian(one) == low[0]);
        assert(big_endian(two) == low[0] * 256 + low[1]);
        assert(big_endian(three) == (low[0] * 256 + low[1]) * 256 + low[2]);
    }
    if forall|i: int| at <= i < at + 28 ==> #[trigger] data[i] == 0 {
        assert forall|i: int| 0 <= i < high.len() implies #[trigger] high[i] == 0 by {
            assert(high[i] == data[at + i]);
        }
    } else {
        let i = choose|i: int| at <= i < at + 28 && #[trigger] data[i] != 0;
        assert(high[i - at] == data[i]);
    }
}

/// Where a text lies is found.
proof fn lemma_text_lies(data: Seq<u8>)
    ensures
        forall|at: int, len: int| #[trigger]
            text_lies(data, at, len) ==> text_bytes(data) == Some(
                data.subrange(at + 32, at + 32 + len),
            ),
        text_bytes(data) is Some ==> exists|at: int, len: int| #[trigger] text_lies(data, at, len),
{
    if data.len() >= 32 {
        lemma_small(data, 0);
        let at = word_at(data, 0);
        if at < 0x100000000 && at + 32 <= data.len() {
            lemma_small(data, at);
            let len = word_at(data, at);
            if text_bytes(data) is Some {
                assert(text_lies(data, at, len));
            }
        }
    }
}

/// An answer that holds a text is read as that text, all of it, and nothing is logged of it.
pub proof fn law_text_answer(data: Seq<u8>, at: int, len: int, subject: Seq<char>)
    requires
        text_lies(data, at, len),
    ensures
        text_answer(Ok(data)) == text_of(data.subrange(at + 32, at + 32 + len)),
        text_lines(subject, Ok(data)) == Seq::<Seq<char>>::empty(),
{
    lemma_text_lies(data);
}

/// An answer that holds no text is read as an empty one, and a line says so.
pub proof fn law_no_text_answer(data: Seq<u8>, subject: Seq<char>)
    requires
        forall|at: int, len: int| !#[trigger] text_lies(data, at, len),
    ensures
        text_answer(Ok(data)) == Seq::<char>::empty(),
        text_lines(subject, Ok(data)) == seq![
            "Unable to decode output for "@ + subject + ": "@ + (
            "unable to decode output data: "@ + decoding_error(data)),
        ],
{
    lemma_text_lies(data);
}

/// A call that failed gives an empty text and zero, and a line says why.
pub proof fn law_failed_answer(error: ErrorView, subject: Seq<char>)
    ensures
        text_answer(Err(error)) == Seq::<char>::empty(),
        number_answer(Err(error)) == 0,
        text_lines(subject, Err(error)) == seq!["Error: "@ + error_text(error)],
        number_lines(subject, Err(error)) == seq!["Error: "@ + error_text(error)],
{
}

/// An answer of at least a word is read as the number in its first word; a shorter one as zero,
/// and a line says so.
pub proof fn law_number_answer(data: Seq<u8>, subject: Seq<char>)
    ensures
        data.len() >= 32 ==> number_answer(Ok(data)) == word_at(data, 0) && number_lines(
            subject,
            Ok(data),
        ) == Seq::<Seq<char>>::empty(),
        data.len() < 32 ==> number_answer(Ok(data)) == 0 && number_lines(subject, Ok(data)) == seq![
            "Unable to decode output for "@ + subject + ": "@ + (
            "unable to decode output data: "@ + decoding_error(data)),
        ],
{
}

/// Bytes that are valid UTF-8 are read as such.
pub proof fn law_text_of(bytes: Seq<u8>)
    ensures
        valid_utf8(bytes) ==> text_of(bytes) == decode_utf8(bytes),
        !valid_utf8(bytes) ==> text_of(bytes) == repaired_text(bytes),
{
}

/// A number below 2^32 is written as a word of 32 bytes that holds it.
pub proof fn law_word_of(n: nat)
    requires
        n < 0x100000000,
    ensures
        word_of(n).len() == 32,
        big_endian(word_of(n)) == n,
{
    let word = word_of(n);
    assert(word.subrange(0, 32) =~= word);
    lemma_small(word, 0);
    assert(forall|i: int| 0 <= i < 0 + 28 ==> word[i] == 0);
    assert(n / 0x1000000 < 0x100);
    assert(n == n / 0x1000000 * 0x1000000 + n / 0x10000 % 0x100 * 0x10000 + n / 0x100 % 0x100
        * 0x100 + n % 0x100);
}

/// On a platform with pointers of 64 bits every answer can be looked through for a text.
pub proof fn law_offsets_fit(data: Seq<u8>)
    requires
        usize::MAX >= 0x300000000,
    ensures
        text_offsets_fit(data),
{
    if data.len() >= 32 {
        let at = small_word(data, 0);
        assert(at is Some ==> 0 <= at->0 < 0x100000000);
        if at is Some && at->0 + 32 <= data.len() {
            let len = small_word(data, at->0);
            assert(len is Some ==> 0 <= len->0 < 0x100000000);
        }
    }
}

/// What calling a created contract with the four bytes `a`, `b`, `c`, `d` gives and logs.
pub open spec fn called(creation: CreationView, a: u8, b: u8, c: u8, d: u8, limit: nat) -> Option<
    Run,
> {
    execution(creation.address, creation.code, seq![a, b, c, d], creation.storage, limit)
}

/// A contract is asked for its name, its symbol and its decimals by three calls. Its name and its
/// symbol are the texts in the first two answers, its decimals the number in the third. The log
/// tells of the calls in this order, each followed by what there is to say of its answer. Nothing
/// is reported if a call does not come to an end, a text cannot be looked for, or the number takes
/// more than 64 bits.
pub proof fn law_processed(creation: CreationView, limit: nat)
    ensures
        ({
            let name = called(creation, 0x06, 0xfd, 0xde, 0x03, limit);
            let symbol = called(creation, 0x95, 0xd8, 0x9b, 0x41, limit);
            let decimals = called(creation, 0x3c, 0x13, 0x0d, 0x90, limit);
            match processed(creation, limit) {
                Some(p) => {
                    &&& name is Some && symbol is Some && decimals is Some
                    &&& p.contract.name == text_answer(name->0.outcome)
                    &&& p.contract.symbol == text_answer(symbol->0.outcome)
                    &&& p.contract.decimals == number_answer(decimals->0.outcome)
                    &&& p.log == name->0.log + text_lines("name"@, name->0.outcome)
                        + symbol->0.log + text_lines("symbol"@, symbol->0.outcome)
                        + decimals->0.log + number_lines("decimals"@, decimals->0.outcome)
                },
                None => {
                    ||| name is None
                    ||| symbol is None
                    ||| decimals is None
                    ||| (name->0.outcome matches Ok(data) && !text_offsets_fit(data))
                    ||| (symbol->0.outcome matches Ok(data) && !text_offsets_fit(data))
                    ||| (decimals->0.outcome matches Ok(data) && data.len() >= 32 && word_at(
                        data,
                        0,
                    ) > u64::MAX)
                },
            }
        }),
{
    reveal(processed);
    assert(NAME_CALL@ =~= seq![0x06u8, 0xfdu8, 0xdeu8, 0x03u8]);
    assert(SYMBOL_CALL@ =~= seq![0x95u8, 0xd8u8, 0x9bu8, 0x41u8]);
    assert(TOKEN_URI_CALL@ =~= seq![0x3cu8, 0x13u8, 0x0du8, 0x90u8]);
}

/// A contract that answers the question for its name with an encoded text has that text for a name,
/// all of it.
pub proof fn law_name_reported(
    creation: CreationView,
    limit: nat,
    bytes: Seq<u8>,
    padding: Seq<u8>,
)
    requires
        bytes.len() < 0x100000000,
        processed(creation, limit) is Some,
        called(creation, 0x06, 0xfd, 0xde, 0x03, limit)->0.outcome == Ok::<Seq<u8>, ErrorView>(
            encoded_text(bytes, padding),
        ),
    ensures
        processed(creation, limit)->0.contract.name == text_of(bytes),
        valid_utf8(bytes) ==> processed(creation, limit)->0.contract.name == decode_utf8(bytes),
{
    law_processed(creation, limit);
    lemma_encoded(bytes, padding);
}

/// A contract that answers the question for its symbol with an encoded text has that text for a
/// symbol, all of it.
pub proof fn law_symbol_reported(
    creation: CreationView,
    limit: nat,
    bytes: Seq<u8>,
    padding: Seq<u8>,
)
    requires
        bytes.len() < 0x100000000,
        processed(creation, limit) is Some,
        called(creation, 0x95, 0xd8, 0x9b, 0x41, limit)->0.outcome == Ok::<Seq<u8>, ErrorView>(
            encoded_text(bytes, padding),
        ),
    ensures
        processed(creation, limit)->0.contract.symbol == text_of(bytes),
        valid_utf8(bytes) ==> processed(creation, limit)->0.contract.symbol == decode_utf8(bytes),
{
    law_processed(creation, limit);
    lemma_encoded(bytes, padding);
}

/// A contract that answers the last question with at least a word has the number in the first word
/// for decimals.
pub proof fn law_decimals_reported(creation: CreationView, limit: nat, data: Seq<u8>)
    requires
        data.len() >= 32,
        processed(creation, limit) is Some,
        called(creation, 0x3c, 0x13, 0x0d, 0x90, limit)->0.outcome == Ok::<Seq<u8>, ErrorView>(
            data,
        ),
    ensures
        processed(creation, limit)->0.contract.decimals == word_at(data, 0),
{
    law_processed(creation, limit);
}

/// An encoded text is read as that text.
proof fn lemma_encoded(bytes: Seq<u8>, padding: Seq<u8>)
    requires
        bytes.len() < 0x100000000,
    ensures
        text_answer(Ok(encoded_text(bytes, padding))) == text_of(bytes),
{
    let data = encoded_text(bytes, padding);
    let len = bytes.len() as int;
    law_word_of(32);
    law_word_of(bytes.len());
    assert(data.subrange(0, 32) =~= word_of(32));
    assert(data.subrange(32, 64) =~= word_of(bytes.len()));
    assert(text_lies(data, 32, len));
    law_text_answer(data, 32, len, seq![]);
    assert(data.subrange(64, 64 + len) =~= bytes);
}

/// The n-th report is on the n-th created contract, and there is one if every contract answers.
pub proof fn law_reports(creations: Seq<CreationView>, limit: nat)
    ensures
        processed_all(creations, limit) is Some <==> forall|n: int|
            0 <= n < creations.len() ==> processed(#[trigger] creations[n], limit) is Some,
        processed_all(creations, limit) matches Some(all) ==> all.contracts.len() == creations.len()
            && forall|n: int|
            0 <= n < creations.len() ==> #[trigger] all.contracts[n] == processed(
                creations[n],
                limit,
            )->0.contract,
    decreases creations.len(),
{
    if creations.len() > 0 {
        let front = creations.drop_last();
        law_reports(front, limit);
        assert(creations.last() == creations[creations.len() - 1]);
        if forall|n: int|
            0 <= n < creations.len() ==> processed(#[trigger] creations[n], limit) is Some {
            assert forall|n: int| 0 <= n < front.len() implies processed(
                #[trigger] front[n],
                limit,
            ) is Some by {
                assert(front[n] == creations[n]);
            }
        }
        if processed_all(creations, limit) is Some {
            assert forall|n: int| 0 <= n < creations.len() implies processed(
                #[trigger] creations[n],
                limit,
            ) is Some by {
                if n < front.len() {
                    assert(front[n] == creations[n]);
                }
            }
            let all = processed_all(creations, limit)->0;
            assert forall|n: int| 0 <= n < creations.len() implies #[trigger] all.contracts[n]
                == processed(creations[n], limit)->0.contract by {
                if n < front.len() {
                    assert(front[n] == creations[n]);
                    assert(all.contracts[n] == processed_all(front, limit)->0.contracts[n]);
                }
            }
        }
    }
}

/// The log of the reports is that of each contract, one after the other.
pub proof fn law_report_log(creations: Seq<CreationView>, limit: nat)
    requires
        processed_all(creations, limit) is Some,
    ensures
        processed_all(creations, limit)->0.log == Seq::new(
            creations.len(),
            |n: int| processed(creations[n], limit)->0.log,
        ).flatten_alt(),
    decreases creations.len(),
{
    let logs = Seq::new(creations.len(), |n: int| processed(creations[n], limit)->0.log);
    if creations.len() > 0 {
        let front = creations.drop_last();
        law_report_log(front, limit);
        assert(logs.drop_last() =~= Seq::new(
            front.len(),
            |n: int| processed(front[n], limit)->0.log,
        ));
    }
}

/// Contracts are seen item by item, in order.
pub proof fn law_contract_views(contracts: Seq<Contract>)
    ensures
        contract_views(contracts).len() == contracts.len(),
        forall|i: int|
            0 <= i < contracts.len() ==> #[trigger] contract_views(contracts)[i]
                == contracts[i]@,
{
}

/// A block that is looked through is announced with its parameters.
pub proof fn law_blocks_line(params: Seq<char>)
    ensures
        blocks_line(params) == "map_blocks: "@ + params,
{
}

} // verus!
