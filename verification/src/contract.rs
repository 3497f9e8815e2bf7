//! Asking a freshly created contract about itself.

use crate::abi::{
    text_fits, text_offsets_fit, text_output, uint_output, word_to_u64, Name, Symbol, TokenUri,
    NAME_CALL, SYMBOL_CALL, TOKEN_URI_CALL,
};
use crate::execution::{
    error_text, execute_on, execute_within, execution, law_execution_stable, outcome,
    ExecutionError, Outcome, Run,
};
use crate::schema::{Contract, ContractView};
use crate::storage::Storage;
use crate::text::{big_endian, lines, log_line, read_big_endian};
use std::rc::Rc;
use vstd::prelude::*;
use vstd::slice::slice_subrange;

verus! {

/// A contract that was created: where, with what code, and with what in its storage.
pub struct ContractCreation {
    pub address: Vec<u8>,
    pub code: Vec<u8>,
    pub storage_changes: Storage,
}

/// The contents of a [`ContractCreation`].
pub struct CreationView {
    pub address: Seq<u8>,
    pub code: Seq<u8>,
    pub storage: Map<Seq<u8>, Seq<u8>>,
}

impl View for ContractCreation {
    type V = CreationView;

    open spec fn view(&self) -> CreationView {
        CreationView {
            address: self.address@,
            code: self.code@,
            storage: self.storage_changes@,
        }
    }
}

/// The contents of creations.
pub open spec fn creation_views(creations: Seq<ContractCreation>) -> Seq<CreationView> {
    creations.map_values(|c: ContractCreation| c@)
}

/// The contents of contracts.
pub open spec fn contract_views(contracts: Seq<Contract>) -> Seq<ContractView> {
    contracts.map_values(|c: Contract| c@)
}

/// What calling a created contract with `call` gives and logs, if the call comes to a proper end
/// within `limit` instructions.
pub open spec fn asked(creation: CreationView, call: Seq<u8>, limit: nat) -> Option<Run> {
    execution(creation.address, creation.code, call, creation.storage, limit)
}

/// The text in an answer, or nothing where there is none.
pub open spec fn text_answer(answer: Outcome) -> Seq<char> {
    match answer {
        Ok(data) => match text_output(data) {
            Ok(text) => text,
            Err(_) => seq![],
        },
        Err(_) => seq![],
    }
}

/// What is logged of an answer that should hold a text.
pub open spec fn text_lines(subject: Seq<char>, answer: Outcome) -> Seq<Seq<char>> {
    match answer {
        Ok(data) => match text_output(data) {
            Ok(_) => seq![],
            Err(error) => seq!["Unable to decode output for "@ + subject + ": "@ + error],
        },
        Err(error) => seq!["Error: "@ + error_text(error)],
    }
}

/// Whether an answer that should hold a text can be read on this platform.
pub open spec fn text_readable(answer: Outcome) -> bool {
    answer matches Ok(data) ==> text_offsets_fit(data)
}

/// The number in an answer, or zero where there is none.
pub open spec fn number_answer(answer: Outcome) -> nat {
    match answer {
        Ok(data) => match uint_output(data) {
            Ok(word) => big_endian(word),
            Err(_) => 0,
        },
        Err(_) => 0,
    }
}

/// What is logged of an answer that should hold a number.
pub open spec fn number_lines(subject: Seq<char>, answer: Outcome) -> Seq<Seq<char>> {
    match answer {
        Ok(data) => match uint_output(data) {
            Ok(_) => seq![],
            Err(error) => seq!["Unable to decode output for "@ + subject + ": "@ + error],
        },
        Err(error) => seq!["Error: "@ + error_text(error)],
    }
}

/// What a contract says of itself, and what is logged of it.
pub struct Processed {
    pub contract: ContractView,
    pub log: Seq<Seq<char>>,
}

/// What a created contract says of itself, if each question is properly answered within `limit`
/// instructions, and the number in the last answer takes no more than 64 bits.
#[verifier::opaque]
pub open spec fn processed(creation: CreationView, limit: nat) -> Option<Processed> {
    let name = asked(creation, NAME_CALL@, limit);
    let symbol = asked(creation, SYMBOL_CALL@, limit);
    let decimals = asked(creation, TOKEN_URI_CALL@, limit);
    if name is Some && symbol is Some && decimals is Some && text_readable(name->0.outcome)
        && text_readable(symbol->0.outcome) && number_answer(decimals->0.outcome) <= u64::MAX {
        Some(
            Processed {
                contract: ContractView {
                    name: text_answer(name->0.outcome),
                    symbol: text_answer(symbol->0.outcome),
                    decimals: number_answer(decimals->0.outcome) as u64,
                },
                log: name->0.log + text_lines("name"@, name->0.outcome) + symbol->0.log
                    + text_lines("symbol"@, symbol->0.outcome) + decimals->0.log + number_lines(
                    "decimals"@,
                    decimals->0.outcome,
                ),
            },
        )
    } else {
        None
    }
}

/// What a contract says of itself does not depend on how long its calls are followed, once they
/// have ended.
pub proof fn law_processed_stable(creation: CreationView, fewer: nat, more: nat)
    requires
        fewer <= more,
        processed(creation, fewer) is Some,
    ensures
        processed(creation, more) == processed(creation, fewer),
{
    reveal(processed);
    let CreationView { address, code, storage } = creation;
    law_execution_stable(address, code, NAME_CALL@, storage, fewer, more);
    law_execution_stable(address, code, SYMBOL_CALL@, storage, fewer, more);
    law_execution_stable(address, code, TOKEN_URI_CALL@, storage, fewer, more);
}

/// Writes what is logged of an answer that cannot be decoded.
fn undecodable(subject: &str, error: &str) -> (r: String)
    ensures
        r@ == "Unable to decode output for "@ + subject@ + ": "@ + error@,
{
    let mut r = "Unable to decode output for ".to_owned();
    r.append(subject);
    r.append(": ");
    r.append(error);
    r
}

/// Writes what is logged of a call that failed.
fn failed(error: &ExecutionError) -> (r: String)
    ensures
        r@ == "Error: "@ + error_text(error@),
{
    let mut r = "Error: ".to_owned();
    r.append(error.message().as_str());
    r
}

/// Reads the contract's name out of an answer.
pub fn read_name(answer: Result<Vec<u8>, ExecutionError>, log: &mut Vec<String>) -> (r: String)
    requires
        text_readable(outcome(answer)),
    ensures
        r@ == text_answer(outcome(answer)),
        lines(final(log)@) == lines(old(log)@) + text_lines("name"@, outcome(answer)),
{
    let ghost expected = lines(log@) + text_lines("name"@, outcome(answer));
    match answer {
        Ok(data) => match Name::output(data.as_slice()) {
            Ok(text) => {
                assert(lines(log@) =~= expected);
                text
            },
            Err(error) => {
                log_line(log, undecodable("name", error.as_str()));
                assert(lines(log@) =~= expected);
                String::new()
            },
        },
        Err(error) => {
            log_line(log, failed(&error));
            assert(lines(log@) =~= expected);
            String::new()
        },
    }
}

/// Reads the contract's symbol out of an answer.
pub fn read_symbol(answer: Result<Vec<u8>, ExecutionError>, log: &mut Vec<String>) -> (r: String)
    requires
        text_readable(outcome(answer)),
    ensures
        r@ == text_answer(outcome(answer)),
        lines(final(log)@) == lines(old(log)@) + text_lines("symbol"@, outcome(answer)),
{
    let ghost expected = lines(log@) + text_lines("symbol"@, outcome(answer));
    match answer {
        Ok(data) => match Symbol::output(data.as_slice()) {
            Ok(text) => {
                assert(lines(log@) =~= expected);
                text
            },
            Err(error) => {
                log_line(log, undecodable("symbol", error.as_str()));
                assert(lines(log@) =~= expected);
                String::new()
            },
        },
        Err(error) => {
            log_line(log, failed(&error));
            assert(lines(log@) =~= expected);
            String::new()
        },
    }
}

/// Reads the contract's decimals out of an answer.
pub fn read_decimals(answer: Result<Vec<u8>, ExecutionError>, log: &mut Vec<String>) -> (r: u64)
    requires
        number_answer(outcome(answer)) <= u64::MAX,
    ensures
        r == number_answer(outcome(answer)),
        lines(final(log)@) == lines(old(log)@) + number_lines("decimals"@, outcome(answer)),
{
    let ghost expected = lines(log@) + number_lines("decimals"@, outcome(answer));
    match answer {
        Ok(data) => match TokenUri::output(data.as_slice()) {
            Ok(word) => {
                assert(lines(log@) =~= expected);
                word_to_u64(&word)
            },
            Err(error) => {
                log_line(log, undecodable("decimals", error.as_str()));
                assert(lines(log@) =~= expected);
                0
            },
        },
        Err(error) => {
            log_line(log, failed(&error));
            assert(lines(log@) =~= expected);
            0
        },
    }
}

/// What a contract says of itself is put together from its three answers.
proof fn lemma_processed_parts(creation: CreationView, limit: nat)
    requires
        processed(creation, limit) is Some,
    ensures
        asked(creation, NAME_CALL@, limit) is Some,
        asked(creation, SYMBOL_CALL@, limit) is Some,
        asked(creation, TOKEN_URI_CALL@, limit) is Some,
        ({
            let name = asked(creation, NAME_CALL@, limit)->0;
            let symbol = asked(creation, SYMBOL_CALL@, limit)->0;
            let decimals = asked(creation, TOKEN_URI_CALL@, limit)->0;
            let p = processed(creation, limit)->0;
            &&& text_readable(name.outcome)
            &&& text_readable(symbol.outcome)
            &&& number_answer(decimals.outcome) <= u64::MAX
            &&& p.contract.name == text_answer(name.outcome)
            &&& p.contract.symbol == text_answer(symbol.outcome)
            &&& p.contract.decimals == number_answer(decimals.outcome)
            &&& p.log == name.log + text_lines("name"@, name.outcome) + symbol.log + text_lines(
                "symbol"@,
                symbol.outcome,
            ) + decimals.log + number_lines("decimals"@, decimals.outcome)
        }),
{
    reveal(processed);
}

/// What a contract says of itself is the same under every limit within which it answers.
proof fn lemma_processed_unique(creation: CreationView, a: nat, b: nat)
    requires
        processed(creation, a) is Some,
        processed(creation, b) is Some,
    ensures
        processed(creation, a) == processed(creation, b),
{
    if a <= b {
        law_processed_stable(creation, a, b);
    } else {
        law_processed_stable(creation, b, a);
    }
}

/// Lines that are added one group after the other stand behind what was there.
proof fn lemma_six_groups(
    start: Seq<Seq<char>>,
    a: Seq<Seq<char>>,
    b: Seq<Seq<char>>,
    c: Seq<Seq<char>>,
    d: Seq<Seq<char>>,
    e: Seq<Seq<char>>,
    f: Seq<Seq<char>>,
)
    ensures
        start + a + b + c + d + e + f == start + (a + b + c + d + e + f),
{
    assert(start + a + b + c + d + e + f =~= start + (a + b + c + d + e + f));
}

/// Asks a created contract for its name, its symbol and its decimals. What it does not properly
/// say is left at its default.
///
/// The contract has to answer each question: see [`process_contract_within`] where that is not
/// known.
pub fn process_contract(contract_creation: ContractCreation, log: &mut Vec<String>) -> (r: Option<
    Contract,
>)
    requires
        exists|limit: nat| processed(contract_creation@, limit) is Some,
    ensures
        forall|limit: nat|
            #![trigger processed(contract_creation@, limit)]
            processed(contract_creation@, limit) matches Some(p) ==> {
                &&& r matches Some(contract) && contract@ == p.contract
                &&& lines(final(log)@) == lines(old(log)@) + p.log
            },
{
    let ghost creation = contract_creation@;
    let ghost enough = choose|limit: nat| processed(creation, limit) is Some;
    let ghost name_run = asked(creation, NAME_CALL@, enough)->0;
    let ghost symbol_run = asked(creation, SYMBOL_CALL@, enough)->0;
    let ghost decimals_run = asked(creation, TOKEN_URI_CALL@, enough)->0;
    proof {
        lemma_processed_parts(creation, enough);
    }

    let mut contract = Contract::default();
    let code = Rc::new(contract_creation.code);

    let answer = execute_on(
        &contract_creation.address,
        code.clone(),
        Name {  }.encode(),
        &contract_creation.storage_changes,
        log,
    );
    contract.name = read_name(answer, log);

    let answer = execute_on(
        &contract_creation.address,
        code.clone(),
        Symbol {  }.encode(),
        &contract_creation.storage_changes,
        log,
    );
    contract.symbol = read_symbol(answer, log);

    let answer = execute_on(
        &contract_creation.address,
        code.clone(),
        TokenUri {  }.encode(),
        &contract_creation.storage_changes,
        log,
    );
    contract.decimals = read_decimals(answer, log);

    proof {
        lemma_six_groups(
            lines(old(log)@),
            name_run.log,
            text_lines("name"@, name_run.outcome),
            symbol_run.log,
            text_lines("symbol"@, symbol_run.outcome),
            decimals_run.log,
            number_lines("decimals"@, decimals_run.outcome),
        );
        assert forall|limit: nat| processed(creation, limit) is Some implies processed(
            creation,
            limit,
        ) == processed(creation, enough) by {
            lemma_processed_unique(creation, limit, enough);
        }
    }
    Some(contract)
}

/// Tells whether an answer that should hold a text can be read on this platform.
fn can_read_text(answer: &Result<Vec<u8>, ExecutionError>) -> (r: bool)
    ensures
        r == text_readable(outcome(*answer)),
{
    match answer {
        Ok(data) => text_fits(data.as_slice()),
        Err(_) => true,
    }
}

/// Tells whether the number in an answer takes no more than 64 bits.
fn can_read_number(answer: &Result<Vec<u8>, ExecutionError>) -> (r: bool)
    ensures
        r == (number_answer(outcome(*answer)) <= u64::MAX),
{
    match answer {
        Ok(data) => {
            if data.len() < 32 {
                return true;
            }
            read_big_endian(slice_subrange(data.as_slice(), 0, 32), u64::MAX).is_some()
        },
        Err(_) => true,
    }
}

/// Does what [`process_contract`] does if the contract answers each question within `limit`
/// instructions. Otherwise it gives nothing and logs nothing.
pub fn process_contract_within(
    contract_creation: ContractCreation,
    limit: u64,
    log: &mut Vec<String>,
) -> (r: Option<Contract>)
    ensures
        match r {
            Some(contract) => processed(contract_creation@, limit as nat) matches Some(p)
                && contract@ == p.contract && lines(final(log)@) == lines(old(log)@) + p.log,
            None => processed(contract_creation@, limit as nat) is None && final(log)@ == old(
                log,
            )@,
        },
{
    proof {
        reveal(processed);
    }
    let ghost creation = contract_creation@;
    let mut contract = Contract::default();
    let mut told: Vec<String> = Vec::new();
    let code = Rc::new(contract_creation.code);
    let address = &contract_creation.address;
    let storage = &contract_creation.storage_changes;

    match execute_within(address, code.clone(), Name {  }.encode(), storage, limit, &mut told) {
        Some(answer) => {
            if !can_read_text(&answer) {
                return None;
            }
            contract.name = read_name(answer, &mut told);
        },
        None => {
            return None;
        },
    }
    match execute_within(address, code.clone(), Symbol {  }.encode(), storage, limit, &mut told) {
        Some(answer) => {
            if !can_read_text(&answer) {
                return None;
            }
            contract.symbol = read_symbol(answer, &mut told);
        },
        None => {
            return None;
        },
    }
    match execute_within(
        address,
        code.clone(),
        TokenUri {  }.encode(),
        storage,
        limit,
        &mut told,
    ) {
        Some(answer) => {
            if !can_read_number(&answer) {
                return None;
            }
            contract.decimals = read_decimals(answer, &mut told);
        },
        None => {
            return None;
        },
    }

    let ghost all = lines(told@);
    assert(all =~= processed(creation, limit as nat)->0.log);
    log.append(&mut told);
    assert(lines(log@) =~= lines(old(log)@) + all);
    Some(contract)
}

/// What contracts say of themselves, and what is logged of it.
pub struct ProcessedAll {
    pub contracts: Seq<ContractView>,
    pub log: Seq<Seq<char>>,
}

impl ProcessedAll {
    /// Nothing said and nothing logged.
    pub open spec fn nothing() -> ProcessedAll {
        ProcessedAll { contracts: seq![], log: seq![] }
    }

    /// With one more contract at the end.
    pub open spec fn with(self, last: Processed) -> ProcessedAll {
        ProcessedAll { contracts: self.contracts.push(last.contract), log: self.log + last.log }
    }

    /// With other contracts after these.
    pub open spec fn followed_by(self, other: ProcessedAll) -> ProcessedAll {
        ProcessedAll { contracts: self.contracts + other.contracts, log: self.log + other.log }
    }
}

/// What created contracts say of themselves, one after the other, if each of them answers within
/// `limit` instructions for each question.
pub open spec fn processed_all(creations: Seq<CreationView>, limit: nat) -> Option<ProcessedAll>
    decreases creations.len(),
{
    if creations.len() == 0 {
        Some(ProcessedAll::nothing())
    } else {
        match (
            processed_all(creations.drop_last(), limit),
            processed(creations.last(), limit),
        ) {
            (Some(earlier), Some(last)) => Some(earlier.with(last)),
            _ => None,
        }
    }
}

/// What contracts say of themselves does not depend on how long their calls are followed, once
/// they have ended.
pub proof fn law_processed_all_stable(creations: Seq<CreationView>, fewer: nat, more: nat)
    requires
        fewer <= more,
        processed_all(creations, fewer) is Some,
    ensures
        processed_all(creations, more) == processed_all(creations, fewer),
    decreases creations.len(),
{
    if creations.len() > 0 {
        law_processed_all_stable(creations.drop_last(), fewer, more);
        law_processed_stable(creations.last(), fewer, more);
    }
}

/// There is one answer for each contract that was created.
pub proof fn law_one_answer_each(creations: Seq<CreationView>, limit: nat)
    requires
        processed_all(creations, limit) is Some,
    ensures
        processed_all(creations, limit)->0.contracts.len() == creations.len(),
    decreases creations.len(),
{
    if creations.len() > 0 {
        law_one_answer_each(creations.drop_last(), limit);
    }
}

/// Nothing comes after the contracts where no others follow.
proof fn lemma_followed_by_nothing(all: ProcessedAll)
    ensures
        all.followed_by(ProcessedAll::nothing()) == all,
{
    assert(all.contracts + Seq::<ContractView>::empty() =~= all.contracts);
    assert(all.log + Seq::<Seq<char>>::empty() =~= all.log);
}

/// One more contract after the others is one more after all of them.
proof fn lemma_followed_by_with(first: ProcessedAll, second: ProcessedAll, last: Processed)
    ensures
        first.followed_by(second.with(last)) == first.followed_by(second).with(last),
{
    assert(first.contracts + second.contracts.push(last.contract) =~= (first.contracts
        + second.contracts).push(last.contract));
    assert(first.log + (second.log + last.log) =~= (first.log + second.log) + last.log);
}

/// What a contract says of itself, and what is logged of it, does not depend on the others.
pub proof fn law_processed_in_order(
    first: Seq<CreationView>,
    second: Seq<CreationView>,
    limit: nat,
)
    requires
        processed_all(first, limit) is Some,
        processed_all(second, limit) is Some,
    ensures
        processed_all(first + second, limit) == Some(
            processed_all(first, limit)->0.followed_by(processed_all(second, limit)->0),
        ),
    decreases second.len(),
{
    let a = processed_all(first, limit)->0;
    if second.len() == 0 {
        assert(first + second =~= first);
        lemma_followed_by_nothing(a);
    } else {
        let front = second.drop_last();
        assert((first + second).drop_last() =~= first + front);
        assert((first + second).last() == second.last());
        law_processed_in_order(first, front, limit);
        lemma_followed_by_with(
            a,
            processed_all(front, limit)->0,
            processed(second.last(), limit)->0,
        );
    }
}

/// Where all contracts answer, each of them does, and so do the ones up to it.
proof fn lemma_processed_prefix(creations: Seq<CreationView>, limit: nat, n: int)
    requires
        processed_all(creations, limit) is Some,
        0 <= n < creations.len(),
    ensures
        processed_all(creations.take(n), limit) is Some,
        processed(creations[n], limit) is Some,
    decreases creations.len(),
{
    let front = creations.drop_last();
    if n == front.len() {
        assert(creations.take(n) =~= front);
    } else {
        lemma_processed_prefix(front, limit, n);
        assert(front.take(n) =~= creations.take(n));
    }
}

/// What the contracts up to one say is what the ones before it say, and what it says.
proof fn lemma_processed_next(creations: Seq<CreationView>, limit: nat, n: int)
    requires
        0 <= n < creations.len(),
    ensures
        processed_all(creations.take(n + 1), limit) == match (
            processed_all(creations.take(n), limit),
            processed(creations[n], limit),
        ) {
            (Some(earlier), Some(last)) => Some(earlier.with(last)),
            _ => None,
        },
{
    assert(creations.take(n + 1).drop_last() =~= creations.take(n));
    assert(creations.take(n + 1).last() == creations[n]);
}

/// Taking the first of the waiting creations leaves the ones after it waiting.
proof fn lemma_next_waiting(
    all: Seq<CreationView>,
    waiting: Seq<ContractCreation>,
    i: int,
)
    requires
        0 <= i < all.len(),
        creation_views(waiting) == all.skip(i),
    ensures
        waiting.len() > 0,
        waiting[0]@ == all[i],
        creation_views(waiting.remove(0)) == all.skip(i + 1),
{
    assert(creation_views(waiting).len() == waiting.len());
    assert(creation_views(waiting)[0] == waiting[0]@);
    let rest = waiting.remove(0);
    assert forall|k: int| 0 <= k < rest.len() implies creation_views(rest)[k] == all.skip(i + 1)[k]
        by {
        assert(rest[k] == waiting[k + 1]);
        assert(creation_views(waiting)[k + 1] == all.skip(i)[k + 1]);
    }
    assert(creation_views(rest) =~= all.skip(i + 1));
}

/// With one more contract, its views and its log lines stand at the end.
proof fn lemma_told(
    earlier: ProcessedAll,
    told: Processed,
    before: Seq<Contract>,
    contract: Contract,
    log_start: Seq<Seq<char>>,
)
    requires
        contract_views(before) == earlier.contracts,
        contract@ == told.contract,
    ensures
        contract_views(before.push(contract)) == earlier.with(told).contracts,
        log_start + earlier.log + told.log == log_start + earlier.with(told).log,
{
    assert(contract_views(before.push(contract)) =~= contract_views(before).push(contract@));
    assert(log_start + earlier.log + told.log =~= log_start + (earlier.log + told.log));
}

/// Asks created contracts about themselves, one after the other.
///
/// Each of them has to answer: see [`process_contracts_within`] where that is not known.
pub fn process_contracts(creations: Vec<ContractCreation>, log: &mut Vec<String>) -> (r: Vec<
    Contract,
>)
    requires
        exists|limit: nat| processed_all(creation_views(creations@), limit) is Some,
    ensures
        forall|limit: nat|
            #![trigger processed_all(creation_views(creations@), limit)]
            processed_all(creation_views(creations@), limit) matches Some(p) ==> {
                &&& contract_views(r@) == p.contracts
                &&& lines(final(log)@) == lines(old(log)@) + p.log
            },
{
    let ghost all = creation_views(creations@);
    let ghost enough = choose|limit: nat| processed_all(all, limit) is Some;
    let ghost log_start = lines(log@);
    let total: usize = creations.len();
    let mut rest = creations;
    let mut r: Vec<Contract> = Vec::new();
    let mut i: usize = 0;
    proof {
        assert(all.take(0) =~= seq![]);
        assert(all.skip(0) =~= all);
        assert(contract_views(r@) =~= seq![]);
        assert(lines(log@) =~= log_start + seq![]);
    }
    while i < total
        invariant
            i <= total,
            total == all.len(),
            creation_views(rest@) == all.skip(i as int),
            processed_all(all, enough) is Some,
            processed_all(all.take(i as int), enough) is Some,
            contract_views(r@) == processed_all(all.take(i as int), enough)->0.contracts,
            lines(log@) == log_start + processed_all(all.take(i as int), enough)->0.log,
        decreases total - i,
    {
        proof {
            lemma_next_waiting(all, rest@, i as int);
            lemma_processed_prefix(all, enough, i as int);
            lemma_processed_next(all, enough, i as int);
        }
        let ghost earlier = processed_all(all.take(i as int), enough)->0;
        let ghost told = processed(all[i as int], enough)->0;
        let next = rest.remove(0);
        match process_contract(next, log) {
            Some(contract) => {
                proof {
                    lemma_told(earlier, told, r@, contract, log_start);
                }
                r.push(contract);
            },
            None => {
                assert(false);
            },
        }
        i = i + 1;
    }
    proof {
        assert(all.take(i as int) =~= all);
        assert forall|limit: nat| processed_all(all, limit) is Some implies processed_all(
            all,
            limit,
        ) == processed_all(all, enough) by {
            if limit <= enough {
                law_processed_all_stable(all, limit, enough);
            } else {
                law_processed_all_stable(all, enough, limit);
            }
        }
    }
    r
}

/// Does what [`process_contracts`] does if each contract answers within `limit` instructions for
/// each question. Otherwise it gives nothing and logs nothing.
pub fn process_contracts_within(
    creations: Vec<ContractCreation>,
    limit: u64,
    log: &mut Vec<String>,
) -> (r: Option<Vec<Contract>>)
    ensures
        match r {
            Some(contracts) => processed_all(creation_views(creations@), limit as nat) matches Some(
                p,
            ) && contract_views(contracts@) == p.contracts && lines(final(log)@) == lines(
                old(log)@,
            ) + p.log,
            None => processed_all(creation_views(creations@), limit as nat) is None && final(log)@
                == old(log)@,
        },
{
    let ghost all = creation_views(creations@);
    let ghost nothing: Seq<Seq<char>> = seq![];
    let total: usize = creations.len();
    let mut rest = creations;
    let mut told_lines: Vec<String> = Vec::new();
    let mut r: Vec<Contract> = Vec::new();
    let mut i: usize = 0;
    proof {
        assert(all.take(0) =~= seq![]);
        assert(all.skip(0) =~= all);
        assert(contract_views(r@) =~= seq![]);
        assert(lines(told_lines@) =~= nothing + seq![]);
    }
    while i < total
        invariant
            i <= total,
            total == all.len(),
            all == creation_views(creations@),
            creation_views(rest@) == all.skip(i as int),
            processed_all(all.take(i as int), limit as nat) is Some,
            contract_views(r@) == processed_all(all.take(i as int), limit as nat)->0.contracts,
            lines(told_lines@) == nothing + processed_all(
                all.take(i as int),
                limit as nat,
            )->0.log,
            log@ == old(log)@,
        decreases total - i,
    {
        proof {
            lemma_next_waiting(all, rest@, i as int);
            lemma_processed_next(all, limit as nat, i as int);
            if processed_all(all, limit as nat) is Some {
                lemma_processed_prefix(all, limit as nat, i as int);
            }
        }
        let ghost earlier = processed_all(all.take(i as int), limit as nat)->0;
        let ghost told = processed(all[i as int], limit as nat)->0;
        let next = rest.remove(0);
        match process_contract_within(next, limit, &mut told_lines) {
            Some(contract) => {
                proof {
                    lemma_told(earlier, told, r@, contract, nothing);
                }
                r.push(contract);
            },
            None => {
                return None;
            },
        }
        i = i + 1;
    }
    assert(all.take(i as int) =~= all);
    let ghost told_all = lines(told_lines@);
    assert(told_all =~= processed_all(all, limit as nat)->0.log);
    log.append(&mut told_lines);
    assert(lines(log@) =~= lines(old(log)@) + told_all);
    Some(r)
}

} // verus!
