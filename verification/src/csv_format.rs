//! The CSV-facing data formats, verified end to end: the record shape
//! read from the input, its conversion to a typed [`TransactionRecord`],
//! and the rendering of the final account snapshot.
//!
//! Amounts are decimals with up to four fractional digits. Parsing and
//! rendering are specified against a character-level grammar
//! ([`valid_amount`], [`amount_str`]) and proved exact.

use vstd::prelude::*;
use vstd::string::StringExecFns;
use vstd::string::StrSliceExecFns;

use crate::account::Account;
use crate::transaction::{TransactionRecord, TransactionType};

verus! {

/// Whitespace as trimmed from amount fields.
pub open spec fn is_space(c: char) -> bool {
    c == ' ' || c == '\t' || c == '\r' || c == '\n'
}

/// A decimal digit.
pub open spec fn is_digit(c: char) -> bool {
    48 <= c as u32 <= 57
}

/// The numeric value of a decimal digit.
pub open spec fn digit_val(c: char) -> nat {
    (c as u32 - 48) as nat
}

/// Every character of `s` is a decimal digit.
pub open spec fn all_digits(s: Seq<char>) -> bool {
    forall|i: int| 0 <= i < s.len() ==> is_digit(#[trigger] s[i])
}

/// The value of a string of decimal digits, most significant first.
pub open spec fn digits_val(s: Seq<char>) -> nat
    decreases s.len(),
{
    if s.len() == 0 {
        0
    } else {
        digits_val(s.drop_last()) * 10 + digit_val(s.last())
    }
}

/// Ten to the `n`.
pub open spec fn pow10(n: nat) -> nat
    decreases n,
{
    if n == 0 {
        1
    } else {
        10 * pow10((n - 1) as nat)
    }
}

/// The concrete values of the small powers of ten the amount grammar
/// uses.
proof fn lemma_pow10_small()
    ensures
        pow10(0) == 1,
        pow10(1) == 10,
        pow10(2) == 100,
        pow10(3) == 1000,
        pow10(4) == 10000,
{
    assert(pow10(0) == 1);
    assert(pow10(1) == 10);
    assert(pow10(2) == 100);
    assert(pow10(3) == 1000);
    assert(pow10(4) == 10000);
}

/// `s` with leading whitespace removed.
pub open spec fn trim_front(s: Seq<char>) -> Seq<char>
    decreases s.len(),
{
    if s.len() > 0 && is_space(s[0]) {
        trim_front(s.drop_first())
    } else {
        s
    }
}

/// `s` with trailing whitespace removed.
pub open spec fn trim_back(s: Seq<char>) -> Seq<char>
    decreases s.len(),
{
    if s.len() > 0 && is_space(s.last()) {
        trim_back(s.drop_last())
    } else {
        s
    }
}

/// `s` with surrounding whitespace removed.
pub open spec fn spec_trim(s: Seq<char>) -> Seq<char> {
    trim_back(trim_front(s))
}

/// The index of the first `'.'` in `s`, or `s.len()` where there is
/// none.
pub open spec fn first_dot(s: Seq<char>) -> int
    decreases s.len(),
{
    if s.len() == 0 {
        0
    } else if s[0] == '.' {
        0
    } else {
        1 + first_dot(s.drop_first())
    }
}

/// The integer part of an amount string: everything before the first
/// dot.
pub open spec fn int_part(s: Seq<char>) -> Seq<char> {
    s.take(first_dot(s))
}

/// The fractional part of an amount string: everything after the first
/// dot, empty where there is no dot.
pub open spec fn frac_part(s: Seq<char>) -> Seq<char> {
    if first_dot(s) < s.len() {
        s.skip(first_dot(s) + 1)
    } else {
        Seq::empty()
    }
}

/// The amount grammar: one or more integer digits, optionally followed
/// by a dot and up to four fractional digits.
pub open spec fn valid_amount(s: Seq<char>) -> bool {
    &&& int_part(s).len() >= 1
    &&& all_digits(int_part(s))
    &&& all_digits(frac_part(s))
    &&& frac_part(s).len() <= 4
}

/// The value of an amount string in ten-thousandths.
pub open spec fn amount_value(s: Seq<char>) -> nat {
    digits_val(int_part(s)) * 10000 + digits_val(frac_part(s)) * pow10(
        (4 - frac_part(s).len()) as nat,
    )
}

/// What parsing an amount string yields: its value in ten-thousandths,
/// or nothing where the string is outside the grammar or its value
/// outside the balance range.
pub open spec fn spec_parse_amount(s: Seq<char>) -> Option<u64> {
    if valid_amount(s) && amount_value(s) <= u64::MAX {
        Some(amount_value(s) as u64)
    } else {
        None
    }
}

/// `first_dot` is the unique dot-free prefix length.
proof fn lemma_first_dot_at(s: Seq<char>, k: int)
    requires
        0 <= k <= s.len(),
        forall|j: int| 0 <= j < k ==> s[j] != '.',
        k < s.len() ==> s[k] == '.',
    ensures
        first_dot(s) == k,
    decreases s.len(),
{
    if s.len() > 0 && s[0] != '.' {
        assert(k >= 1);
        lemma_first_dot_at(s.drop_first(), k - 1);
    }
}

/// Appending digits can only grow the value of a digit string.
proof fn lemma_digits_val_prefix(s: Seq<char>, a: int, b: int)
    requires
        0 <= a <= b <= s.len(),
    ensures
        digits_val(s.take(a)) <= digits_val(s.take(b)),
    decreases b - a,
{
    if a < b {
        lemma_digits_val_prefix(s, a, b - 1);
        assert(s.take(b).drop_last() =~= s.take(b - 1));
    }
}

/// A string of `n` digits has value below ten to the `n`.
proof fn lemma_digits_val_bound(s: Seq<char>)
    requires
        all_digits(s),
    ensures
        digits_val(s) < pow10(s.len() as nat),
    decreases s.len(),
{
    if s.len() > 0 {
        assert(all_digits(s.drop_last())) by {
            assert(forall|i: int|
                0 <= i < s.len() - 1 ==> #[trigger] s.drop_last()[i] == s[i]);
        }
        lemma_digits_val_bound(s.drop_last());
        assert(is_digit(s.last()));
    }
}

/// At most four fractional digits scale into less than one whole unit.
proof fn lemma_frac_units_bound(f: Seq<char>)
    requires
        all_digits(f),
        f.len() <= 4,
    ensures
        digits_val(f) * pow10((4 - f.len()) as nat) < 10000,
{
    lemma_digits_val_bound(f);
    let v = digits_val(f);
    let m = pow10((4 - f.len()) as nat);
    lemma_pow10_small();
    if f.len() == 0 {
        assert(v == 0);
        assert(v * m == 0) by (nonlinear_arith)
            requires
                v == 0,
        ;
    } else if f.len() == 1 {
        assert(v <= 9 && m == 1000);
        assert(v * m <= 9000) by (nonlinear_arith)
            requires
                v <= 9,
                m == 1000,
        ;
    } else if f.len() == 2 {
        assert(v <= 99 && m == 100);
        assert(v * m <= 9900) by (nonlinear_arith)
            requires
                v <= 99,
                m == 100,
        ;
    } else if f.len() == 3 {
        assert(v <= 999 && m == 10);
        assert(v * m <= 9990) by (nonlinear_arith)
            requires
                v <= 999,
                m == 10,
        ;
    } else {
        assert(v <= 9999 && m == 1);
        assert(v * m <= 9999) by (nonlinear_arith)
            requires
                v <= 9999,
                m == 1,
        ;
    }
}

/// Remove surrounding whitespace.
#[verifier::loop_isolation(false)]
pub fn trim_spaces(s: &str) -> (t: &str)
    ensures
        t@ == spec_trim(s@),
{
    let n = s.unicode_len();
    proof {
        assert(s@.skip(0) =~= s@);
    }
    let mut start: usize = 0;
    while start < n && is_space_char(s.get_char(start))
        invariant
            start <= n,
            n == s@.len(),
            trim_front(s@) == trim_front(s@.skip(start as int)),
        decreases n - start,
    {
        proof {
            assert(s@.skip(start as int).drop_first() =~= s@.skip(start + 1int));
        }
        start = start + 1;
    }
    proof {
        assert(s@.skip(n as int) =~= Seq::<char>::empty());
        assert(trim_front(s@) =~= s@.skip(start as int));
    }

    let mut end: usize = n;
    while end > start && is_space_char(s.get_char(end - 1))
        invariant
            start <= end <= n,
            n == s@.len(),
            trim_front(s@) == s@.skip(start as int),
            trim_back(s@.skip(start as int)) == trim_back(s@.subrange(start as int, end as int)),
        decreases end,
    {
        proof {
            assert(s@.subrange(start as int, end as int).drop_last() =~= s@.subrange(
                start as int,
                end - 1int,
            ));
        }
        end = end - 1;
    }
    proof {
        assert(s@.subrange(start as int, start as int) =~= Seq::<char>::empty());
        assert(trim_back(s@.subrange(start as int, end as int)) =~= s@.subrange(
            start as int,
            end as int,
        ));
    }
    s.substring_char(start, end)
}

/// Whether a character is whitespace.
fn is_space_char(c: char) -> (b: bool)
    ensures
        b == is_space(c),
{
    c == ' ' || c == '\t' || c == '\r' || c == '\n'
}

/// Parse an amount string: one or more integer digits, optionally a dot
/// and up to four fractional digits. Returns the value in
/// ten-thousandths, or `None` where the string is outside the grammar
/// or the value outside the balance range.
#[verifier::loop_isolation(false)]
pub fn parse_amount(s: &str) -> (result: Option<u64>)
    ensures
        result == spec_parse_amount(s@),
{
    let n = s.unicode_len();

    // locate the dot, if any
    let mut dot: usize = 0;
    while dot < n && s.get_char(dot) != '.'
        invariant
            dot <= n,
            n == s@.len(),
            forall|j: int| 0 <= j < dot ==> s@[j] != '.',
        decreases n - dot,
    {
        dot = dot + 1;
    }
    proof {
        lemma_first_dot_at(s@, dot as int);
    }

    if dot == 0 {
        // missing integer part: also covers the empty string and a
        // leading dot
        return None;
    }

    // integer part
    let mut acc: u64 = 0;
    let mut i: usize = 0;
    while i < dot
        invariant
            i <= dot <= n,
            n == s@.len(),
            first_dot(s@) == dot,
            acc == digits_val(s@.take(i as int)),
            forall|j: int| 0 <= j < i ==> is_digit(#[trigger] s@[j]),
        decreases dot - i,
    {
        let c = s.get_char(i);
        let cv = c as u32;
        if !(48 <= cv && cv <= 57) {
            proof {
                assert(int_part(s@)[i as int] == c);
                assert(!all_digits(int_part(s@)));
            }
            return None;
        }
        let d = (cv - 48) as u64;
        proof {
            assert(s@.take(i + 1int).drop_last() =~= s@.take(i as int));
        }
        let next = match acc.checked_mul(10) {
            Some(x) => x.checked_add(d),
            None => None,
        };
        acc = match next {
            Some(x) => x,
            None => {
                // the integer part alone exceeds the balance range
                proof {
                    if valid_amount(s@) {
                        lemma_digits_val_prefix(s@, i + 1, dot as int);
                        assert(digits_val(int_part(s@)) > u64::MAX);
                    }
                }
                return None;
            },
        };
        i = i + 1;
    }
    proof {
        assert(s@.take(dot as int) == int_part(s@));
    }

    // fractional part
    let mut frac: u64 = 0;
    let ghost fp = frac_part(s@);
    let frac_len: usize = if dot < n {
        n - dot - 1
    } else {
        0
    };
    proof {
        if dot < n {
            assert(fp =~= s@.skip(dot + 1int));
        }
        assert(fp.len() == frac_len);
    }
    if frac_len > 4 {
        return None;
    }
    if dot < n {
        let mut j: usize = dot + 1;
        while j < n
            invariant
                dot + 1 <= j <= n,
                n == s@.len(),
                fp == frac_part(s@),
                fp =~= s@.skip(dot + 1int),
                frac == digits_val(fp.take(j - dot - 1)),
                frac < pow10((j - dot - 1) as nat),
                forall|k: int| 0 <= k < j - dot - 1 ==> is_digit(#[trigger] fp[k]),
            decreases n - j,
        {
            let c = s.get_char(j);
            let cv = c as u32;
            if !(48 <= cv && cv <= 57) {
                proof {
                    assert(fp[j - dot - 1] == c);
                    assert(!all_digits(fp));
                }
                return None;
            }
            let d = (cv - 48) as u64;
            proof {
                assert(fp.take(j - dot) =~= fp.take(j - dot - 1).push(fp[j - dot - 1]));
                assert(fp.take(j - dot).drop_last() =~= fp.take(j - dot - 1));
                assert(pow10(((j - dot - 1) + 1) as nat) == 10 * pow10((j - dot - 1) as nat));
                assert(frac * 10 + d < pow10((j - dot) as nat)) by {
                    assert(frac + 1 <= pow10((j - dot - 1) as nat));
                    assert((frac + 1) * 10 <= pow10((j - dot - 1) as nat) * 10) by (nonlinear_arith)
                        requires frac + 1 <= pow10((j - dot - 1) as nat);
                }
                lemma_pow10_small();
                assert(j - dot <= 4);
            }
            frac = frac * 10 + d;
            j = j + 1;
        }
        proof {
            assert(fp.take(fp.len() as int) =~= fp);
        }
    }
    proof {
        assert(frac == digits_val(fp));
        assert(all_digits(fp));
    }

    // scale and combine
    let mult: u64 = if frac_len == 0 {
        10000
    } else if frac_len == 1 {
        1000
    } else if frac_len == 2 {
        100
    } else if frac_len == 3 {
        10
    } else {
        1
    };
    proof {
        lemma_pow10_small();
        assert(mult == pow10((4 - fp.len()) as nat));
        lemma_frac_units_bound(fp);
    }
    let scaled_frac = frac * mult;

    let int_units = match acc.checked_mul(10000) {
        Some(x) => x,
        None => {
            return None;
        },
    };
    match int_units.checked_add(scaled_frac) {
        Some(total) => Some(total),
        None => None,
    }
}

/// The character code used for case-insensitive comparison: ASCII
/// upper-case letters fold to lower case, everything else is itself.
pub open spec fn lower_code(c: char) -> u32 {
    if 65 <= c as u32 <= 90 {
        (c as u32 + 32) as u32
    } else {
        c as u32
    }
}

/// Whether `s` spells the (lower-case) keyword `kw`, ignoring ASCII
/// case.
pub open spec fn matches_keyword(s: Seq<char>, kw: Seq<char>) -> bool {
    s.len() == kw.len() && forall|i: int|
        0 <= i < s.len() ==> lower_code(s[i]) == (#[trigger] kw[i]) as u32
}

/// The transaction type a type field spells, ignoring ASCII case.
pub open spec fn spec_tx_type(s: Seq<char>) -> Option<TransactionType> {
    if matches_keyword(s, "deposit"@) {
        Some(TransactionType::Deposit)
    } else if matches_keyword(s, "withdrawal"@) {
        Some(TransactionType::Withdrawal)
    } else if matches_keyword(s, "dispute"@) {
        Some(TransactionType::Dispute)
    } else if matches_keyword(s, "resolve"@) {
        Some(TransactionType::Resolve)
    } else if matches_keyword(s, "chargeback"@) {
        Some(TransactionType::Chargeback)
    } else {
        None
    }
}

/// Whether `s` spells `kw` ignoring ASCII case.
#[verifier::loop_isolation(false)]
fn keyword_matches(s: &str, kw: &str) -> (b: bool)
    ensures
        b == matches_keyword(s@, kw@),
{
    let n = s.unicode_len();
    if n != kw.unicode_len() {
        return false;
    }
    let mut i: usize = 0;
    while i < n
        invariant
            i <= n,
            forall|j: int| 0 <= j < i ==> lower_code(s@[j]) == (#[trigger] kw@[j]) as u32,
        decreases n - i,
    {
        let cv = s.get_char(i) as u32;
        let lv = if 65 <= cv && cv <= 90 {
            cv + 32
        } else {
            cv
        };
        if lv != kw.get_char(i) as u32 {
            return false;
        }
        i = i + 1;
    }
    true
}

/// One input record as it stands in the CSV: the type still a string,
/// the amount still an optional string.
#[derive(Debug, Clone, PartialEq)]
pub struct CsvRecord {
    /// The type field.
    pub tx_type: String,
    /// The client id.
    pub client: u16,
    /// The transaction id.
    pub tx: u32,
    /// The amount field, where the row had one.
    pub amount: Option<String>,
}

/// What converting a raw record yields: the typed record, or nothing
/// where the type field is unknown, a present amount is malformed or
/// out of range, or a deposit or withdrawal has no amount. An empty or
/// all-whitespace amount field counts as absent; a well-formed amount
/// on a dispute-lifecycle record is kept.
pub open spec fn spec_convert(
    tx_type: Seq<char>,
    client: u16,
    tx: u32,
    amount: Option<Seq<char>>,
) -> Option<TransactionRecord> {
    match spec_tx_type(tx_type) {
        None => None,
        Some(t) => {
            let trimmed = match amount {
                Some(a) => spec_trim(a),
                None => Seq::empty(),
            };
            if trimmed.len() == 0 {
                if t == TransactionType::Deposit || t == TransactionType::Withdrawal {
                    None
                } else {
                    Some(TransactionRecord { tx_type: t, client, tx, amount: None })
                }
            } else {
                match spec_parse_amount(trimmed) {
                    None => None,
                    Some(v) => Some(TransactionRecord { tx_type: t, client, tx, amount: Some(v) }),
                }
            }
        },
    }
}

/// The amount field of a raw record, viewed as characters.
pub open spec fn spec_amount_field(amount: Option<String>) -> Option<Seq<char>> {
    match amount {
        Some(a) => Some(a@),
        None => None,
    }
}

/// Convert a raw CSV record into a typed transaction record: decode the
/// type field (case-insensitively), parse the amount where one is
/// present, and reject a deposit or withdrawal without one. The error
/// is a diagnostic message; which records fail is pinned by
/// [`spec_convert`].
pub fn convert_csv_record(csv_record: CsvRecord) -> (result: Result<TransactionRecord, String>)
    ensures
        result matches Ok(r) ==> spec_convert(
            csv_record.tx_type@,
            csv_record.client,
            csv_record.tx,
            spec_amount_field(csv_record.amount),
        ) == Some(r),
        result is Err <==> spec_convert(
            csv_record.tx_type@,
            csv_record.client,
            csv_record.tx,
            spec_amount_field(csv_record.amount),
        ) is None,
{
    let tx_type = if keyword_matches(csv_record.tx_type.as_str(), "deposit") {
        TransactionType::Deposit
    } else if keyword_matches(csv_record.tx_type.as_str(), "withdrawal") {
        TransactionType::Withdrawal
    } else if keyword_matches(csv_record.tx_type.as_str(), "dispute") {
        TransactionType::Dispute
    } else if keyword_matches(csv_record.tx_type.as_str(), "resolve") {
        TransactionType::Resolve
    } else if keyword_matches(csv_record.tx_type.as_str(), "chargeback") {
        TransactionType::Chargeback
    } else {
        let mut message = String::new();
        message.append("Invalid transaction type: '");
        message.append(csv_record.tx_type.as_str());
        message.append("' for tx ");
        push_decimal(csv_record.tx as u64, &mut message);
        return Err(message);
    };

    let amount = match &csv_record.amount {
        Some(amount_str) => {
            let trimmed = trim_spaces(amount_str.as_str());
            if trimmed.is_empty() {
                None
            } else {
                match parse_amount(trimmed) {
                    Some(v) => Some(v),
                    None => {
                        let mut message = String::new();
                        message.append("Invalid amount '");
                        message.append(amount_str.as_str());
                        message.append("' for tx ");
                        push_decimal(csv_record.tx as u64, &mut message);
                        return Err(message);
                    },
                }
            }
        },
        None => None,
    };

    match tx_type {
        TransactionType::Deposit | TransactionType::Withdrawal => {
            if amount.is_none() {
                let mut message = String::new();
                if tx_type == TransactionType::Deposit {
                    message.append("deposit");
                } else {
                    message.append("withdrawal");
                }
                message.append(" transaction ");
                push_decimal(csv_record.tx as u64, &mut message);
                message.append(" for client ");
                push_decimal(csv_record.client as u64, &mut message);
                message.append(" requires an amount");
                return Err(message);
            }
        },
        _ => {},
    }

    Ok(TransactionRecord {
        tx_type,
        client: csv_record.client,
        tx: csv_record.tx,
        amount,
    })
}

/// The character of a decimal digit.
pub open spec fn digit_char(d: nat) -> char {
    if d == 0 {
        '0'
    } else if d == 1 {
        '1'
    } else if d == 2 {
        '2'
    } else if d == 3 {
        '3'
    } else if d == 4 {
        '4'
    } else if d == 5 {
        '5'
    } else if d == 6 {
        '6'
    } else if d == 7 {
        '7'
    } else if d == 8 {
        '8'
    } else {
        '9'
    }
}

/// The decimal digit string of `n`, most significant first, without
/// leading zeros (a single zero for zero).
pub open spec fn dec_str(n: nat) -> Seq<char>
    decreases n,
{
    if n < 10 {
        seq![digit_char(n)]
    } else {
        dec_str(n / 10).push(digit_char(n % 10))
    }
}

/// A fixed-point amount rendered with exactly four fractional digits.
pub open spec fn amount_str(v: nat) -> Seq<char> {
    dec_str(v / 10000) + seq!['.'] + seq![
        digit_char((v / 1000) % 10),
        digit_char((v / 100) % 10),
        digit_char((v / 10) % 10),
        digit_char(v % 10),
    ]
}

/// A boolean rendered as its literal.
pub open spec fn bool_str(b: bool) -> Seq<char> {
    if b {
        "true"@
    } else {
        "false"@
    }
}

/// One output row: client id, the three balances with four fractional
/// digits, and the locked flag.
pub open spec fn account_row(a: Account) -> Seq<char> {
    dec_str(a.client as nat) + seq![','] + amount_str(a.available as nat) + seq![','] + amount_str(
        a.held as nat,
    ) + seq![','] + amount_str(a.total as nat) + seq![','] + bool_str(a.locked) + seq!['\n']
}

/// The rows of an account sequence, in order.
pub open spec fn accounts_rows(accounts: Seq<Account>) -> Seq<char>
    decreases accounts.len(),
{
    if accounts.len() == 0 {
        Seq::empty()
    } else {
        account_row(accounts[0]) + accounts_rows(accounts.drop_first())
    }
}

/// The whole output table: header line, then one row per account, in
/// the order given.
pub open spec fn accounts_csv(accounts: Seq<Account>) -> Seq<char> {
    "client,available,held,total,locked\n"@ + accounts_rows(accounts)
}

/// The rows of a concatenation are the concatenated rows.
proof fn lemma_rows_concat(a: Seq<Account>, b: Seq<Account>)
    ensures
        accounts_rows(a + b) == accounts_rows(a) + accounts_rows(b),
    decreases a.len(),
{
    if a.len() == 0 {
        assert(a + b =~= b);
        assert(Seq::<char>::empty() + accounts_rows(b) =~= accounts_rows(b));
    } else {
        assert((a + b)[0] == a[0]);
        assert((a + b).drop_first() =~= a.drop_first() + b);
        lemma_rows_concat(a.drop_first(), b);
        assert(account_row(a[0]) + (accounts_rows(a.drop_first()) + accounts_rows(b)) =~= (
        account_row(a[0]) + accounts_rows(a.drop_first())) + accounts_rows(b));
    }
}

/// One more account is one more row.
proof fn lemma_rows_push(accounts: Seq<Account>, a: Account)
    ensures
        accounts_rows(accounts.push(a)) == accounts_rows(accounts) + account_row(a),
{
    assert(accounts.push(a) =~= accounts + seq![a]);
    lemma_rows_concat(accounts, seq![a]);
    assert(seq![a].drop_first() =~= Seq::<Account>::empty());
    assert(accounts_rows(seq![a]) == account_row(a) + accounts_rows(Seq::empty()));
    assert(account_row(a) + Seq::<char>::empty() =~= account_row(a));
}

/// The string of one decimal digit.
fn digit_str(d: u64) -> (r: &'static str)
    requires
        d < 10,
    ensures
        r@ == seq![digit_char(d as nat)],
{
    let r: &'static str = match d {
        0 => "0",
        1 => "1",
        2 => "2",
        3 => "3",
        4 => "4",
        5 => "5",
        6 => "6",
        7 => "7",
        8 => "8",
        _ => "9",
    };
    proof {
        reveal_strlit("0");
        reveal_strlit("1");
        reveal_strlit("2");
        reveal_strlit("3");
        reveal_strlit("4");
        reveal_strlit("5");
        reveal_strlit("6");
        reveal_strlit("7");
        reveal_strlit("8");
        reveal_strlit("9");
        assert(r@ =~= seq![digit_char(d as nat)]);
    }
    r
}

/// Append the decimal digits of `n`.
fn push_decimal(n: u64, out: &mut String)
    ensures
        final(out)@ == old(out)@ + dec_str(n as nat),
    decreases n,
{
    if n < 10 {
        out.append(digit_str(n));
        proof {
            assert(old(out)@ + seq![digit_char(n as nat)] =~= final(out)@);
        }
    } else {
        push_decimal(n / 10, out);
        out.append(digit_str(n % 10));
        proof {
            assert(dec_str(n as nat) =~= dec_str(n as nat / 10) + seq![digit_char(n as nat % 10)]);
            assert(old(out)@ + dec_str(n as nat) =~= (old(out)@ + dec_str(n as nat / 10)) + seq![
                digit_char(n as nat % 10),
            ]);
        }
    }
}

/// Append an amount with exactly four fractional digits.
fn push_amount(v: u64, out: &mut String)
    ensures
        final(out)@ == old(out)@ + amount_str(v as nat),
{
    push_decimal(v / 10000, out);
    out.append(".");
    out.append(digit_str((v / 1000) % 10));
    out.append(digit_str((v / 100) % 10));
    out.append(digit_str((v / 10) % 10));
    out.append(digit_str(v % 10));
    proof {
        reveal_strlit(".");
        assert("."@ =~= seq!['.']);
        assert(final(out)@ =~= old(out)@ + amount_str(v as nat));
    }
}

/// Render an amount with exactly four fractional digits.
pub fn format_amount(v: u64) -> (s: String)
    ensures
        s@ == amount_str(v as nat),
{
    let mut s = String::new();
    push_amount(v, &mut s);
    proof {
        assert(Seq::<char>::empty() + amount_str(v as nat) =~= amount_str(v as nat));
    }
    s
}

/// Append one output row.
fn push_account_row(a: &Account, out: &mut String)
    ensures
        final(out)@ == old(out)@ + account_row(*a),
{
    push_decimal(a.client as u64, out);
    out.append(",");
    push_amount(a.available, out);
    out.append(",");
    push_amount(a.held, out);
    out.append(",");
    push_amount(a.total, out);
    out.append(",");
    if a.locked {
        out.append("true");
    } else {
        out.append("false");
    }
    out.append("\n");
    proof {
        reveal_strlit(",");
        reveal_strlit("\n");
        assert(","@ =~= seq![',']);
        assert("\n"@ =~= seq!['\n']);
        assert(final(out)@ =~= old(out)@ + account_row(*a));
    }
}

/// Render the final account table: the header line, then one row per
/// account in the order given, every balance with exactly four
/// fractional digits and the locked flag as a boolean literal.
#[verifier::loop_isolation(false)]
pub fn render_accounts_csv(accounts: &Vec<Account>) -> (out: String)
    ensures
        out@ == accounts_csv(accounts@),
{
    let mut out = String::new();
    out.append("client,available,held,total,locked\n");
    proof {
        assert(out@ =~= accounts_csv(accounts@.take(0)));
    }
    let mut i: usize = 0;
    while i < accounts.len()
        invariant
            i <= accounts.len(),
            out@ == accounts_csv(accounts@.take(i as int)),
        decreases accounts.len() - i,
    {
        proof {
            assert(accounts@.take(i + 1int) =~= accounts@.take(i as int).push(
                accounts@[i as int],
            ));
            lemma_rows_push(accounts@.take(i as int), accounts@[i as int]);
        }
        push_account_row(&accounts[i], &mut out);
        proof {
            assert(out@ =~= accounts_csv(accounts@.take(i + 1int)));
        }
        i = i + 1;
    }
    proof {
        assert(accounts@.take(accounts@.len() as int) =~= accounts@);
    }
    out
}

} // verus!
