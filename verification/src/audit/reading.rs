//! What a reader of exported rows finds in them.

use vstd::prelude::*;
use vstd::utf8::encode_utf8;

use crate::audit::export::{
    ascii, csv_cell, csv_fields, csv_full_row, csv_row, csv_special, decimal, doubled, hex,
    hex_digit, hex_upto, json_byte, json_fields, json_full_row, json_row, json_text,
    signed_decimal, type_label, until_zero,
};
use crate::audit::records::{AuditEventType, AuditLogView, FieldEntry};
use crate::base::symbol::Symbol;

verus! {

/// The number that digits stand for.
pub open spec fn read_digits(s: Seq<u8>) -> int
    decreases s.len(),
{
    if s.len() == 0 {
        0
    } else {
        read_digits(s.drop_last()) * 10 + (s.last() - 48)
    }
}

/// Numbers are written in digits, without zeros in front, and read back as
/// what they are; a minus stands before negative ones alone.
pub proof fn numbers_read_back(n: nat)
    ensures
        read_digits(decimal(n)) == n,
        decimal(n).len() > 0,
        forall|i: int| 0 <= i < decimal(n).len() ==> 48 <= #[trigger] decimal(n)[i] <= 57,
        n > 0 ==> decimal(n)[0] != 48,
        n == 0 ==> decimal(n).len() == 1,
        signed_decimal(n as int) == decimal(n),
        n > 0 ==> signed_decimal(-(n as int)) == seq![45u8] + decimal(n),
    decreases n,
{
    if n >= 10 {
        numbers_read_back(n / 10);
        assert(decimal(n).drop_last() =~= decimal(n / 10));
    } else {
        assert(decimal(n).drop_last() =~= Seq::empty());
        assert(read_digits(decimal(n).drop_last()) == 0);
    }
}

/// The value of a hexadecimal digit in lower case.
pub open spec fn read_hex(c: u8) -> int {
    if 48 <= c <= 57 {
        c - 48
    } else if 97 <= c <= 102 {
        c - 87
    } else {
        -1
    }
}

proof fn lemma_hex_digits(x: u8)
    ensures
        read_hex(hex_digit((x / 16) as u8)) == x / 16,
        read_hex(hex_digit((x % 16) as u8)) == x % 16,
        16 * (x / 16) + x % 16 == x,
{
}

proof fn lemma_hex(b: Seq<u8>, n: int, i: int)
    requires
        0 <= i < n <= b.len(),
    ensures
        hex_upto(b, n).len() == 2 * n,
        hex_upto(b, n)[2 * i] == hex_digit((b[i] / 16) as u8),
        hex_upto(b, n)[2 * i + 1] == hex_digit((b[i] % 16) as u8),
    decreases n,
{
    if n > 1 {
        lemma_hex(b, n - 1, if i < n - 1 {
            i
        } else {
            0
        });
    } else {
        assert(hex_upto(b, 0).len() == 0);
    }
}

/// A byte string in hexadecimal has two digits in lower case for each byte,
/// the one that counts sixteen times first.
pub proof fn bytes_read_back_from_hexadecimal(b: Seq<u8>, i: int)
    requires
        0 <= i < b.len(),
    ensures
        hex(b).len() == 2 * b.len(),
        read_hex(hex(b)[2 * i]) >= 0,
        read_hex(hex(b)[2 * i + 1]) >= 0,
        16 * read_hex(hex(b)[2 * i]) + read_hex(hex(b)[2 * i + 1]) == b[i],
{
    lemma_hex(b, b.len() as int, i);
    lemma_hex_digits(b[i]);
}

/// The characters of a symbol are its bytes before the first zero.
pub proof fn symbols_end_at_the_first_zero(b: Seq<u8>, n: int)
    requires
        0 <= n <= b.len(),
        forall|i: int| 0 <= i < n ==> b[i] != 0,
        n < b.len() ==> b[n] == 0,
    ensures
        until_zero(b) == b.take(n),
    decreases n,
{
    if n > 0 {
        let rest = b.skip(1);
        assert forall|i: int| 0 <= i < n - 1 implies rest[i] != 0 by {
            assert(b[i + 1] != 0);
        }
        symbols_end_at_the_first_zero(rest, n - 1);
        assert(seq![b[0]] + rest.take(n - 1) =~= b.take(n));
    } else {
        assert(b.take(0) =~= Seq::empty());
    }
}

/// A byte as it stands inside a JSON string: a quote and a backslash behind a
/// backslash, what is below a space by its number in four digits, and any
/// other as it is.
pub open spec fn escaped(b: u8) -> Seq<u8> {
    if b == 34 {
        seq![92u8, 34u8]
    } else if b == 92 {
        seq![92u8, 92u8]
    } else if b < 10 {
        seq![92u8, 117u8, 48u8, 48u8, 48u8, (48 + b) as u8]
    } else if b < 16 {
        seq![92u8, 117u8, 48u8, 48u8, 48u8, (87 + b) as u8]
    } else if b < 26 {
        seq![92u8, 117u8, 48u8, 48u8, 49u8, (32 + b) as u8]
    } else if b < 32 {
        seq![92u8, 117u8, 48u8, 48u8, 49u8, (71 + b) as u8]
    } else {
        seq![b]
    }
}

proof fn lemma_escaped(b: u8)
    ensures
        json_byte(b) == escaped(b),
{
    reveal_strlit("\\u00");
    if b != 34 && b != 92 && b < 32 {
        assert(json_byte(b) =~= escaped(b));
    }
}

proof fn lemma_json_text(s: Seq<u8>, n: int)
    requires
        0 <= n <= s.len(),
    ensures
        json_text(s, n) == s.take(n).map_values(|b: u8| escaped(b)).flatten(),
    decreases n,
{
    let form = |b: u8| escaped(b);
    if n > 0 {
        lemma_json_text(s, n - 1);
        lemma_escaped(s[n - 1]);
        let before = s.take(n - 1).map_values(form);
        assert(s.take(n).map_values(form) =~= before.push(escaped(s[n - 1])));
        before.lemma_flatten_push(escaped(s[n - 1]));
    } else {
        assert(s.take(0).map_values(form) =~= Seq::empty());
    }
}

/// A text inside a JSON string is its bytes, each escaped where it has to be.
pub proof fn json_texts_are_escaped(s: Seq<u8>)
    ensures
        json_text(s, s.len() as int) == s.map_values(|b: u8| escaped(b)).flatten(),
{
    lemma_json_text(s, s.len() as int);
    assert(s.take(s.len() as int) =~= s);
}

/// A byte between the quotes of a CSV cell: a quote twice, any other once.
pub open spec fn quoted(b: u8) -> Seq<u8> {
    if b == 34 {
        seq![34u8, 34u8]
    } else {
        seq![b]
    }
}

proof fn lemma_doubled(s: Seq<u8>, n: int)
    requires
        0 <= n <= s.len(),
    ensures
        doubled(s, n) == s.take(n).map_values(|b: u8| quoted(b)).flatten(),
    decreases n,
{
    let form = |b: u8| quoted(b);
    if n > 0 {
        lemma_doubled(s, n - 1);
        let before = s.take(n - 1).map_values(form);
        assert(s.take(n).map_values(form) =~= before.push(quoted(s[n - 1])));
        before.lemma_flatten_push(quoted(s[n - 1]));
        assert(doubled(s, n) =~= doubled(s, n - 1) + quoted(s[n - 1]));
    } else {
        assert(s.take(0).map_values(form) =~= Seq::empty());
    }
}

/// A text without a comma, a quote, a line feed and a carriage return is a CSV
/// cell as it is; any other stands in quotes, with its own quotes doubled.
pub proof fn cells_are_quoted_where_needed(s: Seq<u8>)
    ensures
        !s.contains(44) && !s.contains(34) && !s.contains(10) && !s.contains(13) ==> csv_cell(s)
            == s,
        s.contains(44) || s.contains(34) || s.contains(10) || s.contains(13) ==> csv_cell(s)
            == seq![34u8] + s.map_values(|b: u8| quoted(b)).flatten() + seq![34u8],
{
    lemma_doubled(s, s.len() as int);
    assert(s.take(s.len() as int) =~= s);
    if s.contains(44) || s.contains(34) || s.contains(10) || s.contains(13) {
        let i = choose|i: int|
            0 <= i < s.len() && (s[i] == 44 || s[i] == 34 || s[i] == 10 || s[i] == 13);
        assert(csv_special(s[i]));
    } else if exists|i: int| 0 <= i < s.len() && csv_special(#[trigger] s[i]) {
        let i = choose|i: int| 0 <= i < s.len() && csv_special(#[trigger] s[i]);
        assert(s.contains(s[i]));
    }
}

/// Parts one after another, with a byte between each two.
pub open spec fn joined(parts: Seq<Seq<u8>>, between: u8) -> Seq<u8>
    decreases parts.len(),
{
    if parts.len() == 0 {
        Seq::empty()
    } else if parts.len() == 1 {
        parts[0]
    } else {
        joined(parts.drop_last(), between) + seq![between] + parts.last()
    }
}

/// The characters of a symbol, up to the first zero of its bytes.
pub open spec fn read_symbol(s: Symbol) -> Seq<u8> {
    until_zero(s.word.bytes())
}

/// A field in a CSV cell: its key, an equals sign and its value.
pub open spec fn pair_of(f: FieldEntry) -> Seq<u8> {
    read_symbol(f.key) + seq![61u8] + signed_decimal(f.value as int)
}

proof fn lemma_csv_fields(fields: Seq<FieldEntry>, n: int)
    requires
        0 <= n <= fields.len(),
    ensures
        csv_fields(fields, n) == joined(
            fields.take(n).map_values(|f: FieldEntry| pair_of(f)),
            59,
        ),
    decreases n,
{
    reveal_strlit(";");
    reveal_strlit("=");
    let pair = |f: FieldEntry| pair_of(f);
    assert(ascii(";"@) =~= seq![59u8]);
    assert(ascii("="@) =~= seq![61u8]);
    let parts = fields.take(n).map_values(pair);
    if n > 0 {
        lemma_csv_fields(fields, n - 1);
        assert(parts.drop_last() =~= fields.take(n - 1).map_values(pair));
        assert(parts.last() == pair_of(fields[n - 1]));
        if n == 1 {
            assert(csv_fields(fields, 0) =~= Seq::empty());
            assert(csv_fields(fields, 1) =~= parts[0]);
        } else {
            assert(csv_fields(fields, n) =~= joined(parts.drop_last(), 59) + seq![59u8]
                + parts.last());
        }
    }
}

/// A CSV row has its cells in order, with commas between them: sequence ID,
/// time, event type, actor, permissions, portfolio, outcome and detail; a full
/// one also the two snapshots, as pairs with semicolons between them, and the
/// hash in hexadecimal.
pub proof fn csv_rows_have_their_cells_in_order(e: AuditLogView)
    ensures
        ({
            let detail = csv_cell(encode_utf8(e.detail));
            let before = joined(e.state_before.map_values(|f: FieldEntry| pair_of(f)), 59);
            let after = joined(e.state_after.map_values(|f: FieldEntry| pair_of(f)), 59);
            &&& csv_row(e) == decimal(e.seq as nat) + seq![44u8] + decimal(e.timestamp as nat)
                + seq![44u8] + ascii(type_label(e.event_type)) + seq![44u8] + e.actor.text()
                + seq![44u8] + decimal(e.permissions as nat) + seq![44u8] + read_symbol(
                e.portfolio,
            ) + seq![44u8] + read_symbol(e.outcome) + seq![44u8] + detail
            &&& csv_full_row(e) == csv_row(e) + seq![44u8] + before + seq![44u8] + after
                + seq![44u8] + hex(e.hash.bytes())
        }),
{
    reveal_strlit(",");
    assert(ascii(","@) =~= seq![44u8]);
    lemma_csv_fields(e.state_before, e.state_before.len() as int);
    lemma_csv_fields(e.state_after, e.state_after.len() as int);
    assert(e.state_before.take(e.state_before.len() as int) =~= e.state_before);
    assert(e.state_after.take(e.state_after.len() as int) =~= e.state_after);
}

/// A field as a JSON object.
pub open spec fn object_of(f: FieldEntry) -> Seq<u8> {
    ascii("{\"key\":\""@) + read_symbol(f.key) + ascii("\",\"value\":"@) + signed_decimal(
        f.value as int,
    ) + ascii("}"@)
}

proof fn lemma_json_fields(fields: Seq<FieldEntry>, n: int)
    requires
        0 <= n <= fields.len(),
    ensures
        json_fields(fields, n) == joined(
            fields.take(n).map_values(|f: FieldEntry| object_of(f)),
            44,
        ),
    decreases n,
{
    reveal_strlit(",");
    let object = |f: FieldEntry| object_of(f);
    assert(ascii(","@) =~= seq![44u8]);
    let parts = fields.take(n).map_values(object);
    if n > 0 {
        lemma_json_fields(fields, n - 1);
        assert(parts.drop_last() =~= fields.take(n - 1).map_values(object));
        assert(parts.last() == object_of(fields[n - 1]));
        if n == 1 {
            assert(json_fields(fields, 0) =~= Seq::empty());
            assert(json_fields(fields, 1) =~= parts[0]);
        } else {
            assert(json_fields(fields, n) =~= joined(parts.drop_last(), 44) + seq![44u8]
                + parts.last());
        }
    }
}

/// A JSON line has its members in order, each under its name; a full one also
/// the two snapshots, as lists of objects, and the hash in hexadecimal.
pub proof fn json_rows_have_their_members_in_order(e: AuditLogView)
    ensures
        ({
            let detail = encode_utf8(e.detail);
            let members = ascii("{\"seq\":"@) + decimal(e.seq as nat) + ascii(
                ",\"timestamp\":"@,
            ) + decimal(e.timestamp as nat) + ascii(",\"event_type\":\""@) + ascii(
                type_label(e.event_type),
            ) + ascii("\",\"actor\":\""@) + e.actor.text() + ascii(
                "\",\"permissions\":"@,
            ) + decimal(e.permissions as nat) + ascii(",\"portfolio\":\""@) + read_symbol(
                e.portfolio,
            ) + ascii("\",\"outcome\":\""@) + read_symbol(e.outcome) + ascii(
                "\",\"detail\":\""@,
            ) + detail.map_values(|b: u8| escaped(b)).flatten() + ascii("\""@);
            &&& json_row(e) == members + ascii("}"@)
            &&& json_full_row(e) == members + ascii(",\"state_before\":["@) + joined(
                e.state_before.map_values(|f: FieldEntry| object_of(f)),
                44,
            ) + ascii("],\"state_after\":["@) + joined(
                e.state_after.map_values(|f: FieldEntry| object_of(f)),
                44,
            ) + ascii("],\"hash\":\""@) + hex(e.hash.bytes()) + ascii("\"}"@)
        }),
{
    json_texts_are_escaped(encode_utf8(e.detail));
    lemma_json_fields(e.state_before, e.state_before.len() as int);
    lemma_json_fields(e.state_after, e.state_after.len() as int);
    assert(e.state_before.take(e.state_before.len() as int) =~= e.state_before);
    assert(e.state_after.take(e.state_after.len() as int) =~= e.state_after);
}

/// A text of plain characters is written as their codes, one byte each.
pub proof fn plain_texts_are_their_codes(text: Seq<char>, i: int)
    requires
        0 <= i < text.len(),
    ensures
        ascii(text).len() == text.len(),
        (text[i] as u32) < 128 ==> ascii(text)[i] == text[i] as u32,
{
}

/// Event types go by their own names.
pub proof fn event_types_are_named()
    ensures
        type_label(AuditEventType::Rebalance) == "Rebalance"@,
        type_label(AuditEventType::Stake) == "Stake"@,
        type_label(AuditEventType::Unstake) == "Unstake"@,
        type_label(AuditEventType::EmergencyUnstake) == "EmergencyUnstake"@,
        type_label(AuditEventType::YieldAccrual) == "YieldAccrual"@,
        type_label(AuditEventType::Deposit) == "Deposit"@,
        type_label(AuditEventType::Withdrawal) == "Withdrawal"@,
        type_label(AuditEventType::ScheduleChange) == "ScheduleChange"@,
        type_label(AuditEventType::AdminAction) == "AdminAction"@,
        type_label(AuditEventType::PortfolioCreated) == "PortfolioCreated"@,
        type_label(AuditEventType::RoleChange) == "RoleChange"@,
        type_label(AuditEventType::YieldClaim) == "YieldClaim"@,
        type_label(AuditEventType::GovernanceProposal) == "GovernanceProposal"@,
        type_label(AuditEventType::GovernanceVote) == "GovernanceVote"@,
        type_label(AuditEventType::TreasuryAction) == "TreasuryAction"@,
        type_label(AuditEventType::EmergencyPause) == "EmergencyPause"@,
        type_label(AuditEventType::TradeExecution) == "TradeExecution"@,
        type_label(AuditEventType::OrderPlaced) == "OrderPlaced"@,
        type_label(AuditEventType::OrderCancelled) == "OrderCancelled"@,
        type_label(AuditEventType::FeeCollection) == "FeeCollection"@,
        type_label(AuditEventType::Custom) == "Custom"@,
{
}

} // verus!
