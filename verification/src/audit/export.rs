//! Entries as JSON lines and as CSV rows.
//!
//! A row is a UTF-8 byte string.

use vstd::prelude::*;
use vstd::string::*;
use vstd::utf8::encode_utf8;

use crate::audit::records::{AuditEventType, AuditLog, AuditLogView, FieldEntry};
use crate::audit::signing::views;
use crate::base::symbol::Symbol;

verus! {

/// Header of the CSV export.
pub const CSV_HEADER: &'static str =
    "seq,timestamp,event_type,actor,permissions,portfolio,outcome,detail";

/// Header of the CSV export with snapshots and hash.
pub const CSV_FULL_HEADER: &'static str =
    "seq,timestamp,event_type,actor,permissions,portfolio,outcome,detail,state_before,state_after,hash";

/// The bytes of an ASCII text.
pub open spec fn ascii(text: Seq<char>) -> Seq<u8> {
    Seq::new(text.len(), |i: int| ((text[i] as u32) % 256) as u8)
}

/// Appends an ASCII text.
fn append_ascii(out: &mut Vec<u8>, text: &str)
    ensures
        final(out)@ == old(out)@ + ascii(text@),
{
    let n: usize = text.unicode_len();
    let mut i: usize = 0;
    assert(out@ =~= old(out)@ + ascii(text@).take(0));
    while i < n
        invariant
            i <= n == text@.len(),
            out@ == old(out)@ + ascii(text@).take(i as int),
        decreases n - i,
    {
        let c: u32 = text.get_char(i) as u32;
        out.push((c % 256) as u8);
        i += 1;
        assert(out@ =~= old(out)@ + ascii(text@).take(i as int));
    }
    assert(ascii(text@).take(i as int) =~= ascii(text@));
}

/// A digit as a character.
pub open spec fn digit(n: nat) -> u8 {
    (48 + n % 10) as u8
}

/// A number in decimal.
pub open spec fn decimal(n: nat) -> Seq<u8>
    decreases n,
{
    if n < 10 {
        seq![digit(n)]
    } else {
        decimal(n / 10).push(digit(n))
    }
}

fn append_decimal(out: &mut Vec<u8>, n: u128)
    ensures
        final(out)@ == old(out)@ + decimal(n as nat),
    decreases n,
{
    if n >= 10 {
        append_decimal(out, n / 10);
    }
    out.push((48 + n % 10) as u8);
    assert(out@ =~= old(out)@ + decimal(n as nat));
}

/// A signed number in decimal.
pub open spec fn signed_decimal(x: int) -> Seq<u8> {
    if x < 0 {
        seq![45u8] + decimal((-x) as nat)
    } else {
        decimal(x as nat)
    }
}

fn append_signed(out: &mut Vec<u8>, x: i128)
    ensures
        final(out)@ == old(out)@ + signed_decimal(x as int),
{
    if x < 0 {
        out.push(45);
        let low: i128 = -(x + 1);
        append_decimal(out, low as u128 + 1);
    } else {
        append_decimal(out, x as u128);
    }
    assert(out@ =~= old(out)@ + signed_decimal(x as int));
}

/// A hexadecimal digit as a character.
pub open spec fn hex_digit(n: u8) -> u8 {
    if n < 10 {
        (48 + n) as u8
    } else {
        (87 + n) as u8
    }
}

/// Two hexadecimal digits for each of the first `n` bytes.
pub open spec fn hex_upto(b: Seq<u8>, n: int) -> Seq<u8>
    decreases n,
{
    if n <= 0 {
        Seq::empty()
    } else {
        hex_upto(b, n - 1).push(hex_digit(b[n - 1] / 16)).push(hex_digit(b[n - 1] % 16))
    }
}

/// A byte string in hexadecimal.
pub open spec fn hex(b: Seq<u8>) -> Seq<u8> {
    hex_upto(b, b.len() as int)
}

fn make_hex_digit(n: u8) -> (d: u8)
    requires
        n < 16,
    ensures
        d == hex_digit(n),
{
    if n < 10 {
        48 + n
    } else {
        87 + n
    }
}

fn append_hex(out: &mut Vec<u8>, b: &Vec<u8>)
    ensures
        final(out)@ == old(out)@ + hex(b@),
{
    let mut i: usize = 0;
    assert(out@ =~= old(out)@ + hex_upto(b@, 0));
    while i < b.len()
        invariant
            i <= b@.len(),
            out@ == old(out)@ + hex_upto(b@, i as int),
        decreases b@.len() - i,
    {
        out.push(make_hex_digit(b[i] / 16));
        out.push(make_hex_digit(b[i] % 16));
        i += 1;
        assert(out@ =~= old(out)@ + hex_upto(b@, i as int));
    }
}

/// The bytes up to the first zero.
pub open spec fn until_zero(b: Seq<u8>) -> Seq<u8>
    decreases b.len(),
{
    if b.len() == 0 || b[0] == 0 {
        Seq::empty()
    } else {
        seq![b[0]] + until_zero(b.skip(1))
    }
}

/// The characters of a symbol.
pub open spec fn symbol_text(s: Symbol) -> Seq<u8> {
    until_zero(s.word.bytes())
}

fn append_symbol(out: &mut Vec<u8>, s: Symbol)
    ensures
        final(out)@ == old(out)@ + symbol_text(s),
{
    let b: Vec<u8> = s.word.to_bytes();
    let mut i: usize = 0;
    assert(b@.skip(0) =~= b@);
    assert(out@ + until_zero(b@.skip(0)) =~= old(out)@ + until_zero(b@));
    while i < b.len()
        invariant
            i <= b@.len(),
            out@ + until_zero(b@.skip(i as int)) == old(out)@ + until_zero(b@),
        ensures
            out@ == old(out)@ + until_zero(b@),
        decreases b@.len() - i,
    {
        let ghost rest = b@.skip(i as int);
        assert(rest[0] == b@[i as int]);
        assert(rest.skip(1) =~= b@.skip(i + 1));
        if b[i] == 0 {
            assert(until_zero(rest) =~= Seq::empty());
            assert(out@ + until_zero(rest) =~= out@);
            break;
        }
        let ghost before = out@;
        out.push(b[i]);
        assert(out@ + until_zero(b@.skip(i + 1)) =~= before + until_zero(rest));
        i += 1;
        assert(b@.skip(b@.len() as int) =~= Seq::empty());
        assert(out@ + Seq::<u8>::empty() =~= out@);
    }
}

/// The name of an event type.
pub open spec fn type_label(t: AuditEventType) -> Seq<char> {
    match t {
        AuditEventType::Rebalance => "Rebalance"@,
        AuditEventType::Stake => "Stake"@,
        AuditEventType::Unstake => "Unstake"@,
        AuditEventType::EmergencyUnstake => "EmergencyUnstake"@,
        AuditEventType::YieldAccrual => "YieldAccrual"@,
        AuditEventType::Deposit => "Deposit"@,
        AuditEventType::Withdrawal => "Withdrawal"@,
        AuditEventType::ScheduleChange => "ScheduleChange"@,
        AuditEventType::AdminAction => "AdminAction"@,
        AuditEventType::PortfolioCreated => "PortfolioCreated"@,
        AuditEventType::RoleChange => "RoleChange"@,
        AuditEventType::YieldClaim => "YieldClaim"@,
        AuditEventType::GovernanceProposal => "GovernanceProposal"@,
        AuditEventType::GovernanceVote => "GovernanceVote"@,
        AuditEventType::TreasuryAction => "TreasuryAction"@,
        AuditEventType::EmergencyPause => "EmergencyPause"@,
        AuditEventType::TradeExecution => "TradeExecution"@,
        AuditEventType::OrderPlaced => "OrderPlaced"@,
        AuditEventType::OrderCancelled => "OrderCancelled"@,
        AuditEventType::FeeCollection => "FeeCollection"@,
        AuditEventType::Custom => "Custom"@,
    }
}

/// The name of an event type.
pub fn event_type_label(t: AuditEventType) -> (name: &'static str)
    ensures
        name@ == type_label(t),
{
    match t {
        AuditEventType::Rebalance => "Rebalance",
        AuditEventType::Stake => "Stake",
        AuditEventType::Unstake => "Unstake",
        AuditEventType::EmergencyUnstake => "EmergencyUnstake",
        AuditEventType::YieldAccrual => "YieldAccrual",
        AuditEventType::Deposit => "Deposit",
        AuditEventType::Withdrawal => "Withdrawal",
        AuditEventType::ScheduleChange => "ScheduleChange",
        AuditEventType::AdminAction => "AdminAction",
        AuditEventType::PortfolioCreated => "PortfolioCreated",
        AuditEventType::RoleChange => "RoleChange",
        AuditEventType::YieldClaim => "YieldClaim",
        AuditEventType::GovernanceProposal => "GovernanceProposal",
        AuditEventType::GovernanceVote => "GovernanceVote",
        AuditEventType::TreasuryAction => "TreasuryAction",
        AuditEventType::EmergencyPause => "EmergencyPause",
        AuditEventType::TradeExecution => "TradeExecution",
        AuditEventType::OrderPlaced => "OrderPlaced",
        AuditEventType::OrderCancelled => "OrderCancelled",
        AuditEventType::FeeCollection => "FeeCollection",
        AuditEventType::Custom => "Custom",
    }
}

// ---------------------------------------------------------------------------
// JSON
// ---------------------------------------------------------------------------

/// A byte inside a JSON string: quotes and backslashes are escaped, control
/// characters are written by their code.
pub open spec fn json_byte(b: u8) -> Seq<u8> {
    if b == 34 || b == 92 {
        seq![92u8, b]
    } else if b < 32 {
        ascii("\\u00"@) + seq![hex_digit(b / 16), hex_digit(b % 16)]
    } else {
        seq![b]
    }
}

/// The first `n` bytes inside a JSON string.
pub open spec fn json_text(s: Seq<u8>, n: int) -> Seq<u8>
    decreases n,
{
    if n <= 0 {
        Seq::empty()
    } else {
        json_text(s, n - 1) + json_byte(s[n - 1])
    }
}

fn append_json_text(out: &mut Vec<u8>, s: &Vec<u8>)
    ensures
        final(out)@ == old(out)@ + json_text(s@, s@.len() as int),
{
    let mut i: usize = 0;
    assert(out@ =~= old(out)@ + json_text(s@, 0));
    while i < s.len()
        invariant
            i <= s@.len(),
            out@ == old(out)@ + json_text(s@, i as int),
        decreases s@.len() - i,
    {
        let b: u8 = s[i];
        let ghost before = out@;
        if b == 34 || b == 92 {
            out.push(92);
            out.push(b);
        } else if b < 32 {
            append_ascii(out, "\\u00");
            out.push(make_hex_digit(b / 16));
            out.push(make_hex_digit(b % 16));
        } else {
            out.push(b);
        }
        assert(out@ =~= before + json_byte(b));
        i += 1;
        assert(out@ =~= old(out)@ + json_text(s@, i as int));
    }
}

/// The members of an entry that every JSON line has, without the closing brace.
pub open spec fn json_members(e: AuditLogView) -> Seq<u8> {
    ascii("{\"seq\":"@) + decimal(e.seq as nat) + ascii(",\"timestamp\":"@) + decimal(
        e.timestamp as nat,
    ) + ascii(",\"event_type\":\""@) + ascii(type_label(e.event_type)) + ascii(
        "\",\"actor\":\""@,
    ) + e.actor.text() + ascii("\",\"permissions\":"@) + decimal(e.permissions as nat) + ascii(
        ",\"portfolio\":\""@,
    ) + symbol_text(e.portfolio) + ascii("\",\"outcome\":\""@) + symbol_text(e.outcome) + ascii(
        "\",\"detail\":\""@,
    ) + json_text(encode_utf8(e.detail), encode_utf8(e.detail).len() as int) + ascii("\""@)
}

/// An entry as a JSON line.
pub open spec fn json_row(e: AuditLogView) -> Seq<u8> {
    json_members(e) + ascii("}"@)
}

/// The first `n` fields of a snapshot as JSON objects, separated by commas.
pub open spec fn json_fields(fields: Seq<FieldEntry>, n: int) -> Seq<u8>
    decreases n,
{
    if n <= 0 {
        Seq::empty()
    } else {
        json_fields(fields, n - 1) + (if n == 1 {
            Seq::empty()
        } else {
            ascii(","@)
        }) + ascii("{\"key\":\""@) + symbol_text(fields[n - 1].key) + ascii("\",\"value\":"@)
            + signed_decimal(fields[n - 1].value as int) + ascii("}"@)
    }
}

/// An entry as a JSON line with its snapshots and its hash.
pub open spec fn json_full_row(e: AuditLogView) -> Seq<u8> {
    json_members(e) + ascii(",\"state_before\":["@) + json_fields(
        e.state_before,
        e.state_before.len() as int,
    ) + ascii("],\"state_after\":["@) + json_fields(e.state_after, e.state_after.len() as int)
        + ascii("],\"hash\":\""@) + hex(e.hash.bytes()) + ascii("\"}"@)
}

fn append_bytes(out: &mut Vec<u8>, more: &Vec<u8>)
    ensures
        final(out)@ == old(out)@ + more@,
{
    let mut i: usize = 0;
    assert(out@ =~= old(out)@ + more@.take(0));
    while i < more.len()
        invariant
            i <= more@.len(),
            out@ == old(out)@ + more@.take(i as int),
        decreases more@.len() - i,
    {
        out.push(more[i]);
        i += 1;
        assert(out@ =~= old(out)@ + more@.take(i as int));
    }
    assert(more@.take(i as int) =~= more@);
}

fn make_json_members(e: &AuditLog) -> (out: Vec<u8>)
    ensures
        out@ == json_members(e@),
{
    let mut out: Vec<u8> = Vec::new();
    append_ascii(&mut out, "{\"seq\":");
    append_decimal(&mut out, e.seq as u128);
    append_ascii(&mut out, ",\"timestamp\":");
    append_decimal(&mut out, e.timestamp as u128);
    append_ascii(&mut out, ",\"event_type\":\"");
    append_ascii(&mut out, event_type_label(e.event_type));
    append_ascii(&mut out, "\",\"actor\":\"");
    let actor: Vec<u8> = e.actor.to_text();
    append_bytes(&mut out, &actor);
    append_ascii(&mut out, "\",\"permissions\":");
    append_decimal(&mut out, e.permissions as u128);
    append_ascii(&mut out, ",\"portfolio\":\"");
    append_symbol(&mut out, e.portfolio);
    append_ascii(&mut out, "\",\"outcome\":\"");
    append_symbol(&mut out, e.outcome);
    append_ascii(&mut out, "\",\"detail\":\"");
    let detail: Vec<u8> = e.detail.as_str().as_bytes_vec();
    append_json_text(&mut out, &detail);
    append_ascii(&mut out, "\"");
    assert(out@ =~= json_members(e@));
    out
}

fn append_json_fields(out: &mut Vec<u8>, fields: &Vec<FieldEntry>)
    ensures
        final(out)@ == old(out)@ + json_fields(fields@, fields@.len() as int),
{
    let mut i: usize = 0;
    assert(out@ =~= old(out)@ + json_fields(fields@, 0));
    while i < fields.len()
        invariant
            i <= fields@.len(),
            out@ == old(out)@ + json_fields(fields@, i as int),
        decreases fields@.len() - i,
    {
        let f: FieldEntry = fields[i];
        if i > 0 {
            append_ascii(out, ",");
        }
        append_ascii(out, "{\"key\":\"");
        append_symbol(out, f.key);
        append_ascii(out, "\",\"value\":");
        append_signed(out, f.value);
        append_ascii(out, "}");
        i += 1;
        assert(out@ =~= old(out)@ + json_fields(fields@, i as int));
    }
}

fn make_json_row(e: &AuditLog) -> (out: Vec<u8>)
    ensures
        out@ == json_row(e@),
{
    let mut out: Vec<u8> = make_json_members(e);
    append_ascii(&mut out, "}");
    out
}

fn make_json_full_row(e: &AuditLog) -> (out: Vec<u8>)
    ensures
        out@ == json_full_row(e@),
{
    let mut out: Vec<u8> = make_json_members(e);
    append_ascii(&mut out, ",\"state_before\":[");
    append_json_fields(&mut out, &e.state_before.fields);
    append_ascii(&mut out, "],\"state_after\":[");
    append_json_fields(&mut out, &e.state_after.fields);
    append_ascii(&mut out, "],\"hash\":\"");
    let hash: Vec<u8> = e.hash.to_bytes();
    append_hex(&mut out, &hash);
    append_ascii(&mut out, "\"}");
    assert(out@ =~= json_full_row(e@));
    out
}

// ---------------------------------------------------------------------------
// CSV
// ---------------------------------------------------------------------------

/// A byte that makes a CSV cell need quotes: a comma, a quote or a line break.
pub open spec fn csv_special(b: u8) -> bool {
    b == 44 || b == 34 || b == 10 || b == 13
}

/// The first `n` bytes with every quote doubled.
pub open spec fn doubled(s: Seq<u8>, n: int) -> Seq<u8>
    decreases n,
{
    if n <= 0 {
        Seq::empty()
    } else if s[n - 1] == 34 {
        doubled(s, n - 1).push(34).push(34)
    } else {
        doubled(s, n - 1).push(s[n - 1])
    }
}

/// A CSV cell: in quotes, with quotes doubled, where the text needs it.
pub open spec fn csv_cell(s: Seq<u8>) -> Seq<u8> {
    if exists|i: int| 0 <= i < s.len() && csv_special(#[trigger] s[i]) {
        seq![34u8] + doubled(s, s.len() as int) + seq![34u8]
    } else {
        s
    }
}

fn append_csv_cell(out: &mut Vec<u8>, s: &Vec<u8>)
    ensures
        final(out)@ == old(out)@ + csv_cell(s@),
{
    let mut special: bool = false;
    let mut i: usize = 0;
    while i < s.len()
        invariant
            i <= s@.len(),
            special == exists|j: int| 0 <= j < i && csv_special(#[trigger] s@[j]),
        decreases s@.len() - i,
    {
        if s[i] == 44 || s[i] == 34 || s[i] == 10 || s[i] == 13 {
            special = true;
            assert(csv_special(s@[i as int]));
        }
        i += 1;
    }
    if !special {
        append_bytes(out, s);
        return;
    }
    out.push(34);
    let ghost head = out@;
    let mut k: usize = 0;
    assert(out@ =~= head + doubled(s@, 0));
    while k < s.len()
        invariant
            k <= s@.len(),
            out@ == head + doubled(s@, k as int),
        decreases s@.len() - k,
    {
        if s[k] == 34 {
            out.push(34);
        }
        out.push(s[k]);
        k += 1;
        assert(out@ =~= head + doubled(s@, k as int));
    }
    out.push(34);
    assert(out@ =~= old(out)@ + csv_cell(s@));
}

/// The cells that every CSV row has.
pub open spec fn csv_row(e: AuditLogView) -> Seq<u8> {
    decimal(e.seq as nat) + ascii(","@) + decimal(e.timestamp as nat) + ascii(","@) + ascii(
        type_label(e.event_type),
    ) + ascii(","@) + e.actor.text() + ascii(","@) + decimal(e.permissions as nat) + ascii(","@)
        + symbol_text(e.portfolio) + ascii(","@) + symbol_text(e.outcome) + ascii(","@) + csv_cell(
        encode_utf8(e.detail),
    )
}

/// The first `n` fields of a snapshot in one cell, as `key=value` separated by semicolons.
pub open spec fn csv_fields(fields: Seq<FieldEntry>, n: int) -> Seq<u8>
    decreases n,
{
    if n <= 0 {
        Seq::empty()
    } else {
        csv_fields(fields, n - 1) + (if n == 1 {
            Seq::empty()
        } else {
            ascii(";"@)
        }) + symbol_text(fields[n - 1].key) + ascii("="@) + signed_decimal(
            fields[n - 1].value as int,
        )
    }
}

/// The cells of a CSV row with snapshots and hash.
pub open spec fn csv_full_row(e: AuditLogView) -> Seq<u8> {
    csv_row(e) + ascii(","@) + csv_fields(e.state_before, e.state_before.len() as int) + ascii(
        ","@,
    ) + csv_fields(e.state_after, e.state_after.len() as int) + ascii(","@) + hex(e.hash.bytes())
}

fn make_csv_row(e: &AuditLog) -> (out: Vec<u8>)
    ensures
        out@ == csv_row(e@),
{
    let mut out: Vec<u8> = Vec::new();
    append_decimal(&mut out, e.seq as u128);
    append_ascii(&mut out, ",");
    append_decimal(&mut out, e.timestamp as u128);
    append_ascii(&mut out, ",");
    append_ascii(&mut out, event_type_label(e.event_type));
    append_ascii(&mut out, ",");
    let actor: Vec<u8> = e.actor.to_text();
    append_bytes(&mut out, &actor);
    append_ascii(&mut out, ",");
    append_decimal(&mut out, e.permissions as u128);
    append_ascii(&mut out, ",");
    append_symbol(&mut out, e.portfolio);
    append_ascii(&mut out, ",");
    append_symbol(&mut out, e.outcome);
    append_ascii(&mut out, ",");
    let detail: Vec<u8> = e.detail.as_str().as_bytes_vec();
    append_csv_cell(&mut out, &detail);
    assert(out@ =~= csv_row(e@));
    out
}

fn append_csv_fields(out: &mut Vec<u8>, fields: &Vec<FieldEntry>)
    ensures
        final(out)@ == old(out)@ + csv_fields(fields@, fields@.len() as int),
{
    let mut i: usize = 0;
    assert(out@ =~= old(out)@ + csv_fields(fields@, 0));
    while i < fields.len()
        invariant
            i <= fields@.len(),
            out@ == old(out)@ + csv_fields(fields@, i as int),
        decreases fields@.len() - i,
    {
        let f: FieldEntry = fields[i];
        if i > 0 {
            append_ascii(out, ";");
        }
        append_symbol(out, f.key);
        append_ascii(out, "=");
        append_signed(out, f.value);
        i += 1;
        assert(out@ =~= old(out)@ + csv_fields(fields@, i as int));
    }
}

fn make_csv_full_row(e: &AuditLog) -> (out: Vec<u8>)
    ensures
        out@ == csv_full_row(e@),
{
    let mut out: Vec<u8> = make_csv_row(e);
    append_ascii(&mut out, ",");
    append_csv_fields(&mut out, &e.state_before.fields);
    append_ascii(&mut out, ",");
    append_csv_fields(&mut out, &e.state_after.fields);
    append_ascii(&mut out, ",");
    let hash: Vec<u8> = e.hash.to_bytes();
    append_hex(&mut out, &hash);
    assert(out@ =~= csv_full_row(e@));
    out
}

// ---------------------------------------------------------------------------
// Rows
// ---------------------------------------------------------------------------

/// The contents of a list of rows.
pub open spec fn rows_view(rows: Seq<Vec<u8>>) -> Seq<Seq<u8>> {
    rows.map_values(|v: Vec<u8>| v@)
}

/// One JSON line per entry.
pub fn format_jsonl(entries: &Vec<AuditLog>) -> (rows: Vec<Vec<u8>>)
    ensures
        rows_view(rows@) == views(entries@).map_values(|e: AuditLogView| json_row(e)),
{
    let mut rows: Vec<Vec<u8>> = Vec::new();
    let mut i: usize = 0;
    while i < entries.len()
        invariant
            i <= entries@.len(),
            rows@.len() == i,
            forall|j: int| 0 <= j < i ==> (#[trigger] rows@[j])@ == json_row(entries@[j]@),
        decreases entries@.len() - i,
    {
        rows.push(make_json_row(&entries[i]));
        i += 1;
    }
    assert(rows_view(rows@) =~= views(entries@).map_values(|e: AuditLogView| json_row(e)));
    rows
}

/// One JSON line per entry, with snapshots and hash.
pub fn format_jsonl_full(entries: &Vec<AuditLog>) -> (rows: Vec<Vec<u8>>)
    ensures
        rows_view(rows@) == views(entries@).map_values(|e: AuditLogView| json_full_row(e)),
{
    let mut rows: Vec<Vec<u8>> = Vec::new();
    let mut i: usize = 0;
    while i < entries.len()
        invariant
            i <= entries@.len(),
            rows@.len() == i,
            forall|j: int| 0 <= j < i ==> (#[trigger] rows@[j])@ == json_full_row(entries@[j]@),
        decreases entries@.len() - i,
    {
        rows.push(make_json_full_row(&entries[i]));
        i += 1;
    }
    assert(rows_view(rows@) =~= views(entries@).map_values(|e: AuditLogView| json_full_row(e)));
    rows
}

/// The header, then one CSV row per entry.
pub fn format_csv(entries: &Vec<AuditLog>) -> (rows: Vec<Vec<u8>>)
    ensures
        rows_view(rows@) == seq![ascii(CSV_HEADER@)] + views(entries@).map_values(
            |e: AuditLogView| csv_row(e),
        ),
{
    let mut rows: Vec<Vec<u8>> = Vec::new();
    let mut header: Vec<u8> = Vec::new();
    append_ascii(&mut header, CSV_HEADER);
    assert(header@ =~= ascii(CSV_HEADER@));
    rows.push(header);
    let mut i: usize = 0;
    while i < entries.len()
        invariant
            i <= entries@.len(),
            rows@.len() == i + 1,
            rows@[0]@ == ascii(CSV_HEADER@),
            forall|j: int| 0 <= j < i ==> (#[trigger] rows@[j + 1])@ == csv_row(entries@[j]@),
        decreases entries@.len() - i,
    {
        rows.push(make_csv_row(&entries[i]));
        i += 1;
    }
    proof {
        let want = seq![ascii(CSV_HEADER@)] + views(entries@).map_values(
            |e: AuditLogView| csv_row(e),
        );
        assert forall|j: int| 0 <= j < want.len() implies rows_view(rows@)[j] == want[j] by {
            if j > 0 {
                assert(rows@[(j - 1) + 1]@ == csv_row(entries@[j - 1]@));
            }
        }
        assert(rows_view(rows@) =~= want);
    }
    rows
}

/// The header, then one CSV row per entry, with snapshots and hash.
pub fn format_csv_full(entries: &Vec<AuditLog>) -> (rows: Vec<Vec<u8>>)
    ensures
        rows_view(rows@) == seq![ascii(CSV_FULL_HEADER@)] + views(entries@).map_values(
            |e: AuditLogView| csv_full_row(e),
        ),
{
    let mut rows: Vec<Vec<u8>> = Vec::new();
    let mut header: Vec<u8> = Vec::new();
    append_ascii(&mut header, CSV_FULL_HEADER);
    assert(header@ =~= ascii(CSV_FULL_HEADER@));
    rows.push(header);
    let mut i: usize = 0;
    while i < entries.len()
        invariant
            i <= entries@.len(),
            rows@.len() == i + 1,
            rows@[0]@ == ascii(CSV_FULL_HEADER@),
            forall|j: int| 0 <= j < i ==> (#[trigger] rows@[j + 1])@ == csv_full_row(entries@[j]@),
        decreases entries@.len() - i,
    {
        rows.push(make_csv_full_row(&entries[i]));
        i += 1;
    }
    proof {
        let want = seq![ascii(CSV_FULL_HEADER@)] + views(entries@).map_values(
            |e: AuditLogView| csv_full_row(e),
        );
        assert forall|j: int| 0 <= j < want.len() implies rows_view(rows@)[j] == want[j] by {
            if j > 0 {
                assert(rows@[(j - 1) + 1]@ == csv_full_row(entries@[j - 1]@));
            }
        }
        assert(rows_view(rows@) =~= want);
    }
    rows
}

} // verus!
