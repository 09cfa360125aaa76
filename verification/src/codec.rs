//! The canonical textual form of the crate's values: deterministic encodings
//! for nemeses and history entries, and a decoder for entries, so the
//! finished history can be handed to the external checker as text and read
//! back unchanged.
use vstd::prelude::*;

pub mod entry;

use crate::ids::IdSet;
use crate::nemesis::{
    AllNemesis, AllNemesisView, NemesisRecord, NemesisRecordView, NemesisType,
    NemesisTypeView, NetRecord,
};

verus! {

/// The decimal digit character for `d`.
pub open spec fn digit_char(d: nat) -> char {
    if d == 0 {
        '0'
    } else if d == 1 {
        '1'
    } else if d == 2 {
        '2'
    } else if d == 3 {
        '3'
    } else if d == 4 {
        '4'
    } else if d == 5 {
        '5'
    } else if d == 6 {
        '6'
    } else if d == 7 {
        '7'
    } else if d == 8 {
        '8'
    } else {
        '9'
    }
}

/// The decimal digits of `n`, most significant first, no leading zero.
pub open spec fn dec_digits(n: nat) -> Seq<char>
    decreases n,
{
    if n < 10 {
        seq![digit_char(n)]
    } else {
        dec_digits(n / 10).push(digit_char(n % 10))
    }
}

/// Append one decimal digit.
fn push_digit(out: &mut Vec<char>, d: u64)
    requires
        d < 10,
    ensures
        final(out)@ == old(out)@.push(digit_char(d as nat)),
{
    let c: char = match d {
        0 => '0',
        1 => '1',
        2 => '2',
        3 => '3',
        4 => '4',
        5 => '5',
        6 => '6',
        7 => '7',
        8 => '8',
        _ => '9',
    };
    out.push(c);
}

/// Append the decimal digits of `n`.
pub fn push_dec(out: &mut Vec<char>, n: u64)
    ensures
        final(out)@ == old(out)@ + dec_digits(n as nat),
    decreases n,
{
    if n < 10 {
        push_digit(out, n);
        proof {
            assert(out@ =~= old(out)@ + dec_digits(n as nat));
        }
    } else {
        push_dec(out, n / 10);
        push_digit(out, n % 10);
        proof {
            assert(out@ =~= old(out)@ + dec_digits(n as nat));
        }
    }
}

/// Append every character of `s`.
pub fn push_str_lit(out: &mut Vec<char>, s: &str)
    ensures
        final(out)@ == old(out)@ + s@,
{
    let chars = str_to_chars(s);
    let mut i: usize = 0;
    while i < chars.len()
        invariant
            i <= chars@.len(),
            chars@ == s@,
            out@ == old(out)@ + chars@.take(i as int),
        decreases chars@.len() - i,
    {
        out.push(chars[i]);
        proof {
            assert(out@ =~= old(out)@ + chars@.take(i + 1));
        }
        i += 1;
    }
    proof {
        assert(chars@.take(chars@.len() as int) =~= chars@);
    }
}

/// The members of an id list, separated by commas.
pub open spec fn ids_items(s: Seq<u64>) -> Seq<char>
    decreases s.len(),
{
    if s.len() == 0 {
        Seq::empty()
    } else if s.len() == 1 {
        dec_digits(s[0] as nat)
    } else {
        ids_items(s.drop_last()) + seq![','] + dec_digits(s.last() as nat)
    }
}

/// An id list in canonical text: the ids in their sorted order, between
/// square brackets.
pub open spec fn ids_json(s: Seq<u64>) -> Seq<char> {
    seq!['['] + ids_items(s) + seq![']']
}

/// Append the canonical text of an id set.
pub fn push_ids(out: &mut Vec<char>, ids: &IdSet)
    ensures
        final(out)@ == old(out)@ + ids_json(ids@),
{
    out.push('[');
    let mut i: usize = 0;
    while i < ids.len()
        invariant
            i <= ids@.len(),
            out@ == old(out)@ + seq!['['] + ids_items(ids@.take(i as int)),
        decreases ids@.len() - i,
    {
        if i > 0 {
            out.push(',');
        }
        push_dec(out, ids.index(i));
        proof {
            assert(ids@.take(i + 1).drop_last() =~= ids@.take(i as int));
            assert(ids@.take(i + 1).last() == ids@[i as int]);
            assert(out@ =~= old(out)@ + seq!['['] + ids_items(ids@.take(i + 1)));
        }
        i += 1;
    }
    out.push(']');
    proof {
        assert(ids@.take(ids@.len() as int) =~= ids@);
        assert(out@ =~= old(out)@ + ids_json(ids@));
    }
}

/// One link entry of a network fault record: the server id as a quoted key,
/// then the peer ids it cannot reach.
pub open spec fn net_entry_json(entry: (u64, Seq<u64>)) -> Seq<char> {
    seq!['"'] + dec_digits(entry.0 as nat) + seq!['"', ':'] + ids_json(entry.1)
}

/// The link entries of a network fault record, separated by commas.
pub open spec fn net_items(s: Seq<(u64, Seq<u64>)>) -> Seq<char>
    decreases s.len(),
{
    if s.len() == 0 {
        Seq::empty()
    } else if s.len() == 1 {
        net_entry_json(s[0])
    } else {
        net_items(s.drop_last()) + seq![','] + net_entry_json(s.last())
    }
}

/// A network fault record in canonical text: its entries in sorted key
/// order, between curly braces.
pub open spec fn net_json(s: Seq<(u64, Seq<u64>)>) -> Seq<char> {
    seq!['{'] + net_items(s) + seq!['}']
}

/// Append the canonical text of a network fault record.
pub fn push_net(out: &mut Vec<char>, net: &NetRecord)
    ensures
        final(out)@ == old(out)@ + net_json(net@),
{
    out.push('{');
    let mut i: usize = 0;
    while i < net.len()
        invariant
            i <= net@.len(),
            out@ == old(out)@ + seq!['{'] + net_items(net@.take(i as int)),
        decreases net@.len() - i,
    {
        if i > 0 {
            out.push(',');
        }
        out.push('"');
        push_dec(out, net.server_at(i));
        out.push('"');
        out.push(':');
        push_ids(out, net.peers_at(i));
        proof {
            assert(net@.take(i + 1).drop_last() =~= net@.take(i as int));
            assert(net@.take(i + 1).last() == net@[i as int]);
            assert(out@ =~= old(out)@ + seq!['{'] + net_items(net@.take(i + 1)));
        }
        i += 1;
    }
    out.push('}');
    proof {
        assert(net@.take(net@.len() as int) =~= net@);
        assert(out@ =~= old(out)@ + net_json(net@));
    }
}

/// A fault intent in canonical text: the variant's name, with its servers
/// or count where it has them.
pub open spec fn type_json(t: NemesisTypeView) -> Seq<char> {
    match t {
        NemesisTypeView::Noop => "\"Noop\""@,
        NemesisTypeView::Kill(ids) => "{\"Kill\":"@ + ids_json(ids) + "}"@,
        NemesisTypeView::Pause(ids) => "{\"Pause\":"@ + ids_json(ids) + "}"@,
        NemesisTypeView::SplitOne(id) => "{\"SplitOne\":"@ + dec_digits(id as nat) + "}"@,
        NemesisTypeView::PartitionHalves(ids) => "{\"PartitionHalves\":"@ + ids_json(ids)
            + "}"@,
        NemesisTypeView::PartitionRandomN(n) => "{\"PartitionRandomN\":"@ + dec_digits(n)
            + "}"@,
        NemesisTypeView::PartitionMajoritiesRing => "\"PartitionMajoritiesRing\""@,
        NemesisTypeView::PartitionLeaderAndMajority => "\"PartitionLeaderAndMajority\""@,
        NemesisTypeView::LeaderSendToMajorityButCannotReceive => "\"LeaderSendToMajorityButCannotReceive\""@,
    }
}

/// Append the canonical text of a fault intent.
pub fn push_type(out: &mut Vec<char>, t: &NemesisType)
    ensures
        final(out)@ == old(out)@ + type_json(t@),
{
    match t {
        NemesisType::Noop => push_str_lit(out, "\"Noop\""),
        NemesisType::Kill(ids) => {
            push_str_lit(out, "{\"Kill\":");
            push_ids(out, ids);
            push_str_lit(out, "}");
        },
        NemesisType::Pause(ids) => {
            push_str_lit(out, "{\"Pause\":");
            push_ids(out, ids);
            push_str_lit(out, "}");
        },
        NemesisType::SplitOne(id) => {
            push_str_lit(out, "{\"SplitOne\":");
            push_dec(out, *id);
            push_str_lit(out, "}");
        },
        NemesisType::PartitionHalves(ids) => {
            push_str_lit(out, "{\"PartitionHalves\":");
            push_ids(out, ids);
            push_str_lit(out, "}");
        },
        NemesisType::PartitionRandomN(n) => {
            push_str_lit(out, "{\"PartitionRandomN\":");
            push_usize_dec(out, *n);
            push_str_lit(out, "}");
        },
        NemesisType::PartitionMajoritiesRing => push_str_lit(
            out,
            "\"PartitionMajoritiesRing\"",
        ),
        NemesisType::PartitionLeaderAndMajority => push_str_lit(
            out,
            "\"PartitionLeaderAndMajority\"",
        ),
        NemesisType::LeaderSendToMajorityButCannotReceive => push_str_lit(
            out,
            "\"LeaderSendToMajorityButCannotReceive\"",
        ),
    }
    proof {
        assert(out@ =~= old(out)@ + type_json(t@));
    }
}

/// Append the decimal digits of a machine-sized count.
fn push_usize_dec(out: &mut Vec<char>, n: usize)
    ensures
        final(out)@ == old(out)@ + dec_digits(n as nat),
{
    push_dec(out, n as u64);
}

/// A fault record in canonical text: the variant's name, with its servers
/// or cut links where it has them.
pub open spec fn record_json(r: NemesisRecordView) -> Seq<char> {
    match r {
        NemesisRecordView::Noop => "\"Noop\""@,
        NemesisRecordView::Kill(ids) => "{\"Kill\":"@ + ids_json(ids) + "}"@,
        NemesisRecordView::Pause(ids) => "{\"Pause\":"@ + ids_json(ids) + "}"@,
        NemesisRecordView::Net(links) => "{\"Net\":"@ + net_json(links) + "}"@,
    }
}

/// Append the canonical text of a fault record.
pub fn push_record(out: &mut Vec<char>, r: &NemesisRecord)
    ensures
        final(out)@ == old(out)@ + record_json(r@),
{
    match r {
        NemesisRecord::Noop => push_str_lit(out, "\"Noop\""),
        NemesisRecord::Kill(ids) => {
            push_str_lit(out, "{\"Kill\":");
            push_ids(out, ids);
            push_str_lit(out, "}");
        },
        NemesisRecord::Pause(ids) => {
            push_str_lit(out, "{\"Pause\":");
            push_ids(out, ids);
            push_str_lit(out, "}");
        },
        NemesisRecord::Net(links) => {
            push_str_lit(out, "{\"Net\":");
            push_net(out, links);
            push_str_lit(out, "}");
        },
    }
    proof {
        assert(out@ =~= old(out)@ + record_json(r@));
    }
}

/// The textual description under which a nemesis appears in the history:
/// whether it executes a fault or recovers one, then the fault itself.
pub open spec fn all_nemesis_text(n: AllNemesisView) -> Seq<char> {
    match n {
        AllNemesisView::Execute(t) => "Execute: "@ + type_json(t),
        AllNemesisView::Recover(r) => "Recover: "@ + record_json(r),
    }
}

/// The textual description of a generated nemesis.
pub fn describe_all_nemesis(n: &AllNemesis) -> (s: String)
    ensures
        s@ == all_nemesis_text(n@),
{
    let mut out: Vec<char> = Vec::new();
    match n {
        AllNemesis::Execute(t) => {
            push_str_lit(&mut out, "Execute: ");
            push_type(&mut out, t);
        },
        AllNemesis::Recover(r) => {
            push_str_lit(&mut out, "Recover: ");
            push_record(&mut out, r);
        },
    }
    proof {
        assert(out@ =~= all_nemesis_text(n@));
    }
    chars_to_string(&out)
}

/// The remainder of `s` after a fixed prefix, if `s` starts with it.
pub open spec fn parse_lit(lit: Seq<char>, s: Seq<char>) -> Option<Seq<char>> {
    if lit.len() <= s.len() && s.take(lit.len() as int) == lit {
        Some(s.skip(lit.len() as int))
    } else {
        None
    }
}

/// Parsing a literal off a text that starts with it leaves the rest.
pub proof fn lemma_parse_lit(lit: Seq<char>, rest: Seq<char>)
    ensures
        parse_lit(lit, lit + rest) == Some(rest),
{
    assert((lit + rest).take(lit.len() as int) =~= lit);
    assert((lit + rest).skip(lit.len() as int) =~= rest);
}

/// Whether `c` is a decimal digit.
pub open spec fn is_digit(c: char) -> bool {
    c == '0' || c == '1' || c == '2' || c == '3' || c == '4' || c == '5' || c == '6' || c
        == '7' || c == '8' || c == '9'
}

/// The value of a decimal digit character; zero on anything else.
pub open spec fn digit_val(c: char) -> nat {
    if c == '1' {
        1
    } else if c == '2' {
        2
    } else if c == '3' {
        3
    } else if c == '4' {
        4
    } else if c == '5' {
        5
    } else if c == '6' {
        6
    } else if c == '7' {
        7
    } else if c == '8' {
        8
    } else if c == '9' {
        9
    } else {
        0
    }
}

/// How many decimal digits `s` starts with.
pub open spec fn digits_prefix(s: Seq<char>) -> nat
    decreases s.len(),
{
    if s.len() == 0 || !is_digit(s[0]) {
        0
    } else {
        1 + digits_prefix(s.drop_first())
    }
}

/// The value of a run of decimal digits, most significant first.
pub open spec fn digits_val(d: Seq<char>) -> nat
    decreases d.len(),
{
    if d.len() == 0 {
        0
    } else {
        digits_val(d.drop_last()) * 10 + digit_val(d.last())
    }
}

/// The number a text starts with and what follows it. There is none if the
/// text does not start with a digit or the digits outgrow 64 bits.
pub open spec fn parse_u64(s: Seq<char>) -> Option<(u64, Seq<char>)> {
    let k = digits_prefix(s);
    if k == 0 {
        None
    } else if digits_val(s.take(k as int)) > u64::MAX {
        None
    } else {
        Some(((digits_val(s.take(k as int)) as u64), s.skip(k as int)))
    }
}

/// Every character `dec_digits` writes is a digit, and the digits of `n`
/// evaluate back to `n`.
pub proof fn lemma_dec_digits(n: nat)
    ensures
        dec_digits(n).len() > 0,
        forall|i: int| 0 <= i < dec_digits(n).len() ==> is_digit(#[trigger] dec_digits(n)[i]),
        digits_val(dec_digits(n)) == n,
    decreases n,
{
    if n < 10 {
        assert(dec_digits(n) =~= seq![digit_char(n)]);
        assert(seq![digit_char(n)].drop_last() =~= Seq::<char>::empty());
        assert(digits_val(Seq::<char>::empty()) == 0);
        assert(seq![digit_char(n)].last() == digit_char(n));
        assert(digit_val(digit_char(n)) == n);
    } else {
        lemma_dec_digits(n / 10);
        let d = dec_digits(n / 10).push(digit_char(n % 10));
        assert(d.drop_last() =~= dec_digits(n / 10));
        assert(digits_val(d) == (n / 10) * 10 + n % 10);
        assert((n / 10) * 10 + n % 10 == n) by (nonlinear_arith);
        assert forall|i: int| 0 <= i < d.len() implies is_digit(#[trigger] d[i]) by {
            if i < d.len() - 1 {
                assert(d[i] == dec_digits(n / 10)[i]);
            }
        }
    }
}

/// A run of digits followed by anything that does not start with a digit is
/// scanned to exactly its own length.
pub proof fn lemma_digits_prefix(d: Seq<char>, rest: Seq<char>)
    requires
        forall|i: int| 0 <= i < d.len() ==> is_digit(#[trigger] d[i]),
        rest.len() == 0 || !is_digit(rest[0]),
    ensures
        digits_prefix(d + rest) == d.len(),
    decreases d.len(),
{
    if d.len() == 0 {
        assert(d + rest =~= rest);
    } else {
        lemma_digits_prefix(d.drop_first(), rest);
        assert((d + rest).drop_first() =~= d.drop_first() + rest);
        assert(is_digit((d + rest)[0]));
    }
}

/// Parsing a number off the digits of `n` followed by anything that does
/// not start with a digit yields `n` and the rest.
pub proof fn lemma_parse_u64(n: u64, rest: Seq<char>)
    requires
        rest.len() == 0 || !is_digit(rest[0]),
    ensures
        parse_u64(dec_digits(n as nat) + rest) == Some((n, rest)),
{
    let d = dec_digits(n as nat);
    lemma_dec_digits(n as nat);
    lemma_digits_prefix(d, rest);
    assert((d + rest).take(d.len() as int) =~= d);
    assert((d + rest).skip(d.len() as int) =~= rest);
}

/// One character, escaped for a quoted string: quotes and backslashes get a
/// backslash in front; everything else stands for itself.
pub open spec fn escape_char(c: char) -> Seq<char> {
    if c == '"' || c == '\\' {
        seq!['\\', c]
    } else {
        seq![c]
    }
}

/// A character sequence, escaped for a quoted string.
pub open spec fn escaped(s: Seq<char>) -> Seq<char>
    decreases s.len(),
{
    if s.len() == 0 {
        Seq::empty()
    } else {
        escape_char(s[0]) + escaped(s.drop_first())
    }
}

/// A quoted string in canonical text.
pub open spec fn quoted(s: Seq<char>) -> Seq<char> {
    seq!['"'] + escaped(s) + seq!['"']
}

/// The body of a quoted string: the characters up to the closing quote,
/// unescaped, and what follows the closing quote.
pub open spec fn parse_string_body(s: Seq<char>) -> Option<(Seq<char>, Seq<char>)>
    decreases s.len(),
{
    if s.len() == 0 {
        None
    } else if s[0] == '"' {
        Some((Seq::empty(), s.drop_first()))
    } else if s[0] == '\\' {
        if s.len() >= 2 {
            match parse_string_body(s.skip(2)) {
                Some(parsed) => Some((seq![s[1]] + parsed.0, parsed.1)),
                None => None,
            }
        } else {
            None
        }
    } else {
        match parse_string_body(s.drop_first()) {
            Some(parsed) => Some((seq![s[0]] + parsed.0, parsed.1)),
            None => None,
        }
    }
}

/// The string a text starts with — between quotes, with escapes — and what
/// follows it.
pub open spec fn parse_string(s: Seq<char>) -> Option<(Seq<char>, Seq<char>)> {
    if s.len() > 0 && s[0] == '"' {
        parse_string_body(s.drop_first())
    } else {
        None
    }
}

/// Scanning the escaped body of `t` up to a closing quote yields `t` and
/// what follows the quote.
pub proof fn lemma_parse_string_body(t: Seq<char>, rest: Seq<char>)
    ensures
        parse_string_body(escaped(t) + seq!['"'] + rest) == Some((t, rest)),
    decreases t.len(),
{
    if t.len() == 0 {
        assert(escaped(t) + seq!['"'] + rest =~= seq!['"'] + rest);
        assert((seq!['"'] + rest)[0] == '"');
        assert((seq!['"'] + rest).drop_first() =~= rest);
    } else {
        lemma_parse_string_body(t.drop_first(), rest);
        let s = escaped(t) + seq!['"'] + rest;
        let tail = escaped(t.drop_first()) + seq!['"'] + rest;
        if t[0] == '"' || t[0] == '\\' {
            assert(s =~= seq!['\\', t[0]] + tail);
            assert(s[0] == '\\');
            assert(s[1] == t[0]);
            assert(s.len() >= 2);
            assert(s.skip(2) =~= tail);
            assert(seq![t[0]] + t.drop_first() =~= t);
        } else {
            assert(s =~= seq![t[0]] + tail);
            assert(s[0] != '"' && s[0] != '\\');
            assert(s.drop_first() =~= tail);
            assert(seq![t[0]] + t.drop_first() =~= t);
        }
    }
}

/// Parsing a string off the quoted form of `t` yields `t` and the rest.
pub proof fn lemma_parse_string(t: Seq<char>, rest: Seq<char>)
    ensures
        parse_string(quoted(t) + rest) == Some((t, rest)),
{
    let s = quoted(t) + rest;
    assert(s[0] == '"');
    assert(s.drop_first() =~= escaped(t) + seq!['"'] + rest);
    lemma_parse_string_body(t, rest);
}

/// Append the quoted, escaped form of `s`.
pub fn push_quoted(out: &mut Vec<char>, s: &str)
    ensures
        final(out)@ == old(out)@ + quoted(s@),
{
    let chars = str_to_chars(s);
    out.push('"');
    push_escaped_from(out, &chars, 0);
    out.push('"');
    proof {
        assert(chars@.skip(0) =~= s@);
        assert(out@ =~= old(out)@ + quoted(s@));
    }
}

/// Append the escaped form of the characters of `chars` from `from` on.
fn push_escaped_from(out: &mut Vec<char>, chars: &Vec<char>, from: usize)
    requires
        from <= chars@.len(),
    ensures
        final(out)@ == old(out)@ + escaped(chars@.skip(from as int)),
    decreases chars@.len() - from,
{
    if from == chars.len() {
        proof {
            assert(chars@.skip(from as int) =~= Seq::<char>::empty());
            assert(out@ =~= old(out)@ + escaped(chars@.skip(from as int)));
        }
        return ;
    }
    let c = chars[from];
    if c == '"' || c == '\\' {
        out.push('\\');
        out.push(c);
    } else {
        out.push(c);
    }
    push_escaped_from(out, chars, from + 1);
    proof {
        assert(chars@.skip(from as int).drop_first() =~= chars@.skip(from as int + 1));
        assert(chars@.skip(from as int)[0] == c);
        assert(out@ =~= old(out)@ + escaped(chars@.skip(from as int)));
    }
}

/// Whether `c` is a decimal digit.
pub fn is_digit_char(c: char) -> (r: bool)
    ensures
        r == is_digit(c),
{
    c == '0' || c == '1' || c == '2' || c == '3' || c == '4' || c == '5' || c == '6' || c
        == '7' || c == '8' || c == '9'
}

/// The value of a decimal digit character.
fn digit_value(c: char) -> (d: u64)
    ensures
        d == digit_val(c),
        d < 10,
{
    match c {
        '1' => 1,
        '2' => 2,
        '3' => 3,
        '4' => 4,
        '5' => 5,
        '6' => 6,
        '7' => 7,
        '8' => 8,
        '9' => 9,
        _ => 0,
    }
}

/// The 64-bit value of the digits at positions `pos..pos + n` of `buf`, or
/// nothing if they outgrow 64 bits.
fn value_of_digits(buf: &Vec<char>, pos: usize, n: usize) -> (r: Option<u64>)
    requires
        pos + n <= buf@.len(),
        forall|j: int| pos <= j < pos + n ==> is_digit(#[trigger] buf@[j]),
    ensures
        match r {
            Some(v) => digits_val(buf@.subrange(pos as int, pos as int + n)) <= u64::MAX
                && v == digits_val(buf@.subrange(pos as int, pos as int + n)),
            None => digits_val(buf@.subrange(pos as int, pos as int + n)) > u64::MAX,
        },
    decreases n,
{
    let len = buf.len();
    if n == 0 {
        proof {
            assert(buf@.subrange(pos as int, pos as int) =~= Seq::<char>::empty());
        }
        return Some(0);
    }
    let prefix = value_of_digits(buf, pos, n - 1);
    proof {
        let whole = buf@.subrange(pos as int, pos as int + n);
        assert(whole.drop_last() =~= buf@.subrange(pos as int, pos as int + (n - 1)));
        assert(whole.last() == buf@[pos + n - 1]);
    }
    match prefix {
        None => {
            proof {
                let below = digits_val(buf@.subrange(pos as int, pos as int + (n - 1)));
                assert(below * 10 >= below) by (nonlinear_arith)
                    requires below >= 0;
            }
            None
        },
        Some(v) => {
            let d = digit_value(buf[pos + n - 1]);
            if v > (u64::MAX - d) / 10 {
                proof {
                    let limit = (u64::MAX - d) as nat;
                    assert(v * 10 > limit) by (nonlinear_arith)
                        requires v > limit / 10;
                }
                None
            } else {
                proof {
                    let limit = (u64::MAX - d) as nat;
                    assert(v * 10 <= limit - limit % 10) by (nonlinear_arith)
                        requires v <= limit / 10;
                }
                Some(v * 10 + d)
            }
        },
    }
}

/// The number the text starting at `pos` in `buf` begins with, and the
/// position after it, exactly as `parse_u64` reads it.
pub fn scan_u64(buf: &Vec<char>, pos: usize) -> (r: Option<(u64, usize)>)
    requires
        pos <= buf@.len(),
    ensures
        match r {
            Some(parsed) => pos < parsed.1 <= buf@.len() && parse_u64(
                buf@.skip(pos as int),
            ) == Some((parsed.0, buf@.skip(parsed.1 as int))),
            None => parse_u64(buf@.skip(pos as int)) is None,
        },
{
    let ghost s = buf@.skip(pos as int);
    let len = buf.len();
    let mut k: usize = 0;
    while k < len - pos && is_digit_char(buf[pos + k])
        invariant
            len == buf@.len(),
            pos + k <= buf@.len(),
            forall|j: int| pos <= j < pos + k ==> is_digit(#[trigger] buf@[j]),
        decreases buf@.len() - (pos + k),
    {
        k += 1;
    }
    proof {
        assert(s.take(k as int) =~= buf@.subrange(pos as int, pos as int + k));
        assert(s =~= s.take(k as int) + s.skip(k as int));
        assert forall|i: int| 0 <= i < k implies is_digit(#[trigger] s.take(k as int)[i]) by {
            assert(s.take(k as int)[i] == buf@[pos + i]);
        }
        if k < s.len() {
            assert(s.skip(k as int)[0] == buf@[pos + k]);
        }
        lemma_digits_prefix(s.take(k as int), s.skip(k as int));
        assert(digits_prefix(s) == k);
    }
    if k == 0 {
        return None;
    }
    match value_of_digits(buf, pos, k) {
        Some(v) => {
            proof {
                assert(buf@.skip(pos as int + k) =~= s.skip(k as int));
            }
            Some((v, pos + k))
        },
        None => None,
    }
}

/// Scan the body of a quoted string from `pos`, unescaping into `acc`, and
/// say where the closing quote ended, exactly as `parse_string_body` reads
/// it.
fn scan_string_body(buf: &Vec<char>, pos: usize, acc: &mut Vec<char>) -> (r: Option<usize>)
    requires
        pos <= buf@.len(),
    ensures
        match r {
            Some(p) => {
                &&& pos < p <= buf@.len()
                &&& parse_string_body(buf@.skip(pos as int)) matches Some(parsed)
                    && final(acc)@ == old(acc)@ + parsed.0 && parsed.1 == buf@.skip(p as int)
            },
            None => {
                &&& parse_string_body(buf@.skip(pos as int)) is None
                &&& final(acc)@ == old(acc)@
            },
        },
    decreases buf@.len() - pos,
{
    if pos == buf.len() {
        proof {
            assert(buf@.skip(pos as int) =~= Seq::<char>::empty());
        }
        return None;
    }
    let ghost s = buf@.skip(pos as int);
    let c = buf[pos];
    proof {
        assert(s[0] == c);
    }
    if c == '"' {
        proof {
            assert(s.drop_first() =~= buf@.skip(pos as int + 1));
        }
        return Some(pos + 1);
    }
    if c == '\\' {
        if pos + 1 == buf.len() {
            proof {
                assert(s.len() == 1);
            }
            return None;
        }
        let escaped_char = buf[pos + 1];
        acc.push(escaped_char);
        let r = scan_string_body(buf, pos + 2, acc);
        proof {
            assert(s.skip(2) =~= buf@.skip(pos as int + 2));
            assert(s[1] == escaped_char);
        }
        match r {
            Some(p) => {
                proof {
                    let parsed = parse_string_body(s.skip(2))->Some_0;
                    assert(acc@ =~= old(acc)@ + (seq![s[1]] + parsed.0));
                }
                return Some(p);
            },
            None => {
                let _popped = acc.pop();
                proof {
                    assert(acc@ =~= old(acc)@);
                }
                return None;
            },
        }
    }
    acc.push(c);
    let r = scan_string_body(buf, pos + 1, acc);
    proof {
        assert(s.drop_first() =~= buf@.skip(pos as int + 1));
    }
    match r {
        Some(p) => {
            proof {
                let parsed = parse_string_body(s.drop_first())->Some_0;
                assert(acc@ =~= old(acc)@ + (seq![s[0]] + parsed.0));
            }
            Some(p)
        },
        None => {
            let _popped = acc.pop();
            proof {
                assert(acc@ =~= old(acc)@);
            }
            None
        },
    }
}

/// The string the text starting at `pos` in `buf` begins with — between
/// quotes, with escapes — and the position after its closing quote, exactly
/// as `parse_string` reads it.
pub fn scan_string(buf: &Vec<char>, pos: usize) -> (r: Option<(String, usize)>)
    requires
        pos <= buf@.len(),
    ensures
        match r {
            Some(parsed) => pos < parsed.1 <= buf@.len() && parse_string(
                buf@.skip(pos as int),
            ) == Some((parsed.0@, buf@.skip(parsed.1 as int))),
            None => parse_string(buf@.skip(pos as int)) is None,
        },
{
    if pos == buf.len() {
        proof {
            assert(buf@.skip(pos as int) =~= Seq::<char>::empty());
        }
        return None;
    }
    if buf[pos] != '"' {
        proof {
            assert(buf@.skip(pos as int)[0] == buf@[pos as int]);
        }
        return None;
    }
    let mut acc: Vec<char> = Vec::new();
    proof {
        assert(buf@.skip(pos as int)[0] == buf@[pos as int]);
        assert(buf@.skip(pos as int).drop_first() =~= buf@.skip(pos as int + 1));
    }
    match scan_string_body(buf, pos + 1, &mut acc) {
        Some(p) => {
            let text = chars_to_string(&acc);
            proof {
                assert(acc@ =~= Seq::<char>::empty() + acc@);
            }
            Some((text, p))
        },
        None => None,
    }
}

/// Relies on `str`'s `PartialEq`: two string slices are equal exactly when
/// their character sequences are.
#[verifier::external_body]
pub(crate) fn str_eq(a: &str, b: &str) -> (r: bool)
    ensures
        r == (a@ == b@),
{
    a == b
}

/// Relies on `str::chars` and `Iterator::collect`: iterating a string's
/// characters yields exactly its character sequence.
#[verifier::external_body]
pub(crate) fn str_to_chars(s: &str) -> (chars: Vec<char>)
    ensures
        chars@ == s@,
{
    s.chars().collect()
}

/// Relies on `String`'s `FromIterator` over `char`s: collecting characters
/// yields the string of exactly those characters, in order.
#[verifier::external_body]
pub(crate) fn chars_to_string(chars: &Vec<char>) -> (s: String)
    ensures
        s@ == chars@,
{
    chars.iter().collect()
}

} // verus!
