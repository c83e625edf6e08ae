//! Parsing of line-oriented `Name: value unit` status reports.
//!
//! A report is UTF-8 text. Each line that holds a `:` names a field (the
//! bytes before the first `:`) and gives its value (the decimal digits found
//! after that `:`, read together as one number, whatever stands between them).

use vstd::prelude::*;
use vstd::slice::slice_subrange;
use vstd::string::StringSliceAdditionalSpecFns;

verus! {

/// The byte that parts a field's name from its value.
pub const COLON: u8 = 58;

/// The byte that ends a line.
pub const NEWLINE: u8 = 10;

/// The byte of the digit `0`.
pub const DIGIT_ZERO: u8 = 48;

/// The byte of the digit `9`.
pub const DIGIT_NINE: u8 = 57;

/// Why a report could not be parsed.
#[derive(Debug, Clone, Copy, PartialEq, Eq, Structural)]
pub enum ParseError {
    /// A field that the caller needs has no digits after its `:`, or its
    /// digits name a number that does not fit in 64 bits.
    MalformedValue,
}

/// One named value of a report.
#[derive(Debug)]
pub struct MetricField {
    /// The bytes before the line's first `:`.
    pub name: Vec<u8>,
    /// The number that the digits after the `:` spell.
    pub value: u64,
}

/// Is `byte` an ASCII decimal digit?
pub open spec fn is_digit(byte: u8) -> bool {
    DIGIT_ZERO <= byte <= DIGIT_NINE
}

/// `at` is where a scan of `bytes` for `wanted` stops: at its first
/// occurrence, or at the end where there is none.
pub open spec fn stops_at(bytes: Seq<u8>, wanted: u8, at: int) -> bool {
    &&& 0 <= at <= bytes.len()
    &&& forall|j: int| 0 <= j < at ==> bytes[j] != wanted
    &&& at < bytes.len() ==> bytes[at] == wanted
}

/// The index of the first `wanted` in `bytes`, or the length of `bytes`
/// where it does not occur.
pub open spec fn first_index(bytes: Seq<u8>, wanted: u8) -> int {
    choose|at: int| stops_at(bytes, wanted, at)
}

/// How many decimal digits `bytes` holds.
pub open spec fn digit_count(bytes: Seq<u8>) -> nat
    decreases bytes.len(),
{
    if bytes.len() == 0 {
        0
    } else if is_digit(bytes.last()) {
        digit_count(bytes.drop_last()) + 1
    } else {
        digit_count(bytes.drop_last())
    }
}

/// The number spelled by the decimal digits of `bytes`, taken in order and
/// with everything else left out; zero where there is no digit.
pub open spec fn digits_value(bytes: Seq<u8>) -> nat
    decreases bytes.len(),
{
    if bytes.len() == 0 {
        0
    } else if is_digit(bytes.last()) {
        digits_value(bytes.drop_last()) * 10 + (bytes.last() - DIGIT_ZERO) as nat
    } else {
        digits_value(bytes.drop_last())
    }
}

/// The value read from what follows a field's `:`: the number its digits
/// spell, or nothing where there is no digit or the number exceeds `u64`.
pub open spec fn retained_number(bytes: Seq<u8>) -> Option<u64> {
    if digit_count(bytes) == 0 || digits_value(bytes) > u64::MAX {
        None
    } else {
        Some(digits_value(bytes) as u64)
    }
}

/// What one line contributes: nothing where it has no `:`, else the name
/// before its first `:` with the value read from the rest of the line.
pub open spec fn line_field(line: Seq<u8>) -> Option<(Seq<u8>, Option<u64>)> {
    let colon = first_index(line, COLON);
    if colon == line.len() {
        None
    } else {
        Some((line.take(colon), retained_number(line.skip(colon + 1))))
    }
}

/// The names that a list of strings asks for, as byte sequences.
pub open spec fn names_of(needed: Seq<&str>) -> Set<Seq<u8>> {
    Set::new(|name: Seq<u8>| exists|i: int| 0 <= i < needed.len() && #[trigger] needed[i].spec_bytes() == name)
}

/// The result of reading the lines of `text` into `found`, top to bottom.
/// A later field replaces an earlier one of the same name. A field without a
/// readable value fails the whole report if its name is in `needed`, and is
/// passed over otherwise.
pub open spec fn report_from(found: Map<Seq<u8>, u64>, text: Seq<u8>, needed: Set<Seq<u8>>) -> Result<
    Map<Seq<u8>, u64>,
    ParseError,
>
    decreases text.len(),
    via report_from_terminates
{
    if text.len() == 0 {
        Ok(found)
    } else {
        let end = first_index(text, NEWLINE);
        let rest = text.skip(if end < text.len() { end + 1 } else { end });
        match line_field(text.take(end)) {
            None => report_from(found, rest, needed),
            Some((name, Some(value))) => report_from(found.insert(name, value), rest, needed),
            Some((name, None)) => if needed.contains(name) {
                Err(ParseError::MalformedValue)
            } else {
                report_from(found, rest, needed)
            },
        }
    }
}

#[via_fn]
proof fn report_from_terminates(found: Map<Seq<u8>, u64>, text: Seq<u8>, needed: Set<Seq<u8>>) {
    lemma_first_index_in_range(text, NEWLINE);
}

/// The report that `text` spells, for a caller that needs the fields `needed`.
pub open spec fn parsed_report(text: Seq<u8>, needed: Set<Seq<u8>>) -> Result<Map<Seq<u8>, u64>, ParseError> {
    report_from(Map::empty(), text, needed)
}

/// A scan stops at one place only.
pub proof fn lemma_first_index_unique(bytes: Seq<u8>, wanted: u8, at: int)
    requires
        stops_at(bytes, wanted, at),
    ensures
        first_index(bytes, wanted) == at,
{
    let chosen = first_index(bytes, wanted);
    assert(stops_at(bytes, wanted, chosen));
    if chosen < at {
        assert(bytes[chosen] == wanted);
    } else if at < chosen {
        assert(bytes[at] == wanted);
    }
}

/// Every scan stops somewhere within its input.
pub proof fn lemma_first_index_in_range(bytes: Seq<u8>, wanted: u8)
    ensures
        stops_at(bytes, wanted, first_index(bytes, wanted)),
    decreases bytes.len(),
{
    if bytes.len() == 0 {
        assert(stops_at(bytes, wanted, 0));
    } else if bytes[0] == wanted {
        assert(stops_at(bytes, wanted, 0));
    } else {
        let tail = bytes.skip(1);
        lemma_first_index_in_range(tail, wanted);
        let at = first_index(tail, wanted);
        assert forall|j: int| 0 <= j < at + 1 implies bytes[j] != wanted by {
            if j > 0 {
                assert(tail[j - 1] == bytes[j]);
            }
        }
        if at + 1 < bytes.len() {
            assert(tail[at] == bytes[at + 1]);
        }
        assert(stops_at(bytes, wanted, at + 1));
    }
}

/// What one line does to a report: reading a line, its line ending and then
/// `rest` comes to reading `rest` into what the line leaves behind. A line
/// without a `:` leaves the fields as they were, a line with a readable value
/// sets its field, and a line with an unreadable one fails the report if the
/// field is needed and is passed over if not.
pub proof fn lemma_line_then_rest(found: Map<Seq<u8>, u64>, line: Seq<u8>, rest: Seq<u8>, needed: Set<Seq<u8>>)
    requires
        forall|j: int| 0 <= j < line.len() ==> line[j] != NEWLINE,
    ensures
        report_from(found, line + seq![NEWLINE] + rest, needed) == match line_field(line) {
            None => report_from(found, rest, needed),
            Some((name, Some(value))) => report_from(found.insert(name, value), rest, needed),
            Some((name, None)) => if needed.contains(name) {
                Err(ParseError::MalformedValue)
            } else {
                report_from(found, rest, needed)
            },
        },
{
    let text = line + seq![NEWLINE] + rest;
    let end = line.len() as int;
    assert(text[end] == NEWLINE);
    assert forall|j: int| 0 <= j < end implies text[j] != NEWLINE by {
        assert(text[j] == line[j]);
    }
    assert(stops_at(text, NEWLINE, end));
    lemma_first_index_unique(text, NEWLINE, end);
    assert(text.take(end) =~= line);
    assert(text.skip(end + 1) =~= rest);
}

/// Only the first `:` of a line separates: the name is all that stands
/// before it, and later ones belong to what the value is read from.
pub proof fn lemma_first_colon_separates(name: Seq<u8>, rest: Seq<u8>)
    requires
        forall|j: int| 0 <= j < name.len() ==> name[j] != COLON,
    ensures
        line_field(name + seq![COLON] + rest) == Some((name, retained_number(rest))),
{
    let line = name + seq![COLON] + rest;
    let colon = name.len() as int;
    assert(line[colon] == COLON);
    assert forall|j: int| 0 <= j < colon implies line[j] != COLON by {
        assert(line[j] == name[j]);
    }
    assert(stops_at(line, COLON, colon));
    lemma_first_index_unique(line, COLON, colon);
    assert(line.take(colon) =~= name);
    assert(line.skip(colon + 1) =~= rest);
}

/// A line without a `:` gives no field and no error: the report is the same
/// with the line as without it.
pub proof fn lemma_line_without_colon_gives_nothing(
    found: Map<Seq<u8>, u64>,
    line: Seq<u8>,
    rest: Seq<u8>,
    needed: Set<Seq<u8>>,
)
    requires
        forall|j: int| 0 <= j < line.len() ==> line[j] != NEWLINE && line[j] != COLON,
    ensures
        line_field(line) is None,
        report_from(found, line + seq![NEWLINE] + rest, needed) == report_from(found, rest, needed),
{
    assert(stops_at(line, COLON, line.len() as int));
    lemma_first_index_unique(line, COLON, line.len() as int);
    lemma_line_then_rest(found, line, rest, needed);
}

/// Of two lines that give the same field a readable value, only the later
/// one's value is in the report.
pub proof fn lemma_later_line_wins(first: Seq<u8>, second: Seq<u8>, name: Seq<u8>, needed: Set<Seq<u8>>)
    requires
        forall|j: int| 0 <= j < first.len() ==> first[j] != NEWLINE,
        forall|j: int| 0 <= j < second.len() ==> second[j] != NEWLINE,
        line_field(first) matches Some((n, Some(_))) && n == name,
        line_field(second) matches Some((n, Some(_))) && n == name,
    ensures
        parsed_report(first + seq![NEWLINE] + (second + seq![NEWLINE]), needed) matches Ok(report)
            && report.dom() == set![name] && Some(report[name]) == line_field(second)->Some_0.1,
{
    let tail = second + seq![NEWLINE] + Seq::<u8>::empty();
    assert(tail =~= second + seq![NEWLINE]);
    let early = line_field(first)->Some_0.1->Some_0;
    let late = line_field(second)->Some_0.1->Some_0;
    lemma_line_then_rest(Map::empty(), first, tail, needed);
    lemma_line_then_rest(Map::<Seq<u8>, u64>::empty().insert(name, early), second, Seq::empty(), needed);
    let report = Map::<Seq<u8>, u64>::empty().insert(name, early).insert(name, late);
    assert(report.dom() =~= set![name]);
}

/// A byte that is no digit changes nothing in the number read; a digit
/// becomes the number's last place.
pub proof fn lemma_value_after_one_more_byte(bytes: Seq<u8>, byte: u8)
    ensures
        !is_digit(byte) ==> retained_number(bytes.push(byte)) == retained_number(bytes),
        is_digit(byte) ==> digits_value(bytes.push(byte)) == digits_value(bytes) * 10 + (byte - DIGIT_ZERO),
{
    assert(bytes.push(byte).drop_last() =~= bytes);
}

/// Where the first `wanted` at or after `from` stands in `bytes`, or the
/// length of `bytes` where there is none.
pub fn find_byte(bytes: &[u8], from: usize, wanted: u8) -> (at: usize)
    requires
        from <= bytes@.len(),
    ensures
        from <= at <= bytes@.len(),
        at - from == first_index(bytes@.skip(from as int), wanted),
{
    let mut at: usize = from;
    while at < bytes.len() && bytes[at] != wanted
        invariant
            from <= at <= bytes@.len(),
            forall|j: int| from <= j < at ==> bytes@[j] != wanted,
        decreases bytes@.len() - at,
    {
        at += 1;
    }
    proof {
        let tail = bytes@.skip(from as int);
        assert forall|j: int| 0 <= j < at - from implies tail[j] != wanted by {
            assert(tail[j] == bytes@[from + j]);
        }
        assert(stops_at(tail, wanted, at - from));
        lemma_first_index_unique(tail, wanted, at - from);
    }
    at
}

/// Do the two slices hold the same bytes?
pub fn bytes_equal(left: &[u8], right: &[u8]) -> (same: bool)
    ensures
        same == (left@ == right@),
{
    if left.len() != right.len() {
        return false;
    }
    let mut i: usize = 0;
    while i < left.len()
        invariant
            left@.len() == right@.len(),
            i <= left@.len(),
            forall|j: int| 0 <= j < i ==> left@[j] == right@[j],
        decreases left@.len() - i,
    {
        if left[i] != right[i] {
            return false;
        }
        i += 1;
    }
    assert(left@ =~= right@);
    true
}

/// The number spelled by the digits of `bytes` from index `from` on.
pub fn read_digits(bytes: &[u8], from: usize) -> (value: Option<u64>)
    requires
        from <= bytes@.len(),
    ensures
        value == retained_number(bytes@.skip(from as int)),
{
    let mut i: usize = from;
    let mut seen: bool = false;
    let mut overflow: bool = false;
    let mut number: u64 = 0;
    assert(bytes@.subrange(from as int, from as int) =~= Seq::<u8>::empty());
    while i < bytes.len()
        invariant
            from <= i <= bytes@.len(),
            seen == (digit_count(bytes@.subrange(from as int, i as int)) > 0),
            !overflow ==> number == digits_value(bytes@.subrange(from as int, i as int)),
            overflow ==> digits_value(bytes@.subrange(from as int, i as int)) > u64::MAX,
        decreases bytes@.len() - i,
    {
        let byte: u8 = bytes[i];
        proof {
            let longer = bytes@.subrange(from as int, i + 1);
            assert(longer.drop_last() =~= bytes@.subrange(from as int, i as int));
            assert(longer.last() == byte);
        }
        if byte >= DIGIT_ZERO && byte <= DIGIT_NINE {
            seen = true;
            let digit: u64 = (byte - DIGIT_ZERO) as u64;
            if !overflow {
                if number > (u64::MAX - digit) / 10 {
                    overflow = true;
                } else {
                    number = number * 10 + digit;
                }
            }
        }
        i += 1;
    }
    assert(bytes@.subrange(from as int, bytes@.len() as int) =~= bytes@.skip(from as int));
    if seen && !overflow {
        Some(number)
    } else {
        None
    }
}

/// A copy of the first `upto` bytes of `bytes`.
fn copy_prefix(bytes: &[u8], upto: usize) -> (copy: Vec<u8>)
    requires
        upto <= bytes@.len(),
    ensures
        copy@ == bytes@.take(upto as int),
{
    let mut copy: Vec<u8> = Vec::with_capacity(upto);
    let mut i: usize = 0;
    while i < upto
        invariant
            i <= upto <= bytes@.len(),
            copy@ =~= bytes@.take(i as int),
        decreases upto - i,
    {
        copy.push(bytes[i]);
        i += 1;
    }
    copy
}

/// Reads one line (without its line ending): `None` where it has no `:`,
/// else the field's name and, where one can be read, its value.
pub fn parse_line(line: &[u8]) -> (field: Option<(Vec<u8>, Option<u64>)>)
    ensures
        match line_field(line@) {
            None => field is None,
            Some((name, value)) => field matches Some((n, v)) && n@ == name && v == value,
        },
{
    let colon: usize = find_byte(line, 0, COLON);
    assert(line@.skip(0) =~= line@);
    if colon == line.len() {
        None
    } else {
        let name: Vec<u8> = copy_prefix(line, colon);
        let value: Option<u64> = read_digits(line, colon + 1);
        Some((name, value))
    }
}

/// Is `name` one of the names that `needed` lists?
pub fn is_needed(needed: &[&str], name: &[u8]) -> (listed: bool)
    ensures
        listed == names_of(needed@).contains(name@),
{
    let mut i: usize = 0;
    while i < needed.len()
        invariant
            i <= needed@.len(),
            forall|j: int| 0 <= j < i ==> (#[trigger] needed@[j]).spec_bytes() != name@,
        decreases needed@.len() - i,
    {
        if bytes_equal(needed[i].as_bytes(), name) {
            return true;
        }
        i += 1;
    }
    false
}

/// The fields of a report by name. Where a name was given more than once,
/// the value given last stands.
pub struct MetricReport {
    fields: Vec<MetricField>,
}

/// The mapping that a list of fields stands for, a later field replacing an
/// earlier one of the same name.
pub open spec fn fields_map(fields: Seq<MetricField>) -> Map<Seq<u8>, u64>
    decreases fields.len(),
{
    if fields.len() == 0 {
        Map::empty()
    } else {
        fields_map(fields.drop_last()).insert(fields.last().name@, fields.last().value)
    }
}

impl View for MetricReport {
    type V = Map<Seq<u8>, u64>;

    /// The value of each field, by the bytes of its name.
    closed spec fn view(&self) -> Map<Seq<u8>, u64> {
        fields_map(self.fields@)
    }
}

impl MetricReport {
    /// A report without fields.
    pub fn new() -> (report: MetricReport)
        ensures
            report@ == Map::<Seq<u8>, u64>::empty(),
    {
        MetricReport { fields: Vec::new() }
    }

    /// Does the report hold no field at all?
    pub fn is_empty(&self) -> (empty: bool)
        ensures
            empty == (self@ == Map::<Seq<u8>, u64>::empty()),
    {
        let empty: bool = self.fields.len() == 0;
        proof {
            if !empty {
                assert(self@.contains_key(self.fields@.last().name@));
                assert(!Map::<Seq<u8>, u64>::empty().contains_key(self.fields@.last().name@));
            }
        }
        empty
    }

    /// Sets the field `name` to `value`, replacing what it had before.
    pub fn insert(&mut self, name: Vec<u8>, value: u64)
        ensures
            final(self)@ == old(self)@.insert(name@, value),
    {
        self.fields.push(MetricField { name, value });
        assert(self.fields@.drop_last() =~= old(self).fields@);
    }

    /// The value of the field named by `name`, where the report has one.
    pub fn get_bytes(&self, name: &[u8]) -> (value: Option<u64>)
        ensures
            value == if self@.contains_key(name@) {
                Some(self@[name@])
            } else {
                None
            },
    {
        let mut i: usize = self.fields.len();
        assert(self.fields@.take(i as int) =~= self.fields@);
        while i > 0
            invariant
                i <= self.fields@.len(),
                self@.contains_key(name@) == fields_map(self.fields@.take(i as int)).contains_key(name@),
                self@.contains_key(name@) ==> self@[name@] == fields_map(self.fields@.take(i as int))[name@],
            decreases i,
        {
            i -= 1;
            assert(self.fields@.take(i + 1).drop_last() =~= self.fields@.take(i as int));
            if bytes_equal(self.fields[i].name.as_slice(), name) {
                return Some(self.fields[i].value);
            }
        }
        None
    }

    /// The value of the field `name`, where the report has one.
    pub fn get(&self, name: &str) -> (value: Option<u64>)
        ensures
            value == if self@.contains_key(name.spec_bytes()) {
                Some(self@[name.spec_bytes()])
            } else {
                None
            },
    {
        self.get_bytes(name.as_bytes())
    }
}

/// Parses the bytes of a report. See [`parse`].
pub fn parse_bytes(text: &[u8], needed: &[&str]) -> (parsed: Result<MetricReport, ParseError>)
    ensures
        match parsed_report(text@, names_of(needed@)) {
            Ok(fields) => parsed matches Ok(report) && report@ == fields,
            Err(error) => parsed matches Err(e) && e == error,
        },
{
    let mut report = MetricReport::new();
    let mut pos: usize = 0;
    assert(text@.skip(0) =~= text@);
    while pos < text.len()
        invariant
            pos <= text@.len(),
            report_from(report@, text@.skip(pos as int), names_of(needed@)) == parsed_report(
                text@,
                names_of(needed@),
            ),
        decreases text@.len() - pos,
    {
        let end: usize = find_byte(text, pos, NEWLINE);
        let next: usize = if end < text.len() { end + 1 } else { end };
        let line = slice_subrange(text, pos, end);
        proof {
            let tail = text@.skip(pos as int);
            assert(tail.take(end - pos) =~= line@);
            assert(tail.skip(next - pos) =~= text@.skip(next as int));
        }
        match parse_line(line) {
            None => {},
            Some((name, Some(value))) => {
                report.insert(name, value);
            },
            Some((name, None)) => {
                if is_needed(needed, name.as_slice()) {
                    return Err(ParseError::MalformedValue);
                }
            },
        }
        pos = next;
    }
    Ok(report)
}

/// Parses a report: every line with a `:` gives the field named before its
/// first `:` the value that the digits after it spell; lines without a `:`
/// give nothing. Fails exactly when a field listed in `needed` has a line
/// whose value cannot be read, before any later line is looked at.
pub fn parse(report_text: &str, needed: &[&str]) -> (parsed: Result<MetricReport, ParseError>)
    ensures
        match parsed_report(report_text.spec_bytes(), names_of(needed@)) {
            Ok(fields) => parsed matches Ok(report) && report@ == fields,
            Err(error) => parsed matches Err(e) && e == error,
        },
{
    parse_bytes(report_text.as_bytes(), needed)
}

} // verus!
