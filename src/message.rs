//! The wire codec: a restartable decoder and an encoder that recomputes BodyLength and CheckSum.
use vstd::prelude::*;
use vstd::utf8::*;
use crate::dictionary::OrchestrationFieldCollection;
use crate::error::Error;
use crate::field::Field;
use crate::field_collection::{FieldCollection, index_of, lemma_index_of_same_tags, value_of};
use crate::tags;

verus! {

pub const VALUE_SEPARATOR: u8 = 61;

pub const FIELD_SEPARATOR: u8 = 1;

/// What one call of [`Message::decode`] did.
#[derive(Debug, PartialEq, Eq, Clone, Copy, Structural)]
pub struct DecodeResult {
    /// How many bytes at the head of the buffer the caller may discard.
    pub consumed: usize,
    /// Whether the call read the CheckSum field that ends a message.
    pub complete: bool,
}

/// The kinds of malformed input the decoder reports.
#[derive(Debug, PartialEq, Eq, Clone, Copy, Structural)]
pub enum DecodeFault {
    InvalidUtf8,
    TagParseFailed,
    NoPrecedingSizeField,
    NonNumericPreviousField,
    NoTrailingSeparator,
}

/// Whether `e` is the error that reports `fault`.
pub open spec fn reports(e: Error, fault: DecodeFault) -> bool {
    match fault {
        DecodeFault::InvalidUtf8 => e is InvalidUtf8,
        DecodeFault::TagParseFailed => e is TagParseFailed,
        DecodeFault::NoPrecedingSizeField => e is DataFieldWithNoPrecedingSizeField,
        DecodeFault::NonNumericPreviousField => e is DataFieldWithNonNumericPreviousField,
        DecodeFault::NoTrailingSeparator => e is DataFieldWithNoTrailingSeparator,
    }
}

/// The first position at or after `from` that holds `x`.
pub open spec fn find_byte(b: Seq<u8>, from: int, x: u8) -> Option<int>
    decreases b.len() - from,
{
    if from < 0 || from >= b.len() {
        None
    } else if b[from] == x {
        Some(from)
    } else {
        find_byte(b, from + 1, x)
    }
}

/// Whether `s` is one or more ASCII decimal digits.
pub open spec fn is_decimal(s: Seq<char>) -> bool {
    s.len() > 0 && forall|i: int| 0 <= i < s.len() ==> '0' <= #[trigger] s[i] && s[i] <= '9'
}

/// The number that the decimal digits `s` spell.
pub open spec fn decimal_value(s: Seq<char>) -> nat
    decreases s.len(),
{
    if s.len() == 0 {
        0
    } else {
        decimal_value(s.drop_last()) * 10 + ((s.last() as u32) as int - 48) as nat
    }
}

/// The number that `s` spells, if it is decimal and at most `max`.
pub open spec fn bounded_decimal(s: Seq<char>, max: nat) -> Option<nat> {
    if is_decimal(s) && decimal_value(s) <= max {
        Some(decimal_value(s))
    } else {
        None
    }
}

/// Which tags carry data fields, according to a dictionary.
pub open spec fn data_tags(dictionary: OrchestrationFieldCollection) -> spec_fn(u32) -> bool {
    |tag: u32| dictionary.data_tag(tag)
}

/// The data fields of every version carried here: Signature, SecureData, RawData, XmlData.
pub open spec fn standard_data_tag(tag: u32) -> bool {
    tag == 89 || tag == 91 || tag == 96 || tag == 213
}

/// Which tags carry data fields: those of the dictionary if there is one, else the standard ones.
pub open spec fn data_tags_of(dictionary: Option<&OrchestrationFieldCollection>) -> spec_fn(u32) -> bool {
    match dictionary {
        Some(d) => data_tags(*d),
        None => |tag: u32| standard_data_tag(tag),
    }
}

fn is_data_field(dictionary: Option<&OrchestrationFieldCollection>, tag: u32) -> (r: bool)
    ensures
        r == data_tags_of(dictionary)(tag),
{
    match dictionary {
        Some(d) => d.is_data_tag(tag),
        None => tag == 89 || tag == 91 || tag == 96 || tag == 213,
    }
}

/// The field read from `b[start..end]`, followed by the position after its separator.
pub open spec fn value_record(b: Seq<u8>, tag: u32, start: int, end: int) -> Option<
    Result<(u32, Seq<char>, int), DecodeFault>,
> {
    if valid_utf8(b.subrange(start, end)) {
        Some(Ok((tag, decode_utf8(b.subrange(start, end)), end + 1)))
    } else {
        Some(Err(DecodeFault::InvalidUtf8))
    }
}

/// The record that starts at `at`: `None` when the buffer ends before the record does.
/// `prev` is the value of the field before it, which gives a data field its length.
pub open spec fn record_at(
    b: Seq<u8>,
    at: int,
    prev: Option<Seq<char>>,
    data: spec_fn(u32) -> bool,
) -> Option<Result<(u32, Seq<char>, int), DecodeFault>> {
    match find_byte(b, at, VALUE_SEPARATOR) {
        None => None,
        Some(eq) => {
            let tag_bytes = b.subrange(at, eq);
            if !valid_utf8(tag_bytes) {
                Some(Err(DecodeFault::InvalidUtf8))
            } else {
                match bounded_decimal(decode_utf8(tag_bytes), u32::MAX as nat) {
                    None => Some(Err(DecodeFault::TagParseFailed)),
                    Some(t) => {
                        let tag = t as u32;
                        if data(tag) {
                            match prev {
                                None => Some(Err(DecodeFault::NoPrecedingSizeField)),
                                Some(p) => match bounded_decimal(p, usize::MAX as nat) {
                                    None => Some(Err(DecodeFault::NonNumericPreviousField)),
                                    Some(len) => {
                                        let end = eq + 1 + len;
                                        if end >= b.len() {
                                            None
                                        } else if b[end] != FIELD_SEPARATOR {
                                            Some(Err(DecodeFault::NoTrailingSeparator))
                                        } else {
                                            value_record(b, tag, eq + 1, end)
                                        }
                                    },
                                },
                            }
                        } else {
                            match find_byte(b, eq + 1, FIELD_SEPARATOR) {
                                None => None,
                                Some(end) => value_record(b, tag, eq + 1, end),
                            }
                        }
                    },
                }
            }
        },
    }
}

/// Prefixes the fields `fs` to a scan result.
pub open spec fn prepend(
    fs: Seq<(u32, Seq<char>)>,
    r: Result<(Seq<(u32, Seq<char>)>, int, bool, int), DecodeFault>,
) -> Result<(Seq<(u32, Seq<char>)>, int, bool, int), DecodeFault> {
    match r {
        Ok((rest, consumed, complete, sum_end)) => Ok((fs + rest, consumed, complete, sum_end)),
        Err(f) => Err(f),
    }
}

/// Decoding `b` from `at`: the fields read, the position after the last one, whether the
/// CheckSum field was read, and where the bytes that count toward the checksum end.
pub open spec fn scan(
    b: Seq<u8>,
    at: int,
    prev: Option<Seq<char>>,
    data: spec_fn(u32) -> bool,
) -> Result<(Seq<(u32, Seq<char>)>, int, bool, int), DecodeFault>
    decreases b.len() - at,
{
    if at < 0 || at >= b.len() {
        Ok((seq![], at, false, at))
    } else {
        match record_at(b, at, prev, data) {
            None => Ok((seq![], at, false, at)),
            Some(Err(f)) => Err(f),
            Some(Ok((tag, value, next))) => if next <= at || next > b.len() {
                Ok((seq![], at, false, at))
            } else if tag == tags::CHECK_SUM {
                Ok((seq![(tag, value)], next, true, at))
            } else {
                prepend(seq![(tag, value)], scan(b, next, Some(value), data))
            },
        }
    }
}

/// The MsgType values of the session-level messages.
pub open spec fn is_admin_type(v: Seq<char>) -> bool {
    v == seq!['0'] || v == seq!['1'] || v == seq!['2'] || v == seq!['3'] || v == seq!['4']
        || v == seq!['5'] || v == seq!['A']
}

/// The value of the last field, if any.
pub open spec fn last_value(fs: Seq<(u32, Seq<char>)>) -> Option<Seq<char>> {
    if fs.len() == 0 {
        None
    } else {
        Some(fs.last().1)
    }
}

/// The sum of the bytes.
pub open spec fn byte_sum(b: Seq<u8>) -> nat
    decreases b.len(),
{
    if b.len() == 0 {
        0
    } else {
        byte_sum(b.drop_last()) + b.last() as nat
    }
}

/// The views of a sequence of fields.
pub open spec fn views(v: Seq<Field>) -> Seq<(u32, Seq<char>)> {
    v.map_values(|f: Field| f@)
}

/// Relies on std::str::from_utf8: it succeeds exactly on valid UTF-8, and the text it
/// gives is encoded by the bytes it was given.
#[verifier::external_body]
fn utf8_text(b: &[u8], start: usize, end: usize) -> (r: Result<String, std::str::Utf8Error>)
    requires
        start <= end <= b@.len(),
    ensures
        r is Ok <==> valid_utf8(b@.subrange(start as int, end as int)),
        r matches Ok(s) ==> encode_utf8(s@) == b@.subrange(start as int, end as int),
{
    match std::str::from_utf8(&b[start..end]) {
        Ok(s) => Ok(s.to_string()),
        Err(e) => Err(e),
    }
}

/// The text of `b[start..end]`, or the error that reports invalid UTF-8.
fn text_of(b: &[u8], start: usize, end: usize) -> (r: Result<String, Error>)
    requires
        start <= end <= b@.len(),
    ensures
        r is Ok <==> valid_utf8(b@.subrange(start as int, end as int)),
        r matches Ok(s) ==> s@ == decode_utf8(b@.subrange(start as int, end as int)),
        r matches Err(e) ==> e is InvalidUtf8,
{
    match utf8_text(b, start, end) {
        Ok(s) => {
            proof {
                encode_utf8_decode_utf8(s@);
            }
            Ok(s)
        },
        Err(e) => Err(Error::InvalidUtf8(e)),
    }
}

proof fn lemma_find_byte(b: Seq<u8>, from: int, x: u8, k: int)
    requires
        0 <= from <= k <= b.len(),
        forall|j: int| from <= j < k ==> b[j] != x,
    ensures
        k < b.len() && b[k] == x ==> find_byte(b, from, x) == Some(k),
        k == b.len() ==> find_byte(b, from, x) is None,
    decreases k - from,
{
    if from < k {
        lemma_find_byte(b, from + 1, x, k);
    }
}

/// The first position at or after `from` that holds `x`.
fn find(b: &[u8], from: usize, x: u8) -> (r: Option<usize>)
    requires
        from <= b@.len(),
    ensures
        match r {
            Some(i) => find_byte(b@, from as int, x) == Some(i as int) && from <= i < b@.len(),
            None => find_byte(b@, from as int, x) is None,
        },
{
    let mut i: usize = from;
    while i < b.len()
        invariant
            from <= i <= b@.len(),
            forall|j: int| from <= j < i ==> b@[j] != x,
        decreases b@.len() - i,
    {
        if b[i] == x {
            proof {
                lemma_find_byte(b@, from as int, x, i as int);
            }
            return Some(i);
        }
        i += 1;
    }
    proof {
        lemma_find_byte(b@, from as int, x, i as int);
    }
    None
}

proof fn lemma_decimal_grows(s: Seq<char>, i: int)
    requires
        0 <= i <= s.len(),
        forall|j: int| 0 <= j < s.len() ==> '0' <= #[trigger] s[j] && s[j] <= '9',
    ensures
        decimal_value(s.subrange(0, i)) <= decimal_value(s),
    decreases s.len() - i,
{
    if i < s.len() {
        let t = s.subrange(0, i + 1);
        assert(t.drop_last() =~= s.subrange(0, i));
        lemma_decimal_grows(s, i + 1);
    } else {
        assert(s.subrange(0, i) =~= s);
    }
}

/// Reads `s` as a decimal number no greater than `max`.
pub fn parse_decimal(s: &str, max: u64) -> (r: Option<u64>)
    ensures
        match bounded_decimal(s@, max as nat) {
            Some(v) => r == Some(v as u64),
            None => r is None,
        },
{
    let n = s.unicode_len();
    if n == 0 {
        return None;
    }
    let mut value: u64 = 0;
    let mut i: usize = 0;
    while i < n
        invariant
            n == s@.len(),
            i <= n,
            value <= max,
            forall|j: int| 0 <= j < i ==> '0' <= #[trigger] s@[j] && s@[j] <= '9',
            value == decimal_value(s@.subrange(0, i as int)),
        decreases n - i,
    {
        let c = s.get_char(i);
        if c < '0' || c > '9' {
            return None;
        }
        let d = (c as u32 - 48) as u64;
        let ghost t = s@.subrange(0, i + 1);
        proof {
            assert(t.drop_last() =~= s@.subrange(0, i as int));
            assert(t.last() == c);
        }
        if d > max || value > (max - d) / 10 {
            proof {
                if d <= max {
                    assert(value * 10 + d > max) by (nonlinear_arith)
                        requires
                            value > (max - d) / 10,
                            d <= max,
                    ;
                }
                assert(forall|j: int| 0 <= j < i + 1 ==> '0' <= #[trigger] s@[j] && s@[j] <= '9');
                if is_decimal(s@) {
                    lemma_decimal_grows(s@, i + 1);
                }
            }
            return None;
        }
        proof {
            assert(value * 10 + d <= max) by (nonlinear_arith)
                requires
                    value <= (max - d) / 10,
                    d <= max,
            ;
        }
        value = value * 10 + d;
        i += 1;
    }
    proof {
        assert(s@.subrange(0, n as int) =~= s@);
    }
    Some(value)
}

/// The checksum state after a decode call that read `bytes` toward the checksum.
pub open spec fn next_checksum(state: (u32, bool), bytes: Seq<u8>, complete: bool) -> (u32, bool) {
    (((state.0 as nat + byte_sum(bytes)) % 256) as u32, state.1 || complete)
}

proof fn lemma_prepend_push(
    fs: Seq<(u32, Seq<char>)>,
    x: (u32, Seq<char>),
    r: Result<(Seq<(u32, Seq<char>)>, int, bool, int), DecodeFault>,
)
    ensures
        prepend(fs, prepend(seq![x], r)) == prepend(fs.push(x), r),
{
    if let Ok((rest, c, d, e)) = r {
        assert(fs + (seq![x] + rest) =~= fs.push(x) + rest);
    }
}

proof fn lemma_prepend_empty(fs: Seq<(u32, Seq<char>)>, at: int)
    ensures
        prepend(fs, Ok((seq![], at, false, at))) == Ok::<
            (Seq<(u32, Seq<char>)>, int, bool, int),
            DecodeFault,
        >((fs, at, false, at)),
{
    assert(fs + seq![] =~= fs);
}

proof fn lemma_views_push(v: Seq<Field>, f: Field)
    ensures
        views(v.push(f)) == views(v).push(f@),
{
    assert(views(v.push(f)) =~= views(v).push(f@));
}

/// A message: its fields in wire order, and the checksum that decoding computed.
#[derive(Debug)]
pub struct Message {
    pub fields: FieldCollection,
    decode_checksum: u32,
    decode_checksum_valid: bool,
}

impl View for Message {
    type V = Seq<(u32, Seq<char>)>;

    /// The fields, in wire order.
    closed spec fn view(&self) -> Seq<(u32, Seq<char>)> {
        self.fields@
    }
}

impl Default for Message {
    fn default() -> (r: Self)
        ensures
            r@ == Seq::<(u32, Seq<char>)>::empty(),
            r.checksum_state() == (0u32, false),
    {
        Message { fields: FieldCollection::default(), decode_checksum: 0, decode_checksum_valid: false }
    }
}

impl Clone for Message {
    fn clone(&self) -> (r: Self)
        ensures
            r@ == self@,
            r.checksum_state() == self.checksum_state(),
    {
        Message {
            fields: self.fields.clone(),
            decode_checksum: self.decode_checksum,
            decode_checksum_valid: self.decode_checksum_valid,
        }
    }
}

impl Message {
    /// Decodes tag/value fields from `buffer` and appends them to this message, using
    /// `dictionary` to recognise data fields. The call may be repeated with the rest of a
    /// message: the caller keeps the bytes after `consumed` and puts them in front of the
    /// next buffer. On an error the message is left as it was.
    pub fn decode_with(&mut self, buffer: &[u8], dictionary: &OrchestrationFieldCollection) -> (r: Result<
        DecodeResult,
        Error,
    >)
        ensures
            match scan(buffer@, 0, last_value(old(self)@), data_tags(*dictionary)) {
                Ok((fs, consumed, complete, sum_end)) => {
                    &&& r == Ok::<DecodeResult, Error>(
                        DecodeResult { consumed: consumed as usize, complete },
                    )
                    &&& final(self)@ == old(self)@ + fs
                    &&& final(self).checksum_state() == next_checksum(
                        old(self).checksum_state(),
                        buffer@.subrange(0, sum_end),
                        complete,
                    )
                },
                Err(fault) => {
                    &&& r matches Err(e) && reports(e, fault)
                    &&& final(self)@ == old(self)@
                    &&& final(self).checksum_state() == old(self).checksum_state()
                },
            },
    {
        self.decode_fields(buffer, Some(dictionary))
    }

    /// Decodes as [`Message::decode_with`] does, with the standard data fields.
    pub fn decode(&mut self, buffer: &[u8]) -> (r: Result<DecodeResult, Error>)
        ensures
            match scan(buffer@, 0, last_value(old(self)@), |tag: u32| standard_data_tag(tag)) {
                Ok((fs, consumed, complete, sum_end)) => {
                    &&& r == Ok::<DecodeResult, Error>(
                        DecodeResult { consumed: consumed as usize, complete },
                    )
                    &&& final(self)@ == old(self)@ + fs
                    &&& final(self).checksum_state() == next_checksum(
                        old(self).checksum_state(),
                        buffer@.subrange(0, sum_end),
                        complete,
                    )
                },
                Err(fault) => {
                    &&& r matches Err(e) && reports(e, fault)
                    &&& final(self)@ == old(self)@
                    &&& final(self).checksum_state() == old(self).checksum_state()
                },
            },
    {
        self.decode_fields(buffer, None)
    }

    /// The fields, in wire order.
    pub fn fields(&self) -> (r: &FieldCollection)
        ensures
            r@ == self@,
    {
        &self.fields
    }

    /// The MsgType value, if the message has one.
    pub fn msg_type(&self) -> (r: Option<&String>)
        ensures
            match value_of(self@, tags::MSG_TYPE) {
                Some(v) => r matches Some(s) && s@ == v,
                None => r is None,
            },
    {
        match self.fields.try_get(tags::MSG_TYPE) {
            Some(f) => Some(&f.value),
            None => None,
        }
    }

    /// Whether this is a session-level message: Heartbeat, TestRequest, ResendRequest, Reject,
    /// SequenceReset, Logout or Logon.
    pub fn is_admin(&self) -> (r: bool)
        ensures
            r == (value_of(self@, tags::MSG_TYPE) matches Some(v) && is_admin_type(v)),
    {
        match self.msg_type() {
            Some(t) => {
                let s = t.as_str();
                proof {
                    reveal_strlit("0");
                    reveal_strlit("1");
                    reveal_strlit("2");
                    reveal_strlit("3");
                    reveal_strlit("4");
                    reveal_strlit("5");
                    reveal_strlit("A");
                    assert("0"@ =~= seq!['0']);
                    assert("1"@ =~= seq!['1']);
                    assert("2"@ =~= seq!['2']);
                    assert("3"@ =~= seq!['3']);
                    assert("4"@ =~= seq!['4']);
                    assert("5"@ =~= seq!['5']);
                    assert("A"@ =~= seq!['A']);
                }
                crate::dictionary::same_text(s, "0") || crate::dictionary::same_text(s, "1")
                    || crate::dictionary::same_text(s, "2") || crate::dictionary::same_text(s, "3")
                    || crate::dictionary::same_text(s, "4") || crate::dictionary::same_text(s, "5")
                    || crate::dictionary::same_text(s, "A")
            },
            None => false,
        }
    }

    /// The running checksum and whether decoding has completed it.
    pub closed spec fn checksum_state(&self) -> (u32, bool) {
        (self.decode_checksum, self.decode_checksum_valid)
    }

    /// A message holding `fields`, with no decoded checksum.
    pub fn with_fields(fields: FieldCollection) -> (r: Self)
        ensures
            r@ == fields@,
            r.checksum_state() == (0u32, false),
    {
        Message { fields, decode_checksum: 0, decode_checksum_valid: false }
    }

    /// The checksum computed while decoding, once the CheckSum field has been read: the sum,
    /// modulo 256, of the bytes before it. The declared CheckSum is not compared with it.
    pub fn decoded_checksum(&self) -> (r: Option<u32>)
        ensures
            r == (if self.checksum_state().1 {
                Some(self.checksum_state().0)
            } else {
                None::<u32>
            }),
    {
        if self.decode_checksum_valid {
            Some(self.decode_checksum)
        } else {
            None
        }
    }

    fn decode_fields(&mut self, buffer: &[u8], dictionary: Option<&OrchestrationFieldCollection>) -> (r: Result<
        DecodeResult,
        Error,
    >)
        ensures
            match scan(buffer@, 0, last_value(old(self)@), data_tags_of(dictionary)) {
                Ok((fs, consumed, complete, sum_end)) => {
                    &&& r == Ok::<DecodeResult, Error>(
                        DecodeResult { consumed: consumed as usize, complete },
                    )
                    &&& final(self)@ == old(self)@ + fs
                    &&& final(self).checksum_state() == next_checksum(
                        old(self).checksum_state(),
                        buffer@.subrange(0, sum_end),
                        complete,
                    )
                },
                Err(fault) => {
                    &&& r matches Err(e) && reports(e, fault)
                    &&& final(self)@ == old(self)@
                    &&& final(self).checksum_state() == old(self).checksum_state()
                },
            },
    {
        let ghost b = buffer@;
        let ghost data = data_tags_of(dictionary);
        let ghost prev0 = last_value(self.fields@);
        let mut decoded: Vec<Field> = Vec::new();
        let mut current: usize = 0;
        let mut sum_end: usize = 0;
        let mut complete = false;
        let ghost mut prev_now: Option<Seq<char>> = prev0;
        proof {
            assert(views(decoded@) =~= Seq::<(u32, Seq<char>)>::empty());
            assert(prepend(views(decoded@), scan(b, 0, prev0, data)) == scan(b, 0, prev0, data)) by {
                if let Ok((rest, c, d, e)) = scan(b, 0, prev0, data) {
                    assert(views(decoded@) + rest =~= rest);
                }
            }
        }
        while current < buffer.len()
            invariant_except_break
                sum_end == current,
                !complete,
                scan(b, 0, prev0, data) == prepend(views(decoded@), scan(b, current as int, prev_now, data)),
            invariant
                b == buffer@,
                data == data_tags_of(dictionary),
                prev0 == last_value(self.fields@),
                current <= b.len(),
                prev_now == (if decoded@.len() > 0 {
                    Some(decoded@.last().value@)
                } else {
                    prev0
                }),
            ensures
                sum_end <= current,
                scan(b, 0, prev0, data) == Ok::<(Seq<(u32, Seq<char>)>, int, bool, int), DecodeFault>(
                    (views(decoded@), current as int, complete, sum_end as int),
                ),
            decreases b.len() - current,
        {
            let at = current;
            let ghost prev_at = prev_now;
            let ghost vs = views(decoded@);
            let eq = match find(buffer, current, VALUE_SEPARATOR) {
                Some(e) => e,
                None => {
                    proof {
                        lemma_prepend_empty(views(decoded@), current as int);
                    }
                    break ;
                },
            };
            let tag_text = match text_of(buffer, at, eq) {
                Ok(t) => t,
                Err(e) => {
                    return Err(e);
                },
            };
            let tag: u32 = match parse_decimal(tag_text.as_str(), u32::MAX as u64) {
                Some(v) => v as u32,
                None => {
                    return Err(Error::TagParseFailed(tag_text));
                },
            };
            let end: usize;
            if is_data_field(dictionary, tag) {
                let prev: &Field;
                if decoded.len() > 0 {
                    prev = &decoded[decoded.len() - 1];
                } else if self.fields.len() > 0 {
                    prev = self.fields.field_at(self.fields.len() - 1);
                } else {
                    return Err(Error::DataFieldWithNoPrecedingSizeField);
                }
                proof {
                    assert(prev_now == Some(prev.value@));
                }
                let length: usize = match parse_decimal(prev.value.as_str(), usize::MAX as u64) {
                    Some(v) => v as usize,
                    None => {
                        return Err(Error::DataFieldWithNonNumericPreviousField(prev.value.clone()));
                    },
                };
                if length >= buffer.len() - (eq + 1) {
                    proof {
                        lemma_prepend_empty(views(decoded@), current as int);
                    }
                    break ;
                }
                end = eq + 1 + length;
                if buffer[end] != FIELD_SEPARATOR {
                    return Err(Error::DataFieldWithNoTrailingSeparator);
                }
            } else {
                end = match find(buffer, eq + 1, FIELD_SEPARATOR) {
                    Some(e) => e,
                    None => {
                        proof {
                            lemma_prepend_empty(views(decoded@), current as int);
                        }
                        break ;
                    },
                };
            }
            let value = match text_of(buffer, eq + 1, end) {
                Ok(v) => v,
                Err(e) => {
                    return Err(e);
                },
            };
            let field = Field { tag, value };
            let ghost x = field@;
            proof {
                assert(record_at(b, at as int, prev_now, data) == Some(
                    Ok::<(u32, Seq<char>, int), DecodeFault>((tag, x.1, end + 1)),
                ));
                lemma_prepend_push(views(decoded@), x, scan(b, end + 1, Some(x.1), data));
                lemma_views_push(decoded@, field);
            }
            decoded.push(field);
            proof {
                prev_now = Some(x.1);
            }
            current = end + 1;
            if tag == tags::CHECK_SUM {
                proof {
                    assert(scan(b, at as int, prev_at, data) == Ok::<
                        (Seq<(u32, Seq<char>)>, int, bool, int),
                        DecodeFault,
                    >((seq![x], end + 1, true, at as int)));
                    assert(vs + seq![x] =~= vs.push(x));
                }
                complete = true;
                break ;
            }
            sum_end = current;
        }
        proof {
            if !complete && current >= buffer.len() {
                lemma_prepend_empty(views(decoded@), current as int);
            }
        }
        let mut i: usize = 0;
        let mut sum: u32 = self.decode_checksum % 256;
        proof {
            lemma_mod_sum_step(self.decode_checksum as nat, b.subrange(0, 0));
        }
        while i < sum_end
            invariant
                sum_end <= b.len(),
                b == buffer@,
                i <= sum_end,
                sum < 256,
                sum as nat == (old(self).decode_checksum as nat + byte_sum(b.subrange(0, i as int))) % 256,
            decreases sum_end - i,
        {
            proof {
                let t = b.subrange(0, i + 1);
                assert(t.drop_last() =~= b.subrange(0, i as int));
                lemma_mod_add(old(self).decode_checksum as nat + byte_sum(b.subrange(0, i as int)), b[i as int] as nat);
            }
            sum = (sum + buffer[i] as u32) % 256;
            i += 1;
        }
        let mut k: usize = 0;
        let ghost before = self.fields@;
        while k < decoded.len()
            invariant
                k <= decoded@.len(),
                self.fields@ == before + views(decoded@).subrange(0, k as int),
                self.decode_checksum == old(self).decode_checksum,
                self.decode_checksum_valid == old(self).decode_checksum_valid,
            decreases decoded@.len() - k,
        {
            let f = decoded[k].clone();
            self.fields.push(f);
            k += 1;
            proof {
                assert(before + views(decoded@).subrange(0, k as int) =~= (before + views(decoded@).subrange(0, k - 1)).push(decoded@[k - 1]@));
            }
        }
        proof {
            assert(views(decoded@).subrange(0, decoded@.len() as int) =~= views(decoded@));
        }
        self.decode_checksum = sum;
        if complete {
            self.decode_checksum_valid = true;
        }
        Ok(DecodeResult { consumed: current, complete })
    }
}

proof fn lemma_mod_sum_step(a: nat, b: Seq<u8>)
    requires
        b.len() == 0,
    ensures
        (a % 256) as nat == (a + byte_sum(b)) % 256,
{
}

proof fn lemma_mod_add(a: nat, x: nat)
    ensures
        ((a % 256) + x) % 256 == (a + x) % 256,
{
    vstd::arithmetic::div_mod::lemma_add_mod_noop_right(x as int, a as int, 256);
    vstd::arithmetic::div_mod::lemma_mod_twice(a as int, 256);
    vstd::arithmetic::div_mod::lemma_add_mod_noop(a as int, x as int, 256);
    vstd::arithmetic::div_mod::lemma_small_mod(x % 256, 256);
    assert(((a % 256) + x) % 256 == ((a % 256) % 256 + x % 256) % 256) by {
        vstd::arithmetic::div_mod::lemma_add_mod_noop((a % 256) as int, x as int, 256);
    }
}

/// Which standard fields [`Message::encode`] recomputes. The BeginString and MsgSeqNum
/// settings are carried for callers that recompute those fields themselves; the encoder
/// writes them as they are.
#[derive(Debug, Clone, Copy, PartialEq, Eq, Structural)]
pub struct EncodeOptions {
    pub set_checksum: bool,
    pub set_body_length: bool,
    pub set_begin_string: bool,
    pub set_msg_seq_num: bool,
}

impl EncodeOptions {
    /// Every standard field is recomputed.
    pub fn standard() -> (r: Self)
        ensures
            r.set_checksum && r.set_body_length && r.set_begin_string && r.set_msg_seq_num,
    {
        EncodeOptions { set_checksum: true, set_body_length: true, set_begin_string: true, set_msg_seq_num: true }
    }
}

impl Default for EncodeOptions {
    fn default() -> (r: Self)
        ensures
            r == EncodeOptions::standard_spec(),
    {
        EncodeOptions::standard()
    }
}

impl EncodeOptions {
    pub open spec fn standard_spec() -> EncodeOptions {
        EncodeOptions { set_checksum: true, set_body_length: true, set_begin_string: true, set_msg_seq_num: true }
    }
}

/// The ASCII decimal digits of `n`, without leading zeros.
pub open spec fn decimal_digits(n: nat) -> Seq<u8>
    decreases n,
{
    if n < 10 {
        seq![(48 + n) as u8]
    } else {
        decimal_digits(n / 10).push((48 + n % 10) as u8)
    }
}

/// Bytes read as ASCII characters.
pub open spec fn ascii_text(b: Seq<u8>) -> Seq<char> {
    b.map_values(|x: u8| x as char)
}

/// A checksum as exactly three decimal digits.
pub open spec fn checksum_digits(n: nat) -> Seq<u8> {
    seq![(48 + n / 100 % 10) as u8, (48 + n / 10 % 10) as u8, (48 + n % 10) as u8]
}

/// One field on the wire: `tag=value` and the field separator.
pub open spec fn field_wire(f: (u32, Seq<char>)) -> Seq<u8> {
    decimal_digits(f.0 as nat) + seq![VALUE_SEPARATOR] + encode_utf8(f.1) + seq![FIELD_SEPARATOR]
}

/// Fields on the wire, in order.
pub open spec fn wire(fs: Seq<(u32, Seq<char>)>) -> Seq<u8>
    decreases fs.len(),
{
    if fs.len() == 0 {
        seq![]
    } else {
        wire(fs.drop_last()) + field_wire(fs.last())
    }
}

/// Where the body counted by BodyLength ends: at the CheckSum field after it, else at the end.
pub open spec fn body_end(fs: Seq<(u32, Seq<char>)>, body_length_at: int) -> int {
    match index_of(fs, tags::CHECK_SUM) {
        Some(k) => if k > body_length_at {
            k
        } else {
            fs.len() as int
        },
        None => fs.len() as int,
    }
}

/// The fields with the first BodyLength recomputed, if the option asks for it.
#[verifier::opaque]
pub open spec fn with_body_length(fs: Seq<(u32, Seq<char>)>, options: EncodeOptions) -> Seq<
    (u32, Seq<char>),
> {
    match index_of(fs, tags::BODY_LENGTH) {
        Some(i) => if options.set_body_length {
            fs.update(
                i,
                (
                    tags::BODY_LENGTH,
                    ascii_text(decimal_digits(wire(fs.subrange(i + 1, body_end(fs, i))).len())),
                ),
            )
        } else {
            fs
        },
        None => fs,
    }
}

/// The fields with the first CheckSum recomputed from the bytes before it, if asked for.
#[verifier::opaque]
pub open spec fn with_checksum(fs: Seq<(u32, Seq<char>)>, options: EncodeOptions) -> Seq<
    (u32, Seq<char>),
> {
    match index_of(fs, tags::CHECK_SUM) {
        Some(k) => if options.set_checksum {
            fs.update(
                k,
                (tags::CHECK_SUM, ascii_text(checksum_digits(byte_sum(wire(fs.subrange(0, k))) % 256))),
            )
        } else {
            fs
        },
        None => fs,
    }
}

/// The fields as they are written.
pub open spec fn encoded_fields(fs: Seq<(u32, Seq<char>)>, options: EncodeOptions) -> Seq<
    (u32, Seq<char>),
> {
    with_checksum(with_body_length(fs, options), options)
}

/// The bytes that encoding `fs` writes.
pub open spec fn encoding(fs: Seq<(u32, Seq<char>)>, options: EncodeOptions) -> Seq<u8> {
    wire(encoded_fields(fs, options))
}

proof fn lemma_wire_push(fs: Seq<(u32, Seq<char>)>, j: int)
    requires
        0 <= j < fs.len(),
    ensures
        wire(fs.subrange(0, j + 1)) == wire(fs.subrange(0, j)) + field_wire(fs[j]),
{
    assert(fs.subrange(0, j + 1).drop_last() =~= fs.subrange(0, j));
}

proof fn lemma_ascii_text(b: Seq<u8>)
    requires
        forall|i: int| 0 <= i < b.len() ==> #[trigger] b[i] < 128,
    ensures
        encode_utf8(ascii_text(b)) == b,
{
    let c = ascii_text(b);
    assert forall|i: int| 0 <= i < c.len() implies '\0' <= #[trigger] c[i] <= '\u{7f}' by {
        assert(c[i] == b[i] as char);
    }
    is_ascii_chars_encode_utf8(c);
    assert forall|i: int| 0 <= i < c.len() implies encode_utf8(c)[i] == b[i] by {
        assert(c[i] == b[i] as char);
        assert((b[i] as char) as u8 == b[i]);
    }
    assert(encode_utf8(c) =~= b);
}

proof fn lemma_decimal_digits_ascii(n: nat)
    ensures
        forall|i: int| 0 <= i < decimal_digits(n).len() ==> 48 <= #[trigger] decimal_digits(n)[i] <= 57,
    decreases n,
{
    if n >= 10 {
        lemma_decimal_digits_ascii(n / 10);
        let d = decimal_digits(n);
        assert(d == decimal_digits(n / 10).push((48 + n % 10) as u8));
        assert forall|i: int| 0 <= i < d.len() implies 48 <= #[trigger] d[i] <= 57 by {
            if i < d.len() - 1 {
                assert(d[i] == decimal_digits(n / 10)[i]);
            }
        }
    }
}

/// Appends the decimal digits of `n`.
fn push_decimal(out: &mut Vec<u8>, n: u64)
    ensures
        final(out)@ == old(out)@ + decimal_digits(n as nat),
    decreases n,
{
    if n >= 10 {
        push_decimal(out, n / 10);
    }
    out.push((48 + n % 10) as u8);
    proof {
        if n >= 10 {
            assert(old(out)@ + decimal_digits(n as nat) =~= old(out)@ + decimal_digits((n / 10) as nat) + seq![(48 + n % 10) as u8]);
        } else {
            assert(old(out)@ + decimal_digits(n as nat) =~= old(out)@.push((48 + n % 10) as u8));
        }
    }
}

/// Appends `bytes`.
fn push_bytes(out: &mut Vec<u8>, bytes: &[u8])
    ensures
        final(out)@ == old(out)@ + bytes@,
{
    let mut i: usize = 0;
    while i < bytes.len()
        invariant
            i <= bytes@.len(),
            out@ == old(out)@ + bytes@.subrange(0, i as int),
        decreases bytes@.len() - i,
    {
        out.push(bytes[i]);
        i += 1;
        assert(out@ =~= old(out)@ + bytes@.subrange(0, i as int));
    }
    assert(bytes@.subrange(0, bytes@.len() as int) =~= bytes@);
}

/// Appends `tag=` followed by `value` and the field separator.
fn push_field(out: &mut Vec<u8>, tag: u32, value: &[u8])
    ensures
        final(out)@ == old(out)@ + decimal_digits(tag as nat) + seq![VALUE_SEPARATOR] + value@ + seq![FIELD_SEPARATOR],
{
    push_decimal(out, tag as u64);
    out.push(VALUE_SEPARATOR);
    push_bytes(out, value);
    out.push(FIELD_SEPARATOR);
    assert(final(out)@ =~= old(out)@ + decimal_digits(tag as nat) + seq![VALUE_SEPARATOR] + value@ + seq![FIELD_SEPARATOR]);
}

/// Appends the fields from position `from` up to `to`.
fn push_fields(out: &mut Vec<u8>, fields: &FieldCollection, from: usize, to: usize)
    requires
        from <= to <= fields@.len(),
    ensures
        final(out)@ == old(out)@ + wire(fields@.subrange(from as int, to as int)),
{
    let mut j: usize = from;
    let ghost fs = fields@.subrange(from as int, to as int);
    assert(fs.subrange(0, 0) =~= Seq::<(u32, Seq<char>)>::empty());
    assert(old(out)@ + wire(fs.subrange(0, 0)) =~= old(out)@);
    while j < to
        invariant
            from <= j <= to,
            to <= fields@.len(),
            fs == fields@.subrange(from as int, to as int),
            out@ == old(out)@ + wire(fs.subrange(0, j - from)),
        decreases to - j,
    {
        let f = fields.field_at(j);
        proof {
            lemma_wire_push(fs, j - from);
            assert(fs[j - from] == fields@[j as int]);
        }
        push_field(out, f.tag, f.value.as_str().as_bytes());
        j += 1;
        assert(out@ =~= old(out)@ + wire(fs.subrange(0, j - from)));
    }
    assert(fs.subrange(0, to - from) =~= fs);
}

/// The bytes of `b` from `start` on, summed modulo 256.
fn checksum_of(b: &Vec<u8>, start: usize) -> (r: u32)
    requires
        start <= b@.len(),
    ensures
        r as nat == byte_sum(b@.subrange(start as int, b@.len() as int)) % 256,
        r < 256,
{
    let mut i: usize = start;
    let mut sum: u32 = 0;
    while i < b.len()
        invariant
            start <= i <= b@.len(),
            sum < 256,
            sum as nat == byte_sum(b@.subrange(start as int, i as int)) % 256,
        decreases b@.len() - i,
    {
        proof {
            let t = b@.subrange(start as int, i + 1);
            assert(t.drop_last() =~= b@.subrange(start as int, i as int));
            lemma_mod_add(byte_sum(b@.subrange(start as int, i as int)), b@[i as int] as nat);
        }
        sum = (sum + b[i] as u32) % 256;
        i += 1;
    }
    sum
}

/// The three digits of a checksum below 1000.
fn checksum_bytes(value: u32) -> (r: Vec<u8>)
    requires
        value < 1000,
    ensures
        r@ == checksum_digits(value as nat),
{
    let mut r: Vec<u8> = Vec::new();
    r.push((48 + value / 100 % 10) as u8);
    r.push((48 + value / 10 % 10) as u8);
    r.push((48 + value % 10) as u8);
    assert(r@ =~= checksum_digits(value as nat));
    r
}

/// The decimal digits of `n`, as text.
pub fn decimal_text(n: u64) -> (r: String)
    ensures
        r@ == ascii_text(decimal_digits(n as nat)),
{
    let mut digits: Vec<u8> = Vec::new();
    push_decimal(&mut digits, n);
    proof {
        assert(digits@ =~= decimal_digits(n as nat));
        lemma_decimal_digits_ascii(n as nat);
        lemma_ascii_text(digits@);
        encode_utf8_valid_utf8(ascii_text(digits@));
        encode_utf8_decode_utf8(ascii_text(digits@));
        assert(digits@.subrange(0, digits@.len() as int) =~= digits@);
    }
    match text_of(digits.as_slice(), 0, digits.len()) {
        Ok(s) => s,
        Err(_) => {
            proof {
                assert(false);
            }
            String::new()
        },
    }
}

/// A checksum as the three decimal digits the CheckSum field carries, zero-padded.
pub fn format_checksum(value: u32) -> (r: String)
    requires
        value < 1000,
    ensures
        r@ == ascii_text(checksum_digits(value as nat)),
{
    let digits = checksum_bytes(value);
    proof {
        lemma_ascii_text(digits@);
        encode_utf8_valid_utf8(ascii_text(digits@));
        encode_utf8_decode_utf8(ascii_text(digits@));
        assert(digits@.subrange(0, 3) =~= digits@);
    }
    match text_of(digits.as_slice(), 0, 3) {
        Ok(s) => s,
        Err(_) => {
            proof {
                assert(false);
            }
            String::new()
        },
    }
}

proof fn lemma_body_length_tags(fs: Seq<(u32, Seq<char>)>, options: EncodeOptions)
    ensures
        with_body_length(fs, options).len() == fs.len(),
        encoded_fields(fs, options).len() == fs.len(),
        index_of(with_body_length(fs, options), tags::CHECK_SUM) == index_of(fs, tags::CHECK_SUM),
{
    reveal(with_body_length);
    reveal(with_checksum);
    let g = with_body_length(fs, options);
    crate::field_collection::lemma_index_of(fs, tags::BODY_LENGTH);
    crate::field_collection::lemma_index_of(g, tags::CHECK_SUM);
    assert forall|j: int| 0 <= j < g.len() implies (#[trigger] g[j]).0 == fs[j].0 by {}
    lemma_index_of_same_tags(g, fs, tags::CHECK_SUM);
}

/// What `encoded_fields` holds at position `j`.
proof fn lemma_encoded_entry(fs: Seq<(u32, Seq<char>)>, options: EncodeOptions, j: int)
    requires
        0 <= j < fs.len(),
    ensures
        ({
            let g = with_body_length(fs, options);
            let e = encoded_fields(fs, options);
            &&& e.len() == fs.len()
            &&& index_of(fs, tags::BODY_LENGTH) == Some(j) ==> index_of(fs, tags::CHECK_SUM) != Some(j)
            &&& if options.set_checksum && index_of(fs, tags::CHECK_SUM) == Some(j) {
                &&& e.subrange(0, j) == g.subrange(0, j)
                &&& e[j] == (
                    tags::CHECK_SUM,
                    ascii_text(checksum_digits(byte_sum(wire(g.subrange(0, j))) % 256)),
                )
            } else if options.set_body_length && index_of(fs, tags::BODY_LENGTH) == Some(j) {
                e[j] == g[j]
            } else {
                e[j] == fs[j]
            }
        }),
{
    reveal(with_body_length);
    reveal(with_checksum);
    let g = with_body_length(fs, options);
    let e = encoded_fields(fs, options);
    lemma_body_length_tags(fs, options);
    crate::field_collection::lemma_index_of(fs, tags::CHECK_SUM);
    crate::field_collection::lemma_index_of(fs, tags::BODY_LENGTH);
    if options.set_checksum && index_of(fs, tags::CHECK_SUM) == Some(j) {
        assert(e.subrange(0, j) =~= g.subrange(0, j));
    }
}

proof fn lemma_encode_step(
    start: Seq<u8>,
    before: Seq<u8>,
    after: Seq<u8>,
    e: Seq<(u32, Seq<char>)>,
    j: int,
)
    requires
        0 <= j < e.len(),
        before == start + wire(e.subrange(0, j)),
        after == before + field_wire(e[j]),
    ensures
        after == start + wire(e.subrange(0, j + 1)),
        before.subrange(start.len() as int, before.len() as int) == wire(e.subrange(0, j)),
{
    lemma_wire_push(e, j);
    assert(after =~= start + wire(e.subrange(0, j + 1)));
    assert(before.subrange(start.len() as int, before.len() as int) =~= wire(e.subrange(0, j)));
}

impl Message {
    /// Writes this message to the end of `buffer` and returns the number of bytes written.
    /// Fields are written in order as `tag=value` and a separator. With the options set, the
    /// first BodyLength gets the number of bytes after it up to the CheckSum field, and the
    /// first CheckSum gets the sum modulo 256 of the bytes before it, as three digits.
    /// Fields that are absent are not added.
    pub fn encode(&self, buffer: &mut Vec<u8>, options: EncodeOptions) -> (r: Result<usize, Error>)
        ensures
            final(buffer)@ == old(buffer)@ + encoding(self@, options),
            r == Ok::<usize, Error>(encoding(self@, options).len() as usize),
    {
        let ghost fs = self@;
        let n = self.fields.len();
        let start = buffer.len();
        let i9 = self.fields.position(tags::BODY_LENGTH);
        let i10 = self.fields.position(tags::CHECK_SUM);
        let mut body_digits: Vec<u8> = Vec::new();
        let mut rewrite_body = false;
        let mut body_at: usize = 0;
        if options.set_body_length {
            if let Some(i) = i9 {
                let end = match i10 {
                    Some(k) => if k > i {
                        k
                    } else {
                        n
                    },
                    None => n,
                };
                let mut scratch: Vec<u8> = Vec::new();
                push_fields(&mut scratch, &self.fields, i + 1, end);
                push_decimal(&mut body_digits, scratch.len() as u64);
                proof {
                    reveal(with_body_length);
                    assert(scratch@ =~= wire(fs.subrange(i + 1, body_end(fs, i as int))));
                    lemma_decimal_digits_ascii(scratch@.len());
                    lemma_ascii_text(body_digits@);
                }
                rewrite_body = true;
                body_at = i;
            }
        }
        let ghost g = with_body_length(fs, options);
        let ghost e = encoded_fields(fs, options);
        proof {
            reveal(with_body_length);
            lemma_body_length_tags(fs, options);
            assert(wire(e.subrange(0, 0)) =~= Seq::<u8>::empty());
            assert(old(buffer)@ + wire(e.subrange(0, 0)) =~= old(buffer)@);
        }
        let mut j: usize = 0;
        while j < n
            invariant
                n == fs.len(),
                fs == self@,
                g == with_body_length(fs, options),
                e == encoded_fields(fs, options),
                g.len() == fs.len(),
                e.len() == fs.len(),
                index_of(g, tags::CHECK_SUM) == index_of(fs, tags::CHECK_SUM),
                j <= n,
                start == old(buffer)@.len(),
                buffer@ == old(buffer)@ + wire(e.subrange(0, j as int)),
                match i10 {
                    Some(k) => index_of(fs, tags::CHECK_SUM) == Some(k as int) && k < n,
                    None => index_of(fs, tags::CHECK_SUM) is None,
                },
                options.set_body_length && index_of(fs, tags::BODY_LENGTH) is Some ==> rewrite_body,
                rewrite_body ==> options.set_body_length && index_of(fs, tags::BODY_LENGTH) == Some(body_at as int) && body_at < n,
                rewrite_body ==> g[body_at as int] == (tags::BODY_LENGTH, ascii_text(body_digits@)),
                rewrite_body ==> encode_utf8(ascii_text(body_digits@)) == body_digits@,
                !rewrite_body ==> g == fs,
            decreases n - j,
        {
            let f = self.fields.field_at(j);
            let ghost before = buffer@;
            proof {
                lemma_encoded_entry(fs, options, j as int);
                lemma_wire_push(e, j as int);
                assert(before.subrange(start as int, before.len() as int) =~= wire(e.subrange(0, j as int)));
            }
            if rewrite_body && body_at == j {
                push_field(buffer, tags::BODY_LENGTH, body_digits.as_slice());
                proof {
                    assert(e[j as int] == g[j as int]);
                    assert(buffer@ == before + field_wire(e[j as int]));
                }
            } else if options.set_checksum && i10 == Some(j) {
                let cs = checksum_of(buffer, start);
                let digits = checksum_bytes(cs);
                proof {
                    lemma_ascii_text(digits@);
                }
                push_field(buffer, tags::CHECK_SUM, digits.as_slice());
                proof {
                    assert(buffer@ == before + field_wire(e[j as int]));
                }
            } else {
                push_field(buffer, f.tag, f.value.as_str().as_bytes());
                proof {
                    assert(e[j as int] == fs[j as int]);
                    assert(buffer@ == before + field_wire(e[j as int]));
                }
            }
            proof {
                lemma_encode_step(old(buffer)@, before, buffer@, e, j as int);
            }
            j += 1;
        }
        proof {
            assert(e.subrange(0, n as int) =~= e);
        }
        Ok(buffer.len() - start)
    }
}

/// Decoding completes exactly when the last field it read is the CheckSum, and no field
/// before it is one.
proof fn lemma_scan_completion(b: Seq<u8>, at: int, prev: Option<Seq<char>>, data: spec_fn(u32) -> bool)
    ensures
        scan(b, at, prev, data) matches Ok((fs, c, done, e)) ==> {
            &&& done <==> (fs.len() > 0 && fs.last().0 == tags::CHECK_SUM)
            &&& forall|i: int| 0 <= i < fs.len() - 1 ==> (#[trigger] fs[i]).0 != tags::CHECK_SUM
            &&& c <= b.len() || c == at
        },
    decreases b.len() - at,
{
    if 0 <= at < b.len() {
        if let Some(Ok((tag, value, next))) = record_at(b, at, prev, data) {
            if next > at && next <= b.len() && tag != tags::CHECK_SUM {
                lemma_scan_completion(b, next, Some(value), data);
                if let Ok((rest, c, done, e)) = scan(b, next, Some(value), data) {
                    let fs = seq![(tag, value)] + rest;
                    assert(forall|i: int| 0 < i < fs.len() ==> fs[i] == rest[i - 1]);
                    if rest.len() > 0 {
                        assert(fs.last() == rest.last());
                    }
                }
            }
        }
    }
}

/// A whole buffer is consumed and the message completed exactly when the buffer ends with
/// the CheckSum field: the last field read is the CheckSum and the bytes run out with it.
pub proof fn lemma_complete_iff_ends_with_checksum(b: Seq<u8>, prev: Option<Seq<char>>, data: spec_fn(u32) -> bool)
    ensures
        scan(b, 0, prev, data) matches Ok((fs, c, done, e)) ==> (
            (c == b.len() && done) <==> (c == b.len() && fs.len() > 0 && fs.last().0 == tags::CHECK_SUM)
        ),
{
    lemma_scan_completion(b, 0, prev, data);
}

/// The value of the last field after reading `fs`, the field before them being `prev`.
pub open spec fn after_fields(prev: Option<Seq<char>>, fs: Seq<(u32, Seq<char>)>) -> Option<Seq<char>> {
    if fs.len() > 0 {
        Some(fs.last().1)
    } else {
        prev
    }
}

/// A scan result with its positions moved `k` bytes on.
pub open spec fn shifted(
    r: Result<(Seq<(u32, Seq<char>)>, int, bool, int), DecodeFault>,
    k: int,
) -> Result<(Seq<(u32, Seq<char>)>, int, bool, int), DecodeFault> {
    match r {
        Ok((fs, c, d, e)) => Ok((fs, c + k, d, e + k)),
        Err(f) => Err(f),
    }
}

proof fn lemma_find_byte_prefix(p: Seq<u8>, s: Seq<u8>, from: int, x: u8)
    requires
        0 <= from,
        find_byte(p, from, x) is Some,
    ensures
        find_byte(p + s, from, x) == find_byte(p, from, x),
    decreases p.len() - from,
{
    if from < p.len() && p[from] != x {
        lemma_find_byte_prefix(p, s, from + 1, x);
    }
}

proof fn lemma_find_byte_found(b: Seq<u8>, from: int, x: u8)
    requires
        0 <= from,
    ensures
        find_byte(b, from, x) matches Some(k) ==> from <= k < b.len() && b[k] == x,
    decreases b.len() - from,
{
    if from < b.len() && b[from] != x {
        lemma_find_byte_found(b, from + 1, x);
    }
}

proof fn lemma_find_byte_shift(x: Seq<u8>, y: Seq<u8>, from: int, c: u8)
    requires
        0 <= from,
    ensures
        find_byte(x + y, x.len() + from, c) == match find_byte(y, from, c) {
            Some(k) => Some(k + x.len()),
            None => None::<int>,
        },
    decreases y.len() - from,
{
    if from < y.len() {
        assert((x + y)[x.len() + from] == y[from]);
        if y[from] != c {
            lemma_find_byte_shift(x, y, from + 1, c);
        }
    }
}

proof fn lemma_record_prefix(p: Seq<u8>, s: Seq<u8>, at: int, prev: Option<Seq<char>>, data: spec_fn(u32) -> bool)
    requires
        0 <= at < p.len(),
        record_at(p, at, prev, data) is Some,
    ensures
        record_at(p + s, at, prev, data) == record_at(p, at, prev, data),
        record_at(p, at, prev, data) matches Some(Ok((t, v, next))) ==> at < next <= p.len(),
{
    let b = p + s;
    lemma_find_byte_prefix(p, s, at, VALUE_SEPARATOR);
    lemma_find_byte_found(p, at, VALUE_SEPARATOR);
    let eq = find_byte(p, at, VALUE_SEPARATOR)->Some_0;
    assert(b.subrange(at, eq) =~= p.subrange(at, eq));
    if find_byte(p, eq + 1, FIELD_SEPARATOR) is Some {
        lemma_find_byte_prefix(p, s, eq + 1, FIELD_SEPARATOR);
        lemma_find_byte_found(p, eq + 1, FIELD_SEPARATOR);
        let end = find_byte(p, eq + 1, FIELD_SEPARATOR)->Some_0;
        assert(b.subrange(eq + 1, end) =~= p.subrange(eq + 1, end));
    }
    let tag_bytes = p.subrange(at, eq);
    if valid_utf8(tag_bytes) {
        if let Some(t) = bounded_decimal(decode_utf8(tag_bytes), u32::MAX as nat) {
            if let Some(pv) = prev {
                if let Some(len) = bounded_decimal(pv, usize::MAX as nat) {
                    let end = eq + 1 + len;
                    if end < p.len() {
                        assert(b[end] == p[end]);
                        assert(b.subrange(eq + 1, end) =~= p.subrange(eq + 1, end));
                    }
                }
            }
        }
    }
}

proof fn lemma_record_shift(x: Seq<u8>, y: Seq<u8>, at: int, prev: Option<Seq<char>>, data: spec_fn(u32) -> bool)
    requires
        0 <= at < y.len(),
    ensures
        record_at(x + y, x.len() + at, prev, data) == match record_at(y, at, prev, data) {
            Some(Ok((t, v, next))) => Some(Ok::<(u32, Seq<char>, int), DecodeFault>((t, v, next + x.len()))),
            other => other,
        },
{
    let b = x + y;
    let k = x.len() as int;
    lemma_find_byte_shift(x, y, at, VALUE_SEPARATOR);
    lemma_find_byte_found(y, at, VALUE_SEPARATOR);
    if let Some(eq) = find_byte(y, at, VALUE_SEPARATOR) {
        assert(b.subrange(k + at, k + eq) =~= y.subrange(at, eq));
        lemma_find_byte_shift(x, y, eq + 1, FIELD_SEPARATOR);
        lemma_find_byte_found(y, eq + 1, FIELD_SEPARATOR);
        if let Some(end) = find_byte(y, eq + 1, FIELD_SEPARATOR) {
            assert(b.subrange(k + eq + 1, k + end) =~= y.subrange(eq + 1, end));
        }
        let tag_bytes = y.subrange(at, eq);
        if valid_utf8(tag_bytes) {
            if let Some(t) = bounded_decimal(decode_utf8(tag_bytes), u32::MAX as nat) {
                if let Some(pv) = prev {
                    if let Some(len) = bounded_decimal(pv, usize::MAX as nat) {
                        let end = eq + 1 + len;
                        if end < y.len() {
                            assert(b[k + end] == y[end]);
                            assert(b.subrange(k + eq + 1, k + end) =~= y.subrange(eq + 1, end));
                        }
                    }
                }
            }
        }
    }
}

proof fn lemma_scan_shift(x: Seq<u8>, y: Seq<u8>, at: int, prev: Option<Seq<char>>, data: spec_fn(u32) -> bool)
    requires
        0 <= at,
    ensures
        scan(x + y, x.len() + at, prev, data) == shifted(scan(y, at, prev, data), x.len() as int),
    decreases y.len() - at,
{
    let k = x.len() as int;
    if at < y.len() {
        lemma_record_shift(x, y, at, prev, data);
        if let Some(Ok((tag, value, next))) = record_at(y, at, prev, data) {
            if next > at && next <= y.len() && tag != tags::CHECK_SUM {
                lemma_scan_shift(x, y, next, Some(value), data);
                assert(k + next == next + k);
            }
        }
    }
}

proof fn lemma_scan_prefix(p: Seq<u8>, s: Seq<u8>, at: int, prev: Option<Seq<char>>, data: spec_fn(u32) -> bool)
    requires
        0 <= at <= p.len(),
        scan(p, at, prev, data) matches Ok((f1, c1, d1, e1)) && !d1,
    ensures
        scan(p, at, prev, data) matches Ok((f1, c1, d1, e1)) && {
            &&& at <= c1 <= p.len()
            &&& e1 == c1
            &&& c1 == p.len() || record_at(p, c1, after_fields(prev, f1), data) is None
            &&& scan(p + s, at, prev, data) == prepend(f1, scan(p + s, c1, after_fields(prev, f1), data))
        },
    decreases p.len() - at,
{
    let empty = Seq::<(u32, Seq<char>)>::empty();
    if at < p.len() {
        match record_at(p, at, prev, data) {
            None => {
                assert(after_fields(prev, empty) == prev);
                if let Ok((fs, c, d, e)) = scan(p + s, at, prev, data) {
                    assert(empty + fs =~= fs);
                }
            },
            Some(Err(_)) => {},
            Some(Ok((tag, value, next))) => {
                lemma_record_prefix(p, s, at, prev, data);
                let x = (tag, value);
                lemma_scan_prefix(p, s, next, Some(value), data);
                let (f2, c2, d2, e2) = scan(p, next, Some(value), data)->Ok_0;
                let f1 = seq![x] + f2;
                assert(after_fields(prev, f1) == after_fields(Some(value), f2)) by {
                    if f2.len() > 0 {
                        assert(f1.last() == f2.last());
                    }
                }
                let tail = scan(p + s, c2, after_fields(Some(value), f2), data);
                assert(prepend(seq![x], prepend(f2, tail)) == prepend(f1, tail)) by {
                    if let Ok((r, c, d, e)) = tail {
                        assert(seq![x] + (f2 + r) =~= f1 + r);
                    }
                }
            },
        }
    } else {
        assert(after_fields(prev, empty) == prev);
        if let Ok((fs, c, d, e)) = scan(p + s, at, prev, data) {
            assert(empty + fs =~= fs);
        }
    }
}

/// Decoding a stream in two calls gives what decoding it in one call gives. The first call
/// reads `p` and stops at the last field boundary it can reach (`c1`); the second is given
/// the bytes it left followed by the next bytes `s`, with the field read last as the one
/// before. Together they read the same fields, consume the same bytes and complete the same
/// way, or meet the same fault, wherever `p` ends: on a field boundary or inside a field.
pub proof fn lemma_split_decoding(p: Seq<u8>, s: Seq<u8>, prev: Option<Seq<char>>, data: spec_fn(u32) -> bool)
    requires
        scan(p, 0, prev, data) matches Ok((f1, c1, d1, e1)) && !d1,
    ensures
        scan(p, 0, prev, data) matches Ok((f1, c1, d1, e1)) && {
            &&& c1 <= p.len()
            &&& c1 == p.len() || record_at(p, c1, after_fields(prev, f1), data) is None
            &&& scan(p + s, 0, prev, data) == prepend(
                f1,
                shifted(scan(p.subrange(c1, p.len() as int) + s, 0, after_fields(prev, f1), data), c1),
            )
        },
{
    lemma_scan_prefix(p, s, 0, prev, data);
    let (f1, c1, d1, e1) = scan(p, 0, prev, data)->Ok_0;
    let x = p.subrange(0, c1);
    let rest = p.subrange(c1, p.len() as int) + s;
    assert(x + rest =~= p + s);
    lemma_scan_shift(x, rest, 0, after_fields(prev, f1), data);
}

proof fn lemma_byte_sum_concat(a: Seq<u8>, b: Seq<u8>)
    ensures
        byte_sum(a + b) == byte_sum(a) + byte_sum(b),
    decreases b.len(),
{
    if b.len() == 0 {
        assert(a + b =~= a);
    } else {
        assert((a + b).drop_last() =~= a + b.drop_last());
        lemma_byte_sum_concat(a, b.drop_last());
    }
}

/// Decoding a stream in two calls, as [`lemma_split_decoding`] describes, accumulates the
/// same checksum as decoding it in one call.
pub proof fn lemma_split_checksum(
    p: Seq<u8>,
    s: Seq<u8>,
    prev: Option<Seq<char>>,
    data: spec_fn(u32) -> bool,
    state: (u32, bool),
)
    requires
        scan(p, 0, prev, data) matches Ok((f1, c1, d1, e1)) && !d1,
        scan(p + s, 0, prev, data) is Ok,
        state.0 < 256,
    ensures
        scan(p, 0, prev, data) matches Ok((f1, c1, d1, e1)) && scan(
            p.subrange(c1, p.len() as int) + s,
            0,
            after_fields(prev, f1),
            data,
        ) matches Ok((f2, c2, d2, e2)) && scan(p + s, 0, prev, data) matches Ok((fs, c, d, e)) && next_checksum(
            next_checksum(state, p.subrange(0, e1), d1),
            (p.subrange(c1, p.len() as int) + s).subrange(0, e2),
            d2,
        ) == next_checksum(state, (p + s).subrange(0, e), d),
{
    lemma_split_decoding(p, s, prev, data);
    let (f1, c1, d1, e1) = scan(p, 0, prev, data)->Ok_0;
    let rest = p.subrange(c1, p.len() as int) + s;
    let (f2, c2, d2, e2) = scan(rest, 0, after_fields(prev, f1), data)->Ok_0;
    let (fs, c, d, e) = scan(p + s, 0, prev, data)->Ok_0;
    lemma_scan_prefix(p, s, 0, prev, data);
    assert(e == e2 + c1);
    lemma_scan_completion(rest, 0, after_fields(prev, f1), data);
    lemma_scan_sum_end(rest, 0, after_fields(prev, f1), data);
    assert((p + s).subrange(0, e) =~= p.subrange(0, e1) + rest.subrange(0, e2));
    lemma_byte_sum_concat(p.subrange(0, e1), rest.subrange(0, e2));
    lemma_mod_add(state.0 as nat + byte_sum(p.subrange(0, e1)), byte_sum(rest.subrange(0, e2)));
}

proof fn lemma_scan_sum_end(b: Seq<u8>, at: int, prev: Option<Seq<char>>, data: spec_fn(u32) -> bool)
    requires
        0 <= at <= b.len(),
    ensures
        scan(b, at, prev, data) matches Ok((fs, c, d, e)) ==> at <= e <= c <= b.len(),
    decreases b.len() - at,
{
    if at < b.len() {
        if let Some(Ok((tag, value, next))) = record_at(b, at, prev, data) {
            if next > at && next <= b.len() && tag != tags::CHECK_SUM {
                lemma_scan_sum_end(b, next, Some(value), data);
            }
        }
    }
}

/// Whether decimal digits are written without leading zeros.
pub open spec fn canonical_decimal(s: Seq<char>) -> bool {
    is_decimal(s) && (s.len() == 1 || s[0] != '0')
}

/// Whether every field read by decoding `b` from `at` has its tag written without leading
/// zeros.
pub open spec fn canonical_tags(b: Seq<u8>, at: int, prev: Option<Seq<char>>, data: spec_fn(u32) -> bool) -> bool
    decreases b.len() - at,
{
    if at < 0 || at >= b.len() {
        true
    } else {
        match record_at(b, at, prev, data) {
            Some(Ok((tag, value, next))) => {
                &&& canonical_decimal(decode_utf8(b.subrange(at, find_byte(b, at, VALUE_SEPARATOR)->Some_0)))
                &&& (next <= at || next > b.len() || tag == tags::CHECK_SUM || canonical_tags(
                    b,
                    next,
                    Some(value),
                    data,
                ))
            },
            _ => true,
        }
    }
}

/// Whether the first BodyLength holds the number of bytes between it and the CheckSum.
pub open spec fn body_length_declared(fs: Seq<(u32, Seq<char>)>) -> bool {
    index_of(fs, tags::BODY_LENGTH) matches Some(i) ==> fs[i].1 == ascii_text(
        decimal_digits(wire(fs.subrange(i + 1, body_end(fs, i))).len()),
    )
}

/// Whether the first CheckSum holds the sum modulo 256 of the bytes before it.
pub open spec fn checksum_declared(fs: Seq<(u32, Seq<char>)>) -> bool {
    index_of(fs, tags::CHECK_SUM) matches Some(k) ==> fs[k].1 == ascii_text(
        checksum_digits(byte_sum(wire(fs.subrange(0, k))) % 256),
    )
}

proof fn lemma_leading_digit(s: Seq<char>)
    requires
        is_decimal(s),
        s[0] != '0',
    ensures
        decimal_value(s) >= 1,
    decreases s.len(),
{
    if s.len() > 1 {
        let t = s.drop_last();
        assert(t[0] == s[0]);
        lemma_leading_digit(t);
    }
}

proof fn lemma_canonical_digits(s: Seq<char>)
    requires
        canonical_decimal(s),
    ensures
        decimal_digits(decimal_value(s)) == s.map_values(|c: char| c as u8),
    decreases s.len(),
{
    let v = decimal_value(s);
    let d = ((s.last() as u32) as int - 48) as nat;
    assert(0 <= d <= 9) by {
        assert('0' <= s[s.len() - 1] && s[s.len() - 1] <= '9');
    }
    assert((s.last() as u8) == (48 + d) as u8);
    if s.len() == 1 {
        assert(s.drop_last().len() == 0);
        assert(v == d);
        assert(decimal_digits(v) =~= s.map_values(|c: char| c as u8));
    } else {
        let t = s.drop_last();
        assert(t[0] == s[0]);
        assert(forall|i: int| 0 <= i < t.len() ==> #[trigger] t[i] == s[i]);
        assert(canonical_decimal(t));
        lemma_leading_digit(t);
        lemma_canonical_digits(t);
        let w = decimal_value(t);
        assert(v == w * 10 + d);
        assert(v >= 10);
        assert(v / 10 == w && v % 10 == d) by (nonlinear_arith)
            requires
                v == w * 10 + d,
                d <= 9,
        ;
        assert(decimal_digits(v) == decimal_digits(w).push((48 + d) as u8));
        assert(s.map_values(|c: char| c as u8) =~= t.map_values(|c: char| c as u8).push(s.last() as u8));
    }
}

proof fn lemma_canonical_bytes(tb: Seq<u8>)
    requires
        valid_utf8(tb),
        canonical_decimal(decode_utf8(tb)),
    ensures
        tb == decimal_digits(decimal_value(decode_utf8(tb))),
{
    let s = decode_utf8(tb);
    decode_utf8_encode_utf8(tb);
    assert(is_ascii_chars(s)) by {
        assert forall|i: int| 0 <= i < s.len() implies '\0' <= #[trigger] s[i] <= '\u{7f}' by {
            assert('0' <= s[i] && s[i] <= '9');
        }
    }
    is_ascii_chars_encode_utf8(s);
    lemma_canonical_digits(s);
    assert(encode_utf8(s) =~= s.map_values(|c: char| c as u8));
}

proof fn lemma_record_bytes(b: Seq<u8>, at: int, prev: Option<Seq<char>>, data: spec_fn(u32) -> bool)
    requires
        0 <= at < b.len(),
        record_at(b, at, prev, data) is Some,
        record_at(b, at, prev, data)->Some_0 is Ok,
        canonical_decimal(decode_utf8(b.subrange(at, find_byte(b, at, VALUE_SEPARATOR)->Some_0))),
    ensures
        record_at(b, at, prev, data) matches Some(Ok((tag, value, next))) && at < next <= b.len()
            && b.subrange(at, next) == field_wire((tag, value)),
{
    lemma_find_byte_found(b, at, VALUE_SEPARATOR);
    let eq = find_byte(b, at, VALUE_SEPARATOR)->Some_0;
    let tb = b.subrange(at, eq);
    lemma_canonical_bytes(tb);
    let (tag, value, next) = record_at(b, at, prev, data)->Some_0->Ok_0;
    let end = next - 1;
    lemma_find_byte_found(b, eq + 1, FIELD_SEPARATOR);
    let vb = b.subrange(eq + 1, end);
    decode_utf8_encode_utf8(vb);
    assert(tag as nat == decimal_value(decode_utf8(tb)));
    assert(b.subrange(at, next) =~= tb + seq![VALUE_SEPARATOR] + vb + seq![FIELD_SEPARATOR]);
}

proof fn lemma_wire_prepend(x: (u32, Seq<char>), rest: Seq<(u32, Seq<char>)>)
    ensures
        wire(seq![x] + rest) == field_wire(x) + wire(rest),
    decreases rest.len(),
{
    let all = seq![x] + rest;
    if rest.len() == 0 {
        assert(all =~= seq![x]);
        assert(all.drop_last() =~= Seq::<(u32, Seq<char>)>::empty());
        assert(wire(all.drop_last()) == Seq::<u8>::empty());
        assert(wire(all) == wire(all.drop_last()) + field_wire(all.last()));
        assert(wire(all) =~= field_wire(x));
        assert(wire(rest) == Seq::<u8>::empty());
        assert(field_wire(x) + wire(rest) =~= field_wire(x));
    } else {
        assert(all.drop_last() =~= seq![x] + rest.drop_last());
        lemma_wire_prepend(x, rest.drop_last());
        assert(all.last() == rest.last());
        assert(wire(all) == wire(all.drop_last()) + field_wire(all.last()));
        assert(wire(rest) == wire(rest.drop_last()) + field_wire(rest.last()));
        assert(field_wire(x) + wire(rest) =~= field_wire(x) + wire(rest.drop_last()) + field_wire(rest.last()));
    }
}

proof fn lemma_wire_of_scan(b: Seq<u8>, at: int, prev: Option<Seq<char>>, data: spec_fn(u32) -> bool)
    requires
        0 <= at <= b.len(),
        scan(b, at, prev, data) is Ok,
        canonical_tags(b, at, prev, data),
    ensures
        scan(b, at, prev, data) matches Ok((fs, c, d, e)) && at <= c <= b.len() && wire(fs) == b.subrange(at, c),
    decreases b.len() - at,
{
    if at < b.len() {
        if let Some(Ok((tag, value, next))) = record_at(b, at, prev, data) {
            lemma_record_bytes(b, at, prev, data);
            if tag == tags::CHECK_SUM {
                lemma_wire_prepend((tag, value), Seq::empty());
                assert(seq![(tag, value)] + Seq::<(u32, Seq<char>)>::empty() =~= seq![(tag, value)]);
                assert(wire(Seq::<(u32, Seq<char>)>::empty()) =~= Seq::<u8>::empty());
                assert(field_wire((tag, value)) + Seq::<u8>::empty() =~= field_wire((tag, value)));
            } else {
                lemma_wire_of_scan(b, next, Some(value), data);
                let (rest, c, d, e) = scan(b, next, Some(value), data)->Ok_0;
                lemma_wire_prepend((tag, value), rest);
                assert(b.subrange(at, c) =~= b.subrange(at, next) + b.subrange(next, c));
            }
        } else {
            assert(wire(Seq::<(u32, Seq<char>)>::empty()) =~= b.subrange(at, at));
        }
    } else {
        assert(wire(Seq::<(u32, Seq<char>)>::empty()) =~= b.subrange(at, at));
    }
}

/// Encoding with the standard options what was decoded from a whole message gives back its
/// bytes, when its tags carry no leading zeros and its BodyLength and CheckSum hold the
/// values the encoder computes.
pub proof fn lemma_encode_of_decode(b: Seq<u8>, data: spec_fn(u32) -> bool)
    requires
        scan(b, 0, None, data) matches Ok((fs, c, done, e)) && c == b.len() && done,
        canonical_tags(b, 0, None, data),
        body_length_declared(scan(b, 0, None, data)->Ok_0.0),
        checksum_declared(scan(b, 0, None, data)->Ok_0.0),
    ensures
        encoding(scan(b, 0, None, data)->Ok_0.0, EncodeOptions::standard_spec()) == b,
{
    let fs = scan(b, 0, None, data)->Ok_0.0;
    let options = EncodeOptions::standard_spec();
    lemma_wire_of_scan(b, 0, None, data);
    assert(b.subrange(0, b.len() as int) =~= b);
    reveal(with_body_length);
    reveal(with_checksum);
    crate::field_collection::lemma_index_of(fs, tags::BODY_LENGTH);
    crate::field_collection::lemma_index_of(fs, tags::CHECK_SUM);
    assert(with_body_length(fs, options) =~= fs);
    assert(with_checksum(fs, options) =~= fs);
}

/// Whether `fs` is a well-formed sequence of fields to put on the wire after a field whose
/// value is `prev`: a data field follows a field that holds its length in bytes, any other
/// value is ASCII without the field separator, and a CheckSum field comes last.
pub open spec fn well_formed(fs: Seq<(u32, Seq<char>)>, prev: Option<Seq<char>>, data: spec_fn(u32) -> bool) -> bool
    decreases fs.len(),
{
    if fs.len() == 0 {
        true
    } else {
        let t = fs[0].0;
        let v = fs[0].1;
        &&& (data(t) ==> (prev matches Some(p) && bounded_decimal(p, usize::MAX as nat) == Some(
            encode_utf8(v).len(),
        )))
        &&& (!data(t) ==> is_ascii_chars(v) && forall|i: int| 0 <= i < v.len() ==> #[trigger] v[i] != '\u{1}')
        &&& (t == tags::CHECK_SUM ==> fs.len() == 1)
        &&& well_formed(fs.drop_first(), Some(v), data)
    }
}

proof fn lemma_decimal_of_digits(n: nat)
    ensures
        is_decimal(ascii_text(decimal_digits(n))),
        decimal_value(ascii_text(decimal_digits(n))) == n,
    decreases n,
{
    let d = decimal_digits(n);
    lemma_decimal_digits_ascii(n);
    let c = ascii_text(d);
    assert forall|i: int| 0 <= i < c.len() implies '0' <= #[trigger] c[i] && c[i] <= '9' by {
        assert(c[i] == d[i] as char);
    }
    let b: u8 = (48 + n % 10) as u8;
    assert(b as int == 48 + n % 10);
    assert((b as char) as u32 == b as u32);
    if n < 10 {
        assert(c.drop_last() =~= Seq::<char>::empty());
        assert(c.last() == b as char);
        assert(decimal_value(c.drop_last()) == 0);
    } else {
        lemma_decimal_of_digits(n / 10);
        assert(c.drop_last() =~= ascii_text(decimal_digits(n / 10)));
        assert(c.last() == b as char);
        assert(n == (n / 10) * 10 + n % 10);
    }
}

proof fn lemma_record_of_field(f: (u32, Seq<char>), prev: Option<Seq<char>>, data: spec_fn(u32) -> bool)
    requires
        data(f.0) ==> (prev matches Some(p) && bounded_decimal(p, usize::MAX as nat) == Some(encode_utf8(f.1).len())),
        !data(f.0) ==> is_ascii_chars(f.1) && forall|i: int| 0 <= i < f.1.len() ==> #[trigger] f.1[i] != '\u{1}',
    ensures
        record_at(field_wire(f), 0, prev, data) == Some(
            Ok::<(u32, Seq<char>, int), DecodeFault>((f.0, f.1, field_wire(f).len() as int)),
        ),
{
    let x = field_wire(f);
    let digits = decimal_digits(f.0 as nat);
    let vb = encode_utf8(f.1);
    let eq = digits.len() as int;
    lemma_decimal_digits_ascii(f.0 as nat);
    assert forall|j: int| 0 <= j < eq implies x[j] != VALUE_SEPARATOR by {
        assert(x[j] == digits[j]);
    }
    assert(x[eq] == VALUE_SEPARATOR);
    lemma_find_byte(x, 0, VALUE_SEPARATOR, eq);
    assert(x.subrange(0, eq) =~= digits);
    lemma_ascii_text(digits);
    encode_utf8_valid_utf8(ascii_text(digits));
    encode_utf8_decode_utf8(ascii_text(digits));
    lemma_decimal_of_digits(f.0 as nat);
    let end = x.len() - 1;
    assert(end == eq + 1 + vb.len());
    assert(x[end] == FIELD_SEPARATOR);
    assert(x.subrange(eq + 1, end) =~= vb);
    encode_utf8_valid_utf8(f.1);
    encode_utf8_decode_utf8(f.1);
    if !data(f.0) {
        is_ascii_chars_encode_utf8(f.1);
        assert forall|j: int| eq + 1 <= j < end implies x[j] != FIELD_SEPARATOR by {
            assert(x[j] == vb[j - eq - 1]);
            assert(f.1[j - eq - 1] as u8 == vb[j - eq - 1]);
        }
        lemma_find_byte(x, eq + 1, FIELD_SEPARATOR, end);
    }
}

/// Decoding a well-formed stream succeeds and reads exactly its fields; it consumes the whole
/// stream, and completes exactly when the last field is the CheckSum.
pub proof fn lemma_decode_well_formed(fs: Seq<(u32, Seq<char>)>, prev: Option<Seq<char>>, data: spec_fn(u32) -> bool)
    requires
        well_formed(fs, prev, data),
    ensures
        scan(wire(fs), 0, prev, data) matches Ok((gs, c, done, e)) && gs == fs && c == wire(fs).len()
            && done == (fs.len() > 0 && fs.last().0 == tags::CHECK_SUM),
    decreases fs.len(),
{
    if fs.len() > 0 {
        let f = fs[0];
        let rest = fs.drop_first();
        assert(fs =~= seq![f] + rest);
        lemma_wire_prepend(f, rest);
        let x = field_wire(f);
        let y = wire(rest);
        lemma_record_of_field(f, prev, data);
        if y.len() > 0 {
            lemma_record_prefix(x, y, 0, prev, data);
        } else {
            assert(x + y =~= x);
        }
        lemma_decode_well_formed(rest, Some(f.1), data);
        if f.0 == tags::CHECK_SUM {
            assert(rest.len() == 0);
            assert(y =~= Seq::<u8>::empty());
            assert(x + y =~= x);
        } else {
            lemma_scan_shift(x, y, 0, Some(f.1), data);
            let (gs, c, done, e) = scan(y, 0, Some(f.1), data)->Ok_0;
            if rest.len() > 0 {
                assert(fs.last() == rest.last());
            }
        }
    }
}

/// A decode that succeeds on a whole stream also succeeds on each prefix of it.
pub proof fn lemma_prefix_decodes(p: Seq<u8>, s: Seq<u8>, at: int, prev: Option<Seq<char>>, data: spec_fn(u32) -> bool)
    requires
        0 <= at,
        scan(p + s, at, prev, data) is Ok,
    ensures
        scan(p, at, prev, data) is Ok,
    decreases p.len() - at,
{
    if at < p.len() {
        if record_at(p, at, prev, data) is Some {
            lemma_record_prefix(p, s, at, prev, data);
            if let Some(Ok((tag, value, next))) = record_at(p, at, prev, data) {
                if tag != tags::CHECK_SUM {
                    lemma_prefix_decodes(p, s, next, Some(value), data);
                }
            }
        }
    }
}

proof fn lemma_complete_prefix(p: Seq<u8>, s: Seq<u8>, at: int, prev: Option<Seq<char>>, data: spec_fn(u32) -> bool)
    requires
        0 <= at,
        scan(p, at, prev, data) matches Ok((f1, c1, d1, e1)) && d1,
    ensures
        scan(p + s, at, prev, data) == scan(p, at, prev, data),
    decreases p.len() - at,
{
    if at < p.len() {
        if record_at(p, at, prev, data) is Some {
            lemma_record_prefix(p, s, at, prev, data);
            if let Some(Ok((tag, value, next))) = record_at(p, at, prev, data) {
                if tag != tags::CHECK_SUM && next > at && next <= p.len() {
                    lemma_complete_prefix(p, s, next, Some(value), data);
                }
            }
        }
    }
}

/// A well-formed stream cut anywhere and decoded in two calls, the second given what the
/// first left followed by the rest of the stream, yields its fields in order, consumes it
/// whole, and completes exactly when the stream ends with the CheckSum, as one call does.
/// The first call stops at the last field boundary before the cut.
pub proof fn lemma_split_well_formed(fs: Seq<(u32, Seq<char>)>, prev: Option<Seq<char>>, data: spec_fn(u32) -> bool, k: int)
    requires
        well_formed(fs, prev, data),
        0 <= k <= wire(fs).len(),
    ensures
        ({
            let b = wire(fs);
            let p = b.subrange(0, k);
            let s = b.subrange(k, b.len() as int);
            let ends = fs.len() > 0 && fs.last().0 == tags::CHECK_SUM;
            scan(p, 0, prev, data) matches Ok((f1, c1, d1, e1)) && {
                &&& c1 <= k
                &&& c1 == k || record_at(p, c1, after_fields(prev, f1), data) is None
                &&& d1 ==> f1 == fs && c1 == b.len() && ends
                &&& !d1 ==> (scan(p.subrange(c1, k) + s, 0, after_fields(prev, f1), data) matches Ok((f2, c2, d2, e2))
                    && f1 + f2 == fs && c1 + c2 == b.len() && d2 == ends)
            }
        }),
{
    let b = wire(fs);
    let p = b.subrange(0, k);
    let s = b.subrange(k, b.len() as int);
    lemma_decode_well_formed(fs, prev, data);
    assert(p + s =~= b);
    lemma_prefix_decodes(p, s, 0, prev, data);
    lemma_scan_sum_end(p, 0, prev, data);
    let (f1, c1, d1, e1) = scan(p, 0, prev, data)->Ok_0;
    if d1 {
        lemma_complete_prefix(p, s, 0, prev, data);
        lemma_scan_completion(p, 0, prev, data);
    } else {
        lemma_split_decoding(p, s, prev, data);
    }
}

} // verus!
