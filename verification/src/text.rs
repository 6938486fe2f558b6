//! The building blocks of protocol text: decimal numbers, words compared
//! without regard to case, and lines split into fields at single spaces.

use vstd::prelude::*;
use vstd::slice::slice_subrange;

verus! {

/// The byte that separates the fields of a line.
pub const SPACE: u8 = 0x20;

/// The byte that ends a line.
pub const NEWLINE: u8 = 0x0A;

/// The byte that may precede the end of a line.
pub const CARRIAGE_RETURN: u8 = 0x0D;

/// Whether a byte is an ASCII decimal digit.
pub open spec fn is_digit(b: u8) -> bool {
    0x30 <= b <= 0x39
}

/// Whether a field is a decimal number: one or more digits, nothing else.
pub open spec fn is_number(s: Seq<u8>) -> bool {
    s.len() > 0 && forall|i: int| 0 <= i < s.len() ==> is_digit(#[trigger] s[i])
}

/// The number that a sequence of digits denotes.
pub open spec fn number_value(s: Seq<u8>) -> nat
    decreases s.len(),
{
    if s.len() == 0 {
        0
    } else {
        number_value(s.drop_last()) * 10 + (s.last() - 0x30) as nat
    }
}

/// The decimal text of a number, without leading zeros.
pub open spec fn number_text(n: nat) -> Seq<u8>
    decreases n,
{
    if n < 10 {
        seq![(0x30 + n) as u8]
    } else {
        number_text(n / 10).push((0x30 + n % 10) as u8)
    }
}

/// The number that a field denotes, if it is a decimal number that fits the
/// machine's word.
pub open spec fn number_of(s: Seq<u8>) -> Option<usize> {
    if is_number(s) && number_value(s) <= usize::MAX {
        Some(number_value(s) as usize)
    } else {
        None
    }
}

/// The decimal text of a number is a decimal number and denotes that number.
pub proof fn law_number_round_trip(n: nat)
    ensures
        is_number(number_text(n)),
        number_value(number_text(n)) == n,
    decreases n,
{
    if n < 10 {
        let s = number_text(n);
        assert(s.drop_last() =~= Seq::<u8>::empty());
        assert(number_value(s.drop_last()) == 0);
    } else {
        law_number_round_trip(n / 10);
        let s = number_text(n);
        assert(s.drop_last() =~= number_text(n / 10));
    }
}

/// With more digits to the right a number does not get smaller.
pub proof fn lemma_number_value_grows(s: Seq<u8>, k: int)
    requires
        0 <= k <= s.len(),
        forall|i: int| 0 <= i < s.len() ==> is_digit(#[trigger] s[i]),
    ensures
        number_value(s.take(k)) <= number_value(s),
    decreases s.len() - k,
{
    if k == s.len() {
        assert(s.take(k) =~= s);
    } else {
        lemma_number_value_grows(s, k + 1);
        assert(s.take(k + 1).drop_last() =~= s.take(k));
    }
}

/// Reads a field as a decimal number.
pub fn parse_number(field: &[u8]) -> (res: Option<usize>)
    ensures
        res == number_of(field@),
{
    if field.len() == 0 {
        return None;
    }
    let mut value: usize = 0;
    let mut i: usize = 0;
    while i < field.len()
        invariant
            i <= field@.len(),
            forall|j: int| 0 <= j < i ==> is_digit(#[trigger] field@[j]),
            value == number_value(field@.take(i as int)),
        decreases field@.len() - i,
    {
        let b: u8 = field[i];
        if b < 0x30 || b > 0x39 {
            return None;
        }
        proof {
            assert(field@.take(i + 1).drop_last() =~= field@.take(i as int));
        }
        let digit: usize = (b - 0x30) as usize;
        let next: Option<usize> = match value.checked_mul(10) {
            None => None,
            Some(tens) => tens.checked_add(digit),
        };
        match next {
            None => {
                proof {
                    if is_number(field@) {
                        lemma_number_value_grows(field@, i + 1);
                    }
                }
                return None;
            },
            Some(v) => {
                value = v;
            },
        }
        i = i + 1;
    }
    proof {
        assert(field@.take(i as int) =~= field@);
    }
    Some(value)
}

/// Appends the decimal text of a number.
pub fn push_number(out: &mut Vec<u8>, n: usize)
    ensures
        final(out)@ == old(out)@ + number_text(n as nat),
    decreases n,
{
    if n >= 10 {
        push_number(out, n / 10);
    }
    out.push(0x30 + (n % 10) as u8);
    assert(out@ =~= old(out)@ + number_text(n as nat));
}

/// The upper-case form of an ASCII letter; any other byte unchanged.
pub open spec fn upper(b: u8) -> u8 {
    if 0x61 <= b <= 0x7A {
        (b - 0x20) as u8
    } else {
        b
    }
}

/// Whether a field spells a word, letters compared without regard to case.
pub open spec fn matches_word(field: Seq<u8>, word: Seq<u8>) -> bool {
    field.len() == word.len() && forall|i: int|
        0 <= i < field.len() ==> upper(#[trigger] field[i]) == upper(word[i])
}

/// The upper-case form of an ASCII letter; any other byte unchanged.
pub fn to_upper(b: u8) -> (r: u8)
    ensures
        r == upper(b),
{
    if 0x61 <= b && b <= 0x7A {
        b - 0x20
    } else {
        b
    }
}

/// Compares a field with a word, letters without regard to case.
pub fn eq_ignore_case(field: &[u8], word: &[u8]) -> (r: bool)
    ensures
        r == matches_word(field@, word@),
{
    if field.len() != word.len() {
        return false;
    }
    let mut i: usize = 0;
    while i < field.len()
        invariant
            i <= field@.len(),
            field@.len() == word@.len(),
            forall|j: int| 0 <= j < i ==> upper(#[trigger] field@[j]) == upper(word@[j]),
        decreases field@.len() - i,
    {
        if to_upper(field[i]) != to_upper(word[i]) {
            return false;
        }
        i = i + 1;
    }
    true
}

/// Whether two byte strings are equal.
pub fn bytes_equal(a: &[u8], b: &[u8]) -> (r: bool)
    ensures
        r == (a@ == b@),
{
    if a.len() != b.len() {
        return false;
    }
    let mut i: usize = 0;
    while i < a.len()
        invariant
            i <= a@.len(),
            a@.len() == b@.len(),
            forall|j: int| 0 <= j < i ==> a@[j] == b@[j],
        decreases a@.len() - i,
    {
        if a[i] != b[i] {
            return false;
        }
        i = i + 1;
    }
    assert(a@ =~= b@);
    true
}

/// A line without its terminator: a final newline is dropped, and with it a
/// carriage return that stands directly before it.
pub open spec fn line_body(line: Seq<u8>) -> Seq<u8> {
    if line.len() >= 2 && line[line.len() - 1] == NEWLINE && line[line.len() - 2]
        == CARRIAGE_RETURN {
        line.take(line.len() - 2)
    } else if line.len() >= 1 && line[line.len() - 1] == NEWLINE {
        line.take(line.len() - 1)
    } else {
        line
    }
}

/// The length of a line without its terminator.
pub fn body_length(line: &[u8]) -> (n: usize)
    ensures
        n == line_body(line@).len(),
        line_body(line@) == line@.take(n as int),
        n <= line@.len(),
{
    let len: usize = line.len();
    let n: usize = if len >= 2 && line[len - 1] == NEWLINE && line[len - 2] == CARRIAGE_RETURN {
        len - 2
    } else if len >= 1 && line[len - 1] == NEWLINE {
        len - 1
    } else {
        len
    };
    assert(line@.take(len as int) =~= line@);
    n
}

/// The fields of a line body: the pieces between its spaces. Every space
/// separates two fields, so two spaces in a row enclose an empty field.
pub open spec fn split_fields(s: Seq<u8>) -> Seq<Seq<u8>>
    decreases s.len(),
{
    if s.len() == 0 {
        seq![Seq::<u8>::empty()]
    } else {
        let before = split_fields(s.drop_last());
        if s.last() == SPACE {
            before.push(Seq::<u8>::empty())
        } else {
            before.update(before.len() - 1, before.last().push(s.last()))
        }
    }
}

/// The offset in the line body at which field `k` begins.
pub open spec fn field_start(fields: Seq<Seq<u8>>, k: int) -> int
    decreases k,
{
    if k <= 0 {
        0
    } else {
        field_start(fields, k - 1) + fields[k - 1].len() + 1
    }
}

/// The offset at which field `k` begins, or the length of the body where it
/// has no such field: the place that a syntax error names.
pub open spec fn field_position(fields: Seq<Seq<u8>>, body_len: nat, k: int) -> int {
    if k < fields.len() {
        field_start(fields, k)
    } else {
        body_len as int
    }
}

/// Whether a byte string holds no space.
pub open spec fn no_space(s: Seq<u8>) -> bool {
    forall|i: int| 0 <= i < s.len() ==> #[trigger] s[i] != SPACE
}

/// A line always has at least one field.
pub proof fn lemma_split_nonempty(s: Seq<u8>)
    ensures
        split_fields(s).len() >= 1,
    decreases s.len(),
{
    if s.len() > 0 {
        lemma_split_nonempty(s.drop_last());
    }
}

/// Where a field begins depends only on the fields before it.
pub proof fn lemma_field_start_prefix(a: Seq<Seq<u8>>, b: Seq<Seq<u8>>, k: int)
    requires
        0 <= k <= a.len(),
        k <= b.len(),
        forall|j: int| 0 <= j < k ==> a[j].len() == b[j].len(),
    ensures
        field_start(a, k) == field_start(b, k),
    decreases k,
{
    if k > 0 {
        lemma_field_start_prefix(a, b, k - 1);
    }
}

/// A byte string without spaces is a single field.
pub proof fn lemma_split_single(f: Seq<u8>)
    requires
        no_space(f),
    ensures
        split_fields(f) == seq![f],
    decreases f.len(),
{
    if f.len() == 0 {
        assert(f =~= Seq::<u8>::empty());
    } else {
        lemma_split_single(f.drop_last());
        assert(f.drop_last().push(f.last()) =~= f);
        assert(split_fields(f) =~= seq![f]);
    }
}

/// A space followed by a byte string without spaces adds one field.
pub proof fn lemma_split_append(a: Seq<u8>, f: Seq<u8>)
    requires
        no_space(f),
    ensures
        split_fields(a + seq![SPACE] + f) == split_fields(a).push(f),
    decreases f.len(),
{
    let s = a + seq![SPACE] + f;
    if f.len() == 0 {
        assert(s.drop_last() =~= a);
        assert(f =~= Seq::<u8>::empty());
    } else {
        lemma_split_append(a, f.drop_last());
        assert(s.drop_last() =~= a + seq![SPACE] + f.drop_last());
        assert(f.drop_last().push(f.last()) =~= f);
        assert(s.last() == f.last());
        assert(split_fields(s) =~= split_fields(a).push(f));
    }
}

/// The fields of a line as ranges of its bytes.
pub struct Fields {
    /// The first byte and the end of each field.
    pub ranges: Vec<(usize, usize)>,
}

impl Fields {
    /// Whether the ranges are the fields of `body`, in order.
    pub open spec fn describes(&self, body: Seq<u8>) -> bool {
        let fields = split_fields(body);
        &&& self.ranges@.len() == fields.len()
        &&& forall|k: int|
            0 <= k < self.ranges@.len() ==> {
                let r = #[trigger] self.ranges@[k];
                &&& r.0 <= r.1 <= body.len()
                &&& r.0 == field_start(fields, k)
                &&& body.subrange(r.0 as int, r.1 as int) == fields[k]
            }
    }

    /// The number of fields.
    pub fn count(&self) -> (n: usize)
        ensures
            n == self.ranges@.len(),
    {
        self.ranges.len()
    }

    /// The bytes of field `k` of the body, the first `n` bytes of `line`.
    pub fn field<'a>(&self, line: &'a [u8], n: usize, k: usize) -> (f: &'a [u8])
        requires
            n <= line@.len(),
            self.describes(line@.take(n as int)),
            k < self.ranges@.len(),
        ensures
            f@ == split_fields(line@.take(n as int))[k as int],
    {
        let r: (usize, usize) = self.ranges[k];
        assert(line@.take(n as int).subrange(r.0 as int, r.1 as int) =~= line@.subrange(
            r.0 as int,
            r.1 as int,
        ));
        slice_subrange(line, r.0, r.1)
    }

    /// The offset at which field `k` of the body begins, or the length of the
    /// body where it has no such field.
    pub fn position(&self, line: &[u8], n: usize, k: usize) -> (p: usize)
        requires
            n <= line@.len(),
            self.describes(line@.take(n as int)),
        ensures
            p == field_position(split_fields(line@.take(n as int)), n as nat, k as int),
    {
        if k < self.ranges.len() {
            self.ranges[k].0
        } else {
            n
        }
    }
}

/// Splits the first `n` bytes of a line into fields.
pub fn split_line(line: &[u8], n: usize) -> (fields: Fields)
    requires
        n <= line@.len(),
    ensures
        fields.describes(line@.take(n as int)),
        fields.ranges@.len() >= 1,
{
    let mut ranges: Vec<(usize, usize)> = Vec::new();
    let mut start: usize = 0;
    let mut i: usize = 0;
    proof {
        assert(line@.take(0) =~= Seq::<u8>::empty());
    }
    while i < n
        invariant
            i <= n <= line@.len(),
            start <= i,
            split_fields(line@.take(i as int)).len() == ranges@.len() + 1,
            start == field_start(split_fields(line@.take(i as int)), ranges@.len() as int),
            split_fields(line@.take(i as int))[ranges@.len() as int] == line@.subrange(
                start as int,
                i as int,
            ),
            forall|k: int|
                0 <= k < ranges@.len() ==> {
                    let r = #[trigger] ranges@[k];
                    &&& r.0 <= r.1 <= i
                    &&& r.0 == field_start(split_fields(line@.take(i as int)), k)
                    &&& line@.subrange(r.0 as int, r.1 as int) == split_fields(
                        line@.take(i as int),
                    )[k]
                },
        decreases n - i,
    {
        let ghost before = split_fields(line@.take(i as int));
        let ghost after = split_fields(line@.take(i + 1));
        proof {
            assert(line@.take(i + 1).drop_last() =~= line@.take(i as int));
            assert(line@.take(i + 1).last() == line@[i as int]);
        }
        if line[i] == SPACE {
            proof {
                assert(after == before.push(Seq::<u8>::empty()));
                assert(line@.subrange(i + 1, i + 1) =~= Seq::<u8>::empty());
                assert forall|k: int| 0 <= k <= ranges@.len() + 1 implies field_start(after, k)
                    == field_start(before, k) || k == ranges@.len() + 1 by {
                    if k <= ranges@.len() {
                        lemma_field_start_prefix(after, before, k);
                    }
                }
                lemma_field_start_prefix(after, before, ranges@.len() as int);
                assert(field_start(after, ranges@.len() as int + 1) == i + 1);
            }
            ranges.push((start, i));
            start = i + 1;
        } else {
            proof {
                assert(after == before.update(
                    before.len() - 1,
                    before.last().push(line@[i as int]),
                ));
                assert(line@.subrange(start as int, i + 1) =~= line@.subrange(
                    start as int,
                    i as int,
                ).push(line@[i as int]));
                assert forall|k: int| 0 <= k <= ranges@.len() implies field_start(after, k)
                    == field_start(before, k) by {
                    lemma_field_start_prefix(after, before, k);
                }
            }
        }
        i = i + 1;
    }
    ranges.push((start, n));
    let fields = Fields { ranges };
    proof {
        let body = line@.take(n as int);
        assert forall|k: int| 0 <= k < fields.ranges@.len() implies {
            let r = #[trigger] fields.ranges@[k];
            &&& r.0 <= r.1 <= body.len()
            &&& r.0 == field_start(split_fields(body), k)
            &&& body.subrange(r.0 as int, r.1 as int) == split_fields(body)[k]
        } by {
            let r = fields.ranges@[k];
            assert(body.subrange(r.0 as int, r.1 as int) =~= line@.subrange(r.0 as int, r.1 as int));
        }
    }
    fields
}

/// Fields put together again, with a space between each two.
pub open spec fn join_fields(fields: Seq<Seq<u8>>) -> Seq<u8>
    decreases fields.len(),
{
    if fields.len() == 0 {
        Seq::<u8>::empty()
    } else if fields.len() == 1 {
        fields[0]
    } else {
        join_fields(fields.drop_last()) + seq![SPACE] + fields.last()
    }
}

/// Splitting loses nothing: no field holds a space, the fields joined with
/// spaces are the line again, and the last field ends where the line ends.
pub proof fn law_split_is_lossless(s: Seq<u8>)
    ensures
        split_fields(s).len() >= 1,
        forall|k: int| 0 <= k < split_fields(s).len() ==> no_space(#[trigger] split_fields(s)[k]),
        join_fields(split_fields(s)) == s,
        field_start(split_fields(s), split_fields(s).len() - 1) + split_fields(s).last().len()
            == s.len(),
    decreases s.len(),
{
    let fields = split_fields(s);
    if s.len() == 0 {
        assert(fields[0] =~= s);
    } else {
        let t = s.drop_last();
        let before = split_fields(t);
        law_split_is_lossless(t);
        let n = before.len() as int;
        assert(t.push(s.last()) =~= s);
        if s.last() == SPACE {
            assert(fields.drop_last() =~= before);
            assert(join_fields(fields) =~= s);
            lemma_field_start_prefix(fields, before, n - 1);
            assert(fields[n - 1] == before[n - 1]);
        } else {
            assert forall|k: int| 0 <= k < fields.len() implies no_space(#[trigger] fields[k]) by {
                if k < n - 1 {
                    assert(fields[k] == before[k]);
                }
            }
            lemma_field_start_prefix(fields, before, n - 1);
            if n == 1 {
                assert(fields[0] =~= s);
            } else {
                assert(fields.drop_last() =~= before.drop_last());
                assert(join_fields(fields) =~= s);
            }
        }
    }
}

/// Every field begins inside the line, and so does whatever a syntax error
/// points at.
pub proof fn law_field_position_in_line(s: Seq<u8>, k: int)
    requires
        0 <= k,
    ensures
        0 <= field_position(split_fields(s), s.len(), k) <= s.len(),
{
    let fields = split_fields(s);
    law_split_is_lossless(s);
    if k < fields.len() {
        lemma_field_start_grows(fields, k, fields.len() - 1);
    }
}

/// Later fields begin further to the right.
pub proof fn lemma_field_start_grows(fields: Seq<Seq<u8>>, j: int, k: int)
    requires
        0 <= j <= k,
    ensures
        0 <= field_start(fields, j) <= field_start(fields, k),
    decreases k,
{
    if j < k {
        lemma_field_start_grows(fields, j, k - 1);
    } else if k > 0 {
        lemma_field_start_grows(fields, 0, k - 1);
    }
}

} // verus!
