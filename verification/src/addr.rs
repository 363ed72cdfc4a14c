//! Bluetooth addresses in colon-hexadecimal notation.
use vstd::prelude::*;

use crate::text::{hex_char_to_value, hex_char_value, hex_pair, push_char, push_hex_pair};

verus! {

/// The text of a byte sequence as upper-case hexadecimal pairs separated by colons,
/// as in `01:23:45:67:89:AB`.
pub open spec fn colon_hex(b: Seq<u8>) -> Seq<char>
    decreases b.len(),
{
    if b.len() == 0 {
        seq![]
    } else if b.len() == 1 {
        hex_pair(b[0])
    } else {
        colon_hex(b.drop_last()) + seq![':'] + hex_pair(b.last())
    }
}

/// The text of a byte sequence as upper-case hexadecimal pairs with nothing between them.
pub open spec fn compact_hex(b: Seq<u8>) -> Seq<char>
    decreases b.len(),
{
    if b.len() == 0 {
        seq![]
    } else {
        compact_hex(b.drop_last()) + hex_pair(b.last())
    }
}

/// The pieces of `s` between colons, in order. A text without colons is one piece;
/// the empty text is one empty piece.
pub open spec fn split_colon(s: Seq<char>) -> Seq<Seq<char>>
    decreases s.len(),
{
    if s.len() == 0 {
        seq![seq![]]
    } else {
        let init = split_colon(s.drop_last());
        if s.last() == ':' {
            init.push(seq![])
        } else {
            init.update(init.len() - 1, init.last().push(s.last()))
        }
    }
}

/// The value of a sequence of hexadecimal digits; `None` if any character is not one.
pub open spec fn hex_digits_value(d: Seq<char>) -> Option<nat>
    decreases d.len(),
{
    if d.len() == 0 {
        Some(0)
    } else {
        match (hex_digits_value(d.drop_last()), hex_char_value(d.last())) {
            (Some(v), Some(x)) => Some(v * 16 + x),
            _ => None,
        }
    }
}

/// The byte that a field denotes when read as a hexadecimal number: an optional `+`,
/// then at least one hexadecimal digit (either case, leading zeros allowed), with a
/// value below 256. `None` for any other field.
pub open spec fn field_value(f: Seq<char>) -> Option<u8> {
    let digits = if f.len() > 0 && f[0] == '+' {
        f.drop_first()
    } else {
        f
    };
    if digits.len() == 0 {
        None
    } else {
        match hex_digits_value(digits) {
            Some(v) => if v <= 255 {
                Some(v as u8)
            } else {
                None
            },
            None => None,
        }
    }
}

/// The bytes of a list of fields, or the first field that is not a byte.
pub open spec fn parse_fields(fs: Seq<Seq<char>>) -> Result<Seq<u8>, Seq<char>>
    decreases fs.len(),
{
    if fs.len() == 0 {
        Ok(seq![])
    } else {
        match parse_fields(fs.drop_last()) {
            Err(e) => Err(e),
            Ok(bs) => match field_value(fs.last()) {
                Some(b) => Ok(bs.push(b)),
                None => Err(fs.last()),
            },
        }
    }
}

/// The six bytes that a text in colon-hexadecimal notation denotes. On failure, the text
/// that the error carries: the first field that is not a hexadecimal byte, or, where all
/// fields are bytes but there are not six of them, the whole text.
pub open spec fn parse_address(s: Seq<char>) -> Result<Seq<u8>, Seq<char>> {
    match parse_fields(split_colon(s)) {
        Err(e) => Err(e),
        Ok(bs) => if bs.len() == 6 {
            Ok(bs)
        } else {
            Err(s)
        },
    }
}

/// The text views of a list of strings.
pub open spec fn string_views(v: Seq<String>) -> Seq<Seq<char>> {
    v.map_values(|x: String| x@)
}

/// Bluetooth address.
///
/// The serialized representation is a string in colon-hexadecimal notation.
#[derive(Clone, Copy, PartialEq, Eq, PartialOrd, Ord, Hash, Debug)]
pub struct Address(pub [u8; 6]);

impl View for Address {
    type V = Seq<u8>;

    open spec fn view(&self) -> Seq<u8> {
        self.0@
    }
}

/// Invalid Bluetooth address error.
#[derive(Debug, Clone)]
pub struct InvalidAddress(pub String);

impl Address {
    /// Creates a new Bluetooth address with the specified value.
    pub fn new(addr: [u8; 6]) -> (r: Self)
        ensures
            r@ == addr@,
    {
        Self(addr)
    }

    /// Any Bluetooth address.
    ///
    /// Corresponds to `00:00:00:00:00:00`.
    pub fn any() -> (r: Self)
        ensures
            r@ == seq![0u8, 0u8, 0u8, 0u8, 0u8, 0u8],
    {
        let r = Self([0; 6]);
        assert(r@ =~= seq![0u8, 0u8, 0u8, 0u8, 0u8, 0u8]);
        r
    }

    /// The six bytes of the address.
    pub fn bytes(&self) -> (r: &[u8; 6])
        ensures
            r@ == self@,
    {
        &self.0
    }

    /// The address in colon-hexadecimal notation, upper-case, as in `01:23:45:67:89:AB`.
    pub fn to_string(&self) -> (r: String)
        ensures
            r@ == colon_hex(self@),
    {
        let mut s = String::new();
        let mut i: usize = 0;
        while i < 6
            invariant
                i <= 6,
                self@.len() == 6,
                s@ == colon_hex(self@.take(i as int)),
            decreases 6 - i,
        {
            if i > 0 {
                push_char(&mut s, ':');
            }
            push_hex_pair(&mut s, self.0[i]);
            proof {
                let t = self@.take(i + 1);
                assert(t.drop_last() =~= self@.take(i as int));
                assert(t.last() == self@[i as int]);
                assert(s@ =~= colon_hex(t));
            }
            i = i + 1;
        }
        assert(self@.take(6) =~= self@);
        s
    }

    /// Parses an address in colon-hexadecimal notation: six fields separated by colons,
    /// each a hexadecimal number below 256 in either case.
    pub fn from_str(s: &str) -> (r: Result<Address, InvalidAddress>)
        ensures
            match parse_address(s@) {
                Ok(bs) => r matches Ok(a) && a@ == bs,
                Err(e) => r matches Err(err) && err.0@ == e,
            },
    {
        let fields = split_fields(s);
        let ghost fs = string_views(fields@);
        let mut bytes: Vec<u8> = Vec::new();
        let mut j: usize = 0;
        while j < fields.len()
            invariant
                j <= fields.len(),
                fs == string_views(fields@),
                fs == split_colon(s@),
                parse_fields(fs.take(j as int)) == Ok::<Seq<u8>, Seq<char>>(bytes@),
            decreases fields.len() - j,
        {
            let f = fields[j].as_str();
            assert(fs[j as int] == fields@[j as int]@);
            assert(fs.take(j + 1).drop_last() =~= fs.take(j as int));
            match parse_field(f) {
                Some(b) => {
                    bytes.push(b);
                },
                None => {
                    proof {
                        lemma_parse_fields_first_error(fs, j as int);
                    }
                    return Err(InvalidAddress(fields[j].clone()));
                },
            }
            j = j + 1;
        }
        assert(fs.take(fields.len() as int) =~= fs);
        if bytes.len() == 6 {
            let a = Address([bytes[0], bytes[1], bytes[2], bytes[3], bytes[4], bytes[5]]);
            assert(a@ =~= bytes@);
            Ok(a)
        } else {
            Err(InvalidAddress(s.to_owned()))
        }
    }
}

impl InvalidAddress {
    /// The error message: `invalid Bluetooth address: ` and the offending text.
    pub fn to_string(&self) -> (r: String)
        ensures
            r@ == "invalid Bluetooth address: "@ + self.0@,
    {
        let mut s = String::from_str("invalid Bluetooth address: ");
        s.append(self.0.as_str());
        s
    }
}

impl From<[u8; 6]> for Address {
    fn from(addr: [u8; 6]) -> (r: Self) {
        Self(addr)
    }
}

impl vstd::std_specs::convert::FromSpecImpl<[u8; 6]> for Address {
    open spec fn obeys_from_spec() -> bool {
        true
    }

    open spec fn from_spec(addr: [u8; 6]) -> Self {
        Address(addr)
    }
}

impl From<Address> for [u8; 6] {
    fn from(addr: Address) -> (r: [u8; 6]) {
        addr.0
    }
}

impl vstd::std_specs::convert::FromSpecImpl<Address> for [u8; 6] {
    open spec fn obeys_from_spec() -> bool {
        true
    }

    open spec fn from_spec(addr: Address) -> [u8; 6] {
        addr.0
    }
}

impl std::ops::Deref for Address {
    type Target = [u8; 6];

    fn deref(&self) -> (r: &[u8; 6])
        ensures
            r@ == self@,
    {
        &self.0
    }
}

impl std::str::FromStr for Address {
    type Err = InvalidAddress;

    fn from_str(s: &str) -> (r: Result<Address, InvalidAddress>)
        ensures
            match parse_address(s@) {
                Ok(bs) => r matches Ok(a) && a@ == bs,
                Err(e) => r matches Err(err) && err.0@ == e,
            },
    {
        Address::from_str(s)
    }
}

impl Default for Address {
    fn default() -> (r: Self)
        ensures
            r@ == seq![0u8, 0u8, 0u8, 0u8, 0u8, 0u8],
    {
        Self::any()
    }
}

/// Splits a text at its colons.
fn split_fields(s: &str) -> (r: Vec<String>)
    ensures
        string_views(r@) == split_colon(s@),
{
    let n = s.unicode_len();
    let mut fields: Vec<String> = Vec::new();
    let mut cur = String::new();
    let mut i: usize = 0;
    assert(s@.take(0) =~= Seq::<char>::empty());
    assert(string_views(fields@).push(cur@) =~= split_colon(s@.take(0)));
    while i < n
        invariant
            i <= n,
            n == s@.len(),
            string_views(fields@).push(cur@) == split_colon(s@.take(i as int)),
        decreases n - i,
    {
        let c = s.get_char(i);
        let ghost t = s@.take(i + 1);
        assert(t.drop_last() =~= s@.take(i as int));
        assert(t.last() == c);
        let ghost prev = split_colon(s@.take(i as int));
        if c == ':' {
            fields.push(cur);
            cur = String::new();
            assert(string_views(fields@).push(cur@) =~= prev.push(seq![]));
        } else {
            push_char(&mut cur, c);
            assert(string_views(fields@).push(cur@) =~= prev.update(
                prev.len() - 1,
                prev.last().push(c),
            ));
        }
        i = i + 1;
    }
    assert(s@.take(n as int) =~= s@);
    fields.push(cur);
    assert(string_views(fields@) =~= split_colon(s@));
    fields
}

/// Reads one field as a hexadecimal byte (see `field_value`).
fn parse_field(f: &str) -> (r: Option<u8>)
    ensures
        r == field_value(f@),
{
    let n = f.unicode_len();
    if n == 0 {
        return None;
    }
    let start: usize = if f.get_char(0) == '+' {
        1
    } else {
        0
    };
    let ghost digits = f@.subrange(start as int, n as int);
    assert(digits =~= (if f@.len() > 0 && f@[0] == '+' {
        f@.drop_first()
    } else {
        f@
    }));
    if start == n {
        return None;
    }
    let mut v: u32 = 0;
    let mut i: usize = start;
    assert(digits.take(0) =~= Seq::<char>::empty());
    while i < n
        invariant
            start <= i <= n,
            n == f@.len(),
            digits == f@.subrange(start as int, n as int),
            field_value(f@) == match hex_digits_value(digits) {
                Some(w) => if w <= 255 {
                    Some(w as u8)
                } else {
                    None
                },
                None => None,
            },
            hex_digits_value(digits.take(i - start)) is Some,
            v == min_256(hex_digits_value(digits.take(i - start)).unwrap()),
        decreases n - i,
    {
        let c = f.get_char(i);
        let ghost k = i - start;
        assert(digits.take(k + 1).drop_last() =~= digits.take(k));
        assert(digits.take(k + 1).last() == c);
        match hex_char_to_value(c) {
            None => {
                proof {
                    lemma_hex_digits_none_extends(digits, k + 1);
                }
                return None;
            },
            Some(x) => {
                v = if v >= 16 {
                    256
                } else {
                    v * 16 + x as u32
                };
            },
        }
        i = i + 1;
    }
    assert(digits.take(n - start) =~= digits);
    if v <= 255 {
        Some(v as u8)
    } else {
        None
    }
}

/// A natural number, or 256 where it is larger.
pub open spec fn min_256(x: nat) -> nat {
    if x > 256 {
        256
    } else {
        x
    }
}

/// A non-digit in a prefix makes the whole sequence a non-number.
proof fn lemma_hex_digits_none_extends(d: Seq<char>, k: int)
    requires
        0 <= k <= d.len(),
        hex_digits_value(d.take(k)) is None,
    ensures
        hex_digits_value(d) is None,
    decreases d.len(),
{
    if k < d.len() {
        assert(d.drop_last().take(k) =~= d.take(k));
        lemma_hex_digits_none_extends(d.drop_last(), k);
    } else {
        assert(d.take(k) =~= d);
    }
}

/// The first field that is not a byte is the error of the whole list.
proof fn lemma_parse_fields_first_error(fs: Seq<Seq<char>>, j: int)
    requires
        0 <= j < fs.len(),
        parse_fields(fs.take(j)) is Ok,
        field_value(fs[j]) is None,
    ensures
        parse_fields(fs) == Err::<Seq<u8>, Seq<char>>(fs[j]),
    decreases fs.len(),
{
    if j == fs.len() - 1 {
        assert(fs.drop_last() =~= fs.take(j));
    } else {
        assert(fs.drop_last().take(j) =~= fs.take(j));
        lemma_parse_fields_first_error(fs.drop_last(), j);
    }
}

/// No character of a hexadecimal pair is a colon or a plus sign.
proof fn lemma_hex_pair_plain(x: u8)
    ensures
        hex_pair(x).len() == 2,
        forall|i: int| 0 <= i < 2 ==> #[trigger] hex_pair(x)[i] != ':' && hex_pair(x)[i] != '+',
        hex_char_value(hex_pair(x)[0]) == Some((x / 16) as nat),
        hex_char_value(hex_pair(x)[1]) == Some((x % 16) as nat),
{
}

/// A hexadecimal pair reads back as its byte.
proof fn lemma_field_value_hex_pair(x: u8)
    ensures
        field_value(hex_pair(x)) == Some(x),
{
    lemma_hex_pair_plain(x);
    let d = hex_pair(x);
    assert(d.drop_last().drop_last() =~= Seq::<char>::empty());
    assert(hex_digits_value(Seq::<char>::empty()) == Some(0nat));
    assert(d.drop_last().last() == d[0]);
    assert(hex_digits_value(d.drop_last()) == Some((x / 16) as nat));
    assert(hex_digits_value(d) == Some(x as nat));
}

/// A text without colons is a single piece.
proof fn lemma_split_no_colon(t: Seq<char>)
    requires
        forall|i: int| 0 <= i < t.len() ==> #[trigger] t[i] != ':',
    ensures
        split_colon(t) == seq![t],
    decreases t.len(),
{
    if t.len() > 0 {
        lemma_split_no_colon(t.drop_last());
        assert(t.drop_last().push(t.last()) =~= t);
        assert(seq![t.drop_last()].update(0, t.drop_last().push(t.last())) =~= seq![t]);
    } else {
        assert(t =~= Seq::<char>::empty());
    }
}

/// A colon followed by a piece without colons adds that piece.
proof fn lemma_split_append(p: Seq<char>, t: Seq<char>)
    requires
        forall|i: int| 0 <= i < t.len() ==> #[trigger] t[i] != ':',
    ensures
        split_colon(p + seq![':'] + t) == split_colon(p).push(t),
    decreases t.len(),
{
    let s = p + seq![':'] + t;
    if t.len() == 0 {
        assert(s.drop_last() =~= p);
        assert(t =~= Seq::<char>::empty());
    } else {
        lemma_split_append(p, t.drop_last());
        assert(s.drop_last() =~= p + seq![':'] + t.drop_last());
        assert(s.last() == t.last());
        let init = split_colon(p).push(t.drop_last());
        assert(t.drop_last().push(t.last()) =~= t);
        assert(init.update(init.len() - 1, init.last().push(t.last())) =~= split_colon(p).push(t));
    }
}

/// The pieces of colon-hexadecimal text are the hexadecimal pairs.
proof fn lemma_split_colon_hex(b: Seq<u8>)
    requires
        b.len() >= 1,
    ensures
        split_colon(colon_hex(b)) == b.map_values(|x: u8| hex_pair(x)),
    decreases b.len(),
{
    lemma_hex_pair_plain(b.last());
    if b.len() == 1 {
        lemma_split_no_colon(hex_pair(b[0]));
        assert(b.map_values(|x: u8| hex_pair(x)) =~= seq![hex_pair(b[0])]);
    } else {
        lemma_split_colon_hex(b.drop_last());
        lemma_split_append(colon_hex(b.drop_last()), hex_pair(b.last()));
        assert(b.map_values(|x: u8| hex_pair(x)) =~= b.drop_last().map_values(|x: u8| hex_pair(x)).push(
            hex_pair(b.last()),
        ));
    }
}

/// Hexadecimal pairs read back as their bytes.
proof fn lemma_parse_hex_pairs(b: Seq<u8>)
    ensures
        parse_fields(b.map_values(|x: u8| hex_pair(x))) == Ok::<Seq<u8>, Seq<char>>(b),
    decreases b.len(),
{
    let fs = b.map_values(|x: u8| hex_pair(x));
    if b.len() > 0 {
        lemma_parse_hex_pairs(b.drop_last());
        assert(fs.drop_last() =~= b.drop_last().map_values(|x: u8| hex_pair(x)));
        lemma_field_value_hex_pair(b.last());
        assert(b.drop_last().push(b.last()) =~= b);
    } else {
        assert(b =~= Seq::<u8>::empty());
    }
}

/// Reading back the colon-hexadecimal text of any six bytes gives those bytes: what
/// `Address::to_string` writes, `Address::from_str` accepts and returns unchanged.
pub proof fn address_text_round_trip(b: Seq<u8>)
    requires
        b.len() == 6,
    ensures
        parse_address(colon_hex(b)) == Ok::<Seq<u8>, Seq<char>>(b),
{
    lemma_split_colon_hex(b);
    lemma_parse_hex_pairs(b);
}

/// An ASCII upper-case letter made lower-case; any other character unchanged.
pub open spec fn ascii_lower(c: char) -> char {
    if 65 <= c as int <= 90 {
        (c as int + 32) as char
    } else {
        c
    }
}

/// A text with its ASCII upper-case letters made lower-case.
pub open spec fn lower_text(t: Seq<char>) -> Seq<char> {
    t.map_values(|c: char| ascii_lower(c))
}

/// The lower-cased hexadecimal pair of a byte reads back as that byte and holds no colon.
proof fn lemma_lower_pair(x: u8)
    ensures
        lower_text(hex_pair(x)).len() == 2,
        forall|i: int| 0 <= i < 2 ==> #[trigger] lower_text(hex_pair(x))[i] != ':',
        field_value(lower_text(hex_pair(x))) == Some(x),
{
    lemma_hex_pair_plain(x);
    let d = lower_text(hex_pair(x));
    assert(d[0] == ascii_lower(hex_pair(x)[0]));
    assert(d[1] == ascii_lower(hex_pair(x)[1]));
    assert(hex_char_value(d[0]) == Some((x / 16) as nat));
    assert(hex_char_value(d[1]) == Some((x % 16) as nat));
    assert(d.drop_last().drop_last() =~= Seq::<char>::empty());
    assert(hex_digits_value(Seq::<char>::empty()) == Some(0nat));
    assert(d.drop_last().last() == d[0]);
    assert(hex_digits_value(d.drop_last()) == Some((x / 16) as nat));
    assert(hex_digits_value(d) == Some(x as nat));
}

/// The pieces of lower-cased colon-hexadecimal text are the lower-cased pairs.
proof fn lemma_split_lower_colon_hex(b: Seq<u8>)
    requires
        b.len() >= 1,
    ensures
        split_colon(lower_text(colon_hex(b))) == b.map_values(|x: u8| lower_text(hex_pair(x))),
    decreases b.len(),
{
    lemma_lower_pair(b.last());
    if b.len() == 1 {
        assert(lower_text(colon_hex(b)) == lower_text(hex_pair(b[0])));
        lemma_split_no_colon(lower_text(hex_pair(b[0])));
        assert(b.map_values(|x: u8| lower_text(hex_pair(x))) =~= seq![lower_text(hex_pair(b[0]))]);
    } else {
        lemma_split_lower_colon_hex(b.drop_last());
        let p = lower_text(colon_hex(b.drop_last()));
        let t = lower_text(hex_pair(b.last()));
        assert(lower_text(colon_hex(b)) =~= p + seq![':'] + t);
        lemma_split_append(p, t);
        assert(b.map_values(|x: u8| lower_text(hex_pair(x))) =~= b.drop_last().map_values(
            |x: u8| lower_text(hex_pair(x)),
        ).push(t));
    }
}

/// Lower-cased hexadecimal pairs read back as their bytes.
proof fn lemma_parse_lower_pairs(b: Seq<u8>)
    ensures
        parse_fields(b.map_values(|x: u8| lower_text(hex_pair(x)))) == Ok::<Seq<u8>, Seq<char>>(b),
    decreases b.len(),
{
    let fs = b.map_values(|x: u8| lower_text(hex_pair(x)));
    if b.len() > 0 {
        lemma_parse_lower_pairs(b.drop_last());
        assert(fs.drop_last() =~= b.drop_last().map_values(|x: u8| lower_text(hex_pair(x))));
        lemma_lower_pair(b.last());
        assert(b.drop_last().push(b.last()) =~= b);
    } else {
        assert(b =~= Seq::<u8>::empty());
    }
}

/// Reading back the lower-cased colon-hexadecimal text of any six bytes also gives those
/// bytes: `Address::from_str` accepts the address text in either case.
pub proof fn lower_address_text_round_trip(b: Seq<u8>)
    requires
        b.len() == 6,
    ensures
        parse_address(lower_text(colon_hex(b))) == Ok::<Seq<u8>, Seq<char>>(b),
{
    lemma_split_lower_colon_hex(b);
    lemma_parse_lower_pairs(b);
}

/// The test that keeps every character but the colon.
pub open spec fn not_colon() -> spec_fn(char) -> bool {
    |c: char| c != ':'
}

/// Filtering out colons leaves a text without colons unchanged.
proof fn lemma_filter_without_colons(t: Seq<char>)
    requires
        forall|i: int| 0 <= i < t.len() ==> #[trigger] t[i] != ':',
    ensures
        t.filter(not_colon()) == t,
    decreases t.len(),
{
    reveal(Seq::filter);
    if t.len() > 0 {
        lemma_filter_without_colons(t.drop_last());
        assert(t.drop_last().push(t.last()) =~= t);
    }
}

/// The compact text is the colon-hexadecimal text with its colons taken out.
pub proof fn compact_hex_drops_colons(b: Seq<u8>)
    ensures
        compact_hex(b) == colon_hex(b).filter(not_colon()),
    decreases b.len(),
{
    if b.len() > 0 {
        lemma_hex_pair_plain(b.last());
        let h = hex_pair(b.last());
        lemma_filter_without_colons(h);
        if b.len() == 1 {
            assert(compact_hex(b.drop_last()) =~= Seq::<char>::empty());
            assert(compact_hex(b) =~= h);
        } else {
            compact_hex_drops_colons(b.drop_last());
            let c = colon_hex(b.drop_last());
            Seq::filter_distributes_over_add(c + seq![':'], h, not_colon());
            Seq::filter_distributes_over_add(c, seq![':'], not_colon());
            assert(seq![':'].drop_last() =~= Seq::<char>::empty());
            reveal(Seq::filter);
            assert(Seq::<char>::empty().filter(not_colon()) =~= Seq::<char>::empty());
            assert(seq![':'].filter(not_colon()) =~= Seq::<char>::empty());
        }
    }
}

} // verus!
