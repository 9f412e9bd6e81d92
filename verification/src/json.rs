//! The JSON text over which authority sets and snapshots are digested.
//!
//! Objects keep the order of their members and have no white space, so one
//! value has one text. Numbers are written by `serde_json`.

use vstd::prelude::*;

use crate::ident::Identifier;
use crate::transcript::bytes_of;

verus! {

/// A number in decimal digits.
pub open spec fn decimal(n: nat) -> Seq<u8>
    decreases n,
{
    let digit = (48 + n % 10) as u8;
    if n < 10 {
        seq![digit]
    } else {
        decimal(n / 10).push(digit)
    }
}

/// Calls `serde_json::to_vec` on a number. It is taken to write the decimal
/// digits of the number without sign, leading zeros, or white space.
#[verifier::external_body]
pub(crate) fn number_text(n: u128) -> (r: Vec<u8>)
    ensures
        r@ == decimal(n as nat),
{
    serde_json::to_vec(&n).unwrap()
}

/// A name between quotation marks.
pub open spec fn quoted(name: Seq<u8>) -> Seq<u8> {
    seq![34u8] + name + seq![34u8]
}

/// The items of a list with commas between them.
pub open spec fn json_items(items: Seq<Seq<u8>>) -> Seq<u8>
    decreases items.len(),
{
    if items.len() == 0 {
        Seq::empty()
    } else if items.len() == 1 {
        items[0]
    } else {
        json_items(items.drop_last()) + seq![44u8] + items.last()
    }
}

/// A JSON array of items.
pub open spec fn json_array(items: Seq<Seq<u8>>) -> Seq<u8> {
    seq![91u8] + json_items(items) + seq![93u8]
}

/// A member of a JSON object: its name, a colon, and the text of its value.
#[verifier::opaque]
pub open spec fn json_member(name: Seq<u8>, value: Seq<u8>) -> Seq<u8> {
    quoted(name) + seq![58u8] + value
}

/// A JSON object of members.
pub open spec fn json_object(members: Seq<(Seq<u8>, Seq<u8>)>) -> Seq<u8> {
    seq![123u8] + json_items(
        members.map_values(|m: (Seq<u8>, Seq<u8>)| json_member(m.0, m.1)),
    ) + seq![125u8]
}

/// A JSON array of the numbers of a byte string.
#[verifier::opaque]
pub open spec fn json_bytes(data: Seq<u8>) -> Seq<u8> {
    json_array(data.map_values(|b: u8| decimal(b as nat)))
}

/// A JSON array of bytes, or `null`.
pub open spec fn json_slot(slot: Option<Identifier>) -> Seq<u8> {
    match slot {
        Some(id) => json_bytes(id@),
        None => bytes_of("null"),
    }
}

/// The lower-case hexadecimal digit of a number below 16.
pub open spec fn hex_digit(n: u8) -> u8 {
    if n < 10 {
        (48 + n) as u8
    } else {
        (87 + n) as u8
    }
}

/// The lower-case hexadecimal form of a byte string.
pub open spec fn hex(data: Seq<u8>) -> Seq<u8>
    decreases data.len(),
{
    if data.len() == 0 {
        Seq::empty()
    } else {
        hex(data.drop_last()).push(hex_digit(data.last() / 16)).push(hex_digit(data.last() % 16))
    }
}

/// The hexadecimal key under which a record is persisted.
pub fn id_key(id: &Identifier) -> (r: Vec<u8>)
    ensures
        r@ == hex(id@),
        r@.len() == 64,
{
    let mut out: Vec<u8> = Vec::new();
    let mut i: usize = 0;
    while i < 32
        invariant
            i <= 32,
            out@ == hex(id@.take(i as int)),
            out@.len() == 2 * i,
        decreases 32 - i,
    {
        let byte: u8 = id[i];
        out.push(hex_digit_of(byte / 16));
        out.push(hex_digit_of(byte % 16));
        proof {
            assert(id@.take(i + 1).drop_last() =~= id@.take(i as int));
        }
        i = i + 1;
    }
    assert(id@.take(32) =~= id@);
    out
}

fn hex_digit_of(n: u8) -> (r: u8)
    requires
        n < 16,
    ensures
        r == hex_digit(n),
{
    if n < 10 {
        48 + n
    } else {
        87 + n
    }
}

/// Whether a key is the lower-case hexadecimal form of an identifier.
pub open spec fn is_hex_key(value: Seq<u8>) -> bool {
    &&& value.len() == 64
    &&& forall|i: int| 0 <= i < value.len() ==> 48 <= #[trigger] value[i] <= 57 || 97 <= value[i] <= 102
}

/// Whether a key is the lower-case hexadecimal form of an identifier.
pub fn valid_hex_id(value: &[u8]) -> (r: bool)
    ensures
        r == is_hex_key(value@),
{
    if value.len() != 64 {
        return false;
    }
    let mut i: usize = 0;
    while i < 64
        invariant
            value@.len() == 64,
            i <= 64,
            forall|j: int| 0 <= j < i ==> 48 <= #[trigger] value@[j] <= 57 || 97 <= value@[j] <= 102,
        decreases 64 - i,
    {
        let byte: u8 = value[i];
        if !((48 <= byte && byte <= 57) || (97 <= byte && byte <= 102)) {
            return false;
        }
        i = i + 1;
    }
    true
}

/// Reads a persisted key back. Anything but 64 lower-case hexadecimal digits
/// is refused.
pub fn parse_id_key(value: &[u8]) -> (r: Option<Identifier>)
    ensures
        match r {
            Some(id) => is_hex_key(value@) && hex(id@) == value@,
            None => !is_hex_key(value@),
        },
{
    if !valid_hex_id(value) {
        return None;
    }
    let mut id: Identifier = crate::ident::ZERO;
    let mut i: usize = 0;
    while i < 32
        invariant
            i <= 32,
            is_hex_key(value@),
            hex(id@.take(i as int)) == value@.take(2 * i),
        decreases 32 - i,
    {
        let high: u8 = hex_value(value[2 * i]);
        let low: u8 = hex_value(value[2 * i + 1]);
        let ghost before = id@;
        id[i] = high * 16 + low;
        proof {
            let here = id@.take(i + 1);
            assert(here.drop_last() =~= before.take(i as int));
            assert(here.last() == high * 16 + low);
            assert(here.last() / 16 == high && here.last() % 16 == low);
            assert(hex(here) =~= value@.take(2 * (i + 1)));
        }
        i = i + 1;
    }
    assert(id@.take(32) =~= id@);
    assert(value@.take(64) =~= value@);
    Some(id)
}

fn hex_value(digit: u8) -> (r: u8)
    requires
        48 <= digit <= 57 || 97 <= digit <= 102,
    ensures
        r < 16,
        hex_digit(r) == digit,
{
    if digit <= 57 {
        digit - 48
    } else {
        digit - 87
    }
}

/// The hexadecimal form has two digits for each byte.
pub proof fn lemma_hex_shape(data: Seq<u8>)
    ensures
        hex(data).len() == 2 * data.len(),
        forall|i: int|
            0 <= i < hex(data).len() ==> 48 <= #[trigger] hex(data)[i] <= 57 || 97 <= hex(data)[i]
                <= 102,
    decreases data.len(),
{
    if data.len() > 0 {
        let rest = hex(data.drop_last());
        lemma_hex_shape(data.drop_last());
        let all = hex(data);
        assert forall|i: int| 0 <= i < all.len() implies 48 <= #[trigger] all[i] <= 57 || 97
            <= all[i] <= 102 by {
            if i < rest.len() {
                assert(all[i] == rest[i]);
            }
        }
    }
}

/// The hexadecimal form determines the bytes.
pub proof fn lemma_hex_injective(a: Seq<u8>, b: Seq<u8>)
    requires
        a.len() == b.len(),
        hex(a) == hex(b),
    ensures
        a == b,
    decreases a.len(),
{
    if a.len() == 0 {
        assert(a =~= b);
    } else {
        let x = hex(a.drop_last());
        let y = hex(b.drop_last());
        let a1 = hex_digit(a.last() / 16);
        let a2 = hex_digit(a.last() % 16);
        let b1 = hex_digit(b.last() / 16);
        let b2 = hex_digit(b.last() % 16);
        assert(x.push(a1).push(a2) == y.push(b1).push(b2));
        assert(x.push(a1).push(a2).last() == a2);
        assert(y.push(b1).push(b2).last() == b2);
        assert(x.push(a1).push(a2).drop_last() =~= x.push(a1));
        assert(y.push(b1).push(b2).drop_last() =~= y.push(b1));
        assert(x.push(a1).last() == a1);
        assert(y.push(b1).last() == b1);
        assert(x.push(a1).drop_last() =~= x);
        assert(y.push(b1).drop_last() =~= y);
        lemma_hex_injective(a.drop_last(), b.drop_last());
        assert(a =~= a.drop_last().push(a.last()));
        assert(b =~= b.drop_last().push(b.last()));
    }
}

fn extend(out: &mut Vec<u8>, data: &[u8])
    ensures
        final(out)@ == old(out)@ + data@,
{
    let mut i: usize = 0;
    while i < data.len()
        invariant
            i <= data@.len(),
            out@ == old(out)@ + data@.take(i as int),
        decreases data@.len() - i,
    {
        out.push(data[i]);
        i = i + 1;
        assert(out@ =~= old(out)@ + data@.take(i as int));
    }
    assert(data@.take(i as int) =~= data@);
}

/// The items of a JSON array or object, collected one at a time.
pub(crate) struct JsonList {
    text: Vec<u8>,
    items: Ghost<Seq<Seq<u8>>>,
}

impl JsonList {
    pub(crate) closed spec fn wf(&self) -> bool {
        &&& self.text@ == json_items(self.items@)
        &&& forall|i: int| 0 <= i < self.items@.len() ==> (#[trigger] self.items@[i]).len() > 0
    }

    /// The items added so far.
    pub(crate) closed spec fn items(&self) -> Seq<Seq<u8>> {
        self.items@
    }

    pub(crate) fn new() -> (r: Self)
        ensures
            r.wf(),
            r.items() == Seq::<Seq<u8>>::empty(),
    {
        let r = JsonList { text: Vec::new(), items: Ghost(Seq::empty()) };
        assert(r.text@ =~= json_items(r.items@));
        r
    }

    /// Adds an item.
    pub(crate) fn item(&mut self, data: &[u8])
        requires
            old(self).wf(),
            data@.len() > 0,
        ensures
            final(self).wf(),
            final(self).items() == old(self).items().push(data@),
    {
        proof {
            lemma_items_nonempty(self.items@);
        }
        if self.text.len() > 0 {
            self.text.push(44);
        }
        extend(&mut self.text, data);
        proof {
            let before = self.items@;
            self.items@ = before.push(data@);
            assert(self.items@.drop_last() =~= before);
            if before.len() == 0 {
                assert(self.text@ =~= data@);
                assert(self.items@[0] == data@);
            } else {
                assert(self.text@ =~= json_items(before) + seq![44u8] + data@);
            }
        }
    }

    /// Adds a name between quotation marks.
    pub(crate) fn quoted_item(&mut self, name: &[u8])
        requires
            old(self).wf(),
        ensures
            final(self).wf(),
            final(self).items() == old(self).items().push(quoted(name@)),
    {
        let mut text: Vec<u8> = Vec::new();
        text.push(34);
        extend(&mut text, name);
        text.push(34);
        assert(text@ =~= quoted(name@));
        self.item(text.as_slice());
    }

    /// Adds a member of an object.
    pub(crate) fn member(&mut self, name: &str, value: &[u8])
        requires
            old(self).wf(),
        ensures
            final(self).wf(),
            final(self).items() == old(self).items().push(json_member(bytes_of(name), value@)),
    {
        self.keyed(name.as_bytes(), value)
    }

    /// Adds a member of an object whose name is given in bytes.
    pub(crate) fn keyed(&mut self, name: &[u8], value: &[u8])
        requires
            old(self).wf(),
        ensures
            final(self).wf(),
            final(self).items() == old(self).items().push(json_member(name@, value@)),
    {
        let mut text: Vec<u8> = Vec::new();
        text.push(34);
        extend(&mut text, name);
        text.push(34);
        text.push(58);
        extend(&mut text, value);
        assert(text@ =~= json_member(name@, value@)) by {
            reveal(json_member);
        }
        self.item(text.as_slice());
    }

    /// The text of the array.
    pub(crate) fn array(&self) -> (r: Vec<u8>)
        requires
            self.wf(),
        ensures
            r@ == json_array(self.items()),
            r@.len() > 0,
    {
        let mut out: Vec<u8> = Vec::new();
        out.push(91);
        extend(&mut out, self.text.as_slice());
        out.push(93);
        assert(out@ =~= json_array(self.items()));
        out
    }

    /// The text of the object.
    pub(crate) fn object(&self, Ghost(members): Ghost<Seq<(Seq<u8>, Seq<u8>)>>) -> (r: Vec<u8>)
        requires
            self.wf(),
            self.items() == members.map_values(|m: (Seq<u8>, Seq<u8>)| json_member(m.0, m.1)),
        ensures
            r@ == json_object(members),
            r@.len() > 0,
    {
        let mut out: Vec<u8> = Vec::new();
        out.push(123);
        extend(&mut out, self.text.as_slice());
        out.push(125);
        assert(out@ =~= json_object(members));
        out
    }
}

proof fn lemma_items_nonempty(items: Seq<Seq<u8>>)
    requires
        forall|i: int| 0 <= i < items.len() ==> (#[trigger] items[i]).len() > 0,
    ensures
        json_items(items).len() > 0 <==> items.len() > 0,
{
    if items.len() > 0 {
        assert(items[items.len() - 1].len() > 0);
    }
}

pub proof fn lemma_decimal_nonempty(n: nat)
    ensures
        decimal(n).len() > 0,
    decreases n,
{
}

/// The JSON array of the numbers of a byte string.
pub(crate) fn bytes_text(data: &[u8]) -> (r: Vec<u8>)
    ensures
        r@ == json_bytes(data@),
        r@.len() > 0,
{
    let mut list = JsonList::new();
    let mut i: usize = 0;
    while i < data.len()
        invariant
            i <= data@.len(),
            list.wf(),
            list.items() == data@.take(i as int).map_values(|b: u8| decimal(b as nat)),
        decreases data@.len() - i,
    {
        proof {
            lemma_decimal_nonempty(data@[i as int] as nat);
        }
        list.item(number_text(data[i] as u128).as_slice());
        i = i + 1;
        assert(list.items() =~= data@.take(i as int).map_values(|b: u8| decimal(b as nat)));
    }
    assert(data@.take(i as int) =~= data@);
    proof {
        reveal(json_bytes);
    }
    list.array()
}

/// The JSON array of an optional identifier, or `null`.
pub(crate) fn slot_text(slot: &Option<Identifier>) -> (r: Vec<u8>)
    ensures
        r@ == json_slot(*slot),
{
    match slot {
        Some(id) => bytes_text(id),
        None => literal_text("null"),
    }
}

/// A fixed text, as bytes.
pub(crate) fn literal_text(text: &str) -> (r: Vec<u8>)
    ensures
        r@ == bytes_of(text),
{
    let mut out: Vec<u8> = Vec::new();
    extend(&mut out, text.as_bytes());
    assert(out@ =~= bytes_of(text));
    out
}

} // verus!
